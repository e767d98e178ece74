# taraference

CUDA inference of GGUF models for one user at a time: the program `tarafer` chats
on the command line, answers OpenAI requests over HTTP, and profiles itself.

`src/` is the verified library. It holds every rule that can be stated over plain
values:

| Module | What it decides |
|--------|-----------------|
| `gguf` | the file format: header, metadata, tensors |
| `config`, `backend` | hyper-parameters, and what a model family asks for |
| `tokenizer` | texts as token numbers and back |
| `quant`, `cuda::repack` | number formats, as bits |
| `cuda::device`, `cuda::decode` | kernels, attention backends, tuning |
| `cuda::matmul`, `cuda::layer`, `cuda::forward` | which kernels run, with which arguments and shapes |
| `cuda::load`, `cuda::moe_pack`, `cuda::model`, `cuda::kv` | what is loaded, buffers and caches |
| `chat`, `session`, `sampler`, `engine` | prompts, drafts, candidates, set-up |
| `cli` | downloads, updates, requests and reports |

A forward pass is a plan: lists of launches, each with its kernel, arguments and
shape. The contracts say which launches a model, a chunk of tokens and the flags
give. Floating-point numbers are held as their bits.

`app/` is the program around it: it opens the card, copies weights, launches the
plans, and does the floating-point arithmetic, the files and the network. The
device source (`common.cu`, `gemm.cu`, `gemv.cu`, `embed.cu`, `ops.cu`) is read
from `kernels/`, or from the directory that `TARAFER_KERNEL_DIR` names.

`tests/` runs the library on concrete values.
