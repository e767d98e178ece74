//! Setting up a model for requests, and what a request asks of it.
use crate::backend::BackendKind;
use crate::chat::{chatml, format_chatml, message_views, ChatMessage};
use crate::cuda::decode::DecodeBackend;
use crate::path::{
    file_name, file_stem, law_one_reading, name_by, portable, reads, slashes, stem_of,
};
use crate::sampler::SamplingOptions;
use crate::session::SessionOptions;
use crate::text::maybe_text;
use vstd::prelude::*;

verus! {

/// Why a model cannot be set up, or a request not be answered.
#[derive(Debug)]
pub enum EngineError {
    /// The tokenizer that was named is no file.
    TokenizerNotFile(String),
    NoTokenizer,
    NotAPack(String),
    NoMessages,
}

/// The same as a mathematical value.
pub enum EngineErrorView {
    TokenizerNotFile(Seq<char>),
    NoTokenizer,
    NotAPack(Seq<char>),
    NoMessages,
}

impl View for EngineError {
    type V = EngineErrorView;

    open spec fn view(&self) -> EngineErrorView {
        match *self {
            EngineError::TokenizerNotFile(p) => EngineErrorView::TokenizerNotFile(p@),
            EngineError::NoTokenizer => EngineErrorView::NoTokenizer,
            EngineError::NotAPack(p) => EngineErrorView::NotAPack(p@),
            EngineError::NoMessages => EngineErrorView::NoMessages,
        }
    }
}

impl EngineErrorView {
    /// The sentence that tells the error.
    pub open spec fn sentence(self) -> Seq<char> {
        match self {
            EngineErrorView::TokenizerNotFile(p) => "TARAFER_TOKENIZER_GGUF not a file: "@ + p,
            EngineErrorView::NoTokenizer =>
                "MoE pack needs a tokenizer GGUF. Set TARAFER_TOKENIZER_GGUF=path/to/tara-sprint-*.gguf (same vocab as training) or place tokenizer.gguf next to meta.json"@,
            EngineErrorView::NotAPack(p) => "directory "@ + p
                + " is not a Tara MoE pack (missing meta.json)"@,
            EngineErrorView::NoMessages => "messages must not be empty"@,
        }
    }
}

impl EngineError {
    /// The sentence that tells the error.
    pub fn message(&self) -> (r: String)
        ensures
            r@ == self@.sentence(),
    {
        let mut out: String = String::new();
        match self {
            EngineError::TokenizerNotFile(p) => {
                out.append("TARAFER_TOKENIZER_GGUF not a file: ");
                out.append(p.as_str());
            },
            EngineError::NoTokenizer => {
                out.append(
                    "MoE pack needs a tokenizer GGUF. Set TARAFER_TOKENIZER_GGUF=path/to/tara-sprint-*.gguf (same vocab as training) or place tokenizer.gguf next to meta.json",
                );
            },
            EngineError::NotAPack(p) => {
                out.append("directory ");
                out.append(p.as_str());
                out.append(" is not a Tara MoE pack (missing meta.json)");
            },
            EngineError::NoMessages => {
                out.append("messages must not be empty");
            },
        }
        proof {
            assert(out@ == self@.sentence());
        }
        out
    }
}

/// The files that are tried as a tokenizer when nothing else is there.
pub open spec fn candidate_names() -> Seq<Seq<char>> {
    seq![
        "models/tara-sprint-80m-Q8_0.gguf"@,
        "models/tara-sprint-50m-Q8_0.gguf"@,
        "models/tara-sprint-150m-Q8_0.gguf"@,
    ]
}

/// The files that are tried as a tokenizer when nothing else is there.
pub fn default_tokenizer_candidates() -> (r: Vec<&'static str>)
    ensures
        r@.map_values(|s: &'static str| s@) == candidate_names(),
        r@.len() == 3,
{
    let out: Vec<&'static str> = vec![
        "models/tara-sprint-80m-Q8_0.gguf",
        "models/tara-sprint-50m-Q8_0.gguf",
        "models/tara-sprint-150m-Q8_0.gguf",
    ];
    proof {
        assert(out@.map_values(|s: &'static str| s@) =~= candidate_names());
    }
    out
}

/// Where a tokenizer is found.
#[derive(Debug, Clone, Copy, PartialEq, Eq, Structural)]
pub enum TokenizerFile {
    /// The file that was named.
    Named,
    /// The file in the pack.
    Local,
    /// One of the candidates, by its place.
    Candidate(usize),
}

/// Where the tokenizer of a pack is found: the file that was named and no other;
/// else the one in the pack; else the first candidate that is there.
pub fn resolve_tokenizer(named: Option<(&str, bool)>, local: bool, present: &[bool]) -> (r: Result<
    TokenizerFile,
    EngineError,
>)
    ensures
        match named {
            Some(n) => if n.1 {
                r == Ok::<TokenizerFile, EngineError>(TokenizerFile::Named)
            } else {
                r is Err && r->Err_0@ == EngineErrorView::TokenizerNotFile(n.0@)
            },
            None => if local {
                r == Ok::<TokenizerFile, EngineError>(TokenizerFile::Local)
            } else {
                match r {
                    Ok(TokenizerFile::Candidate(i)) => {
                        &&& i < present@.len()
                        &&& present@[i as int]
                        &&& forall|k: int| 0 <= k < i ==> !present@[k]
                    },
                    Ok(_) => false,
                    Err(e) => {
                        &&& e@ == EngineErrorView::NoTokenizer
                        &&& forall|k: int| 0 <= k < present@.len() ==> !present@[k]
                    },
                }
            },
        },
{
    match named {
        Some(n) => {
            if n.1 {
                return Ok(TokenizerFile::Named);
            }
            return Err(EngineError::TokenizerNotFile(n.0.to_owned()));
        },
        None => {},
    }
    if local {
        return Ok(TokenizerFile::Local);
    }
    let mut i: usize = 0;
    while i < present.len()
        invariant
            i <= present@.len(),
            named is None,
            !local,
            forall|k: int| 0 <= k < i ==> !present@[k],
        decreases present@.len() - i,
    {
        if present[i] {
            return Ok(TokenizerFile::Candidate(i));
        }
        i = i + 1;
    }
    Err(EngineError::NoTokenizer)
}

/// How a model is set up.
#[derive(Debug)]
pub struct EngineConfig {
    pub model_path: String,
    pub max_seq: usize,
    pub max_new: usize,
    pub decode: DecodeBackend,
    pub default_system: String,
    /// Record the decoding of single tokens.
    pub cuda_graph: bool,
}

impl Default for EngineConfig {
    fn default() -> (r: EngineConfig)
        ensures
            r.model_path@.len() == 0,
            r.max_seq == 5000,
            r.max_new == 512,
            r.decode.wf(),
            r.decode.view().is_default,
            r.default_system@ == "You are a helpful assistant."@,
            r.cuda_graph,
    {
        EngineConfig {
            model_path: String::new(),
            max_seq: 5000,
            max_new: 512,
            decode: DecodeBackend::default(),
            default_system: "You are a helpful assistant.".to_owned(),
            cuda_graph: true,
        }
    }
}

impl EngineConfig {
    /// The usual set-up of a model, with these choices.
    pub fn with_flags(
        model: &str,
        decode: DecodeBackend,
        max_seq: usize,
        max_new: usize,
        cuda_graph: bool,
    ) -> (r: EngineConfig)
        ensures
            r.model_path@ == model@,
            r.max_seq == max_seq,
            r.max_new == max_new,
            r.decode == decode,
            r.default_system@ == "You are a helpful assistant."@,
            r.cuda_graph == cuda_graph,
    {
        EngineConfig {
            model_path: model.to_owned(),
            max_seq,
            max_new,
            decode,
            default_system: "You are a helpful assistant.".to_owned(),
            cuda_graph,
        }
    }

    /// The usual set-up of a model.
    pub fn for_path(model: &str, decode: DecodeBackend, max_seq: usize, max_new: usize) -> (r:
        EngineConfig)
        ensures
            r.model_path@ == model@,
            r.max_seq == max_seq,
            r.max_new == max_new,
            r.decode == decode,
            r.default_system@ == "You are a helpful assistant."@,
            r.cuda_graph,
    {
        EngineConfig::with_flags(model, decode, max_seq, max_new, true)
    }
}

/// What a request asks for: a prompt, and how the reply is generated.
#[derive(Debug)]
pub struct Completion {
    pub prompt: String,
    pub opts: SessionOptions,
}

/// Tokens of a reply: as asked, or else as usual, and at least one.
pub open spec fn reply_limit(asked: Option<usize>, usual: usize) -> usize {
    let n = match asked {
        Some(n) => n,
        None => usual,
    };
    if n == 0 {
        1
    } else {
        n
    }
}

/// What a request asks for: the messages as one prompt without thinking, and a
/// quiet session.
pub fn plan_completion(
    messages: &[ChatMessage],
    max_tokens: Option<usize>,
    max_new: usize,
    default_system: &str,
    sampling: SamplingOptions,
    seed: u64,
) -> (r: Result<Completion, EngineError>)
    ensures
        match r {
            Ok(c) => {
                &&& messages@.len() > 0
                &&& c.prompt@ == chatml(message_views(messages@), Some(default_system@), false)
                &&& c.opts.max_new == reply_limit(max_tokens, max_new)
                &&& c.opts.system@ == default_system@
                &&& !c.opts.print_stream
                &&& !c.opts.print_stats
                &&& !c.opts.enable_thinking
                &&& c.opts.sampling == sampling
                &&& c.opts.seed == seed
            },
            Err(e) => messages@.len() == 0 && e@ == EngineErrorView::NoMessages,
        },
{
    if messages.len() == 0 {
        return Err(EngineError::NoMessages);
    }
    let wanted: usize = match max_tokens {
        Some(n) => n,
        None => max_new,
    };
    let limit: usize = if wanted == 0 {
        1
    } else {
        wanted
    };
    Ok(
        Completion {
            prompt: format_chatml(messages, Some(default_system), false),
            opts: SessionOptions {
                max_new: limit,
                system: default_system.to_owned(),
                print_stream: false,
                print_stats: false,
                enable_thinking: false,
                sampling,
                seed,
            },
        },
    )
}

/// Positions of the cache, and those that were asked for where they differ.
pub fn cache_positions(
    backend: BackendKind,
    asked: usize,
    model_ctx: usize,
    weight_bytes: u64,
    long_ctx: bool,
) -> (r: (usize, Option<usize>))
    ensures
        r.0 == backend.spec_max_seq(asked, model_ctx, weight_bytes, long_ctx),
        r.1 == (if r.0 != (if asked < model_ctx {
            asked
        } else {
            model_ctx
        }) {
            Some(
                if asked < model_ctx {
                    asked
                } else {
                    model_ctx
                },
            )
        } else {
            None
        }),
{
    let requested: usize = if asked < model_ctx {
        asked
    } else {
        model_ctx
    };
    let max_seq: usize = backend.max_seq(asked, model_ctx, weight_bytes, long_ctx);
    if max_seq != requested {
        (max_seq, Some(requested))
    } else {
        (max_seq, None)
    }
}

/// The name under which a model is served: that of its file or directory, or a
/// usual one where it has none.
pub open spec fn served_name(found: Option<Seq<char>>, pack: bool) -> Seq<char> {
    match found {
        Some(s) => s,
        None => if pack {
            "tara-moe"@
        } else {
            "taraference"@
        },
    }
}

/// The name under which a model is served, of the name that its path has.
pub fn name_or_usual(found: Option<String>, pack: bool) -> (r: String)
    ensures
        r@ == served_name(maybe_text(found), pack),
{
    match found {
        Some(s) => s,
        None => if pack {
            "tara-moe".to_owned()
        } else {
            "taraference".to_owned()
        },
    }
}

/// What the last name of a path says of the model: a pack is a directory, and a file
/// has an extension.
pub open spec fn id_of(name: Option<Seq<char>>, pack: bool) -> Option<Seq<char>> {
    if pack {
        name
    } else {
        stem_of(name)
    }
}

/// The name under which a model is served: that of its file without the extension,
/// or that of the directory of a pack, and a usual one where the path names none.
pub fn model_id(path: &str, pack: bool) -> (r: String)
    ensures
        exists|name: Option<Seq<char>>| #[trigger]
            reads(path@, name) && r@ == served_name(id_of(name, pack), pack),
        portable(path@) ==> r@ == served_name(id_of(name_by(path@, slashes()), pack), pack),
{
    proof {
        if portable(path@) {
            assert forall|name: Option<Seq<char>>| #[trigger] reads(path@, name) implies name
                == name_by(path@, slashes()) by {
                law_one_reading(path@, name);
            }
        }
    }
    let found: Option<String> = if pack {
        file_name(path)
    } else {
        file_stem(path)
    };
    name_or_usual(found, pack)
}

/// A reply may have as many tokens as are asked for, else as many as usual, and never
/// none.
pub proof fn law_reply_limit(n: usize, usual: usize)
    ensures
        reply_limit(Some(n), usual) >= 1,
        reply_limit(None, usual) >= 1,
        n >= 1 ==> reply_limit(Some(n), usual) == n,
        usual >= 1 ==> reply_limit(None, usual) == usual,
        reply_limit(Some(n), usual) <= n + 1,
{
}

/// A model is served under the name that is found for it; without one it has the name
/// of its kind.
pub proof fn law_served_name(name: Seq<char>, pack: bool)
    ensures
        served_name(Some(name), pack) == name,
        served_name(None, true) == "tara-moe"@,
        served_name(None, false) == "taraference"@,
{
}

} // verus!
