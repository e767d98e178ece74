//! Hyper-parameters of a model, as the metadata of its file gives them.
use crate::gguf::reader::GgufFile;
use crate::gguf::value::{FloatBits, ValueView};
use crate::text::{decimal, push_decimal, same_text};
use vstd::prelude::*;

verus! {

/// What a layer mixes tokens with.
#[derive(Debug, Clone, Copy, PartialEq, Eq, Structural)]
pub enum LayerKind {
    /// Softmax attention over a key and value cache.
    FullAttention,
    /// Gated DeltaNet linear attention over a fixed-size state.
    LinearAttention,
}

/// How the router weighs the experts that it picks.
#[derive(Debug, Clone, Copy, PartialEq, Eq, Structural)]
pub enum RouterWeightMode {
    /// Softmax over the scores of the picked experts.
    SelectedSoftmax,
}

impl RouterWeightMode {
    /// The name of the mode.
    pub open spec fn spec_name(self) -> Seq<char> {
        "selected_softmax"@
    }

    /// The name of the mode.
    pub fn as_str(self) -> (r: &'static str)
        ensures
            r@ == self.spec_name(),
    {
        "selected_softmax"
    }

    /// The mode that a pack names; a pack that names none uses the default.
    pub fn from_metadata(name: Option<&str>) -> (r: Result<RouterWeightMode, ConfigError>)
        ensures
            match name {
                None => r == Result::<RouterWeightMode, ConfigError>::Ok(
                    RouterWeightMode::SelectedSoftmax,
                ),
                Some(s) => match r {
                    Ok(m) => s@ == m.spec_name(),
                    Err(e) => s@ != RouterWeightMode::SelectedSoftmax.spec_name() && e@
                        == ConfigErrorView::RouterMode(s@),
                },
            },
    {
        match name {
            None => Ok(RouterWeightMode::SelectedSoftmax),
            Some(s) => if same_text(s, "selected_softmax") {
                Ok(RouterWeightMode::SelectedSoftmax)
            } else {
                Err(ConfigError::RouterMode(s.to_owned()))
            },
        }
    }
}

/// Why a configuration is refused.
#[derive(Debug)]
pub enum ConfigError {
    MissingArchitecture,
    Missing(String),
    HeadLengths { key: usize, value: usize },
    VocabSize,
    RouterMode(String),
}

/// A configuration error as a mathematical value.
pub enum ConfigErrorView {
    MissingArchitecture,
    Missing(Seq<char>),
    HeadLengths { key: usize, value: usize },
    VocabSize,
    RouterMode(Seq<char>),
}

impl View for ConfigError {
    type V = ConfigErrorView;

    open spec fn view(&self) -> ConfigErrorView {
        match self {
            ConfigError::MissingArchitecture => ConfigErrorView::MissingArchitecture,
            ConfigError::Missing(s) => ConfigErrorView::Missing(s@),
            ConfigError::HeadLengths { key, value } => ConfigErrorView::HeadLengths {
                key: *key,
                value: *value,
            },
            ConfigError::VocabSize => ConfigErrorView::VocabSize,
            ConfigError::RouterMode(s) => ConfigErrorView::RouterMode(s@),
        }
    }
}

impl ConfigErrorView {
    /// The sentence that tells the error.
    pub open spec fn sentence(self) -> Seq<char> {
        match self {
            ConfigErrorView::MissingArchitecture => "missing general.architecture"@,
            ConfigErrorView::Missing(key) => "missing "@ + key,
            ConfigErrorView::HeadLengths { key, value } =>
                "different attention key/value lengths are unsupported: key="@ + decimal(key as nat)
                + ", value="@ + decimal(value as nat),
            ConfigErrorView::VocabSize => "vocab size"@,
            ConfigErrorView::RouterMode(s) => "unknown router weight mode "@ + s,
        }
    }
}

impl ConfigError {
    /// The sentence that tells the error.
    pub fn message(&self) -> (r: String)
        ensures
            r@ == self@.sentence(),
    {
        let mut out: String = String::new();
        match self {
            ConfigError::MissingArchitecture => {
                out.append("missing general.architecture");
            },
            ConfigError::Missing(key) => {
                out.append("missing ");
                out.append(key.as_str());
            },
            ConfigError::HeadLengths { key, value } => {
                out.append("different attention key/value lengths are unsupported: key=");
                push_decimal(&mut out, *key as u64);
                out.append(", value=");
                push_decimal(&mut out, *value as u64);
            },
            ConfigError::VocabSize => {
                out.append("vocab size");
            },
            ConfigError::RouterMode(s) => {
                out.append("unknown router weight mode ");
                out.append(s.as_str());
            },
        }
        proof {
            assert(out@ == self@.sentence());
        }
        out
    }
}

/// Hyper-parameters of a model.
#[derive(Debug)]
pub struct ModelConfig {
    pub architecture: String,
    pub n_vocab: usize,
    pub n_embd: usize,
    pub n_layer: usize,
    pub n_head: usize,
    pub n_head_kv: usize,
    pub attention_head_dim: usize,
    /// Every layer of this interval has no rotary embedding; zero for none.
    pub no_rope_layer_interval: usize,
    pub n_ff: usize,
    pub n_ctx: usize,
    pub rope_theta: FloatBits,
    pub rms_eps: FloatBits,
    /// Rotated dimensions of each head.
    pub rope_dim: usize,
    /// Whether the query projection also holds an output gate.
    pub fused_q_gate: bool,
    pub ssm_conv_kernel: usize,
    pub ssm_state_size: usize,
    pub ssm_n_k_heads: usize,
    pub ssm_n_v_heads: usize,
    pub ssm_inner_size: usize,
    /// The kind of each layer.
    pub layer_kinds: Vec<LayerKind>,
    /// Experts of a sparse layer; zero for a dense model.
    pub n_experts: usize,
    pub router_top_k: usize,
    pub router_weight_mode: RouterWeightMode,
    pub expert_ff: usize,
    pub num_dense_layers: usize,
}

/// `1_000_000.0` in single precision.
pub const DEFAULT_ROPE_THETA: u32 = 0x4974_2400;

/// `1e-6` in single precision.
pub const DEFAULT_RMS_EPS: u32 = 0x3586_37bd;

/// The metadata key `name` of an architecture.
pub open spec fn key_of(arch: Seq<char>, name: Seq<char>) -> Seq<char> {
    arch + "."@ + name
}

/// A metadata value as a count: as a `u32`, else as the low half of a `u64`.
pub open spec fn count_of(v: Option<ValueView>) -> Option<u32> {
    match v {
        None => None,
        Some(v) => match v.as_u32() {
            Some(n) => Some(n),
            None => match v.as_u64() {
                Some(n) => Some(n as u32),
                None => None,
            },
        },
    }
}

/// A metadata value as a floating-point number, or `other`.
pub open spec fn float_of(v: Option<ValueView>, other: u32) -> FloatBits {
    match v {
        None => FloatBits::Single(other),
        Some(v) => match v.as_f32() {
            Some(b) => b,
            None => FloatBits::Single(other),
        },
    }
}

/// What a file says of the hyper-parameters, key by key.
pub struct FileSays<'a> {
    pub file: GgufFile<'a>,
}

impl<'a> FileSays<'a> {
    /// The architecture.
    pub open spec fn arch(self) -> Option<Seq<char>> {
        match self.file.meta("general.architecture"@) {
            Some(v) => v.as_str(),
            None => None,
        }
    }

    /// The count under a key of the architecture.
    pub open spec fn count(self, name: Seq<char>) -> Option<u32> {
        count_of(self.file.meta(key_of(self.arch()->0, name)))
    }

    /// The count under a key of the architecture, or `other`.
    pub open spec fn count_or(self, name: Seq<char>, other: int) -> int {
        match self.count(name) {
            Some(n) => n as int,
            None => other,
        }
    }

    /// The floating-point number under a key of the architecture, or `other`.
    pub open spec fn float_or(self, name: Seq<char>, other: u32) -> FloatBits {
        float_of(self.file.meta(key_of(self.arch()->0, name)), other)
    }

    /// Whether layers of both kinds may occur.
    pub open spec fn hybrid(self) -> bool {
        self.arch()->0 == "qwen35"@ || self.arch()->0 == "qwen3_5"@
    }

    /// The length of one attention head.
    pub open spec fn head_dim(self) -> int {
        self.count_or(
            "attention.key_length"@,
            (self.count_or("embedding_length"@, 0) / self.count_or("attention.head_count"@, 1)),
        )
    }

    /// The length of the value part of a head.
    pub open spec fn value_dim(self) -> int {
        self.count_or("attention.value_length"@, self.head_dim())
    }

    /// The size of the vocabulary: the metadata, else the embedding table.
    pub open spec fn vocab(self) -> Option<usize> {
        match self.count("vocab_size"@) {
            Some(n) => Some(n as usize),
            None => {
                let table = "token_embd.weight"@;
                if self.file.tensor_index@.contains_key(table)
                    && self.file.tensors@[self.file.tensor_index@[table] as int].dims@.len() > 1 {
                    Some(self.file.tensors@[self.file.tensor_index@[table] as int].dims@[1] as usize)
                } else {
                    None
                }
            },
        }
    }

    /// Full attention comes back after this many layers.
    pub open spec fn interval(self) -> int {
        let n = self.count_or("full_attention_interval"@, 4);
        if n < 1 {
            1
        } else {
            n
        }
    }

    /// The first required key that the file lacks, or the first rule that it
    /// breaks.
    pub open spec fn error(self) -> Option<ConfigErrorView> {
        let missing = |name: Seq<char>|
            Some(ConfigErrorView::Missing(key_of(self.arch()->0, name)));
        if self.arch() is None {
            Some(ConfigErrorView::MissingArchitecture)
        } else if self.count("embedding_length"@) is None {
            missing("embedding_length"@)
        } else if self.count("block_count"@) is None {
            missing("block_count"@)
        } else if self.count("attention.head_count"@) is None {
            missing("attention.head_count"@)
        } else if self.value_dim() != self.head_dim() {
            Some(
                ConfigErrorView::HeadLengths {
                    key: self.head_dim() as usize,
                    value: self.value_dim() as usize,
                },
            )
        } else if self.count("feed_forward_length"@) is None {
            missing("feed_forward_length"@)
        } else if self.vocab() is None {
            Some(ConfigErrorView::VocabSize)
        } else if !self.hybrid() {
            None
        } else if self.count("ssm.state_size"@) is None {
            missing("ssm.state_size"@)
        } else if self.count("ssm.group_count"@) is None {
            missing("ssm.group_count"@)
        } else if self.count("ssm.time_step_rank"@) is None {
            missing("ssm.time_step_rank"@)
        } else {
            None
        }
    }

    /// Whether the file says that a head is a share of the embedding, but of
    /// no heads.
    pub open spec fn no_heads(self) -> bool {
        &&& self.arch() is Some
        &&& self.count("embedding_length"@) is Some
        &&& self.count("block_count"@) is Some
        &&& self.count("attention.head_count"@) == Some(0u32)
    }

    /// The inner size of the recurrent state where the file names none.
    pub open spec fn default_inner(self) -> int {
        (self.count_or("ssm.state_size"@, 0) * self.count_or("ssm.time_step_rank"@, 0)) % 0x1_0000_0000
    }
}

/// The kind of layer `i` where full attention comes back after `interval`.
pub open spec fn kind_of(i: int, interval: int) -> LayerKind {
    if (i + 1) % interval == 0 {
        LayerKind::FullAttention
    } else {
        LayerKind::LinearAttention
    }
}

impl ModelConfig {
    /// The configuration is what the file says.
    pub open spec fn is_of(self, says: FileSays<'_>) -> bool {
        &&& self.architecture@ == says.arch()->0
        &&& Some(self.n_vocab) == says.vocab()
        &&& self.n_embd == says.count_or("embedding_length"@, 0)
        &&& self.n_layer == says.count_or("block_count"@, 0)
        &&& self.n_head == says.count_or("attention.head_count"@, 0)
        &&& self.n_head_kv == says.count_or("attention.head_count_kv"@, self.n_head as int)
        &&& self.attention_head_dim == says.head_dim()
        &&& self.no_rope_layer_interval == (if says.arch()->0 == "smollm3"@ {
            4int
        } else {
            0
        })
        &&& self.n_ff == says.count_or("feed_forward_length"@, 0)
        &&& self.n_ctx == says.count_or("context_length"@, 4096)
        &&& self.rope_theta == says.float_or("rope.freq_base"@, DEFAULT_ROPE_THETA)
        &&& self.rms_eps == says.float_or("attention.layer_norm_rms_epsilon"@, DEFAULT_RMS_EPS)
        &&& self.fused_q_gate == says.hybrid()
        &&& self.layer_kinds@.len() == self.n_layer
        &&& self.n_experts == 0
        &&& self.router_top_k == 0
        &&& self.router_weight_mode == RouterWeightMode::SelectedSoftmax
        &&& self.expert_ff == 0
        &&& self.num_dense_layers == self.n_layer
        &&& if says.hybrid() {
            &&& self.rope_dim == says.count_or("rope.dimension_count"@, says.head_dim())
            &&& self.ssm_conv_kernel == says.count_or("ssm.conv_kernel"@, 4)
            &&& self.ssm_state_size == says.count_or("ssm.state_size"@, 0)
            &&& self.ssm_n_k_heads == says.count_or("ssm.group_count"@, 0)
            &&& self.ssm_n_v_heads == says.count_or("ssm.time_step_rank"@, 0)
            &&& self.ssm_inner_size == says.count_or("ssm.inner_size"@, says.default_inner())
            &&& forall|i: int|
                0 <= i < self.n_layer ==> #[trigger] self.layer_kinds@[i] == kind_of(
                    i,
                    says.interval(),
                )
        } else {
            &&& self.rope_dim == says.head_dim()
            &&& self.ssm_conv_kernel == 0
            &&& self.ssm_state_size == 0
            &&& self.ssm_n_k_heads == 0
            &&& self.ssm_n_v_heads == 0
            &&& self.ssm_inner_size == 0
            &&& forall|i: int|
                0 <= i < self.n_layer ==> #[trigger] self.layer_kinds@[i]
                    == LayerKind::FullAttention
        }
    }

    /// The configuration of a file. A file whose head count is zero has none.
    pub fn from_gguf(gguf: &GgufFile<'_>) -> (r: Result<ModelConfig, ConfigError>)
        requires
            gguf.wf(),
            !(FileSays { file: *gguf }).no_heads(),
        ensures
            match r {
                Ok(c) => (FileSays { file: *gguf }).error() is None && c.is_of(
                    FileSays { file: *gguf },
                ),
                Err(e) => (FileSays { file: *gguf }).error() == Some(e@),
            },
    {
        let ghost says: FileSays<'_> = FileSays { file: *gguf };
        let arch: &str = match gguf.architecture() {
            Some(a) => a,
            None => {
                return Err(ConfigError::MissingArchitecture);
            },
        };
        let n_embd: u32 = match required(gguf, arch, "embedding_length") {
            Ok(n) => n,
            Err(e) => {
                return Err(e);
            },
        };
        let n_layer: u32 = match required(gguf, arch, "block_count") {
            Ok(n) => n,
            Err(e) => {
                return Err(e);
            },
        };
        let n_head: u32 = match required(gguf, arch, "attention.head_count") {
            Ok(n) => n,
            Err(e) => {
                return Err(e);
            },
        };
        let n_head_kv: u32 = count_or(gguf, arch, "attention.head_count_kv", n_head);
        let head_dim: u32 = count_or(gguf, arch, "attention.key_length", n_embd / n_head);
        let value_dim: u32 = count_or(gguf, arch, "attention.value_length", head_dim);
        assert(head_dim == says.head_dim());
        if value_dim != head_dim {
            return Err(
                ConfigError::HeadLengths { key: head_dim as usize, value: value_dim as usize },
            );
        }
        let no_rope: usize = if same_text(arch, "smollm3") {
            4
        } else {
            0
        };
        let n_ff: u32 = match required(gguf, arch, "feed_forward_length") {
            Ok(n) => n,
            Err(e) => {
                return Err(e);
            },
        };
        let n_ctx: u32 = count_or(gguf, arch, "context_length", 4096);
        let n_vocab: usize = match vocab_size(gguf, arch) {
            Some(n) => n,
            None => {
                return Err(ConfigError::VocabSize);
            },
        };
        let rope_theta: FloatBits = float_or(gguf, arch, "rope.freq_base", DEFAULT_ROPE_THETA);
        let rms_eps: FloatBits = float_or(
            gguf,
            arch,
            "attention.layer_norm_rms_epsilon",
            DEFAULT_RMS_EPS,
        );
        let hybrid: bool = same_text(arch, "qwen35") || same_text(arch, "qwen3_5");
        assert(hybrid == says.hybrid());
        let mut ssm: (u32, u32, u32, u32, u32) = (0, 0, 0, 0, 0);
        let mut rope_dim: u32 = head_dim;
        let mut kinds: Vec<LayerKind> = Vec::new();
        if hybrid {
            rope_dim = count_or(gguf, arch, "rope.dimension_count", head_dim);
            let conv: u32 = count_or(gguf, arch, "ssm.conv_kernel", 4);
            let state: u32 = match required(gguf, arch, "ssm.state_size") {
                Ok(n) => n,
                Err(e) => {
                    return Err(e);
                },
            };
            let n_k: u32 = match required(gguf, arch, "ssm.group_count") {
                Ok(n) => n,
                Err(e) => {
                    return Err(e);
                },
            };
            let n_v: u32 = match required(gguf, arch, "ssm.time_step_rank") {
                Ok(n) => n,
                Err(e) => {
                    return Err(e);
                },
            };
            proof {
                assert(state * n_v <= 0xffff_ffff * 0xffff_ffff) by (nonlinear_arith)
                    requires
                        state <= 0xffff_ffff,
                        n_v <= 0xffff_ffff,
                ;
            }
            let full: u64 = state as u64 * n_v as u64;
            let low: u64 = full % 0x1_0000_0000;
            let inner: u32 = count_or(gguf, arch, "ssm.inner_size", low as u32);
            ssm = (conv, state, n_k, n_v, inner);
            let stated: u32 = count_or(gguf, arch, "full_attention_interval", 4);
            let interval: usize = if stated < 1 {
                1
            } else {
                stated as usize
            };
            kinds = hybrid_kinds(n_layer as usize, interval);
        } else {
            kinds = full_kinds(n_layer as usize);
        }
        Ok(
            ModelConfig {
                architecture: arch.to_owned(),
                n_vocab,
                n_embd: n_embd as usize,
                n_layer: n_layer as usize,
                n_head: n_head as usize,
                n_head_kv: n_head_kv as usize,
                attention_head_dim: head_dim as usize,
                no_rope_layer_interval: no_rope,
                n_ff: n_ff as usize,
                n_ctx: n_ctx as usize,
                rope_theta,
                rms_eps,
                rope_dim: rope_dim as usize,
                fused_q_gate: hybrid,
                ssm_conv_kernel: ssm.0 as usize,
                ssm_state_size: ssm.1 as usize,
                ssm_n_k_heads: ssm.2 as usize,
                ssm_n_v_heads: ssm.3 as usize,
                ssm_inner_size: ssm.4 as usize,
                layer_kinds: kinds,
                n_experts: 0,
                router_top_k: 0,
                router_weight_mode: RouterWeightMode::SelectedSoftmax,
                expert_ff: 0,
                num_dense_layers: n_layer as usize,
            },
        )
    }

    /// The length of one attention head.
    pub fn head_dim(&self) -> (r: usize)
        ensures
            r == self.attention_head_dim,
    {
        self.attention_head_dim
    }

    /// Whether sparse layers may occur.
    pub fn is_moe(&self) -> (r: bool)
        ensures
            r == (self.n_experts > 0),
    {
        self.n_experts > 0
    }

    /// Whether a linear layer occurs.
    pub fn is_hybrid(&self) -> (r: bool)
        ensures
            r == self.layer_kinds@.contains(LayerKind::LinearAttention),
    {
        let mut i: usize = 0;
        while i < self.layer_kinds.len()
            invariant
                i <= self.layer_kinds@.len(),
                forall|k: int| 0 <= k < i ==> self.layer_kinds@[k] != LayerKind::LinearAttention,
            decreases self.layer_kinds@.len() - i,
        {
            if self.layer_kinds[i] == LayerKind::LinearAttention {
                assert(self.layer_kinds@[i as int] == LayerKind::LinearAttention);
                return true;
            }
            i = i + 1;
        }
        false
    }

    /// Whether layer `li` is a linear one; no layer past the last is.
    pub fn is_linear_layer(&self, li: usize) -> (r: bool)
        ensures
            r == (li < self.layer_kinds@.len() && self.layer_kinds@[li as int]
                == LayerKind::LinearAttention),
    {
        li < self.layer_kinds.len() && self.layer_kinds[li] == LayerKind::LinearAttention
    }

    /// Width of the query projection.
    pub open spec fn q_proj(self) -> nat {
        self.n_head as nat * self.attention_head_dim as nat * (if self.fused_q_gate {
            2nat
        } else {
            1
        })
    }

    /// Width of the query projection, with its gating where that is fused.
    pub fn q_proj_dim(&self) -> (r: usize)
        requires
            self.q_proj() <= usize::MAX,
        ensures
            r == self.q_proj(),
    {
        proof {
            let base = self.n_head as nat * self.attention_head_dim as nat;
            assert(base * 1 == base && base * 2 == base + base);
        }
        let base: usize = self.n_head * self.attention_head_dim;
        if self.fused_q_gate {
            base * 2
        } else {
            base
        }
    }

    /// Width of the keys of a linear layer.
    pub open spec fn key_dim(self) -> nat {
        self.ssm_state_size as nat * self.ssm_n_k_heads as nat
    }

    /// Width of the values of a linear layer.
    pub open spec fn value_dim(self) -> nat {
        self.ssm_state_size as nat * self.ssm_n_v_heads as nat
    }

    /// Channels of the convolution of a linear layer: queries, keys, values.
    pub open spec fn conv_channels(self) -> nat {
        self.key_dim() * 2 + self.value_dim()
    }

    /// Numbers in the recurrent state of a linear layer.
    pub open spec fn state_elems(self) -> nat {
        self.ssm_n_v_heads as nat * self.ssm_state_size as nat * self.ssm_state_size as nat
    }

    /// Columns that the convolution of a linear layer keeps.
    pub open spec fn conv_kept(self) -> nat {
        if self.ssm_conv_kernel == 0 {
            0
        } else {
            (self.ssm_conv_kernel - 1) as nat
        }
    }

    /// Width of the keys of a linear layer.
    pub fn ssm_key_dim(&self) -> (r: usize)
        requires
            self.key_dim() <= usize::MAX,
        ensures
            r == self.key_dim(),
    {
        self.ssm_state_size * self.ssm_n_k_heads
    }

    /// Width of the values of a linear layer.
    pub fn ssm_value_dim(&self) -> (r: usize)
        requires
            self.value_dim() <= usize::MAX,
        ensures
            r == self.value_dim(),
    {
        self.ssm_state_size * self.ssm_n_v_heads
    }

    /// Channels of the convolution of a linear layer.
    pub fn ssm_conv_channels(&self) -> (r: usize)
        requires
            self.conv_channels() <= usize::MAX,
        ensures
            r == self.conv_channels(),
    {
        self.ssm_key_dim() * 2 + self.ssm_value_dim()
    }

    /// Numbers in the recurrent state of a linear layer.
    pub fn ssm_state_elems(&self) -> (r: usize)
        requires
            self.ssm_n_v_heads as nat * self.ssm_state_size as nat <= usize::MAX,
            self.state_elems() <= usize::MAX,
        ensures
            r == self.state_elems(),
    {
        self.ssm_n_v_heads * self.ssm_state_size * self.ssm_state_size
    }

    /// Numbers that the convolution of a linear layer keeps.
    pub fn ssm_conv_state_elems(&self) -> (r: usize)
        requires
            self.conv_channels() <= usize::MAX,
            self.conv_kept() * self.conv_channels() <= usize::MAX,
        ensures
            r == self.conv_kept() * self.conv_channels(),
    {
        let kept: usize = if self.ssm_conv_kernel == 0 {
            0
        } else {
            self.ssm_conv_kernel - 1
        };
        kept * self.ssm_conv_channels()
    }
}

/// Of a hybrid model every `interval`-th layer is a full one, and no other.
pub proof fn law_hybrid_pattern(c: ModelConfig, says: FileSays<'_>, i: int)
    requires
        c.is_of(says),
        says.hybrid(),
        0 <= i < c.n_layer,
    ensures
        c.layer_kinds@[i] == LayerKind::FullAttention <==> (i + 1) % says.interval() == 0,
        0 <= i + says.interval() < c.n_layer ==> c.layer_kinds@[i + says.interval()]
            == c.layer_kinds@[i],
{
    let n = says.interval();
    assert(c.layer_kinds@[i] == kind_of(i, n));
    if i + n < c.n_layer {
        assert(c.layer_kinds@[i + n] == kind_of(i + n, n));
        vstd::arithmetic::div_mod::lemma_mod_add_multiples_vanish(i + 1, n);
    }
}

/// The metadata key `name` of the architecture.
fn key_string(arch: &str, name: &str) -> (r: String)
    ensures
        r@ == key_of(arch@, name@),
{
    let mut out: String = String::new();
    out.append(arch);
    out.append(".");
    out.append(name);
    proof {
        assert(out@ == key_of(arch@, name@));
    }
    out
}

/// The count under `key`.
fn count_at(gguf: &GgufFile<'_>, key: &str) -> (r: Option<u32>)
    ensures
        r == count_of(gguf.meta(key@)),
{
    match gguf.meta_u32(key) {
        Some(n) => Some(n),
        None => match gguf.meta_u64(key) {
            Some(n) => Some(#[verifier::truncate] (n as u32)),
            None => None,
        },
    }
}

/// Whether a file may be asked for its configuration: it does not say that there
/// are no heads.
pub fn has_heads(gguf: &GgufFile<'_>) -> (r: bool)
    requires
        gguf.wf(),
    ensures
        r == !(FileSays { file: *gguf }).no_heads(),
{
    let arch: &str = match gguf.architecture() {
        Some(a) => a,
        None => {
            return true;
        },
    };
    if required(gguf, arch, "embedding_length").is_err() || required(
        gguf,
        arch,
        "block_count",
    ).is_err() {
        return true;
    }
    match required(gguf, arch, "attention.head_count") {
        Ok(n) => n != 0,
        Err(_) => true,
    }
}

/// The count under a key of the architecture, which must be there.
fn required(gguf: &GgufFile<'_>, arch: &str, name: &str) -> (r: Result<u32, ConfigError>)
    ensures
        match r {
            Ok(n) => count_of(gguf.meta(key_of(arch@, name@))) == Some(n),
            Err(e) => count_of(gguf.meta(key_of(arch@, name@))) is None && e@
                == ConfigErrorView::Missing(key_of(arch@, name@)),
        },
{
    let key: String = key_string(arch, name);
    match count_at(gguf, key.as_str()) {
        Some(n) => Ok(n),
        None => Err(ConfigError::Missing(key)),
    }
}

/// The count under a key of the architecture, or `other`.
fn count_or(gguf: &GgufFile<'_>, arch: &str, name: &str, other: u32) -> (r: u32)
    ensures
        r == (match count_of(gguf.meta(key_of(arch@, name@))) {
            Some(n) => n,
            None => other,
        }),
{
    let key: String = key_string(arch, name);
    match count_at(gguf, key.as_str()) {
        Some(n) => n,
        None => other,
    }
}

/// The floating-point number under a key of the architecture, or `other`.
fn float_or(gguf: &GgufFile<'_>, arch: &str, name: &str, other: u32) -> (r: FloatBits)
    ensures
        r == float_of(gguf.meta(key_of(arch@, name@)), other),
{
    let key: String = key_string(arch, name);
    match gguf.meta_f32(key.as_str()) {
        Some(b) => b,
        None => FloatBits::Single(other),
    }
}

/// The size of the vocabulary.
fn vocab_size(gguf: &GgufFile<'_>, arch: &str) -> (r: Option<usize>)
    requires
        gguf.wf(),
        (FileSays { file: *gguf }).arch() == Some(arch@),
    ensures
        r == (FileSays { file: *gguf }).vocab(),
{
    let key: String = key_string(arch, "vocab_size");
    match count_at(gguf, key.as_str()) {
        Some(n) => Some(n as usize),
        None => match gguf.tensor("token_embd.weight") {
            Some(t) => if t.dims.len() > 1 {
                Some(#[verifier::truncate] (t.dims[1] as usize))
            } else {
                None
            },
            None => None,
        },
    }
}

/// Full attention in every layer.
fn full_kinds(n: usize) -> (r: Vec<LayerKind>)
    ensures
        r@.len() == n,
        forall|i: int| 0 <= i < n ==> r@[i] == LayerKind::FullAttention,
{
    let mut out: Vec<LayerKind> = Vec::new();
    let mut i: usize = 0;
    while i < n
        invariant
            i <= n,
            out@.len() == i,
            forall|k: int| 0 <= k < i ==> out@[k] == LayerKind::FullAttention,
        decreases n - i,
    {
        out.push(LayerKind::FullAttention);
        i = i + 1;
    }
    out
}

/// Full attention in every `interval`-th layer.
fn hybrid_kinds(n: usize, interval: usize) -> (r: Vec<LayerKind>)
    requires
        interval >= 1,
    ensures
        r@.len() == n,
        forall|i: int| 0 <= i < n ==> #[trigger] r@[i] == kind_of(i, interval as int),
{
    let mut out: Vec<LayerKind> = Vec::new();
    let mut i: usize = 0;
    while i < n
        invariant
            i <= n,
            interval >= 1,
            out@.len() == i,
            forall|k: int| 0 <= k < i ==> #[trigger] out@[k] == kind_of(k, interval as int),
        decreases n - i,
    {
        if (i + 1) % interval == 0 {
            out.push(LayerKind::FullAttention);
        } else {
            out.push(LayerKind::LinearAttention);
        }
        i = i + 1;
    }
    out
}

/// The file gives that count under that key of its architecture.
pub open spec fn gives(says: FileSays<'_>, key: Seq<char>, n: u32) -> bool {
    says.file.meta(says.arch()->0 + "."@ + key) matches Some(v) && v.as_u32() == Some(n)
}

/// Each size is what the file gives under the key of that size, whatever the
/// architecture is called.
pub proof fn law_sizes_have_their_keys(c: ModelConfig, says: FileSays<'_>, n: u32)
    requires
        c.is_of(says),
    ensures
        gives(says, "embedding_length"@, n) ==> c.n_embd == n,
        gives(says, "block_count"@, n) ==> c.n_layer == n,
        gives(says, "attention.head_count"@, n) ==> c.n_head == n,
        gives(says, "attention.head_count_kv"@, n) ==> c.n_head_kv == n,
        gives(says, "attention.key_length"@, n) ==> c.attention_head_dim == n,
        gives(says, "feed_forward_length"@, n) ==> c.n_ff == n,
        gives(says, "context_length"@, n) ==> c.n_ctx == n,
        gives(says, "vocab_size"@, n) ==> c.n_vocab == n,
        says.hybrid() ==> {
            &&& gives(says, "rope.dimension_count"@, n) ==> c.rope_dim == n
            &&& gives(says, "ssm.conv_kernel"@, n) ==> c.ssm_conv_kernel == n
            &&& gives(says, "ssm.state_size"@, n) ==> c.ssm_state_size == n
            &&& gives(says, "ssm.group_count"@, n) ==> c.ssm_n_k_heads == n
            &&& gives(says, "ssm.time_step_rank"@, n) ==> c.ssm_n_v_heads == n
            &&& gives(says, "ssm.inner_size"@, n) ==> c.ssm_inner_size == n
            &&& gives(says, "full_attention_interval"@, n) && n >= 1 ==> says.interval() == n
        },
{
}

/// What the file leaves out has its usual value.
pub proof fn law_sizes_left_out(c: ModelConfig, says: FileSays<'_>)
    requires
        c.is_of(says),
    ensures
        says.file.meta(says.arch()->0 + "."@ + "attention.head_count_kv"@) is None ==> c.n_head_kv
            == c.n_head,
        says.file.meta(says.arch()->0 + "."@ + "context_length"@) is None ==> c.n_ctx == 4096,
        says.file.meta(says.arch()->0 + "."@ + "attention.key_length"@) is None && c.n_head > 0
            ==> c.attention_head_dim == c.n_embd / c.n_head,
        !says.hybrid() ==> c.rope_dim == c.attention_head_dim && !c.fused_q_gate
            && c.ssm_state_size == 0,
        says.hybrid() ==> c.fused_q_gate,
        says.hybrid() && says.file.meta(says.arch()->0 + "."@ + "ssm.conv_kernel"@) is None
            ==> c.ssm_conv_kernel == 4,
        says.hybrid() && says.file.meta(says.arch()->0 + "."@ + "full_attention_interval"@) is None
            ==> says.interval() == 4,
{
}

/// The sizes that follow from others.
pub proof fn law_derived_sizes(c: ModelConfig)
    ensures
        c.fused_q_gate ==> c.q_proj() == 2 * (c.n_head * c.attention_head_dim),
        !c.fused_q_gate ==> c.q_proj() == c.n_head * c.attention_head_dim,
        c.conv_channels() == c.ssm_state_size * c.ssm_n_k_heads + c.ssm_state_size * c.ssm_n_k_heads
            + c.ssm_state_size * c.ssm_n_v_heads,
        c.ssm_n_v_heads == 1 ==> c.state_elems() == c.ssm_state_size * c.ssm_state_size,
        c.ssm_conv_kernel > 0 ==> c.conv_kept() + 1 == c.ssm_conv_kernel,
{
    assert(c.n_head as nat * c.attention_head_dim as nat * 2nat == 2 * (c.n_head
        * c.attention_head_dim)) by (nonlinear_arith);
    assert(c.n_head as nat * c.attention_head_dim as nat * 1nat == c.n_head * c.attention_head_dim)
        by (nonlinear_arith);
    assert(c.ssm_state_size as nat * c.ssm_n_k_heads as nat * 2 == c.ssm_state_size
        * c.ssm_n_k_heads + c.ssm_state_size * c.ssm_n_k_heads) by (nonlinear_arith);
    assert(1nat * c.ssm_state_size as nat * c.ssm_state_size as nat == c.ssm_state_size
        * c.ssm_state_size) by (nonlinear_arith);
}

} // verus!
