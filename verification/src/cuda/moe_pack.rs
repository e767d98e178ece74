//! Packs of sparse models: a description, and one file for each matrix.
use crate::config::{ConfigError, ConfigErrorView, LayerKind, ModelConfig, RouterWeightMode};
use crate::cuda::launch::MatId;
use crate::cuda::layer::{FullAttnWeights, GpuLayer, Head, LayerAttn, LayerFfn, MoeFfnWeights};
use crate::cuda::load::{blk, blk_name, Setup};
use crate::cuda::matmul::{GpuMat, WType, MAX_SIDE};
use crate::cuda::model::{recurrent_fits, sides_fit, CudaModel, Widths};
use crate::cuda::repack::{
    block_major, dequant_q4_0_to_f16, half_columns, padded_blocks, q4_align_col_bytes,
    q4_col_bytes, q8_col_bytes, repack_q4_0_align32, repack_q4_0_block_major,
};
use crate::gguf::bytes::number_at;
use crate::gguf::value::FloatBits;
use crate::quant::dequant_f32;
use crate::text::{
    chars_of, contains_chars, decimal, has_text, push_decimal, quote, quoted, same_text,
};
use vstd::hash_map::StringHashMap;
use vstd::prelude::*;

verus! {

/// What a pack says of a layer.
#[derive(Debug)]
pub struct PackLayerMeta {
    pub i: usize,
    pub kind: String,
}

/// What a pack says of a file.
#[derive(Debug, Clone, Copy, PartialEq, Eq, Structural)]
pub struct PackFileMeta {
    pub n_rows: usize,
    pub n_cols: usize,
    pub nbytes: usize,
}

/// What a pack says of itself.
pub struct PackMeta {
    pub format: String,
    pub quant: Option<String>,
    pub mode: Option<String>,
    pub arch: String,
    pub n_vocab: usize,
    pub n_embd: usize,
    pub n_layer: usize,
    pub n_head: usize,
    pub n_head_kv: usize,
    pub n_ff: usize,
    pub n_experts: usize,
    pub router_top_k: usize,
    pub router_weight_mode: Option<String>,
    pub expert_ff: usize,
    pub num_dense_layers: usize,
    /// Single precision bits.
    pub rope_theta: u32,
    pub rms_eps: u32,
    pub n_ctx: usize,
    pub head_dim: usize,
    pub layers: Vec<PackLayerMeta>,
    pub files: StringHashMap<PackFileMeta>,
}

/// A list of files that is still empty.
pub fn no_listing() -> (r: StringHashMap<PackFileMeta>)
    ensures
        r@ == Map::<Seq<char>, PackFileMeta>::empty(),
{
    StringHashMap::new()
}

/// Why a pack cannot be loaded.
#[derive(Debug)]
pub enum PackError {
    Format(String),
    EmbdMultiple(usize),
    FfMultiple(usize),
    Experts(usize),
    TopK(usize),
    Router(ConfigError),
    NotListed(String),
    ExpertNotListed(String),
    Unread(String),
    Shape { name: String, rows: usize, cols: usize, want_rows: usize, want_cols: usize },
    MatBytes { name: String, got: usize, want: usize, rows: usize, cols: usize },
    Bytes { name: String, got: usize, want: usize },
}

/// Why a pack cannot be loaded, as a mathematical value.
pub enum PackErrorView {
    Format(Seq<char>),
    EmbdMultiple(usize),
    FfMultiple(usize),
    Experts(usize),
    TopK(usize),
    Router(ConfigErrorView),
    NotListed(Seq<char>),
    ExpertNotListed(Seq<char>),
    Unread(Seq<char>),
    Shape { name: Seq<char>, rows: usize, cols: usize, want_rows: usize, want_cols: usize },
    MatBytes { name: Seq<char>, got: usize, want: usize, rows: usize, cols: usize },
    Bytes { name: Seq<char>, got: usize, want: usize },
}

impl View for PackError {
    type V = PackErrorView;

    open spec fn view(&self) -> PackErrorView {
        match *self {
            PackError::Format(s) => PackErrorView::Format(s@),
            PackError::EmbdMultiple(n) => PackErrorView::EmbdMultiple(n),
            PackError::FfMultiple(n) => PackErrorView::FfMultiple(n),
            PackError::Experts(n) => PackErrorView::Experts(n),
            PackError::TopK(n) => PackErrorView::TopK(n),
            PackError::Router(e) => PackErrorView::Router(e@),
            PackError::NotListed(s) => PackErrorView::NotListed(s@),
            PackError::ExpertNotListed(s) => PackErrorView::ExpertNotListed(s@),
            PackError::Unread(s) => PackErrorView::Unread(s@),
            PackError::Shape { name, rows, cols, want_rows, want_cols } => PackErrorView::Shape {
                name: name@,
                rows,
                cols,
                want_rows,
                want_cols,
            },
            PackError::MatBytes { name, got, want, rows, cols } => PackErrorView::MatBytes {
                name: name@,
                got,
                want,
                rows,
                cols,
            },
            PackError::Bytes { name, got, want } => PackErrorView::Bytes { name: name@, got, want },
        }
    }
}

impl PackErrorView {
    /// The sentence that tells the error.
    pub open spec fn sentence(self) -> Seq<char> {
        match self {
            PackErrorView::Format(s) => "unsupported pack format "@ + quoted(s)
                + " (want tara_moe_q8_v1 or tara_moe_q4_v1)"@,
            PackErrorView::EmbdMultiple(n) => "n_embd="@ + decimal(n as nat)
                + " must be multiple of 32 for Q8_0"@,
            PackErrorView::FfMultiple(n) => "expert_ff="@ + decimal(n as nat)
                + " must be multiple of 32 for Q8_0"@,
            PackErrorView::Experts(n) => "n_experts="@ + decimal(n as nat)
                + " must be in 1..=64 for CUDA MoE"@,
            PackErrorView::TopK(n) => "router_top_k="@ + decimal(n as nat)
                + " must be in 1..=min(n_experts, 8)"@,
            PackErrorView::Router(e) => e.sentence(),
            PackErrorView::NotListed(s) => "meta.files missing "@ + s + ".q4 or "@ + s + ".q8"@,
            PackErrorView::ExpertNotListed(s) => "meta.files missing "@ + s,
            PackErrorView::Unread(s) => "read "@ + s,
            PackErrorView::Shape { name, rows, cols, want_rows, want_cols } => name + ": shape "@
                + decimal(rows as nat) + "x"@ + decimal(cols as nat) + ", expected "@ + decimal(
                want_rows as nat,
            ) + "x"@ + decimal(want_cols as nat),
            PackErrorView::MatBytes { name, got, want, rows, cols } => name + ": got "@ + decimal(
                got as nat,
            ) + " bytes, expected "@ + decimal(want as nat) + " (rows="@ + decimal(rows as nat)
                + " cols="@ + decimal(cols as nat) + ")"@,
            PackErrorView::Bytes { name, got, want } => name + ": got "@ + decimal(got as nat)
                + " bytes, expected "@ + decimal(want as nat),
        }
    }
}

impl PackError {
    /// The sentence that tells the error.
    pub fn message(&self) -> (r: String)
        ensures
            r@ == self@.sentence(),
    {
        let mut out: String = String::new();
        match self {
            PackError::Format(s) => {
                out.append("unsupported pack format ");
                out.append(quote(s.as_str()).as_str());
                out.append(" (want tara_moe_q8_v1 or tara_moe_q4_v1)");
            },
            PackError::EmbdMultiple(n) => {
                out.append("n_embd=");
                push_decimal(&mut out, *n as u64);
                out.append(" must be multiple of 32 for Q8_0");
            },
            PackError::FfMultiple(n) => {
                out.append("expert_ff=");
                push_decimal(&mut out, *n as u64);
                out.append(" must be multiple of 32 for Q8_0");
            },
            PackError::Experts(n) => {
                out.append("n_experts=");
                push_decimal(&mut out, *n as u64);
                out.append(" must be in 1..=64 for CUDA MoE");
            },
            PackError::TopK(n) => {
                out.append("router_top_k=");
                push_decimal(&mut out, *n as u64);
                out.append(" must be in 1..=min(n_experts, 8)");
            },
            PackError::Router(e) => {
                out.append(e.message().as_str());
            },
            PackError::NotListed(s) => {
                out.append("meta.files missing ");
                out.append(s.as_str());
                out.append(".q4 or ");
                out.append(s.as_str());
                out.append(".q8");
            },
            PackError::ExpertNotListed(s) => {
                out.append("meta.files missing ");
                out.append(s.as_str());
            },
            PackError::Unread(s) => {
                out.append("read ");
                out.append(s.as_str());
            },
            PackError::Shape { name, rows, cols, want_rows, want_cols } => {
                out.append(name.as_str());
                out.append(": shape ");
                push_decimal(&mut out, *rows as u64);
                out.append("x");
                push_decimal(&mut out, *cols as u64);
                out.append(", expected ");
                push_decimal(&mut out, *want_rows as u64);
                out.append("x");
                push_decimal(&mut out, *want_cols as u64);
            },
            PackError::MatBytes { name, got, want, rows, cols } => {
                out.append(name.as_str());
                out.append(": got ");
                push_decimal(&mut out, *got as u64);
                out.append(" bytes, expected ");
                push_decimal(&mut out, *want as u64);
                out.append(" (rows=");
                push_decimal(&mut out, *rows as u64);
                out.append(" cols=");
                push_decimal(&mut out, *cols as u64);
                out.append(")");
            },
            PackError::Bytes { name, got, want } => {
                out.append(name.as_str());
                out.append(": got ");
                push_decimal(&mut out, *got as u64);
                out.append(" bytes, expected ");
                push_decimal(&mut out, *want as u64);
            },
        }
        proof {
            assert(out@ == self@.sentence());
        }
        out
    }
}

/// What is asked of loading a pack from outside.
#[derive(Debug)]
pub struct PackOptions {
    /// Positions of the context.
    pub n_ctx: Option<usize>,
    /// Take the context of the pack as it is.
    pub strict_ctx: bool,
    pub full_vocab: bool,
    pub vocab_limit: Option<usize>,
    pub speed: bool,
    /// Pad the blocks of Q4_0 matrices.
    pub align: bool,
    /// Expand the experts to half precision.
    pub experts_f16: bool,
    /// Lay the blocks of the experts side by side.
    pub experts_bm: bool,
}

impl PackMeta {
    /// Whether the pack is a Q4_0 one.
    pub open spec fn q4(self) -> bool {
        self.format@ == "tara_moe_q4_v1"@ || (match self.quant {
            Some(q) => q@ == "q4_0"@,
            None => false,
        })
    }

    /// Whether the pack is a Q4_0 one.
    pub fn is_q4(&self) -> (r: bool)
        ensures
            r == self.q4(),
    {
        same_text(self.format.as_str(), "tara_moe_q4_v1") || (match &self.quant {
            Some(q) => same_text(q.as_str(), "q4_0"),
            None => false,
        })
    }

    /// What the pack says of the weights of its experts, or why it is refused.
    pub open spec fn checked(self) -> Result<RouterWeightMode, PackErrorView> {
        if self.format@ != "tara_moe_q8_v1"@ && !self.q4() {
            Err(PackErrorView::Format(self.format@))
        } else if self.n_embd % 32 != 0 {
            Err(PackErrorView::EmbdMultiple(self.n_embd))
        } else if self.expert_ff % 32 != 0 {
            Err(PackErrorView::FfMultiple(self.expert_ff))
        } else if self.n_experts == 0 || self.n_experts > 64 {
            Err(PackErrorView::Experts(self.n_experts))
        } else if self.router_top_k == 0 || self.router_top_k > self.n_experts || self.router_top_k
            > 8 {
            Err(PackErrorView::TopK(self.router_top_k))
        } else {
            match self.router_weight_mode {
                Some(s) => if s@ == RouterWeightMode::SelectedSoftmax.spec_name() {
                    Ok(RouterWeightMode::SelectedSoftmax)
                } else {
                    Err(PackErrorView::Router(ConfigErrorView::RouterMode(s@)))
                },
                None => Ok(RouterWeightMode::SelectedSoftmax),
            }
        }
    }

    /// What the pack says of the weights of its experts.
    pub fn check(&self) -> (r: Result<RouterWeightMode, PackError>)
        ensures
            match r {
                Ok(m) => self.checked() == Ok::<RouterWeightMode, PackErrorView>(m),
                Err(e) => self.checked() == Err::<RouterWeightMode, PackErrorView>(e@),
            },
    {
        if !same_text(self.format.as_str(), "tara_moe_q8_v1") && !self.is_q4() {
            return Err(PackError::Format(self.format.as_str().to_owned()));
        }
        if self.n_embd % 32 != 0 {
            return Err(PackError::EmbdMultiple(self.n_embd));
        }
        if self.expert_ff % 32 != 0 {
            return Err(PackError::FfMultiple(self.expert_ff));
        }
        if self.n_experts == 0 || self.n_experts > 64 {
            return Err(PackError::Experts(self.n_experts));
        }
        if self.router_top_k == 0 || self.router_top_k > self.n_experts || self.router_top_k > 8 {
            return Err(PackError::TopK(self.router_top_k));
        }
        let name: Option<&str> = match &self.router_weight_mode {
            Some(s) => Some(s.as_str()),
            None => None,
        };
        match RouterWeightMode::from_metadata(name) {
            Ok(m) => {
                proof {
                    assert(m == RouterWeightMode::SelectedSoftmax);
                }
                Ok(m)
            },
            Err(e) => Err(PackError::Router(e)),
        }
    }

    /// Positions of the context: as asked where that is at least 256; else those
    /// of the pack, and at least 1024 unless it is taken as it is.
    pub open spec fn context(self, opts: PackOptions) -> usize {
        match opts.n_ctx {
            Some(n) if n >= 256 => n,
            _ => if opts.strict_ctx || self.n_ctx >= 1024 {
                self.n_ctx
            } else {
                1024
            },
        }
    }

    /// The hyper-parameters of the pack.
    pub open spec fn describes(self, opts: PackOptions, mode: RouterWeightMode, c: ModelConfig) -> bool {
        &&& c.architecture@ == self.arch@
        &&& c.n_vocab == self.n_vocab
        &&& c.n_embd == self.n_embd
        &&& c.n_layer == self.n_layer
        &&& c.n_head == self.n_head
        &&& c.n_head_kv == self.n_head_kv
        &&& c.attention_head_dim == self.head_dim
        &&& c.no_rope_layer_interval == 0
        &&& c.n_ff == (if self.n_ff > self.expert_ff {
            self.n_ff
        } else {
            self.expert_ff
        })
        &&& c.n_ctx == self.context(opts)
        &&& c.rope_theta == FloatBits::Single(self.rope_theta)
        &&& c.rms_eps == FloatBits::Single(self.rms_eps)
        &&& c.rope_dim == self.head_dim
        &&& !c.fused_q_gate
        &&& c.ssm_conv_kernel == 0
        &&& c.ssm_state_size == 0
        &&& c.ssm_n_k_heads == 0
        &&& c.ssm_n_v_heads == 0
        &&& c.ssm_inner_size == 0
        &&& c.layer_kinds@ == Seq::new(self.n_layer as nat, |i: int| LayerKind::FullAttention)
        &&& c.n_experts == self.n_experts
        &&& c.router_top_k == self.router_top_k
        &&& c.router_weight_mode == mode
        &&& c.expert_ff == self.expert_ff
        &&& c.num_dense_layers == self.num_dense_layers
    }

    /// The hyper-parameters of the pack.
    pub fn config(&self, opts: &PackOptions) -> (r: Result<ModelConfig, PackError>)
        ensures
            match r {
                Ok(c) => self.checked() is Ok && self.describes(*opts, self.checked()->Ok_0, c),
                Err(e) => self.checked() == Err::<RouterWeightMode, PackErrorView>(e@),
            },
    {
        let mode: RouterWeightMode = match self.check() {
            Ok(m) => m,
            Err(e) => {
                return Err(e);
            },
        };
        let own: usize = if opts.strict_ctx || self.n_ctx >= 1024 {
            self.n_ctx
        } else {
            1024
        };
        let n_ctx: usize = match opts.n_ctx {
            Some(n) => if n >= 256 {
                n
            } else {
                own
            },
            None => own,
        };
        let mut kinds: Vec<LayerKind> = Vec::new();
        while kinds.len() < self.n_layer
            invariant
                kinds@.len() <= self.n_layer,
                forall|i: int| 0 <= i < kinds@.len() ==> kinds@[i] == LayerKind::FullAttention,
            decreases self.n_layer - kinds@.len(),
        {
            kinds.push(LayerKind::FullAttention);
        }
        proof {
            assert(kinds@ =~= Seq::new(self.n_layer as nat, |i: int| LayerKind::FullAttention));
        }
        Ok(
            ModelConfig {
                architecture: self.arch.as_str().to_owned(),
                n_vocab: self.n_vocab,
                n_embd: self.n_embd,
                n_layer: self.n_layer,
                n_head: self.n_head,
                n_head_kv: self.n_head_kv,
                attention_head_dim: self.head_dim,
                no_rope_layer_interval: 0,
                n_ff: if self.n_ff > self.expert_ff {
                    self.n_ff
                } else {
                    self.expert_ff
                },
                n_ctx,
                rope_theta: FloatBits::Single(self.rope_theta),
                rms_eps: FloatBits::Single(self.rms_eps),
                rope_dim: self.head_dim,
                fused_q_gate: false,
                ssm_conv_kernel: 0,
                ssm_state_size: 0,
                ssm_n_k_heads: 0,
                ssm_n_v_heads: 0,
                ssm_inner_size: 0,
                layer_kinds: kinds,
                n_experts: self.n_experts,
                router_top_k: self.router_top_k,
                router_weight_mode: mode,
                expert_ff: self.expert_ff,
                num_dense_layers: self.num_dense_layers,
            },
        )
    }

    /// Whether the pack is made for speed.
    pub open spec fn for_speed(self) -> bool {
        self.router_top_k <= 1 || (match self.mode {
            Some(m) => has_text(m@, "speed"@),
            None => false,
        })
    }

    /// Tokens of the active vocabulary where it is shortened: as asked, and
    /// 8192 by itself where speed is wanted; no fewer than 1024, and fewer than
    /// all.
    pub open spec fn limit(self, opts: PackOptions) -> Option<usize> {
        let wanted = if opts.full_vocab {
            None
        } else {
            match opts.vocab_limit {
                Some(n) => Some(n),
                None => if opts.speed || self.for_speed() {
                    Some(8192usize)
                } else {
                    None
                },
            }
        };
        match wanted {
            Some(n) => if 1024 <= n && n < self.n_vocab {
                Some(n)
            } else {
                None
            },
            None => None,
        }
    }

    /// Tokens of the active vocabulary where it is shortened.
    pub fn active_limit(&self, opts: &PackOptions) -> (r: Option<usize>)
        ensures
            r == self.limit(*opts),
    {
        if opts.full_vocab {
            return None;
        }
        let speed: bool = self.router_top_k <= 1 || (match &self.mode {
            Some(m) => contains_chars(&chars_of(m.as_str()), &chars_of("speed")),
            None => false,
        });
        let wanted: usize = match opts.vocab_limit {
            Some(n) => n,
            None => if opts.speed || speed {
                8192
            } else {
                return None;
            },
        };
        if 1024 <= wanted && wanted < self.n_vocab {
            Some(wanted)
        } else {
            None
        }
    }

    /// The first layer that the pack says something of layer `i` in, from place
    /// `from` on.
    pub open spec fn said_of(self, i: int, from: nat) -> Option<Seq<char>>
        decreases self.layers@.len() - from,
    {
        if from >= self.layers@.len() {
            None
        } else if self.layers@[from as int].i == i {
            Some(self.layers@[from as int].kind@)
        } else {
            self.said_of(i, from + 1)
        }
    }

    /// Whether layer `i` is dense: as the pack says, or else by its place.
    pub open spec fn dense(self, i: int) -> bool {
        match self.said_of(i, 0) {
            Some(kind) => kind == "dense"@,
            None => i < self.num_dense_layers,
        }
    }

    /// Whether layer `i` is dense.
    pub fn is_dense(&self, i: usize) -> (r: bool)
        ensures
            r == self.dense(i as int),
    {
        let mut k: usize = 0;
        while k < self.layers.len()
            invariant
                k <= self.layers@.len(),
                self.said_of(i as int, 0) == self.said_of(i as int, k as nat),
            decreases self.layers@.len() - k,
        {
            if self.layers[k].i == i {
                return same_text(self.layers[k].kind.as_str(), "dense");
            }
            k = k + 1;
        }
        i < self.num_dense_layers
    }
}

/// A name with an ending.
pub open spec fn ended(stem: Seq<char>, ending: Seq<char>) -> Seq<char> {
    stem + ending
}

/// A name with an ending.
fn with_ending(stem: &str, ending: &str) -> (r: String)
    ensures
        r@ == ended(stem@, ending@),
{
    let mut out: String = String::new();
    out.append(stem);
    out.append(ending);
    proof {
        assert(out@ == ended(stem@, ending@));
    }
    out
}

/// The file of a matrix: the Q4_0 one where it is listed, else the Q8_0 one.
#[derive(Debug)]
pub struct MatFile {
    pub name: String,
    pub q4: bool,
    pub meta: PackFileMeta,
}

/// The file of a matrix as a mathematical value.
pub struct MatFileView {
    pub name: Seq<char>,
    pub q4: bool,
    pub meta: PackFileMeta,
}

impl View for MatFile {
    type V = MatFileView;

    open spec fn view(&self) -> MatFileView {
        MatFileView { name: self.name@, q4: self.q4, meta: self.meta }
    }
}

/// The bytes of a matrix can be counted, however it is stored.
pub open spec fn meta_fits(m: PackFileMeta) -> bool {
    &&& m.n_rows <= MAX_SIDE
    &&& m.n_cols <= MAX_SIDE
    &&& m.n_rows / 32 * 34 * m.n_cols <= usize::MAX
    &&& m.n_rows / 32 * 18 * m.n_cols <= usize::MAX
}

impl PackMeta {
    /// The bytes of every file that is listed can be counted.
    pub open spec fn files_fit(self) -> bool {
        forall|name: Seq<char>| #[trigger]
            self.files@.contains_key(name) ==> meta_fits(self.files@[name])
    }

    /// The file of a matrix, where one is listed.
    pub open spec fn file_of(self, stem: Seq<char>) -> Option<MatFileView> {
        if self.files@.contains_key(ended(stem, ".q4"@)) {
            Some(
                MatFileView {
                    name: ended(stem, ".q4"@),
                    q4: true,
                    meta: self.files@[ended(stem, ".q4"@)],
                },
            )
        } else if self.files@.contains_key(ended(stem, ".q8"@)) {
            Some(
                MatFileView {
                    name: ended(stem, ".q8"@),
                    q4: false,
                    meta: self.files@[ended(stem, ".q8"@)],
                },
            )
        } else {
            None
        }
    }

    /// The file of a matrix, where one is listed.
    pub fn mat_file(&self, stem: &str) -> (r: Option<MatFile>)
        ensures
            match r {
                Some(f) => self.file_of(stem@) == Some(f@),
                None => self.file_of(stem@) is None,
            },
            self.files_fit() && r is Some ==> meta_fits(r->0.meta),
    {
        let q4: String = with_ending(stem, ".q4");
        match self.files.get(q4.as_str()) {
            Some(m) => {
                return Some(MatFile { name: q4, q4: true, meta: *m });
            },
            None => {},
        }
        let q8: String = with_ending(stem, ".q8");
        match self.files.get(q8.as_str()) {
            Some(m) => Some(MatFile { name: q8, q4: false, meta: *m }),
            None => None,
        }
    }
}

/// The files of a pack that could be read, by name.
pub type PackFiles<'a> = StringHashMap<&'a [u8]>;

/// No files yet.
pub fn no_files<'a>() -> (r: PackFiles<'a>)
    ensures
        r@ == Map::<Seq<char>, &'a [u8]>::empty(),
{
    StringHashMap::new()
}

/// A matrix that is stored as it is.
pub open spec fn plain_mat(
    id: MatId,
    wtype: WType,
    n_rows: usize,
    n_cols: usize,
    col_bytes: usize,
) -> GpuMat {
    GpuMat {
        id,
        has_decode: false,
        has_compact: false,
        n_rows,
        n_cols,
        col_bytes,
        decode_col_bytes: col_bytes,
        compact_col_bytes: 0,
        wtype,
    }
}

fn make_plain(id: MatId, wtype: WType, n_rows: usize, n_cols: usize, col_bytes: usize) -> (r: GpuMat)
    ensures
        r == plain_mat(id, wtype, n_rows, n_cols, col_bytes),
{
    GpuMat {
        id,
        has_decode: false,
        has_compact: false,
        n_rows,
        n_cols,
        col_bytes,
        decode_col_bytes: col_bytes,
        compact_col_bytes: 0,
        wtype,
    }
}

/// A matrix and the bytes that go to the card.
pub struct Packed {
    pub mat: GpuMat,
    pub bytes: Vec<u8>,
}

/// A matrix and the bytes that go to the card, as mathematical values.
pub struct PackedView {
    pub mat: GpuMat,
    pub bytes: Seq<u8>,
}

impl View for Packed {
    type V = PackedView;

    open spec fn view(&self) -> PackedView {
        PackedView { mat: self.mat, bytes: self.bytes@ }
    }
}

/// The result of packing as a mathematical value.
pub open spec fn packed_result(r: Result<Packed, PackError>) -> Result<PackedView, PackErrorView> {
    match r {
        Ok(p) => Ok(p@),
        Err(e) => Err(e@),
    }
}

/// Bytes that a file should have.
pub open spec fn wanted_bytes(f: MatFileView) -> int {
    if f.q4 {
        f.meta.n_rows as int / 32 * 18 * f.meta.n_cols
    } else {
        f.meta.n_rows as int / 32 * 34 * f.meta.n_cols
    }
}

/// A matrix of the pack, or why it cannot be loaded.
pub open spec fn pack_mat(
    meta: PackMeta,
    files: Map<Seq<char>, &[u8]>,
    stem: Seq<char>,
    id: MatId,
    align: bool,
) -> Result<PackedView, PackErrorView> {
    match meta.file_of(stem) {
        None => Err(PackErrorView::NotListed(stem)),
        Some(f) => if !files.contains_key(f.name) {
            Err(PackErrorView::Unread(f.name))
        } else {
            let raw = files[f.name]@;
            if raw.len() != wanted_bytes(f) {
                Err(
                    PackErrorView::MatBytes {
                        name: f.name,
                        got: raw.len() as usize,
                        want: wanted_bytes(f) as usize,
                        rows: f.meta.n_rows,
                        cols: f.meta.n_cols,
                    },
                )
            } else if f.q4 && align {
                Ok(
                    PackedView {
                        mat: plain_mat(
                            id,
                            WType::Q4_0,
                            f.meta.n_rows,
                            f.meta.n_cols,
                            (f.meta.n_rows / 32 * 32) as usize,
                        ),
                        bytes: padded_blocks(raw, f.meta.n_rows as nat / 32, f.meta.n_cols as nat),
                    },
                )
            } else if f.q4 {
                Ok(
                    PackedView {
                        mat: plain_mat(
                            id,
                            WType::Q4_0,
                            f.meta.n_rows,
                            f.meta.n_cols,
                            (f.meta.n_rows / 32 * 18) as usize,
                        ),
                        bytes: raw,
                    },
                )
            } else {
                Ok(
                    PackedView {
                        mat: plain_mat(
                            id,
                            WType::Q8_0,
                            f.meta.n_rows,
                            f.meta.n_cols,
                            (f.meta.n_rows / 32 * 34) as usize,
                        ),
                        bytes: raw,
                    },
                )
            }
        },
    }
}

/// A matrix of the pack.
pub fn load_pack_mat(
    meta: &PackMeta,
    files: &PackFiles<'_>,
    stem: &str,
    id: MatId,
    align: bool,
) -> (r: Result<Packed, PackError>)
    requires
        meta.files_fit(),
    ensures
        packed_result(r) == pack_mat(*meta, files@, stem@, id, align),
        r is Ok ==> r->Ok_0.mat.n_cols <= MAX_SIDE,
{
    let f: MatFile = match meta.mat_file(stem) {
        Some(f) => f,
        None => {
            return Err(PackError::NotListed(stem.to_owned()));
        },
    };
    let raw: &[u8] = match files.get(f.name.as_str()) {
        Some(b) => *b,
        None => {
            return Err(PackError::Unread(f.name));
        },
    };
    let rows: usize = f.meta.n_rows;
    let cols: usize = f.meta.n_cols;
    assert(raw.len() == raw@.len());
    let col_bytes: usize = if f.q4 {
        q4_col_bytes(rows)
    } else {
        q8_col_bytes(rows)
    };
    let want: usize = col_bytes * cols;
    if raw.len() != want {
        return Err(PackError::MatBytes { name: f.name, got: raw.len(), want, rows, cols });
    }
    if f.q4 && align {
        match repack_q4_0_align32(raw, rows, cols) {
            Ok(bytes) => {
                return Ok(
                    Packed {
                        mat: make_plain(id, WType::Q4_0, rows, cols, q4_align_col_bytes(rows)),
                        bytes,
                    },
                );
            },
            Err(_) => {},
        }
    }
    let wtype: WType = if f.q4 {
        WType::Q4_0
    } else {
        WType::Q8_0
    };
    Ok(
        Packed {
            mat: make_plain(id, wtype, rows, cols, col_bytes),
            bytes: vstd::slice::slice_to_vec(raw),
        },
    )
}

/// The numbers of a vector of the pack, as single precision bits.
pub open spec fn pack_vec(files: Map<Seq<char>, &[u8]>, name: Seq<char>, n: usize) -> Result<
    Seq<u32>,
    PackErrorView,
> {
    if !files.contains_key(name) {
        Err(PackErrorView::Unread(name))
    } else if files[name]@.len() != n * 4 {
        Err(
            PackErrorView::Bytes {
                name,
                got: files[name]@.len() as usize,
                want: (n * 4) as usize,
            },
        )
    } else {
        Ok(Seq::new(n as nat, |i: int| number_at(files[name]@, i * 4, 4) as u32))
    }
}

/// The numbers of a vector of the pack.
pub fn load_pack_vec(files: &PackFiles<'_>, name: &str, n: usize) -> (r: Result<
    Vec<u32>,
    PackError,
>)
    requires
        n * 4 <= usize::MAX,
    ensures
        match r {
            Ok(v) => pack_vec(files@, name@, n) == Ok::<Seq<u32>, PackErrorView>(v@),
            Err(e) => pack_vec(files@, name@, n) == Err::<Seq<u32>, PackErrorView>(e@),
        },
{
    let raw: &[u8] = match files.get(name) {
        Some(b) => *b,
        None => {
            return Err(PackError::Unread(name.to_owned()));
        },
    };
    assert(raw.len() == raw@.len());
    if raw.len() != n * 4 {
        return Err(PackError::Bytes { name: name.to_owned(), got: raw.len(), want: n * 4 });
    }
    let mut v: Vec<u32> = Vec::new();
    while v.len() < n
        invariant
            v@.len() <= n,
        decreases n - v@.len(),
    {
        v.push(0);
    }
    dequant_f32(raw, &mut v);
    proof {
        let want = Seq::new(n as nat, |i: int| number_at(raw@, i * 4, 4) as u32);
        assert forall|i: int| 0 <= i < n implies v@[i] == want[i] by {
            assert(v@[i] == number_at(raw@, i * 4, 4));
        }
        assert(v@ =~= want);
    }
    Ok(v)
}

/// The name of a matrix of an expert, without its ending.
pub open spec fn expert_stem(layer: nat, expert: nat, kind: Seq<char>) -> Seq<char> {
    "blk."@ + decimal(layer) + ".exp"@ + decimal(expert) + ".ffn_"@ + kind
}

/// The name of a matrix of an expert, without its ending.
fn expert_name(layer: usize, expert: usize, kind: &str) -> (r: String)
    ensures
        r@ == expert_stem(layer as nat, expert as nat, kind@),
{
    let mut out: String = String::new();
    out.append("blk.");
    push_decimal(&mut out, layer as u64);
    out.append(".exp");
    push_decimal(&mut out, expert as u64);
    out.append(".ffn_");
    out.append(kind);
    proof {
        assert(out@ == expert_stem(layer as nat, expert as nat, kind@));
    }
    out
}

/// How the matrices of the experts are stored on the card, and their bytes.
pub struct ExpertsView {
    pub col_bytes: usize,
    pub wtype: WType,
    pub bytes: Seq<u8>,
}

/// The matrix of one expert behind those of the experts before it.
pub open spec fn expert_after(
    before: ExpertsView,
    q4: bool,
    raw: Seq<u8>,
    n_rows: usize,
    n_cols: usize,
    opts: PackOptions,
) -> ExpertsView {
    if !q4 {
        ExpertsView {
            col_bytes: (n_rows / 32 * 34) as usize,
            wtype: WType::Q8_0,
            bytes: before.bytes + raw,
        }
    } else if opts.experts_f16 {
        ExpertsView {
            col_bytes: (n_rows * 2) as usize,
            wtype: WType::F16,
            bytes: before.bytes + half_columns(raw, n_rows as nat, n_cols as nat),
        }
    } else if opts.experts_bm {
        ExpertsView {
            col_bytes: (n_rows / 32 * 18) as usize,
            wtype: WType::Q4_0_BM,
            bytes: before.bytes + block_major(raw, n_rows as nat / 32, n_cols as nat),
        }
    } else {
        ExpertsView {
            col_bytes: (n_rows / 32 * 18) as usize,
            wtype: WType::Q4_0,
            bytes: before.bytes + raw,
        }
    }
}

/// The matrices of one kind of the first `n` experts of a layer, or the first
/// error.
pub open spec fn experts_of(
    meta: PackMeta,
    files: Map<Seq<char>, &[u8]>,
    kind: Seq<char>,
    n_rows: usize,
    n_cols: usize,
    layer: nat,
    opts: PackOptions,
    n: nat,
) -> Result<ExpertsView, PackErrorView>
    decreases n,
{
    if n == 0 {
        Ok(ExpertsView { col_bytes: 0, wtype: WType::Q8_0, bytes: Seq::empty() })
    } else {
        let stem = expert_stem(layer, (n - 1) as nat, kind);
        match experts_of(meta, files, kind, n_rows, n_cols, layer, opts, (n - 1) as nat) {
            Err(e) => Err(e),
            Ok(before) => match meta.file_of(stem) {
                None => Err(PackErrorView::ExpertNotListed(ended(stem, ".q8"@))),
                Some(f) => if f.meta.n_rows != n_rows || f.meta.n_cols != n_cols {
                    Err(
                        PackErrorView::Shape {
                            name: f.name,
                            rows: f.meta.n_rows,
                            cols: f.meta.n_cols,
                            want_rows: n_rows,
                            want_cols: n_cols,
                        },
                    )
                } else if !files.contains_key(f.name) {
                    Err(PackErrorView::Unread(f.name))
                } else if files[f.name]@.len() != wanted_bytes(f) {
                    Err(
                        PackErrorView::Bytes {
                            name: f.name,
                            got: files[f.name]@.len() as usize,
                            want: wanted_bytes(f) as usize,
                        },
                    )
                } else {
                    Ok(expert_after(before, f.q4, files[f.name]@, n_rows, n_cols, opts))
                },
            },
        }
    }
}

/// The matrices of one kind of all experts of a layer, one behind the other.
pub open spec fn pack_experts_of(
    meta: PackMeta,
    files: Map<Seq<char>, &[u8]>,
    id: MatId,
    kind: Seq<char>,
    n_rows: usize,
    n_cols: usize,
    layer: nat,
    opts: PackOptions,
) -> Result<PackedView, PackErrorView> {
    match experts_of(meta, files, kind, n_rows, n_cols, layer, opts, meta.n_experts as nat) {
        Err(e) => Err(e),
        Ok(x) => Ok(
            PackedView {
                mat: plain_mat(
                    id,
                    x.wtype,
                    n_rows,
                    (n_cols * meta.n_experts) as usize,
                    x.col_bytes,
                ),
                bytes: x.bytes,
            },
        ),
    }
}

/// The first error stays, however many experts follow.
proof fn lemma_experts_fail(
    meta: PackMeta,
    files: Map<Seq<char>, &[u8]>,
    kind: Seq<char>,
    n_rows: usize,
    n_cols: usize,
    layer: nat,
    opts: PackOptions,
    i: nat,
    n: nat,
)
    requires
        i <= n,
        experts_of(meta, files, kind, n_rows, n_cols, layer, opts, i) is Err,
    ensures
        experts_of(meta, files, kind, n_rows, n_cols, layer, opts, n) == experts_of(
            meta,
            files,
            kind,
            n_rows,
            n_cols,
            layer,
            opts,
            i,
        ),
    decreases n,
{
    if i < n {
        lemma_experts_fail(meta, files, kind, n_rows, n_cols, layer, opts, i, (n - 1) as nat);
    }
}

/// The bytes of one expert as they go to the card.
fn expert_bytes(raw: &[u8], q4: bool, n_rows: usize, n_cols: usize, opts: &PackOptions) -> (r: (
    usize,
    WType,
    Vec<u8>,
))
    requires
        n_rows <= MAX_SIDE,
        n_rows / 32 * 34 * n_cols <= usize::MAX,
        n_rows / 32 * 18 * n_cols <= usize::MAX,
        q4 ==> raw@.len() == n_rows / 32 * 18 * n_cols,
    ensures
        forall|before: ExpertsView| #[trigger]
            expert_after(before, q4, raw@, n_rows, n_cols, *opts) == (ExpertsView {
                col_bytes: r.0,
                wtype: r.1,
                bytes: before.bytes + r.2@,
            }),
{
    if !q4 {
        return (q8_col_bytes(n_rows), WType::Q8_0, vstd::slice::slice_to_vec(raw));
    }
    if opts.experts_f16 {
        match dequant_q4_0_to_f16(raw, n_rows, n_cols) {
            Ok(bytes) => {
                return (n_rows * 2, WType::F16, bytes);
            },
            Err(_) => {},
        }
    } else if opts.experts_bm {
        match repack_q4_0_block_major(raw, n_rows, n_cols) {
            Ok(bytes) => {
                return (q4_col_bytes(n_rows), WType::Q4_0_BM, bytes);
            },
            Err(_) => {},
        }
    }
    (q4_col_bytes(n_rows), WType::Q4_0, vstd::slice::slice_to_vec(raw))
}

/// The matrices of one kind of all experts of a layer.
pub fn pack_experts(
    meta: &PackMeta,
    files: &PackFiles<'_>,
    id: MatId,
    kind: &str,
    n_rows: usize,
    n_cols: usize,
    layer: usize,
    opts: &PackOptions,
) -> (r: Result<Packed, PackError>)
    requires
        meta.files_fit(),
        n_cols * meta.n_experts <= usize::MAX,
    ensures
        packed_result(r) == pack_experts_of(
            *meta,
            files@,
            id,
            kind@,
            n_rows,
            n_cols,
            layer as nat,
            *opts,
        ),
{
    let mut bytes: Vec<u8> = Vec::new();
    let mut col_bytes: usize = 0;
    let mut wtype: WType = WType::Q8_0;
    let mut e: usize = 0;
    while e < meta.n_experts
        invariant
            e <= meta.n_experts,
            meta.files_fit(),
            experts_of(*meta, files@, kind@, n_rows, n_cols, layer as nat, *opts, e as nat) == Ok::<
                ExpertsView,
                PackErrorView,
            >((ExpertsView { col_bytes, wtype, bytes: bytes@ })),
        decreases meta.n_experts - e,
    {
        let ghost fails = experts_of(
            *meta,
            files@,
            kind@,
            n_rows,
            n_cols,
            layer as nat,
            *opts,
            e as nat + 1,
        );
        proof {
            if fails is Err {
                lemma_experts_fail(
                    *meta,
                    files@,
                    kind@,
                    n_rows,
                    n_cols,
                    layer as nat,
                    *opts,
                    e as nat + 1,
                    meta.n_experts as nat,
                );
            }
        }
        let stem: String = expert_name(layer, e, kind);
        let f: MatFile = match meta.mat_file(stem.as_str()) {
            Some(f) => f,
            None => {
                return Err(PackError::ExpertNotListed(with_ending(stem.as_str(), ".q8")));
            },
        };
        if f.meta.n_rows != n_rows || f.meta.n_cols != n_cols {
            return Err(
                PackError::Shape {
                    name: f.name,
                    rows: f.meta.n_rows,
                    cols: f.meta.n_cols,
                    want_rows: n_rows,
                    want_cols: n_cols,
                },
            );
        }
        let raw: &[u8] = match files.get(f.name.as_str()) {
            Some(b) => *b,
            None => {
                return Err(PackError::Unread(f.name));
            },
        };
        assert(raw.len() == raw@.len());
        let want: usize = if f.q4 {
            q4_col_bytes(n_rows) * n_cols
        } else {
            q8_col_bytes(n_rows) * n_cols
        };
        if raw.len() != want {
            return Err(PackError::Bytes { name: f.name, got: raw.len(), want });
        }
        let part: (usize, WType, Vec<u8>) = expert_bytes(raw, f.q4, n_rows, n_cols, opts);
        let ghost before = ExpertsView { col_bytes, wtype, bytes: bytes@ };
        proof {
            assert(fails == Ok::<ExpertsView, PackErrorView>(
                expert_after(before, f.q4, raw@, n_rows, n_cols, *opts),
            ));
        }
        col_bytes = part.0;
        wtype = part.1;
        let mut more: Vec<u8> = part.2;
        bytes.append(&mut more);
        e = e + 1;
    }
    Ok(
        Packed {
            mat: make_plain(id, wtype, n_rows, n_cols * meta.n_experts, col_bytes),
            bytes,
        },
    )
}

/// What a layer of a pack holds: its description, its matrices with their bytes,
/// and its vectors as single precision bits.
pub struct PackLayer {
    pub layer: GpuLayer,
    pub mats: Vec<Packed>,
    pub router: Option<Vec<u32>>,
    pub attn_norm: Vec<u32>,
    pub ffn_norm: Vec<u32>,
}

/// What a layer of a pack holds, as a mathematical value.
#[verifier::ext_equal]
pub struct PackLayerView {
    pub layer: GpuLayer,
    pub mats: Seq<PackedView>,
    pub router: Option<Seq<u32>>,
    pub attn_norm: Seq<u32>,
    pub ffn_norm: Seq<u32>,
}

/// Matrices with their bytes, as mathematical values.
pub open spec fn packed_views(mats: Seq<Packed>) -> Seq<PackedView> {
    mats.map_values(|p: Packed| p@)
}

impl View for PackLayer {
    type V = PackLayerView;

    open spec fn view(&self) -> PackLayerView {
        PackLayerView {
            layer: self.layer,
            mats: packed_views(self.mats@),
            router: match self.router {
                Some(r) => Some(r@),
                None => None,
            },
            attn_norm: self.attn_norm@,
            ffn_norm: self.ffn_norm@,
        }
    }
}

/// The feed-forward part of a layer of a pack.
pub struct PackFfnView {
    pub ffn: LayerFfn,
    pub mats: Seq<PackedView>,
    pub router: Option<Seq<u32>>,
}

/// The dense feed-forward part of layer `i`, or the first error.
pub open spec fn dense_of(
    meta: PackMeta,
    files: Map<Seq<char>, &[u8]>,
    i: nat,
    opts: PackOptions,
) -> Result<PackFfnView, PackErrorView> {
    match pack_mat(meta, files, blk(i, "ffn_gate"@), MatId::Gate, opts.align) {
        Err(e) => Err(e),
        Ok(gate) => match pack_mat(meta, files, blk(i, "ffn_up"@), MatId::Up, opts.align) {
            Err(e) => Err(e),
            Ok(up) => match pack_mat(meta, files, blk(i, "ffn_down"@), MatId::Down, opts.align) {
                Err(e) => Err(e),
                Ok(down) => Ok(
                    PackFfnView {
                        ffn: LayerFfn::Dense { gate: gate.mat, up: up.mat, down: down.mat },
                        mats: seq![gate, up, down],
                        router: None,
                    },
                ),
            },
        },
    }
}

/// The sparse feed-forward part of layer `i`, or the first error.
pub open spec fn sparse_of(
    meta: PackMeta,
    files: Map<Seq<char>, &[u8]>,
    i: nat,
    opts: PackOptions,
) -> Result<PackFfnView, PackErrorView> {
    let d = meta.n_embd;
    let ff = meta.expert_ff;
    match pack_vec(files, blk(i, "router.f32"@), (meta.n_experts * d) as usize) {
        Err(e) => Err(e),
        Ok(router) => match pack_experts_of(
            meta,
            files,
            MatId::GateAll,
            "gate"@,
            d,
            ff,
            i,
            opts,
        ) {
            Err(e) => Err(e),
            Ok(gate) => match pack_experts_of(meta, files, MatId::UpAll, "up"@, d, ff, i, opts) {
                Err(e) => Err(e),
                Ok(up) => match pack_experts_of(
                    meta,
                    files,
                    MatId::DownAll,
                    "down"@,
                    ff,
                    d,
                    i,
                    opts,
                ) {
                    Err(e) => Err(e),
                    Ok(down) => Ok(
                        PackFfnView {
                            ffn: LayerFfn::Moe(
                                MoeFfnWeights {
                                    n_experts: meta.n_experts,
                                    top_k: meta.router_top_k,
                                    expert_ff: ff,
                                    gate_all: gate.mat,
                                    up_all: up.mat,
                                    down_all: down.mat,
                                },
                            ),
                            mats: seq![gate, up, down],
                            router: Some(router),
                        },
                    ),
                },
            },
        },
    }
}

/// The attention of layer `i` with the bytes of its matrices, or the first
/// error.
pub open spec fn attn_of(
    meta: PackMeta,
    files: Map<Seq<char>, &[u8]>,
    i: nat,
    opts: PackOptions,
) -> Result<(LayerAttn, Seq<PackedView>), PackErrorView> {
    match pack_mat(meta, files, blk(i, "attn_q"@), MatId::Wq, opts.align) {
        Err(e) => Err(e),
        Ok(wq) => match pack_mat(meta, files, blk(i, "attn_k"@), MatId::Wk, opts.align) {
            Err(e) => Err(e),
            Ok(wk) => match pack_mat(meta, files, blk(i, "attn_v"@), MatId::Wv, opts.align) {
                Err(e) => Err(e),
                Ok(wv) => match pack_mat(meta, files, blk(i, "attn_o"@), MatId::Wo, opts.align) {
                    Err(e) => Err(e),
                    Ok(wo) => Ok(
                        (
                            LayerAttn::Full(
                                FullAttnWeights {
                                    wq: wq.mat,
                                    bq: false,
                                    wk: wk.mat,
                                    bk: false,
                                    wv: wv.mat,
                                    bv: false,
                                    wo: wo.mat,
                                    attn_q_norm: false,
                                    attn_k_norm: false,
                                    fused_q_gate: false,
                                },
                            ),
                            seq![wq, wk, wv, wo],
                        ),
                    ),
                },
            },
        },
    }
}

/// Layer `i` of a pack, or the first error.
pub open spec fn pack_layer_of(
    meta: PackMeta,
    files: Map<Seq<char>, &[u8]>,
    i: nat,
    opts: PackOptions,
) -> Result<PackLayerView, PackErrorView> {
    let ffn = if meta.dense(i as int) {
        dense_of(meta, files, i, opts)
    } else {
        sparse_of(meta, files, i, opts)
    };
    match attn_of(meta, files, i, opts) {
        Err(e) => Err(e),
        Ok(attn) => match ffn {
            Err(e) => Err(e),
            Ok(f) => match pack_vec(files, blk(i, "attn_norm.f32"@), meta.n_embd) {
                Err(e) => Err(e),
                Ok(attn_norm) => match pack_vec(files, blk(i, "ffn_norm.f32"@), meta.n_embd) {
                    Err(e) => Err(e),
                    Ok(ffn_norm) => Ok(
                        PackLayerView {
                            layer: GpuLayer { attn: attn.0, ffn: f.ffn },
                            mats: attn.1 + f.mats,
                            router: f.router,
                            attn_norm,
                            ffn_norm,
                        },
                    ),
                },
            },
        },
    }
}

impl PackMeta {
    /// The sizes are no larger than the kernels can count.
    pub open spec fn fits(self) -> bool {
        &&& self.files_fit()
        &&& self.sizes_fit()
    }

    /// The sizes apart from those of the files.
    pub open spec fn sizes_fit(self) -> bool {
        &&& self.n_vocab <= MAX_SIDE
        &&& self.n_embd <= MAX_SIDE
        &&& self.n_ff <= MAX_SIDE
        &&& self.expert_ff <= MAX_SIDE
        &&& self.n_layer <= MAX_SIDE
        &&& self.n_head <= MAX_SIDE
        &&& self.n_head_kv <= MAX_SIDE
        &&& self.head_dim <= MAX_SIDE
        &&& self.n_head * self.head_dim <= MAX_SIDE
        &&& self.n_head_kv * self.head_dim <= MAX_SIDE
        &&& self.n_experts * self.n_embd * 4 <= usize::MAX
        &&& self.expert_ff * self.n_experts <= usize::MAX
    }

    /// Whether the sizes are no larger than the kernels can count.
    pub fn has_fitting_sizes(&self) -> (r: bool)
        ensures
            r == self.sizes_fit(),
    {
        if !(self.n_vocab <= MAX_SIDE && self.n_embd <= MAX_SIDE && self.n_ff <= MAX_SIDE
            && self.expert_ff <= MAX_SIDE && self.n_layer <= MAX_SIDE && self.n_head <= MAX_SIDE
            && self.n_head_kv <= MAX_SIDE && self.head_dim <= MAX_SIDE) {
            return false;
        }
        let q: bool = match self.n_head.checked_mul(self.head_dim) {
            Some(n) => n <= MAX_SIDE,
            None => false,
        };
        let kv: bool = match self.n_head_kv.checked_mul(self.head_dim) {
            Some(n) => n <= MAX_SIDE,
            None => false,
        };
        let router: bool = match self.n_experts.checked_mul(self.n_embd) {
            Some(n) => n <= usize::MAX / 4,
            None => false,
        };
        let experts: bool = match self.expert_ff.checked_mul(self.n_experts) {
            Some(_) => true,
            None => false,
        };
        q && kv && router && experts
    }
}

/// Whether the bytes of a matrix can be counted, however it is stored.
pub fn has_fitting_file(m: &PackFileMeta) -> (r: bool)
    ensures
        r == meta_fits(*m),
{
    if m.n_rows > MAX_SIDE || m.n_cols > MAX_SIDE {
        return false;
    }
    let blocks: usize = m.n_rows / 32;
    proof {
        assert(blocks * 18 * m.n_cols <= blocks * 34 * m.n_cols) by (nonlinear_arith)
            requires
                blocks >= 0,
                m.n_cols >= 0,
        ;
    }
    match (blocks * 34).checked_mul(m.n_cols) {
        Some(_) => true,
        None => false,
    }
}

/// The feed-forward part of a layer of a pack.
struct PackFfn {
    ffn: LayerFfn,
    mats: Vec<Packed>,
    router: Option<Vec<u32>>,
}

impl PackFfn {
    spec fn view(self) -> PackFfnView {
        PackFfnView {
            ffn: self.ffn,
            mats: packed_views(self.mats@),
            router: match self.router {
                Some(r) => Some(r@),
                None => None,
            },
        }
    }
}

/// Whether a feed-forward part is the one that is described.
spec fn is_ffn(r: Result<PackFfn, PackError>, want: Result<PackFfnView, PackErrorView>) -> bool {
    match r {
        Ok(f) => want == Ok::<PackFfnView, PackErrorView>(f.view()),
        Err(e) => want == Err::<PackFfnView, PackErrorView>(e@),
    }
}

/// Three matrices as mathematical values.
proof fn lemma_three(a: Packed, b: Packed, c: Packed)
    ensures
        packed_views(seq![a, b, c]) == seq![a@, b@, c@],
{
    assert(packed_views(seq![a, b, c]) =~= seq![a@, b@, c@]);
}

/// The dense feed-forward part of layer `i`.
fn load_dense(meta: &PackMeta, files: &PackFiles<'_>, i: usize, opts: &PackOptions) -> (r: Result<
    PackFfn,
    PackError,
>)
    requires
        meta.fits(),
    ensures
        is_ffn(r, dense_of(*meta, files@, i as nat, *opts)),
{
    let stem: String = blk_name(i, "ffn_gate");
    let gate: Packed = match load_pack_mat(meta, files, stem.as_str(), MatId::Gate, opts.align) {
        Ok(p) => p,
        Err(e) => {
            return Err(e);
        },
    };
    let stem: String = blk_name(i, "ffn_up");
    let up: Packed = match load_pack_mat(meta, files, stem.as_str(), MatId::Up, opts.align) {
        Ok(p) => p,
        Err(e) => {
            return Err(e);
        },
    };
    let stem: String = blk_name(i, "ffn_down");
    let down: Packed = match load_pack_mat(meta, files, stem.as_str(), MatId::Down, opts.align) {
        Ok(p) => p,
        Err(e) => {
            return Err(e);
        },
    };
    proof {
        lemma_three(gate, up, down);
    }
    let ffn: LayerFfn = LayerFfn::Dense { gate: gate.mat, up: up.mat, down: down.mat };
    Ok(PackFfn { ffn, mats: vec![gate, up, down], router: None })
}

/// The sparse feed-forward part of layer `i`.
fn load_sparse(meta: &PackMeta, files: &PackFiles<'_>, i: usize, opts: &PackOptions) -> (r: Result<
    PackFfn,
    PackError,
>)
    requires
        meta.fits(),
    ensures
        is_ffn(r, sparse_of(*meta, files@, i as nat, *opts)),
{
    let d: usize = meta.n_embd;
    let ff: usize = meta.expert_ff;
    proof {
        assert(meta.n_experts * d == d * meta.n_experts) by (nonlinear_arith);
    }
    let name: String = blk_name(i, "router.f32");
    let router: Vec<u32> = match load_pack_vec(files, name.as_str(), meta.n_experts * d) {
        Ok(v) => v,
        Err(e) => {
            return Err(e);
        },
    };
    let gate: Packed = match pack_experts(meta, files, MatId::GateAll, "gate", d, ff, i, opts) {
        Ok(p) => p,
        Err(e) => {
            return Err(e);
        },
    };
    let up: Packed = match pack_experts(meta, files, MatId::UpAll, "up", d, ff, i, opts) {
        Ok(p) => p,
        Err(e) => {
            return Err(e);
        },
    };
    let down: Packed = match pack_experts(meta, files, MatId::DownAll, "down", ff, d, i, opts) {
        Ok(p) => p,
        Err(e) => {
            return Err(e);
        },
    };
    proof {
        lemma_three(gate, up, down);
    }
    let ffn: LayerFfn = LayerFfn::Moe(
        MoeFfnWeights {
            n_experts: meta.n_experts,
            top_k: meta.router_top_k,
            expert_ff: ff,
            gate_all: gate.mat,
            up_all: up.mat,
            down_all: down.mat,
        },
    );
    Ok(PackFfn { ffn, mats: vec![gate, up, down], router: Some(router) })
}

/// The attention of layer `i` with the bytes of its matrices.
fn load_attn(meta: &PackMeta, files: &PackFiles<'_>, i: usize, opts: &PackOptions) -> (r: Result<
    (LayerAttn, Vec<Packed>),
    PackError,
>)
    requires
        meta.fits(),
    ensures
        match r {
            Ok(a) => attn_of(*meta, files@, i as nat, *opts) == Ok::<
                (LayerAttn, Seq<PackedView>),
                PackErrorView,
            >((a.0, packed_views(a.1@))),
            Err(e) => attn_of(*meta, files@, i as nat, *opts) == Err::<
                (LayerAttn, Seq<PackedView>),
                PackErrorView,
            >(e@),
        },
{
    let stem: String = blk_name(i, "attn_q");
    let wq: Packed = match load_pack_mat(meta, files, stem.as_str(), MatId::Wq, opts.align) {
        Ok(p) => p,
        Err(e) => {
            return Err(e);
        },
    };
    let stem: String = blk_name(i, "attn_k");
    let wk: Packed = match load_pack_mat(meta, files, stem.as_str(), MatId::Wk, opts.align) {
        Ok(p) => p,
        Err(e) => {
            return Err(e);
        },
    };
    let stem: String = blk_name(i, "attn_v");
    let wv: Packed = match load_pack_mat(meta, files, stem.as_str(), MatId::Wv, opts.align) {
        Ok(p) => p,
        Err(e) => {
            return Err(e);
        },
    };
    let stem: String = blk_name(i, "attn_o");
    let wo: Packed = match load_pack_mat(meta, files, stem.as_str(), MatId::Wo, opts.align) {
        Ok(p) => p,
        Err(e) => {
            return Err(e);
        },
    };
    proof {
        assert(packed_views(seq![wq, wk, wv, wo]) =~= seq![wq@, wk@, wv@, wo@]);
    }
    let attn: LayerAttn = LayerAttn::Full(
        FullAttnWeights {
            wq: wq.mat,
            bq: false,
            wk: wk.mat,
            bk: false,
            wv: wv.mat,
            bv: false,
            wo: wo.mat,
            attn_q_norm: false,
            attn_k_norm: false,
            fused_q_gate: false,
        },
    );
    Ok((attn, vec![wq, wk, wv, wo]))
}

/// Layer `i` of a pack.
pub fn load_pack_layer(
    meta: &PackMeta,
    files: &PackFiles<'_>,
    i: usize,
    opts: &PackOptions,
) -> (r: Result<PackLayer, PackError>)
    requires
        meta.fits(),
    ensures
        match r {
            Ok(l) => pack_layer_of(*meta, files@, i as nat, *opts) == Ok::<
                PackLayerView,
                PackErrorView,
            >(l@),
            Err(e) => pack_layer_of(*meta, files@, i as nat, *opts) == Err::<
                PackLayerView,
                PackErrorView,
            >(e@),
        },
{
    let attn: (LayerAttn, Vec<Packed>) = match load_attn(meta, files, i, opts) {
        Ok(a) => a,
        Err(e) => {
            return Err(e);
        },
    };
    let loaded: Result<PackFfn, PackError> = if meta.is_dense(i) {
        load_dense(meta, files, i, opts)
    } else {
        load_sparse(meta, files, i, opts)
    };
    let f: PackFfn = match loaded {
        Ok(f) => f,
        Err(e) => {
            return Err(e);
        },
    };
    let name: String = blk_name(i, "attn_norm.f32");
    let attn_norm: Vec<u32> = match load_pack_vec(files, name.as_str(), meta.n_embd) {
        Ok(v) => v,
        Err(e) => {
            return Err(e);
        },
    };
    let name: String = blk_name(i, "ffn_norm.f32");
    let ffn_norm: Vec<u32> = match load_pack_vec(files, name.as_str(), meta.n_embd) {
        Ok(v) => v,
        Err(e) => {
            return Err(e);
        },
    };
    let layer: GpuLayer = GpuLayer { attn: attn.0, ffn: f.ffn };
    let mut mats: Vec<Packed> = attn.1;
    let mut more: Vec<Packed> = f.mats;
    let ghost a: Seq<Packed> = mats@;
    let ghost b: Seq<Packed> = more@;
    mats.append(&mut more);
    proof {
        assert(packed_views(a + b) =~= packed_views(a) + packed_views(b));
    }
    Ok(PackLayer { layer, mats, router: f.router, attn_norm, ffn_norm })
}

/// What layers of a pack hold, as mathematical values.
pub open spec fn pack_views(layers: Seq<PackLayer>) -> Seq<PackLayerView> {
    layers.map_values(|l: PackLayer| l@)
}

/// The first `n` layers of a pack, or the first error.
pub open spec fn pack_layers_of(
    meta: PackMeta,
    files: Map<Seq<char>, &[u8]>,
    n: nat,
    opts: PackOptions,
) -> Result<Seq<PackLayerView>, PackErrorView>
    decreases n,
{
    if n == 0 {
        Ok(Seq::empty())
    } else {
        match pack_layers_of(meta, files, (n - 1) as nat, opts) {
            Err(e) => Err(e),
            Ok(before) => match pack_layer_of(meta, files, (n - 1) as nat, opts) {
                Err(e) => Err(e),
                Ok(l) => Ok(before.push(l)),
            },
        }
    }
}

/// The first error stays, however many layers follow.
proof fn lemma_pack_fails(
    meta: PackMeta,
    files: Map<Seq<char>, &[u8]>,
    i: nat,
    n: nat,
    opts: PackOptions,
)
    requires
        i <= n,
        pack_layers_of(meta, files, i, opts) is Err,
    ensures
        pack_layers_of(meta, files, n, opts) == pack_layers_of(meta, files, i, opts),
    decreases n,
{
    if i < n {
        lemma_pack_fails(meta, files, i, (n - 1) as nat, opts);
    }
}

/// All layers of a pack.
fn load_pack_layers(meta: &PackMeta, files: &PackFiles<'_>, opts: &PackOptions) -> (r: Result<
    Vec<PackLayer>,
    PackError,
>)
    requires
        meta.fits(),
    ensures
        match r {
            Ok(l) => pack_layers_of(*meta, files@, meta.n_layer as nat, *opts) == Ok::<
                Seq<PackLayerView>,
                PackErrorView,
            >(pack_views(l@)),
            Err(e) => pack_layers_of(*meta, files@, meta.n_layer as nat, *opts) == Err::<
                Seq<PackLayerView>,
                PackErrorView,
            >(e@),
        },
{
    let mut layers: Vec<PackLayer> = Vec::new();
    let mut i: usize = 0;
    proof {
        assert(pack_views(layers@) =~= Seq::<PackLayerView>::empty());
    }
    while i < meta.n_layer
        invariant
            i <= meta.n_layer,
            meta.fits(),
            pack_layers_of(*meta, files@, i as nat, *opts) == Ok::<
                Seq<PackLayerView>,
                PackErrorView,
            >(pack_views(layers@)),
        decreases meta.n_layer - i,
    {
        let ghost before: Seq<PackLayer> = layers@;
        match load_pack_layer(meta, files, i, opts) {
            Ok(l) => {
                layers.push(l);
                proof {
                    assert(pack_views(layers@) =~= pack_views(before).push(l@));
                }
            },
            Err(e) => {
                proof {
                    lemma_pack_fails(
                        *meta,
                        files@,
                        i as nat + 1,
                        meta.n_layer as nat,
                        *opts,
                    );
                }
                return Err(e);
            },
        }
        i = i + 1;
    }
    Ok(layers)
}

/// What a pack holds: the model, and what goes to the card.
pub struct LoadedPack {
    pub model: CudaModel,
    pub embd: Packed,
    pub output_norm: Vec<u32>,
    pub layers: Vec<PackLayer>,
}

/// The output head of a pack: the embedding serves for the output too.
pub open spec fn pack_head(embd: GpuMat, limit: Option<usize>) -> Head {
    Head {
        token_embd: match limit {
            Some(n) => GpuMat { n_cols: n, ..embd },
            None => embd,
        },
        output: None,
        special: None,
        special_id: None,
    }
}

/// The descriptions of layers.
pub open spec fn bare_layers(layers: Seq<PackLayerView>) -> Seq<GpuLayer> {
    layers.map_values(|l: PackLayerView| l.layer)
}

/// The error of a pack, the first one: of its description, its embedding, its
/// last norm, its layers.
pub open spec fn pack_error(
    meta: PackMeta,
    files: Map<Seq<char>, &[u8]>,
    opts: PackOptions,
) -> Option<PackErrorView> {
    match meta.checked() {
        Err(e) => Some(e),
        Ok(_) => match pack_mat(meta, files, "token_embd"@, MatId::TokenEmbd, opts.align) {
            Err(e) => Some(e),
            Ok(_) => match pack_vec(files, "output_norm.f32"@, meta.n_embd) {
                Err(e) => Some(e),
                Ok(_) => match pack_layers_of(meta, files, meta.n_layer as nat, opts) {
                    Err(e) => Some(e),
                    Ok(_) => None,
                },
            },
        },
    }
}

impl LoadedPack {
    /// What a pack without errors holds.
    pub open spec fn is_of(
        self,
        meta: PackMeta,
        files: Map<Seq<char>, &[u8]>,
        setup: Setup,
        opts: PackOptions,
    ) -> bool {
        let c = self.model.cfg;
        &&& meta.describes(opts, meta.checked()->Ok_0, c)
        &&& pack_mat(meta, files, "token_embd"@, MatId::TokenEmbd, opts.align) == Ok::<
            PackedView,
            PackErrorView,
        >(self.embd@)
        &&& pack_vec(files, "output_norm.f32"@, meta.n_embd) == Ok::<Seq<u32>, PackErrorView>(
            self.output_norm@,
        )
        &&& pack_layers_of(meta, files, meta.n_layer as nat, opts) == Ok::<
            Seq<PackLayerView>,
            PackErrorView,
        >(pack_views(self.layers@))
        &&& exists|w: Widths| #[trigger]
            w.is_of(c, pack_head(self.embd.mat, meta.limit(opts)).active(), false)
                && self.model.is_fresh(
                c,
                setup,
                pack_head(self.embd.mat, meta.limit(opts)),
                bare_layers(pack_views(self.layers@)),
                w.partial_stride() as int,
            )
    }
}

impl CudaModel {
    /// The model of a pack.
    pub fn load_tara_moe_pack(
        meta: &PackMeta,
        files: &PackFiles<'_>,
        setup: Setup,
        opts: &PackOptions,
    ) -> (r: Result<LoadedPack, PackError>)
        requires
            meta.fits(),
        ensures
            match r {
                Ok(p) => pack_error(*meta, files@, *opts) is None && p.is_of(
                    *meta,
                    files@,
                    setup,
                    *opts,
                ),
                Err(e) => pack_error(*meta, files@, *opts) == Some(e@),
            },
    {
        let cfg: ModelConfig = match meta.config(opts) {
            Ok(c) => c,
            Err(e) => {
                return Err(e);
            },
        };
        let embd: Packed = match load_pack_mat(
            meta,
            files,
            "token_embd",
            MatId::TokenEmbd,
            opts.align,
        ) {
            Ok(p) => p,
            Err(e) => {
                return Err(e);
            },
        };
        let output_norm: Vec<u32> = match load_pack_vec(files, "output_norm.f32", meta.n_embd) {
            Ok(v) => v,
            Err(e) => {
                return Err(e);
            },
        };
        let layers: Vec<PackLayer> = match load_pack_layers(meta, files, opts) {
            Ok(l) => l,
            Err(e) => {
                return Err(e);
            },
        };
        let bare: Vec<GpuLayer> = bare_of(&layers);
        let model: CudaModel = pack_model(meta, cfg, setup, embd.mat, bare, opts);
        Ok(LoadedPack { model, embd, output_norm, layers })
    }
}

/// The hyper-parameters of a pack whose sizes can be counted.
proof fn lemma_config_fits(meta: PackMeta, opts: PackOptions, mode: RouterWeightMode, c: ModelConfig)
    requires
        meta.fits(),
        meta.describes(opts, mode, c),
    ensures
        sides_fit(c),
        recurrent_fits(c),
{
    assert(0nat * 0nat == 0nat);
    assert(c.key_dim() == 0 && c.value_dim() == 0 && c.conv_channels() == 0);
    assert(c.state_elems() == 0);
    assert(c.conv_kept() * c.conv_channels() == 0);
}

/// The model of the parts of a pack.
fn pack_model(
    meta: &PackMeta,
    cfg: ModelConfig,
    setup: Setup,
    embd: GpuMat,
    bare: Vec<GpuLayer>,
    opts: &PackOptions,
) -> (r: CudaModel)
    requires
        meta.fits(),
        meta.checked() is Ok,
        meta.describes(*opts, meta.checked()->Ok_0, cfg),
        embd.n_cols <= MAX_SIDE,
    ensures
        exists|w: Widths| #[trigger]
            w.is_of(cfg, pack_head(embd, meta.limit(*opts)).active(), false) && r.is_fresh(
                cfg,
                setup,
                pack_head(embd, meta.limit(*opts)),
                bare@,
                w.partial_stride() as int,
            ),
{
    proof {
        lemma_config_fits(*meta, *opts, meta.checked()->Ok_0, cfg);
    }
    let mut token_embd: GpuMat = embd;
    match meta.active_limit(opts) {
        Some(n) => {
            token_embd.n_cols = n;
        },
        None => {},
    }
    let head: Head = Head { token_embd, output: None, special: None, special_id: None };
    let ghost wanted: Head = pack_head(embd, meta.limit(*opts));
    assert(head == wanted);
    let widths: Widths = Widths::of(&cfg, token_embd.n_cols, false);
    assert(widths.is_of(cfg, wanted.active(), false));
    let stride: usize = widths.partial_stride() as usize;
    assert(stride == widths.partial_stride());
    CudaModel::fresh(cfg, setup, head, bare, stride)
}

/// The descriptions of layers.
fn bare_of(layers: &Vec<PackLayer>) -> (r: Vec<GpuLayer>)
    ensures
        r@ == bare_layers(pack_views(layers@)),
{
    let mut out: Vec<GpuLayer> = Vec::new();
    let mut i: usize = 0;
    while i < layers.len()
        invariant
            i <= layers@.len(),
            out@.len() == i,
            forall|k: int| 0 <= k < i ==> out@[k] == layers@[k].layer,
        decreases layers@.len() - i,
    {
        out.push(layers[i].layer);
        i = i + 1;
    }
    proof {
        assert(out@ =~= bare_layers(pack_views(layers@)));
    }
    out
}

/// What a pack without errors promises its router: at least one expert is
/// picked, at most eight, and no more than there are.
pub proof fn law_pack_experts_in_range(meta: PackMeta, opts: PackOptions, c: ModelConfig)
    requires
        meta.checked() is Ok,
        meta.describes(opts, meta.checked()->Ok_0, c),
    ensures
        1 <= c.router_top_k <= c.n_experts,
        c.router_top_k <= 8,
        c.n_experts <= 64,
        c.n_embd % 32 == 0,
        c.expert_ff % 32 == 0,
        c.expert_ff <= c.n_ff,
{
}

/// A matrix of a pack comes from the file of its name, the one of four bits where both
/// are listed; its sides are those that are listed, its type is that of the file, and
/// without alignment its bytes are those of the file.
pub proof fn law_pack_matrix(
    meta: PackMeta,
    files: Map<Seq<char>, &[u8]>,
    stem: Seq<char>,
    id: MatId,
    align: bool,
)
    ensures
        pack_mat(meta, files, stem, id, align) matches Ok(p) ==> {
            let four = stem + ".q4"@;
            let eight = stem + ".q8"@;
            let name = if meta.files@.contains_key(four) {
                four
            } else {
                eight
            };
            let listed = meta.files@[name];
            &&& meta.files@.contains_key(name)
            &&& files.contains_key(name)
            &&& p.mat.id == id
            &&& p.mat.n_rows == listed.n_rows && p.mat.n_cols == listed.n_cols
            &&& name == four ==> p.mat.wtype == WType::Q4_0 && files[name]@.len() == listed.n_rows
                as int / 32 * 18 * listed.n_cols
            &&& name != four ==> p.mat.wtype == WType::Q8_0 && files[name]@.len() == listed.n_rows
                as int / 32 * 34 * listed.n_cols
            &&& !align || name != four ==> p.bytes == files[name]@ && p.bytes.len()
                == p.mat.col_bytes * p.mat.n_cols
            &&& align && name == four ==> p.mat.col_bytes == listed.n_rows as int / 32 * 32
            &&& !p.mat.has_decode && !p.mat.has_compact
        },
        pack_mat(meta, files, stem, id, align) is Ok ==> meta.files@.contains_key(stem + ".q4"@)
            || meta.files@.contains_key(stem + ".q8"@),
{
    if let Some(f) = meta.file_of(stem) {
        let r = f.meta.n_rows as int;
        assert(r / 32 * 32 <= r);
        if f.q4 {
            assert(r / 32 * 18 <= r);
        } else {
            lemma_eight_bits_fit(f, files, stem, meta, id, align);
        }
    }
}

proof fn lemma_eight_bits_fit(
    f: MatFileView,
    files: Map<Seq<char>, &[u8]>,
    stem: Seq<char>,
    meta: PackMeta,
    id: MatId,
    align: bool,
)
    requires
        meta.file_of(stem) == Some(f),
        !f.q4,
    ensures
        pack_mat(meta, files, stem, id, align) matches Ok(p) ==> p.bytes.len() == p.mat.col_bytes
            * p.mat.n_cols,
{
    let r = f.meta.n_rows as int;
    let c = f.meta.n_cols as int;
    if let Ok(p) = pack_mat(meta, files, stem, id, align) {
        let n = r / 32 * 34;
        assert(files[f.name]@.len() == n * c);
        if c == 0 {
            assert(n * c == 0 && p.mat.col_bytes * c == 0) by (nonlinear_arith)
                requires
                    c == 0,
            ;
        } else {
            assert(files[f.name]@.len() <= usize::MAX) by {
                vstd::slice::axiom_spec_len(files[f.name]);
            }
            assert(n <= n * c) by (nonlinear_arith)
                requires
                    n >= 0,
                    c >= 1,
            ;
        }
    }
}

/// The layers of a pack have their matrices from the files of those names.
pub proof fn law_pack_attention_names(
    meta: PackMeta,
    files: Map<Seq<char>, &[u8]>,
    i: nat,
    opts: PackOptions,
)
    requires
        attn_of(meta, files, i, opts) is Ok,
    ensures
        ({
            let a = attn_of(meta, files, i, opts)->Ok_0;
            let at = "blk."@ + decimal(i) + "."@;
            let of = |name: Seq<char>, id: MatId| pack_mat(meta, files, at + name, id, opts.align);
            &&& a.1.len() == 4
            &&& of("attn_q"@, MatId::Wq) == Ok::<_, PackErrorView>(a.1[0])
            &&& of("attn_k"@, MatId::Wk) == Ok::<_, PackErrorView>(a.1[1])
            &&& of("attn_v"@, MatId::Wv) == Ok::<_, PackErrorView>(a.1[2])
            &&& of("attn_o"@, MatId::Wo) == Ok::<_, PackErrorView>(a.1[3])
            &&& a.0 matches LayerAttn::Full(w) && w.wq == a.1[0].mat && w.wk == a.1[1].mat && w.wv
                == a.1[2].mat && w.wo == a.1[3].mat && !w.bq && !w.bk && !w.bv && !w.fused_q_gate
                && !w.attn_q_norm && !w.attn_k_norm
        }),
{
}

/// The same of the feed-forward part of a dense layer.
pub proof fn law_pack_dense_names(
    meta: PackMeta,
    files: Map<Seq<char>, &[u8]>,
    i: nat,
    opts: PackOptions,
)
    requires
        dense_of(meta, files, i, opts) is Ok,
    ensures
        ({
            let f = dense_of(meta, files, i, opts)->Ok_0;
            let at = "blk."@ + decimal(i) + "."@;
            let of = |name: Seq<char>, id: MatId| pack_mat(meta, files, at + name, id, opts.align);
            &&& f.mats.len() == 3 && f.router is None
            &&& of("ffn_gate"@, MatId::Gate) == Ok::<_, PackErrorView>(f.mats[0])
            &&& of("ffn_up"@, MatId::Up) == Ok::<_, PackErrorView>(f.mats[1])
            &&& of("ffn_down"@, MatId::Down) == Ok::<_, PackErrorView>(f.mats[2])
            &&& f.ffn matches LayerFfn::Dense { gate, up, down } && gate == f.mats[0].mat && up
                == f.mats[1].mat && down == f.mats[2].mat
        }),
{
}

/// A layer of experts has gate, up and down matrices of its experts, those from the
/// stream to the experts first, and the router of its own file.
pub proof fn law_pack_expert_names(
    meta: PackMeta,
    files: Map<Seq<char>, &[u8]>,
    i: nat,
    opts: PackOptions,
)
    requires
        sparse_of(meta, files, i, opts) is Ok,
    ensures
        ({
            let f = sparse_of(meta, files, i, opts)->Ok_0;
            let d = meta.n_embd;
            let ff = meta.expert_ff;
            let of = |kind: Seq<char>, id: MatId, rows: usize, cols: usize|
                pack_experts_of(meta, files, id, kind, rows, cols, i, opts);
            &&& f.mats.len() == 3
            &&& of("gate"@, MatId::GateAll, d, ff) == Ok::<_, PackErrorView>(f.mats[0])
            &&& of("up"@, MatId::UpAll, d, ff) == Ok::<_, PackErrorView>(f.mats[1])
            &&& of("down"@, MatId::DownAll, ff, d) == Ok::<_, PackErrorView>(f.mats[2])
            &&& f.ffn matches LayerFfn::Moe(m) && m.gate_all == f.mats[0].mat && m.up_all
                == f.mats[1].mat && m.down_all == f.mats[2].mat && m.n_experts == meta.n_experts
                && m.top_k == meta.router_top_k && m.expert_ff == meta.expert_ff
            &&& f.router is Some
            &&& pack_vec(
                files,
                "blk."@ + decimal(i) + "."@ + "router.f32"@,
                (meta.n_experts * meta.n_embd) as usize,
            ) == Ok::<_, PackErrorView>(f.router->0)
        }),
{
}

/// The experts of a layer lie one behind the other in the order of their numbers, each
/// with the bytes of its own file, where they are not expanded or reordered.
pub proof fn law_experts_in_order(
    meta: PackMeta,
    files: Map<Seq<char>, &[u8]>,
    kind: Seq<char>,
    n_rows: usize,
    n_cols: usize,
    layer: nat,
    opts: PackOptions,
    n: nat,
    e: nat,
    size: int,
)
    requires
        !opts.experts_f16,
        !opts.experts_bm,
        experts_of(meta, files, kind, n_rows, n_cols, layer, opts, n) is Ok,
        e < n,
        forall|k: nat|
            k < n ==> (#[trigger] meta.file_of(expert_stem(layer, k, kind))) is Some ==> files[
                meta.file_of(expert_stem(layer, k, kind))->0.name
            ]@.len() == size,
    ensures
        ({
            let x = experts_of(meta, files, kind, n_rows, n_cols, layer, opts, n)->Ok_0;
            let stem = "blk."@ + decimal(layer) + ".exp"@ + decimal(e) + ".ffn_"@ + kind;
            let name = if meta.files@.contains_key(stem + ".q4"@) {
                stem + ".q4"@
            } else {
                stem + ".q8"@
            };
            &&& x.bytes.len() == n * size
            &&& meta.files@.contains_key(name) && files.contains_key(name)
            &&& 0 <= e * size && e * size + size <= x.bytes.len()
            &&& x.bytes.subrange(e * size, e * size + size) == files[name]@
        }),
    decreases n,
{
    let last = (n - 1) as nat;
    let before = experts_of(meta, files, kind, n_rows, n_cols, layer, opts, last)->Ok_0;
    let x = experts_of(meta, files, kind, n_rows, n_cols, layer, opts, n)->Ok_0;
    let f = meta.file_of(expert_stem(layer, last, kind))->0;
    assert(x.bytes == before.bytes + files[f.name]@);
    assert(last * size + size == n * size) by (nonlinear_arith)
        requires
            last == n - 1,
    ;
    assert(size >= 0);
    if last > 0 {
        law_experts_in_order(
            meta,
            files,
            kind,
            n_rows,
            n_cols,
            layer,
            opts,
            last,
            if e < last {
                e
            } else {
                0
            },
            size,
        );
    } else {
        assert(before.bytes.len() == 0);
        assert(0 * size == 0);
    }
    assert(e * size >= 0) by (nonlinear_arith)
        requires
            size >= 0,
    ;
    if e < last {
        assert(x.bytes.subrange(e * size, e * size + size) =~= before.bytes.subrange(
            e * size,
            e * size + size,
        ));
    } else {
        assert(x.bytes.subrange(e * size, e * size + size) =~= files[f.name]@);
    }
}

/// The first entry for a layer says whether it is dense; a layer without an entry is
/// dense where it is one of the first ones.
pub proof fn law_dense_layers(meta: PackMeta, k: int)
    requires
        0 <= k < meta.layers@.len(),
        forall|j: int| 0 <= j < k ==> (#[trigger] meta.layers@[j]).i != meta.layers@[k].i,
    ensures
        meta.dense(meta.layers@[k].i as int) == (meta.layers@[k].kind@ == "dense"@),
{
    lemma_said_of(meta, k, 0);
}

proof fn lemma_said_of(meta: PackMeta, k: int, from: nat)
    requires
        from <= k < meta.layers@.len(),
        forall|j: int| 0 <= j < k ==> (#[trigger] meta.layers@[j]).i != meta.layers@[k].i,
    ensures
        meta.said_of(meta.layers@[k].i as int, from) == Some(meta.layers@[k].kind@),
    decreases k - from,
{
    if from < k {
        assert(meta.layers@[from as int].i != meta.layers@[k].i);
        lemma_said_of(meta, k, from + 1);
    }
}

/// A window of a pack: the one that is asked for from 256 on, else that of the pack,
/// raised to 1024 unless the pack's own is to be kept.
pub proof fn law_pack_window(meta: PackMeta, opts: PackOptions, n: usize)
    ensures
        opts.n_ctx == Some(n) && n >= 256 ==> meta.context(opts) == n,
        opts.n_ctx is None && meta.n_ctx >= 1024 ==> meta.context(opts) == meta.n_ctx,
        opts.n_ctx is None && opts.strict_ctx ==> meta.context(opts) == meta.n_ctx,
        opts.n_ctx is None && !opts.strict_ctx ==> meta.context(opts) >= 1024,
        opts.n_ctx == Some(n) && n < 256 ==> meta.context(opts) == meta.context(
            PackOptions { n_ctx: None, ..opts },
        ),
{
}

} // verus!
