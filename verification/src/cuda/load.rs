//! Which tensors of a file make up a model, how they are stored on the card,
//! and what is wrong with a file that lacks one.
use crate::config::{count_of, LayerKind, ModelConfig};
use crate::cuda::decode::DecodeBackend;
use crate::cuda::device::GemvTuning;
use crate::cuda::launch::{MatId, VecId};
use crate::cuda::layer::{
    Flags, FullAttnWeights, GpuLayer, Head, LayerAttn, LayerFfn, LinearAttnWeights,
};
use crate::cuda::matmul::{Card, GpuMat, WType, MAX_SIDE};
use crate::cuda::model::{hybrid, recurrent_fits, sides_fit, CudaModel, Widths};
use crate::gguf::reader::GgufFile;
use crate::gguf::types::{GgmlType, GgufTensorInfo, TensorView};
use crate::quant::dequant_f32;
use crate::text::{decimal, push_decimal};
use vstd::prelude::*;

verus! {

/// Why a model cannot be loaded.
#[derive(Debug)]
pub enum LoadError {
    Missing(String),
    NotF32(String),
    UnsupportedType(GgmlType),
    /// The tensor has no dimension, or a column longer than can be counted.
    BadShape(String),
}

/// Why a model cannot be loaded, as a mathematical value.
pub enum LoadErrorView {
    Missing(Seq<char>),
    NotF32(Seq<char>),
    UnsupportedType(GgmlType),
    BadShape(Seq<char>),
}

impl View for LoadError {
    type V = LoadErrorView;

    open spec fn view(&self) -> LoadErrorView {
        match *self {
            LoadError::Missing(n) => LoadErrorView::Missing(n@),
            LoadError::NotF32(n) => LoadErrorView::NotF32(n@),
            LoadError::UnsupportedType(t) => LoadErrorView::UnsupportedType(t),
            LoadError::BadShape(n) => LoadErrorView::BadShape(n@),
        }
    }
}

impl LoadErrorView {
    /// The sentence that tells the error.
    pub open spec fn sentence(self) -> Seq<char> {
        match self {
            LoadErrorView::Missing(n) => "missing "@ + n,
            LoadErrorView::NotF32(n) => n + " not F32"@,
            LoadErrorView::UnsupportedType(t) => "unsupported weight type "@ + t.spec_name()
                + " (supported: Q4_0, Q4_K, Q5_K, Q5_0, Q6_K, Q8_0)"@,
            LoadErrorView::BadShape(n) => n + " has no column"@,
        }
    }
}

impl LoadError {
    /// The sentence that tells the error.
    pub fn message(&self) -> (r: String)
        ensures
            r@ == self@.sentence(),
    {
        let mut out: String = String::new();
        match self {
            LoadError::Missing(n) => {
                out.append("missing ");
                out.append(n.as_str());
            },
            LoadError::NotF32(n) => {
                out.append(n.as_str());
                out.append(" not F32");
            },
            LoadError::UnsupportedType(t) => {
                out.append("unsupported weight type ");
                out.append(t.name());
                out.append(" (supported: Q4_0, Q4_K, Q5_K, Q5_0, Q6_K, Q8_0)");
            },
            LoadError::BadShape(n) => {
                out.append(n.as_str());
                out.append(" has no column");
            },
        }
        proof {
            assert(out@ == self@.sentence());
        }
        out
    }
}

/// How the card stores a type, where it does.
pub open spec fn stored_as(t: GgmlType) -> Option<WType> {
    match t {
        GgmlType::Q4_K => Some(WType::Q4K),
        GgmlType::Q4_0 => Some(WType::Q4_0),
        GgmlType::Q5_K => Some(WType::Q5K),
        GgmlType::Q5_0 => Some(WType::Q5_0),
        GgmlType::Q6_K => Some(WType::Q6K),
        GgmlType::Q8_0 => Some(WType::Q8_0),
        _ => None,
    }
}

/// How the card stores a type.
pub fn wtype_of(t: GgmlType) -> (r: Result<WType, LoadError>)
    ensures
        match r {
            Ok(w) => stored_as(t) == Some(w),
            Err(e) => stored_as(t) is None && e@ == LoadErrorView::UnsupportedType(t),
        },
{
    match t {
        GgmlType::Q4_K => Ok(WType::Q4K),
        GgmlType::Q4_0 => Ok(WType::Q4_0),
        GgmlType::Q5_K => Ok(WType::Q5K),
        GgmlType::Q5_0 => Ok(WType::Q5_0),
        GgmlType::Q6_K => Ok(WType::Q6K),
        GgmlType::Q8_0 => Ok(WType::Q8_0),
        _ => Err(LoadError::UnsupportedType(t)),
    }
}

/// What is asked of loading from outside.
#[derive(Debug)]
pub struct LoadOptions {
    /// Keep Q5_K as it is.
    pub q5k_native: bool,
    /// Convert Q5_K to Q8_0.
    pub q5k_transcode: bool,
    /// Add one to the weights of the normalisations of a hybrid model.
    pub rms_one_plus: bool,
    /// Keep the whole vocabulary.
    pub full_vocab: bool,
    /// Tokens of the active vocabulary.
    pub vocab_limit: Option<usize>,
}

impl LoadOptions {
    /// Whether Q5_K becomes Q8_0: as asked, and by itself for a hybrid model.
    pub open spec fn converts_q5k(self, cfg: ModelConfig) -> bool {
        if self.q5k_native {
            false
        } else if self.q5k_transcode {
            true
        } else {
            hybrid(cfg)
        }
    }

    /// Whether one is added to the weights of the normalisations.
    pub open spec fn one_plus(self, cfg: ModelConfig) -> bool {
        hybrid(cfg) && self.rms_one_plus
    }

    /// Tokens of the active vocabulary where it is shortened: as asked, and
    /// by itself for a hybrid model with a large vocabulary; no fewer than
    /// 1024, and fewer than all.
    pub open spec fn limit(self, cfg: ModelConfig) -> Option<usize> {
        let wanted = match self.vocab_limit {
            Some(n) => Some(n),
            None => if hybrid(cfg) && cfg.n_vocab > 100_000 && !self.full_vocab {
                Some(49_152usize)
            } else {
                None
            },
        };
        match wanted {
            Some(n) => if 1024 <= n && n < cfg.n_vocab {
                Some(n)
            } else {
                None
            },
            None => None,
        }
    }

    /// Whether Q5_K becomes Q8_0.
    pub fn q5k_fallback(&self, cfg: &ModelConfig) -> (r: bool)
        ensures
            r == self.converts_q5k(*cfg),
    {
        if self.q5k_native {
            false
        } else if self.q5k_transcode {
            true
        } else {
            cfg.is_hybrid()
        }
    }

    /// Whether one is added to the weights of the normalisations.
    pub fn adds_one(&self, cfg: &ModelConfig) -> (r: bool)
        ensures
            r == self.one_plus(*cfg),
    {
        cfg.is_hybrid() && self.rms_one_plus
    }

    /// Tokens of the active vocabulary where it is shortened.
    pub fn active_limit(&self, cfg: &ModelConfig) -> (r: Option<usize>)
        ensures
            r == self.limit(*cfg),
    {
        let wanted: Option<usize> = match self.vocab_limit {
            Some(n) => Some(n),
            None => if cfg.is_hybrid() && cfg.n_vocab > 100_000 && !self.full_vocab {
                Some(49_152)
            } else {
                None
            },
        };
        match wanted {
            Some(n) => if 1024 <= n && n < cfg.n_vocab {
                Some(n)
            } else {
                None
            },
            None => None,
        }
    }
}

/// A conversion before a matrix goes to the card.
#[derive(Clone, Copy, PartialEq, Eq, Debug, Structural)]
pub enum Convert {
    Keep,
    Q5KToQ80,
    Q51ToQ80,
}

/// The conversion of a type.
#[verifier::allow_in_spec]
pub fn convert_of(t: GgmlType, q5k: bool) -> Convert
    returns
        (match t {
            GgmlType::Q5_K => if q5k {
                Convert::Q5KToQ80
            } else {
                Convert::Keep
            },
            GgmlType::Q5_1 => Convert::Q51ToQ80,
            _ => Convert::Keep,
        }),
{
    match t {
        GgmlType::Q5_K => if q5k {
            Convert::Q5KToQ80
        } else {
            Convert::Keep
        },
        GgmlType::Q5_1 => Convert::Q51ToQ80,
        _ => Convert::Keep,
    }
}

/// The columns of a matrix: its second dimension, or one.
pub open spec fn cols_of(t: TensorView) -> u64 {
    if t.dims.len() > 1 {
        t.dims[1]
    } else {
        1
    }
}

/// A matrix on the card: Q6_K has a compact copy, each block two bytes longer.
pub open spec fn mat_with(id: MatId, wtype: WType, n_rows: usize, n_cols: usize, col_bytes: usize) -> GpuMat {
    GpuMat {
        id,
        has_decode: false,
        has_compact: wtype == WType::Q6K,
        n_rows,
        n_cols,
        col_bytes,
        decode_col_bytes: col_bytes,
        compact_col_bytes: if wtype == WType::Q6K {
            (n_rows / 256 * 212) as usize
        } else {
            0
        },
        wtype,
    }
}

/// A tensor as a matrix on the card, whose columns are stored as `kept`.
pub open spec fn stored_mat(t: TensorView, id: MatId, wtype: WType, kept: GgmlType) -> Result<
    GpuMat,
    LoadErrorView,
> {
    let col_bytes = kept.spec_nbytes(t.dims[0] as nat);
    if col_bytes > u64::MAX {
        Err(LoadErrorView::BadShape(t.name))
    } else {
        Ok(mat_with(id, wtype, t.dims[0] as usize, cols_of(t) as usize, col_bytes as usize))
    }
}

/// A tensor as a matrix on the card.
pub open spec fn mat_of(t: TensorView, id: MatId, q5k: bool) -> Result<GpuMat, LoadErrorView> {
    if t.dims.len() == 0 {
        Err(LoadErrorView::BadShape(t.name))
    } else if convert_of(t.ggml_type, q5k) != Convert::Keep {
        stored_mat(t, id, WType::Q8_0, GgmlType::Q8_0)
    } else {
        match stored_as(t.ggml_type) {
            None => Err(LoadErrorView::UnsupportedType(t.ggml_type)),
            Some(w) => stored_mat(t, id, w, t.ggml_type),
        }
    }
}

/// A matrix on the card.
fn make_mat(id: MatId, wtype: WType, n_rows: usize, n_cols: usize, col_bytes: usize) -> (r: GpuMat)
    ensures
        r == mat_with(id, wtype, n_rows, n_cols, col_bytes),
{
    let compact: bool = wtype == WType::Q6K;
    GpuMat {
        id,
        has_decode: false,
        has_compact: compact,
        n_rows,
        n_cols,
        col_bytes,
        decode_col_bytes: col_bytes,
        compact_col_bytes: if compact {
            (n_rows / 256) * 212
        } else {
            0
        },
        wtype,
    }
}

/// A tensor as a matrix on the card, whose columns are stored as `kept`.
fn store_mat(t: &GgufTensorInfo, id: MatId, wtype: WType, kept: GgmlType) -> (r: Result<
    GpuMat,
    LoadError,
>)
    requires
        t.dims@.len() > 0,
    ensures
        match r {
            Ok(m) => stored_mat(t@, id, wtype, kept) == Ok::<GpuMat, LoadErrorView>(m),
            Err(e) => stored_mat(t@, id, wtype, kept) == Err::<GpuMat, LoadErrorView>(e@),
        },
{
    let n_rows: u64 = t.dims[0];
    let n_cols: u64 = if t.dims.len() > 1 {
        t.dims[1]
    } else {
        1
    };
    match kept.checked_nbytes(n_rows) {
        None => Err(LoadError::BadShape(t.name.as_str().to_owned())),
        Some(bytes) => {
            let rows: usize = #[verifier::truncate]
            (n_rows as usize);
            let cols: usize = #[verifier::truncate]
            (n_cols as usize);
            let col_bytes: usize = #[verifier::truncate]
            (bytes as usize);
            Ok(make_mat(id, wtype, rows, cols, col_bytes))
        },
    }
}

/// A tensor as a matrix on the card.
fn mat_from(t: &GgufTensorInfo, id: MatId, q5k: bool) -> (r: Result<GpuMat, LoadError>)
    ensures
        match r {
            Ok(m) => mat_of(t@, id, q5k) == Ok::<GpuMat, LoadErrorView>(m),
            Err(e) => mat_of(t@, id, q5k) == Err::<GpuMat, LoadErrorView>(e@),
        },
{
    if t.dims.len() == 0 {
        return Err(LoadError::BadShape(t.name.as_str().to_owned()));
    }
    if convert_of(t.ggml_type, q5k) != Convert::Keep {
        return store_mat(t, id, WType::Q8_0, GgmlType::Q8_0);
    }
    match wtype_of(t.ggml_type) {
        Err(e) => Err(e),
        Ok(w) => store_mat(t, id, w, t.ggml_type),
    }
}

/// What a file holds under a name.
pub open spec fn tensor_named(file: GgufFile<'_>, name: Seq<char>) -> Option<TensorView> {
    if file.tensor_index@.contains_key(name) {
        Some(file.tensors@[file.tensor_index@[name] as int]@)
    } else {
        None
    }
}

/// The matrix of that name.
pub open spec fn mat_named(file: GgufFile<'_>, name: Seq<char>, id: MatId, q5k: bool) -> Result<
    GpuMat,
    LoadErrorView,
> {
    match tensor_named(file, name) {
        None => Err(LoadErrorView::Missing(name)),
        Some(t) => mat_of(t, id, q5k),
    }
}

/// The error of a matrix.
pub open spec fn mat_error(r: Result<GpuMat, LoadErrorView>) -> Option<LoadErrorView> {
    match r {
        Ok(_) => None,
        Err(e) => Some(e),
    }
}

/// What is wrong with the vector of that name: it is single precision.
pub open spec fn vec_error(file: GgufFile<'_>, name: Seq<char>) -> Option<LoadErrorView> {
    match tensor_named(file, name) {
        None => Some(LoadErrorView::Missing(name)),
        Some(t) => if t.ggml_type != GgmlType::F32 {
            Some(LoadErrorView::NotF32(name))
        } else {
            None
        },
    }
}

/// The first error of two.
pub open spec fn first_of(a: Option<LoadErrorView>, b: Option<LoadErrorView>) -> Option<
    LoadErrorView,
> {
    match a {
        Some(e) => Some(e),
        None => b,
    }
}

/// The matrix of that name.
pub fn load_mat(file: &GgufFile<'_>, name: &str, id: MatId, q5k: bool) -> (r: Result<
    GpuMat,
    LoadError,
>)
    requires
        file.wf(),
    ensures
        match r {
            Ok(m) => mat_named(*file, name@, id, q5k) == Ok::<GpuMat, LoadErrorView>(m),
            Err(e) => mat_named(*file, name@, id, q5k) == Err::<GpuMat, LoadErrorView>(e@),
        },
{
    match file.tensor(name) {
        None => Err(LoadError::Missing(name.to_owned())),
        Some(t) => mat_from(t, id, q5k),
    }
}

/// Whether the vector of that name is there, in single precision.
pub fn check_vec(file: &GgufFile<'_>, name: &str) -> (r: Result<(), LoadError>)
    requires
        file.wf(),
    ensures
        match r {
            Ok(_) => vec_error(*file, name@) is None,
            Err(e) => vec_error(*file, name@) == Some(e@),
        },
{
    match file.tensor(name) {
        None => Err(LoadError::Missing(name.to_owned())),
        Some(t) => if t.ggml_type != GgmlType::F32 {
            Err(LoadError::NotF32(name.to_owned()))
        } else {
            Ok(())
        },
    }
}

/// The numbers of a vector, as single precision bits.
pub open spec fn vec_bits(file: GgufFile<'_>, t: TensorView) -> Seq<u32> {
    let data = file.bytes@.subrange(
        file.data_offset + t.offset,
        file.data_offset + t.offset + t.nbytes(),
    );
    Seq::new(
        t.n_elements(),
        |i: int| crate::gguf::bytes::number_at(data, i * 4, 4) as u32,
    )
}

/// The numbers of the vector of that name.
pub fn f32_host(file: &GgufFile<'_>, name: &str) -> (r: Result<Vec<u32>, LoadError>)
    requires
        file.wf(),
    ensures
        match r {
            Ok(v) => vec_error(*file, name@) is None && v@ == vec_bits(
                *file,
                tensor_named(*file, name@)->0,
            ),
            Err(e) => vec_error(*file, name@) == Some(e@),
        },
{
    let t: &GgufTensorInfo = match file.tensor(name) {
        None => {
            return Err(LoadError::Missing(name.to_owned()));
        },
        Some(t) => t,
    };
    if t.ggml_type != GgmlType::F32 {
        return Err(LoadError::NotF32(name.to_owned()));
    }
    let data: &[u8] = file.tensor_data(t);
    let n: u64 = t.n_elements();
    proof {
        assert(file.bytes.len() == file.bytes@.len());
        assert(data.len() == data@.len());
        assert(t@.nbytes() == n * 4) by {
            assert(crate::gguf::types::div_ceil(n as nat, 1) == n) by {
                assert(n as int % 1 == 0 && n as int / 1 == n);
            }
        }
    }
    assert(data@.len() == n * 4);
    let count: usize = data.len() / 4;
    let mut v: Vec<u32> = Vec::new();
    while v.len() < count
        invariant
            v@.len() <= count,
        decreases count - v@.len(),
    {
        v.push(0);
    }
    dequant_f32(data, &mut v);
    proof {
        assert forall|i: int| 0 <= i < v@.len() implies v@[i] == vec_bits(*file, t@)[i] by {
            assert(v@[i] == crate::gguf::bytes::number_at(data@, i * 4, 4));
        }
        assert(v@ =~= vec_bits(*file, t@));
    }
    Ok(v)
}

/// The name of a tensor of layer `i`.
pub open spec fn blk(i: nat, suffix: Seq<char>) -> Seq<char> {
    "blk."@ + decimal(i) + "."@ + suffix
}

/// The name of a tensor of layer `i`.
pub fn blk_name(i: usize, suffix: &str) -> (r: String)
    ensures
        r@ == blk(i as nat, suffix@),
{
    let mut out: String = String::new();
    out.append("blk.");
    push_decimal(&mut out, i as u64);
    out.append(".");
    out.append(suffix);
    proof {
        assert(out@ == blk(i as nat, suffix@));
    }
    out
}

/// A matrix of layer `i`.
pub open spec fn blk_mat(file: GgufFile<'_>, i: nat, suffix: Seq<char>, id: MatId, q5k: bool) -> Result<
    GpuMat,
    LoadErrorView,
> {
    mat_named(file, blk(i, suffix), id, q5k)
}

/// A matrix of layer `i`.
fn load_blk(file: &GgufFile<'_>, i: usize, suffix: &str, id: MatId, q5k: bool) -> (r: Result<
    GpuMat,
    LoadError,
>)
    requires
        file.wf(),
    ensures
        match r {
            Ok(m) => blk_mat(*file, i as nat, suffix@, id, q5k) == Ok::<GpuMat, LoadErrorView>(m),
            Err(e) => blk_mat(*file, i as nat, suffix@, id, q5k) == Err::<GpuMat, LoadErrorView>(
                e@,
            ),
        },
{
    let name: String = blk_name(i, suffix);
    load_mat(file, name.as_str(), id, q5k)
}

/// What is wrong with a vector of layer `i`.
pub open spec fn blk_vec(file: GgufFile<'_>, i: nat, suffix: Seq<char>) -> Option<LoadErrorView> {
    vec_error(file, blk(i, suffix))
}

/// Whether a vector of layer `i` is there.
fn check_blk(file: &GgufFile<'_>, i: usize, suffix: &str) -> (r: Result<(), LoadError>)
    requires
        file.wf(),
    ensures
        match r {
            Ok(_) => blk_vec(*file, i as nat, suffix@) is None,
            Err(e) => blk_vec(*file, i as nat, suffix@) == Some(e@),
        },
{
    let name: String = blk_name(i, suffix);
    check_vec(file, name.as_str())
}

/// Whether a vector of layer `i` is there.
fn has_blk(file: &GgufFile<'_>, i: usize, suffix: &str) -> (r: bool)
    requires
        file.wf(),
    ensures
        r == (blk_vec(*file, i as nat, suffix@) is None),
{
    match check_blk(file, i, suffix) {
        Ok(_) => true,
        Err(_) => false,
    }
}

/// The softmax attention of layer `i`, or the first error: four matrices, and
/// biases and norms where they are there.
pub open spec fn full_attn(file: GgufFile<'_>, i: nat, gated: bool, q5k: bool) -> Result<
    LayerAttn,
    LoadErrorView,
> {
    let wq = blk_mat(file, i, "attn_q.weight"@, MatId::Wq, q5k);
    let wk = blk_mat(file, i, "attn_k.weight"@, MatId::Wk, q5k);
    let wv = blk_mat(file, i, "attn_v.weight"@, MatId::Wv, q5k);
    let wo = blk_mat(file, i, "attn_output.weight"@, MatId::Wo, q5k);
    match first_of(
        mat_error(wq),
        first_of(mat_error(wk), first_of(mat_error(wv), mat_error(wo))),
    ) {
        Some(e) => Err(e),
        None => Ok(
            LayerAttn::Full(
                FullAttnWeights {
                    wq: wq->Ok_0,
                    bq: blk_vec(file, i, "attn_q.bias"@) is None,
                    wk: wk->Ok_0,
                    bk: blk_vec(file, i, "attn_k.bias"@) is None,
                    wv: wv->Ok_0,
                    bv: blk_vec(file, i, "attn_v.bias"@) is None,
                    wo: wo->Ok_0,
                    attn_q_norm: blk_vec(file, i, "attn_q_norm.weight"@) is None,
                    attn_k_norm: blk_vec(file, i, "attn_k_norm.weight"@) is None,
                    fused_q_gate: gated,
                },
            ),
        ),
    }
}

/// The softmax attention of layer `i`.
fn load_full_attn(file: &GgufFile<'_>, i: usize, gated: bool, q5k: bool) -> (r: Result<
    LayerAttn,
    LoadError,
>)
    requires
        file.wf(),
    ensures
        match r {
            Ok(a) => full_attn(*file, i as nat, gated, q5k) == Ok::<LayerAttn, LoadErrorView>(a),
            Err(e) => full_attn(*file, i as nat, gated, q5k) == Err::<LayerAttn, LoadErrorView>(e@),
        },
{
    let wq: GpuMat = match load_blk(file, i, "attn_q.weight", MatId::Wq, q5k) {
        Ok(m) => m,
        Err(e) => {
            return Err(e);
        },
    };
    let wk: GpuMat = match load_blk(file, i, "attn_k.weight", MatId::Wk, q5k) {
        Ok(m) => m,
        Err(e) => {
            return Err(e);
        },
    };
    let wv: GpuMat = match load_blk(file, i, "attn_v.weight", MatId::Wv, q5k) {
        Ok(m) => m,
        Err(e) => {
            return Err(e);
        },
    };
    let wo: GpuMat = match load_blk(file, i, "attn_output.weight", MatId::Wo, q5k) {
        Ok(m) => m,
        Err(e) => {
            return Err(e);
        },
    };
    Ok(
        LayerAttn::Full(
            FullAttnWeights {
                wq,
                bq: has_blk(file, i, "attn_q.bias"),
                wk,
                bk: has_blk(file, i, "attn_k.bias"),
                wv,
                bv: has_blk(file, i, "attn_v.bias"),
                wo,
                attn_q_norm: has_blk(file, i, "attn_q_norm.weight"),
                attn_k_norm: has_blk(file, i, "attn_k_norm.weight"),
                fused_q_gate: gated,
            },
        ),
    )
}

/// What is wrong with a tensor that has no dimension.
pub open spec fn no_dims(t: TensorView) -> Option<LoadErrorView> {
    if t.dims.len() == 0 {
        Some(LoadErrorView::BadShape(t.name))
    } else {
        None
    }
}

/// The linear attention of layer `i`, or the first error.
pub open spec fn linear_attn(file: GgufFile<'_>, cfg: ModelConfig, i: nat, q5k: bool) -> Result<
    LayerAttn,
    LoadErrorView,
> {
    let wqkv = blk_mat(file, i, "attn_qkv.weight"@, MatId::Wqkv, q5k);
    let w_gate = blk_mat(file, i, "attn_gate.weight"@, MatId::WGate, q5k);
    let ssm_alpha = blk_mat(file, i, "ssm_alpha.weight"@, MatId::SsmAlpha, q5k);
    let ssm_beta = blk_mat(file, i, "ssm_beta.weight"@, MatId::SsmBeta, q5k);
    let ssm_out = blk_mat(file, i, "ssm_out.weight"@, MatId::SsmOut, q5k);
    match tensor_named(file, blk(i, "ssm_conv1d.weight"@)) {
        None => Err(LoadErrorView::Missing(blk(i, "ssm_conv1d.weight"@))),
        Some(conv) => match first_of(
            first_of(
                first_of(first_of(no_dims(conv), mat_error(wqkv)), mat_error(w_gate)),
                first_of(blk_vec(file, i, "ssm_a"@), blk_vec(file, i, "ssm_dt.bias"@)),
            ),
            first_of(
                first_of(mat_error(ssm_alpha), mat_error(ssm_beta)),
                first_of(blk_vec(file, i, "ssm_norm.weight"@), mat_error(ssm_out)),
            ),
        ) {
            Some(e) => Err(e),
            None => Ok(
                LayerAttn::Linear(
                    LinearAttnWeights {
                        wqkv: wqkv->Ok_0,
                        w_gate: w_gate->Ok_0,
                        conv_kernel: conv.dims[0] as usize,
                        conv_channels: if conv.dims.len() > 1 {
                            conv.dims[1] as usize
                        } else {
                            0
                        },
                        ssm_alpha: ssm_alpha->Ok_0,
                        ssm_beta: ssm_beta->Ok_0,
                        ssm_out: ssm_out->Ok_0,
                        n_k_heads: cfg.ssm_n_k_heads,
                        n_v_heads: cfg.ssm_n_v_heads,
                        state_size: cfg.ssm_state_size,
                    },
                ),
            ),
        },
    }
}

/// The linear attention of layer `i`.
fn load_linear_attn(file: &GgufFile<'_>, cfg: &ModelConfig, i: usize, q5k: bool) -> (r: Result<
    LayerAttn,
    LoadError,
>)
    requires
        file.wf(),
    ensures
        match r {
            Ok(a) => linear_attn(*file, *cfg, i as nat, q5k) == Ok::<LayerAttn, LoadErrorView>(a),
            Err(e) => linear_attn(*file, *cfg, i as nat, q5k) == Err::<LayerAttn, LoadErrorView>(
                e@,
            ),
        },
{
    let conv_name: String = blk_name(i, "ssm_conv1d.weight");
    let conv: &GgufTensorInfo = match file.tensor(conv_name.as_str()) {
        Some(t) => t,
        None => {
            return Err(LoadError::Missing(conv_name));
        },
    };
    if conv.dims.len() == 0 {
        return Err(LoadError::BadShape(conv.name.as_str().to_owned()));
    }
    let kernel: u64 = conv.dims[0];
    let channels: u64 = if conv.dims.len() > 1 {
        conv.dims[1]
    } else {
        0
    };
    let wqkv: GpuMat = match load_blk(file, i, "attn_qkv.weight", MatId::Wqkv, q5k) {
        Ok(m) => m,
        Err(e) => {
            return Err(e);
        },
    };
    let w_gate: GpuMat = match load_blk(file, i, "attn_gate.weight", MatId::WGate, q5k) {
        Ok(m) => m,
        Err(e) => {
            return Err(e);
        },
    };
    match check_blk(file, i, "ssm_a") {
        Ok(_) => {},
        Err(e) => {
            return Err(e);
        },
    }
    match check_blk(file, i, "ssm_dt.bias") {
        Ok(_) => {},
        Err(e) => {
            return Err(e);
        },
    }
    let ssm_alpha: GpuMat = match load_blk(file, i, "ssm_alpha.weight", MatId::SsmAlpha, q5k) {
        Ok(m) => m,
        Err(e) => {
            return Err(e);
        },
    };
    let ssm_beta: GpuMat = match load_blk(file, i, "ssm_beta.weight", MatId::SsmBeta, q5k) {
        Ok(m) => m,
        Err(e) => {
            return Err(e);
        },
    };
    match check_blk(file, i, "ssm_norm.weight") {
        Ok(_) => {},
        Err(e) => {
            return Err(e);
        },
    }
    let ssm_out: GpuMat = match load_blk(file, i, "ssm_out.weight", MatId::SsmOut, q5k) {
        Ok(m) => m,
        Err(e) => {
            return Err(e);
        },
    };
    Ok(
        LayerAttn::Linear(
            LinearAttnWeights {
                wqkv,
                w_gate,
                conv_kernel: #[verifier::truncate]
                (kernel as usize),
                conv_channels: #[verifier::truncate]
                (channels as usize),
                ssm_alpha,
                ssm_beta,
                ssm_out,
                n_k_heads: cfg.ssm_n_k_heads,
                n_v_heads: cfg.ssm_n_v_heads,
                state_size: cfg.ssm_state_size,
            },
        ),
    )
}

/// The suffix under which layer `i` has the norm before its feed-forward part:
/// either of two.
pub open spec fn ffn_norm_suffix(file: GgufFile<'_>, i: nat) -> Seq<char> {
    if blk_vec(file, i, "ffn_norm.weight"@) is None {
        "ffn_norm.weight"@
    } else {
        "post_attention_norm.weight"@
    }
}

/// The kind of layer `i`; a softmax layer where nothing is said.
pub open spec fn kind_at(cfg: ModelConfig, i: nat) -> LayerKind {
    if i < cfg.layer_kinds@.len() {
        cfg.layer_kinds@[i as int]
    } else {
        LayerKind::FullAttention
    }
}

/// Layer `i`, or the first error.
#[verifier::opaque]
pub open spec fn layer_of(file: GgufFile<'_>, cfg: ModelConfig, i: nat, q5k: bool) -> Result<
    GpuLayer,
    LoadErrorView,
> {
    let attn = match kind_at(cfg, i) {
        LayerKind::FullAttention => full_attn(file, i, cfg.fused_q_gate, q5k),
        LayerKind::LinearAttention => linear_attn(file, cfg, i, q5k),
    };
    let gate = blk_mat(file, i, "ffn_gate.weight"@, MatId::Gate, q5k);
    let up = blk_mat(file, i, "ffn_up.weight"@, MatId::Up, q5k);
    let down = blk_mat(file, i, "ffn_down.weight"@, MatId::Down, q5k);
    match blk_vec(file, i, ffn_norm_suffix(file, i)) {
        Some(e) => Err(e),
        None => match attn {
            Err(e) => Err(e),
            Ok(attn) => match first_of(
                first_of(blk_vec(file, i, "attn_norm.weight"@), mat_error(gate)),
                first_of(mat_error(up), mat_error(down)),
            ) {
                Some(e) => Err(e),
                None => Ok(
                    GpuLayer {
                        attn,
                        ffn: LayerFfn::Dense {
                            gate: gate->Ok_0,
                            up: up->Ok_0,
                            down: down->Ok_0,
                        },
                    },
                ),
            },
        },
    }
}

/// The suffix under which layer `i` has the norm before its feed-forward part.
pub fn ffn_norm_name(file: &GgufFile<'_>, i: usize) -> (r: &'static str)
    requires
        file.wf(),
    ensures
        r@ == ffn_norm_suffix(*file, i as nat),
{
    if has_blk(file, i, "ffn_norm.weight") {
        "ffn_norm.weight"
    } else {
        "post_attention_norm.weight"
    }
}

/// Layer `i`.
pub fn load_layer(file: &GgufFile<'_>, cfg: &ModelConfig, i: usize, q5k: bool) -> (r: Result<
    GpuLayer,
    LoadError,
>)
    requires
        file.wf(),
    ensures
        match r {
            Ok(l) => layer_of(*file, *cfg, i as nat, q5k) == Ok::<GpuLayer, LoadErrorView>(l),
            Err(e) => layer_of(*file, *cfg, i as nat, q5k) == Err::<GpuLayer, LoadErrorView>(e@),
        },
{
    proof {
        reveal(layer_of);
    }
    match check_blk(file, i, ffn_norm_name(file, i)) {
        Ok(_) => {},
        Err(e) => {
            return Err(e);
        },
    }
    let kind: LayerKind = if i < cfg.layer_kinds.len() {
        cfg.layer_kinds[i]
    } else {
        LayerKind::FullAttention
    };
    let loaded: Result<LayerAttn, LoadError> = match kind {
        LayerKind::FullAttention => load_full_attn(file, i, cfg.fused_q_gate, q5k),
        LayerKind::LinearAttention => load_linear_attn(file, cfg, i, q5k),
    };
    let attn: LayerAttn = match loaded {
        Ok(a) => a,
        Err(e) => {
            return Err(e);
        },
    };
    match check_blk(file, i, "attn_norm.weight") {
        Ok(_) => {},
        Err(e) => {
            return Err(e);
        },
    }
    let gate: GpuMat = match load_blk(file, i, "ffn_gate.weight", MatId::Gate, q5k) {
        Ok(m) => m,
        Err(e) => {
            return Err(e);
        },
    };
    let up: GpuMat = match load_blk(file, i, "ffn_up.weight", MatId::Up, q5k) {
        Ok(m) => m,
        Err(e) => {
            return Err(e);
        },
    };
    let down: GpuMat = match load_blk(file, i, "ffn_down.weight", MatId::Down, q5k) {
        Ok(m) => m,
        Err(e) => {
            return Err(e);
        },
    };
    Ok(GpuLayer { attn, ffn: LayerFfn::Dense { gate, up, down } })
}

/// The token that ends a text, where it lies outside the active vocabulary.
pub open spec fn special_token(file: GgufFile<'_>, cfg: ModelConfig, limit: usize) -> Option<u32> {
    match count_of(file.meta("tokenizer.ggml.eos_token_id"@)) {
        Some(id) => if limit <= id && id < cfg.n_vocab {
            Some(id)
        } else {
            None
        },
        None => None,
    }
}

/// One column of a matrix.
pub open spec fn column_of(t: TensorView) -> Result<GpuMat, LoadErrorView> {
    if t.dims.len() == 0 || t.ggml_type.spec_nbytes(t.dims[0] as nat) > u64::MAX {
        Err(LoadErrorView::BadShape(t.name))
    } else {
        match stored_as(t.ggml_type) {
            None => Err(LoadErrorView::UnsupportedType(t.ggml_type)),
            Some(w) => Ok(
                mat_with(
                    MatId::OutputSpecial,
                    w,
                    t.dims[0] as usize,
                    1,
                    t.ggml_type.spec_nbytes(t.dims[0] as nat) as usize,
                ),
            ),
        }
    }
}

/// One column of a matrix.
fn column_from(t: &GgufTensorInfo) -> (r: Result<GpuMat, LoadError>)
    ensures
        match r {
            Ok(m) => column_of(t@) == Ok::<GpuMat, LoadErrorView>(m),
            Err(e) => column_of(t@) == Err::<GpuMat, LoadErrorView>(e@),
        },
{
    if t.dims.len() == 0 {
        return Err(LoadError::BadShape(t.name.as_str().to_owned()));
    }
    let n_rows: u64 = t.dims[0];
    let bytes: u64 = match t.ggml_type.checked_nbytes(n_rows) {
        None => {
            return Err(LoadError::BadShape(t.name.as_str().to_owned()));
        },
        Some(n) => n,
    };
    match wtype_of(t.ggml_type) {
        Err(e) => Err(e),
        Ok(w) => {
            let rows: usize = #[verifier::truncate]
            (n_rows as usize);
            let col_bytes: usize = #[verifier::truncate]
            (bytes as usize);
            Ok(make_mat(MatId::OutputSpecial, w, rows, 1, col_bytes))
        },
    }
}

/// The name of the matrix of the output: its own, or that of the embedding.
pub open spec fn head_name(own: bool) -> Seq<char> {
    if own {
        "output.weight"@
    } else {
        "token_embd.weight"@
    }
}

/// A matrix with only its first columns.
pub open spec fn with_cols(m: GpuMat, n_cols: usize) -> GpuMat {
    GpuMat { n_cols, ..m }
}

/// The output head with an active vocabulary of `limit` tokens, or the error of
/// the column of the token outside it.
pub open spec fn shortened(
    file: GgufFile<'_>,
    cfg: ModelConfig,
    embd: GpuMat,
    output: Option<GpuMat>,
    limit: usize,
) -> Result<Head, LoadErrorView> {
    let head = Head {
        token_embd: if output is Some {
            embd
        } else {
            with_cols(embd, limit)
        },
        output: match output {
            Some(m) => Some(with_cols(m, limit)),
            None => None,
        },
        special: None,
        special_id: None,
    };
    match special_token(file, cfg, limit) {
        None => Ok(head),
        Some(id) => match tensor_named(file, head_name(output is Some)) {
            None => Err(LoadErrorView::Missing(head_name(output is Some))),
            Some(t) => match column_of(t) {
                Err(e) => Err(e),
                Ok(m) => Ok(Head { special: Some(m), special_id: Some(id), ..head }),
            },
        },
    }
}

/// The matrix of the output, where it is there in a type that the card stores.
pub open spec fn own_output(file: GgufFile<'_>, q5k: bool) -> Result<
    Option<GpuMat>,
    LoadErrorView,
> {
    match mat_named(file, "output.weight"@, MatId::Output, q5k) {
        Ok(m) => Ok(Some(m)),
        Err(LoadErrorView::BadShape(n)) => Err(LoadErrorView::BadShape(n)),
        Err(_) => Ok(None),
    }
}

/// The output head, or the first error.
pub open spec fn head_of(file: GgufFile<'_>, cfg: ModelConfig, opts: LoadOptions) -> Result<
    Head,
    LoadErrorView,
> {
    let q5k = opts.converts_q5k(cfg);
    match mat_named(file, "token_embd.weight"@, MatId::TokenEmbd, q5k) {
        Err(e) => Err(e),
        Ok(embd) => match vec_error(file, "output_norm.weight"@) {
            Some(e) => Err(e),
            None => match own_output(file, q5k) {
                Err(e) => Err(e),
                Ok(output) => match opts.limit(cfg) {
                    None => Ok(
                        Head { token_embd: embd, output, special: None, special_id: None },
                    ),
                    Some(limit) => shortened(file, cfg, embd, output, limit),
                },
            },
        },
    }
}

/// The output head with an active vocabulary of `limit` tokens.
fn shorten(
    file: &GgufFile<'_>,
    cfg: &ModelConfig,
    embd: GpuMat,
    output: Option<GpuMat>,
    limit: usize,
) -> (r: Result<Head, LoadError>)
    requires
        file.wf(),
    ensures
        match r {
            Ok(h) => shortened(*file, *cfg, embd, output, limit) == Ok::<Head, LoadErrorView>(h),
            Err(e) => shortened(*file, *cfg, embd, output, limit) == Err::<Head, LoadErrorView>(e@),
        },
{
    let mut head: Head = Head { token_embd: embd, output: None, special: None, special_id: None };
    match output {
        Some(m) => {
            head.output = Some(GpuMat { n_cols: limit, ..m });
        },
        None => {
            head.token_embd = GpuMat { n_cols: limit, ..embd };
        },
    }
    let eos: Option<u32> = match file.meta_u32("tokenizer.ggml.eos_token_id") {
        Some(n) => Some(n),
        None => match file.meta_u64("tokenizer.ggml.eos_token_id") {
            Some(n) => Some(
                #[verifier::truncate]
                (n as u32),
            ),
            None => None,
        },
    };
    match eos {
        Some(id) => {
            if id as u64 >= limit as u64 && (id as u64) < cfg.n_vocab as u64 {
                let name: &str = if output.is_some() {
                    "output.weight"
                } else {
                    "token_embd.weight"
                };
                let t: &GgufTensorInfo = match file.tensor(name) {
                    Some(t) => t,
                    None => {
                        return Err(LoadError::Missing(name.to_owned()));
                    },
                };
                match column_from(t) {
                    Ok(m) => {
                        head.special = Some(m);
                        head.special_id = Some(id);
                    },
                    Err(e) => {
                        return Err(e);
                    },
                }
            }
        },
        None => {},
    }
    Ok(head)
}

/// The output head.
pub fn load_head(file: &GgufFile<'_>, cfg: &ModelConfig, opts: &LoadOptions) -> (r: Result<
    Head,
    LoadError,
>)
    requires
        file.wf(),
    ensures
        match r {
            Ok(h) => head_of(*file, *cfg, *opts) == Ok::<Head, LoadErrorView>(h),
            Err(e) => head_of(*file, *cfg, *opts) == Err::<Head, LoadErrorView>(e@),
        },
{
    let q5k: bool = opts.q5k_fallback(cfg);
    let embd: GpuMat = match load_mat(file, "token_embd.weight", MatId::TokenEmbd, q5k) {
        Ok(m) => m,
        Err(e) => {
            return Err(e);
        },
    };
    match check_vec(file, "output_norm.weight") {
        Ok(_) => {},
        Err(e) => {
            return Err(e);
        },
    }
    let output: Option<GpuMat> = match load_mat(file, "output.weight", MatId::Output, q5k) {
        Ok(m) => Some(m),
        Err(LoadError::BadShape(n)) => {
            return Err(LoadError::BadShape(n));
        },
        Err(_) => None,
    };
    match opts.active_limit(cfg) {
        None => Ok(Head { token_embd: embd, output, special: None, special_id: None }),
        Some(limit) => shorten(file, cfg, embd, output, limit),
    }
}

/// A shortened vocabulary keeps the token that ends a text within reach: the
/// head scores it, or it is among the tokens that are left.
pub proof fn law_end_token_reachable(
    file: GgufFile<'_>,
    cfg: ModelConfig,
    opts: LoadOptions,
    eos: u32,
    head: Head,
)
    requires
        head_of(file, cfg, opts) == Ok::<Head, LoadErrorView>(head),
        opts.limit(cfg) is Some,
        count_of(file.meta("tokenizer.ggml.eos_token_id"@)) == Some(eos),
        eos < cfg.n_vocab,
    ensures
        head.active() == opts.limit(cfg)->0,
        eos < head.active() || (head.special is Some && head.special_id == Some(eos)),
{
}

/// The bytes of one column of a tensor.
pub fn column_bytes<'a>(file: &'a GgufFile<'_>, t: &GgufTensorInfo, col: usize) -> (r: &'a [u8])
    requires
        file.has_bytes(t@),
        t.dims@.len() > 0,
        (col + 1) * t.ggml_type.spec_nbytes(t.dims@[0] as nat) <= t@.nbytes(),
    ensures
        r@ == file.bytes@.subrange(
            file.data_offset + t.offset,
            file.data_offset + t.offset + t@.nbytes(),
        ).subrange(
            (col * t.ggml_type.spec_nbytes(t.dims@[0] as nat)) as int,
            ((col + 1) * t.ggml_type.spec_nbytes(t.dims@[0] as nat)) as int,
        ),
{
    let data: &[u8] = file.tensor_data(t);
    assert(data.len() == data@.len());
    proof {
        let b = t.ggml_type.spec_nbytes(t.dims@[0] as nat) as int;
        assert((col + 1) * b >= b) by (nonlinear_arith)
            requires
                b >= 0,
                col >= 0,
        ;
    }
    let bytes: u64 = t.ggml_type.nbytes(t.dims[0]);
    proof {
        let b = bytes as int;
        assert((col + 1) * b == col * b + b && col * b >= 0) by (nonlinear_arith)
            requires
                b >= 0,
                col >= 0,
        ;
    }
    let start: usize = col * bytes as usize;
    vstd::slice::slice_subrange(data, start, start + bytes as usize)
}

/// The first `n` layers, or the first error.
pub open spec fn layers_of(file: GgufFile<'_>, cfg: ModelConfig, n: nat, q5k: bool) -> Result<
    Seq<GpuLayer>,
    LoadErrorView,
>
    decreases n,
{
    if n == 0 {
        Ok(Seq::empty())
    } else {
        match layers_of(file, cfg, (n - 1) as nat, q5k) {
            Err(e) => Err(e),
            Ok(before) => match layer_of(file, cfg, (n - 1) as nat, q5k) {
                Err(e) => Err(e),
                Ok(l) => Ok(before.push(l)),
            },
        }
    }
}

/// The first error stays, however many layers follow.
proof fn lemma_layers_fail(file: GgufFile<'_>, cfg: ModelConfig, i: nat, n: nat, q5k: bool)
    requires
        i <= n,
        layers_of(file, cfg, i, q5k) is Err,
    ensures
        layers_of(file, cfg, n, q5k) == layers_of(file, cfg, i, q5k),
    decreases n,
{
    if i < n {
        lemma_layers_fail(file, cfg, i, (n - 1) as nat, q5k);
    }
}

/// All layers.
fn load_layers(file: &GgufFile<'_>, cfg: &ModelConfig, q5k: bool) -> (r: Result<
    Vec<GpuLayer>,
    LoadError,
>)
    requires
        file.wf(),
    ensures
        match r {
            Ok(l) => layers_of(*file, *cfg, cfg.n_layer as nat, q5k) == Ok::<
                Seq<GpuLayer>,
                LoadErrorView,
            >(l@),
            Err(e) => layers_of(*file, *cfg, cfg.n_layer as nat, q5k) == Err::<
                Seq<GpuLayer>,
                LoadErrorView,
            >(e@),
        },
{
    let mut layers: Vec<GpuLayer> = Vec::new();
    let mut i: usize = 0;
    while i < cfg.n_layer
        invariant
            i <= cfg.n_layer,
            file.wf(),
            layers_of(*file, *cfg, i as nat, q5k) == Ok::<Seq<GpuLayer>, LoadErrorView>(layers@),
        decreases cfg.n_layer - i,
    {
        match load_layer(file, cfg, i, q5k) {
            Ok(l) => {
                layers.push(l);
            },
            Err(e) => {
                proof {
                    lemma_layers_fail(*file, *cfg, i as nat + 1, cfg.n_layer as nat, q5k);
                }
                return Err(e);
            },
        }
        i = i + 1;
    }
    Ok(layers)
}

/// What is decided apart from the file: the attention path, the card, the
/// switches.
pub struct Setup {
    pub decode: DecodeBackend,
    pub tuning: GemvTuning,
    pub flags: Flags,
    pub skip_ffn: Option<String>,
}

impl CudaModel {
    /// A model of these parts that has recorded nothing yet.
    pub open spec fn is_fresh(
        self,
        cfg: ModelConfig,
        setup: Setup,
        head: Head,
        layers: Seq<GpuLayer>,
        stride: int,
    ) -> bool {
        &&& self.cfg == cfg
        &&& self.decode == setup.decode
        &&& self.card == (Card { tuning: setup.tuning, partial_stride: stride as usize })
        &&& self.flags == setup.flags
        &&& self.skip_ffn == setup.skip_ffn
        &&& self.head == head
        &&& self.layers@ == layers
        &&& self.cuda_graph
        &&& !self.graph_tried
        &&& !self.graph_active
        &&& !self.has_graph
    }

    /// The model of a file.
    pub fn load_with(
        file: &GgufFile<'_>,
        cfg: ModelConfig,
        setup: Setup,
        opts: &LoadOptions,
    ) -> (r: Result<CudaModel, LoadError>)
        requires
            file.wf(),
            sides_fit(cfg),
            recurrent_fits(cfg),
            head_of(*file, cfg, *opts) matches Ok(h) ==> h.active() <= MAX_SIDE,
        ensures
            match r {
                Ok(m) => {
                    &&& head_of(*file, cfg, *opts) == Ok::<Head, LoadErrorView>(m.head)
                    &&& layers_of(*file, cfg, cfg.n_layer as nat, opts.converts_q5k(cfg)) == Ok::<
                        Seq<GpuLayer>,
                        LoadErrorView,
                    >(m.layers@)
                    &&& exists|w: Widths| #[trigger]
                        w.is_of(cfg, m.head.scores(), true) && m.is_fresh(
                            cfg,
                            setup,
                            m.head,
                            m.layers@,
                            w.partial_stride() as int,
                        )
                },
                Err(e) => match head_of(*file, cfg, *opts) {
                    Err(h) => e@ == h,
                    Ok(_) => layers_of(*file, cfg, cfg.n_layer as nat, opts.converts_q5k(cfg))
                        == Err::<Seq<GpuLayer>, LoadErrorView>(e@),
                },
            },
    {
        let head: Head = match load_head(file, &cfg, opts) {
            Ok(h) => h,
            Err(e) => {
                return Err(e);
            },
        };
        let q5k: bool = opts.q5k_fallback(&cfg);
        let layers: Vec<GpuLayer> = match load_layers(file, &cfg, q5k) {
            Ok(l) => l,
            Err(e) => {
                return Err(e);
            },
        };
        let widths: Widths = Widths::of(&cfg, head.scores(), true);
        assert(widths.is_of(cfg, head.scores(), true));
        let stride: usize = widths.partial_stride() as usize;
        Ok(CudaModel::fresh(cfg, setup, head, layers, stride))
    }

    /// A model of these parts that has recorded nothing yet.
    pub fn fresh(
        cfg: ModelConfig,
        setup: Setup,
        head: Head,
        layers: Vec<GpuLayer>,
        stride: usize,
    ) -> (r: CudaModel)
        ensures
            r.is_fresh(cfg, setup, head, layers@, stride as int),
    {
        CudaModel {
            cfg,
            decode: setup.decode,
            card: Card { tuning: setup.tuning, partial_stride: stride },
            flags: setup.flags,
            skip_ffn: setup.skip_ffn,
            head,
            layers,
            cuda_graph: true,
            graph_tried: false,
            graph_active: false,
            has_graph: false,
        }
    }
}

/// The suffix of the name of a matrix of a layer; for the others the whole
/// name.
pub open spec fn mat_suffix_of(id: MatId) -> Seq<char> {
    match id {
        MatId::TokenEmbd => "token_embd.weight"@,
        MatId::Output => "output.weight"@,
        MatId::OutputSpecial => "output.weight"@,
        MatId::Wq => "attn_q.weight"@,
        MatId::Wk => "attn_k.weight"@,
        MatId::Wv => "attn_v.weight"@,
        MatId::Wo => "attn_output.weight"@,
        MatId::Wqkv => "attn_qkv.weight"@,
        MatId::WGate => "attn_gate.weight"@,
        MatId::SsmAlpha => "ssm_alpha.weight"@,
        MatId::SsmBeta => "ssm_beta.weight"@,
        MatId::SsmOut => "ssm_out.weight"@,
        MatId::Gate => "ffn_gate.weight"@,
        MatId::Up => "ffn_up.weight"@,
        MatId::Down => "ffn_down.weight"@,
        MatId::GateAll => "ffn_gate"@,
        MatId::UpAll => "ffn_up"@,
        MatId::DownAll => "ffn_down"@,
    }
}

/// The suffix of the name of a matrix of a layer.
pub fn mat_suffix(id: MatId) -> (r: &'static str)
    ensures
        r@ == mat_suffix_of(id),
{
    match id {
        MatId::TokenEmbd => "token_embd.weight",
        MatId::Output => "output.weight",
        MatId::OutputSpecial => "output.weight",
        MatId::Wq => "attn_q.weight",
        MatId::Wk => "attn_k.weight",
        MatId::Wv => "attn_v.weight",
        MatId::Wo => "attn_output.weight",
        MatId::Wqkv => "attn_qkv.weight",
        MatId::WGate => "attn_gate.weight",
        MatId::SsmAlpha => "ssm_alpha.weight",
        MatId::SsmBeta => "ssm_beta.weight",
        MatId::SsmOut => "ssm_out.weight",
        MatId::Gate => "ffn_gate.weight",
        MatId::Up => "ffn_up.weight",
        MatId::Down => "ffn_down.weight",
        MatId::GateAll => "ffn_gate",
        MatId::UpAll => "ffn_up",
        MatId::DownAll => "ffn_down",
    }
}

/// The suffix of the name of a vector of a layer that has only one.
pub open spec fn vec_suffix_of(id: VecId) -> Seq<char> {
    match id {
        VecId::AttnNorm => "attn_norm.weight"@,
        VecId::FfnNorm => "ffn_norm.weight"@,
        VecId::OutputNorm => "output_norm.weight"@,
        VecId::Bq => "attn_q.bias"@,
        VecId::Bk => "attn_k.bias"@,
        VecId::Bv => "attn_v.bias"@,
        VecId::QNorm => "attn_q_norm.weight"@,
        VecId::KNorm => "attn_k_norm.weight"@,
        VecId::Conv1d => "ssm_conv1d.weight"@,
        VecId::SsmA => "ssm_a"@,
        VecId::SsmDt => "ssm_dt.bias"@,
        VecId::SsmNorm => "ssm_norm.weight"@,
        VecId::Router => "router.f32"@,
    }
}

/// The suffix of the name of a vector of a layer.
pub fn vec_suffix(id: VecId) -> (r: &'static str)
    ensures
        r@ == vec_suffix_of(id),
{
    match id {
        VecId::AttnNorm => "attn_norm.weight",
        VecId::FfnNorm => "ffn_norm.weight",
        VecId::OutputNorm => "output_norm.weight",
        VecId::Bq => "attn_q.bias",
        VecId::Bk => "attn_k.bias",
        VecId::Bv => "attn_v.bias",
        VecId::QNorm => "attn_q_norm.weight",
        VecId::KNorm => "attn_k_norm.weight",
        VecId::Conv1d => "ssm_conv1d.weight",
        VecId::SsmA => "ssm_a",
        VecId::SsmDt => "ssm_dt.bias",
        VecId::SsmNorm => "ssm_norm.weight",
        VecId::Router => "router.f32",
    }
}

/// Whether one is added to the numbers of a vector: to those of the
/// normalisations and biases, not to those of the recurrence.
pub fn takes_one(id: VecId) -> (r: bool)
    ensures
        r == !(id is Conv1d || id is SsmA || id is SsmDt || id is SsmNorm || id is Router),
{
    match id {
        VecId::Conv1d => false,
        VecId::SsmA => false,
        VecId::SsmDt => false,
        VecId::SsmNorm => false,
        VecId::Router => false,
        _ => true,
    }
}

/// The matrices of a loaded layer are those of the file under the names that
/// [`mat_suffix`] gives.
pub proof fn law_layer_matrices_named(
    file: GgufFile<'_>,
    cfg: ModelConfig,
    i: nat,
    q5k: bool,
    layer: GpuLayer,
    m: GpuMat,
)
    requires
        layer_of(file, cfg, i, q5k) == Ok::<GpuLayer, LoadErrorView>(layer),
        mats_of(layer).contains(m),
    ensures
        mat_named(file, blk(i, mat_suffix_of(m.id)), m.id, q5k) == Ok::<GpuMat, LoadErrorView>(m),
{
    lemma_parts_named(file, cfg, i, q5k, layer);
    lemma_one_of(file, i, q5k, layer, m);
    reveal(named);
}

/// Each of the matrices of a layer is the one of its name.
spec fn parts_named(file: GgufFile<'_>, i: nat, q5k: bool, layer: GpuLayer) -> bool {
    &&& match layer.ffn {
        LayerFfn::Dense { gate, up, down } => named(file, i, q5k, gate) && named(file, i, q5k, up)
            && named(file, i, q5k, down),
        LayerFfn::Moe(_) => false,
    }
    &&& match layer.attn {
        LayerAttn::Full(a) => named(file, i, q5k, a.wq) && named(file, i, q5k, a.wk) && named(
            file,
            i,
            q5k,
            a.wv,
        ) && named(file, i, q5k, a.wo),
        LayerAttn::Linear(a) => named(file, i, q5k, a.wqkv) && named(file, i, q5k, a.w_gate)
            && named(file, i, q5k, a.ssm_alpha) && named(file, i, q5k, a.ssm_beta) && named(
            file,
            i,
            q5k,
            a.ssm_out,
        ),
    }
}

proof fn lemma_one_of(file: GgufFile<'_>, i: nat, q5k: bool, layer: GpuLayer, m: GpuMat)
    requires
        parts_named(file, i, q5k, layer),
        mats_of(layer).contains(m),
    ensures
        named(file, i, q5k, m),
{
    let k = choose|k: int| 0 <= k < mats_of(layer).len() && mats_of(layer)[k] == m;
    assert(mats_of(layer)[k] == m);
    match layer.attn {
        LayerAttn::Full(a) => {
            if k >= 3 {
                assert(m == seq![a.wq, a.wk, a.wv, a.wo][k - 3]);
            }
        },
        LayerAttn::Linear(a) => {
            if k >= 3 {
                assert(m == seq![a.wqkv, a.w_gate, a.ssm_alpha, a.ssm_beta, a.ssm_out][k - 3]);
            }
        },
    }
}

#[verifier::rlimit(80)]
proof fn lemma_parts_named(
    file: GgufFile<'_>,
    cfg: ModelConfig,
    i: nat,
    q5k: bool,
    layer: GpuLayer,
)
    requires
        layer_of(file, cfg, i, q5k) == Ok::<GpuLayer, LoadErrorView>(layer),
    ensures
        parts_named(file, i, q5k, layer),
{
    assert(layer.ffn is Dense && named(file, i, q5k, layer.ffn->gate) && named(
        file,
        i,
        q5k,
        layer.ffn->up,
    ) && named(file, i, q5k, layer.ffn->down)) by {
        lemma_ffn_named(file, cfg, i, q5k, layer);
        lemma_named(file, i, "ffn_gate.weight"@, MatId::Gate, q5k, layer.ffn->gate);
        lemma_named(file, i, "ffn_up.weight"@, MatId::Up, q5k, layer.ffn->up);
        lemma_named(file, i, "ffn_down.weight"@, MatId::Down, q5k, layer.ffn->down);
    }
    match layer.attn {
        LayerAttn::Full(a) => {
            assert(named(file, i, q5k, a.wq) && named(file, i, q5k, a.wk) && named(
                file,
                i,
                q5k,
                a.wv,
            ) && named(file, i, q5k, a.wo)) by {
                lemma_ffn_named(file, cfg, i, q5k, layer);
                lemma_full_named(file, cfg, i, q5k, layer.attn);
            }
        },
        LayerAttn::Linear(a) => {
            assert(named(file, i, q5k, a.wqkv) && named(file, i, q5k, a.w_gate) && named(
                file,
                i,
                q5k,
                a.ssm_alpha,
            ) && named(file, i, q5k, a.ssm_beta) && named(file, i, q5k, a.ssm_out)) by {
                lemma_ffn_named(file, cfg, i, q5k, layer);
                lemma_linear_named(file, cfg, i, q5k, layer.attn);
            }
        },
    }
}

/// Whether a matrix is the one of its name.
#[verifier::opaque]
spec fn named(file: GgufFile<'_>, i: nat, q5k: bool, m: GpuMat) -> bool {
    mat_named(file, blk(i, mat_suffix_of(m.id)), m.id, q5k) == Ok::<GpuMat, LoadErrorView>(m)
}

proof fn lemma_named(
    file: GgufFile<'_>,
    i: nat,
    suffix: Seq<char>,
    id: MatId,
    q5k: bool,
    m: GpuMat,
)
    requires
        blk_mat(file, i, suffix, id, q5k) == Ok::<GpuMat, LoadErrorView>(m),
        mat_suffix_of(id) == suffix,
    ensures
        named(file, i, q5k, m),
{
    reveal(named);
}

proof fn lemma_full_named(
    file: GgufFile<'_>,
    cfg: ModelConfig,
    i: nat,
    q5k: bool,
    attn: LayerAttn,
)
    requires
        attn is Full,
        full_attn(file, i, cfg.fused_q_gate, q5k) == Ok::<LayerAttn, LoadErrorView>(attn)
            || linear_attn(file, cfg, i, q5k) == Ok::<LayerAttn, LoadErrorView>(attn),
    ensures
        named(file, i, q5k, attn->Full_0.wq),
        named(file, i, q5k, attn->Full_0.wk),
        named(file, i, q5k, attn->Full_0.wv),
        named(file, i, q5k, attn->Full_0.wo),
{
    let a = attn->Full_0;
    lemma_named(file, i, "attn_q.weight"@, MatId::Wq, q5k, a.wq);
    lemma_named(file, i, "attn_k.weight"@, MatId::Wk, q5k, a.wk);
    lemma_named(file, i, "attn_v.weight"@, MatId::Wv, q5k, a.wv);
    lemma_named(file, i, "attn_output.weight"@, MatId::Wo, q5k, a.wo);
}

proof fn lemma_linear_named(
    file: GgufFile<'_>,
    cfg: ModelConfig,
    i: nat,
    q5k: bool,
    attn: LayerAttn,
)
    requires
        attn is Linear,
        full_attn(file, i, cfg.fused_q_gate, q5k) == Ok::<LayerAttn, LoadErrorView>(attn)
            || linear_attn(file, cfg, i, q5k) == Ok::<LayerAttn, LoadErrorView>(attn),
    ensures
        named(file, i, q5k, attn->Linear_0.wqkv),
        named(file, i, q5k, attn->Linear_0.w_gate),
        named(file, i, q5k, attn->Linear_0.ssm_alpha),
        named(file, i, q5k, attn->Linear_0.ssm_beta),
        named(file, i, q5k, attn->Linear_0.ssm_out),
{
    let a = attn->Linear_0;
    lemma_named(file, i, "attn_qkv.weight"@, MatId::Wqkv, q5k, a.wqkv);
    lemma_named(file, i, "attn_gate.weight"@, MatId::WGate, q5k, a.w_gate);
    lemma_named(file, i, "ssm_alpha.weight"@, MatId::SsmAlpha, q5k, a.ssm_alpha);
    lemma_named(file, i, "ssm_beta.weight"@, MatId::SsmBeta, q5k, a.ssm_beta);
    lemma_named(file, i, "ssm_out.weight"@, MatId::SsmOut, q5k, a.ssm_out);
}

/// The feed-forward matrices of a loaded layer, and where its attention is
/// from.
proof fn lemma_ffn_named(
    file: GgufFile<'_>,
    cfg: ModelConfig,
    i: nat,
    q5k: bool,
    layer: GpuLayer,
)
    requires
        layer_of(file, cfg, i, q5k) == Ok::<GpuLayer, LoadErrorView>(layer),
    ensures
        layer.ffn is Dense,
        blk_mat(file, i, "ffn_gate.weight"@, MatId::Gate, q5k) == Ok::<GpuMat, LoadErrorView>(
            layer.ffn->gate,
        ),
        blk_mat(file, i, "ffn_up.weight"@, MatId::Up, q5k) == Ok::<GpuMat, LoadErrorView>(
            layer.ffn->up,
        ),
        blk_mat(file, i, "ffn_down.weight"@, MatId::Down, q5k) == Ok::<GpuMat, LoadErrorView>(
            layer.ffn->down,
        ),
        kind_at(cfg, i) == LayerKind::FullAttention ==> full_attn(file, i, cfg.fused_q_gate, q5k)
            == Ok::<LayerAttn, LoadErrorView>(layer.attn),
        kind_at(cfg, i) == LayerKind::LinearAttention ==> linear_attn(file, cfg, i, q5k) == Ok::<
            LayerAttn,
            LoadErrorView,
        >(layer.attn),
{
    reveal(layer_of);
}

/// The matrices of a layer: those of the feed-forward part, then those of the
/// attention.
pub open spec fn mats_of(layer: GpuLayer) -> Seq<GpuMat> {
    let ffn = match layer.ffn {
        LayerFfn::Dense { gate, up, down } => seq![gate, up, down],
        LayerFfn::Moe(m) => seq![m.gate_all, m.up_all, m.down_all],
    };
    let attn = match layer.attn {
        LayerAttn::Full(a) => seq![a.wq, a.wk, a.wv, a.wo],
        LayerAttn::Linear(a) => seq![a.wqkv, a.w_gate, a.ssm_alpha, a.ssm_beta, a.ssm_out],
    };
    ffn + attn
}

/// The matrices of a layer.
pub fn layer_mats(layer: &GpuLayer) -> (r: Vec<GpuMat>)
    ensures
        r@ == mats_of(*layer),
{
    let mut out: Vec<GpuMat> = match layer.ffn {
        LayerFfn::Dense { gate, up, down } => vec![gate, up, down],
        LayerFfn::Moe(m) => vec![m.gate_all, m.up_all, m.down_all],
    };
    let mut attn: Vec<GpuMat> = match layer.attn {
        LayerAttn::Full(a) => vec![a.wq, a.wk, a.wv, a.wo],
        LayerAttn::Linear(a) => vec![a.wqkv, a.w_gate, a.ssm_alpha, a.ssm_beta, a.ssm_out],
    };
    out.append(&mut attn);
    out
}

/// The matrices of the first `n` layers.
pub open spec fn layers_mats(layers: Seq<GpuLayer>, n: nat) -> Seq<GpuMat>
    decreases n,
{
    if n == 0 {
        Seq::empty()
    } else {
        layers_mats(layers, (n - 1) as nat) + mats_of(layers[n - 1])
    }
}

/// The matrices of a model.
pub open spec fn model_mats(head: Head, layers: Seq<GpuLayer>) -> Seq<GpuMat> {
    seq![head.token_embd] + (match head.output {
        Some(m) => seq![m],
        None => Seq::empty(),
    }) + layers_mats(layers, layers.len())
}

/// The matrices of a model.
pub fn all_mats(head: &Head, layers: &[GpuLayer]) -> (r: Vec<GpuMat>)
    ensures
        r@ == model_mats(*head, layers@),
{
    let mut out: Vec<GpuMat> = vec![head.token_embd];
    match head.output {
        Some(m) => {
            out.push(m);
        },
        None => {},
    }
    let ghost start: Seq<GpuMat> = out@;
    assert(start =~= seq![head.token_embd] + (match head.output {
        Some(m) => seq![m],
        None => Seq::empty(),
    }));
    let mut i: usize = 0;
    assert(out@ =~= start + layers_mats(layers@, 0));
    while i < layers.len()
        invariant
            i <= layers@.len(),
            out@ == start + layers_mats(layers@, i as nat),
        decreases layers@.len() - i,
    {
        let mut mats: Vec<GpuMat> = layer_mats(&layers[i]);
        out.append(&mut mats);
        i = i + 1;
        assert(out@ =~= start + layers_mats(layers@, i as nat));
    }
    out
}

/// The class under which a matrix is counted.
#[verifier::allow_in_spec]
pub fn class_of(w: WType) -> usize
    returns
        (match w {
            WType::Q4K => 0usize,
            WType::Q4_0 => 0usize,
            WType::Q4_0_BM => 0usize,
            WType::F16 => 0usize,
            WType::Q5K => 1usize,
            WType::Q5_0 => 2usize,
            WType::Q6K => 3usize,
            WType::Q8_0 => 4usize,
        }),
{
    match w {
        WType::Q4K => 0,
        WType::Q4_0 => 0,
        WType::Q4_0_BM => 0,
        WType::F16 => 0,
        WType::Q5K => 1,
        WType::Q5_0 => 2,
        WType::Q6K => 3,
        WType::Q8_0 => 4,
    }
}

/// How many matrices have class `c`, and their bytes.
pub open spec fn class_total(mats: Seq<GpuMat>, c: usize) -> (nat, nat)
    decreases mats.len(),
{
    if mats.len() == 0 {
        (0, 0)
    } else {
        let before = class_total(mats.drop_last(), c);
        let m = mats.last();
        if class_of(m.wtype) == c {
            (before.0 + 1, before.1 + m.col_bytes as nat * m.n_cols as nat)
        } else {
            before
        }
    }
}

/// Fewer matrices never count more.
proof fn lemma_class_grows(mats: Seq<GpuMat>, c: usize, i: int)
    requires
        0 <= i <= mats.len(),
    ensures
        class_total(mats.take(i), c).0 <= class_total(mats, c).0,
        class_total(mats.take(i), c).1 <= class_total(mats, c).1,
        class_total(mats.take(i), c).0 <= i,
    decreases mats.len() - i,
{
    if i == mats.len() {
        assert(mats.take(i) =~= mats);
        if i > 0 {
            assert(mats.drop_last() =~= mats.take(i - 1));
            lemma_class_count(mats, c);
        }
    } else {
        lemma_class_grows(mats, c, i + 1);
        assert(mats.take(i + 1).drop_last() =~= mats.take(i));
        lemma_class_count(mats.take(i), c);
    }
}

/// No more matrices have a class than there are.
proof fn lemma_class_count(mats: Seq<GpuMat>, c: usize)
    ensures
        class_total(mats, c).0 <= mats.len(),
    decreases mats.len(),
{
    if mats.len() > 0 {
        lemma_class_count(mats.drop_last(), c);
    }
}

/// How many matrices have class `c`, and their bytes.
pub fn count_class(mats: &[GpuMat], c: usize) -> (r: (usize, u64))
    requires
        class_total(mats@, c).1 <= u64::MAX,
    ensures
        r.0 == class_total(mats@, c).0,
        r.1 == class_total(mats@, c).1,
{
    let mut count: usize = 0;
    let mut bytes: u64 = 0;
    let mut i: usize = 0;
    assert(mats@.take(0) =~= Seq::<GpuMat>::empty());
    assert(mats.len() == mats@.len());
    while i < mats.len()
        invariant
            i <= mats@.len(),
            mats@.len() <= usize::MAX,
            class_total(mats@, c).1 <= u64::MAX,
            count == class_total(mats@.take(i as int), c).0,
            bytes == class_total(mats@.take(i as int), c).1,
        decreases mats@.len() - i,
    {
        proof {
            assert(mats@.take(i as int + 1).drop_last() =~= mats@.take(i as int));
            lemma_class_grows(mats@, c, i as int + 1);
            lemma_class_grows(mats@, c, i as int);
        }
        let m: GpuMat = mats[i];
        if class_of(m.wtype) == c {
            count = count + 1;
            bytes = bytes + m.col_bytes as u64 * m.n_cols as u64;
        }
        i = i + 1;
    }
    assert(mats@.take(mats@.len() as int) =~= mats@);
    (count, bytes)
}

/// A matrix has the sides of its tensor, one column where the tensor has one side, and
/// columns as long as its type makes them: a type that is kept is read as it is, a type
/// that is converted as numbers of eight bits.
pub proof fn law_matrix_of_tensor(t: TensorView, id: MatId, q5k: bool)
    ensures
        convert_of(t.ggml_type, q5k) != Convert::Keep <==> t.ggml_type == GgmlType::Q5_1 || (
        t.ggml_type == GgmlType::Q5_K && q5k),
        mat_of(t, id, q5k) matches Ok(m) ==> {
            let kept = convert_of(t.ggml_type, q5k) == Convert::Keep;
            let row = t.dims[0] as nat;
            &&& t.dims.len() >= 1
            &&& m.id == id
            &&& m.n_rows == t.dims[0] as usize
            &&& t.dims.len() > 1 ==> m.n_cols == t.dims[1] as usize
            &&& t.dims.len() == 1 ==> m.n_cols == 1
            &&& kept ==> m.col_bytes == t.ggml_type.spec_nbytes(row) as usize
            &&& !kept ==> m.wtype == WType::Q8_0 && m.col_bytes == GgmlType::Q8_0.spec_nbytes(
                row,
            ) as usize
            &&& kept && m.wtype == WType::Q4K ==> t.ggml_type == GgmlType::Q4_K
            &&& kept && m.wtype == WType::Q4_0 ==> t.ggml_type == GgmlType::Q4_0
            &&& kept && m.wtype == WType::Q5K ==> t.ggml_type == GgmlType::Q5_K
            &&& kept && m.wtype == WType::Q5_0 ==> t.ggml_type == GgmlType::Q5_0
            &&& kept && m.wtype == WType::Q6K ==> t.ggml_type == GgmlType::Q6_K
            &&& kept && m.wtype == WType::Q8_0 ==> t.ggml_type == GgmlType::Q8_0
            &&& m.wtype != WType::F16 && m.wtype != WType::Q4_0_BM
            &&& m.has_compact <==> m.wtype == WType::Q6K
            &&& !m.has_decode
            &&& m.has_compact ==> m.compact_col_bytes == m.n_rows / 256 * 212
        },
        mat_of(t, id, q5k) is Err && t.dims.len() >= 1 && t.dims[0] < 0x1_0000_0000 ==> {
            &&& convert_of(t.ggml_type, q5k) == Convert::Keep
            &&& t.ggml_type != GgmlType::Q4_K && t.ggml_type != GgmlType::Q4_0
            &&& t.ggml_type != GgmlType::Q5_K && t.ggml_type != GgmlType::Q5_0
            &&& t.ggml_type != GgmlType::Q6_K && t.ggml_type != GgmlType::Q8_0
        },
{
    if let Ok(m) = mat_of(t, id, q5k) {
        assert(m.n_rows / 256 * 212 <= m.n_rows);
    }
    if t.dims.len() >= 1 && t.dims[0] < 0x1_0000_0000 {
        lemma_row_bytes(t.ggml_type, t.dims[0] as nat);
        lemma_row_bytes(GgmlType::Q8_0, t.dims[0] as nat);
    }
}

proof fn lemma_row_bytes(t: GgmlType, n: nat)
    requires
        n < 0x1_0000_0000,
    ensures
        t.spec_nbytes(n) <= u64::MAX,
{
    let b = t.spec_block_size();
    let parts = crate::gguf::types::div_ceil(n, b);
    assert(parts <= n + 1) by {
        vstd::arithmetic::div_mod::lemma_div_nonincreasing(n as int, b as int);
    }
    assert(t.spec_type_size() <= 292);
    assert(parts * t.spec_type_size() <= 0x1_0000_0001 * 292) by (nonlinear_arith)
        requires
            parts <= 0x1_0000_0001,
            t.spec_type_size() <= 292,
    ;
}

/// The matrix of the tensor that has that name in a layer.
pub open spec fn mat_at(
    file: GgufFile<'_>,
    i: nat,
    q5k: bool,
    suffix: Seq<char>,
    id: MatId,
    m: GpuMat,
) -> bool {
    let r = mat_named(file, "blk."@ + decimal(i) + "."@ + suffix, id, q5k);
    r is Ok && r->Ok_0 == m
}

/// Whether a layer has a tensor of that name of single precision numbers.
pub open spec fn has_vec(file: GgufFile<'_>, i: nat, suffix: Seq<char>) -> bool {
    let t = tensor_named(file, "blk."@ + decimal(i) + "."@ + suffix);
    t is Some && t->0.ggml_type == GgmlType::F32
}

/// A layer with attention has each of its matrices from the tensor of that name, and its
/// biases and norms where the file has them.
#[verifier::rlimit(60)]
pub proof fn law_full_attention_tensors(
    file: GgufFile<'_>,
    cfg: ModelConfig,
    i: nat,
    q5k: bool,
    layer: GpuLayer,
)
    requires
        layer_of(file, cfg, i, q5k) == Ok::<GpuLayer, LoadErrorView>(layer),
        layer.attn is Full,
    ensures
        ({
            let a = layer.attn->Full_0;
            &&& mat_at(file, i, q5k, "attn_q.weight"@, MatId::Wq, a.wq)
            &&& mat_at(file, i, q5k, "attn_k.weight"@, MatId::Wk, a.wk)
            &&& mat_at(file, i, q5k, "attn_v.weight"@, MatId::Wv, a.wv)
            &&& mat_at(file, i, q5k, "attn_output.weight"@, MatId::Wo, a.wo)
            &&& a.bq == has_vec(file, i, "attn_q.bias"@)
            &&& a.bk == has_vec(file, i, "attn_k.bias"@)
            &&& a.bv == has_vec(file, i, "attn_v.bias"@)
            &&& a.attn_q_norm == has_vec(file, i, "attn_q_norm.weight"@)
            &&& a.attn_k_norm == has_vec(file, i, "attn_k_norm.weight"@)
            &&& a.fused_q_gate == cfg.fused_q_gate
        }),
        i < cfg.layer_kinds@.len() ==> cfg.layer_kinds@[i as int] == LayerKind::FullAttention,
{
    reveal(layer_of);
}

/// A layer with linear attention has each of its matrices from the tensor of that name,
/// its vectors from the file, and its heads from the configuration.
#[verifier::rlimit(60)]
pub proof fn law_linear_attention_tensors(
    file: GgufFile<'_>,
    cfg: ModelConfig,
    i: nat,
    q5k: bool,
    layer: GpuLayer,
)
    requires
        layer_of(file, cfg, i, q5k) == Ok::<GpuLayer, LoadErrorView>(layer),
        layer.attn is Linear,
    ensures
        ({
            let a = layer.attn->Linear_0;
            let conv = tensor_named(file, "blk."@ + decimal(i) + "."@ + "ssm_conv1d.weight"@);
            &&& mat_at(file, i, q5k, "attn_qkv.weight"@, MatId::Wqkv, a.wqkv)
            &&& mat_at(file, i, q5k, "attn_gate.weight"@, MatId::WGate, a.w_gate)
            &&& mat_at(file, i, q5k, "ssm_alpha.weight"@, MatId::SsmAlpha, a.ssm_alpha)
            &&& mat_at(file, i, q5k, "ssm_beta.weight"@, MatId::SsmBeta, a.ssm_beta)
            &&& mat_at(file, i, q5k, "ssm_out.weight"@, MatId::SsmOut, a.ssm_out)
            &&& has_vec(file, i, "ssm_a"@)
            &&& has_vec(file, i, "ssm_dt.bias"@)
            &&& has_vec(file, i, "ssm_norm.weight"@)
            &&& conv is Some
            &&& conv->0.dims.len() > 0
            &&& a.conv_kernel == conv->0.dims[0] as usize
            &&& conv->0.dims.len() > 1 ==> a.conv_channels == conv->0.dims[1] as usize
            &&& a.n_k_heads == cfg.ssm_n_k_heads
            &&& a.n_v_heads == cfg.ssm_n_v_heads
            &&& a.state_size == cfg.ssm_state_size
        }),
        i < cfg.layer_kinds@.len() && cfg.layer_kinds@[i as int] == LayerKind::LinearAttention,
{
    reveal(layer_of);
}

/// The feed-forward part of a layer has each of its matrices from the tensor of that
/// name, and a layer has both of its norms.
#[verifier::rlimit(60)]
pub proof fn law_feed_forward_tensors(
    file: GgufFile<'_>,
    cfg: ModelConfig,
    i: nat,
    q5k: bool,
    layer: GpuLayer,
)
    requires
        layer_of(file, cfg, i, q5k) == Ok::<GpuLayer, LoadErrorView>(layer),
    ensures
        layer.ffn matches LayerFfn::Dense { gate, up, down } && {
            &&& mat_at(file, i, q5k, "ffn_gate.weight"@, MatId::Gate, gate)
            &&& mat_at(file, i, q5k, "ffn_up.weight"@, MatId::Up, up)
            &&& mat_at(file, i, q5k, "ffn_down.weight"@, MatId::Down, down)
        },
        has_vec(file, i, "attn_norm.weight"@),
        has_vec(file, i, "ffn_norm.weight"@) || has_vec(file, i, "post_attention_norm.weight"@),
        ffn_norm_suffix(file, i) == "ffn_norm.weight"@ || !has_vec(file, i, "ffn_norm.weight"@),
{
    reveal(layer_of);
}

/// The embedding and the output matrix come from the tensors of their names; where the
/// file has no output matrix that can be read there is none.
pub proof fn law_head_tensors(file: GgufFile<'_>, cfg: ModelConfig, opts: LoadOptions, head: Head)
    requires
        head_of(file, cfg, opts) == Ok::<Head, LoadErrorView>(head),
        opts.limit(cfg) is None,
    ensures
        ({
            let q5k = opts.converts_q5k(cfg);
            let output = mat_named(file, "output.weight"@, MatId::Output, q5k);
            &&& mat_named(file, "token_embd.weight"@, MatId::TokenEmbd, q5k) == Ok::<
                _,
                LoadErrorView,
            >(head.token_embd)
            &&& head.output is Some <==> output is Ok
            &&& output is Ok ==> head.output == Some(output->Ok_0)
            &&& head.special is None && head.special_id is None
        }),
{
}

/// The vocabulary is cut where a limit of 1024 or more below its size is set, or where a
/// large vocabulary of a hybrid model is not asked for in full; never else.
pub proof fn law_vocabulary_limit(opts: LoadOptions, cfg: ModelConfig, n: usize)
    ensures
        opts.limit(cfg) matches Some(k) ==> 1024 <= k < cfg.n_vocab,
        opts.vocab_limit == Some(n) && 1024 <= n < cfg.n_vocab ==> opts.limit(cfg) == Some(n),
        opts.vocab_limit == Some(n) && !(1024 <= n < cfg.n_vocab) ==> opts.limit(cfg) is None,
        opts.vocab_limit is None && (opts.full_vocab || !hybrid(cfg)) ==> opts.limit(cfg) is None,
        opts.vocab_limit is None && !opts.full_vocab && hybrid(cfg) && cfg.n_vocab > 100_000
            ==> opts.limit(cfg) == Some(49_152usize),
{
}

/// A number of a vector is the four bytes at its place behind the beginning of the
/// tensor's data.
pub proof fn law_vector_numbers(file: GgufFile<'_>, t: TensorView, i: int)
    requires
        t.ggml_type == GgmlType::F32,
        0 <= i < t.n_elements(),
        file.data_offset + t.offset + 4 * t.n_elements() <= file.bytes@.len(),
    ensures
        ({
            let at = file.data_offset + t.offset + 4 * i;
            vec_bits(file, t)[i] == file.bytes@[at] + 256 * file.bytes@[at + 1] + 65536
                * file.bytes@[at + 2] + 16777216 * file.bytes@[at + 3]
        }),
        vec_bits(file, t).len() == t.n_elements(),
{
    let n = t.n_elements();
    assert(n % 1 == 0 && n / 1 == n);
    assert(t.nbytes() == n * 4);
    let at = file.data_offset + t.offset;
    let data = file.bytes@.subrange(at, at + t.nbytes());
    crate::gguf::bytes::law_numbers_in_bytes(data, i * 4, "f32 value"@);
    assert(data[i * 4] == file.bytes@[at + 4 * i]);
    assert(data[i * 4 + 1] == file.bytes@[at + 4 * i + 1]);
    assert(data[i * 4 + 2] == file.bytes@[at + 4 * i + 2]);
    assert(data[i * 4 + 3] == file.bytes@[at + 4 * i + 3]);
}

} // verus!
