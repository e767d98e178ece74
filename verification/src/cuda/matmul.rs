//! Products of quantized matrices with one vector or with many, and the
//! embedding of tokens: which kernels run, over which buffers.
use crate::cuda::device::{GemvTuning, Kernel};
use crate::cuda::launch::{
    ceil_div, extend, one, plan_of, shape, shape2, single, spec_ceil_div, to_i32, to_u32, Arg, Buf,
    Launch, LaunchView, MatId, Part, Plan, Shape, VecId,
};
use vstd::prelude::*;

verus! {

/// How the numbers of a matrix are stored.
#[allow(non_camel_case_types)]
#[derive(Clone, Copy, PartialEq, Eq, Debug, Structural)]
pub enum WType {
    Q4K,
    Q4_0,
    /// Q4_0 with the blocks of all columns side by side.
    Q4_0_BM,
    /// Half precision.
    F16,
    Q5K,
    Q5_0,
    Q6K,
    Q8_0,
}

/// A matrix on the card.
#[derive(Clone, Copy, PartialEq, Eq, Debug, Structural)]
pub struct GpuMat {
    pub id: MatId,
    /// Whether a copy repacked for decoding is there.
    pub has_decode: bool,
    /// Whether a compact copy is there.
    pub has_compact: bool,
    pub n_rows: usize,
    pub n_cols: usize,
    pub col_bytes: usize,
    pub decode_col_bytes: usize,
    pub compact_col_bytes: usize,
    pub wtype: WType,
}

/// The longest side of a matrix: four of them add up to a 32-bit number.
pub const MAX_SIDE: usize = 0x1fff_ffff;

impl GpuMat {
    /// The sides are no longer than the kernels can count.
    pub open spec fn fits(self) -> bool {
        self.n_rows <= MAX_SIDE && self.n_cols <= MAX_SIDE
    }

    /// Whether the sides are no longer than the kernels can count.
    pub fn has_fitting_sides(self) -> (r: bool)
        ensures
            r == self.fits(),
    {
        self.n_rows <= MAX_SIDE && self.n_cols <= MAX_SIDE
    }

    /// Whether the general kernels read the way it is stored.
    pub fn is_plain(self) -> (r: bool)
        ensures
            r == self.plain(),
    {
        self.wtype != WType::F16 && self.wtype != WType::Q4_0_BM
    }

    /// Stored in a way that the general kernels read.
    pub open spec fn plain(self) -> bool {
        self.wtype != WType::F16 && self.wtype != WType::Q4_0_BM
    }
}

/// What the plans of products need to know of the card.
#[derive(Clone, Copy, PartialEq, Eq, Debug, Structural)]
pub struct Card {
    pub tuning: GemvTuning,
    /// Columns that the buffer of partial products holds.
    pub partial_stride: usize,
}

impl Card {
    pub open spec fn wf(self) -> bool {
        self.tuning.wf()
    }
}

/// What is added to a product.
#[derive(Clone, Copy, PartialEq, Eq, Debug, Structural)]
pub enum GemvResidual {
    Nothing,
    Add(Buf),
    /// What the output held before.
    InPlace,
}

/// Warps of a block.
pub const GEMV_WARPS: u32 = 32;

/// Warps of a block of the kernels that use many registers.
pub const Q5_GEMV_WARPS: u32 = 8;

/// The most parts that the rows are split into.
pub const GEMV_SPLIT_MAX: u32 = 8;

/// Rows from which on they are split.
pub const GEMV_SPLITK_MIN_ROWS: usize = 4096;

/// Shared memory above which the rows are split.
pub const GEMV_BASELINE_SMEM_CAP: usize = 24_576;

/// Why no plan can be made.
#[derive(Clone, Copy, PartialEq, Eq, Debug, Structural)]
pub enum PlanError {
    /// Q4_0 weights take one token at a time.
    Q4ManyTokens,
    /// The attention path has no kernel that reads the position on the card.
    NoDeviceKernel,
    /// The attention path names a path that is not there.
    NoPrefill,
    /// The attention kernel is not loaded.
    NotLoaded,
    /// The heads are longer than the attention kernel takes.
    HeadTooLong,
}

impl PlanError {
    /// The sentence that tells the error.
    pub open spec fn sentence(self) -> Seq<char> {
        match self {
            PlanError::Q4ManyTokens => "Q4_0 multi-token GEMM: prefill must use chunk size 1"@,
            PlanError::NoDeviceKernel => "decode backend has no device-pos kernel for graphs"@,
            PlanError::NoPrefill => "prefill path missing from the registry"@,
            PlanError::NotLoaded => "attention kernel not loaded"@,
            PlanError::HeadTooLong => "attention heads too long for the decode backend"@,
        }
    }

    /// The sentence that tells the error.
    pub fn message(self) -> (r: &'static str)
        ensures
            r@ == self.sentence(),
    {
        match self {
            PlanError::Q4ManyTokens => "Q4_0 multi-token GEMM: prefill must use chunk size 1",
            PlanError::NoDeviceKernel => "decode backend has no device-pos kernel for graphs",
            PlanError::NoPrefill => "prefill path missing from the registry",
            PlanError::NotLoaded => "attention kernel not loaded",
            PlanError::HeadTooLong => "attention heads too long for the decode backend",
        }
    }
}

/// A plan that may be missing, as a mathematical value.
pub open spec fn option_plan(r: Option<Vec<Launch>>) -> Option<Plan> {
    match r {
        Some(v) => Some(plan_of(v@)),
        None => None,
    }
}

/// A plan that may be refused, as a mathematical value.
pub open spec fn result_plan(r: Result<Vec<Launch>, PlanError>) -> Result<Plan, PlanError> {
    match r {
        Ok(v) => Ok(plan_of(v@)),
        Err(e) => Err(e),
    }
}

/// What an attempt launched, and whether it did the work.
pub struct Attempt {
    pub done: bool,
    pub launches: Vec<Launch>,
}

/// An attempt as a mathematical value.
pub struct AttemptView {
    pub done: bool,
    pub plan: Plan,
}

impl View for Attempt {
    type V = AttemptView;

    open spec fn view(&self) -> AttemptView {
        AttemptView { done: self.done, plan: plan_of(self.launches@) }
    }
}

/// Parts that `n_rows` rows are split into: few rows stay together.
#[verifier::allow_in_spec]
pub fn gemv_n_split(n_rows: usize) -> u32
    requires
        n_rows * 4 <= usize::MAX,
    returns
        (if n_rows < GEMV_SPLITK_MIN_ROWS && n_rows * 4 <= GEMV_BASELINE_SMEM_CAP {
            1u32
        } else {
            4u32
        }),
{
    if n_rows < GEMV_SPLITK_MIN_ROWS && n_rows * 4 <= GEMV_BASELINE_SMEM_CAP {
        1
    } else {
        4
    }
}

/// The rows are never split into more parts than the kernels take.
pub proof fn law_split_in_range(n_rows: usize)
    ensures
        1 <= gemv_n_split(n_rows) <= GEMV_SPLIT_MAX,
{
}

/// A warp for each column, 32 to a block, the vector in shared memory.
#[verifier::allow_in_spec]
pub fn gemv_shape(n_cols: u32, n_rows: usize) -> Shape
    requires
        n_rows <= MAX_SIDE,
    returns
        (Shape {
            grid_x: spec_ceil_div(n_cols, GEMV_WARPS),
            grid_y: 1,
            block: 1024,
            smem: (n_rows * 4) as u32,
        }),
{
    Shape { grid_x: ceil_div(n_cols, GEMV_WARPS), grid_y: 1, block: 1024, smem: n_rows as u32 * 4 }
}

/// A warp for each column, eight to a block, the vector in shared memory.
#[verifier::allow_in_spec]
pub fn q5_gemv_shape(n_cols: u32, n_rows: usize) -> Shape
    requires
        n_rows <= MAX_SIDE,
    returns
        (Shape {
            grid_x: spec_ceil_div(n_cols, Q5_GEMV_WARPS),
            grid_y: 1,
            block: 256,
            smem: (n_rows * 4) as u32,
        }),
{
    Shape { grid_x: ceil_div(n_cols, Q5_GEMV_WARPS), grid_y: 1, block: 256, smem: n_rows as u32 * 4 }
}

/// A warp for each column, the quantized vector and its scales in shared memory.
#[verifier::allow_in_spec]
pub fn quantized_shape(n_cols: u32, n_rows: usize, warps: u32) -> Shape
    requires
        n_rows <= MAX_SIDE,
        1 <= warps <= 32,
    returns
        (Shape {
            grid_x: spec_ceil_div(n_cols, warps),
            grid_y: 1,
            block: (warps * 32) as u32,
            smem: (n_rows + (n_rows / 32) * 4) as u32,
        }),
{
    Shape {
        grid_x: ceil_div(n_cols, warps),
        grid_y: 1,
        block: warps * 32,
        smem: n_rows as u32 + (n_rows as u32 / 32) * 4,
    }
}

/// As [`gemv_shape`], for each part of the rows.
#[verifier::allow_in_spec]
pub fn splitk_shape(n_cols: u32, n_split: u32, rows: u32) -> Shape
    requires
        rows <= 0x3fff_ffff,
    returns
        (Shape {
            grid_x: spec_ceil_div(n_cols, GEMV_WARPS),
            grid_y: n_split,
            block: 1024,
            smem: (rows * 4) as u32,
        }),
{
    Shape { grid_x: ceil_div(n_cols, GEMV_WARPS), grid_y: n_split, block: 1024, smem: rows * 4 }
}

/// As [`q5_gemv_shape`], for each part of the rows.
#[verifier::allow_in_spec]
pub fn q5_splitk_shape(n_cols: u32, n_split: u32, rows: u32) -> Shape
    requires
        rows <= 0x3fff_ffff,
    returns
        (Shape {
            grid_x: spec_ceil_div(n_cols, Q5_GEMV_WARPS),
            grid_y: n_split,
            block: 256,
            smem: (rows * 4) as u32,
        }),
{
    Shape { grid_x: ceil_div(n_cols, Q5_GEMV_WARPS), grid_y: n_split, block: 256, smem: rows * 4 }
}

/// The bias, or a buffer that stands in for it.
#[verifier::allow_in_spec]
pub fn bias_arg(bias: Option<VecId>, x: Buf) -> Arg
    returns
        (match bias {
            Some(v) => Arg::Vector(v),
            None => Arg::Buf(x),
        }),
{
    match bias {
        Some(v) => Arg::Vector(v),
        None => Arg::Buf(x),
    }
}

/// Whether there is a bias.
#[verifier::allow_in_spec]
pub fn bias_flag(bias: Option<VecId>) -> i32
    returns
        (match bias {
            Some(_) => 1i32,
            None => 0i32,
        }),
{
    match bias {
        Some(_) => 1,
        None => 0,
    }
}

/// What is added to a product, as a number.
#[verifier::allow_in_spec]
pub fn residual_flag(residual: GemvResidual) -> i32
    returns
        (match residual {
            GemvResidual::Nothing => 0i32,
            GemvResidual::Add(_) => 1i32,
            GemvResidual::InPlace => 2i32,
        }),
{
    match residual {
        GemvResidual::Nothing => 0,
        GemvResidual::Add(_) => 1,
        GemvResidual::InPlace => 2,
    }
}

/// What is added to a product, or a buffer that stands in for it.
#[verifier::allow_in_spec]
pub fn residual_arg(residual: GemvResidual, x: Buf) -> Arg
    returns
        (match residual {
            GemvResidual::Add(b) => Arg::Buf(b),
            _ => Arg::Buf(x),
        }),
{
    match residual {
        GemvResidual::Add(b) => Arg::Buf(b),
        _ => Arg::Buf(x),
    }
}

/// A condition as a number.
#[verifier::allow_in_spec]
pub fn flag(b: bool) -> i32
    returns
        (if b {
            1i32
        } else {
            0i32
        }),
{
    if b {
        1
    } else {
        0
    }
}

/// Quantizes a vector in groups of 32.
pub open spec fn quantize_q8_plan(x: Buf, q8_x: Buf, q8_d: Buf, n_rows: usize) -> Plan {
    one(
        Kernel::QuantizeQ8,
        seq![Arg::Buf(x), Arg::Buf(q8_x), Arg::Buf(q8_d), Arg::Int(to_i32(n_rows))],
        shape(ceil_div(ceil_div(to_u32(n_rows), 32), 8), 256),
    )
}

/// Quantizes a vector in groups of 32.
pub fn quantize_q8(x: Buf, q8_x: Buf, q8_d: Buf, n_rows: usize) -> (r: Vec<Launch>)
    ensures
        plan_of(r@) == quantize_q8_plan(x, q8_x, q8_d, n_rows),
{
    single(
        Kernel::QuantizeQ8,
        vec![Arg::Buf(x), Arg::Buf(q8_x), Arg::Buf(q8_d), Arg::Int(to_i32(n_rows))],
        shape(ceil_div(ceil_div(to_u32(n_rows), 32), 8), 256),
    )
}

/// Whether the copy repacked for decoding is used.
#[verifier::allow_in_spec]
pub fn repacked_q6(w: GpuMat) -> bool
    returns
        w.wtype == WType::Q6K && w.has_decode,
{
    w.wtype == WType::Q6K && w.has_decode
}

/// The copy of a matrix that a product with one vector reads.
#[verifier::allow_in_spec]
pub fn gemv_part(w: GpuMat) -> Part
    returns
        (if w.has_decode {
            Part::Decode
        } else {
            Part::Data
        }),
{
    if w.has_decode {
        Part::Decode
    } else {
        Part::Data
    }
}

/// Bytes of a column in that copy.
#[verifier::allow_in_spec]
pub fn gemv_col_bytes(w: GpuMat) -> usize
    returns
        (if repacked_q6(w) {
            w.decode_col_bytes
        } else {
            w.col_bytes
        }),
{
    if repacked_q6(w) {
        w.decode_col_bytes
    } else {
        w.col_bytes
    }
}

/// The kernel for a product whose rows stay together.
#[verifier::allow_in_spec]
pub fn baseline_kernel(w: GpuMat) -> Kernel
    returns
        (match w.wtype {
            WType::Q4K => Kernel::GemvQ4,
            WType::Q4_0 => Kernel::GemvQ40,
            WType::Q5K => Kernel::GemvQ5k,
            WType::Q5_0 => Kernel::GemvQ5,
            WType::Q6K => if repacked_q6(w) {
                Kernel::GemvQ6Repack
            } else {
                Kernel::GemvQ6
            },
            _ => Kernel::GemvQ8,
        }),
{
    match w.wtype {
        WType::Q4K => Kernel::GemvQ4,
        WType::Q4_0 => Kernel::GemvQ40,
        WType::Q5K => Kernel::GemvQ5k,
        WType::Q5_0 => Kernel::GemvQ5,
        WType::Q6K => if repacked_q6(w) {
            Kernel::GemvQ6Repack
        } else {
            Kernel::GemvQ6
        },
        _ => Kernel::GemvQ8,
    }
}

/// The geometry for a product whose rows stay together.
#[verifier::allow_in_spec]
pub fn baseline_shape(w: GpuMat, card: Card) -> Shape
    requires
        w.fits(),
        card.wf(),
    returns
        (if w.wtype == WType::Q5K || w.wtype == WType::Q5_0 || w.wtype == WType::Q6K {
            q5_gemv_shape(to_u32(w.n_cols), w.n_rows)
        } else if w.wtype == WType::Q8_0 || w.wtype == WType::Q4_0 {
            quantized_shape(to_u32(w.n_cols), w.n_rows, card.tuning.gemv_quantized_warps)
        } else {
            gemv_shape(to_u32(w.n_cols), w.n_rows)
        }),
{
    if w.wtype == WType::Q5K || w.wtype == WType::Q5_0 || w.wtype == WType::Q6K {
        q5_gemv_shape(to_u32(w.n_cols), w.n_rows)
    } else if w.wtype == WType::Q8_0 || w.wtype == WType::Q4_0 {
        quantized_shape(to_u32(w.n_cols), w.n_rows, card.tuning.gemv_quantized_warps)
    } else {
        gemv_shape(to_u32(w.n_cols), w.n_rows)
    }
}

/// The product of a matrix with one vector, the rows together.
pub open spec fn gemv_baseline_plan(
    card: Card,
    w: GpuMat,
    x: Buf,
    y: Buf,
    bias: Option<VecId>,
    residual: GemvResidual,
) -> Plan {
    one(
        baseline_kernel(w),
        seq![
            Arg::Mat(w.id, gemv_part(w)), Arg::Buf(x), Arg::Buf(y), Arg::Int(to_i32(w.n_rows)),
            Arg::Int(to_i32(w.n_cols)), Arg::Int(to_i32(gemv_col_bytes(w))),
            Arg::Int(bias_flag(bias)), bias_arg(bias, x), Arg::Int(residual_flag(residual)),
            residual_arg(residual, x),
        ],
        baseline_shape(w, card),
    )
}

/// The product of a matrix with one vector, the rows together.
pub fn gemv_baseline(
    card: Card,
    w: GpuMat,
    x: Buf,
    y: Buf,
    bias: Option<VecId>,
    residual: GemvResidual,
) -> (r: Vec<Launch>)
    requires
        card.wf(),
        w.fits(),
        w.plain(),
    ensures
        plan_of(r@) == gemv_baseline_plan(card, w, x, y, bias, residual),
{
    single(
        baseline_kernel(w),
        vec![
            Arg::Mat(w.id, gemv_part(w)), Arg::Buf(x), Arg::Buf(y), Arg::Int(to_i32(w.n_rows)),
            Arg::Int(to_i32(w.n_cols)), Arg::Int(to_i32(gemv_col_bytes(w))),
            Arg::Int(bias_flag(bias)), bias_arg(bias, x), Arg::Int(residual_flag(residual)),
            residual_arg(residual, x),
        ],
        baseline_shape(w, card),
    )
}

/// Rows of one block of a matrix.
#[verifier::allow_in_spec]
pub fn block_rows(w: GpuMat) -> usize
    returns
        (if w.wtype == WType::Q4K || w.wtype == WType::Q5K || w.wtype == WType::Q6K {
            256usize
        } else {
            32usize
        }),
{
    if w.wtype == WType::Q4K || w.wtype == WType::Q5K || w.wtype == WType::Q6K {
        256
    } else {
        32
    }
}

/// Rows of the longest part.
#[verifier::allow_in_spec]
pub fn rows_per_split(w: GpuMat, n_split: u32) -> u32
    requires
        w.fits(),
        1 <= n_split <= 8,
    returns
        ({ let block = block_rows(w) as int;
        let rows = crate::gguf::types::div_ceil((w.n_rows as int / block) as nat, n_split as nat) * block;
        if rows >= block {
            rows as u32
        } else {
            block as u32
        } }),
{
    proof {
        lemma_rows_per_split(w, n_split);
    }
    let block: usize = block_rows(w);
    let n_blocks: usize = w.n_rows / block;
    let each: u32 = ceil_div(n_blocks as u32, n_split);
    let rows: usize = each as usize * block;
    if rows >= block {
        rows as u32
    } else {
        block as u32
    }
}

/// The longest part of the rows has no more of them than the matrix and one
/// block.
proof fn lemma_rows_per_split(w: GpuMat, n_split: u32)
    requires
        w.fits(),
        1 <= n_split <= 8,
    ensures
        ({
            let block = block_rows(w) as int;
            let n_blocks = w.n_rows as int / block;
            let each = crate::gguf::types::div_ceil(n_blocks as nat, n_split as nat);
            &&& 0 <= each <= n_blocks + 1
            &&& 0 <= each * block <= w.n_rows + block
            &&& spec_ceil_div(n_blocks as u32, n_split) == each
        }),
{
    let block = block_rows(w) as int;
    let n_blocks = w.n_rows as int / block;
    vstd::arithmetic::div_mod::lemma_div_nonincreasing(n_blocks, n_split as int);
    vstd::arithmetic::div_mod::lemma_fundamental_div_mod(w.n_rows as int, block);
    let each = crate::gguf::types::div_ceil(n_blocks as nat, n_split as nat) as int;
    assert(each * block <= n_blocks * block + block) by (nonlinear_arith)
        requires
            0 <= each <= n_blocks + 1,
            block > 0,
    ;
    assert(0 <= each * block) by (nonlinear_arith)
        requires
            0 <= each,
            block > 0,
    ;
}

/// Every row of a split product falls to some part: so many parts of so many
/// rows are at least the whole blocks of the matrix.
pub proof fn law_parts_cover(w: GpuMat, n_split: u32)
    requires
        w.fits(),
        1 <= n_split <= 8,
    ensures
        n_split * rows_per_split(w, n_split) >= (w.n_rows as int / block_rows(w) as int)
            * block_rows(w),
{
    lemma_rows_per_split(w, n_split);
    let block = block_rows(w) as int;
    let n_blocks = w.n_rows as int / block;
    let s = n_split as int;
    vstd::arithmetic::div_mod::lemma_fundamental_div_mod(n_blocks, s);
    let q = n_blocks / s;
    let each = crate::gguf::types::div_ceil(n_blocks as nat, n_split as nat) as int;
    assert(s * (q + 1) == s * q + s) by (nonlinear_arith);
    assert(s * each >= n_blocks);
    let rows = rows_per_split(w, n_split) as int;
    assert(s * rows >= n_blocks * block) by (nonlinear_arith)
        requires
            s >= 1,
            rows >= each * block,
            s * each >= n_blocks,
            block > 0,
    ;
}

/// The kernel for a product whose rows are split.
#[verifier::allow_in_spec]
pub fn splitk_kernel(w: GpuMat) -> Kernel
    returns
        (match w.wtype {
            WType::Q4K => Kernel::GemvQ4Splitk,
            WType::Q5K => Kernel::GemvQ5kSplitk,
            WType::Q5_0 => Kernel::GemvQ5Splitk,
            WType::Q6K => if repacked_q6(w) {
                Kernel::GemvQ6RepackSplitk
            } else {
                Kernel::GemvQ6Splitk
            },
            _ => Kernel::GemvQ8Splitk,
        }),
{
    match w.wtype {
        WType::Q4K => Kernel::GemvQ4Splitk,
        WType::Q5K => Kernel::GemvQ5kSplitk,
        WType::Q5_0 => Kernel::GemvQ5Splitk,
        WType::Q6K => if repacked_q6(w) {
            Kernel::GemvQ6RepackSplitk
        } else {
            Kernel::GemvQ6Splitk
        },
        _ => Kernel::GemvQ8Splitk,
    }
}

/// The geometry for a product whose rows are split.
#[verifier::allow_in_spec]
pub fn splitk_geometry(w: GpuMat, n_split: u32) -> Shape
    requires
        w.fits(),
        1 <= n_split <= 8,
    returns
        (if w.wtype == WType::Q5K || w.wtype == WType::Q5_0 {
            q5_splitk_shape(to_u32(w.n_cols), n_split, rows_per_split(w, n_split))
        } else {
            splitk_shape(to_u32(w.n_cols), n_split, rows_per_split(w, n_split))
        }),
{
    proof {
        lemma_rows_per_split(w, n_split);
    }
    if w.wtype == WType::Q5K || w.wtype == WType::Q5_0 {
        q5_splitk_shape(to_u32(w.n_cols), n_split, rows_per_split(w, n_split))
    } else {
        splitk_shape(to_u32(w.n_cols), n_split, rows_per_split(w, n_split))
    }
}

/// Adds up the partial products.
pub open spec fn splitk_reduce_plan(
    n_cols: usize,
    n_split: u32,
    y: Buf,
    x: Buf,
    bias: Option<VecId>,
    residual: GemvResidual,
) -> Plan {
    one(
        Kernel::GemvSplitkReduce,
        seq![
            Arg::Buf(Buf::GemvPartial), Arg::Buf(y), Arg::Int(to_i32(n_cols)),
            Arg::Int(n_split as i32), Arg::Int(bias_flag(bias)), bias_arg(bias, x),
            Arg::Int(residual_flag(residual)), residual_arg(residual, x),
        ],
        shape(ceil_div(to_u32(n_cols), 256), 256),
    )
}

/// Adds up the partial products.
pub fn splitk_reduce(
    n_cols: usize,
    n_split: u32,
    y: Buf,
    x: Buf,
    bias: Option<VecId>,
    residual: GemvResidual,
) -> (r: Vec<Launch>)
    ensures
        plan_of(r@) == splitk_reduce_plan(n_cols, n_split, y, x, bias, residual),
{
    single(
        Kernel::GemvSplitkReduce,
        vec![
            Arg::Buf(Buf::GemvPartial), Arg::Buf(y), Arg::Int(to_i32(n_cols)),
            Arg::Int(n_split as i32), Arg::Int(bias_flag(bias)), bias_arg(bias, x),
            Arg::Int(residual_flag(residual)), residual_arg(residual, x),
        ],
        shape(ceil_div(to_u32(n_cols), 256), 256),
    )
}

/// The product of a matrix with one vector, the rows split.
pub open spec fn gemv_splitk_plan(
    card: Card,
    w: GpuMat,
    x: Buf,
    y: Buf,
    bias: Option<VecId>,
    residual: GemvResidual,
    n_split: u32,
) -> Plan {
    one(
        splitk_kernel(w),
        seq![
            Arg::Mat(w.id, gemv_part(w)), Arg::Buf(x), Arg::Buf(Buf::GemvPartial),
            Arg::Int(to_i32(w.n_rows)), Arg::Int(to_i32(w.n_cols)),
            Arg::Int(to_i32(gemv_col_bytes(w))), Arg::Int(n_split as i32),
        ],
        splitk_geometry(w, n_split),
    )
    + splitk_reduce_plan(w.n_cols, n_split, y, x, bias, residual)
}

/// The product of a matrix with one vector, the rows split.
pub fn gemv_splitk(
    card: Card,
    w: GpuMat,
    x: Buf,
    y: Buf,
    bias: Option<VecId>,
    residual: GemvResidual,
    n_split: u32,
) -> (r: Vec<Launch>)
    requires
        card.wf(),
        w.fits(),
        w.plain(),
        w.wtype != WType::Q4_0,
        1 <= n_split <= 8,
    ensures
        plan_of(r@) == gemv_splitk_plan(card, w, x, y, bias, residual, n_split),
{
    {
        let mut out: Vec<Launch> = single(
            splitk_kernel(w),
            vec![
                Arg::Mat(w.id, gemv_part(w)), Arg::Buf(x), Arg::Buf(Buf::GemvPartial),
                Arg::Int(to_i32(w.n_rows)), Arg::Int(to_i32(w.n_cols)),
                Arg::Int(to_i32(gemv_col_bytes(w))), Arg::Int(n_split as i32),
            ],
            splitk_geometry(w, n_split),
        );
        extend(&mut out, splitk_reduce(w.n_cols, n_split, y, x, bias, residual));
        out
    }
}

/// Whether a product with one vector has a kernel: half precision and block
/// by block stored matrices have none, and Q4_0 has none for split rows.
pub open spec fn gemv_ok(card: Card, w: GpuMat) -> bool {
    &&& w.plain()
    &&& w.wtype == WType::Q4_0 ==> gemv_n_split(w.n_rows) <= 1 || w.n_cols
        > card.partial_stride
}

/// The product of a matrix with one vector.
pub open spec fn gemv_plan(
    card: Card,
    w: GpuMat,
    x: Buf,
    y: Buf,
    bias: Option<VecId>,
    residual: GemvResidual,
) -> Plan {
    if gemv_n_split(w.n_rows) <= 1 || w.n_cols > card.partial_stride {
        gemv_baseline_plan(card, w, x, y, bias, residual)
    } else {
        gemv_splitk_plan(card, w, x, y, bias, residual, gemv_n_split(w.n_rows))
    }
}

/// The product of a matrix with one vector.
pub fn gemv(
    card: Card,
    w: GpuMat,
    x: Buf,
    y: Buf,
    bias: Option<VecId>,
    residual: GemvResidual,
) -> (r: Vec<Launch>)
    requires
        card.wf(),
        w.fits(),
        gemv_ok(card, w),
    ensures
        plan_of(r@) == gemv_plan(card, w, x, y, bias, residual),
{
    if gemv_n_split(w.n_rows) <= 1 || w.n_cols > card.partial_stride {
        gemv_baseline(card, w, x, y, bias, residual)
    } else {
        gemv_splitk(card, w, x, y, bias, residual, gemv_n_split(w.n_rows))
    }
}

/// The kernel over a vector that is quantized once, the copy of the matrix that
/// it reads and the bytes of a column; nothing for other matrices.
pub open spec fn spec_global_kernel(w: GpuMat) -> Option<(Kernel, Part, usize)> {
    match w.wtype {
        WType::Q4K => Some((Kernel::GemvQ4Global, Part::Data, w.col_bytes)),
        WType::Q4_0 => Some((Kernel::GemvQ40Global, Part::Data, w.col_bytes)),
        WType::Q8_0 => Some((Kernel::GemvQ8Global, Part::Data, w.col_bytes)),
        WType::Q6K => if w.has_compact {
            Some((Kernel::GemvQ6CompactGlobal, Part::Compact, w.compact_col_bytes))
        } else if w.has_decode {
            Some((Kernel::GemvQ6RepackGlobal, Part::Decode, w.decode_col_bytes))
        } else {
            None
        },
        _ => None,
    }
}

/// The kernel over a vector that is quantized once, the copy of the matrix that
/// it reads and the bytes of a column; nothing for other matrices.
#[verifier::when_used_as_spec(spec_global_kernel)]
pub fn global_kernel(w: GpuMat) -> (r: Option<(Kernel, Part, usize)>)
    ensures
        r == global_kernel(w),
{
    match w.wtype {
        WType::Q4K => Some((Kernel::GemvQ4Global, Part::Data, w.col_bytes)),
        WType::Q4_0 => Some((Kernel::GemvQ40Global, Part::Data, w.col_bytes)),
        WType::Q8_0 => Some((Kernel::GemvQ8Global, Part::Data, w.col_bytes)),
        WType::Q6K => if w.has_compact {
            Some((Kernel::GemvQ6CompactGlobal, Part::Compact, w.compact_col_bytes))
        } else if w.has_decode {
            Some((Kernel::GemvQ6RepackGlobal, Part::Decode, w.decode_col_bytes))
        } else {
            None
        },
        _ => None,
    }
}

/// Parts of the rows over a vector that is quantized once.
#[verifier::allow_in_spec]
pub fn global_n_split(w: GpuMat) -> u32
    requires
        w.fits(),
    returns
        (if w.wtype == WType::Q4_0 {
            1u32
        } else {
            gemv_n_split(w.n_rows)
        }),
{
    if w.wtype == WType::Q4_0 {
        1
    } else {
        gemv_n_split(w.n_rows)
    }
}

/// The product over the quantized vector, the rows together.
pub open spec fn global_whole_plan(
    card: Card,
    kernel: Kernel,
    w: GpuMat,
    part: Part,
    col_bytes: usize,
    y: Buf,
    x: Buf,
    bias: Option<VecId>,
    residual: GemvResidual,
) -> Plan {
    one(
        kernel,
        seq![
            Arg::Mat(w.id, part), Arg::Buf(Buf::Q8X), Arg::Buf(Buf::Q8D), Arg::Buf(y),
            Arg::Int(to_i32(w.n_rows)), Arg::Int(to_i32(w.n_cols)), Arg::Int(to_i32(col_bytes)),
            Arg::Int(bias_flag(bias)), bias_arg(bias, x), Arg::Int(residual_flag(residual)),
            residual_arg(residual, x),
        ],
        quantized_shape(to_u32(w.n_cols), w.n_rows, card.tuning.gemv_quantized_warps),
    )
}

/// The product over the quantized vector, the rows together.
pub fn global_whole(
    card: Card,
    kernel: Kernel,
    w: GpuMat,
    part: Part,
    col_bytes: usize,
    y: Buf,
    x: Buf,
    bias: Option<VecId>,
    residual: GemvResidual,
) -> (r: Vec<Launch>)
    requires
        card.wf(),
        w.fits(),
    ensures
        plan_of(r@) == global_whole_plan(card, kernel, w, part, col_bytes, y, x, bias, residual),
{
    single(
        kernel,
        vec![
            Arg::Mat(w.id, part), Arg::Buf(Buf::Q8X), Arg::Buf(Buf::Q8D), Arg::Buf(y),
            Arg::Int(to_i32(w.n_rows)), Arg::Int(to_i32(w.n_cols)), Arg::Int(to_i32(col_bytes)),
            Arg::Int(bias_flag(bias)), bias_arg(bias, x), Arg::Int(residual_flag(residual)),
            residual_arg(residual, x),
        ],
        quantized_shape(to_u32(w.n_cols), w.n_rows, card.tuning.gemv_quantized_warps),
    )
}

/// A block for each column; tall matrices get eight warps.
#[verifier::allow_in_spec]
pub fn coop_shape(w: GpuMat) -> Shape
    returns
        (if w.n_rows >= 4096 {
            shape(to_u32(w.n_cols), 256)
        } else {
            shape(to_u32(w.n_cols), 128)
        }),
{
    if w.n_rows >= 4096 {
        shape(to_u32(w.n_cols), 256)
    } else {
        shape(to_u32(w.n_cols), 128)
    }
}

/// The kernel whose warps share a column of a compact matrix.
#[verifier::allow_in_spec]
pub fn coop_kernel(w: GpuMat) -> Kernel
    returns
        (if w.n_rows >= 4096 {
            Kernel::GemvQ6CompactGlobal8way
        } else {
            Kernel::GemvQ6CompactGlobal4way
        }),
{
    if w.n_rows >= 4096 {
        Kernel::GemvQ6CompactGlobal8way
    } else {
        Kernel::GemvQ6CompactGlobal4way
    }
}

/// The product over the quantized vector, each column shared by the warps of a block.
pub open spec fn global_coop_plan(
    w: GpuMat,
    part: Part,
    col_bytes: usize,
    y: Buf,
    x: Buf,
    bias: Option<VecId>,
    residual: GemvResidual,
) -> Plan {
    one(
        coop_kernel(w),
        seq![
            Arg::Mat(w.id, part), Arg::Buf(Buf::Q8X), Arg::Buf(Buf::Q8D), Arg::Buf(y),
            Arg::Int(to_i32(w.n_rows)), Arg::Int(to_i32(w.n_cols)), Arg::Int(to_i32(col_bytes)),
            Arg::Int(bias_flag(bias)), bias_arg(bias, x), Arg::Int(residual_flag(residual)),
            residual_arg(residual, x),
        ],
        coop_shape(w),
    )
}

/// The product over the quantized vector, each column shared by the warps of a block.
pub fn global_coop(
    w: GpuMat,
    part: Part,
    col_bytes: usize,
    y: Buf,
    x: Buf,
    bias: Option<VecId>,
    residual: GemvResidual,
) -> (r: Vec<Launch>)
    ensures
        plan_of(r@) == global_coop_plan(w, part, col_bytes, y, x, bias, residual),
{
    single(
        coop_kernel(w),
        vec![
            Arg::Mat(w.id, part), Arg::Buf(Buf::Q8X), Arg::Buf(Buf::Q8D), Arg::Buf(y),
            Arg::Int(to_i32(w.n_rows)), Arg::Int(to_i32(w.n_cols)), Arg::Int(to_i32(col_bytes)),
            Arg::Int(bias_flag(bias)), bias_arg(bias, x), Arg::Int(residual_flag(residual)),
            residual_arg(residual, x),
        ],
        coop_shape(w),
    )
}

/// The kernel over the quantized vector for split rows.
#[verifier::allow_in_spec]
pub fn global_split_kernel(w: GpuMat) -> Kernel
    returns
        (match w.wtype {
            WType::Q4K => Kernel::GemvQ4GlobalSplitk,
            WType::Q8_0 => Kernel::GemvQ8GlobalSplitk,
            _ => Kernel::GemvQ6RepackGlobalSplitk,
        }),
{
    match w.wtype {
        WType::Q4K => Kernel::GemvQ4GlobalSplitk,
        WType::Q8_0 => Kernel::GemvQ8GlobalSplitk,
        _ => Kernel::GemvQ6RepackGlobalSplitk,
    }
}

/// The geometry over the quantized vector for split rows.
#[verifier::allow_in_spec]
pub fn global_split_shape(w: GpuMat, n_split: u32) -> Shape
    returns
        (match w.wtype {
            WType::Q4K => shape2(to_u32(w.n_cols), n_split, 64),
            _ => shape2(ceil_div(to_u32(w.n_cols), GEMV_WARPS), n_split, 1024),
        }),
{
    match w.wtype {
        WType::Q4K => shape2(to_u32(w.n_cols), n_split, 64),
        _ => shape2(ceil_div(to_u32(w.n_cols), GEMV_WARPS), n_split, 1024),
    }
}

/// The product over the quantized vector, the rows split.
pub open spec fn global_split_plan(
    w: GpuMat,
    part: Part,
    col_bytes: usize,
    n_split: u32,
    y: Buf,
    x: Buf,
    bias: Option<VecId>,
    residual: GemvResidual,
) -> Plan {
    one(
        global_split_kernel(w),
        seq![
            Arg::Mat(w.id, part), Arg::Buf(Buf::Q8X), Arg::Buf(Buf::Q8D),
            Arg::Buf(Buf::GemvPartial), Arg::Int(to_i32(w.n_rows)), Arg::Int(to_i32(w.n_cols)),
            Arg::Int(to_i32(col_bytes)), Arg::Int(n_split as i32),
        ],
        global_split_shape(w, n_split),
    )
    + splitk_reduce_plan(w.n_cols, n_split, y, x, bias, residual)
}

/// The product over the quantized vector, the rows split.
pub fn global_split(
    w: GpuMat,
    part: Part,
    col_bytes: usize,
    n_split: u32,
    y: Buf,
    x: Buf,
    bias: Option<VecId>,
    residual: GemvResidual,
) -> (r: Vec<Launch>)
    ensures
        plan_of(r@) == global_split_plan(w, part, col_bytes, n_split, y, x, bias, residual),
{
    {
        let mut out: Vec<Launch> = single(
            global_split_kernel(w),
            vec![
                Arg::Mat(w.id, part), Arg::Buf(Buf::Q8X), Arg::Buf(Buf::Q8D),
                Arg::Buf(Buf::GemvPartial), Arg::Int(to_i32(w.n_rows)),
                Arg::Int(to_i32(w.n_cols)), Arg::Int(to_i32(col_bytes)), Arg::Int(n_split as i32),
            ],
            global_split_shape(w, n_split),
        );
        extend(&mut out, splitk_reduce(w.n_cols, n_split, y, x, bias, residual));
        out
    }
}

/// The product over a vector that is quantized once. Nothing is launched for
/// other matrices; where the partial products do not fit, only the vector is
/// quantized.
pub open spec fn try_gemv_global_q8_plan(
    card: Card,
    w: GpuMat,
    x: Buf,
    y: Buf,
    bias: Option<VecId>,
    residual: GemvResidual,
) -> AttemptView {
    match spec_global_kernel(w) {
        None => AttemptView { done: false, plan: Seq::empty() },
        Some((kernel, part, col_bytes)) => {
            let quantize = quantize_q8_plan(x, Buf::Q8X, Buf::Q8D, w.n_rows);
            let n_split = global_n_split(w);
            if n_split <= 1 {
                AttemptView {
                    done: true,
                    plan: quantize + global_whole_plan(
                        card,
                        kernel,
                        w,
                        part,
                        col_bytes,
                        y,
                        x,
                        bias,
                        residual,
                    ),
                }
            } else if w.n_cols > card.partial_stride {
                AttemptView { done: false, plan: quantize }
            } else if part == Part::Compact {
                AttemptView {
                    done: true,
                    plan: quantize + global_coop_plan(w, part, col_bytes, y, x, bias, residual),
                }
            } else {
                AttemptView {
                    done: true,
                    plan: quantize + global_split_plan(
                        w,
                        part,
                        col_bytes,
                        n_split,
                        y,
                        x,
                        bias,
                        residual,
                    ),
                }
            }
        },
    }
}

/// The product over a vector that is quantized once, where that is possible.
pub fn try_gemv_global_q8(
    card: Card,
    w: GpuMat,
    x: Buf,
    y: Buf,
    bias: Option<VecId>,
    residual: GemvResidual,
) -> (r: Attempt)
    requires
        card.wf(),
        w.fits(),
    ensures
        r@ == try_gemv_global_q8_plan(card, w, x, y, bias, residual),
{
    match global_kernel(w) {
        None => {
            let launches: Vec<Launch> = Vec::new();
            proof {
                assert(plan_of(launches@) =~= Seq::empty());
            }
            Attempt { done: false, launches }
        },
        Some((kernel, part, col_bytes)) => {
            let mut launches: Vec<Launch> = quantize_q8(x, Buf::Q8X, Buf::Q8D, w.n_rows);
            let n_split: u32 = global_n_split(w);
            if n_split <= 1 {
                extend(
                    &mut launches,
                    global_whole(card, kernel, w, part, col_bytes, y, x, bias, residual),
                );
                Attempt { done: true, launches }
            } else if w.n_cols > card.partial_stride {
                Attempt { done: false, launches }
            } else if part == Part::Compact {
                extend(&mut launches, global_coop(w, part, col_bytes, y, x, bias, residual));
                Attempt { done: true, launches }
            } else {
                extend(
                    &mut launches,
                    global_split(w, part, col_bytes, n_split, y, x, bias, residual),
                );
                Attempt { done: true, launches }
            }
        },
    }
}

/// The product over a vector that is quantized once, or else the plain one.
pub open spec fn project_plan(
    card: Card,
    w: GpuMat,
    x: Buf,
    y: Buf,
    residual: GemvResidual,
) -> Plan {
    let first = try_gemv_global_q8_plan(card, w, x, y, None, residual);
    if first.done {
        first.plan
    } else {
        first.plan + gemv_plan(card, w, x, y, None, residual)
    }
}

/// Whether [`project`] has kernels for the matrix.
pub open spec fn project_ok(card: Card, w: GpuMat) -> bool {
    try_gemv_global_q8_plan(card, w, Buf::X, Buf::X, None, GemvResidual::Nothing).done || gemv_ok(
        card,
        w,
    )
}

/// The product over a vector that is quantized once, or else the plain one.
pub fn project(card: Card, w: GpuMat, x: Buf, y: Buf, residual: GemvResidual) -> (r: Vec<Launch>)
    requires
        card.wf(),
        w.fits(),
        project_ok(card, w),
    ensures
        plan_of(r@) == project_plan(card, w, x, y, residual),
{
    let first: Attempt = try_gemv_global_q8(card, w, x, y, None, residual);
    let mut out: Vec<Launch> = first.launches;
    if !first.done {
        extend(&mut out, gemv(card, w, x, y, None, residual));
    }
    out
}

/// The product over a vector that is quantized already.
pub open spec fn try_gemv_prequantized_q8_plan(card: Card, w: GpuMat, y: Buf) -> Option<Plan> {
    if w.wtype == WType::Q4_0 || w.wtype == WType::Q8_0 {
        Some(
            one(
                prequantized_kernel(w),
                seq![
                    Arg::Mat(w.id, Part::Data), Arg::Buf(Buf::Q8X), Arg::Buf(Buf::Q8D),
                    Arg::Buf(y), Arg::Int(to_i32(w.n_rows)), Arg::Int(to_i32(w.n_cols)),
                    Arg::Int(to_i32(w.col_bytes)), Arg::Int(0), Arg::Buf(Buf::Q8D), Arg::Int(0),
                    Arg::Buf(Buf::Q8D),
                ],
                quantized_shape(to_u32(w.n_cols), w.n_rows, card.tuning.gemv_quantized_warps),
            ),
        )
    } else {
        None
    }
}

/// The product over a vector that is quantized already.
pub fn try_gemv_prequantized_q8(card: Card, w: GpuMat, y: Buf) -> (r: Option<Vec<Launch>>)
    requires
        card.wf(),
        w.fits(),
    ensures
        option_plan(r) == try_gemv_prequantized_q8_plan(card, w, y),
{
    if w.wtype == WType::Q4_0 || w.wtype == WType::Q8_0 {
        Some(
            single(
                prequantized_kernel(w),
                vec![
                    Arg::Mat(w.id, Part::Data), Arg::Buf(Buf::Q8X), Arg::Buf(Buf::Q8D),
                    Arg::Buf(y), Arg::Int(to_i32(w.n_rows)), Arg::Int(to_i32(w.n_cols)),
                    Arg::Int(to_i32(w.col_bytes)), Arg::Int(0), Arg::Buf(Buf::Q8D), Arg::Int(0),
                    Arg::Buf(Buf::Q8D),
                ],
                quantized_shape(to_u32(w.n_cols), w.n_rows, card.tuning.gemv_quantized_warps),
            ),
        )
    } else {
        None
    }
}

/// The kernel over a vector that is quantized already.
#[verifier::allow_in_spec]
pub fn prequantized_kernel(w: GpuMat) -> Kernel
    returns
        (if w.wtype == WType::Q4_0 {
            Kernel::GemvQ40Global
        } else {
            Kernel::GemvQ8Global
        }),
{
    if w.wtype == WType::Q4_0 {
        Kernel::GemvQ40Global
    } else {
        Kernel::GemvQ8Global
    }
}

/// Whether both have a bias or neither has.
#[verifier::allow_in_spec]
pub fn same_bias(ba: Option<VecId>, bb: Option<VecId>) -> bool
    returns
        (ba is Some) == (bb is Some),
{
    ba.is_some() == bb.is_some()
}

/// Whether two matrices are stored in that way with columns alike.
#[verifier::allow_in_spec]
pub fn same_form(wa: GpuMat, wb: GpuMat, t: WType) -> bool
    returns
        wa.wtype == t && wb.wtype == t && wa.n_rows == wb.n_rows && wa.col_bytes == wb.col_bytes,
{
    wa.wtype == t && wb.wtype == t && wa.n_rows == wb.n_rows && wa.col_bytes == wb.col_bytes
}

/// Two Q5_0 products with one vector.
pub open spec fn try_gemv_q5_pair_plan(
    card: Card,
    wa: GpuMat,
    wb: GpuMat,
    x: Buf,
    out_a: Buf,
    out_b: Buf,
    ba: Option<VecId>,
    bb: Option<VecId>,
) -> Option<Plan> {
    if same_form(wa, wb, WType::Q5_0) && same_bias(ba, bb) {
        Some(
            one(
                Kernel::GemvQ5Qk,
                seq![
                    Arg::Mat(wa.id, Part::Data), Arg::Mat(wb.id, Part::Data), Arg::Buf(x),
                    Arg::Buf(out_a), Arg::Buf(out_b), Arg::Int(to_i32(wa.n_rows)),
                    Arg::Int(to_i32(wa.n_cols)), Arg::Int(to_i32(wb.n_cols)),
                    Arg::Int(to_i32(wa.col_bytes)), Arg::Int(bias_flag(ba)), bias_arg(ba, x),
                    bias_arg(bb, x),
                ],
                q5_gemv_shape(cols2(wa, wb), wa.n_rows),
            ),
        )
    } else {
        None
    }
}

/// Two Q5_0 products with one vector.
pub fn try_gemv_q5_pair(
    card: Card,
    wa: GpuMat,
    wb: GpuMat,
    x: Buf,
    out_a: Buf,
    out_b: Buf,
    ba: Option<VecId>,
    bb: Option<VecId>,
) -> (r: Option<Vec<Launch>>)
    requires
        wa.fits(),
        wb.fits(),
    ensures
        option_plan(r) == try_gemv_q5_pair_plan(card, wa, wb, x, out_a, out_b, ba, bb),
{
    if same_form(wa, wb, WType::Q5_0) && same_bias(ba, bb) {
        Some(
            single(
                Kernel::GemvQ5Qk,
                vec![
                    Arg::Mat(wa.id, Part::Data), Arg::Mat(wb.id, Part::Data), Arg::Buf(x),
                    Arg::Buf(out_a), Arg::Buf(out_b), Arg::Int(to_i32(wa.n_rows)),
                    Arg::Int(to_i32(wa.n_cols)), Arg::Int(to_i32(wb.n_cols)),
                    Arg::Int(to_i32(wa.col_bytes)), Arg::Int(bias_flag(ba)), bias_arg(ba, x),
                    bias_arg(bb, x),
                ],
                q5_gemv_shape(cols2(wa, wb), wa.n_rows),
            ),
        )
    } else {
        None
    }
}

/// Columns of two matrices.
#[verifier::allow_in_spec]
pub fn cols2(wa: GpuMat, wb: GpuMat) -> u32
    requires
        wa.fits(),
        wb.fits(),
    returns
        (wa.n_cols + wb.n_cols) as u32,
{
    to_u32(wa.n_cols) + to_u32(wb.n_cols)
}

/// Columns of three matrices.
#[verifier::allow_in_spec]
pub fn cols3(wa: GpuMat, wb: GpuMat, wc: GpuMat) -> u32
    requires
        wa.fits(),
        wb.fits(),
        wc.fits(),
    returns
        (wa.n_cols + wb.n_cols + wc.n_cols) as u32,
{
    to_u32(wa.n_cols) + to_u32(wb.n_cols) + to_u32(wc.n_cols)
}

/// Two Q4_0 products of equal width with one vector, without bias.
pub open spec fn try_gemv_q4_0_pair_plan(
    card: Card,
    wa: GpuMat,
    wb: GpuMat,
    x: Buf,
    out_a: Buf,
    out_b: Buf,
    ba: Option<VecId>,
    bb: Option<VecId>,
) -> Option<Plan> {
    if ba.is_none() && bb.is_none() && same_form(wa, wb, WType::Q4_0) && wa.n_cols == wb.n_cols {
        Some(
            quantize_q8_plan(x, Buf::Q8X, Buf::Q8D, wa.n_rows)
            + one(
                Kernel::GemvQ40Pair,
                seq![
                    Arg::Mat(wa.id, Part::Data), Arg::Mat(wb.id, Part::Data), Arg::Buf(Buf::Q8X),
                    Arg::Buf(Buf::Q8D), Arg::Buf(out_a), Arg::Buf(out_b),
                    Arg::Int(to_i32(wa.n_rows)), Arg::Int(to_i32(wa.n_cols)),
                    Arg::Int(to_i32(wa.col_bytes)),
                ],
                quantized_shape(to_u32(wa.n_cols), wa.n_rows, card.tuning.gemv_quantized_warps),
            ),
        )
    } else {
        None
    }
}

/// Two Q4_0 products of equal width with one vector, without bias.
pub fn try_gemv_q4_0_pair(
    card: Card,
    wa: GpuMat,
    wb: GpuMat,
    x: Buf,
    out_a: Buf,
    out_b: Buf,
    ba: Option<VecId>,
    bb: Option<VecId>,
) -> (r: Option<Vec<Launch>>)
    requires
        card.wf(),
        wa.fits(),
        wb.fits(),
    ensures
        option_plan(r) == try_gemv_q4_0_pair_plan(card, wa, wb, x, out_a, out_b, ba, bb),
{
    if ba.is_none() && bb.is_none() && same_form(wa, wb, WType::Q4_0) && wa.n_cols == wb.n_cols {
        Some(
            {
                let mut out: Vec<Launch> = quantize_q8(x, Buf::Q8X, Buf::Q8D, wa.n_rows);
                extend(&mut out, single(
                    Kernel::GemvQ40Pair,
                    vec![
                        Arg::Mat(wa.id, Part::Data), Arg::Mat(wb.id, Part::Data),
                        Arg::Buf(Buf::Q8X), Arg::Buf(Buf::Q8D), Arg::Buf(out_a), Arg::Buf(out_b),
                        Arg::Int(to_i32(wa.n_rows)), Arg::Int(to_i32(wa.n_cols)),
                        Arg::Int(to_i32(wa.col_bytes)),
                    ],
                    quantized_shape(to_u32(wa.n_cols), wa.n_rows, card.tuning.gemv_quantized_warps),
                ));
                out
            },
        )
    } else {
        None
    }
}

/// Two Q4_K products with one vector.
pub open spec fn try_gemv_q4_pair_plan(
    card: Card,
    wa: GpuMat,
    wb: GpuMat,
    x: Buf,
    out_a: Buf,
    out_b: Buf,
    ba: Option<VecId>,
    bb: Option<VecId>,
) -> Option<Plan> {
    if same_form(wa, wb, WType::Q4K) && same_bias(ba, bb) {
        Some(
            quantize_q8_plan(x, Buf::Q8X, Buf::Q8D, wa.n_rows)
            + one(
                Kernel::GemvQ4Pair,
                seq![
                    Arg::Mat(wa.id, Part::Data), Arg::Mat(wb.id, Part::Data), Arg::Buf(Buf::Q8X),
                    Arg::Buf(Buf::Q8D), Arg::Buf(out_a), Arg::Buf(out_b),
                    Arg::Int(to_i32(wa.n_rows)), Arg::Int(to_i32(wa.n_cols)),
                    Arg::Int(to_i32(wb.n_cols)), Arg::Int(to_i32(wa.col_bytes)),
                    Arg::Int(bias_flag(ba)), bias_arg(ba, x), bias_arg(bb, x),
                ],
                shape(cols2(wa, wb), 64),
            ),
        )
    } else {
        None
    }
}

/// Two Q4_K products with one vector.
pub fn try_gemv_q4_pair(
    card: Card,
    wa: GpuMat,
    wb: GpuMat,
    x: Buf,
    out_a: Buf,
    out_b: Buf,
    ba: Option<VecId>,
    bb: Option<VecId>,
) -> (r: Option<Vec<Launch>>)
    requires
        wa.fits(),
        wb.fits(),
    ensures
        option_plan(r) == try_gemv_q4_pair_plan(card, wa, wb, x, out_a, out_b, ba, bb),
{
    if same_form(wa, wb, WType::Q4K) && same_bias(ba, bb) {
        Some(
            {
                let mut out: Vec<Launch> = quantize_q8(x, Buf::Q8X, Buf::Q8D, wa.n_rows);
                extend(&mut out, single(
                    Kernel::GemvQ4Pair,
                    vec![
                        Arg::Mat(wa.id, Part::Data), Arg::Mat(wb.id, Part::Data),
                        Arg::Buf(Buf::Q8X), Arg::Buf(Buf::Q8D), Arg::Buf(out_a), Arg::Buf(out_b),
                        Arg::Int(to_i32(wa.n_rows)), Arg::Int(to_i32(wa.n_cols)),
                        Arg::Int(to_i32(wb.n_cols)), Arg::Int(to_i32(wa.col_bytes)),
                        Arg::Int(bias_flag(ba)), bias_arg(ba, x), bias_arg(bb, x),
                    ],
                    shape(cols2(wa, wb), 64),
                ));
                out
            },
        )
    } else {
        None
    }
}

/// Two products with one vector, where one kernel does both.
pub open spec fn try_gemv_pair_plan(
    card: Card,
    wa: GpuMat,
    wb: GpuMat,
    x: Buf,
    out_a: Buf,
    out_b: Buf,
    ba: Option<VecId>,
    bb: Option<VecId>,
) -> Option<Plan> {
    match try_gemv_q5_pair_plan(card, wa, wb, x, out_a, out_b, ba, bb) {
        Some(p) => Some(p),
        None => match try_gemv_q4_0_pair_plan(card, wa, wb, x, out_a, out_b, ba, bb) {
            Some(p) => Some(p),
            None => try_gemv_q4_pair_plan(card, wa, wb, x, out_a, out_b, ba, bb),
        },
    }
}

/// Two products with one vector, where one kernel does both.
pub fn try_gemv_pair(
    card: Card,
    wa: GpuMat,
    wb: GpuMat,
    x: Buf,
    out_a: Buf,
    out_b: Buf,
    ba: Option<VecId>,
    bb: Option<VecId>,
) -> (r: Option<Vec<Launch>>)
    requires
        card.wf(),
        wa.fits(),
        wb.fits(),
    ensures
        option_plan(r) == try_gemv_pair_plan(card, wa, wb, x, out_a, out_b, ba, bb),
{
    match try_gemv_q5_pair(card, wa, wb, x, out_a, out_b, ba, bb) {
        Some(p) => Some(p),
        None => match try_gemv_q4_0_pair(card, wa, wb, x, out_a, out_b, ba, bb) {
            Some(p) => Some(p),
            None => try_gemv_q4_pair(card, wa, wb, x, out_a, out_b, ba, bb),
        },
    }
}

/// Two Q4_K products of equal width with one vector.
pub open spec fn try_gemv_q4_dual_plan(card: Card, wa: GpuMat, wb: GpuMat, x: Buf, out_a: Buf, out_b: Buf) -> Option<Plan> {
    if same_form(wa, wb, WType::Q4K) && wa.n_cols == wb.n_cols {
        Some(
            quantize_q8_plan(x, Buf::Q8X, Buf::Q8D, wa.n_rows)
            + one(
                Kernel::GemvQ4Dual,
                seq![
                    Arg::Mat(wa.id, Part::Data), Arg::Mat(wb.id, Part::Data), Arg::Buf(Buf::Q8X),
                    Arg::Buf(Buf::Q8D), Arg::Buf(out_a), Arg::Buf(out_b),
                    Arg::Int(to_i32(wa.n_rows)), Arg::Int(to_i32(wa.n_cols)),
                    Arg::Int(to_i32(wa.col_bytes)),
                ],
                shape(to_u32(wa.n_cols), card.tuning.q4_dual_threads),
            ),
        )
    } else {
        None
    }
}

/// Two Q4_K products of equal width with one vector.
pub fn try_gemv_q4_dual(card: Card, wa: GpuMat, wb: GpuMat, x: Buf, out_a: Buf, out_b: Buf) -> (r: Option<Vec<Launch>>)
    ensures
        option_plan(r) == try_gemv_q4_dual_plan(card, wa, wb, x, out_a, out_b),
{
    if same_form(wa, wb, WType::Q4K) && wa.n_cols == wb.n_cols {
        Some(
            {
                let mut out: Vec<Launch> = quantize_q8(x, Buf::Q8X, Buf::Q8D, wa.n_rows);
                extend(&mut out, single(
                    Kernel::GemvQ4Dual,
                    vec![
                        Arg::Mat(wa.id, Part::Data), Arg::Mat(wb.id, Part::Data),
                        Arg::Buf(Buf::Q8X), Arg::Buf(Buf::Q8D), Arg::Buf(out_a), Arg::Buf(out_b),
                        Arg::Int(to_i32(wa.n_rows)), Arg::Int(to_i32(wa.n_cols)),
                        Arg::Int(to_i32(wa.col_bytes)),
                    ],
                    shape(to_u32(wa.n_cols), card.tuning.q4_dual_threads),
                ));
                out
            },
        )
    } else {
        None
    }
}

/// Bytes of a quantized vector and its scales.
#[verifier::allow_in_spec]
pub fn q8_smem(n_rows: usize) -> usize
    requires
        n_rows <= MAX_SIDE,
    returns
        (n_rows + (n_rows / 32) * 4) as usize,
{
    n_rows + (n_rows / 32) * 4
}

/// The kernel for gate and up of so many rows.
#[verifier::allow_in_spec]
pub fn ffn_kernel(n_rows: usize) -> Kernel
    returns
        (if n_rows / 256 >= 16 {
            Kernel::GemvQ4Ffn8way
        } else {
            Kernel::GemvQ4Ffn
        }),
{
    if n_rows / 256 >= 16 {
        Kernel::GemvQ4Ffn8way
    } else {
        Kernel::GemvQ4Ffn
    }
}

/// Threads of that kernel.
#[verifier::allow_in_spec]
pub fn ffn_threads(n_rows: usize, card: Card) -> u32
    returns
        (if n_rows / 256 >= 16 {
            256u32
        } else {
            card.tuning.q4_dual_threads
        }),
{
    if n_rows / 256 >= 16 {
        256
    } else {
        card.tuning.q4_dual_threads
    }
}

/// Gate and up with one vector, with the activation between them.
pub open spec fn try_gemv_q4_ffn_plan(card: Card, gate: GpuMat, up: GpuMat, x: Buf, h: Buf) -> Option<Plan> {
    if same_form(gate, up, WType::Q4_0) && gate.n_cols == up.n_cols {
        Some(
            quantize_q8_plan(x, Buf::Q8X, Buf::Q8D, gate.n_rows)
            + one(
                Kernel::GemvQ40Ffn,
                seq![
                    Arg::Mat(gate.id, Part::Data), Arg::Mat(up.id, Part::Data),
                    Arg::Buf(Buf::Q8X), Arg::Buf(Buf::Q8D), Arg::Buf(h),
                    Arg::Int(to_i32(gate.n_rows)), Arg::Int(to_i32(gate.n_cols)),
                    Arg::Int(to_i32(gate.col_bytes)),
                ],
                quantized_shape(to_u32(gate.n_cols), gate.n_rows, card.tuning.gemv_quantized_warps),
            ),
        )
    } else if same_form(gate, up, WType::Q4K) && gate.n_cols == up.n_cols {
        if gate.n_cols >= 1024 && q8_smem(gate.n_rows) <= 49152 {
            Some(
                one(
                    Kernel::GemvQ4FfnMcol,
                    seq![
                        Arg::Mat(gate.id, Part::Data), Arg::Mat(up.id, Part::Data), Arg::Buf(x),
                        Arg::Buf(h), Arg::Int(to_i32(gate.n_rows)), Arg::Int(to_i32(gate.n_cols)),
                        Arg::Int(to_i32(gate.col_bytes)),
                    ],
                    mcol_shape(gate),
                ),
            )
        } else {
            Some(
                quantize_q8_plan(x, Buf::Q8X, Buf::Q8D, gate.n_rows)
                + one(
                    ffn_kernel(gate.n_rows),
                    seq![
                        Arg::Mat(gate.id, Part::Data), Arg::Mat(up.id, Part::Data),
                        Arg::Buf(Buf::Q8X), Arg::Buf(Buf::Q8D), Arg::Buf(h),
                        Arg::Int(to_i32(gate.n_rows)), Arg::Int(to_i32(gate.n_cols)),
                        Arg::Int(to_i32(gate.col_bytes)),
                    ],
                    shape(to_u32(gate.n_cols), ffn_threads(gate.n_rows, card)),
                ),
            )
        }
    } else {
        None
    }
}

/// Gate and up with one vector, with the activation between them.
pub fn try_gemv_q4_ffn(card: Card, gate: GpuMat, up: GpuMat, x: Buf, h: Buf) -> (r: Option<Vec<Launch>>)
    requires
        card.wf(),
        gate.fits(),
        up.fits(),
    ensures
        option_plan(r) == try_gemv_q4_ffn_plan(card, gate, up, x, h),
{
    if same_form(gate, up, WType::Q4_0) && gate.n_cols == up.n_cols {
        Some(
            {
                let mut out: Vec<Launch> = quantize_q8(x, Buf::Q8X, Buf::Q8D, gate.n_rows);
                extend(&mut out, single(
                    Kernel::GemvQ40Ffn,
                    vec![
                        Arg::Mat(gate.id, Part::Data), Arg::Mat(up.id, Part::Data),
                        Arg::Buf(Buf::Q8X), Arg::Buf(Buf::Q8D), Arg::Buf(h),
                        Arg::Int(to_i32(gate.n_rows)), Arg::Int(to_i32(gate.n_cols)),
                        Arg::Int(to_i32(gate.col_bytes)),
                    ],
                    quantized_shape(to_u32(gate.n_cols), gate.n_rows, card.tuning.gemv_quantized_warps),
                ));
                out
            },
        )
    } else if same_form(gate, up, WType::Q4K) && gate.n_cols == up.n_cols {
        if gate.n_cols >= 1024 && q8_smem(gate.n_rows) <= 49152 {
            Some(
                single(
                    Kernel::GemvQ4FfnMcol,
                    vec![
                        Arg::Mat(gate.id, Part::Data), Arg::Mat(up.id, Part::Data), Arg::Buf(x),
                        Arg::Buf(h), Arg::Int(to_i32(gate.n_rows)), Arg::Int(to_i32(gate.n_cols)),
                        Arg::Int(to_i32(gate.col_bytes)),
                    ],
                    mcol_shape(gate),
                ),
            )
        } else {
            Some(
                {
                    let mut out: Vec<Launch> = quantize_q8(x, Buf::Q8X, Buf::Q8D, gate.n_rows);
                    extend(&mut out, single(
                        ffn_kernel(gate.n_rows),
                        vec![
                            Arg::Mat(gate.id, Part::Data), Arg::Mat(up.id, Part::Data),
                            Arg::Buf(Buf::Q8X), Arg::Buf(Buf::Q8D), Arg::Buf(h),
                            Arg::Int(to_i32(gate.n_rows)), Arg::Int(to_i32(gate.n_cols)),
                            Arg::Int(to_i32(gate.col_bytes)),
                        ],
                        shape(to_u32(gate.n_cols), ffn_threads(gate.n_rows, card)),
                    ));
                    out
                },
            )
        }
    } else {
        None
    }
}

/// 32 columns to a block, the quantized vector in shared memory.
#[verifier::allow_in_spec]
pub fn mcol_shape(gate: GpuMat) -> Shape
    requires
        gate.fits(),
    returns
        (Shape {
            grid_x: spec_ceil_div(to_u32(gate.n_cols), 32),
            grid_y: 1,
            block: 1024,
            smem: to_u32(q8_smem(gate.n_rows)),
        }),
{
    Shape {
        grid_x: ceil_div(to_u32(gate.n_cols), 32),
        grid_y: 1,
        block: 1024,
        smem: to_u32(q8_smem(gate.n_rows)),
    }
}

/// Whether all three have a bias.
#[verifier::allow_in_spec]
pub fn all_bias(bq: Option<VecId>, bk: Option<VecId>, bv: Option<VecId>) -> bool
    returns
        bq is Some && bk is Some && bv is Some,
{
    bq.is_some() && bk.is_some() && bv.is_some()
}

/// Whether none of the three has a bias.
#[verifier::allow_in_spec]
pub fn no_bias(bq: Option<VecId>, bk: Option<VecId>, bv: Option<VecId>) -> bool
    returns
        bq is None && bk is None && bv is None,
{
    bq.is_none() && bk.is_none() && bv.is_none()
}

/// Whether three matrices are stored in that way with columns alike.
#[verifier::allow_in_spec]
pub fn same_form3(wq: GpuMat, wk: GpuMat, wv: GpuMat, t: WType) -> bool
    returns
        same_form(wq, wk, t) && same_form(wq, wv, t),
{
    same_form(wq, wk, t) && same_form(wq, wv, t)
}

/// Whether all three have a bias or none has.
#[verifier::allow_in_spec]
pub fn bias_alike(bq: Option<VecId>, bk: Option<VecId>, bv: Option<VecId>) -> bool
    returns
        all_bias(bq, bk, bv) || no_bias(bq, bk, bv),
{
    all_bias(bq, bk, bv) || no_bias(bq, bk, bv)
}

/// Whether two warps share a column of a Q4_0 projection.
#[verifier::allow_in_spec]
pub fn wide_q4_0(wq: GpuMat) -> bool
    returns
        wq.n_rows >= 512 && wq.n_rows / 32 >= 16,
{
    wq.n_rows >= 512 && wq.n_rows / 32 >= 16
}

/// The kernel for three Q4_0 projections.
#[verifier::allow_in_spec]
pub fn qkv_q4_0_kernel(wq: GpuMat) -> Kernel
    returns
        (if wide_q4_0(wq) {
            Kernel::GemvQ40Qkv2w
        } else {
            Kernel::GemvQ40Qkv
        }),
{
    if wide_q4_0(wq) {
        Kernel::GemvQ40Qkv2w
    } else {
        Kernel::GemvQ40Qkv
    }
}

/// The geometry for three Q4_0 projections.
#[verifier::allow_in_spec]
pub fn qkv_q4_0_shape(card: Card, wq: GpuMat, wk: GpuMat, wv: GpuMat) -> Shape
    requires
        card.wf(),
        wq.fits(),
        wk.fits(),
        wv.fits(),
    returns
        (if wide_q4_0(wq) {
            shape(cols3(wq, wk, wv), 64)
        } else {
            quantized_shape(cols3(wq, wk, wv), wq.n_rows, card.tuning.gemv_quantized_warps)
        }),
{
    if wide_q4_0(wq) {
        shape(cols3(wq, wk, wv), 64)
    } else {
        quantized_shape(cols3(wq, wk, wv), wq.n_rows, card.tuning.gemv_quantized_warps)
    }
}

/// Three Q4_0 projections of a vector that is quantized already.
pub open spec fn launch_gemv_q4_0_qkv_plan(
    card: Card,
    wq: GpuMat,
    wk: GpuMat,
    wv: GpuMat,
    q: Buf,
    k_out: Buf,
    v_out: Buf,
    bq: Option<VecId>,
    bk: Option<VecId>,
    bv: Option<VecId>,
    x: Buf,
) -> Plan {
    one(
        qkv_q4_0_kernel(wq),
        seq![
            Arg::Mat(wq.id, Part::Data), Arg::Mat(wk.id, Part::Data), Arg::Mat(wv.id, Part::Data),
            Arg::Buf(Buf::Q8X), Arg::Buf(Buf::Q8D), Arg::Buf(q), Arg::Buf(k_out), Arg::Buf(v_out),
            Arg::Int(to_i32(wq.n_rows)), Arg::Int(to_i32(wq.n_cols)), Arg::Int(to_i32(wk.n_cols)),
            Arg::Int(to_i32(wv.n_cols)), Arg::Int(to_i32(wq.col_bytes)),
            Arg::Int(flag(all_bias(bq, bk, bv))), bias_arg(bq, x), bias_arg(bk, x),
            bias_arg(bv, x),
        ],
        qkv_q4_0_shape(card, wq, wk, wv),
    )
}

/// Three Q4_0 projections of a vector that is quantized already.
pub fn launch_gemv_q4_0_qkv(
    card: Card,
    wq: GpuMat,
    wk: GpuMat,
    wv: GpuMat,
    q: Buf,
    k_out: Buf,
    v_out: Buf,
    bq: Option<VecId>,
    bk: Option<VecId>,
    bv: Option<VecId>,
    x: Buf,
) -> (r: Vec<Launch>)
    requires
        card.wf(),
        wq.fits(),
        wk.fits(),
        wv.fits(),
    ensures
        plan_of(r@) == launch_gemv_q4_0_qkv_plan(card, wq, wk, wv, q, k_out, v_out, bq, bk, bv, x),
{
    single(
        qkv_q4_0_kernel(wq),
        vec![
            Arg::Mat(wq.id, Part::Data), Arg::Mat(wk.id, Part::Data), Arg::Mat(wv.id, Part::Data),
            Arg::Buf(Buf::Q8X), Arg::Buf(Buf::Q8D), Arg::Buf(q), Arg::Buf(k_out), Arg::Buf(v_out),
            Arg::Int(to_i32(wq.n_rows)), Arg::Int(to_i32(wq.n_cols)), Arg::Int(to_i32(wk.n_cols)),
            Arg::Int(to_i32(wv.n_cols)), Arg::Int(to_i32(wq.col_bytes)),
            Arg::Int(flag(all_bias(bq, bk, bv))), bias_arg(bq, x), bias_arg(bk, x),
            bias_arg(bv, x),
        ],
        qkv_q4_0_shape(card, wq, wk, wv),
    )
}

/// Three Q8_0 projections, the rows split.
pub open spec fn qkv_q8_split_plan(
    card: Card,
    wq: GpuMat,
    wk: GpuMat,
    wv: GpuMat,
    x: Buf,
    q: Buf,
    k_out: Buf,
    v_out: Buf,
    bq: Option<VecId>,
    bk: Option<VecId>,
    bv: Option<VecId>,
) -> Plan {
    quantize_q8_plan(x, Buf::Q8X, Buf::Q8D, wq.n_rows)
    + one(
        Kernel::GemvQ8QkvSplitk,
        seq![
            Arg::Mat(wq.id, Part::Data), Arg::Mat(wk.id, Part::Data), Arg::Mat(wv.id, Part::Data),
            Arg::Buf(Buf::Q8X), Arg::Buf(Buf::Q8D), Arg::Buf(Buf::GemvPartial),
            Arg::Int(to_i32(wq.n_rows)), Arg::Int(to_i32(wq.n_cols)), Arg::Int(to_i32(wk.n_cols)),
            Arg::Int(to_i32(wv.n_cols)), Arg::Int(to_i32(wq.col_bytes)),
            Arg::Int(gemv_n_split(wq.n_rows) as i32),
        ],
        shape2(ceil_div(cols3(wq, wk, wv), GEMV_WARPS), gemv_n_split(wq.n_rows), 1024),
    )
    + one(
        Kernel::GemvSplitkReduceQkv,
        seq![
            Arg::Buf(Buf::GemvPartial), Arg::Buf(q), Arg::Buf(k_out), Arg::Buf(v_out),
            Arg::Int(to_i32(wq.n_cols)), Arg::Int(to_i32(wk.n_cols)), Arg::Int(to_i32(wv.n_cols)),
            Arg::Int(gemv_n_split(wq.n_rows) as i32), Arg::Int(flag(all_bias(bq, bk, bv))),
            bias_arg(bq, x), bias_arg(bk, x), bias_arg(bv, x),
        ],
        shape(ceil_div(cols3(wq, wk, wv), 256), 256),
    )
}

/// Three Q8_0 projections, the rows split.
pub fn qkv_q8_split(
    card: Card,
    wq: GpuMat,
    wk: GpuMat,
    wv: GpuMat,
    x: Buf,
    q: Buf,
    k_out: Buf,
    v_out: Buf,
    bq: Option<VecId>,
    bk: Option<VecId>,
    bv: Option<VecId>,
) -> (r: Vec<Launch>)
    requires
        card.wf(),
        wq.fits(),
        wk.fits(),
        wv.fits(),
    ensures
        plan_of(r@) == qkv_q8_split_plan(card, wq, wk, wv, x, q, k_out, v_out, bq, bk, bv),
{
    {
        let mut out: Vec<Launch> = quantize_q8(x, Buf::Q8X, Buf::Q8D, wq.n_rows);
        extend(&mut out, single(
            Kernel::GemvQ8QkvSplitk,
            vec![
                Arg::Mat(wq.id, Part::Data), Arg::Mat(wk.id, Part::Data),
                Arg::Mat(wv.id, Part::Data), Arg::Buf(Buf::Q8X), Arg::Buf(Buf::Q8D),
                Arg::Buf(Buf::GemvPartial), Arg::Int(to_i32(wq.n_rows)),
                Arg::Int(to_i32(wq.n_cols)), Arg::Int(to_i32(wk.n_cols)),
                Arg::Int(to_i32(wv.n_cols)), Arg::Int(to_i32(wq.col_bytes)),
                Arg::Int(gemv_n_split(wq.n_rows) as i32),
            ],
            shape2(ceil_div(cols3(wq, wk, wv), GEMV_WARPS), gemv_n_split(wq.n_rows), 1024),
        ));
        extend(&mut out, single(
            Kernel::GemvSplitkReduceQkv,
            vec![
                Arg::Buf(Buf::GemvPartial), Arg::Buf(q), Arg::Buf(k_out), Arg::Buf(v_out),
                Arg::Int(to_i32(wq.n_cols)), Arg::Int(to_i32(wk.n_cols)),
                Arg::Int(to_i32(wv.n_cols)), Arg::Int(gemv_n_split(wq.n_rows) as i32),
                Arg::Int(flag(all_bias(bq, bk, bv))), bias_arg(bq, x), bias_arg(bk, x),
                bias_arg(bv, x),
            ],
            shape(ceil_div(cols3(wq, wk, wv), 256), 256),
        ));
        out
    }
}

/// Query, key and value projections of one vector, where one kernel does all three.
pub open spec fn try_gemv_qkv_plan(
    card: Card,
    wq: GpuMat,
    wk: GpuMat,
    wv: GpuMat,
    x: Buf,
    q: Buf,
    k_out: Buf,
    v_out: Buf,
    bq: Option<VecId>,
    bk: Option<VecId>,
    bv: Option<VecId>,
) -> Option<Plan> {
    if !bias_alike(bq, bk, bv) {
        None
    } else if same_form3(wq, wk, wv, WType::Q4_0) {
        Some(
            quantize_q8_plan(x, Buf::Q8X, Buf::Q8D, wq.n_rows)
            + launch_gemv_q4_0_qkv_plan(card, wq, wk, wv, q, k_out, v_out, bq, bk, bv, x),
        )
    } else if same_form3(wq, wk, wv, WType::Q4K) {
        Some(
            quantize_q8_plan(x, Buf::Q8X, Buf::Q8D, wq.n_rows)
            + one(
                Kernel::GemvQ4Qkv,
                seq![
                    Arg::Mat(wq.id, Part::Data), Arg::Mat(wk.id, Part::Data),
                    Arg::Mat(wv.id, Part::Data), Arg::Buf(Buf::Q8X), Arg::Buf(Buf::Q8D),
                    Arg::Buf(q), Arg::Buf(k_out), Arg::Buf(v_out), Arg::Int(to_i32(wq.n_rows)),
                    Arg::Int(to_i32(wq.n_cols)), Arg::Int(to_i32(wk.n_cols)),
                    Arg::Int(to_i32(wv.n_cols)), Arg::Int(to_i32(wq.col_bytes)),
                    Arg::Int(flag(all_bias(bq, bk, bv))), bias_arg(bq, x), bias_arg(bk, x),
                    bias_arg(bv, x),
                ],
                quantized_shape(cols3(wq, wk, wv), wq.n_rows, card.tuning.gemv_quantized_warps),
            ),
        )
    } else if same_form3(wq, wk, wv, WType::Q8_0) {
        if gemv_n_split(wq.n_rows) > 1 && cols3(wq, wk, wv) as usize <= card.partial_stride {
            Some(
                qkv_q8_split_plan(card, wq, wk, wv, x, q, k_out, v_out, bq, bk, bv),
            )
        } else {
            Some(
                one(
                    Kernel::GemvQ8Qkv,
                    seq![
                        Arg::Mat(wq.id, Part::Data), Arg::Mat(wk.id, Part::Data),
                        Arg::Mat(wv.id, Part::Data), Arg::Buf(x), Arg::Buf(q), Arg::Buf(k_out),
                        Arg::Buf(v_out), Arg::Int(to_i32(wq.n_rows)), Arg::Int(to_i32(wq.n_cols)),
                        Arg::Int(to_i32(wk.n_cols)), Arg::Int(to_i32(wv.n_cols)),
                        Arg::Int(to_i32(wq.col_bytes)), Arg::Int(flag(all_bias(bq, bk, bv))),
                        bias_arg(bq, x), bias_arg(bk, x), bias_arg(bv, x),
                    ],
                    quantized_shape(cols3(wq, wk, wv), wq.n_rows, card.tuning.gemv_quantized_warps),
                ),
            )
        }
    } else if same_form3(wq, wk, wv, WType::Q5_0) {
        Some(
            one(
                Kernel::GemvQ5Qkv,
                seq![
                    Arg::Mat(wq.id, Part::Data), Arg::Mat(wk.id, Part::Data),
                    Arg::Mat(wv.id, Part::Data), Arg::Buf(x), Arg::Buf(q), Arg::Buf(k_out),
                    Arg::Buf(v_out), Arg::Int(to_i32(wq.n_rows)), Arg::Int(to_i32(wq.n_cols)),
                    Arg::Int(to_i32(wk.n_cols)), Arg::Int(to_i32(wv.n_cols)),
                    Arg::Int(to_i32(wq.col_bytes)), Arg::Int(flag(all_bias(bq, bk, bv))),
                    bias_arg(bq, x), bias_arg(bk, x), bias_arg(bv, x),
                ],
                q5_gemv_shape(cols3(wq, wk, wv), wq.n_rows),
            ),
        )
    } else {
        None
    }
}

/// Query, key and value projections of one vector, where one kernel does all three.
pub fn try_gemv_qkv(
    card: Card,
    wq: GpuMat,
    wk: GpuMat,
    wv: GpuMat,
    x: Buf,
    q: Buf,
    k_out: Buf,
    v_out: Buf,
    bq: Option<VecId>,
    bk: Option<VecId>,
    bv: Option<VecId>,
) -> (r: Option<Vec<Launch>>)
    requires
        card.wf(),
        wq.fits(),
        wk.fits(),
        wv.fits(),
    ensures
        option_plan(r) == try_gemv_qkv_plan(card, wq, wk, wv, x, q, k_out, v_out, bq, bk, bv),
{
    if !bias_alike(bq, bk, bv) {
        None
    } else if same_form3(wq, wk, wv, WType::Q4_0) {
        Some(
            {
                let mut out: Vec<Launch> = quantize_q8(x, Buf::Q8X, Buf::Q8D, wq.n_rows);
                extend(&mut out, launch_gemv_q4_0_qkv(card, wq, wk, wv, q, k_out, v_out, bq, bk, bv, x));
                out
            },
        )
    } else if same_form3(wq, wk, wv, WType::Q4K) {
        Some(
            {
                let mut out: Vec<Launch> = quantize_q8(x, Buf::Q8X, Buf::Q8D, wq.n_rows);
                extend(&mut out, single(
                    Kernel::GemvQ4Qkv,
                    vec![
                        Arg::Mat(wq.id, Part::Data), Arg::Mat(wk.id, Part::Data),
                        Arg::Mat(wv.id, Part::Data), Arg::Buf(Buf::Q8X), Arg::Buf(Buf::Q8D),
                        Arg::Buf(q), Arg::Buf(k_out), Arg::Buf(v_out),
                        Arg::Int(to_i32(wq.n_rows)), Arg::Int(to_i32(wq.n_cols)),
                        Arg::Int(to_i32(wk.n_cols)), Arg::Int(to_i32(wv.n_cols)),
                        Arg::Int(to_i32(wq.col_bytes)), Arg::Int(flag(all_bias(bq, bk, bv))),
                        bias_arg(bq, x), bias_arg(bk, x), bias_arg(bv, x),
                    ],
                    quantized_shape(cols3(wq, wk, wv), wq.n_rows, card.tuning.gemv_quantized_warps),
                ));
                out
            },
        )
    } else if same_form3(wq, wk, wv, WType::Q8_0) {
        if gemv_n_split(wq.n_rows) > 1 && cols3(wq, wk, wv) as usize <= card.partial_stride {
            Some(
                qkv_q8_split(card, wq, wk, wv, x, q, k_out, v_out, bq, bk, bv),
            )
        } else {
            Some(
                single(
                    Kernel::GemvQ8Qkv,
                    vec![
                        Arg::Mat(wq.id, Part::Data), Arg::Mat(wk.id, Part::Data),
                        Arg::Mat(wv.id, Part::Data), Arg::Buf(x), Arg::Buf(q), Arg::Buf(k_out),
                        Arg::Buf(v_out), Arg::Int(to_i32(wq.n_rows)), Arg::Int(to_i32(wq.n_cols)),
                        Arg::Int(to_i32(wk.n_cols)), Arg::Int(to_i32(wv.n_cols)),
                        Arg::Int(to_i32(wq.col_bytes)), Arg::Int(flag(all_bias(bq, bk, bv))),
                        bias_arg(bq, x), bias_arg(bk, x), bias_arg(bv, x),
                    ],
                    quantized_shape(cols3(wq, wk, wv), wq.n_rows, card.tuning.gemv_quantized_warps),
                ),
            )
        }
    } else if same_form3(wq, wk, wv, WType::Q5_0) {
        Some(
            single(
                Kernel::GemvQ5Qkv,
                vec![
                    Arg::Mat(wq.id, Part::Data), Arg::Mat(wk.id, Part::Data),
                    Arg::Mat(wv.id, Part::Data), Arg::Buf(x), Arg::Buf(q), Arg::Buf(k_out),
                    Arg::Buf(v_out), Arg::Int(to_i32(wq.n_rows)), Arg::Int(to_i32(wq.n_cols)),
                    Arg::Int(to_i32(wk.n_cols)), Arg::Int(to_i32(wv.n_cols)),
                    Arg::Int(to_i32(wq.col_bytes)), Arg::Int(flag(all_bias(bq, bk, bv))),
                    bias_arg(bq, x), bias_arg(bk, x), bias_arg(bv, x),
                ],
                q5_gemv_shape(cols3(wq, wk, wv), wq.n_rows),
            ),
        )
    } else {
        None
    }
}

/// Whether all four matrices are Q8_0 with columns alike.
#[verifier::allow_in_spec]
pub fn gdn_all_q8(wqkv: GpuMat, w_gate: GpuMat, w_beta: GpuMat, w_alpha: GpuMat) -> bool
    returns
        (wqkv.wtype == WType::Q8_0 && w_gate.wtype == WType::Q8_0 && w_beta.wtype == WType::Q8_0
            && w_alpha.wtype == WType::Q8_0 && wqkv.col_bytes == w_gate.col_bytes && wqkv.col_bytes
            == w_beta.col_bytes && wqkv.col_bytes == w_alpha.col_bytes),
{
    wqkv.wtype == WType::Q8_0 && w_gate.wtype == WType::Q8_0 && w_beta.wtype == WType::Q8_0
        && w_alpha.wtype == WType::Q8_0 && wqkv.col_bytes == w_gate.col_bytes && wqkv.col_bytes
        == w_beta.col_bytes && wqkv.col_bytes == w_alpha.col_bytes
}

/// Whether w_gate is Q4_K and the other three are Q8_0 with columns alike.
#[verifier::allow_in_spec]
pub fn gdn_mixed(wqkv: GpuMat, w_gate: GpuMat, w_beta: GpuMat, w_alpha: GpuMat) -> bool
    returns
        (wqkv.wtype == WType::Q8_0 && w_gate.wtype == WType::Q4K && w_beta.wtype == WType::Q8_0
            && w_alpha.wtype == WType::Q8_0 && wqkv.col_bytes == w_beta.col_bytes && wqkv.col_bytes
            == w_alpha.col_bytes),
{
    wqkv.wtype == WType::Q8_0 && w_gate.wtype == WType::Q4K && w_beta.wtype == WType::Q8_0
        && w_alpha.wtype == WType::Q8_0 && wqkv.col_bytes == w_beta.col_bytes && wqkv.col_bytes
        == w_alpha.col_bytes
}

/// Whether all four matrices have as many rows.
#[verifier::allow_in_spec]
pub fn gdn_same_rows(wqkv: GpuMat, w_gate: GpuMat, w_beta: GpuMat, w_alpha: GpuMat) -> bool
    returns
        wqkv.n_rows == w_gate.n_rows && wqkv.n_rows == w_beta.n_rows && wqkv.n_rows == w_alpha.n_rows,
{
    wqkv.n_rows == w_gate.n_rows && wqkv.n_rows == w_beta.n_rows && wqkv.n_rows == w_alpha.n_rows
}

/// Columns of four matrices.
#[verifier::allow_in_spec]
pub fn cols4(wqkv: GpuMat, w_gate: GpuMat, w_beta: GpuMat, w_alpha: GpuMat) -> u32
    requires
        wqkv.fits(),
        w_gate.fits(),
        w_beta.fits(),
        w_alpha.fits(),
    returns
        (wqkv.n_cols + w_gate.n_cols + w_beta.n_cols + w_alpha.n_cols) as u32,
{
    to_u32(wqkv.n_cols) + to_u32(w_gate.n_cols) + to_u32(w_beta.n_cols) + to_u32(w_alpha.n_cols)
}

/// Threads of the warps of a block.
#[verifier::allow_in_spec]
pub fn warp_threads(card: Card) -> u32
    requires
        card.wf(),
    returns
        (card.tuning.gemv_quantized_warps * 32) as u32,
{
    card.tuning.gemv_quantized_warps * 32
}

/// The four projections of a linear layer, the rows split.
pub open spec fn gdn_4way_split_plan(
    card: Card,
    wqkv: GpuMat,
    w_gate: GpuMat,
    w_beta: GpuMat,
    w_alpha: GpuMat,
    x: Buf,
    out_qkv: Buf,
    out_gate: Buf,
    out_beta: Buf,
    out_alpha: Buf,
) -> Plan {
    quantize_q8_plan(x, Buf::Q8X, Buf::Q8D, wqkv.n_rows)
    + (if gdn_mixed(wqkv, w_gate, w_beta, w_alpha) {
        one(
            Kernel::GemvHybridGdn4waySplitk,
            seq![
                Arg::Mat(wqkv.id, Part::Data), Arg::Mat(w_gate.id, Part::Data),
                Arg::Mat(w_beta.id, Part::Data), Arg::Mat(w_alpha.id, Part::Data),
                Arg::Buf(Buf::Q8X), Arg::Buf(Buf::Q8D), Arg::Buf(Buf::GemvPartial),
                Arg::Int(to_i32(wqkv.n_rows)), Arg::Int(to_i32(wqkv.n_cols)),
                Arg::Int(to_i32(w_gate.n_cols)), Arg::Int(to_i32(w_beta.n_cols)),
                Arg::Int(to_i32(w_alpha.n_cols)), Arg::Int(to_i32(wqkv.col_bytes)),
                Arg::Int(to_i32(w_gate.col_bytes)), Arg::Int(gemv_n_split(wqkv.n_rows) as i32),
            ],
            shape2(
            ceil_div(cols4(wqkv, w_gate, w_beta, w_alpha), card.tuning.gemv_quantized_warps),
            gemv_n_split(wqkv.n_rows),
            warp_threads(card),
        ),
        )
    } else {
        one(
            Kernel::GemvQ8Gdn4waySplitk,
            seq![
                Arg::Mat(wqkv.id, Part::Data), Arg::Mat(w_gate.id, Part::Data),
                Arg::Mat(w_beta.id, Part::Data), Arg::Mat(w_alpha.id, Part::Data),
                Arg::Buf(Buf::Q8X), Arg::Buf(Buf::Q8D), Arg::Buf(Buf::GemvPartial),
                Arg::Int(to_i32(wqkv.n_rows)), Arg::Int(to_i32(wqkv.n_cols)),
                Arg::Int(to_i32(w_gate.n_cols)), Arg::Int(to_i32(w_beta.n_cols)),
                Arg::Int(to_i32(w_alpha.n_cols)), Arg::Int(to_i32(wqkv.col_bytes)),
                Arg::Int(gemv_n_split(wqkv.n_rows) as i32),
            ],
            shape2(
            ceil_div(cols4(wqkv, w_gate, w_beta, w_alpha), card.tuning.gemv_quantized_warps),
            gemv_n_split(wqkv.n_rows),
            warp_threads(card),
        ),
        )
    })
    + one(
        Kernel::GemvSplitkReduceGdn4way,
        seq![
            Arg::Buf(Buf::GemvPartial), Arg::Buf(out_qkv), Arg::Buf(out_gate), Arg::Buf(out_beta),
            Arg::Buf(out_alpha), Arg::Int(to_i32(wqkv.n_cols)), Arg::Int(to_i32(w_gate.n_cols)),
            Arg::Int(to_i32(w_beta.n_cols)), Arg::Int(to_i32(w_alpha.n_cols)),
            Arg::Int(gemv_n_split(wqkv.n_rows) as i32),
        ],
        shape(ceil_div(cols4(wqkv, w_gate, w_beta, w_alpha), 256), 256),
    )
}

/// The four projections of a linear layer, the rows split.
pub fn gdn_4way_split(
    card: Card,
    wqkv: GpuMat,
    w_gate: GpuMat,
    w_beta: GpuMat,
    w_alpha: GpuMat,
    x: Buf,
    out_qkv: Buf,
    out_gate: Buf,
    out_beta: Buf,
    out_alpha: Buf,
) -> (r: Vec<Launch>)
    requires
        card.wf(),
        wqkv.fits(),
        w_gate.fits(),
        w_beta.fits(),
        w_alpha.fits(),
    ensures
        plan_of(r@) == gdn_4way_split_plan(card, wqkv, w_gate, w_beta, w_alpha, x, out_qkv, out_gate, out_beta, out_alpha),
{
    {
        let mut out: Vec<Launch> = quantize_q8(x, Buf::Q8X, Buf::Q8D, wqkv.n_rows);
        extend(&mut out, if gdn_mixed(wqkv, w_gate, w_beta, w_alpha) {
            single(
                Kernel::GemvHybridGdn4waySplitk,
                vec![
                    Arg::Mat(wqkv.id, Part::Data), Arg::Mat(w_gate.id, Part::Data),
                    Arg::Mat(w_beta.id, Part::Data), Arg::Mat(w_alpha.id, Part::Data),
                    Arg::Buf(Buf::Q8X), Arg::Buf(Buf::Q8D), Arg::Buf(Buf::GemvPartial),
                    Arg::Int(to_i32(wqkv.n_rows)), Arg::Int(to_i32(wqkv.n_cols)),
                    Arg::Int(to_i32(w_gate.n_cols)), Arg::Int(to_i32(w_beta.n_cols)),
                    Arg::Int(to_i32(w_alpha.n_cols)), Arg::Int(to_i32(wqkv.col_bytes)),
                    Arg::Int(to_i32(w_gate.col_bytes)),
                    Arg::Int(gemv_n_split(wqkv.n_rows) as i32),
                ],
                shape2(
            ceil_div(cols4(wqkv, w_gate, w_beta, w_alpha), card.tuning.gemv_quantized_warps),
            gemv_n_split(wqkv.n_rows),
            warp_threads(card),
        ),
            )
        } else {
            single(
                Kernel::GemvQ8Gdn4waySplitk,
                vec![
                    Arg::Mat(wqkv.id, Part::Data), Arg::Mat(w_gate.id, Part::Data),
                    Arg::Mat(w_beta.id, Part::Data), Arg::Mat(w_alpha.id, Part::Data),
                    Arg::Buf(Buf::Q8X), Arg::Buf(Buf::Q8D), Arg::Buf(Buf::GemvPartial),
                    Arg::Int(to_i32(wqkv.n_rows)), Arg::Int(to_i32(wqkv.n_cols)),
                    Arg::Int(to_i32(w_gate.n_cols)), Arg::Int(to_i32(w_beta.n_cols)),
                    Arg::Int(to_i32(w_alpha.n_cols)), Arg::Int(to_i32(wqkv.col_bytes)),
                    Arg::Int(gemv_n_split(wqkv.n_rows) as i32),
                ],
                shape2(
            ceil_div(cols4(wqkv, w_gate, w_beta, w_alpha), card.tuning.gemv_quantized_warps),
            gemv_n_split(wqkv.n_rows),
            warp_threads(card),
        ),
            )
        });
        extend(&mut out, single(
            Kernel::GemvSplitkReduceGdn4way,
            vec![
                Arg::Buf(Buf::GemvPartial), Arg::Buf(out_qkv), Arg::Buf(out_gate),
                Arg::Buf(out_beta), Arg::Buf(out_alpha), Arg::Int(to_i32(wqkv.n_cols)),
                Arg::Int(to_i32(w_gate.n_cols)), Arg::Int(to_i32(w_beta.n_cols)),
                Arg::Int(to_i32(w_alpha.n_cols)), Arg::Int(gemv_n_split(wqkv.n_rows) as i32),
            ],
            shape(ceil_div(cols4(wqkv, w_gate, w_beta, w_alpha), 256), 256),
        ));
        out
    }
}

/// The four projections of a linear layer, where one kernel does all four.
pub open spec fn try_gemv_gdn_4way_plan(
    card: Card,
    wqkv: GpuMat,
    w_gate: GpuMat,
    w_beta: GpuMat,
    w_alpha: GpuMat,
    x: Buf,
    out_qkv: Buf,
    out_gate: Buf,
    out_beta: Buf,
    out_alpha: Buf,
    no_4way: bool,
) -> Option<Plan> {
    if no_4way || !(gdn_all_q8(wqkv, w_gate, w_beta, w_alpha) || gdn_mixed(wqkv, w_gate, w_beta, w_alpha))
        || !gdn_same_rows(wqkv, w_gate, w_beta, w_alpha) {
        None
    } else if gemv_n_split(wqkv.n_rows) > 1 && cols4(wqkv, w_gate, w_beta, w_alpha) as usize
        <= card.partial_stride {
        Some(
            gdn_4way_split_plan(
                card, wqkv, w_gate, w_beta, w_alpha, x, out_qkv, out_gate, out_beta, out_alpha,
            ),
        )
    } else if gdn_mixed(wqkv, w_gate, w_beta, w_alpha) {
        Some(
            one(
                Kernel::GemvHybridGdn4way,
                seq![
                    Arg::Mat(wqkv.id, Part::Data), Arg::Mat(w_gate.id, Part::Data),
                    Arg::Mat(w_beta.id, Part::Data), Arg::Mat(w_alpha.id, Part::Data),
                    Arg::Buf(x), Arg::Buf(out_qkv), Arg::Buf(out_gate), Arg::Buf(out_beta),
                    Arg::Buf(out_alpha), Arg::Int(to_i32(wqkv.n_rows)),
                    Arg::Int(to_i32(wqkv.n_cols)), Arg::Int(to_i32(w_gate.n_cols)),
                    Arg::Int(to_i32(w_beta.n_cols)), Arg::Int(to_i32(w_alpha.n_cols)),
                    Arg::Int(to_i32(wqkv.col_bytes)), Arg::Int(to_i32(w_gate.col_bytes)),
                ],
                quantized_shape(
                cols4(wqkv, w_gate, w_beta, w_alpha),
                wqkv.n_rows,
                card.tuning.gemv_quantized_warps,
            ),
            ),
        )
    } else {
        Some(
            one(
                Kernel::GemvQ8Gdn4way,
                seq![
                    Arg::Mat(wqkv.id, Part::Data), Arg::Mat(w_gate.id, Part::Data),
                    Arg::Mat(w_beta.id, Part::Data), Arg::Mat(w_alpha.id, Part::Data),
                    Arg::Buf(x), Arg::Buf(out_qkv), Arg::Buf(out_gate), Arg::Buf(out_beta),
                    Arg::Buf(out_alpha), Arg::Int(to_i32(wqkv.n_rows)),
                    Arg::Int(to_i32(wqkv.n_cols)), Arg::Int(to_i32(w_gate.n_cols)),
                    Arg::Int(to_i32(w_beta.n_cols)), Arg::Int(to_i32(w_alpha.n_cols)),
                    Arg::Int(to_i32(wqkv.col_bytes)),
                ],
                quantized_shape(
                cols4(wqkv, w_gate, w_beta, w_alpha),
                wqkv.n_rows,
                card.tuning.gemv_quantized_warps,
            ),
            ),
        )
    }
}

/// The four projections of a linear layer, where one kernel does all four.
pub fn try_gemv_gdn_4way(
    card: Card,
    wqkv: GpuMat,
    w_gate: GpuMat,
    w_beta: GpuMat,
    w_alpha: GpuMat,
    x: Buf,
    out_qkv: Buf,
    out_gate: Buf,
    out_beta: Buf,
    out_alpha: Buf,
    no_4way: bool,
) -> (r: Option<Vec<Launch>>)
    requires
        card.wf(),
        wqkv.fits(),
        w_gate.fits(),
        w_beta.fits(),
        w_alpha.fits(),
    ensures
        option_plan(r) == try_gemv_gdn_4way_plan(card, wqkv, w_gate, w_beta, w_alpha, x, out_qkv, out_gate, out_beta, out_alpha, no_4way),
{
    if no_4way || !(gdn_all_q8(wqkv, w_gate, w_beta, w_alpha) || gdn_mixed(wqkv, w_gate, w_beta, w_alpha))
        || !gdn_same_rows(wqkv, w_gate, w_beta, w_alpha) {
        None
    } else if gemv_n_split(wqkv.n_rows) > 1 && cols4(wqkv, w_gate, w_beta, w_alpha) as usize
        <= card.partial_stride {
        Some(
            gdn_4way_split(
                card, wqkv, w_gate, w_beta, w_alpha, x, out_qkv, out_gate, out_beta, out_alpha,
            ),
        )
    } else if gdn_mixed(wqkv, w_gate, w_beta, w_alpha) {
        Some(
            single(
                Kernel::GemvHybridGdn4way,
                vec![
                    Arg::Mat(wqkv.id, Part::Data), Arg::Mat(w_gate.id, Part::Data),
                    Arg::Mat(w_beta.id, Part::Data), Arg::Mat(w_alpha.id, Part::Data),
                    Arg::Buf(x), Arg::Buf(out_qkv), Arg::Buf(out_gate), Arg::Buf(out_beta),
                    Arg::Buf(out_alpha), Arg::Int(to_i32(wqkv.n_rows)),
                    Arg::Int(to_i32(wqkv.n_cols)), Arg::Int(to_i32(w_gate.n_cols)),
                    Arg::Int(to_i32(w_beta.n_cols)), Arg::Int(to_i32(w_alpha.n_cols)),
                    Arg::Int(to_i32(wqkv.col_bytes)), Arg::Int(to_i32(w_gate.col_bytes)),
                ],
                quantized_shape(
                cols4(wqkv, w_gate, w_beta, w_alpha),
                wqkv.n_rows,
                card.tuning.gemv_quantized_warps,
            ),
            ),
        )
    } else {
        Some(
            single(
                Kernel::GemvQ8Gdn4way,
                vec![
                    Arg::Mat(wqkv.id, Part::Data), Arg::Mat(w_gate.id, Part::Data),
                    Arg::Mat(w_beta.id, Part::Data), Arg::Mat(w_alpha.id, Part::Data),
                    Arg::Buf(x), Arg::Buf(out_qkv), Arg::Buf(out_gate), Arg::Buf(out_beta),
                    Arg::Buf(out_alpha), Arg::Int(to_i32(wqkv.n_rows)),
                    Arg::Int(to_i32(wqkv.n_cols)), Arg::Int(to_i32(w_gate.n_cols)),
                    Arg::Int(to_i32(w_beta.n_cols)), Arg::Int(to_i32(w_alpha.n_cols)),
                    Arg::Int(to_i32(wqkv.col_bytes)),
                ],
                quantized_shape(
                cols4(wqkv, w_gate, w_beta, w_alpha),
                wqkv.n_rows,
                card.tuning.gemv_quantized_warps,
            ),
            ),
        )
    }
}

/// The kernel for a product with many vectors.
#[verifier::allow_in_spec]
pub fn gemm_kernel(w: GpuMat) -> Kernel
    returns
        (match w.wtype {
            WType::Q4K => Kernel::GemmQ4,
            WType::Q5K => Kernel::GemmQ5k,
            WType::Q5_0 => Kernel::GemmQ5,
            WType::Q6K => Kernel::GemmQ6,
            _ => Kernel::GemmQ8,
        }),
{
    match w.wtype {
        WType::Q4K => Kernel::GemmQ4,
        WType::Q5K => Kernel::GemmQ5k,
        WType::Q5_0 => Kernel::GemmQ5,
        WType::Q6K => Kernel::GemmQ6,
        _ => Kernel::GemmQ8,
    }
}

/// Whether [`gemm`] has a kernel for the matrix, or an error.
pub open spec fn gemm_ok(card: Card, w: GpuMat, n_tok: usize) -> bool {
    if n_tok == 1 {
        gemv_ok(card, w)
    } else {
        w.plain()
    }
}

/// The product of a matrix with `n_tok` vectors.
pub open spec fn gemm_plan(card: Card, w: GpuMat, x: Buf, y: Buf, n_tok: usize) -> Result<Plan, PlanError> {
    if n_tok == 1 {
        Ok(
            gemv_plan(card, w, x, y, None, GemvResidual::Nothing),
        )
    } else if w.wtype == WType::Q4_0 {
        Err(PlanError::Q4ManyTokens)
    } else {
        Ok(
            one(
                gemm_kernel(w),
                seq![
                    Arg::Mat(w.id, Part::Data), Arg::Buf(x), Arg::Buf(y),
                    Arg::Int(to_i32(w.n_rows)), Arg::Int(to_i32(w.n_cols)),
                    Arg::Int(to_i32(w.col_bytes)), Arg::Int(to_i32(n_tok)),
                ],
                shape(to_u32(w.n_cols), 32),
            ),
        )
    }
}

/// The product of a matrix with `n_tok` vectors.
pub fn gemm(card: Card, w: GpuMat, x: Buf, y: Buf, n_tok: usize) -> (r: Result<Vec<Launch>, PlanError>)
    requires
        card.wf(),
        w.fits(),
        gemm_ok(card, w, n_tok),
    ensures
        result_plan(r) == gemm_plan(card, w, x, y, n_tok),
{
    if n_tok == 1 {
        Ok(
            gemv(card, w, x, y, None, GemvResidual::Nothing),
        )
    } else if w.wtype == WType::Q4_0 {
        Err(PlanError::Q4ManyTokens)
    } else {
        Ok(
            single(
                gemm_kernel(w),
                vec![
                    Arg::Mat(w.id, Part::Data), Arg::Buf(x), Arg::Buf(y),
                    Arg::Int(to_i32(w.n_rows)), Arg::Int(to_i32(w.n_cols)),
                    Arg::Int(to_i32(w.col_bytes)), Arg::Int(to_i32(n_tok)),
                ],
                shape(to_u32(w.n_cols), 32),
            ),
        )
    }
}

/// The embedding kernel for many tokens.
#[verifier::allow_in_spec]
pub fn embed_kernel(w: GpuMat) -> Kernel
    returns
        (match w.wtype {
            WType::Q4K => Kernel::EmbedQ4,
            WType::Q4_0 => Kernel::EmbedQ40,
            WType::Q5K => Kernel::EmbedQ5k,
            WType::Q5_0 => Kernel::EmbedQ5,
            WType::Q6K => Kernel::EmbedQ6,
            _ => Kernel::EmbedQ8,
        }),
{
    match w.wtype {
        WType::Q4K => Kernel::EmbedQ4,
        WType::Q4_0 => Kernel::EmbedQ40,
        WType::Q5K => Kernel::EmbedQ5k,
        WType::Q5_0 => Kernel::EmbedQ5,
        WType::Q6K => Kernel::EmbedQ6,
        _ => Kernel::EmbedQ8,
    }
}

/// The embedding kernel for one token.
#[verifier::allow_in_spec]
pub fn embed_one_kernel(w: GpuMat) -> Kernel
    returns
        (match w.wtype {
            WType::Q4K => Kernel::EmbedQ4One,
            WType::Q4_0 => Kernel::EmbedQ40One,
            WType::Q5K => Kernel::EmbedQ5kOne,
            WType::Q5_0 => Kernel::EmbedQ5One,
            WType::Q6K => Kernel::EmbedQ6One,
            _ => Kernel::EmbedQ8One,
        }),
{
    match w.wtype {
        WType::Q4K => Kernel::EmbedQ4One,
        WType::Q4_0 => Kernel::EmbedQ40One,
        WType::Q5K => Kernel::EmbedQ5kOne,
        WType::Q5_0 => Kernel::EmbedQ5One,
        WType::Q6K => Kernel::EmbedQ6One,
        _ => Kernel::EmbedQ8One,
    }
}

/// The embedding kernel for one token whose number is on the card.
#[verifier::allow_in_spec]
pub fn embed_one_d_kernel(w: GpuMat) -> Kernel
    returns
        (match w.wtype {
            WType::Q4K => Kernel::EmbedQ4OneD,
            WType::Q4_0 => Kernel::EmbedQ40OneD,
            WType::Q5K => Kernel::EmbedQ5kOneD,
            WType::Q5_0 => Kernel::EmbedQ5OneD,
            WType::Q6K => Kernel::EmbedQ6OneD,
            _ => Kernel::EmbedQ8OneD,
        }),
{
    match w.wtype {
        WType::Q4K => Kernel::EmbedQ4OneD,
        WType::Q4_0 => Kernel::EmbedQ40OneD,
        WType::Q5K => Kernel::EmbedQ5kOneD,
        WType::Q5_0 => Kernel::EmbedQ5OneD,
        WType::Q6K => Kernel::EmbedQ6OneD,
        _ => Kernel::EmbedQ8OneD,
    }
}

/// The embedding of one token.
pub open spec fn embed_one_plan(w: GpuMat, token: i32) -> Plan {
    one(
        embed_one_kernel(w),
        seq![
            Arg::Mat(w.id, Part::Data), Arg::Buf(Buf::X), Arg::Int(token),
            Arg::Int(to_i32(w.n_rows)), Arg::Int(to_i32(w.col_bytes)),
        ],
        shape(1, 32),
    )
}

/// The embedding of one token.
pub fn embed_one(w: GpuMat, token: i32) -> (r: Vec<Launch>)
    requires
        w.plain(),
    ensures
        plan_of(r@) == embed_one_plan(w, token),
{
    single(
        embed_one_kernel(w),
        vec![
            Arg::Mat(w.id, Part::Data), Arg::Buf(Buf::X), Arg::Int(token),
            Arg::Int(to_i32(w.n_rows)), Arg::Int(to_i32(w.col_bytes)),
        ],
        shape(1, 32),
    )
}

/// The embedding of the token whose number is on the card.
pub open spec fn embed_one_device_plan(w: GpuMat) -> Plan {
    one(
        embed_one_d_kernel(w),
        seq![
            Arg::Mat(w.id, Part::Data), Arg::Buf(Buf::X), Arg::Buf(Buf::DToken),
            Arg::Int(to_i32(w.n_rows)), Arg::Int(to_i32(w.col_bytes)),
        ],
        shape(1, 32),
    )
}

/// The embedding of the token whose number is on the card.
pub fn embed_one_device(w: GpuMat) -> (r: Vec<Launch>)
    requires
        w.plain(),
    ensures
        plan_of(r@) == embed_one_device_plan(w),
{
    single(
        embed_one_d_kernel(w),
        vec![
            Arg::Mat(w.id, Part::Data), Arg::Buf(Buf::X), Arg::Buf(Buf::DToken),
            Arg::Int(to_i32(w.n_rows)), Arg::Int(to_i32(w.col_bytes)),
        ],
        shape(1, 32),
    )
}

/// The embedding of the tokens whose numbers are in the token buffer.
pub open spec fn embed_many_plan(w: GpuMat, n_tok: usize) -> Plan {
    one(
        embed_kernel(w),
        seq![
            Arg::Mat(w.id, Part::Data), Arg::Buf(Buf::X), Arg::Buf(Buf::TokBuf),
            Arg::Int(to_i32(n_tok)), Arg::Int(to_i32(w.n_rows)), Arg::Int(to_i32(w.col_bytes)),
        ],
        shape(to_u32(n_tok), 32),
    )
}

/// The embedding of the tokens whose numbers are in the token buffer.
pub fn embed_many(w: GpuMat, n_tok: usize) -> (r: Vec<Launch>)
    requires
        w.plain(),
    ensures
        plan_of(r@) == embed_many_plan(w, n_tok),
{
    single(
        embed_kernel(w),
        vec![
            Arg::Mat(w.id, Part::Data), Arg::Buf(Buf::X), Arg::Buf(Buf::TokBuf),
            Arg::Int(to_i32(n_tok)), Arg::Int(to_i32(w.n_rows)), Arg::Int(to_i32(w.col_bytes)),
        ],
        shape(to_u32(n_tok), 32),
    )
}

/// Whether the product of a matrix with one vector has kernels.
pub fn has_gemv(card: Card, w: GpuMat) -> (r: bool)
    requires
        w.fits(),
    ensures
        r == gemv_ok(card, w),
{
    match w.wtype {
        WType::F16 => false,
        WType::Q4_0_BM => false,
        WType::Q4_0 => gemv_n_split(w.n_rows) <= 1 || w.n_cols > card.partial_stride,
        _ => true,
    }
}

/// Whether a projection has kernels.
pub fn has_project(card: Card, w: GpuMat) -> (r: bool)
    requires
        card.wf(),
        w.fits(),
    ensures
        r == project_ok(card, w),
{
    try_gemv_global_q8(card, w, Buf::X, Buf::X, None, GemvResidual::Nothing).done || has_gemv(
        card,
        w,
    )
}

/// Whether the product of a matrix with `n_tok` vectors has kernels.
pub fn has_gemm(card: Card, w: GpuMat, n_tok: usize) -> (r: bool)
    requires
        w.fits(),
    ensures
        r == gemm_ok(card, w, n_tok),
{
    if n_tok == 1 {
        has_gemv(card, w)
    } else {
        w.is_plain()
    }
}

/// The embedding of tokens: a single one, or those of the token buffer.
pub open spec fn embed_batch_plan(w: GpuMat, tokens: Seq<i32>) -> Plan {
    if tokens.len() == 1 {
        embed_one_plan(w, tokens[0])
    } else {
        embed_many_plan(w, tokens.len() as usize)
    }
}

/// The embedding of tokens.
pub fn embed_batch(w: GpuMat, tokens: &[i32]) -> (r: Vec<Launch>)
    requires
        w.plain(),
    ensures
        plan_of(r@) == embed_batch_plan(w, tokens@),
{
    if tokens.len() == 1 {
        embed_one(w, tokens[0])
    } else {
        embed_many(w, tokens.len())
    }
}

/// Whether the blocks of a launch reach so many columns: a column for each warp, or for
/// each block, or for each thread where parts are added up.
pub open spec fn reaches(l: LaunchView, n_cols: int) -> bool {
    match l.kernel {
        Kernel::GemvSplitkReduce => l.shape.grid_x * l.shape.block >= n_cols,
        Kernel::GemvQ6CompactGlobal4way
        | Kernel::GemvQ6CompactGlobal8way
        | Kernel::GemvQ4GlobalSplitk
        | Kernel::GemmQ4
        | Kernel::GemmQ5
        | Kernel::GemmQ5k
        | Kernel::GemmQ6
        | Kernel::GemmQ8 => l.shape.grid_x >= n_cols,
        Kernel::QuantizeQ8 => true,
        _ => l.shape.grid_x * (l.shape.block as int / 32) >= n_cols,
    }
}

/// Every launch of a product reaches every column, whatever way is taken.
pub proof fn law_columns_are_reached(
    card: Card,
    w: GpuMat,
    x: Buf,
    y: Buf,
    bias: Option<VecId>,
    residual: GemvResidual,
    n_tok: usize,
    i: int,
)
    requires
        w.fits(),
        card.wf(),
    ensures
        0 <= i < gemv_plan(card, w, x, y, bias, residual).len() ==> reaches(
            gemv_plan(card, w, x, y, bias, residual)[i],
            w.n_cols as int,
        ),
        0 <= i < try_gemv_global_q8_plan(card, w, x, y, bias, residual).plan.len() ==> reaches(
            try_gemv_global_q8_plan(card, w, x, y, bias, residual).plan[i],
            w.n_cols as int,
        ),
        n_tok != 1 ==> (gemm_plan(card, w, x, y, n_tok) matches Ok(p) ==> 0 <= i < p.len()
            ==> reaches(p[i], w.n_cols as int)),
{
    let n = w.n_cols as u32;
    let warps = card.tuning.gemv_quantized_warps;
    assert(n == w.n_cols);
    crate::cuda::launch::law_blocks_cover(n, 32);
    crate::cuda::launch::law_blocks_cover(n, 8);
    crate::cuda::launch::law_blocks_cover(n, 256);
    crate::cuda::launch::law_blocks_cover(n, warps);
    assert((warps * 32) as int / 32 == warps);
}

} // verus!
