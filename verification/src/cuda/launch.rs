//! Launches as data: a kernel, its arguments, and its geometry.
use crate::cuda::device::Kernel;
use crate::gguf::types::div_ceil;
use vstd::prelude::*;

verus! {

/// A matrix of the weights; those of a layer are those of the layer that is
/// planned.
#[derive(Debug, Clone, Copy, PartialEq, Eq, Structural)]
pub enum MatId {
    TokenEmbd,
    Output,
    OutputSpecial,
    Wq,
    Wk,
    Wv,
    Wo,
    Wqkv,
    WGate,
    SsmAlpha,
    SsmBeta,
    SsmOut,
    Gate,
    Up,
    Down,
    GateAll,
    UpAll,
    DownAll,
}

/// A copy of a matrix: as it was read, repacked for decoding, or compact.
#[derive(Debug, Clone, Copy, PartialEq, Eq, Structural)]
pub enum Part {
    Data,
    Decode,
    Compact,
}

/// A vector of the weights.
#[derive(Debug, Clone, Copy, PartialEq, Eq, Structural)]
pub enum VecId {
    AttnNorm,
    FfnNorm,
    OutputNorm,
    Bq,
    Bk,
    Bv,
    QNorm,
    KNorm,
    Conv1d,
    SsmA,
    SsmDt,
    SsmNorm,
    Router,
}

/// A buffer on the card; the caches are those of the layer that is planned.
#[derive(Debug, Clone, Copy, PartialEq, Eq, Hash, Structural)]
pub enum Buf {
    X,
    Xb,
    Xb2,
    Q,
    KBuf,
    VBuf,
    Hb,
    Hb2,
    X1,
    Xb1,
    Logits,
    SpecialLogit,
    LogitsBatch,
    ArgmaxBuf,
    ArgmaxBatch,
    TokBuf,
    Q8X,
    Q8D,
    Q8Ff,
    Q8FfD,
    GemvPartial,
    DPos0,
    DToken,
    FlashPartial,
    GateBuf,
    GdnQ,
    GdnK,
    GdnV,
    GdnZ,
    GdnAlpha,
    GdnBeta,
    GdnConv,
    GdnOut,
    MoeIdx,
    MoeW,
    CacheK,
    CacheV,
    CacheSsm,
    CacheConv,
}

/// An argument of a kernel.
#[derive(Debug, Clone, Copy, PartialEq, Eq, Structural)]
pub enum Arg {
    Buf(Buf),
    Mat(MatId, Part),
    Vector(VecId),
    Int(i32),
    /// The epsilon of the normalisation.
    Eps,
    /// The base of the rotary embedding.
    Theta,
    /// The scale of the attention scores.
    Scale,
}

/// How many blocks of how many threads, and the bytes of shared memory.
#[derive(Debug, Clone, Copy, PartialEq, Eq, Structural)]
pub struct Shape {
    pub grid_x: u32,
    pub grid_y: u32,
    pub block: u32,
    pub smem: u32,
}

/// One launch.
#[derive(Debug)]
pub struct Launch {
    pub kernel: Kernel,
    pub args: Vec<Arg>,
    pub shape: Shape,
}

/// One launch as a mathematical value.
#[verifier::ext_equal]
pub struct LaunchView {
    pub kernel: Kernel,
    pub args: Seq<Arg>,
    pub shape: Shape,
}

impl View for Launch {
    type V = LaunchView;

    open spec fn view(&self) -> LaunchView {
        LaunchView { kernel: self.kernel, args: self.args@, shape: self.shape }
    }
}

/// Launches, one after the other.
pub type Plan = Seq<LaunchView>;

/// Launches as mathematical values.
pub open spec fn plan_of(launches: Seq<Launch>) -> Plan {
    launches.map_values(|l: Launch| l@)
}

/// One launch as a plan.
pub open spec fn one(kernel: Kernel, args: Seq<Arg>, shape: Shape) -> Plan {
    seq![LaunchView { kernel, args, shape }]
}

/// A plan of one launch.
pub fn single(kernel: Kernel, args: Vec<Arg>, shape: Shape) -> (r: Vec<Launch>)
    ensures
        plan_of(r@) == one(kernel, args@, shape),
{
    let mut out: Vec<Launch> = Vec::new();
    out.push(Launch { kernel, args, shape });
    proof {
        assert(plan_of(out@) =~= one(kernel, args@, shape));
    }
    out
}

/// Adds the launches of `more` behind those of `plan`.
pub fn extend(plan: &mut Vec<Launch>, more: Vec<Launch>)
    ensures
        plan_of(final(plan)@) == plan_of(old(plan)@) + plan_of(more@),
{
    let ghost before: Seq<Launch> = plan@;
    let ghost added: Seq<Launch> = more@;
    let mut rest: Vec<Launch> = more;
    plan.append(&mut rest);
    proof {
        assert(plan_of(before + added) =~= plan_of(before) + plan_of(added));
    }
}

/// Quotient rounded up.
pub open spec fn spec_ceil_div(n: u32, by: u32) -> u32 {
    div_ceil(n as nat, by as nat) as u32
}

/// Quotient rounded up.
#[verifier::when_used_as_spec(spec_ceil_div)]
pub fn ceil_div(n: u32, by: u32) -> (r: u32)
    requires
        by > 0,
    ensures
        r == ceil_div(n, by),
{
    let q: u32 = n / by;
    proof {
        vstd::arithmetic::div_mod::lemma_fundamental_div_mod(n as int, by as int);
        if n % by != 0 {
            assert(q < u32::MAX) by {
                if by == 1 {
                    assert(n as int % 1 == 0);
                } else {
                    assert(q <= n / 2) by {
                        vstd::arithmetic::div_mod::lemma_div_is_ordered_by_denominator(
                            n as int,
                            2,
                            by as int,
                        );
                    }
                }
            }
        }
    }
    if n % by == 0 {
        q
    } else {
        q + 1
    }
}

/// Enough blocks of `per_block` columns for `n_cols` columns.
pub proof fn law_blocks_cover(n_cols: u32, per_block: u32)
    requires
        per_block > 0,
    ensures
        n_cols <= spec_ceil_div(n_cols, per_block) * per_block,
        spec_ceil_div(n_cols, per_block) * per_block < n_cols + per_block,
{
    let n = n_cols as int;
    let p = per_block as int;
    vstd::arithmetic::div_mod::lemma_fundamental_div_mod(n, p);
    let q = n / p;
    assert((q + 1) * p == p * q + p) by (nonlinear_arith);
    assert(q * p == p * q) by (nonlinear_arith);
    assert(q <= n) by {
        vstd::arithmetic::div_mod::lemma_div_nonincreasing(n, p);
    }
    if n % p != 0 {
        assert(q < u32::MAX) by {
            if p == 1 {
                assert(n % 1 == 0);
            } else {
                vstd::arithmetic::div_mod::lemma_div_is_ordered_by_denominator(n, 2, p);
            }
        }
    }
}

/// A geometry of `grid` blocks of `block` threads.
pub open spec fn spec_shape(grid: u32, block: u32) -> Shape {
    Shape { grid_x: grid, grid_y: 1, block, smem: 0 }
}

/// A geometry of `grid` blocks of `block` threads.
#[verifier::when_used_as_spec(spec_shape)]
pub fn shape(grid: u32, block: u32) -> (r: Shape)
    ensures
        r == shape(grid, block),
{
    Shape { grid_x: grid, grid_y: 1, block, smem: 0 }
}

/// A geometry of `x` by `y` blocks of `block` threads.
pub open spec fn spec_shape2(x: u32, y: u32, block: u32) -> Shape {
    Shape { grid_x: x, grid_y: y, block, smem: 0 }
}

/// A geometry of `x` by `y` blocks of `block` threads.
#[verifier::when_used_as_spec(spec_shape2)]
pub fn shape2(x: u32, y: u32, block: u32) -> (r: Shape)
    ensures
        r == shape2(x, y, block),
{
    Shape { grid_x: x, grid_y: y, block, smem: 0 }
}

/// A thread for each of `n` elements, in blocks of 1024.
pub open spec fn spec_elems(n: u32) -> Shape {
    spec_shape(spec_ceil_div(n, 1024), 1024)
}

/// A thread for each of `n` elements, in blocks of 1024.
#[verifier::when_used_as_spec(spec_elems)]
pub fn elems(n: u32) -> (r: Shape)
    ensures
        r == elems(n),
{
    shape(ceil_div(n, 1024), 1024)
}

/// The low 32 bits of a product.
pub open spec fn spec_area(a: usize, b: usize) -> u32 {
    (a * b) as u32
}

/// The low 32 bits of a product.
#[verifier::when_used_as_spec(spec_area)]
pub fn area(a: usize, b: usize) -> (r: u32)
    requires
        a * b <= u64::MAX,
    ensures
        r == area(a, b),
{
    let p: u64 = a as u64 * b as u64;
    #[verifier::truncate]
    (p as u32)
}

/// The low 32 bits of a product, as a signed number.
pub open spec fn spec_signed_area(a: usize, b: usize) -> i32 {
    (a * b) as i32
}

/// The low 32 bits of a product, as a signed number.
#[verifier::when_used_as_spec(spec_signed_area)]
pub fn signed_area(a: usize, b: usize) -> (r: i32)
    requires
        a * b <= u64::MAX,
    ensures
        r == signed_area(a, b),
{
    let p: u64 = a as u64 * b as u64;
    #[verifier::truncate]
    (p as i32)
}

/// A number as a signed one of 32 bits.
pub open spec fn spec_to_i32(n: usize) -> i32 {
    n as i32
}

/// A number as a signed one of 32 bits.
#[verifier::when_used_as_spec(spec_to_i32)]
pub fn to_i32(n: usize) -> (r: i32)
    ensures
        r == to_i32(n),
{
    #[verifier::truncate]
    (n as i32)
}

/// A number as one of 32 bits.
pub open spec fn spec_to_u32(n: usize) -> u32 {
    n as u32
}

/// A number as one of 32 bits.
#[verifier::when_used_as_spec(spec_to_u32)]
pub fn to_u32(n: usize) -> (r: u32)
    ensures
        r == to_u32(n),
{
    #[verifier::truncate]
    (n as u32)
}

/// The larger of two numbers.
pub open spec fn spec_larger(a: usize, b: usize) -> usize {
    if a >= b {
        a
    } else {
        b
    }
}

/// The larger of two numbers.
#[verifier::when_used_as_spec(spec_larger)]
pub fn larger(a: usize, b: usize) -> (r: usize)
    ensures
        r == larger(a, b),
{
    if a >= b {
        a
    } else {
        b
    }
}

} // verus!
