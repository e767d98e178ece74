//! One transformer layer and the output head: which kernels run, over which
//! buffers.
use crate::cuda::decode::{
    find_by_name, registry, AttnLaunch, DecodeBackend, DecodeSpec, LaunchView as PathView, SmemRule,
    SpecView,
};
use crate::cuda::device::{attn, attn_named, Kernel};
use crate::cuda::launch::{
    area, ceil_div, elems, extend, one, plan_of, shape, shape2, signed_area, single, to_i32, to_u32,
    Arg, Buf, Launch, LaunchView, MatId, Part, Plan, Shape, VecId,
};
use crate::cuda::matmul::{
    flag, gemm, gemm_ok, gemm_plan, gemv, gemv_ok, gemv_plan, has_gemm, has_gemv, has_project,
    launch_gemv_q4_0_qkv, launch_gemv_q4_0_qkv_plan, project, project_ok, project_plan, quantize_q8, quantize_q8_plan,
    result_plan, try_gemv_gdn_4way, try_gemv_gdn_4way_plan, try_gemv_global_q8_plan,
    try_gemv_pair, try_gemv_pair_plan,
    try_gemv_q4_dual, try_gemv_q4_dual_plan, try_gemv_q4_ffn, try_gemv_q4_ffn_plan, try_gemv_qkv,
    try_gemv_qkv_plan, Card, GemvResidual, GpuMat, PlanError, WType, MAX_SIDE,
};
use crate::text::{
    chars_of, has_prefix, parse_number, parsed_number, skip_chars, split_chars, split_on,
};
use vstd::prelude::*;

verus! {

/// The weights of softmax attention.
#[derive(Clone, Copy, PartialEq, Eq, Debug, Structural)]
pub struct FullAttnWeights {
    pub wq: GpuMat,
    /// Whether the query projection has a bias; the same for the others.
    pub bq: bool,
    pub wk: GpuMat,
    pub bk: bool,
    pub wv: GpuMat,
    pub bv: bool,
    pub wo: GpuMat,
    pub attn_q_norm: bool,
    pub attn_k_norm: bool,
    /// Whether the query projection also holds an output gate.
    pub fused_q_gate: bool,
}

/// The weights of Gated DeltaNet linear attention.
#[derive(Clone, Copy, PartialEq, Eq, Debug, Structural)]
pub struct LinearAttnWeights {
    pub wqkv: GpuMat,
    pub w_gate: GpuMat,
    pub conv_kernel: usize,
    pub conv_channels: usize,
    pub ssm_alpha: GpuMat,
    pub ssm_beta: GpuMat,
    pub ssm_out: GpuMat,
    pub n_k_heads: usize,
    pub n_v_heads: usize,
    pub state_size: usize,
}

/// What a layer mixes tokens with.
#[derive(Clone, Copy, PartialEq, Eq, Debug, Structural)]
pub enum LayerAttn {
    Full(FullAttnWeights),
    Linear(LinearAttnWeights),
}

/// The weights of a sparse feed-forward layer: those of all experts, one
/// expert after the other.
#[derive(Clone, Copy, PartialEq, Eq, Debug, Structural)]
pub struct MoeFfnWeights {
    pub n_experts: usize,
    pub top_k: usize,
    pub expert_ff: usize,
    pub gate_all: GpuMat,
    pub up_all: GpuMat,
    pub down_all: GpuMat,
}

/// A feed-forward layer.
#[derive(Clone, Copy, PartialEq, Eq, Debug, Structural)]
pub enum LayerFfn {
    Dense { gate: GpuMat, up: GpuMat, down: GpuMat },
    Moe(MoeFfnWeights),
}

/// A layer.
#[derive(Clone, Copy, PartialEq, Eq, Debug, Structural)]
pub struct GpuLayer {
    pub attn: LayerAttn,
    pub ffn: LayerFfn,
}

/// Switches that change what is launched.
#[derive(Clone, Copy, PartialEq, Eq, Debug, Structural)]
pub struct Flags {
    /// Leave every layer out.
    pub identity: bool,
    /// Leave the linear layers out.
    pub skip_linear: bool,
    pub no_out_gate: bool,
    /// Gating values are the second half, not interleaved.
    pub q_gate_half: bool,
    pub no_rope: bool,
    pub full_rope: bool,
    pub gdn_legacy: bool,
    pub gdn_no_4way: bool,
    pub moe_4w: bool,
    pub moe_2w: bool,
    pub moe_gate_q8: bool,
    pub moe_classic: bool,
    /// The experts that are asked for: set, and what it says where that is a
    /// number.
    pub moe_topk: Option<Option<usize>>,
    pub speed: bool,
    pub gemv_warps: Option<u32>,
}

/// What the layers of a model have in common.
#[derive(Clone, Copy, PartialEq, Eq, Debug, Structural)]
pub struct RopeConfig {
    /// Every layer of this interval has no rotary embedding; zero for none.
    pub no_rope_layer_interval: usize,
    pub rope_dim: usize,
}

/// The sizes of one chunk of tokens.
#[derive(Clone, Copy, PartialEq, Eq, Debug, Structural)]
pub struct ChunkDims {
    pub n_tok: usize,
    pub n_embd: usize,
    pub n_ff: usize,
    pub n_head: usize,
    pub n_kv_heads: usize,
    pub head_dim: usize,
    /// The position of the first token.
    pub pos0: usize,
    /// Whether the position is read on the card.
    pub use_device_pos: bool,
}

impl ChunkDims {
    /// The sizes are no larger than the kernels can count.
    pub open spec fn fits(self) -> bool {
        &&& 1 <= self.n_tok
        &&& self.pos0 + self.n_tok <= MAX_SIDE
        &&& self.n_embd <= MAX_SIDE
        &&& self.n_ff <= MAX_SIDE
        &&& self.n_head <= MAX_SIDE
        &&& self.n_kv_heads <= MAX_SIDE
        &&& self.head_dim <= MAX_SIDE
        &&& self.n_head * self.head_dim <= MAX_SIDE
        &&& self.n_kv_heads * self.head_dim <= MAX_SIDE
    }

    /// The width of the queries of a token.
    #[verifier::allow_in_spec]
    pub fn q_width(self) -> usize
        requires
            self.fits(),
        returns
            (self.n_head * self.head_dim) as usize,
    {
        self.n_head * self.head_dim
    }

    /// The width of the keys, and of the values, of a token.
    #[verifier::allow_in_spec]
    pub fn stride(self) -> usize
        requires
            self.fits(),
        returns
            (self.n_kv_heads * self.head_dim) as usize,
    {
        self.n_kv_heads * self.head_dim
    }

    /// The positions up to and with this chunk.
    #[verifier::allow_in_spec]
    pub fn seq_len(self) -> usize
        requires
            self.fits(),
        returns
            (self.pos0 + self.n_tok) as usize,
    {
        self.pos0 + self.n_tok
    }
}

/// A product of two sides fits into 64 bits.
proof fn lemma_sides(a: usize, b: usize)
    requires
        a <= MAX_SIDE,
        b <= MAX_SIDE,
    ensures
        a * b <= u64::MAX,
{
    assert(a * b <= 0x1fff_ffff * 0x1fff_ffff) by (nonlinear_arith)
        requires
            a <= 0x1fff_ffff,
            b <= 0x1fff_ffff,
    ;
}

/// The first error of two plans, or both plans one after the other.
pub open spec fn join_plan(
    a: Result<Plan, PlanError>,
    b: Result<Plan, PlanError>,
) -> Result<Plan, PlanError> {
    match a {
        Err(e) => Err(e),
        Ok(x) => match b {
            Err(e) => Err(e),
            Ok(y) => Ok(x + y),
        },
    }
}

/// The first error of two plans, or both plans one after the other.
pub fn join(a: Result<Vec<Launch>, PlanError>, b: Result<Vec<Launch>, PlanError>) -> (r: Result<
    Vec<Launch>,
    PlanError,
>)
    ensures
        result_plan(r) == join_plan(result_plan(a), result_plan(b)),
{
    match a {
        Err(e) => Err(e),
        Ok(x) => match b {
            Err(e) => Err(e),
            Ok(y) => {
                let mut out: Vec<Launch> = x;
                extend(&mut out, y);
                Ok(out)
            },
        },
    }
}

/// A plan without launches.
pub fn nothing() -> (r: Vec<Launch>)
    ensures
        plan_of(r@) == Seq::<LaunchView>::empty(),
{
    let out: Vec<Launch> = Vec::new();
    proof {
        assert(plan_of(out@) =~= Seq::<LaunchView>::empty());
    }
    out
}

/// The bias `v` where there is one.
#[verifier::allow_in_spec]
pub fn bias_of(has: bool, v: VecId) -> Option<VecId>
    returns
        (if has {
            Some(v)
        } else {
            None
        }),
{
    if has {
        Some(v)
    } else {
        None
    }
}

/// The first position: on the card, or as a number.
#[verifier::allow_in_spec]
pub fn pos_arg(d: ChunkDims) -> Arg
    returns
        (if d.use_device_pos {
            Arg::Buf(Buf::DPos0)
        } else {
            Arg::Int(to_i32(d.pos0))
        }),
{
    if d.use_device_pos {
        Arg::Buf(Buf::DPos0)
    } else {
        Arg::Int(to_i32(d.pos0))
    }
}

/// Normalises each of `n_tok` vectors.
pub open spec fn rms_norm_plan(x: Buf, weight: VecId, y: Buf, n_embd: usize, n_tok: usize) -> Plan {
    one(
        Kernel::RmsNorm,
        seq![
            Arg::Buf(x), Arg::Vector(weight), Arg::Buf(y), Arg::Int(to_i32(n_embd)),
            Arg::Int(to_i32(n_tok)), Arg::Eps,
        ],
        shape(to_u32(n_tok), 256),
    )
}

/// Normalises each of `n_tok` vectors.
pub fn rms_norm(x: Buf, weight: VecId, y: Buf, n_embd: usize, n_tok: usize) -> (r: Vec<Launch>)
    ensures
        plan_of(r@) == rms_norm_plan(x, weight, y, n_embd, n_tok),
{
    single(
        Kernel::RmsNorm,
        vec![
            Arg::Buf(x), Arg::Vector(weight), Arg::Buf(y), Arg::Int(to_i32(n_embd)),
            Arg::Int(to_i32(n_tok)), Arg::Eps,
        ],
        shape(to_u32(n_tok), 256),
    )
}

/// Adds a bias, where there is one, to each of `n_tok` vectors.
pub open spec fn add_bias_plan(x: Buf, bias: Option<VecId>, width: usize, n_tok: usize) -> Plan {
    match bias {
        Some(v) => one(
            Kernel::AddBias,
            seq![Arg::Buf(x), Arg::Vector(v), Arg::Int(to_i32(width)), Arg::Int(to_i32(n_tok))],
            elems(area(width, n_tok)),
        ),
        None => Seq::<LaunchView>::empty(),
    }
}

/// Adds a bias, where there is one, to each of `n_tok` vectors.
pub fn add_bias(x: Buf, bias: Option<VecId>, width: usize, n_tok: usize) -> (r: Vec<Launch>)
    requires
        width <= MAX_SIDE,
        n_tok <= MAX_SIDE,
    ensures
        plan_of(r@) == add_bias_plan(x, bias, width, n_tok),
{
    proof {
        lemma_sides(width, n_tok);
    }
    match bias {
        Some(v) => single(
            Kernel::AddBias,
            vec![Arg::Buf(x), Arg::Vector(v), Arg::Int(to_i32(width)), Arg::Int(to_i32(n_tok))],
            elems(area(width, n_tok)),
        ),
        None => nothing(),
    }
}

/// Adds the output of a block to the stream.
pub open spec fn add_residual_plan(d: ChunkDims) -> Plan {
    one(
        Kernel::Add,
        seq![Arg::Buf(Buf::X), Arg::Buf(Buf::Xb2), Arg::Int(signed_area(d.n_embd, d.n_tok))],
        elems(area(d.n_embd, d.n_tok)),
    )
}

/// Adds the output of a block to the stream.
pub fn add_residual(d: ChunkDims) -> (r: Vec<Launch>)
    requires
        d.fits(),
    ensures
        plan_of(r@) == add_residual_plan(d),
{
    proof {
        lemma_sides(d.n_embd, d.n_tok);
    }
    single(
        Kernel::Add,
        vec![Arg::Buf(Buf::X), Arg::Buf(Buf::Xb2), Arg::Int(signed_area(d.n_embd, d.n_tok))],
        elems(area(d.n_embd, d.n_tok)),
    )
}

impl FullAttnWeights {
    /// The matrices are no larger than the kernels can count.
    pub open spec fn fits(self) -> bool {
        self.wq.fits() && self.wk.fits() && self.wv.fits() && self.wo.fits()
    }
}

/// Whether all three projections are Q4_0.
#[verifier::allow_in_spec]
pub fn all_q4_0(full: FullAttnWeights) -> bool
    returns
        full.wq.wtype == WType::Q4_0 && full.wk.wtype == WType::Q4_0 && full.wv.wtype == WType::Q4_0,
{
    full.wq.wtype == WType::Q4_0 && full.wk.wtype == WType::Q4_0 && full.wv.wtype == WType::Q4_0
}

/// Whether the projections of one token have kernels.
pub open spec fn qkv_one_ok(card: Card, full: FullAttnWeights) -> bool {
    ||| all_q4_0(full)
    ||| qkv_fused_plan(card, full) is Some
    ||| qk_pair_plan(card, full) is Some && gemv_ok(card, full.wv)
    ||| gemv_ok(card, full.wq) && gemv_ok(card, full.wk) && gemv_ok(card, full.wv)
}

/// All three projections by one kernel.
pub open spec fn qkv_fused_plan(card: Card, full: FullAttnWeights) -> Option<Plan> {
    try_gemv_qkv_plan(
        card, full.wq, full.wk, full.wv, Buf::Xb, Buf::Q, Buf::KBuf, Buf::VBuf,
        bias_of(full.bq, VecId::Bq), bias_of(full.bk, VecId::Bk), bias_of(full.bv, VecId::Bv),
    )
}

/// All three projections by one kernel.
pub fn qkv_fused(card: Card, full: FullAttnWeights) -> (r: Option<Vec<Launch>>)
    requires
        card.wf(),
        full.fits(),
    ensures
        crate::cuda::matmul::option_plan(r) == qkv_fused_plan(card, full),
{
    try_gemv_qkv(
        card, full.wq, full.wk, full.wv, Buf::Xb, Buf::Q, Buf::KBuf, Buf::VBuf,
        bias_of(full.bq, VecId::Bq), bias_of(full.bk, VecId::Bk), bias_of(full.bv, VecId::Bv),
    )
}

/// The query and key projections by one kernel.
pub open spec fn qk_pair_plan(card: Card, full: FullAttnWeights) -> Option<Plan> {
    try_gemv_pair_plan(
        card, full.wq, full.wk, Buf::Xb, Buf::Q, Buf::KBuf, bias_of(full.bq, VecId::Bq),
        bias_of(full.bk, VecId::Bk),
    )
}

/// The query and key projections by one kernel.
pub fn qk_pair(card: Card, full: FullAttnWeights) -> (r: Option<Vec<Launch>>)
    requires
        card.wf(),
        full.fits(),
    ensures
        crate::cuda::matmul::option_plan(r) == qk_pair_plan(card, full),
{
    try_gemv_pair(
        card, full.wq, full.wk, Buf::Xb, Buf::Q, Buf::KBuf, bias_of(full.bq, VecId::Bq),
        bias_of(full.bk, VecId::Bk),
    )
}

/// The projections of one token: with as few kernels as there are.
pub open spec fn qkv_one_plan(card: Card, full: FullAttnWeights) -> Plan {
    if all_q4_0(full) {
        launch_gemv_q4_0_qkv_plan(
            card, full.wq, full.wk, full.wv, Buf::Q, Buf::KBuf, Buf::VBuf,
            bias_of(full.bq, VecId::Bq), bias_of(full.bk, VecId::Bk), bias_of(full.bv, VecId::Bv),
            Buf::Xb,
        )
    } else {
        match qkv_fused_plan(card, full) {
            Some(p) => p,
            None => match qk_pair_plan(card, full) {
                Some(p) => p + gemv_plan(
                    card, full.wv, Buf::Xb, Buf::VBuf, bias_of(full.bv, VecId::Bv), GemvResidual::Nothing,
                ),
                None => qkv_apart_plan(card, full),
            },
        }
    }
}

/// The projections of one token: with as few kernels as there are.
pub fn qkv_one(card: Card, full: FullAttnWeights) -> (r: Vec<Launch>)
    requires
        card.wf(),
        full.fits(),
        qkv_one_ok(card, full),
    ensures
        plan_of(r@) == qkv_one_plan(card, full),
{
    if all_q4_0(full) {
        launch_gemv_q4_0_qkv(
            card, full.wq, full.wk, full.wv, Buf::Q, Buf::KBuf, Buf::VBuf,
            bias_of(full.bq, VecId::Bq), bias_of(full.bk, VecId::Bk), bias_of(full.bv, VecId::Bv),
            Buf::Xb,
        )
    } else {
        match qkv_fused(card, full) {
            Some(p) => p,
            None => match qk_pair(card, full) {
                Some(p) => {
                    let mut out: Vec<Launch> = p;
                    extend(
                        &mut out,
                        gemv(
                            card, full.wv, Buf::Xb, Buf::VBuf, bias_of(full.bv, VecId::Bv),
                            GemvResidual::Nothing,
                        ),
                    );
                    out
                },
                None => qkv_apart(card, full),
            },
        }
    }
}

/// The three projections of one token, each by itself.
pub open spec fn qkv_apart_plan(card: Card, full: FullAttnWeights) -> Plan {
    gemv_plan(
        card, full.wq, Buf::Xb, Buf::Q, bias_of(full.bq, VecId::Bq), GemvResidual::Nothing,
    )
    + gemv_plan(
        card, full.wk, Buf::Xb, Buf::KBuf, bias_of(full.bk, VecId::Bk), GemvResidual::Nothing,
    )
    + gemv_plan(
        card, full.wv, Buf::Xb, Buf::VBuf, bias_of(full.bv, VecId::Bv), GemvResidual::Nothing,
    )
}

/// The three projections of one token, each by itself.
pub fn qkv_apart(card: Card, full: FullAttnWeights) -> (r: Vec<Launch>)
    requires
        card.wf(),
        full.fits(),
        gemv_ok(card, full.wq),
        gemv_ok(card, full.wk),
        gemv_ok(card, full.wv),
    ensures
        plan_of(r@) == qkv_apart_plan(card, full),
{
    {
        let mut out: Vec<Launch> = gemv(card, full.wq, Buf::Xb, Buf::Q, bias_of(full.bq, VecId::Bq), GemvResidual::Nothing);
        extend(&mut out, gemv(
            card, full.wk, Buf::Xb, Buf::KBuf, bias_of(full.bk, VecId::Bk), GemvResidual::Nothing,
        ));
        extend(&mut out, gemv(
            card, full.wv, Buf::Xb, Buf::VBuf, bias_of(full.bv, VecId::Bv), GemvResidual::Nothing,
        ));
        out
    }
}

/// The projections of many tokens.
pub open spec fn qkv_many_plan(card: Card, d: ChunkDims, full: FullAttnWeights) -> Result<Plan, PlanError> {
    join_plan(
        join_plan(
            join_plan(
                join_plan(
                    join_plan(
                        gemm_plan(card, full.wq, Buf::Xb, Buf::Q, d.n_tok),
                        Ok(add_bias_plan(Buf::Q, bias_of(full.bq, VecId::Bq), full.wq.n_cols, d.n_tok)),
                    ),
                    gemm_plan(card, full.wk, Buf::Xb, Buf::KBuf, d.n_tok),
                ),
                Ok(add_bias_plan(Buf::KBuf, bias_of(full.bk, VecId::Bk), d.stride(), d.n_tok)),
            ),
            gemm_plan(card, full.wv, Buf::Xb, Buf::VBuf, d.n_tok),
        ),
        Ok(add_bias_plan(Buf::VBuf, bias_of(full.bv, VecId::Bv), d.stride(), d.n_tok)),
    )
}

/// The projections of many tokens.
pub fn qkv_many(card: Card, d: ChunkDims, full: FullAttnWeights) -> (r: Result<Vec<Launch>, PlanError>)
    requires
        card.wf(),
        full.fits(),
        d.fits(),
        gemm_ok(card, full.wq, d.n_tok),
        gemm_ok(card, full.wk, d.n_tok),
        gemm_ok(card, full.wv, d.n_tok),
    ensures
        result_plan(r) == qkv_many_plan(card, d, full),
{
    join(
        join(
            join(
                join(
                    join(
                        gemm(card, full.wq, Buf::Xb, Buf::Q, d.n_tok),
                        Ok(add_bias(Buf::Q, bias_of(full.bq, VecId::Bq), full.wq.n_cols, d.n_tok)),
                    ),
                    gemm(card, full.wk, Buf::Xb, Buf::KBuf, d.n_tok),
                ),
                Ok(add_bias(Buf::KBuf, bias_of(full.bk, VecId::Bk), d.stride(), d.n_tok)),
            ),
            gemm(card, full.wv, Buf::Xb, Buf::VBuf, d.n_tok),
        ),
        Ok(add_bias(Buf::VBuf, bias_of(full.bv, VecId::Bv), d.stride(), d.n_tok)),
    )
}

/// Parts the queries from their gates.
pub open spec fn split_gate_plan(d: ChunkDims, flags: Flags) -> Plan {
    one(
        Kernel::SplitQGate,
        seq![
            Arg::Buf(Buf::Q), Arg::Buf(Buf::GdnOut), Arg::Buf(Buf::GateBuf),
            Arg::Int(to_i32(d.n_head)), Arg::Int(to_i32(d.head_dim)), Arg::Int(to_i32(d.n_tok)),
            Arg::Int(flag(flags.q_gate_half)),
        ],
        shape2(to_u32(d.n_head), to_u32(d.n_tok), 128),
    )
    + one(
        Kernel::CopyF32,
        seq![
            Arg::Buf(Buf::GdnOut), Arg::Buf(Buf::Q), Arg::Int(signed_area(d.q_width(), d.n_tok)),
        ],
        elems(area(d.q_width(), d.n_tok)),
    )
}

/// Parts the queries from their gates.
pub fn split_gate(d: ChunkDims, flags: Flags) -> (r: Vec<Launch>)
    requires
        d.fits(),
    ensures
        plan_of(r@) == split_gate_plan(d, flags),
{
    proof {
        lemma_sides(d.q_width(), d.n_tok);
    }
    {
        let mut out: Vec<Launch> = single(
            Kernel::SplitQGate,
            vec![
                Arg::Buf(Buf::Q), Arg::Buf(Buf::GdnOut), Arg::Buf(Buf::GateBuf),
                Arg::Int(to_i32(d.n_head)), Arg::Int(to_i32(d.head_dim)),
                Arg::Int(to_i32(d.n_tok)), Arg::Int(flag(flags.q_gate_half)),
            ],
            shape2(to_u32(d.n_head), to_u32(d.n_tok), 128),
        );
        extend(&mut out, single(
            Kernel::CopyF32,
            vec![
                Arg::Buf(Buf::GdnOut), Arg::Buf(Buf::Q),
                Arg::Int(signed_area(d.q_width(), d.n_tok)),
            ],
            elems(area(d.q_width(), d.n_tok)),
        ));
        out
    }
}

/// Whether the layer has a rotary embedding.
#[verifier::allow_in_spec]
pub fn uses_rope(rope: RopeConfig, li: usize, flags: Flags) -> bool
    requires
        li < MAX_SIDE,
    returns
        (rope.no_rope_layer_interval == 0 || (li + 1) % rope.no_rope_layer_interval as int != 0)
            && !flags.no_rope,
{
    (rope.no_rope_layer_interval == 0 || (li + 1) % rope.no_rope_layer_interval != 0) && !flags.no_rope
}

/// Whether only a part of each head is rotated.
#[verifier::allow_in_spec]
pub fn partial_rope(rope: RopeConfig, d: ChunkDims, flags: Flags) -> bool
    returns
        !flags.full_rope && rope.rope_dim > 0 && rope.rope_dim < d.head_dim,
{
    !flags.full_rope && rope.rope_dim > 0 && rope.rope_dim < d.head_dim
}

/// Rotated dimensions of each head.
#[verifier::allow_in_spec]
pub fn rotated(rope: RopeConfig, d: ChunkDims, li: usize, flags: Flags) -> usize
    requires
        li < MAX_SIDE,
    returns
        (if !uses_rope(rope, li, flags) {
            0usize
        } else if partial_rope(rope, d, flags) {
            rope.rope_dim
        } else {
            d.head_dim
        }),
{
    if !uses_rope(rope, li, flags) {
        0
    } else if partial_rope(rope, d, flags) {
        rope.rope_dim
    } else {
        d.head_dim
    }
}

/// The kernel that normalises and rotates heads, whole or in part.
#[verifier::allow_in_spec]
pub fn norm_kernel(d: ChunkDims, whole: bool) -> Kernel
    returns
        (if whole {
            if d.use_device_pos {
                Kernel::QkNormRopeD
            } else {
                Kernel::QkNormRope
            }
        } else if d.use_device_pos {
            Kernel::QkNormPartialRopeD
        } else {
            Kernel::QkNormPartialRope
        }),
{
    if whole {
        if d.use_device_pos {
            Kernel::QkNormRopeD
        } else {
            Kernel::QkNormRope
        }
    } else if d.use_device_pos {
        Kernel::QkNormPartialRopeD
    } else {
        Kernel::QkNormPartialRope
    }
}

/// The kernel that rotates heads.
#[verifier::allow_in_spec]
pub fn rope_kernel(d: ChunkDims) -> Kernel
    returns
        (if d.use_device_pos {
            Kernel::RopeD
        } else {
            Kernel::Rope
        }),
{
    if d.use_device_pos {
        Kernel::RopeD
    } else {
        Kernel::Rope
    }
}

/// Normalises and rotates the queries.
pub open spec fn queries_whole_plan(d: ChunkDims) -> Plan {
    one(
        norm_kernel(d, true),
        seq![
            Arg::Buf(Buf::Q), Arg::Vector(VecId::QNorm), Arg::Int(to_i32(d.n_head)),
            Arg::Int(to_i32(d.head_dim)), pos_arg(d), Arg::Int(to_i32(d.n_tok)), Arg::Theta,
            Arg::Eps,
        ],
        shape2(to_u32(d.n_head), to_u32(d.n_tok), 128),
    )
}

/// Normalises and rotates the queries.
pub fn queries_whole(d: ChunkDims) -> (r: Vec<Launch>)
    ensures
        plan_of(r@) == queries_whole_plan(d),
{
    single(
        norm_kernel(d, true),
        vec![
            Arg::Buf(Buf::Q), Arg::Vector(VecId::QNorm), Arg::Int(to_i32(d.n_head)),
            Arg::Int(to_i32(d.head_dim)), pos_arg(d), Arg::Int(to_i32(d.n_tok)), Arg::Theta,
            Arg::Eps,
        ],
        shape2(to_u32(d.n_head), to_u32(d.n_tok), 128),
    )
}

/// Normalises the queries, and rotates the first `n_rot` dimensions.
pub open spec fn queries_part_plan(d: ChunkDims, n_rot: usize) -> Plan {
    one(
        norm_kernel(d, false),
        seq![
            Arg::Buf(Buf::Q), Arg::Vector(VecId::QNorm), Arg::Int(to_i32(d.n_head)),
            Arg::Int(to_i32(d.head_dim)), Arg::Int(to_i32(n_rot)), pos_arg(d),
            Arg::Int(to_i32(d.n_tok)), Arg::Theta, Arg::Eps,
        ],
        shape2(to_u32(d.n_head), to_u32(d.n_tok), 128),
    )
}

/// Normalises the queries, and rotates the first `n_rot` dimensions.
pub fn queries_part(d: ChunkDims, n_rot: usize) -> (r: Vec<Launch>)
    ensures
        plan_of(r@) == queries_part_plan(d, n_rot),
{
    single(
        norm_kernel(d, false),
        vec![
            Arg::Buf(Buf::Q), Arg::Vector(VecId::QNorm), Arg::Int(to_i32(d.n_head)),
            Arg::Int(to_i32(d.head_dim)), Arg::Int(to_i32(n_rot)), pos_arg(d),
            Arg::Int(to_i32(d.n_tok)), Arg::Theta, Arg::Eps,
        ],
        shape2(to_u32(d.n_head), to_u32(d.n_tok), 128),
    )
}

/// Rotates the queries.
pub open spec fn queries_rope_plan(d: ChunkDims) -> Plan {
    one(
        rope_kernel(d),
        seq![
            Arg::Buf(Buf::Q), Arg::Int(to_i32(d.n_head)), Arg::Int(to_i32(d.head_dim)),
            pos_arg(d), Arg::Int(to_i32(d.n_tok)), Arg::Theta,
        ],
        shape2(to_u32(d.n_head), to_u32(d.n_tok), 32),
    )
}

/// Rotates the queries.
pub fn queries_rope(d: ChunkDims) -> (r: Vec<Launch>)
    ensures
        plan_of(r@) == queries_rope_plan(d),
{
    single(
        rope_kernel(d),
        vec![
            Arg::Buf(Buf::Q), Arg::Int(to_i32(d.n_head)), Arg::Int(to_i32(d.head_dim)),
            pos_arg(d), Arg::Int(to_i32(d.n_tok)), Arg::Theta,
        ],
        shape2(to_u32(d.n_head), to_u32(d.n_tok), 32),
    )
}

/// Normalises and rotates the keys.
pub open spec fn keys_whole_plan(d: ChunkDims) -> Plan {
    one(
        norm_kernel(d, true),
        seq![
            Arg::Buf(Buf::KBuf), Arg::Vector(VecId::KNorm), Arg::Int(to_i32(d.n_kv_heads)),
            Arg::Int(to_i32(d.head_dim)), pos_arg(d), Arg::Int(to_i32(d.n_tok)), Arg::Theta,
            Arg::Eps,
        ],
        shape2(to_u32(d.n_kv_heads), to_u32(d.n_tok), 128),
    )
}

/// Normalises and rotates the keys.
pub fn keys_whole(d: ChunkDims) -> (r: Vec<Launch>)
    ensures
        plan_of(r@) == keys_whole_plan(d),
{
    single(
        norm_kernel(d, true),
        vec![
            Arg::Buf(Buf::KBuf), Arg::Vector(VecId::KNorm), Arg::Int(to_i32(d.n_kv_heads)),
            Arg::Int(to_i32(d.head_dim)), pos_arg(d), Arg::Int(to_i32(d.n_tok)), Arg::Theta,
            Arg::Eps,
        ],
        shape2(to_u32(d.n_kv_heads), to_u32(d.n_tok), 128),
    )
}

/// Normalises the keys, and rotates the first `n_rot` dimensions.
pub open spec fn keys_part_plan(d: ChunkDims, n_rot: usize) -> Plan {
    one(
        norm_kernel(d, false),
        seq![
            Arg::Buf(Buf::KBuf), Arg::Vector(VecId::KNorm), Arg::Int(to_i32(d.n_kv_heads)),
            Arg::Int(to_i32(d.head_dim)), Arg::Int(to_i32(n_rot)), pos_arg(d),
            Arg::Int(to_i32(d.n_tok)), Arg::Theta, Arg::Eps,
        ],
        shape2(to_u32(d.n_kv_heads), to_u32(d.n_tok), 128),
    )
}

/// Normalises the keys, and rotates the first `n_rot` dimensions.
pub fn keys_part(d: ChunkDims, n_rot: usize) -> (r: Vec<Launch>)
    ensures
        plan_of(r@) == keys_part_plan(d, n_rot),
{
    single(
        norm_kernel(d, false),
        vec![
            Arg::Buf(Buf::KBuf), Arg::Vector(VecId::KNorm), Arg::Int(to_i32(d.n_kv_heads)),
            Arg::Int(to_i32(d.head_dim)), Arg::Int(to_i32(n_rot)), pos_arg(d),
            Arg::Int(to_i32(d.n_tok)), Arg::Theta, Arg::Eps,
        ],
        shape2(to_u32(d.n_kv_heads), to_u32(d.n_tok), 128),
    )
}

/// Rotates the keys.
pub open spec fn keys_rope_plan(d: ChunkDims) -> Plan {
    one(
        rope_kernel(d),
        seq![
            Arg::Buf(Buf::KBuf), Arg::Int(to_i32(d.n_kv_heads)), Arg::Int(to_i32(d.head_dim)),
            pos_arg(d), Arg::Int(to_i32(d.n_tok)), Arg::Theta,
        ],
        shape2(to_u32(d.n_kv_heads), to_u32(d.n_tok), 32),
    )
}

/// Rotates the keys.
pub fn keys_rope(d: ChunkDims) -> (r: Vec<Launch>)
    ensures
        plan_of(r@) == keys_rope_plan(d),
{
    single(
        rope_kernel(d),
        vec![
            Arg::Buf(Buf::KBuf), Arg::Int(to_i32(d.n_kv_heads)), Arg::Int(to_i32(d.head_dim)),
            pos_arg(d), Arg::Int(to_i32(d.n_tok)), Arg::Theta,
        ],
        shape2(to_u32(d.n_kv_heads), to_u32(d.n_tok), 32),
    )
}

/// Normalises and rotates queries and keys, as far as the layer does.
pub open spec fn positions_plan(
    d: ChunkDims,
    full: FullAttnWeights,
    rope: RopeConfig,
    li: usize,
    flags: Flags,
) -> Plan {
    if full.attn_q_norm && full.attn_k_norm {
        if uses_rope(rope, li, flags) && !partial_rope(rope, d, flags) {
            queries_whole_plan(d)
            + keys_whole_plan(d)
        } else {
            queries_part_plan(d, rotated(rope, d, li, flags))
            + keys_part_plan(d, rotated(rope, d, li, flags))
        }
    } else if uses_rope(rope, li, flags) {
        queries_rope_plan(d)
        + keys_rope_plan(d)
    } else {
        Seq::<LaunchView>::empty()
    }
}

/// Normalises and rotates queries and keys, as far as the layer does.
pub fn positions(
    d: ChunkDims,
    full: FullAttnWeights,
    rope: RopeConfig,
    li: usize,
    flags: Flags,
) -> (r: Vec<Launch>)
    requires
        d.fits(),
        li < MAX_SIDE,
    ensures
        plan_of(r@) == positions_plan(d, full, rope, li, flags),
{
    if full.attn_q_norm && full.attn_k_norm {
        if uses_rope(rope, li, flags) && !partial_rope(rope, d, flags) {
            {
                let mut out: Vec<Launch> = queries_whole(d);
                extend(&mut out, keys_whole(d));
                out
            }
        } else {
            {
                let mut out: Vec<Launch> = queries_part(d, rotated(rope, d, li, flags));
                extend(&mut out, keys_part(d, rotated(rope, d, li, flags)));
                out
            }
        }
    } else if uses_rope(rope, li, flags) {
        {
            let mut out: Vec<Launch> = queries_rope(d);
            extend(&mut out, keys_rope(d));
            out
        }
    } else {
        nothing()
    }
}

/// The kernel that stores keys or values.
#[verifier::allow_in_spec]
pub fn copy_kernel(d: ChunkDims) -> Kernel
    returns
        (if d.use_device_pos {
            Kernel::CopyKvD
        } else {
            Kernel::CopyKv
        }),
{
    if d.use_device_pos {
        Kernel::CopyKvD
    } else {
        Kernel::CopyKv
    }
}

/// Stores keys and values in the cache.
pub open spec fn store_kv_plan(d: ChunkDims) -> Plan {
    one(
        copy_kernel(d),
        seq![
            Arg::Buf(Buf::KBuf), Arg::Buf(Buf::CacheK), pos_arg(d), Arg::Int(to_i32(d.n_tok)),
            Arg::Int(to_i32(d.stride())),
        ],
        elems(area(d.n_tok, d.stride())),
    )
    + one(
        copy_kernel(d),
        seq![
            Arg::Buf(Buf::VBuf), Arg::Buf(Buf::CacheV), pos_arg(d), Arg::Int(to_i32(d.n_tok)),
            Arg::Int(to_i32(d.stride())),
        ],
        elems(area(d.n_tok, d.stride())),
    )
}

/// Stores keys and values in the cache.
pub fn store_kv(d: ChunkDims) -> (r: Vec<Launch>)
    requires
        d.fits(),
    ensures
        plan_of(r@) == store_kv_plan(d),
{
    proof {
        lemma_sides(d.n_tok, d.stride());
    }
    {
        let mut out: Vec<Launch> = single(
            copy_kernel(d),
            vec![
                Arg::Buf(Buf::KBuf), Arg::Buf(Buf::CacheK), pos_arg(d), Arg::Int(to_i32(d.n_tok)),
                Arg::Int(to_i32(d.stride())),
            ],
            elems(area(d.n_tok, d.stride())),
        );
        extend(&mut out, single(
            copy_kernel(d),
            vec![
                Arg::Buf(Buf::VBuf), Arg::Buf(Buf::CacheV), pos_arg(d), Arg::Int(to_i32(d.n_tok)),
                Arg::Int(to_i32(d.stride())),
            ],
            elems(area(d.n_tok, d.stride())),
        ));
        out
    }
}

/// Shared memory of an attention kernel.
#[verifier::allow_in_spec]
pub fn attn_smem(smem: SmemRule, d: ChunkDims) -> u32
    requires
        d.fits(),
        smem matches SmemRule::HeadPlusTile { tile } ==> tile <= 1024,
    returns
        (smem.numbers(d.head_dim as nat, d.seq_len() as nat) * 4) as u32,
{
    smem.bytes(d.head_dim, d.seq_len())
}

/// One block for each head and each query.
pub open spec fn causal_plan(d: ChunkDims, kernel: Kernel, smem: SmemRule, block: u32) -> Plan {
    one(
        kernel,
        seq![
            Arg::Buf(Buf::Q), Arg::Buf(Buf::CacheK), Arg::Buf(Buf::CacheV), Arg::Buf(Buf::Xb),
            Arg::Int(to_i32(d.n_head)), Arg::Int(to_i32(d.n_kv_heads)),
            Arg::Int(to_i32(d.head_dim)), pos_arg(d), Arg::Int(to_i32(d.n_tok)), Arg::Scale,
        ],
        Shape { grid_x: to_u32(d.n_head), grid_y: to_u32(d.n_tok), block: block, smem: attn_smem(smem, d) },
    )
}

/// One block for each head and each query.
pub fn causal(d: ChunkDims, kernel: Kernel, smem: SmemRule, block: u32) -> (r: Vec<Launch>)
    requires
        d.fits(),
        smem matches SmemRule::HeadPlusTile { tile } ==> tile <= 1024,
    ensures
        plan_of(r@) == causal_plan(d, kernel, smem, block),
{
    single(
        kernel,
        vec![
            Arg::Buf(Buf::Q), Arg::Buf(Buf::CacheK), Arg::Buf(Buf::CacheV), Arg::Buf(Buf::Xb),
            Arg::Int(to_i32(d.n_head)), Arg::Int(to_i32(d.n_kv_heads)),
            Arg::Int(to_i32(d.head_dim)), pos_arg(d), Arg::Int(to_i32(d.n_tok)), Arg::Scale,
        ],
        Shape { grid_x: to_u32(d.n_head), grid_y: to_u32(d.n_tok), block: block, smem: attn_smem(smem, d) },
    )
}

/// One block for each head and each part of the positions, then a reduction.
pub open spec fn flash_plan(
    d: ChunkDims,
    partial: Kernel,
    reduce: Kernel,
    smem: SmemRule,
    block: u32,
    n_split: u32,
) -> Plan {
    one(
        partial,
        seq![
            Arg::Buf(Buf::Q), Arg::Buf(Buf::CacheK), Arg::Buf(Buf::CacheV),
            Arg::Buf(Buf::FlashPartial), Arg::Int(to_i32(d.n_head)),
            Arg::Int(to_i32(d.n_kv_heads)), Arg::Int(to_i32(d.head_dim)), pos_arg(d), Arg::Int(1),
            Arg::Int(n_split as i32), Arg::Scale,
        ],
        Shape { grid_x: to_u32(d.n_head), grid_y: n_split, block: block, smem: attn_smem(smem, d) },
    )
    + one(
        reduce,
        seq![
            Arg::Buf(Buf::FlashPartial), Arg::Buf(Buf::Xb), Arg::Int(to_i32(d.n_head)),
            Arg::Int(to_i32(d.head_dim)), Arg::Int(n_split as i32), Arg::Int(1),
        ],
        shape(to_u32(d.n_head), to_u32(d.head_dim)),
    )
}

/// One block for each head and each part of the positions, then a reduction.
pub fn flash(
    d: ChunkDims,
    partial: Kernel,
    reduce: Kernel,
    smem: SmemRule,
    block: u32,
    n_split: u32,
) -> (r: Vec<Launch>)
    requires
        d.fits(),
        smem matches SmemRule::HeadPlusTile { tile } ==> tile <= 1024,
    ensures
        plan_of(r@) == flash_plan(d, partial, reduce, smem, block, n_split),
{
    {
        let mut out: Vec<Launch> = single(
            partial,
            vec![
                Arg::Buf(Buf::Q), Arg::Buf(Buf::CacheK), Arg::Buf(Buf::CacheV),
                Arg::Buf(Buf::FlashPartial), Arg::Int(to_i32(d.n_head)),
                Arg::Int(to_i32(d.n_kv_heads)), Arg::Int(to_i32(d.head_dim)), pos_arg(d),
                Arg::Int(1), Arg::Int(n_split as i32), Arg::Scale,
            ],
            Shape { grid_x: to_u32(d.n_head), grid_y: n_split, block: block, smem: attn_smem(smem, d) },
        );
        extend(&mut out, single(
            reduce,
            vec![
                Arg::Buf(Buf::FlashPartial), Arg::Buf(Buf::Xb), Arg::Int(to_i32(d.n_head)),
                Arg::Int(to_i32(d.head_dim)), Arg::Int(n_split as i32), Arg::Int(1),
            ],
            shape(to_u32(d.n_head), to_u32(d.head_dim)),
        ));
        out
    }
}

/// One block for each head.
pub open spec fn online_plan(d: ChunkDims, kernel: Kernel) -> Plan {
    one(
        kernel,
        seq![
            Arg::Buf(Buf::Q), Arg::Buf(Buf::CacheK), Arg::Buf(Buf::CacheV), Arg::Buf(Buf::Xb),
            Arg::Int(to_i32(d.n_head)), Arg::Int(to_i32(d.n_kv_heads)),
            Arg::Int(to_i32(d.head_dim)), Arg::Int(to_i32(d.seq_len())), Arg::Scale,
        ],
        Shape { grid_x: to_u32(d.n_head), grid_y: 1, block: to_u32(d.head_dim), smem: attn_smem(SmemRule::HeadTimes2, d) },
    )
}

/// One block for each head.
pub fn online(d: ChunkDims, kernel: Kernel) -> (r: Vec<Launch>)
    requires
        d.fits(),
    ensures
        plan_of(r@) == online_plan(d, kernel),
{
    single(
        kernel,
        vec![
            Arg::Buf(Buf::Q), Arg::Buf(Buf::CacheK), Arg::Buf(Buf::CacheV), Arg::Buf(Buf::Xb),
            Arg::Int(to_i32(d.n_head)), Arg::Int(to_i32(d.n_kv_heads)),
            Arg::Int(to_i32(d.head_dim)), Arg::Int(to_i32(d.seq_len())), Arg::Scale,
        ],
        Shape { grid_x: to_u32(d.n_head), grid_y: 1, block: to_u32(d.head_dim), smem: attn_smem(SmemRule::HeadTimes2, d) },
    )
}

/// The kernel of a path with one block for each head and query: on the card
/// the position needs a kernel of its own.
pub open spec fn causal_kernel(
    d: ChunkDims,
    kernel: Seq<char>,
    kernel_d: Option<Seq<char>>,
) -> Result<Kernel, PlanError> {
    let name = if d.use_device_pos {
        kernel_d
    } else {
        Some(kernel)
    };
    match name {
        None => Err(PlanError::NoDeviceKernel),
        Some(s) => match attn_named(s) {
            None => Err(PlanError::NotLoaded),
            Some(k) => Ok(k),
        },
    }
}

/// The plan of a path with one block for each head and query; nothing for
/// other paths.
pub open spec fn causal_path_plan(d: ChunkDims, path: PathView) -> Result<Plan, PlanError> {
    match path {
        PathView::Causal { kernel, kernel_d, smem, block_threads } => match causal_kernel(
            d,
            kernel,
            kernel_d,
        ) {
            Err(e) => Err(e),
            Ok(k) => Ok(causal_plan(d, k, smem, block_threads)),
        },
        _ => Err(PlanError::NoPrefill),
    }
}

/// The path of that name.
pub open spec fn path_named(name: Seq<char>, from: nat) -> Option<SpecView>
    decreases registry().len() - from,
{
    if from >= registry().len() {
        None
    } else if registry()[from as int].name == name {
        Some(registry()[from as int])
    } else {
        path_named(name, from + 1)
    }
}

/// The plan of many queries: by the path that stands in.
pub open spec fn prefill_plan(d: ChunkDims, prefill_as: Seq<char>) -> Result<Plan, PlanError> {
    match path_named(prefill_as, 0) {
        None => Err(PlanError::NoPrefill),
        Some(s) => causal_path_plan(d, s.launch),
    }
}

/// The attention kernels of a chunk.
pub open spec fn launch_attn_plan(d: ChunkDims, path: PathView) -> Result<Plan, PlanError> {
    match path {
        PathView::Causal { .. } => causal_path_plan(d, path),
        PathView::Flash {
            partial,
            partial_d,
            reduce,
            smem,
            block_threads,
            prefill_as,
            n_split,
        } => if d.n_tok != 1 {
            prefill_plan(d, prefill_as)
        } else {
            let first = if d.use_device_pos {
                attn_named(partial_d)
            } else {
                attn_named(partial)
            };
            match (first, attn_named(reduce)) {
                (Some(p), Some(r)) => Ok(flash_plan(d, p, r, smem, block_threads, n_split)),
                _ => Err(PlanError::NotLoaded),
            }
        },
        PathView::OnlineDecode { kernel, prefill_as, max_head_dim } => if d.n_tok != 1 {
            prefill_plan(d, prefill_as)
        } else if d.use_device_pos {
            Err(PlanError::NoDeviceKernel)
        } else if d.head_dim > max_head_dim {
            Err(PlanError::HeadTooLong)
        } else {
            match attn_named(kernel) {
                Some(k) => Ok(online_plan(d, k)),
                None => Err(PlanError::NotLoaded),
            }
        },
    }
}

/// The path of that name, as [`find_by_name`] finds it.
proof fn lemma_path_named(name: Seq<char>, i: int, from: nat)
    requires
        from <= i < registry().len(),
        registry()[i].name == name,
    ensures
        path_named(name, from) == Some(registry()[i]),
    decreases registry().len() - from,
{
    if from < i {
        crate::cuda::decode::law_names_differ(from as int, i);
        lemma_path_named(name, i, from + 1);
    }
}

proof fn lemma_path_missing(name: Seq<char>, from: nat)
    requires
        forall|i: int| 0 <= i < registry().len() ==> (#[trigger] registry()[i]).name != name,
    ensures
        path_named(name, from) is None,
    decreases registry().len() - from,
{
    if from < registry().len() {
        lemma_path_missing(name, from + 1);
    }
}

/// The tiles of the paths are small.
proof fn lemma_small_tiles(i: int)
    requires
        0 <= i < registry().len(),
    ensures
        registry()[i].launch matches PathView::Causal { smem: SmemRule::HeadPlusTile { tile }, .. }
            ==> tile <= 1024,
        registry()[i].launch matches PathView::Flash { smem: SmemRule::HeadPlusTile { tile }, .. }
            ==> tile <= 1024,
{
}

/// The plan of a path with one block for each head and query.
fn causal_path(d: ChunkDims, path: AttnLaunch) -> (r: Result<Vec<Launch>, PlanError>)
    requires
        d.fits(),
        path@ matches PathView::Causal { smem: SmemRule::HeadPlusTile { tile }, .. } ==> tile
            <= 1024,
    ensures
        result_plan(r) == causal_path_plan(d, path@),
{
    match path {
        AttnLaunch::Causal { kernel, kernel_d, smem, block_threads } => {
            let name: Option<&'static str> = if d.use_device_pos {
                kernel_d
            } else {
                Some(kernel)
            };
            match name {
                None => Err(PlanError::NoDeviceKernel),
                Some(s) => match attn(s) {
                    None => Err(PlanError::NotLoaded),
                    Some(k) => Ok(causal(d, k, smem, block_threads)),
                },
            }
        },
        _ => Err(PlanError::NoPrefill),
    }
}

/// The plan of many queries: by the path that stands in.
fn prefill(d: ChunkDims, prefill_as: &str) -> (r: Result<Vec<Launch>, PlanError>)
    requires
        d.fits(),
    ensures
        result_plan(r) == prefill_plan(d, prefill_as@),
{
    match find_by_name(prefill_as) {
        None => {
            proof {
                lemma_path_missing(prefill_as@, 0);
            }
            Err(PlanError::NoPrefill)
        },
        Some(s) => {
            proof {
                let i = choose|i: int| 0 <= i < registry().len() && registry()[i] == s@;
                lemma_path_named(prefill_as@, i, 0);
                lemma_small_tiles(i);
            }
            causal_path(d, s.launch)
        },
    }
}

/// The attention kernels of a chunk, by the path that is in use.
pub fn launch_attn(d: ChunkDims, decode: DecodeBackend) -> (r: Result<Vec<Launch>, PlanError>)
    requires
        d.fits(),
        decode.wf(),
    ensures
        result_plan(r) == launch_attn_plan(d, decode.view().launch),
{
    let spec: DecodeSpec = decode.spec();
    proof {
        lemma_small_tiles(decode.idx as int);
    }
    match spec.launch {
        AttnLaunch::Causal { .. } => causal_path(d, spec.launch),
        AttnLaunch::Flash {
            partial,
            partial_d,
            reduce,
            smem,
            block_threads,
            prefill_as,
            n_split,
        } => {
            if d.n_tok != 1 {
                return prefill(d, prefill_as);
            }
            let first: Option<Kernel> = if d.use_device_pos {
                attn(partial_d)
            } else {
                attn(partial)
            };
            match (first, attn(reduce)) {
                (Some(p), Some(r)) => Ok(flash(d, p, r, smem, block_threads, n_split)),
                _ => Err(PlanError::NotLoaded),
            }
        },
        AttnLaunch::OnlineDecode { kernel, prefill_as, max_head_dim } => {
            if d.n_tok != 1 {
                return prefill(d, prefill_as);
            }
            if d.use_device_pos {
                return Err(PlanError::NoDeviceKernel);
            }
            if d.head_dim > max_head_dim {
                return Err(PlanError::HeadTooLong);
            }
            match attn(kernel) {
                Some(k) => Ok(online(d, k)),
                None => Err(PlanError::NotLoaded),
            }
        },
    }
}

/// Every path of the registry finds its kernels and the path that stands in for it:
/// a chunk is refused only where the position is on the card and no kernel reads it
/// there, or where the heads are too long.
pub proof fn law_registry_is_complete(d: ChunkDims, decode: DecodeBackend)
    requires
        decode.wf(),
    ensures
        match launch_attn_plan(d, decode.view().launch) {
            Ok(_) => true,
            Err(e) => e == PlanError::NoDeviceKernel || e == PlanError::HeadTooLong,
        },
{
    assert(registry()[0].name == "fastv2"@);
}

/// Multiplies the output of the attention with its gate.
pub open spec fn out_gate_plan(d: ChunkDims) -> Plan {
    one(
        Kernel::MulSigmoid,
        seq![
            Arg::Buf(Buf::Xb), Arg::Buf(Buf::GateBuf),
            Arg::Int(signed_area(d.q_width(), d.n_tok)),
        ],
        elems(area(d.q_width(), d.n_tok)),
    )
}

/// Multiplies the output of the attention with its gate.
pub fn out_gate(d: ChunkDims) -> (r: Vec<Launch>)
    requires
        d.fits(),
    ensures
        plan_of(r@) == out_gate_plan(d),
{
    proof {
        lemma_sides(d.q_width(), d.n_tok);
    }
    single(
        Kernel::MulSigmoid,
        vec![
            Arg::Buf(Buf::Xb), Arg::Buf(Buf::GateBuf),
            Arg::Int(signed_area(d.q_width(), d.n_tok)),
        ],
        elems(area(d.q_width(), d.n_tok)),
    )
}

/// Whether the output of a block has kernels.
pub open spec fn output_kernels(card: Card, n_tok: usize, w: GpuMat) -> bool {
    if n_tok == 1 {
        project_ok(card, w)
    } else {
        gemm_ok(card, w, n_tok)
    }
}

/// Adds a projection of a block to the stream.
pub open spec fn block_output_plan(card: Card, d: ChunkDims, w: GpuMat, x: Buf) -> Result<Plan, PlanError> {
    if d.n_tok == 1 {
        Ok(
            project_plan(card, w, x, Buf::X, GemvResidual::InPlace),
        )
    } else {
        join_plan(
            gemm_plan(card, w, x, Buf::Xb2, d.n_tok),
            Ok(
                add_residual_plan(d),
            ),
        )
    }
}

/// Adds a projection of a block to the stream.
pub fn block_output(card: Card, d: ChunkDims, w: GpuMat, x: Buf) -> (r: Result<Vec<Launch>, PlanError>)
    requires
        card.wf(),
        d.fits(),
        w.fits(),
        output_kernels(card, d.n_tok, w),
    ensures
        result_plan(r) == block_output_plan(card, d, w, x),
{
    if d.n_tok == 1 {
        Ok(
            project(card, w, x, Buf::X, GemvResidual::InPlace),
        )
    } else {
        join(
            gemm(card, w, x, Buf::Xb2, d.n_tok),
            Ok(
                add_residual(d),
            ),
        )
    }
}

/// Whether softmax attention has kernels for its matrices.
pub open spec fn full_ok(card: Card, n_tok: usize, full: FullAttnWeights) -> bool {
    &&& full.fits()
    &&& output_kernels(card, n_tok, full.wo)
    &&& if n_tok == 1 {
        qkv_one_ok(card, full)
    } else {
        gemm_ok(card, full.wq, n_tok) && gemm_ok(card, full.wk, n_tok) && gemm_ok(
            card,
            full.wv,
            n_tok,
        )
    }
}

/// The projections of a chunk.
pub open spec fn projections_plan(card: Card, d: ChunkDims, full: FullAttnWeights) -> Result<Plan, PlanError> {
    if d.n_tok == 1 {
        Ok(
            qkv_one_plan(card, full),
        )
    } else {
        qkv_many_plan(card, d, full)
    }
}

/// The projections of a chunk.
pub fn projections(card: Card, d: ChunkDims, full: FullAttnWeights) -> (r: Result<Vec<Launch>, PlanError>)
    requires
        card.wf(),
        d.fits(),
        full_ok(card, d.n_tok, full),
    ensures
        result_plan(r) == projections_plan(card, d, full),
{
    if d.n_tok == 1 {
        Ok(
            qkv_one(card, full),
        )
    } else {
        qkv_many(card, d, full)
    }
}

/// Between the projections and the attention.
pub open spec fn before_attention_plan(
    d: ChunkDims,
    full: FullAttnWeights,
    rope: RopeConfig,
    li: usize,
    flags: Flags,
) -> Plan {
    if full.fused_q_gate {
        split_gate_plan(d, flags)
        + positions_plan(d, full, rope, li, flags)
        + store_kv_plan(d)
    } else {
        positions_plan(d, full, rope, li, flags)
        + store_kv_plan(d)
    }
}

/// Between the projections and the attention.
pub fn before_attention(
    d: ChunkDims,
    full: FullAttnWeights,
    rope: RopeConfig,
    li: usize,
    flags: Flags,
) -> (r: Vec<Launch>)
    requires
        d.fits(),
        li < MAX_SIDE,
    ensures
        plan_of(r@) == before_attention_plan(d, full, rope, li, flags),
{
    if full.fused_q_gate {
        {
            let mut out: Vec<Launch> = split_gate(d, flags);
            extend(&mut out, positions(d, full, rope, li, flags));
            extend(&mut out, store_kv(d));
            out
        }
    } else {
        {
            let mut out: Vec<Launch> = positions(d, full, rope, li, flags);
            extend(&mut out, store_kv(d));
            out
        }
    }
}

/// Gating of the output of the attention, where the layer has it.
pub open spec fn gated_plan(d: ChunkDims, full: FullAttnWeights, flags: Flags) -> Plan {
    if full.fused_q_gate && !flags.no_out_gate {
        out_gate_plan(d)
    } else {
        Seq::<LaunchView>::empty()
    }
}

/// Gating of the output of the attention, where the layer has it.
pub fn gated(d: ChunkDims, full: FullAttnWeights, flags: Flags) -> (r: Vec<Launch>)
    requires
        d.fits(),
    ensures
        plan_of(r@) == gated_plan(d, full, flags),
{
    if full.fused_q_gate && !flags.no_out_gate {
        out_gate(d)
    } else {
        nothing()
    }
}

/// Softmax attention over a normalised chunk.
pub open spec fn attn_block_full_plan(
    card: Card,
    d: ChunkDims,
    full: FullAttnWeights,
    rope: RopeConfig,
    li: usize,
    flags: Flags,
    decode: DecodeBackend,
) -> Result<Plan, PlanError> {
    join_plan(
        join_plan(
            join_plan(
                join_plan(
                    projections_plan(card, d, full),
                    Ok(
                        before_attention_plan(d, full, rope, li, flags),
                    ),
                ),
                launch_attn_plan(d, decode.view().launch),
            ),
            Ok(
                gated_plan(d, full, flags),
            ),
        ),
        block_output_plan(card, d, full.wo, Buf::Xb),
    )
}

/// Softmax attention over a normalised chunk.
pub fn attn_block_full(
    card: Card,
    d: ChunkDims,
    full: FullAttnWeights,
    rope: RopeConfig,
    li: usize,
    flags: Flags,
    decode: DecodeBackend,
) -> (r: Result<Vec<Launch>, PlanError>)
    requires
        card.wf(),
        d.fits(),
        full_ok(card, d.n_tok, full),
        li < MAX_SIDE,
        decode.wf(),
    ensures
        result_plan(r) == attn_block_full_plan(card, d, full, rope, li, flags, decode),
{
    join(
        join(
            join(
                join(
                    projections(card, d, full),
                    Ok(
                        before_attention(d, full, rope, li, flags),
                    ),
                ),
                launch_attn(d, decode),
            ),
            Ok(
                gated(d, full, flags),
            ),
        ),
        block_output(card, d, full.wo, Buf::Xb),
    )
}

impl LinearAttnWeights {
    /// The matrices and sizes are no larger than the kernels can count.
    pub open spec fn fits(self) -> bool {
        &&& self.wqkv.fits() && self.w_gate.fits() && self.ssm_alpha.fits() && self.ssm_beta.fits()
        &&& self.ssm_out.fits()
        &&& self.n_v_heads <= MAX_SIDE
    }
}

/// Whether the four projections of one token have kernels.
pub open spec fn gdn_one_ok(card: Card, lin: LinearAttnWeights, flags: Flags) -> bool {
    ||| gdn_fused_plan(card, lin, flags) is Some
    ||| gemv_ok(card, lin.wqkv) && gemv_ok(card, lin.w_gate) && gemv_ok(card, lin.ssm_beta)
        && gemv_ok(card, lin.ssm_alpha)
}

/// Whether linear attention has kernels for its matrices.
pub open spec fn linear_ok(card: Card, n_tok: usize, lin: LinearAttnWeights, flags: Flags) -> bool {
    &&& lin.fits()
    &&& output_kernels(card, n_tok, lin.ssm_out)
    &&& if n_tok == 1 {
        gdn_one_ok(card, lin, flags)
    } else {
        gemm_ok(card, lin.wqkv, n_tok) && gemm_ok(card, lin.w_gate, n_tok) && gemm_ok(
            card,
            lin.ssm_beta,
            n_tok,
        ) && gemm_ok(card, lin.ssm_alpha, n_tok)
    }
}

/// All four projections by one kernel.
pub open spec fn gdn_fused_plan(card: Card, lin: LinearAttnWeights, flags: Flags) -> Option<Plan> {
    try_gemv_gdn_4way_plan(
        card, lin.wqkv, lin.w_gate, lin.ssm_beta, lin.ssm_alpha, Buf::Xb, Buf::Q, Buf::GdnZ,
        Buf::GdnBeta, Buf::GdnAlpha, flags.gdn_no_4way,
    )
}

/// All four projections by one kernel.
pub fn gdn_fused(card: Card, lin: LinearAttnWeights, flags: Flags) -> (r: Option<Vec<Launch>>)
    requires
        card.wf(),
        lin.fits(),
    ensures
        crate::cuda::matmul::option_plan(r) == gdn_fused_plan(card, lin, flags),
{
    try_gemv_gdn_4way(
        card, lin.wqkv, lin.w_gate, lin.ssm_beta, lin.ssm_alpha, Buf::Xb, Buf::Q, Buf::GdnZ,
        Buf::GdnBeta, Buf::GdnAlpha, flags.gdn_no_4way,
    )
}

/// The four projections of one token, each by itself.
pub open spec fn gdn_apart_plan(card: Card, lin: LinearAttnWeights) -> Plan {
    gemv_plan(card, lin.wqkv, Buf::Xb, Buf::Q, None, GemvResidual::Nothing)
    + gemv_plan(card, lin.w_gate, Buf::Xb, Buf::GdnZ, None, GemvResidual::Nothing)
    + gemv_plan(card, lin.ssm_beta, Buf::Xb, Buf::GdnBeta, None, GemvResidual::Nothing)
    + gemv_plan(card, lin.ssm_alpha, Buf::Xb, Buf::GdnAlpha, None, GemvResidual::Nothing)
}

/// The four projections of one token, each by itself.
pub fn gdn_apart(card: Card, lin: LinearAttnWeights) -> (r: Vec<Launch>)
    requires
        card.wf(),
        lin.fits(),
        gemv_ok(card, lin.wqkv),
        gemv_ok(card, lin.w_gate),
        gemv_ok(card, lin.ssm_beta),
        gemv_ok(card, lin.ssm_alpha),
    ensures
        plan_of(r@) == gdn_apart_plan(card, lin),
{
    {
        let mut out: Vec<Launch> = gemv(card, lin.wqkv, Buf::Xb, Buf::Q, None, GemvResidual::Nothing);
        extend(&mut out, gemv(card, lin.w_gate, Buf::Xb, Buf::GdnZ, None, GemvResidual::Nothing));
        extend(&mut out, gemv(card, lin.ssm_beta, Buf::Xb, Buf::GdnBeta, None, GemvResidual::Nothing));
        extend(&mut out, gemv(card, lin.ssm_alpha, Buf::Xb, Buf::GdnAlpha, None, GemvResidual::Nothing));
        out
    }
}

/// The four projections of many tokens.
pub open spec fn gdn_many_plan(card: Card, d: ChunkDims, lin: LinearAttnWeights) -> Result<Plan, PlanError> {
    join_plan(
        join_plan(
            join_plan(
                gemm_plan(card, lin.wqkv, Buf::Xb, Buf::Q, d.n_tok),
                gemm_plan(card, lin.w_gate, Buf::Xb, Buf::GdnZ, d.n_tok),
            ),
            gemm_plan(card, lin.ssm_beta, Buf::Xb, Buf::GdnBeta, d.n_tok),
        ),
        gemm_plan(card, lin.ssm_alpha, Buf::Xb, Buf::GdnAlpha, d.n_tok),
    )
}

/// The four projections of many tokens.
pub fn gdn_many(card: Card, d: ChunkDims, lin: LinearAttnWeights) -> (r: Result<Vec<Launch>, PlanError>)
    requires
        card.wf(),
        lin.fits(),
        gemm_ok(card, lin.wqkv, d.n_tok),
        gemm_ok(card, lin.w_gate, d.n_tok),
        gemm_ok(card, lin.ssm_beta, d.n_tok),
        gemm_ok(card, lin.ssm_alpha, d.n_tok),
    ensures
        result_plan(r) == gdn_many_plan(card, d, lin),
{
    join(
        join(
            join(
                gemm(card, lin.wqkv, Buf::Xb, Buf::Q, d.n_tok),
                gemm(card, lin.w_gate, Buf::Xb, Buf::GdnZ, d.n_tok),
            ),
            gemm(card, lin.ssm_beta, Buf::Xb, Buf::GdnBeta, d.n_tok),
        ),
        gemm(card, lin.ssm_alpha, Buf::Xb, Buf::GdnAlpha, d.n_tok),
    )
}

/// The four projections of a chunk.
pub open spec fn gdn_projections_plan(card: Card, d: ChunkDims, lin: LinearAttnWeights, flags: Flags) -> Result<Plan, PlanError> {
    if d.n_tok == 1 {
        Ok(
            match gdn_fused_plan(card, lin, flags) {
                Some(p) => p,
                None => gdn_apart_plan(card, lin),
            },
        )
    } else {
        gdn_many_plan(card, d, lin)
    }
}

/// The four projections of a chunk.
pub fn gdn_projections(card: Card, d: ChunkDims, lin: LinearAttnWeights, flags: Flags) -> (r: Result<Vec<Launch>, PlanError>)
    requires
        card.wf(),
        linear_ok(card, d.n_tok, lin, flags),
    ensures
        result_plan(r) == gdn_projections_plan(card, d, lin, flags),
{
    if d.n_tok == 1 {
        Ok(
            match gdn_fused(card, lin, flags) {
                Some(p) => p,
                None => gdn_apart(card, lin),
            },
        )
    } else {
        gdn_many(card, d, lin)
    }
}

/// Whether the fused kernels take the state.
#[verifier::allow_in_spec]
pub fn square_state(lin: LinearAttnWeights, flags: Flags) -> bool
    returns
        lin.state_size > 0 && lin.state_size <= 256 && !flags.gdn_legacy,
{
    lin.state_size > 0 && lin.state_size <= 256 && !flags.gdn_legacy
}

/// The delta rule and the gated normalisation of one token.
pub open spec fn delta_one_plan(lin: LinearAttnWeights) -> Plan {
    if lin.state_size == 128 {
        one(
            Kernel::GdnDeltaGatedOneD128,
            seq![
                Arg::Buf(Buf::GdnQ), Arg::Buf(Buf::GdnK), Arg::Buf(Buf::GdnV),
                Arg::Buf(Buf::GdnAlpha), Arg::Buf(Buf::GdnBeta), Arg::Vector(VecId::SsmDt),
                Arg::Vector(VecId::SsmA), Arg::Buf(Buf::CacheSsm), Arg::Vector(VecId::SsmNorm),
                Arg::Buf(Buf::GdnZ), Arg::Buf(Buf::Xb), Arg::Int(to_i32(lin.n_k_heads)),
                Arg::Int(to_i32(lin.n_v_heads)), Arg::Eps,
            ],
            shape(to_u32(lin.n_v_heads), 128),
        )
    } else {
        one(
            Kernel::GdnDeltaGatedOne,
            seq![
                Arg::Buf(Buf::GdnQ), Arg::Buf(Buf::GdnK), Arg::Buf(Buf::GdnV),
                Arg::Buf(Buf::GdnAlpha), Arg::Buf(Buf::GdnBeta), Arg::Vector(VecId::SsmDt),
                Arg::Vector(VecId::SsmA), Arg::Buf(Buf::CacheSsm), Arg::Vector(VecId::SsmNorm),
                Arg::Buf(Buf::GdnZ), Arg::Buf(Buf::Xb), Arg::Int(to_i32(lin.n_k_heads)),
                Arg::Int(to_i32(lin.n_v_heads)), Arg::Int(to_i32(lin.state_size)), Arg::Eps,
            ],
            shape(to_u32(lin.n_v_heads), 128),
        )
    }
}

/// The delta rule and the gated normalisation of one token.
pub fn delta_one(lin: LinearAttnWeights) -> (r: Vec<Launch>)
    ensures
        plan_of(r@) == delta_one_plan(lin),
{
    if lin.state_size == 128 {
        single(
            Kernel::GdnDeltaGatedOneD128,
            vec![
                Arg::Buf(Buf::GdnQ), Arg::Buf(Buf::GdnK), Arg::Buf(Buf::GdnV),
                Arg::Buf(Buf::GdnAlpha), Arg::Buf(Buf::GdnBeta), Arg::Vector(VecId::SsmDt),
                Arg::Vector(VecId::SsmA), Arg::Buf(Buf::CacheSsm), Arg::Vector(VecId::SsmNorm),
                Arg::Buf(Buf::GdnZ), Arg::Buf(Buf::Xb), Arg::Int(to_i32(lin.n_k_heads)),
                Arg::Int(to_i32(lin.n_v_heads)), Arg::Eps,
            ],
            shape(to_u32(lin.n_v_heads), 128),
        )
    } else {
        single(
            Kernel::GdnDeltaGatedOne,
            vec![
                Arg::Buf(Buf::GdnQ), Arg::Buf(Buf::GdnK), Arg::Buf(Buf::GdnV),
                Arg::Buf(Buf::GdnAlpha), Arg::Buf(Buf::GdnBeta), Arg::Vector(VecId::SsmDt),
                Arg::Vector(VecId::SsmA), Arg::Buf(Buf::CacheSsm), Arg::Vector(VecId::SsmNorm),
                Arg::Buf(Buf::GdnZ), Arg::Buf(Buf::Xb), Arg::Int(to_i32(lin.n_k_heads)),
                Arg::Int(to_i32(lin.n_v_heads)), Arg::Int(to_i32(lin.state_size)), Arg::Eps,
            ],
            shape(to_u32(lin.n_v_heads), 128),
        )
    }
}

/// The recurrence of one token, fused.
pub open spec fn recurrent_one_plan(lin: LinearAttnWeights) -> Plan {
    one(
        Kernel::GdnConvQkvl2One,
        seq![
            Arg::Buf(Buf::Q), Arg::Vector(VecId::Conv1d), Arg::Buf(Buf::CacheConv),
            Arg::Buf(Buf::GdnQ), Arg::Buf(Buf::GdnK), Arg::Buf(Buf::GdnV),
            Arg::Int(to_i32(lin.n_k_heads)), Arg::Int(to_i32(lin.n_v_heads)),
            Arg::Int(to_i32(lin.state_size)), Arg::Int(to_i32(lin.conv_kernel)), Arg::Eps,
        ],
        shape(to_u32(lin.n_k_heads), 128),
    )
    + delta_one_plan(lin)
}

/// The recurrence of one token, fused.
pub fn recurrent_one(lin: LinearAttnWeights) -> (r: Vec<Launch>)
    ensures
        plan_of(r@) == recurrent_one_plan(lin),
{
    {
        let mut out: Vec<Launch> = single(
            Kernel::GdnConvQkvl2One,
            vec![
                Arg::Buf(Buf::Q), Arg::Vector(VecId::Conv1d), Arg::Buf(Buf::CacheConv),
                Arg::Buf(Buf::GdnQ), Arg::Buf(Buf::GdnK), Arg::Buf(Buf::GdnV),
                Arg::Int(to_i32(lin.n_k_heads)), Arg::Int(to_i32(lin.n_v_heads)),
                Arg::Int(to_i32(lin.state_size)), Arg::Int(to_i32(lin.conv_kernel)), Arg::Eps,
            ],
            shape(to_u32(lin.n_k_heads), 128),
        );
        extend(&mut out, delta_one(lin));
        out
    }
}

/// The decay and the step of each head.
pub open spec fn decay_plan(d: ChunkDims, lin: LinearAttnWeights) -> Plan {
    one(
        Kernel::GdnPrepDecayBeta,
        seq![
            Arg::Buf(Buf::GdnAlpha), Arg::Buf(Buf::GdnBeta), Arg::Vector(VecId::SsmDt),
            Arg::Vector(VecId::SsmA), Arg::Int(to_i32(lin.n_v_heads)), Arg::Int(to_i32(d.n_tok)),
        ],
        elems(area(lin.n_v_heads, d.n_tok)),
    )
}

/// The decay and the step of each head.
pub fn decay(d: ChunkDims, lin: LinearAttnWeights) -> (r: Vec<Launch>)
    requires
        d.fits(),
        lin.fits(),
    ensures
        plan_of(r@) == decay_plan(d, lin),
{
    proof {
        lemma_sides(lin.n_v_heads, d.n_tok);
    }
    single(
        Kernel::GdnPrepDecayBeta,
        vec![
            Arg::Buf(Buf::GdnAlpha), Arg::Buf(Buf::GdnBeta), Arg::Vector(VecId::SsmDt),
            Arg::Vector(VecId::SsmA), Arg::Int(to_i32(lin.n_v_heads)), Arg::Int(to_i32(d.n_tok)),
        ],
        elems(area(lin.n_v_heads, d.n_tok)),
    )
}

/// The recurrence of many tokens, fused.
pub open spec fn recurrent_many_plan(d: ChunkDims, lin: LinearAttnWeights) -> Plan {
    decay_plan(d, lin)
    + one(
        Kernel::CausalConv1d,
        seq![
            Arg::Buf(Buf::Q), Arg::Vector(VecId::Conv1d), Arg::Buf(Buf::CacheConv),
            Arg::Buf(Buf::GdnConv), Arg::Int(to_i32(lin.conv_channels)),
            Arg::Int(to_i32(lin.conv_kernel)), Arg::Int(to_i32(d.n_tok)),
        ],
        shape(ceil_div(to_u32(lin.conv_channels), 256), 256),
    )
    + one(
        Kernel::GdnSplitL2Seq,
        seq![
            Arg::Buf(Buf::GdnConv), Arg::Buf(Buf::GdnQ), Arg::Buf(Buf::GdnK), Arg::Buf(Buf::GdnV),
            Arg::Int(to_i32(lin.n_k_heads)), Arg::Int(to_i32(lin.n_v_heads)),
            Arg::Int(to_i32(lin.state_size)), Arg::Int(to_i32(lin.state_size)),
            Arg::Int(to_i32(d.n_tok)), Arg::Eps,
        ],
        shape2(to_u32(lin.n_k_heads), to_u32(d.n_tok), 128),
    )
    + one(
        Kernel::GdnDeltaGatedSeq,
        seq![
            Arg::Buf(Buf::GdnQ), Arg::Buf(Buf::GdnK), Arg::Buf(Buf::GdnV),
            Arg::Buf(Buf::GdnAlpha), Arg::Buf(Buf::GdnBeta), Arg::Buf(Buf::CacheSsm),
            Arg::Vector(VecId::SsmNorm), Arg::Buf(Buf::GdnZ), Arg::Buf(Buf::Xb),
            Arg::Int(to_i32(lin.n_k_heads)), Arg::Int(to_i32(lin.n_v_heads)),
            Arg::Int(to_i32(lin.state_size)), Arg::Int(to_i32(d.n_tok)), Arg::Eps,
        ],
        shape(to_u32(lin.n_v_heads), 128),
    )
}

/// The recurrence of many tokens, fused.
pub fn recurrent_many(d: ChunkDims, lin: LinearAttnWeights) -> (r: Vec<Launch>)
    requires
        d.fits(),
        lin.fits(),
    ensures
        plan_of(r@) == recurrent_many_plan(d, lin),
{
    {
        let mut out: Vec<Launch> = decay(d, lin);
        extend(&mut out, single(
            Kernel::CausalConv1d,
            vec![
                Arg::Buf(Buf::Q), Arg::Vector(VecId::Conv1d), Arg::Buf(Buf::CacheConv),
                Arg::Buf(Buf::GdnConv), Arg::Int(to_i32(lin.conv_channels)),
                Arg::Int(to_i32(lin.conv_kernel)), Arg::Int(to_i32(d.n_tok)),
            ],
            shape(ceil_div(to_u32(lin.conv_channels), 256), 256),
        ));
        extend(&mut out, single(
            Kernel::GdnSplitL2Seq,
            vec![
                Arg::Buf(Buf::GdnConv), Arg::Buf(Buf::GdnQ), Arg::Buf(Buf::GdnK),
                Arg::Buf(Buf::GdnV), Arg::Int(to_i32(lin.n_k_heads)),
                Arg::Int(to_i32(lin.n_v_heads)), Arg::Int(to_i32(lin.state_size)),
                Arg::Int(to_i32(lin.state_size)), Arg::Int(to_i32(d.n_tok)), Arg::Eps,
            ],
            shape2(to_u32(lin.n_k_heads), to_u32(d.n_tok), 128),
        ));
        extend(&mut out, single(
            Kernel::GdnDeltaGatedSeq,
            vec![
                Arg::Buf(Buf::GdnQ), Arg::Buf(Buf::GdnK), Arg::Buf(Buf::GdnV),
                Arg::Buf(Buf::GdnAlpha), Arg::Buf(Buf::GdnBeta), Arg::Buf(Buf::CacheSsm),
                Arg::Vector(VecId::SsmNorm), Arg::Buf(Buf::GdnZ), Arg::Buf(Buf::Xb),
                Arg::Int(to_i32(lin.n_k_heads)), Arg::Int(to_i32(lin.n_v_heads)),
                Arg::Int(to_i32(lin.state_size)), Arg::Int(to_i32(d.n_tok)), Arg::Eps,
            ],
            shape(to_u32(lin.n_v_heads), 128),
        ));
        out
    }
}

/// The recurrence of one token, step by step.
pub open spec fn plain_one_plan(d: ChunkDims, lin: LinearAttnWeights) -> Plan {
    decay_plan(d, lin)
    + one(
        Kernel::CausalConv1dOne,
        seq![
            Arg::Buf(Buf::Q), Arg::Vector(VecId::Conv1d), Arg::Buf(Buf::CacheConv),
            Arg::Buf(Buf::GdnConv), Arg::Int(to_i32(lin.conv_channels)),
            Arg::Int(to_i32(lin.conv_kernel)),
        ],
        shape(ceil_div(to_u32(lin.conv_channels), 256), 256),
    )
    + one(
        Kernel::SplitQkvL2One,
        seq![
            Arg::Buf(Buf::GdnConv), Arg::Buf(Buf::GdnQ), Arg::Buf(Buf::GdnK), Arg::Buf(Buf::GdnV),
            Arg::Int(to_i32(lin.n_k_heads)), Arg::Int(to_i32(lin.n_v_heads)),
            Arg::Int(to_i32(lin.state_size)), Arg::Int(to_i32(lin.state_size)), Arg::Eps,
        ],
        shape(to_u32(lin.n_k_heads), 128),
    )
    + one(
        Kernel::GatedDeltaOne,
        seq![
            Arg::Buf(Buf::GdnQ), Arg::Buf(Buf::GdnK), Arg::Buf(Buf::GdnV),
            Arg::Buf(Buf::GdnAlpha), Arg::Buf(Buf::GdnBeta), Arg::Buf(Buf::CacheSsm),
            Arg::Buf(Buf::GdnOut), Arg::Int(to_i32(lin.n_k_heads)),
            Arg::Int(to_i32(lin.n_v_heads)), Arg::Int(to_i32(lin.state_size)),
        ],
        shape(to_u32(lin.n_v_heads), 128),
    )
}

/// The recurrence of one token, step by step.
pub fn plain_one(d: ChunkDims, lin: LinearAttnWeights) -> (r: Vec<Launch>)
    requires
        d.fits(),
        lin.fits(),
    ensures
        plan_of(r@) == plain_one_plan(d, lin),
{
    {
        let mut out: Vec<Launch> = decay(d, lin);
        extend(&mut out, single(
            Kernel::CausalConv1dOne,
            vec![
                Arg::Buf(Buf::Q), Arg::Vector(VecId::Conv1d), Arg::Buf(Buf::CacheConv),
                Arg::Buf(Buf::GdnConv), Arg::Int(to_i32(lin.conv_channels)),
                Arg::Int(to_i32(lin.conv_kernel)),
            ],
            shape(ceil_div(to_u32(lin.conv_channels), 256), 256),
        ));
        extend(&mut out, single(
            Kernel::SplitQkvL2One,
            vec![
                Arg::Buf(Buf::GdnConv), Arg::Buf(Buf::GdnQ), Arg::Buf(Buf::GdnK),
                Arg::Buf(Buf::GdnV), Arg::Int(to_i32(lin.n_k_heads)),
                Arg::Int(to_i32(lin.n_v_heads)), Arg::Int(to_i32(lin.state_size)),
                Arg::Int(to_i32(lin.state_size)), Arg::Eps,
            ],
            shape(to_u32(lin.n_k_heads), 128),
        ));
        extend(&mut out, single(
            Kernel::GatedDeltaOne,
            vec![
                Arg::Buf(Buf::GdnQ), Arg::Buf(Buf::GdnK), Arg::Buf(Buf::GdnV),
                Arg::Buf(Buf::GdnAlpha), Arg::Buf(Buf::GdnBeta), Arg::Buf(Buf::CacheSsm),
                Arg::Buf(Buf::GdnOut), Arg::Int(to_i32(lin.n_k_heads)),
                Arg::Int(to_i32(lin.n_v_heads)), Arg::Int(to_i32(lin.state_size)),
            ],
            shape(to_u32(lin.n_v_heads), 128),
        ));
        out
    }
}

/// The recurrence of many tokens, step by step.
pub open spec fn plain_many_plan(d: ChunkDims, lin: LinearAttnWeights) -> Plan {
    decay_plan(d, lin)
    + one(
        Kernel::CausalConv1d,
        seq![
            Arg::Buf(Buf::Q), Arg::Vector(VecId::Conv1d), Arg::Buf(Buf::CacheConv),
            Arg::Buf(Buf::GdnConv), Arg::Int(to_i32(lin.conv_channels)),
            Arg::Int(to_i32(lin.conv_kernel)), Arg::Int(to_i32(d.n_tok)),
        ],
        shape(ceil_div(to_u32(lin.conv_channels), 256), 256),
    )
    + one(
        Kernel::SplitQkvConv,
        seq![
            Arg::Buf(Buf::GdnConv), Arg::Buf(Buf::GdnQ), Arg::Buf(Buf::GdnK), Arg::Buf(Buf::GdnV),
            Arg::Int(to_i32(lin.n_k_heads)), Arg::Int(to_i32(lin.n_v_heads)),
            Arg::Int(to_i32(lin.state_size)), Arg::Int(to_i32(lin.state_size)),
            Arg::Int(to_i32(d.n_tok)),
        ],
        shape(to_u32(d.n_tok), 128),
    )
    + one(
        Kernel::L2NormHeads,
        seq![
            Arg::Buf(Buf::GdnQ), Arg::Int(to_i32(lin.n_k_heads)),
            Arg::Int(to_i32(lin.state_size)), Arg::Int(to_i32(d.n_tok)), Arg::Eps,
        ],
        shape2(to_u32(lin.n_k_heads), to_u32(d.n_tok), 128),
    )
    + one(
        Kernel::L2NormHeads,
        seq![
            Arg::Buf(Buf::GdnK), Arg::Int(to_i32(lin.n_k_heads)),
            Arg::Int(to_i32(lin.state_size)), Arg::Int(to_i32(d.n_tok)), Arg::Eps,
        ],
        shape2(to_u32(lin.n_k_heads), to_u32(d.n_tok), 128),
    )
    + one(
        Kernel::GatedDeltaSeq,
        seq![
            Arg::Buf(Buf::GdnQ), Arg::Buf(Buf::GdnK), Arg::Buf(Buf::GdnV),
            Arg::Buf(Buf::GdnAlpha), Arg::Buf(Buf::GdnBeta), Arg::Buf(Buf::CacheSsm),
            Arg::Buf(Buf::GdnOut), Arg::Int(to_i32(lin.n_k_heads)),
            Arg::Int(to_i32(lin.n_v_heads)), Arg::Int(to_i32(lin.state_size)),
            Arg::Int(to_i32(lin.state_size)), Arg::Int(to_i32(d.n_tok)),
        ],
        shape(to_u32(lin.n_v_heads), 128),
    )
}

/// The recurrence of many tokens, step by step.
pub fn plain_many(d: ChunkDims, lin: LinearAttnWeights) -> (r: Vec<Launch>)
    requires
        d.fits(),
        lin.fits(),
    ensures
        plan_of(r@) == plain_many_plan(d, lin),
{
    {
        let mut out: Vec<Launch> = decay(d, lin);
        extend(&mut out, single(
            Kernel::CausalConv1d,
            vec![
                Arg::Buf(Buf::Q), Arg::Vector(VecId::Conv1d), Arg::Buf(Buf::CacheConv),
                Arg::Buf(Buf::GdnConv), Arg::Int(to_i32(lin.conv_channels)),
                Arg::Int(to_i32(lin.conv_kernel)), Arg::Int(to_i32(d.n_tok)),
            ],
            shape(ceil_div(to_u32(lin.conv_channels), 256), 256),
        ));
        extend(&mut out, single(
            Kernel::SplitQkvConv,
            vec![
                Arg::Buf(Buf::GdnConv), Arg::Buf(Buf::GdnQ), Arg::Buf(Buf::GdnK),
                Arg::Buf(Buf::GdnV), Arg::Int(to_i32(lin.n_k_heads)),
                Arg::Int(to_i32(lin.n_v_heads)), Arg::Int(to_i32(lin.state_size)),
                Arg::Int(to_i32(lin.state_size)), Arg::Int(to_i32(d.n_tok)),
            ],
            shape(to_u32(d.n_tok), 128),
        ));
        extend(&mut out, single(
            Kernel::L2NormHeads,
            vec![
                Arg::Buf(Buf::GdnQ), Arg::Int(to_i32(lin.n_k_heads)),
                Arg::Int(to_i32(lin.state_size)), Arg::Int(to_i32(d.n_tok)), Arg::Eps,
            ],
            shape2(to_u32(lin.n_k_heads), to_u32(d.n_tok), 128),
        ));
        extend(&mut out, single(
            Kernel::L2NormHeads,
            vec![
                Arg::Buf(Buf::GdnK), Arg::Int(to_i32(lin.n_k_heads)),
                Arg::Int(to_i32(lin.state_size)), Arg::Int(to_i32(d.n_tok)), Arg::Eps,
            ],
            shape2(to_u32(lin.n_k_heads), to_u32(d.n_tok), 128),
        ));
        extend(&mut out, single(
            Kernel::GatedDeltaSeq,
            vec![
                Arg::Buf(Buf::GdnQ), Arg::Buf(Buf::GdnK), Arg::Buf(Buf::GdnV),
                Arg::Buf(Buf::GdnAlpha), Arg::Buf(Buf::GdnBeta), Arg::Buf(Buf::CacheSsm),
                Arg::Buf(Buf::GdnOut), Arg::Int(to_i32(lin.n_k_heads)),
                Arg::Int(to_i32(lin.n_v_heads)), Arg::Int(to_i32(lin.state_size)),
                Arg::Int(to_i32(lin.state_size)), Arg::Int(to_i32(d.n_tok)),
            ],
            shape(to_u32(lin.n_v_heads), 128),
        ));
        out
    }
}

/// The gated normalisation.
pub open spec fn gated_norm_plan(d: ChunkDims, lin: LinearAttnWeights) -> Plan {
    one(
        Kernel::GatedRmsNorm,
        seq![
            Arg::Buf(Buf::GdnOut), Arg::Vector(VecId::SsmNorm), Arg::Buf(Buf::GdnZ),
            Arg::Buf(Buf::Xb), Arg::Int(to_i32(lin.n_v_heads)), Arg::Int(to_i32(lin.state_size)),
            Arg::Int(to_i32(d.n_tok)), Arg::Eps,
        ],
        shape2(to_u32(lin.n_v_heads), to_u32(d.n_tok), 128),
    )
}

/// The gated normalisation.
pub fn gated_norm(d: ChunkDims, lin: LinearAttnWeights) -> (r: Vec<Launch>)
    ensures
        plan_of(r@) == gated_norm_plan(d, lin),
{
    single(
        Kernel::GatedRmsNorm,
        vec![
            Arg::Buf(Buf::GdnOut), Arg::Vector(VecId::SsmNorm), Arg::Buf(Buf::GdnZ),
            Arg::Buf(Buf::Xb), Arg::Int(to_i32(lin.n_v_heads)), Arg::Int(to_i32(lin.state_size)),
            Arg::Int(to_i32(d.n_tok)), Arg::Eps,
        ],
        shape2(to_u32(lin.n_v_heads), to_u32(d.n_tok), 128),
    )
}

/// The recurrence of a linear layer.
pub open spec fn recurrence_plan(d: ChunkDims, lin: LinearAttnWeights, flags: Flags) -> Plan {
    if square_state(lin, flags) {
        if d.n_tok == 1 {
            recurrent_one_plan(lin)
        } else {
            recurrent_many_plan(d, lin)
        }
    } else if d.n_tok == 1 {
        plain_one_plan(d, lin)
        + gated_norm_plan(d, lin)
    } else {
        plain_many_plan(d, lin)
        + gated_norm_plan(d, lin)
    }
}

/// The recurrence of a linear layer.
pub fn recurrence(d: ChunkDims, lin: LinearAttnWeights, flags: Flags) -> (r: Vec<Launch>)
    requires
        d.fits(),
        lin.fits(),
    ensures
        plan_of(r@) == recurrence_plan(d, lin, flags),
{
    if square_state(lin, flags) {
        if d.n_tok == 1 {
            recurrent_one(lin)
        } else {
            recurrent_many(d, lin)
        }
    } else if d.n_tok == 1 {
        {
            let mut out: Vec<Launch> = plain_one(d, lin);
            extend(&mut out, gated_norm(d, lin));
            out
        }
    } else {
        {
            let mut out: Vec<Launch> = plain_many(d, lin);
            extend(&mut out, gated_norm(d, lin));
            out
        }
    }
}

/// Linear attention over a normalised chunk.
pub open spec fn attn_block_linear_plan(card: Card, d: ChunkDims, lin: LinearAttnWeights, flags: Flags) -> Result<Plan, PlanError> {
    if flags.skip_linear {
        Ok(
            Seq::<LaunchView>::empty(),
        )
    } else {
        join_plan(
            join_plan(
                gdn_projections_plan(card, d, lin, flags),
                Ok(
                    recurrence_plan(d, lin, flags),
                ),
            ),
            block_output_plan(card, d, lin.ssm_out, Buf::Xb),
        )
    }
}

/// Linear attention over a normalised chunk.
pub fn attn_block_linear(card: Card, d: ChunkDims, lin: LinearAttnWeights, flags: Flags) -> (r: Result<Vec<Launch>, PlanError>)
    requires
        card.wf(),
        d.fits(),
        !flags.skip_linear ==> linear_ok(card, d.n_tok, lin, flags),
    ensures
        result_plan(r) == attn_block_linear_plan(card, d, lin, flags),
{
    if flags.skip_linear {
        Ok(
            nothing(),
        )
    } else {
        join(
            join(
                gdn_projections(card, d, lin, flags),
                Ok(
                    recurrence(d, lin, flags),
                ),
            ),
            block_output(card, d, lin.ssm_out, Buf::Xb),
        )
    }
}

/// Whether attention has kernels for its matrices, or is left out.
pub open spec fn attn_ok(card: Card, n_tok: usize, attn: LayerAttn, flags: Flags) -> bool {
    match attn {
        LayerAttn::Full(full) => full_ok(card, n_tok, full),
        LayerAttn::Linear(lin) => flags.skip_linear || linear_ok(card, n_tok, lin, flags),
    }
}

/// Whether normalisation and quantization are one kernel.
#[verifier::allow_in_spec]
pub fn fuses_prep(d: ChunkDims, attn: LayerAttn) -> bool
    returns
        (match attn {
            LayerAttn::Full(full) => d.n_tok == 1 && all_q4_0(full),
            LayerAttn::Linear(_) => false,
        }),
{
    match attn {
        LayerAttn::Full(full) => d.n_tok == 1 && all_q4_0(full),
        LayerAttn::Linear(_) => false,
    }
}

/// Normalises the stream before attention.
pub open spec fn attn_norm_plan(d: ChunkDims, attn: LayerAttn) -> Plan {
    if fuses_prep(d, attn) {
        one(
            Kernel::AttnPrep,
            seq![
                Arg::Buf(Buf::X), Arg::Vector(VecId::AttnNorm), Arg::Buf(Buf::Xb),
                Arg::Buf(Buf::Q8X), Arg::Buf(Buf::Q8D), Arg::Int(to_i32(d.n_embd)), Arg::Eps,
            ],
            shape(1, 256),
        )
    } else {
        rms_norm_plan(Buf::X, VecId::AttnNorm, Buf::Xb, d.n_embd, d.n_tok)
    }
}

/// Normalises the stream before attention.
pub fn attn_norm(d: ChunkDims, attn: LayerAttn) -> (r: Vec<Launch>)
    ensures
        plan_of(r@) == attn_norm_plan(d, attn),
{
    if fuses_prep(d, attn) {
        single(
            Kernel::AttnPrep,
            vec![
                Arg::Buf(Buf::X), Arg::Vector(VecId::AttnNorm), Arg::Buf(Buf::Xb),
                Arg::Buf(Buf::Q8X), Arg::Buf(Buf::Q8D), Arg::Int(to_i32(d.n_embd)), Arg::Eps,
            ],
            shape(1, 256),
        )
    } else {
        rms_norm(Buf::X, VecId::AttnNorm, Buf::Xb, d.n_embd, d.n_tok)
    }
}

/// The attention of a layer.
pub open spec fn attn_block_plan(
    card: Card,
    d: ChunkDims,
    attn: LayerAttn,
    rope: RopeConfig,
    li: usize,
    flags: Flags,
    decode: DecodeBackend,
) -> Result<Plan, PlanError> {
    join_plan(
        Ok(
            attn_norm_plan(d, attn),
        ),
        match attn {
            LayerAttn::Full(full) => attn_block_full_plan(card, d, full, rope, li, flags, decode),
            LayerAttn::Linear(lin) => attn_block_linear_plan(card, d, lin, flags),
        },
    )
}

/// The attention of a layer.
pub fn attn_block(
    card: Card,
    d: ChunkDims,
    attn: LayerAttn,
    rope: RopeConfig,
    li: usize,
    flags: Flags,
    decode: DecodeBackend,
) -> (r: Result<Vec<Launch>, PlanError>)
    requires
        card.wf(),
        d.fits(),
        attn_ok(card, d.n_tok, attn, flags),
        li < MAX_SIDE,
        decode.wf(),
    ensures
        result_plan(r) == attn_block_plan(card, d, attn, rope, li, flags, decode),
{
    join(
        Ok(
            attn_norm(d, attn),
        ),
        match attn {
            LayerAttn::Full(full) => attn_block_full(card, d, full, rope, li, flags, decode),
            LayerAttn::Linear(lin) => attn_block_linear(card, d, lin, flags),
        },
    )
}

/// Whether gate and up of one token have kernels.
pub open spec fn gate_up_ok(card: Card, gate: GpuMat, up: GpuMat) -> bool {
    ||| try_gemv_q4_ffn_plan(card, gate, up, Buf::Xb, Buf::Hb) is Some
    ||| try_gemv_q4_dual_plan(card, gate, up, Buf::Xb, Buf::Hb, Buf::Hb2) is Some
    ||| try_gemv_pair_plan(card, gate, up, Buf::Xb, Buf::Hb, Buf::Hb2, None, None) is Some
    ||| project_ok(card, gate) && project_ok(card, up)
}

/// Whether a dense feed-forward layer has kernels for its matrices.
pub open spec fn dense_ok(card: Card, n_tok: usize, gate: GpuMat, up: GpuMat, down: GpuMat) -> bool {
    &&& gate.fits() && up.fits() && down.fits()
    &&& output_kernels(card, n_tok, down)
    &&& if n_tok == 1 {
        gate_up_ok(card, gate, up)
    } else {
        gemm_ok(card, gate, n_tok) && gemm_ok(card, up, n_tok)
    }
}

/// The activation: gate times up.
pub open spec fn silu_mul_plan(d: ChunkDims) -> Plan {
    one(
        Kernel::SiluMul,
        seq![Arg::Buf(Buf::Hb), Arg::Buf(Buf::Hb2), Arg::Int(signed_area(d.n_ff, d.n_tok))],
        elems(area(d.n_ff, d.n_tok)),
    )
}

/// The activation: gate times up.
pub fn silu_mul(d: ChunkDims) -> (r: Vec<Launch>)
    requires
        d.fits(),
    ensures
        plan_of(r@) == silu_mul_plan(d),
{
    proof {
        lemma_sides(d.n_ff, d.n_tok);
    }
    single(
        Kernel::SiluMul,
        vec![Arg::Buf(Buf::Hb), Arg::Buf(Buf::Hb2), Arg::Int(signed_area(d.n_ff, d.n_tok))],
        elems(area(d.n_ff, d.n_tok)),
    )
}

/// Gate, up and activation of one token: with as few kernels as there are.
pub open spec fn gate_up_one_plan(card: Card, d: ChunkDims, gate: GpuMat, up: GpuMat) -> Plan {
    match try_gemv_q4_ffn_plan(card, gate, up, Buf::Xb, Buf::Hb) {
        Some(p) => p,
        None => (match try_gemv_q4_dual_plan(card, gate, up, Buf::Xb, Buf::Hb, Buf::Hb2) {
            Some(p) => p,
            None => match try_gemv_pair_plan(card, gate, up, Buf::Xb, Buf::Hb, Buf::Hb2, None, None) {
                Some(p) => p,
                None => project_plan(card, gate, Buf::Xb, Buf::Hb, GemvResidual::Nothing)
                + project_plan(card, up, Buf::Xb, Buf::Hb2, GemvResidual::Nothing),
            },
        })
        + silu_mul_plan(d),
    }
}

/// Gate, up and activation of one token: with as few kernels as there are.
pub fn gate_up_one(card: Card, d: ChunkDims, gate: GpuMat, up: GpuMat) -> (r: Vec<Launch>)
    requires
        card.wf(),
        d.fits(),
        gate.fits(),
        up.fits(),
        gate_up_ok(card, gate, up),
    ensures
        plan_of(r@) == gate_up_one_plan(card, d, gate, up),
{
    match try_gemv_q4_ffn(card, gate, up, Buf::Xb, Buf::Hb) {
        Some(p) => p,
        None => {
            let mut out: Vec<Launch> = match try_gemv_q4_dual(card, gate, up, Buf::Xb, Buf::Hb, Buf::Hb2) {
                Some(p) => p,
                None => match try_gemv_pair(card, gate, up, Buf::Xb, Buf::Hb, Buf::Hb2, None, None) {
                    Some(p) => p,
                    None => {
                        let mut out: Vec<Launch> = project(card, gate, Buf::Xb, Buf::Hb, GemvResidual::Nothing);
                        extend(&mut out, project(card, up, Buf::Xb, Buf::Hb2, GemvResidual::Nothing));
                        out
                    },
                },
            };
            extend(&mut out, silu_mul(d));
            out
        },
    }
}

/// Gate, up and activation of a chunk.
pub open spec fn gate_up_plan(card: Card, d: ChunkDims, gate: GpuMat, up: GpuMat) -> Result<Plan, PlanError> {
    if d.n_tok == 1 {
        Ok(
            gate_up_one_plan(card, d, gate, up),
        )
    } else {
        join_plan(
            join_plan(
                gemm_plan(card, gate, Buf::Xb, Buf::Hb, d.n_tok),
                gemm_plan(card, up, Buf::Xb, Buf::Hb2, d.n_tok),
            ),
            Ok(
                silu_mul_plan(d),
            ),
        )
    }
}

/// Gate, up and activation of a chunk.
pub fn gate_up(card: Card, d: ChunkDims, gate: GpuMat, up: GpuMat) -> (r: Result<Vec<Launch>, PlanError>)
    requires
        card.wf(),
        d.fits(),
        gate.fits(),
        up.fits(),
        d.n_tok == 1 ==> gate_up_ok(card, gate, up),
        d.n_tok != 1 ==> gemm_ok(card, gate, d.n_tok) && gemm_ok(card, up, d.n_tok),
    ensures
        result_plan(r) == gate_up_plan(card, d, gate, up),
{
    if d.n_tok == 1 {
        Ok(
            gate_up_one(card, d, gate, up),
        )
    } else {
        join(
            join(
                gemm(card, gate, Buf::Xb, Buf::Hb, d.n_tok),
                gemm(card, up, Buf::Xb, Buf::Hb2, d.n_tok),
            ),
            Ok(
                silu_mul(d),
            ),
        )
    }
}

/// A dense feed-forward layer.
pub open spec fn ffn_block_dense_plan(card: Card, d: ChunkDims, gate: GpuMat, up: GpuMat, down: GpuMat) -> Result<Plan, PlanError> {
    join_plan(
        join_plan(
            Ok(
                rms_norm_plan(Buf::X, VecId::FfnNorm, Buf::Xb, d.n_embd, d.n_tok),
            ),
            gate_up_plan(card, d, gate, up),
        ),
        block_output_plan(card, d, down, Buf::Hb),
    )
}

/// A dense feed-forward layer.
pub fn ffn_block_dense(card: Card, d: ChunkDims, gate: GpuMat, up: GpuMat, down: GpuMat) -> (r: Result<Vec<Launch>, PlanError>)
    requires
        card.wf(),
        d.fits(),
        dense_ok(card, d.n_tok, gate, up, down),
    ensures
        result_plan(r) == ffn_block_dense_plan(card, d, gate, up, down),
{
    join(
        join(
            Ok(
                rms_norm(Buf::X, VecId::FfnNorm, Buf::Xb, d.n_embd, d.n_tok),
            ),
            gate_up(card, d, gate, up),
        ),
        block_output(card, d, down, Buf::Hb),
    )
}

impl MoeFfnWeights {
    /// There are experts to pick, and no more than can be counted.
    pub open spec fn fits(self) -> bool {
        &&& 1 <= self.n_experts <= MAX_SIDE
        &&& self.top_k <= MAX_SIDE
        &&& self.expert_ff <= MAX_SIDE
    }
}

/// Experts that a token uses.
#[verifier::allow_in_spec]
pub fn experts_used(m: MoeFfnWeights, flags: Flags) -> usize
    returns
        (match flags.moe_topk {
            Some(Some(k)) => if k < 1 {
                1usize
            } else if k > m.n_experts {
                m.n_experts
            } else {
                k
            },
            Some(None) => m.top_k,
            None => if flags.speed {
                1usize
            } else {
                m.top_k
            },
        }),
{
    match flags.moe_topk {
        Some(Some(k)) => if k < 1 {
            1
        } else if k > m.n_experts {
            m.n_experts
        } else {
            k
        },
        Some(None) => m.top_k,
        None => if flags.speed {
            1
        } else {
            m.top_k
        },
    }
}

/// Whether gate and up leave their output quantized.
#[verifier::allow_in_spec]
pub fn gate_q8(m: MoeFfnWeights, flags: Flags) -> bool
    returns
        m.gate_all.wtype == WType::Q4_0 && m.expert_ff >= 32 && m.expert_ff % 32 == 0 && flags.moe_gate_q8 && !flags.moe_classic && !flags.moe_4w && !flags.moe_2w,
{
    m.gate_all.wtype == WType::Q4_0 && m.expert_ff >= 32 && m.expert_ff % 32 == 0 && flags.moe_gate_q8 && !flags.moe_classic && !flags.moe_4w && !flags.moe_2w
}

/// Warps of a block over the columns of an expert.
#[verifier::allow_in_spec]
pub fn expert_warps(d: ChunkDims, flags: Flags) -> u32
    returns
        (match flags.gemv_warps {
            Some(w) => if 1 <= w && w <= 32 {
                w
            } else if d.n_embd / 32 < 32 {
                1u32
            } else {
                4u32
            },
            None => if d.n_embd / 32 < 32 {
                1u32
            } else {
                4u32
            },
        }),
{
    match flags.gemv_warps {
        Some(w) => if 1 <= w && w <= 32 {
            w
        } else if d.n_embd / 32 < 32 {
            1
        } else {
            4
        },
        None => if d.n_embd / 32 < 32 {
            1
        } else {
            4
        },
    }
}

/// A warp for each of `n` columns.
#[verifier::allow_in_spec]
pub fn expert_shape(n: usize, warps: u32) -> Shape
    requires
        1 <= warps <= 32,
    returns
        shape(ceil_div(to_u32(n), warps), (warps * 32) as u32),
{
    shape(ceil_div(to_u32(n), warps), warps * 32)
}

/// One expert, stored block by block.
pub open spec fn slot_block_major_plan(d: ChunkDims, m: MoeFfnWeights, slot: usize) -> Plan {
    one(
        Kernel::GemvQ40BmExpertGateUp,
        seq![
            Arg::Mat(m.gate_all.id, Part::Data), Arg::Mat(m.up_all.id, Part::Data),
            Arg::Buf(Buf::Q8X), Arg::Buf(Buf::Q8D), Arg::Buf(Buf::Hb), Arg::Buf(Buf::MoeIdx),
            Arg::Int(to_i32(slot)), Arg::Int(to_i32(d.n_embd)), Arg::Int(to_i32(m.expert_ff)),
        ],
        shape(ceil_div(to_u32(m.expert_ff), 128), 128),
    )
    + quantize_q8_plan(Buf::Hb, Buf::Q8Ff, Buf::Q8FfD, m.expert_ff)
    + one(
        Kernel::GemvQ40BmExpertDownScale,
        seq![
            Arg::Mat(m.down_all.id, Part::Data), Arg::Buf(Buf::Q8Ff), Arg::Buf(Buf::Q8FfD),
            Arg::Buf(Buf::X), Arg::Buf(Buf::MoeIdx), Arg::Buf(Buf::MoeW), Arg::Int(to_i32(slot)),
            Arg::Int(to_i32(m.expert_ff)), Arg::Int(to_i32(d.n_embd)),
        ],
        shape(ceil_div(to_u32(d.n_embd), 128), 128),
    )
}

/// One expert, stored block by block.
pub fn slot_block_major(d: ChunkDims, m: MoeFfnWeights, slot: usize) -> (r: Vec<Launch>)
    ensures
        plan_of(r@) == slot_block_major_plan(d, m, slot),
{
    {
        let mut out: Vec<Launch> = single(
            Kernel::GemvQ40BmExpertGateUp,
            vec![
                Arg::Mat(m.gate_all.id, Part::Data), Arg::Mat(m.up_all.id, Part::Data),
                Arg::Buf(Buf::Q8X), Arg::Buf(Buf::Q8D), Arg::Buf(Buf::Hb), Arg::Buf(Buf::MoeIdx),
                Arg::Int(to_i32(slot)), Arg::Int(to_i32(d.n_embd)), Arg::Int(to_i32(m.expert_ff)),
            ],
            shape(ceil_div(to_u32(m.expert_ff), 128), 128),
        );
        extend(&mut out, quantize_q8(Buf::Hb, Buf::Q8Ff, Buf::Q8FfD, m.expert_ff));
        extend(&mut out, single(
            Kernel::GemvQ40BmExpertDownScale,
            vec![
                Arg::Mat(m.down_all.id, Part::Data), Arg::Buf(Buf::Q8Ff), Arg::Buf(Buf::Q8FfD),
                Arg::Buf(Buf::X), Arg::Buf(Buf::MoeIdx), Arg::Buf(Buf::MoeW),
                Arg::Int(to_i32(slot)), Arg::Int(to_i32(m.expert_ff)), Arg::Int(to_i32(d.n_embd)),
            ],
            shape(ceil_div(to_u32(d.n_embd), 128), 128),
        ));
        out
    }
}

/// One expert in half precision.
pub open spec fn slot_f16_plan(d: ChunkDims, m: MoeFfnWeights, slot: usize) -> Plan {
    one(
        Kernel::GemvF16ExpertGateUp4w,
        seq![
            Arg::Mat(m.gate_all.id, Part::Data), Arg::Mat(m.up_all.id, Part::Data),
            Arg::Buf(Buf::Xb), Arg::Buf(Buf::Hb), Arg::Buf(Buf::MoeIdx), Arg::Int(to_i32(slot)),
            Arg::Int(to_i32(d.n_embd)), Arg::Int(to_i32(m.expert_ff)),
        ],
        shape(to_u32(m.expert_ff), 128),
    )
    + one(
        Kernel::GemvF16ExpertDownScale4w,
        seq![
            Arg::Mat(m.down_all.id, Part::Data), Arg::Buf(Buf::Hb), Arg::Buf(Buf::X),
            Arg::Buf(Buf::MoeIdx), Arg::Buf(Buf::MoeW), Arg::Int(to_i32(slot)),
            Arg::Int(to_i32(m.expert_ff)), Arg::Int(to_i32(d.n_embd)),
        ],
        shape(to_u32(d.n_embd), 128),
    )
}

/// One expert in half precision.
pub fn slot_f16(d: ChunkDims, m: MoeFfnWeights, slot: usize) -> (r: Vec<Launch>)
    ensures
        plan_of(r@) == slot_f16_plan(d, m, slot),
{
    {
        let mut out: Vec<Launch> = single(
            Kernel::GemvF16ExpertGateUp4w,
            vec![
                Arg::Mat(m.gate_all.id, Part::Data), Arg::Mat(m.up_all.id, Part::Data),
                Arg::Buf(Buf::Xb), Arg::Buf(Buf::Hb), Arg::Buf(Buf::MoeIdx),
                Arg::Int(to_i32(slot)), Arg::Int(to_i32(d.n_embd)), Arg::Int(to_i32(m.expert_ff)),
            ],
            shape(to_u32(m.expert_ff), 128),
        );
        extend(&mut out, single(
            Kernel::GemvF16ExpertDownScale4w,
            vec![
                Arg::Mat(m.down_all.id, Part::Data), Arg::Buf(Buf::Hb), Arg::Buf(Buf::X),
                Arg::Buf(Buf::MoeIdx), Arg::Buf(Buf::MoeW), Arg::Int(to_i32(slot)),
                Arg::Int(to_i32(m.expert_ff)), Arg::Int(to_i32(d.n_embd)),
            ],
            shape(to_u32(d.n_embd), 128),
        ));
        out
    }
}

/// One expert, four warps to a column.
pub open spec fn slot_four_warps_plan(d: ChunkDims, m: MoeFfnWeights, slot: usize) -> Plan {
    one(
        Kernel::GemvQ40ExpertGateUp4w,
        seq![
            Arg::Mat(m.gate_all.id, Part::Data), Arg::Mat(m.up_all.id, Part::Data),
            Arg::Buf(Buf::Q8X), Arg::Buf(Buf::Q8D), Arg::Buf(Buf::Hb), Arg::Buf(Buf::MoeIdx),
            Arg::Int(to_i32(slot)), Arg::Int(to_i32(d.n_embd)), Arg::Int(to_i32(m.expert_ff)),
            Arg::Int(to_i32(m.gate_all.col_bytes)),
        ],
        shape(to_u32(m.expert_ff), 128),
    )
    + quantize_q8_plan(Buf::Hb, Buf::Q8Ff, Buf::Q8FfD, m.expert_ff)
    + one(
        Kernel::GemvQ40ExpertDownScale4w,
        seq![
            Arg::Mat(m.down_all.id, Part::Data), Arg::Buf(Buf::Q8Ff), Arg::Buf(Buf::Q8FfD),
            Arg::Buf(Buf::X), Arg::Buf(Buf::MoeIdx), Arg::Buf(Buf::MoeW), Arg::Int(to_i32(slot)),
            Arg::Int(to_i32(m.expert_ff)), Arg::Int(to_i32(d.n_embd)),
            Arg::Int(to_i32(m.down_all.col_bytes)),
        ],
        shape(to_u32(d.n_embd), 128),
    )
}

/// One expert, four warps to a column.
pub fn slot_four_warps(d: ChunkDims, m: MoeFfnWeights, slot: usize) -> (r: Vec<Launch>)
    ensures
        plan_of(r@) == slot_four_warps_plan(d, m, slot),
{
    {
        let mut out: Vec<Launch> = single(
            Kernel::GemvQ40ExpertGateUp4w,
            vec![
                Arg::Mat(m.gate_all.id, Part::Data), Arg::Mat(m.up_all.id, Part::Data),
                Arg::Buf(Buf::Q8X), Arg::Buf(Buf::Q8D), Arg::Buf(Buf::Hb), Arg::Buf(Buf::MoeIdx),
                Arg::Int(to_i32(slot)), Arg::Int(to_i32(d.n_embd)), Arg::Int(to_i32(m.expert_ff)),
                Arg::Int(to_i32(m.gate_all.col_bytes)),
            ],
            shape(to_u32(m.expert_ff), 128),
        );
        extend(&mut out, quantize_q8(Buf::Hb, Buf::Q8Ff, Buf::Q8FfD, m.expert_ff));
        extend(&mut out, single(
            Kernel::GemvQ40ExpertDownScale4w,
            vec![
                Arg::Mat(m.down_all.id, Part::Data), Arg::Buf(Buf::Q8Ff), Arg::Buf(Buf::Q8FfD),
                Arg::Buf(Buf::X), Arg::Buf(Buf::MoeIdx), Arg::Buf(Buf::MoeW),
                Arg::Int(to_i32(slot)), Arg::Int(to_i32(m.expert_ff)), Arg::Int(to_i32(d.n_embd)),
                Arg::Int(to_i32(m.down_all.col_bytes)),
            ],
            shape(to_u32(d.n_embd), 128),
        ));
        out
    }
}

/// One expert, two warps to a column.
pub open spec fn slot_two_warps_plan(d: ChunkDims, m: MoeFfnWeights, slot: usize) -> Plan {
    one(
        Kernel::GemvQ40ExpertGateUp2w,
        seq![
            Arg::Mat(m.gate_all.id, Part::Data), Arg::Mat(m.up_all.id, Part::Data),
            Arg::Buf(Buf::Q8X), Arg::Buf(Buf::Q8D), Arg::Buf(Buf::Hb), Arg::Buf(Buf::MoeIdx),
            Arg::Int(to_i32(slot)), Arg::Int(to_i32(d.n_embd)), Arg::Int(to_i32(m.expert_ff)),
            Arg::Int(to_i32(m.gate_all.col_bytes)),
        ],
        shape(to_u32(m.expert_ff), 64),
    )
    + quantize_q8_plan(Buf::Hb, Buf::Q8Ff, Buf::Q8FfD, m.expert_ff)
    + one(
        Kernel::GemvQ40ExpertDownScale2w,
        seq![
            Arg::Mat(m.down_all.id, Part::Data), Arg::Buf(Buf::Q8Ff), Arg::Buf(Buf::Q8FfD),
            Arg::Buf(Buf::X), Arg::Buf(Buf::MoeIdx), Arg::Buf(Buf::MoeW), Arg::Int(to_i32(slot)),
            Arg::Int(to_i32(m.expert_ff)), Arg::Int(to_i32(d.n_embd)),
            Arg::Int(to_i32(m.down_all.col_bytes)),
        ],
        shape(to_u32(d.n_embd), 64),
    )
}

/// One expert, two warps to a column.
pub fn slot_two_warps(d: ChunkDims, m: MoeFfnWeights, slot: usize) -> (r: Vec<Launch>)
    ensures
        plan_of(r@) == slot_two_warps_plan(d, m, slot),
{
    {
        let mut out: Vec<Launch> = single(
            Kernel::GemvQ40ExpertGateUp2w,
            vec![
                Arg::Mat(m.gate_all.id, Part::Data), Arg::Mat(m.up_all.id, Part::Data),
                Arg::Buf(Buf::Q8X), Arg::Buf(Buf::Q8D), Arg::Buf(Buf::Hb), Arg::Buf(Buf::MoeIdx),
                Arg::Int(to_i32(slot)), Arg::Int(to_i32(d.n_embd)), Arg::Int(to_i32(m.expert_ff)),
                Arg::Int(to_i32(m.gate_all.col_bytes)),
            ],
            shape(to_u32(m.expert_ff), 64),
        );
        extend(&mut out, quantize_q8(Buf::Hb, Buf::Q8Ff, Buf::Q8FfD, m.expert_ff));
        extend(&mut out, single(
            Kernel::GemvQ40ExpertDownScale2w,
            vec![
                Arg::Mat(m.down_all.id, Part::Data), Arg::Buf(Buf::Q8Ff), Arg::Buf(Buf::Q8FfD),
                Arg::Buf(Buf::X), Arg::Buf(Buf::MoeIdx), Arg::Buf(Buf::MoeW),
                Arg::Int(to_i32(slot)), Arg::Int(to_i32(m.expert_ff)), Arg::Int(to_i32(d.n_embd)),
                Arg::Int(to_i32(m.down_all.col_bytes)),
            ],
            shape(to_u32(d.n_embd), 64),
        ));
        out
    }
}

/// One expert, gate and up quantized as they come.
pub open spec fn slot_gate_q8_plan(d: ChunkDims, m: MoeFfnWeights, slot: usize, warps: u32) -> Plan {
    one(
        Kernel::GemvQ40ExpertGateUpQ8,
        seq![
            Arg::Mat(m.gate_all.id, Part::Data), Arg::Mat(m.up_all.id, Part::Data),
            Arg::Buf(Buf::Q8X), Arg::Buf(Buf::Q8D), Arg::Buf(Buf::Q8Ff), Arg::Buf(Buf::Q8FfD),
            Arg::Buf(Buf::MoeIdx), Arg::Int(to_i32(slot)), Arg::Int(to_i32(d.n_embd)),
            Arg::Int(to_i32(m.expert_ff)), Arg::Int(to_i32(m.gate_all.col_bytes)),
        ],
        shape(to_u32(m.expert_ff) / 32, 1024),
    )
    + one(
        Kernel::GemvQ40ExpertDownScale,
        seq![
            Arg::Mat(m.down_all.id, Part::Data), Arg::Buf(Buf::Q8Ff), Arg::Buf(Buf::Q8FfD),
            Arg::Buf(Buf::X), Arg::Buf(Buf::MoeIdx), Arg::Buf(Buf::MoeW), Arg::Int(to_i32(slot)),
            Arg::Int(to_i32(m.expert_ff)), Arg::Int(to_i32(d.n_embd)),
            Arg::Int(to_i32(m.down_all.col_bytes)),
        ],
        expert_shape(d.n_embd, warps),
    )
}

/// One expert, gate and up quantized as they come.
pub fn slot_gate_q8(d: ChunkDims, m: MoeFfnWeights, slot: usize, warps: u32) -> (r: Vec<Launch>)
    requires
        1 <= warps <= 32,
    ensures
        plan_of(r@) == slot_gate_q8_plan(d, m, slot, warps),
{
    {
        let mut out: Vec<Launch> = single(
            Kernel::GemvQ40ExpertGateUpQ8,
            vec![
                Arg::Mat(m.gate_all.id, Part::Data), Arg::Mat(m.up_all.id, Part::Data),
                Arg::Buf(Buf::Q8X), Arg::Buf(Buf::Q8D), Arg::Buf(Buf::Q8Ff), Arg::Buf(Buf::Q8FfD),
                Arg::Buf(Buf::MoeIdx), Arg::Int(to_i32(slot)), Arg::Int(to_i32(d.n_embd)),
                Arg::Int(to_i32(m.expert_ff)), Arg::Int(to_i32(m.gate_all.col_bytes)),
            ],
            shape(to_u32(m.expert_ff) / 32, 1024),
        );
        extend(&mut out, single(
            Kernel::GemvQ40ExpertDownScale,
            vec![
                Arg::Mat(m.down_all.id, Part::Data), Arg::Buf(Buf::Q8Ff), Arg::Buf(Buf::Q8FfD),
                Arg::Buf(Buf::X), Arg::Buf(Buf::MoeIdx), Arg::Buf(Buf::MoeW),
                Arg::Int(to_i32(slot)), Arg::Int(to_i32(m.expert_ff)), Arg::Int(to_i32(d.n_embd)),
                Arg::Int(to_i32(m.down_all.col_bytes)),
            ],
            expert_shape(d.n_embd, warps),
        ));
        out
    }
}

/// The kernel for gate and up of an expert.
#[verifier::allow_in_spec]
pub fn classic_gate_up(m: MoeFfnWeights) -> Kernel
    returns
        (if m.gate_all.wtype == WType::Q4_0 {
            Kernel::GemvQ40ExpertGateUp
        } else {
            Kernel::GemvQ8ExpertGateUp
        }),
{
    if m.gate_all.wtype == WType::Q4_0 {
        Kernel::GemvQ40ExpertGateUp
    } else {
        Kernel::GemvQ8ExpertGateUp
    }
}

/// The kernel for down of an expert.
#[verifier::allow_in_spec]
pub fn classic_down(m: MoeFfnWeights) -> Kernel
    returns
        (if m.gate_all.wtype == WType::Q4_0 {
            Kernel::GemvQ40ExpertDownScale
        } else {
            Kernel::GemvQ8ExpertDownScale
        }),
{
    if m.gate_all.wtype == WType::Q4_0 {
        Kernel::GemvQ40ExpertDownScale
    } else {
        Kernel::GemvQ8ExpertDownScale
    }
}

/// One expert, its gate and up quantized in between.
pub open spec fn slot_classic_plan(d: ChunkDims, m: MoeFfnWeights, slot: usize, warps: u32) -> Plan {
    one(
        classic_gate_up(m),
        seq![
            Arg::Mat(m.gate_all.id, Part::Data), Arg::Mat(m.up_all.id, Part::Data),
            Arg::Buf(Buf::Q8X), Arg::Buf(Buf::Q8D), Arg::Buf(Buf::Hb), Arg::Buf(Buf::Hb2),
            Arg::Buf(Buf::MoeIdx), Arg::Int(to_i32(slot)), Arg::Int(to_i32(d.n_embd)),
            Arg::Int(to_i32(m.expert_ff)), Arg::Int(to_i32(m.gate_all.col_bytes)),
        ],
        expert_shape(m.expert_ff, warps),
    )
    + quantize_q8_plan(Buf::Hb, Buf::Q8X, Buf::Q8D, m.expert_ff)
    + one(
        classic_down(m),
        seq![
            Arg::Mat(m.down_all.id, Part::Data), Arg::Buf(Buf::Q8X), Arg::Buf(Buf::Q8D),
            Arg::Buf(Buf::X), Arg::Buf(Buf::MoeIdx), Arg::Buf(Buf::MoeW), Arg::Int(to_i32(slot)),
            Arg::Int(to_i32(m.expert_ff)), Arg::Int(to_i32(d.n_embd)),
            Arg::Int(to_i32(m.down_all.col_bytes)),
        ],
        expert_shape(d.n_embd, warps),
    )
}

/// One expert, its gate and up quantized in between.
pub fn slot_classic(d: ChunkDims, m: MoeFfnWeights, slot: usize, warps: u32) -> (r: Vec<Launch>)
    requires
        1 <= warps <= 32,
    ensures
        plan_of(r@) == slot_classic_plan(d, m, slot, warps),
{
    {
        let mut out: Vec<Launch> = single(
            classic_gate_up(m),
            vec![
                Arg::Mat(m.gate_all.id, Part::Data), Arg::Mat(m.up_all.id, Part::Data),
                Arg::Buf(Buf::Q8X), Arg::Buf(Buf::Q8D), Arg::Buf(Buf::Hb), Arg::Buf(Buf::Hb2),
                Arg::Buf(Buf::MoeIdx), Arg::Int(to_i32(slot)), Arg::Int(to_i32(d.n_embd)),
                Arg::Int(to_i32(m.expert_ff)), Arg::Int(to_i32(m.gate_all.col_bytes)),
            ],
            expert_shape(m.expert_ff, warps),
        );
        extend(&mut out, quantize_q8(Buf::Hb, Buf::Q8X, Buf::Q8D, m.expert_ff));
        extend(&mut out, single(
            classic_down(m),
            vec![
                Arg::Mat(m.down_all.id, Part::Data), Arg::Buf(Buf::Q8X), Arg::Buf(Buf::Q8D),
                Arg::Buf(Buf::X), Arg::Buf(Buf::MoeIdx), Arg::Buf(Buf::MoeW),
                Arg::Int(to_i32(slot)), Arg::Int(to_i32(m.expert_ff)), Arg::Int(to_i32(d.n_embd)),
                Arg::Int(to_i32(m.down_all.col_bytes)),
            ],
            expert_shape(d.n_embd, warps),
        ));
        out
    }
}

/// One of the experts that the router picked.
pub open spec fn expert_slot_plan(d: ChunkDims, m: MoeFfnWeights, flags: Flags, slot: usize) -> Plan {
    if m.gate_all.wtype == WType::Q4_0_BM {
        slot_block_major_plan(d, m, slot)
    } else if m.gate_all.wtype == WType::F16 {
        slot_f16_plan(d, m, slot)
    } else if m.gate_all.wtype == WType::Q4_0 && flags.moe_4w {
        slot_four_warps_plan(d, m, slot)
    } else if m.gate_all.wtype == WType::Q4_0 && flags.moe_2w {
        slot_two_warps_plan(d, m, slot)
    } else if gate_q8(m, flags) {
        slot_gate_q8_plan(d, m, slot, expert_warps(d, flags))
    } else {
        slot_classic_plan(d, m, slot, expert_warps(d, flags))
    }
}

/// One of the experts that the router picked.
pub fn expert_slot(d: ChunkDims, m: MoeFfnWeights, flags: Flags, slot: usize) -> (r: Vec<Launch>)
    ensures
        plan_of(r@) == expert_slot_plan(d, m, flags, slot),
{
    if m.gate_all.wtype == WType::Q4_0_BM {
        slot_block_major(d, m, slot)
    } else if m.gate_all.wtype == WType::F16 {
        slot_f16(d, m, slot)
    } else if m.gate_all.wtype == WType::Q4_0 && flags.moe_4w {
        slot_four_warps(d, m, slot)
    } else if m.gate_all.wtype == WType::Q4_0 && flags.moe_2w {
        slot_two_warps(d, m, slot)
    } else if gate_q8(m, flags) {
        slot_gate_q8(d, m, slot, expert_warps(d, flags))
    } else {
        slot_classic(d, m, slot, expert_warps(d, flags))
    }
}

/// Normalises the stream and picks the experts.
pub open spec fn moe_route_plan(d: ChunkDims, m: MoeFfnWeights, top_k: usize) -> Plan {
    if m.gate_all.wtype == WType::F16 {
        rms_norm_plan(Buf::X, VecId::FfnNorm, Buf::Xb, d.n_embd, 1)
        + one(
            Kernel::MoeRouterTopk,
            seq![
                Arg::Vector(VecId::Router), Arg::Buf(Buf::Xb), Arg::Buf(Buf::MoeIdx),
                Arg::Buf(Buf::MoeW), Arg::Int(to_i32(m.n_experts)), Arg::Int(to_i32(d.n_embd)),
                Arg::Int(to_i32(top_k)),
            ],
            shape(1, 256),
        )
    } else {
        one(
            Kernel::MoeFfnPrep,
            seq![
                Arg::Buf(Buf::X), Arg::Vector(VecId::FfnNorm), Arg::Buf(Buf::Xb),
                Arg::Vector(VecId::Router), Arg::Buf(Buf::MoeIdx), Arg::Buf(Buf::MoeW),
                Arg::Buf(Buf::Q8X), Arg::Buf(Buf::Q8D), Arg::Int(to_i32(d.n_embd)),
                Arg::Int(to_i32(m.n_experts)), Arg::Int(to_i32(top_k)), Arg::Eps,
            ],
            shape(1, 256),
        )
    }
}

/// Normalises the stream and picks the experts.
pub fn moe_route(d: ChunkDims, m: MoeFfnWeights, top_k: usize) -> (r: Vec<Launch>)
    ensures
        plan_of(r@) == moe_route_plan(d, m, top_k),
{
    if m.gate_all.wtype == WType::F16 {
        {
            let mut out: Vec<Launch> = rms_norm(Buf::X, VecId::FfnNorm, Buf::Xb, d.n_embd, 1);
            extend(&mut out, single(
                Kernel::MoeRouterTopk,
                vec![
                    Arg::Vector(VecId::Router), Arg::Buf(Buf::Xb), Arg::Buf(Buf::MoeIdx),
                    Arg::Buf(Buf::MoeW), Arg::Int(to_i32(m.n_experts)),
                    Arg::Int(to_i32(d.n_embd)), Arg::Int(to_i32(top_k)),
                ],
                shape(1, 256),
            ));
            out
        }
    } else {
        single(
            Kernel::MoeFfnPrep,
            vec![
                Arg::Buf(Buf::X), Arg::Vector(VecId::FfnNorm), Arg::Buf(Buf::Xb),
                Arg::Vector(VecId::Router), Arg::Buf(Buf::MoeIdx), Arg::Buf(Buf::MoeW),
                Arg::Buf(Buf::Q8X), Arg::Buf(Buf::Q8D), Arg::Int(to_i32(d.n_embd)),
                Arg::Int(to_i32(m.n_experts)), Arg::Int(to_i32(top_k)), Arg::Eps,
            ],
            shape(1, 256),
        )
    }
}

/// The first `n` of the experts that the router picked.
pub open spec fn slots_plan(d: ChunkDims, m: MoeFfnWeights, flags: Flags, n: nat) -> Plan
    decreases n,
{
    if n == 0 {
        Seq::empty()
    } else {
        slots_plan(d, m, flags, (n - 1) as nat) + expert_slot_plan(d, m, flags, (n - 1) as usize)
    }
}

/// A sparse feed-forward layer over one token: the router, then the experts
/// that it picks, one after the other.
pub open spec fn ffn_block_moe_one_plan(d: ChunkDims, m: MoeFfnWeights, flags: Flags) -> Plan {
    moe_route_plan(d, m, experts_used(m, flags)) + slots_plan(
        d,
        m,
        flags,
        experts_used(m, flags) as nat,
    )
}

/// A sparse feed-forward layer over one token.
pub fn ffn_block_moe_one(d: ChunkDims, m: MoeFfnWeights, flags: Flags) -> (r: Vec<Launch>)
    ensures
        plan_of(r@) == ffn_block_moe_one_plan(d, m, flags),
{
    let top_k: usize = experts_used(m, flags);
    let mut experts: Vec<Launch> = nothing();
    let mut slot: usize = 0;
    while slot < top_k
        invariant
            slot <= top_k,
            plan_of(experts@) == slots_plan(d, m, flags, slot as nat),
        decreases top_k - slot,
    {
        extend(&mut experts, expert_slot(d, m, flags, slot));
        slot = slot + 1;
    }
    let mut out: Vec<Launch> = moe_route(d, m, top_k);
    extend(&mut out, experts);
    out
}

/// Every token uses at least one expert and no more than there are, unless
/// the weights themselves say otherwise.
pub proof fn law_experts_in_range(m: MoeFfnWeights, flags: Flags)
    requires
        m.fits(),
        1 <= m.top_k <= m.n_experts,
    ensures
        1 <= experts_used(m, flags) <= m.n_experts,
{
}

/// The launches of a feed-forward layer, and whether they run once for each
/// token of the chunk.
pub struct FfnPlan {
    pub each_token: bool,
    pub launches: Vec<Launch>,
}

/// The launches of a feed-forward layer as a mathematical value.
pub struct FfnView {
    pub each_token: bool,
    pub plan: Plan,
}

impl View for FfnPlan {
    type V = FfnView;

    open spec fn view(&self) -> FfnView {
        FfnView { each_token: self.each_token, plan: plan_of(self.launches@) }
    }
}

/// A plan that may be refused, as a mathematical value.
pub open spec fn ffn_result(r: Result<FfnPlan, PlanError>) -> Result<FfnView, PlanError> {
    match r {
        Ok(p) => Ok(p@),
        Err(e) => Err(e),
    }
}

/// Whether a feed-forward layer has kernels for its matrices.
pub open spec fn ffn_ok(card: Card, n_tok: usize, ffn: LayerFfn) -> bool {
    match ffn {
        LayerFfn::Dense { gate, up, down } => dense_ok(card, n_tok, gate, up, down),
        LayerFfn::Moe(m) => m.fits(),
    }
}

/// A feed-forward layer. The experts differ from token to token, so a sparse
/// layer takes the tokens one by one.
pub open spec fn ffn_block_plan(
    card: Card,
    d: ChunkDims,
    ffn: LayerFfn,
    flags: Flags,
) -> Result<FfnView, PlanError> {
    match ffn {
        LayerFfn::Dense { gate, up, down } => match ffn_block_dense_plan(card, d, gate, up, down) {
            Ok(plan) => Ok(FfnView { each_token: false, plan }),
            Err(e) => Err(e),
        },
        LayerFfn::Moe(m) => Ok(
            FfnView { each_token: d.n_tok != 1, plan: ffn_block_moe_one_plan(d, m, flags) },
        ),
    }
}

/// A feed-forward layer.
pub fn ffn_block(card: Card, d: ChunkDims, ffn: LayerFfn, flags: Flags) -> (r: Result<
    FfnPlan,
    PlanError,
>)
    requires
        card.wf(),
        d.fits(),
        ffn_ok(card, d.n_tok, ffn),
    ensures
        ffn_result(r) == ffn_block_plan(card, d, ffn, flags),
{
    match ffn {
        LayerFfn::Dense { gate, up, down } => match ffn_block_dense(card, d, gate, up, down) {
            Ok(launches) => Ok(FfnPlan { each_token: false, launches }),
            Err(e) => Err(e),
        },
        LayerFfn::Moe(m) => {
            let launches: Vec<Launch> = ffn_block_moe_one(d, m, flags);
            Ok(FfnPlan { each_token: d.n_tok != 1, launches })
        },
    }
}

/// Whether a layer from place `start` on, `count` of them, holds `layer`.
pub open spec fn in_run(layer: int, start: int, count: int) -> bool {
    start <= layer < start + count
}

/// Which layers leave their feed-forward part out, as a text says: every so
/// many layers, so many in the middle, or those that are listed.
pub open spec fn skips_ffn(spec: Seq<char>, layer: int, n_layer: int) -> bool {
    match parsed_number(spec) {
        Some(stride) => stride >= 2 && (layer + 1) % (stride as int) == 0,
        None => if has_prefix(spec, "middle:"@) && parsed_number(spec.skip(7)) is Some {
            let said = parsed_number(spec.skip(7))->0 as int;
            let count = if said < n_layer {
                said
            } else {
                n_layer
            };
            in_run(layer, (n_layer - count) / 2, count)
        } else if has_prefix(spec, "mask:"@) {
            exists|i: int|
                0 <= i < split_on(spec.skip(5), ',').len() && parsed_number(
                    #[trigger] split_on(spec.skip(5), ',')[i],
                ) == Some((layer + 1) as nat)
        } else {
            false
        },
    }
}

/// Whether one of the texts means `n`.
fn lists_number(parts: &Vec<Vec<char>>, n: usize) -> (r: bool)
    ensures
        r == exists|i: int|
            0 <= i < parts@.len() && parsed_number((#[trigger] parts@[i])@) == Some(n as nat),
{
    let mut i: usize = 0;
    while i < parts.len()
        invariant
            i <= parts@.len(),
            forall|k: int|
                0 <= k < i ==> parsed_number((#[trigger] parts@[k])@) != Some(n as nat),
        decreases parts@.len() - i,
    {
        match parse_number(&parts[i]) {
            Some(m) => {
                if m == n {
                    return true;
                }
            },
            None => {},
        }
        i = i + 1;
    }
    false
}

/// Whether layer `layer` of `n_layer` leaves its feed-forward part out.
pub fn decode_should_skip_ffn(spec: Option<&str>, layer: usize, n_layer: usize) -> (r: bool)
    requires
        layer < n_layer,
    ensures
        r == (match spec {
            Some(s) => skips_ffn(s@, layer as int, n_layer as int),
            None => false,
        }),
{
    let text: &str = match spec {
        Some(s) => s,
        None => {
            return false;
        },
    };
    let chars: Vec<char> = chars_of(text);
    match parse_number(&chars) {
        Some(stride) => {
            return stride >= 2 && (layer + 1) % stride == 0;
        },
        None => {},
    }
    let middle: Option<Vec<char>> = skip_chars(&chars, "middle:");
    proof {
        reveal_strlit("middle:");
        reveal_strlit("mask:");
    }
    match middle {
        Some(rest) => match parse_number(&rest) {
            Some(said) => {
                let count: usize = if said < n_layer {
                    said
                } else {
                    n_layer
                };
                let start: usize = (n_layer - count) / 2;
                return layer >= start && layer - start < count;
            },
            None => {},
        },
        None => {},
    }
    match skip_chars(&chars, "mask:") {
        Some(rest) => {
            let parts: Vec<Vec<char>> = split_chars(&rest, ',');
            lists_number(&parts, layer + 1)
        },
        None => false,
    }
}

/// What a layer launches: its attention, then its feed-forward part.
pub struct LayerPlan {
    pub attn: Vec<Launch>,
    pub ffn: Option<FfnPlan>,
}

/// What a layer launches, as a mathematical value.
pub struct LayerView {
    pub attn: Plan,
    pub ffn: Option<FfnView>,
}

impl View for LayerPlan {
    type V = LayerView;

    open spec fn view(&self) -> LayerView {
        LayerView {
            attn: plan_of(self.attn@),
            ffn: match self.ffn {
                Some(f) => Some(f@),
                None => None,
            },
        }
    }
}

/// A plan that may be refused, as a mathematical value.
pub open spec fn layer_result(r: Result<LayerPlan, PlanError>) -> Result<LayerView, PlanError> {
    match r {
        Ok(p) => Ok(p@),
        Err(e) => Err(e),
    }
}

/// What does not change from layer to layer.
pub struct LayerContext {
    pub card: Card,
    pub rope: RopeConfig,
    pub flags: Flags,
    pub decode: DecodeBackend,
    pub n_layer: usize,
}

impl LayerContext {
    pub open spec fn wf(self) -> bool {
        self.card.wf() && self.decode.wf() && self.n_layer <= MAX_SIDE
    }
}

/// Whether layer `li` leaves its feed-forward part out; only single tokens may.
pub open spec fn leaves_ffn(
    n_tok: usize,
    li: usize,
    n_layer: usize,
    skip: Option<Seq<char>>,
) -> bool {
    n_tok == 1 && skip is Some && skips_ffn(skip->0, li as int, n_layer as int)
}

/// Whether layer `li` has kernels for the matrices of the parts that it does not
/// leave out.
pub open spec fn layer_ok(
    c: LayerContext,
    n_tok: usize,
    layer: GpuLayer,
    li: usize,
    skip: Option<Seq<char>>,
) -> bool {
    c.flags.identity || {
        &&& attn_ok(c.card, n_tok, layer.attn, c.flags)
        &&& leaves_ffn(n_tok, li, c.n_layer, skip) || ffn_ok(c.card, n_tok, layer.ffn)
    }
}

/// What layer `li` launches for a chunk; only single tokens may leave the
/// feed-forward part out.
#[verifier::opaque]
pub open spec fn run_layer_plan(
    c: LayerContext,
    d: ChunkDims,
    layer: GpuLayer,
    li: usize,
    skip: Option<Seq<char>>,
) -> Result<LayerView, PlanError> {
    if c.flags.identity {
        Ok(LayerView { attn: Seq::empty(), ffn: None })
    } else {
        match attn_block_plan(c.card, d, layer.attn, c.rope, li, c.flags, c.decode) {
            Err(e) => Err(e),
            Ok(attn) => if leaves_ffn(d.n_tok, li, c.n_layer, skip) {
                Ok(LayerView { attn, ffn: None })
            } else {
                match ffn_block_plan(c.card, d, layer.ffn, c.flags) {
                    Err(e) => Err(e),
                    Ok(ffn) => Ok(LayerView { attn, ffn: Some(ffn) }),
                }
            },
        }
    }
}

/// What layer `li` launches for a chunk.
pub fn run_layer(
    c: &LayerContext,
    d: ChunkDims,
    layer: GpuLayer,
    li: usize,
    skip: Option<&str>,
) -> (r: Result<LayerPlan, PlanError>)
    requires
        c.wf(),
        d.fits(),
        li < c.n_layer,
        layer_ok(
            *c,
            d.n_tok,
            layer,
            li,
            match skip {
                Some(s) => Some(s@),
                None => None,
            },
        ),
    ensures
        layer_result(r) == run_layer_plan(
            *c,
            d,
            layer,
            li,
            match skip {
                Some(s) => Some(s@),
                None => None,
            },
        ),
{
    proof {
        reveal(run_layer_plan);
    }
    if c.flags.identity {
        return Ok(LayerPlan { attn: nothing(), ffn: None });
    }
    let attn: Vec<Launch> = match attn_block(
        c.card,
        d,
        layer.attn,
        c.rope,
        li,
        c.flags,
        c.decode,
    ) {
        Ok(p) => p,
        Err(e) => {
            return Err(e);
        },
    };
    if d.n_tok == 1 && decode_should_skip_ffn(skip, li, c.n_layer) {
        return Ok(LayerPlan { attn, ffn: None });
    }
    match ffn_block(c.card, d, layer.ffn, c.flags) {
        Ok(f) => Ok(LayerPlan { attn, ffn: Some(f) }),
        Err(e) => Err(e),
    }
}

/// The output head: the matrix of the output, or of the embedding where they
/// share one, and the column of a token outside the active vocabulary.
#[derive(Clone, Copy, PartialEq, Eq, Debug, Structural)]
pub struct Head {
    pub token_embd: GpuMat,
    pub output: Option<GpuMat>,
    pub special: Option<GpuMat>,
    /// The token of that column.
    pub special_id: Option<u32>,
}

impl Head {
    /// The matrix of the output.
    #[verifier::allow_in_spec]
    pub fn matrix(self) -> GpuMat
        returns
            (match self.output {
                Some(w) => w,
                None => self.token_embd,
            }),
    {
        match self.output {
            Some(w) => w,
            None => self.token_embd,
        }
    }

    /// Tokens of the active vocabulary.
    #[verifier::allow_in_spec]
    pub fn active(self) -> usize
        returns
            self.matrix().n_cols,
    {
        self.matrix().n_cols
    }

    /// Scores that the head gives: those of the active vocabulary, and that of
    /// the token outside it.
    #[verifier::allow_in_spec]
    pub fn scores(self) -> usize
        requires
            self.active() <= MAX_SIDE,
        returns
            (self.active() + (if self.special is Some {
                1int
            } else {
                0
            })) as usize,
    {
        if self.special.is_some() {
            self.active() + 1
        } else {
            self.active()
        }
    }

    /// Whether the head has kernels for its matrices.
    pub open spec fn ok(self, card: Card) -> bool {
        &&& self.matrix().fits() && project_ok(card, self.matrix())
        &&& self.special matches Some(w) ==> w.fits() && project_ok(card, w)
    }

    /// Whether the head has kernels for its matrices.
    pub fn has_kernels(self, card: Card) -> (r: bool)
        requires
            card.wf(),
        ensures
            r == self.ok(card),
    {
        let w: GpuMat = self.matrix();
        let special: bool = match self.special {
            Some(s) => s.has_fitting_sides() && has_project(card, s),
            None => true,
        };
        w.has_fitting_sides() && has_project(card, w) && special
    }

    /// The token of the highest score: the place after the active vocabulary
    /// stands for the token outside it.
    pub fn map_output_id(self, id: u32) -> (r: u32)
        ensures
            r == (if id == to_u32(self.active()) && self.special_id is Some {
                self.special_id->0
            } else {
                id
            }),
    {
        if id == to_u32(self.active()) {
            match self.special_id {
                Some(s) => s,
                None => id,
            }
        } else {
            id
        }
    }
}

/// What the output head launches: first `scores`; then the score of the token
/// outside the active vocabulary is copied behind the others, to the place
/// `special_at`; then `pick`.
pub struct HeadPlan {
    pub scores: Vec<Launch>,
    pub special_at: Option<usize>,
    pub pick: Vec<Launch>,
}

/// What the output head launches, as a mathematical value.
pub struct HeadView {
    pub scores: Plan,
    pub special_at: Option<usize>,
    pub pick: Plan,
}

impl View for HeadPlan {
    type V = HeadView;

    open spec fn view(&self) -> HeadView {
        HeadView {
            scores: plan_of(self.scores@),
            special_at: self.special_at,
            pick: plan_of(self.pick@),
        }
    }
}

/// Normalises the last token of the chunk.
pub open spec fn last_row_plan(d: ChunkDims) -> Plan {
    one(
        Kernel::CopyLast,
        seq![
            Arg::Buf(Buf::X), Arg::Buf(Buf::X1), Arg::Int(to_i32(d.n_tok)),
            Arg::Int(to_i32(d.n_embd)),
        ],
        elems(to_u32(d.n_embd)),
    )
    + rms_norm_plan(Buf::X1, VecId::OutputNorm, Buf::Xb1, d.n_embd, 1)
}

/// Normalises the last token of the chunk.
pub fn last_row(d: ChunkDims) -> (r: Vec<Launch>)
    ensures
        plan_of(r@) == last_row_plan(d),
{
    {
        let mut out: Vec<Launch> = single(
            Kernel::CopyLast,
            vec![
                Arg::Buf(Buf::X), Arg::Buf(Buf::X1), Arg::Int(to_i32(d.n_tok)),
                Arg::Int(to_i32(d.n_embd)),
            ],
            elems(to_u32(d.n_embd)),
        );
        extend(&mut out, rms_norm(Buf::X1, VecId::OutputNorm, Buf::Xb1, d.n_embd, 1));
        out
    }
}

/// Picks the highest of `n` scores.
pub open spec fn pick_plan(n: usize) -> Plan {
    one(
        Kernel::Argmax,
        seq![Arg::Buf(Buf::Logits), Arg::Int(to_i32(n)), Arg::Buf(Buf::ArgmaxBuf)],
        shape(1, 256),
    )
}

/// Picks the highest of `n` scores.
pub fn pick(n: usize) -> (r: Vec<Launch>)
    ensures
        plan_of(r@) == pick_plan(n),
{
    single(
        Kernel::Argmax,
        vec![Arg::Buf(Buf::Logits), Arg::Int(to_i32(n)), Arg::Buf(Buf::ArgmaxBuf)],
        shape(1, 256),
    )
}

/// The scores of the last token of the chunk.
pub open spec fn head_scores_plan(card: Card, d: ChunkDims, head: Head) -> Plan {
    match head.special {
        Some(w) => active_scores_plan(card, d, head) + project_plan(
            card,
            w,
            Buf::Xb1,
            Buf::SpecialLogit,
            GemvResidual::Nothing,
        ),
        None => active_scores_plan(card, d, head),
    }
}

/// The scores of the last token of the chunk.
pub fn head_scores(card: Card, d: ChunkDims, head: Head) -> (r: Vec<Launch>)
    requires
        card.wf(),
        head.ok(card),
    ensures
        plan_of(r@) == head_scores_plan(card, d, head),
{
    match head.special {
        Some(w) => {
            let mut out: Vec<Launch> = active_scores(card, d, head);
            extend(&mut out, project(card, w, Buf::Xb1, Buf::SpecialLogit, GemvResidual::Nothing));
            out
        },
        None => active_scores(card, d, head),
    }
}

/// The scores of the active vocabulary.
pub open spec fn active_scores_plan(card: Card, d: ChunkDims, head: Head) -> Plan {
    last_row_plan(d)
    + project_plan(card, head.matrix(), Buf::Xb1, Buf::Logits, GemvResidual::Nothing)
}

/// The scores of the active vocabulary.
pub fn active_scores(card: Card, d: ChunkDims, head: Head) -> (r: Vec<Launch>)
    requires
        card.wf(),
        head.ok(card),
    ensures
        plan_of(r@) == active_scores_plan(card, d, head),
{
    {
        let mut out: Vec<Launch> = last_row(d);
        extend(&mut out, project(card, head.matrix(), Buf::Xb1, Buf::Logits, GemvResidual::Nothing));
        out
    }
}

/// The next token after a chunk.
pub open spec fn logits_from_last_plan(card: Card, d: ChunkDims, head: Head) -> HeadView {
    HeadView {
        scores: head_scores_plan(card, d, head),
        special_at: if head.special is Some {
            Some(head.active())
        } else {
            None
        },
        pick: pick_plan(head.scores()),
    }
}

/// The next token after a chunk.
pub fn logits_from_last(card: Card, d: ChunkDims, head: Head) -> (r: HeadPlan)
    requires
        card.wf(),
        head.ok(card),
    ensures
        r@ == logits_from_last_plan(card, d, head),
{
    HeadPlan {
        scores: head_scores(card, d, head),
        special_at: if head.special.is_some() {
            Some(head.active())
        } else {
            None
        },
        pick: pick(head.scores()),
    }
}

/// The next token after each of `n_tok` tokens.
pub open spec fn rows_scores_plan(card: Card, head: Head, n_embd: usize, n_tok: usize) -> Result<Plan, PlanError> {
    join_plan(
        join_plan(
            Ok(
                rms_norm_plan(Buf::X, VecId::OutputNorm, Buf::Xb, n_embd, n_tok),
            ),
            gemm_plan(card, head.matrix(), Buf::Xb, Buf::LogitsBatch, n_tok),
        ),
        Ok(
            one(
                Kernel::ArgmaxRows,
                seq![
                    Arg::Buf(Buf::LogitsBatch), Arg::Int(to_i32(head.active())),
                    Arg::Int(to_i32(n_tok)), Arg::Buf(Buf::ArgmaxBatch),
                ],
                shape(to_u32(n_tok), 256),
            ),
        ),
    )
}

/// The next token after each of `n_tok` tokens.
pub fn rows_scores(card: Card, head: Head, n_embd: usize, n_tok: usize) -> (r: Result<Vec<Launch>, PlanError>)
    requires
        card.wf(),
        head.matrix().fits(),
        gemm_ok(card, head.matrix(), n_tok),
    ensures
        result_plan(r) == rows_scores_plan(card, head, n_embd, n_tok),
{
    join(
        join(
            Ok(
                rms_norm(Buf::X, VecId::OutputNorm, Buf::Xb, n_embd, n_tok),
            ),
            gemm(card, head.matrix(), Buf::Xb, Buf::LogitsBatch, n_tok),
        ),
        Ok(
            single(
                Kernel::ArgmaxRows,
                vec![
                    Arg::Buf(Buf::LogitsBatch), Arg::Int(to_i32(head.active())),
                    Arg::Int(to_i32(n_tok)), Arg::Buf(Buf::ArgmaxBatch),
                ],
                shape(to_u32(n_tok), 256),
            ),
        ),
    )
}

/// Whether the output of a block has kernels.
fn has_output(card: Card, n_tok: usize, w: GpuMat) -> (r: bool)
    requires
        card.wf(),
    ensures
        r == (w.fits() && output_kernels(card, n_tok, w)),
{
    w.has_fitting_sides() && (if n_tok == 1 {
        has_project(card, w)
    } else {
        has_gemm(card, w, n_tok)
    })
}

/// Whether softmax attention has kernels for its matrices.
fn has_full(card: Card, n_tok: usize, full: FullAttnWeights) -> (r: bool)
    requires
        card.wf(),
    ensures
        r == full_ok(card, n_tok, full),
{
    if !(full.wq.has_fitting_sides() && full.wk.has_fitting_sides()
        && full.wv.has_fitting_sides() && full.wo.has_fitting_sides()) {
        return false;
    }
    if !has_output(card, n_tok, full.wo) {
        return false;
    }
    if n_tok == 1 {
        all_q4_0(full) || qkv_fused(card, full).is_some() || (qk_pair(card, full).is_some()
            && has_gemv(card, full.wv)) || (has_gemv(card, full.wq) && has_gemv(card, full.wk)
            && has_gemv(card, full.wv))
    } else {
        has_gemm(card, full.wq, n_tok) && has_gemm(card, full.wk, n_tok) && has_gemm(
            card,
            full.wv,
            n_tok,
        )
    }
}

/// Whether linear attention has kernels for its matrices.
fn has_linear(card: Card, n_tok: usize, lin: LinearAttnWeights, flags: Flags) -> (r: bool)
    requires
        card.wf(),
    ensures
        r == linear_ok(card, n_tok, lin, flags),
{
    if !(lin.wqkv.has_fitting_sides() && lin.w_gate.has_fitting_sides()
        && lin.ssm_alpha.has_fitting_sides() && lin.ssm_beta.has_fitting_sides()
        && lin.ssm_out.has_fitting_sides() && lin.n_v_heads <= MAX_SIDE) {
        return false;
    }
    if !has_output(card, n_tok, lin.ssm_out) {
        return false;
    }
    if n_tok == 1 {
        gdn_fused(card, lin, flags).is_some() || (has_gemv(card, lin.wqkv) && has_gemv(
            card,
            lin.w_gate,
        ) && has_gemv(card, lin.ssm_beta) && has_gemv(card, lin.ssm_alpha))
    } else {
        has_gemm(card, lin.wqkv, n_tok) && has_gemm(card, lin.w_gate, n_tok) && has_gemm(
            card,
            lin.ssm_beta,
            n_tok,
        ) && has_gemm(card, lin.ssm_alpha, n_tok)
    }
}

/// Whether a dense feed-forward layer has kernels for its matrices.
fn has_dense(card: Card, n_tok: usize, gate: GpuMat, up: GpuMat, down: GpuMat) -> (r: bool)
    requires
        card.wf(),
    ensures
        r == dense_ok(card, n_tok, gate, up, down),
{
    if !(gate.has_fitting_sides() && up.has_fitting_sides()) {
        return false;
    }
    if !has_output(card, n_tok, down) {
        return false;
    }
    if n_tok == 1 {
        try_gemv_q4_ffn(card, gate, up, Buf::Xb, Buf::Hb).is_some() || try_gemv_q4_dual(
            card,
            gate,
            up,
            Buf::Xb,
            Buf::Hb,
            Buf::Hb2,
        ).is_some() || try_gemv_pair(
            card,
            gate,
            up,
            Buf::Xb,
            Buf::Hb,
            Buf::Hb2,
            None,
            None,
        ).is_some() || (has_project(card, gate) && has_project(card, up))
    } else {
        has_gemm(card, gate, n_tok) && has_gemm(card, up, n_tok)
    }
}

/// Whether layer `li` has kernels for the matrices of the parts that it does not
/// leave out.
pub fn has_layer(
    c: &LayerContext,
    n_tok: usize,
    layer: GpuLayer,
    li: usize,
    skip: Option<&str>,
) -> (r: bool)
    requires
        c.card.wf(),
        li < c.n_layer,
    ensures
        r == layer_ok(
            *c,
            n_tok,
            layer,
            li,
            match skip {
                Some(s) => Some(s@),
                None => None,
            },
        ),
{
    if c.flags.identity {
        return true;
    }
    let attn: bool = match layer.attn {
        LayerAttn::Full(full) => has_full(c.card, n_tok, full),
        LayerAttn::Linear(lin) => c.flags.skip_linear || has_linear(c.card, n_tok, lin, c.flags),
    };
    if !attn {
        return false;
    }
    if n_tok == 1 && decode_should_skip_ffn(skip, li, c.n_layer) {
        return true;
    }
    match layer.ffn {
        LayerFfn::Dense { gate, up, down } => has_dense(c.card, n_tok, gate, up, down),
        LayerFfn::Moe(m) => 1 <= m.n_experts && m.n_experts <= MAX_SIDE && m.top_k <= MAX_SIDE
            && m.expert_ff <= MAX_SIDE,
    }
}

/// The launches that take one element for each thread reach every element, and those
/// that take one token for each block reach every token.
pub proof fn law_elements_are_reached(d: ChunkDims, x: Buf, v: VecId, y: Buf)
    requires
        d.fits(),
        d.n_ff * d.n_tok <= u32::MAX,
        d.n_embd * d.n_tok <= u32::MAX,
        d.n_tok * (d.n_kv_heads * d.head_dim) <= u32::MAX,
    ensures
        ({
            let l = silu_mul_plan(d)[0];
            l.shape.grid_x * l.shape.block >= d.n_ff * d.n_tok
        }),
        ({
            let l = add_residual_plan(d)[0];
            l.shape.grid_x * l.shape.block >= d.n_embd * d.n_tok
        }),
        rms_norm_plan(x, v, y, d.n_embd, d.n_tok)[0].shape.grid_x == d.n_tok,
        store_kv_plan(d).len() == 2,
        forall|i: int|
            0 <= i < 2 ==> (#[trigger] store_kv_plan(d)[i]).shape.grid_x * store_kv_plan(
                d,
            )[i].shape.block >= d.n_tok * (d.n_kv_heads * d.head_dim),
        queries_whole_plan(d)[0].shape.grid_x == d.n_head && queries_whole_plan(d)[0].shape.grid_y
            == d.n_tok,
        keys_whole_plan(d)[0].shape.grid_x == d.n_kv_heads && keys_whole_plan(d)[0].shape.grid_y
            == d.n_tok,
{
    crate::cuda::launch::law_blocks_cover((d.n_ff * d.n_tok) as u32, 1024);
    crate::cuda::launch::law_blocks_cover((d.n_embd * d.n_tok) as u32, 1024);
    crate::cuda::launch::law_blocks_cover((d.n_tok * (d.n_kv_heads * d.head_dim)) as u32, 1024);
    assert(d.stride() == d.n_kv_heads * d.head_dim);
}

/// The feed-forward part is left out only of single tokens and only where that is asked
/// for: every so many layers, a run in the middle, or the layers that are listed.
pub proof fn law_layers_left_out(spec: Seq<char>, layer: int, n_layer: int, k: nat, count: nat)
    requires
        0 <= layer < n_layer,
    ensures
        parsed_number(spec) == Some(k) ==> (skips_ffn(spec, layer, n_layer) <==> k >= 2 && (layer
            + 1) % (k as int) == 0),
        parsed_number(spec) is None && has_prefix(spec, "middle:"@) && parsed_number(spec.skip(7))
            == Some(count) && count <= n_layer ==> (skips_ffn(spec, layer, n_layer) <==> (n_layer
            - count) / 2 <= layer < (n_layer - count) / 2 + count),
        forall|n_tok: usize, li: usize, n: usize, skip: Option<Seq<char>>| #[trigger]
            leaves_ffn(n_tok, li, n, skip) ==> n_tok == 1 && skip is Some,
{
}

/// For a chunk of tokens both matrices are multiplied with the normalised stream, the
/// first into its buffer and the second into the other one, before the two buffers are
/// put together; the last matrix takes what came of that.
pub proof fn law_chunk_feed_forward(
    card: Card,
    d: ChunkDims,
    gate: GpuMat,
    up: GpuMat,
    down: GpuMat,
)
    requires
        d.n_tok >= 2,
        ffn_block_dense_plan(card, d, gate, up, down) is Ok,
    ensures
        ({
            let p = ffn_block_dense_plan(card, d, gate, up, down)->Ok_0;
            &&& p.len() == 6
            &&& p[0].kernel == Kernel::RmsNorm && p[0].args[2] == Arg::Buf(Buf::Xb)
            &&& p[1].args[0] == Arg::Mat(gate.id, Part::Data)
            &&& p[1].args[1] == Arg::Buf(Buf::Xb) && p[1].args[2] == Arg::Buf(Buf::Hb)
            &&& p[2].args[0] == Arg::Mat(up.id, Part::Data)
            &&& p[2].args[1] == Arg::Buf(Buf::Xb) && p[2].args[2] == Arg::Buf(Buf::Hb2)
            &&& p[3].kernel == Kernel::SiluMul
            &&& p[3].args[0] == Arg::Buf(Buf::Hb) && p[3].args[1] == Arg::Buf(Buf::Hb2)
            &&& p[4].args[0] == Arg::Mat(down.id, Part::Data)
            &&& p[4].args[1] == Arg::Buf(Buf::Hb) && p[4].args[2] == Arg::Buf(Buf::Xb2)
            &&& p[5].kernel == Kernel::Add
            &&& p[5].args[0] == Arg::Buf(Buf::X) && p[5].args[1] == Arg::Buf(Buf::Xb2)
        }),
{
}

/// Whether a matrix is an argument of some launch.
pub open spec fn takes(p: Plan, id: MatId) -> bool {
    exists|i: int, k: int|
        0 <= i < p.len() && 0 <= k < p[i].args.len() && (#[trigger] p[i].args[k] matches Arg::Mat(
            m,
            _,
        ) && m == id)
}

/// Every matrix of a dense block is an argument of some launch, for one token and for
/// many.
pub proof fn law_dense_matrices_taken(
    card: Card,
    d: ChunkDims,
    gate: GpuMat,
    up: GpuMat,
    down: GpuMat,
)
    requires
        ffn_block_dense_plan(card, d, gate, up, down) is Ok,
    ensures
        takes(ffn_block_dense_plan(card, d, gate, up, down)->Ok_0, gate.id),
        takes(ffn_block_dense_plan(card, d, gate, up, down)->Ok_0, up.id),
        takes(ffn_block_dense_plan(card, d, gate, up, down)->Ok_0, down.id),
{
    let a = rms_norm_plan(Buf::X, VecId::FfnNorm, Buf::Xb, d.n_embd, d.n_tok);
    let b = gate_up_plan(card, d, gate, up)->Ok_0;
    let c = block_output_plan(card, d, down, Buf::Hb)->Ok_0;
    assert(ffn_block_dense_plan(card, d, gate, up, down)->Ok_0 == a + b + c);
    lemma_gate_up_taken(card, d, gate, up);
    lemma_takes_joined(a, b, gate.id);
    lemma_takes_joined(a, b, up.id);
    lemma_takes_joined(a + b, c, gate.id);
    lemma_takes_joined(a + b, c, up.id);
    assert(takes(c, down.id)) by {
        if d.n_tok == 1 {
            lemma_project_takes(card, down, Buf::Hb, Buf::X, GemvResidual::InPlace);
        } else {
            assert(c[0].args[0] == Arg::Mat(down.id, Part::Data));
        }
    }
    lemma_takes_joined(a + b, c, down.id);
}

proof fn lemma_takes_joined(a: Plan, b: Plan, id: MatId)
    ensures
        takes(a, id) || takes(b, id) ==> takes(a + b, id),
{
    if takes(a, id) {
        let (i, k) = choose|i: int, k: int|
            0 <= i < a.len() && 0 <= k < a[i].args.len() && (
            #[trigger] a[i].args[k] matches Arg::Mat(m, _) && m == id);
        assert((a + b)[i].args[k] == a[i].args[k]);
    } else if takes(b, id) {
        let (i, k) = choose|i: int, k: int|
            0 <= i < b.len() && 0 <= k < b[i].args.len() && (
            #[trigger] b[i].args[k] matches Arg::Mat(m, _) && m == id);
        assert((a + b)[a.len() + i].args[k] == b[i].args[k]);
    }
}

proof fn lemma_project_takes(card: Card, w: GpuMat, x: Buf, y: Buf, residual: GemvResidual)
    ensures
        takes(project_plan(card, w, x, y, residual), w.id),
{
    let first = try_gemv_global_q8_plan(card, w, x, y, None, residual);
    let p = project_plan(card, w, x, y, residual);
    if first.done {
        assert(p[1].args[0] matches Arg::Mat(m, _) && m == w.id);
    } else {
        let rest = gemv_plan(card, w, x, y, None, residual);
        assert(rest[0].args[0] matches Arg::Mat(m, _) && m == w.id);
        assert(takes(rest, w.id));
        lemma_takes_joined(first.plan, rest, w.id);
    }
}

proof fn lemma_gate_up_taken(card: Card, d: ChunkDims, gate: GpuMat, up: GpuMat)
    requires
        gate_up_plan(card, d, gate, up) is Ok,
    ensures
        takes(gate_up_plan(card, d, gate, up)->Ok_0, gate.id),
        takes(gate_up_plan(card, d, gate, up)->Ok_0, up.id),
{
    let p = gate_up_plan(card, d, gate, up)->Ok_0;
    if d.n_tok != 1 {
        assert(p[0].args[0] == Arg::Mat(gate.id, Part::Data));
        assert(p[1].args[0] == Arg::Mat(up.id, Part::Data));
    } else if try_gemv_q4_ffn_plan(card, gate, up, Buf::Xb, Buf::Hb) is Some
        || try_gemv_q4_dual_plan(card, gate, up, Buf::Xb, Buf::Hb, Buf::Hb2) is Some
        || try_gemv_pair_plan(card, gate, up, Buf::Xb, Buf::Hb, Buf::Hb2, None, None) is Some {
        if p[0].kernel == Kernel::QuantizeQ8 {
            assert(p[1].args[0] == Arg::Mat(gate.id, Part::Data));
            assert(p[1].args[1] == Arg::Mat(up.id, Part::Data));
        } else {
            assert(p[0].args[0] == Arg::Mat(gate.id, Part::Data));
            assert(p[0].args[1] == Arg::Mat(up.id, Part::Data));
        }
    } else {
        let a = project_plan(card, gate, Buf::Xb, Buf::Hb, GemvResidual::Nothing);
        let b = project_plan(card, up, Buf::Xb, Buf::Hb2, GemvResidual::Nothing);
        lemma_project_takes(card, gate, Buf::Xb, Buf::Hb, GemvResidual::Nothing);
        lemma_project_takes(card, up, Buf::Xb, Buf::Hb2, GemvResidual::Nothing);
        lemma_takes_joined(a, b, gate.id);
        lemma_takes_joined(a, b, up.id);
        lemma_takes_joined(a + b, silu_mul_plan(d), gate.id);
        lemma_takes_joined(a + b, silu_mul_plan(d), up.id);
    }
}

} // verus!
