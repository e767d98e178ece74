//! What a plan computes: a reading of each kernel by its arguments, and the values
//! that the buffers hold after the launches of a plan.
use crate::cuda::decode::{registry, DecodeBackend};
use crate::cuda::device::{attn_named, Kernel};
use crate::cuda::layer::{
    add_bias_plan, add_residual_plan, all_q4_0, attn_block_linear_plan, attn_block_plan,
    attn_norm_plan, before_attention_plan, bias_of, block_output_plan, dense_ok, expert_slot_plan,
    experts_used, ffn_block_dense_plan, ffn_block_moe_one_plan, full_ok, gate_up_ok, gate_up_plan,
    gated_norm_plan, gated_plan, gdn_fused_plan, gdn_projections_plan, last_row_plan,
    launch_attn_plan, linear_ok, logits_from_last_plan, moe_route_plan, output_kernels,
    plain_many_plan, plain_one_plan, positions_plan, projections_plan, qk_pair_plan, qkv_fused_plan,
    qkv_many_plan, qkv_one_plan, recurrence_plan, recurrent_many_plan, recurrent_one_plan,
    rms_norm_plan, rows_scores_plan, run_layer_plan, silu_mul_plan, slots_plan, split_gate_plan,
    square_state, store_kv_plan, ChunkDims, Flags, FullAttnWeights, GpuLayer, Head, LayerAttn,
    LayerContext, LayerFfn, LinearAttnWeights, MoeFfnWeights, RopeConfig,
};
use crate::cuda::launch::{Arg, Buf, LaunchView, MatId, Part, Plan, VecId};
use crate::cuda::matmul::{
    embed_batch_plan, embed_one_device_plan, gemm_ok, gemm_plan, gemv_n_split, gemv_ok, gemv_plan,
    global_coop_plan, global_n_split, global_split_plan, global_whole_plan, project_ok,
    project_plan, quantize_q8_plan, spec_global_kernel, try_gemv_global_q8_plan, try_gemv_pair_plan,
    try_gemv_q4_dual_plan, try_gemv_q4_ffn_plan, Card, GemvResidual, GpuMat, PlanError, WType,
    MAX_SIDE,
};
use vstd::prelude::*;

verus! {

/// What a buffer holds, up to rounding.
pub enum Value {
    /// Nothing that can be told.
    Lost,
    /// The product of a matrix with so many vectors.
    Product { mat: MatId, of: Box<Value>, n_tok: i32 },
    /// The sum of two values.
    Plus(Box<Value>, Box<Value>),
    /// A value with a vector added to each of its rows.
    Biased(Box<Value>, VecId),
    /// So many rows of a width, each normalised and scaled by a vector.
    Normed { weight: VecId, of: Box<Value>, width: i32, n_tok: i32 },
    /// So many numbers of the first value, each times its sigmoid and times the
    /// number of the second value.
    SiluTimes { gate: Box<Value>, up: Box<Value>, n: i32 },
    /// So many numbers of a value as whole numbers of eight bits.
    Codes(Box<Value>, i32),
    /// The scales of those numbers.
    Scales(Box<Value>, i32),
    /// A value in so many parts, which add up to it.
    Parts(Box<Value>, i32),
    /// Two values, one after the other.
    Both(Box<Value>, Box<Value>),
    /// The first so many numbers of a value.
    First(Box<Value>, i32),
    /// The queries of so many heads, or the gates beside them.
    Half { of: Box<Value>, gates: bool, n_head: i32, head_dim: i32, n_tok: i32, apart: i32 },
    /// Heads, normalised where there is a vector for it, of which the first so many
    /// numbers are turned by their positions.
    Turned {
        of: Box<Value>,
        norm: Option<VecId>,
        heads: i32,
        head_dim: i32,
        n_rot: i32,
        pos: Arg,
        n_tok: i32,
    },
    /// A cache with so many rows written from a position on.
    Kept { before: Box<Value>, of: Box<Value>, pos: Arg, n_tok: i32, width: i32 },
    /// What the queries gather from the cache.
    Attended {
        q: Box<Value>,
        k: Box<Value>,
        v: Box<Value>,
        n_head: i32,
        n_kv_heads: i32,
        head_dim: i32,
        pos: Arg,
        n_tok: i32,
    },
    /// So many numbers of a value, each times the sigmoid of its gate.
    Sigmoided { of: Box<Value>, gate: Box<Value>, n: i32 },
    /// Rows behind those of the cache, convolved; or what the cache then keeps.
    Convolved { of: Box<Value>, cache: Box<Value>, kept: bool, kernel: i32, n_tok: i32 },
    /// One of the three runs of heads of a row: queries, keys, values.
    Cut { of: Box<Value>, which: int, n_k: i32, n_v: i32, size: i32, n_tok: i32 },
    /// Heads of length one.
    Unit { of: Box<Value>, heads: i32, size: i32, n_tok: i32 },
    /// How much of the memory stays.
    Decay { of: Box<Value>, heads: i32, n_tok: i32 },
    /// How much of a token is written.
    Rate { of: Box<Value>, heads: i32, n_tok: i32 },
    /// What the memory gives back for each token, or the memory after them.
    Recalled { memory: Box<Value>, from: Recall, after: bool },
    /// Heads, normalised and times their gates.
    GatedNorm { of: Box<Value>, gate: Box<Value>, heads: i32, size: i32, n_tok: i32 },
    /// The experts that the router picks for a row, or their weights.
    Picked { of: Box<Value>, as_weights: bool, n_experts: i32, width: i32, top_k: i32 },
    /// The product with the expert in one slot of those that were picked.
    Expert { mat: MatId, of: Box<Value>, picks: Box<Value>, slot: i32, rows: i32, cols: i32 },
    /// A value times the weight in one slot.
    Scaled { of: Box<Value>, weights: Box<Value>, slot: i32 },
    /// The rows of the embedding for a token: a number, or what a buffer holds.
    Embedded { mat: MatId, token: Arg, n_tok: i32 },
    /// The last of so many rows of a width.
    LastRow { of: Box<Value>, n_tok: i32, width: i32 },
    /// The place of the largest of so many numbers, in each of so many rows.
    Largest { of: Box<Value>, n: i32, n_tok: i32 },
}

/// What is asked of a memory and written into it.
pub struct Recall {
    pub q: Box<Value>,
    pub k: Box<Value>,
    pub v: Box<Value>,
    pub decay: Box<Value>,
    pub rate: Box<Value>,
    pub n_k: i32,
    pub n_v: i32,
    pub size: i32,
    pub n_tok: i32,
}

/// What the buffers hold.
pub type Held = Map<Buf, Value>;

/// The matrices by their names.
pub type Mats = spec_fn(MatId) -> GpuMat;

/// Nothing is known of any buffer.
pub open spec fn all_lost() -> Held {
    Map::new(|b: Buf| true, |b: Buf| Value::Lost)
}

/// What the buffer of an argument holds.
pub open spec fn held(l: LaunchView, s: Held, i: int) -> Value {
    match l.args[i] {
        Arg::Buf(b) => s[b],
        _ => Value::Lost,
    }
}

/// The buffer of an argument gets a value.
pub open spec fn put(l: LaunchView, s: Held, i: int, v: Value) -> Held {
    match l.args[i] {
        Arg::Buf(b) => s.insert(b, v),
        _ => all_lost(),
    }
}

/// The number of an argument.
pub open spec fn num(l: LaunchView, i: int) -> i32 {
    match l.args[i] {
        Arg::Int(n) => n,
        _ => i32::MIN,
    }
}

/// Whether a kernel reads a matrix that is stored in this way: the copy, and the
/// bytes of a column in it.
pub open spec fn reads(kernel: Kernel, w: GpuMat, part: Part, col_bytes: i32) -> bool {
    match kernel {
        Kernel::GemvQ6 | Kernel::GemvQ6Splitk | Kernel::GemmQ6 => {
            w.wtype == WType::Q6K && part == Part::Data && col_bytes == w.col_bytes as i32
        },
        Kernel::GemvQ6Repack
        | Kernel::GemvQ6RepackSplitk
        | Kernel::GemvQ6RepackGlobal
        | Kernel::GemvQ6RepackGlobalSplitk => {
            w.wtype == WType::Q6K && part == Part::Decode && w.has_decode && col_bytes
                == w.decode_col_bytes as i32
        },
        Kernel::GemvQ6CompactGlobal
        | Kernel::GemvQ6CompactGlobal4way
        | Kernel::GemvQ6CompactGlobal8way => {
            w.wtype == WType::Q6K && part == Part::Compact && w.has_compact && col_bytes
                == w.compact_col_bytes as i32
        },
        _ => {
            &&& part != Part::Compact
            &&& col_bytes == w.col_bytes as i32
            &&& w.wtype == stored_as(kernel)
        },
    }
}

/// How the numbers are stored that a kernel reads.
pub open spec fn stored_as(kernel: Kernel) -> WType {
    match kernel {
        Kernel::GemvQ40
        | Kernel::GemvQ40Global
        | Kernel::GemvQ40Pair
        | Kernel::GemvQ40Ffn
        | Kernel::GemvQ40Qkv
        | Kernel::GemvQ40Qkv2w => WType::Q4_0,
        Kernel::GemvQ4
        | Kernel::GemvQ4Global
        | Kernel::GemvQ4Splitk
        | Kernel::GemvQ4GlobalSplitk
        | Kernel::GemvQ4Pair
        | Kernel::GemvQ4Dual
        | Kernel::GemvQ4Ffn
        | Kernel::GemvQ4Ffn8way
        | Kernel::GemvQ4FfnMcol
        | Kernel::GemvQ4Qkv
        | Kernel::GemmQ4 => WType::Q4K,
        Kernel::GemvQ5k | Kernel::GemvQ5kSplitk | Kernel::GemmQ5k => WType::Q5K,
        Kernel::GemvQ5
        | Kernel::GemvQ5Splitk
        | Kernel::GemvQ5Qk
        | Kernel::GemvQ5Qkv
        | Kernel::GemmQ5 => WType::Q5_0,
        Kernel::GemvQ8
        | Kernel::GemvQ8Global
        | Kernel::GemvQ8Splitk
        | Kernel::GemvQ8GlobalSplitk
        | Kernel::GemvQ8Qkv
        | Kernel::GemvQ8QkvSplitk
        | Kernel::GemvQ8Gdn4way
        | Kernel::GemvQ8Gdn4waySplitk
        | Kernel::GemvHybridGdn4way
        | Kernel::GemvHybridGdn4waySplitk
        | Kernel::GemmQ8 => WType::Q8_0,
        _ => WType::F16,
    }
}

/// The product of the matrix of argument `i` with a value, where the kernel reads the
/// matrix as it is stored and counts its rows, columns and bytes right.
pub open spec fn product(
    mats: Mats,
    l: LaunchView,
    i: int,
    of: Value,
    n_tok: i32,
    rows: i32,
    cols: i32,
    col_bytes: i32,
) -> Value {
    match l.args[i] {
        Arg::Mat(id, part) => {
            let w = mats(id);
            if reads(l.kernel, w, part, col_bytes) && rows == w.n_rows as i32 && cols
                == w.n_cols as i32 {
                Value::Product { mat: id, of: Box::new(of), n_tok }
            } else {
                Value::Lost
            }
        },
        _ => Value::Lost,
    }
}

/// The value whose numbers of eight bits and scales the two arguments hold.
pub open spec fn dequantized(l: LaunchView, s: Held, i: int, j: int, n: i32) -> Value {
    match (held(l, s, i), held(l, s, j)) {
        (Value::Codes(v, a), Value::Scales(u, b)) => if *v == *u && a == n && b == n {
            *v
        } else {
            Value::Lost
        },
        _ => Value::Lost,
    }
}

/// A value with the vector of argument `i` added, where there is a bias.
pub open spec fn with_bias(l: LaunchView, v: Value, flag: i32, i: int) -> Value {
    if flag == 0 {
        v
    } else {
        match l.args[i] {
            Arg::Vector(b) => Value::Biased(Box::new(v), b),
            _ => Value::Lost,
        }
    }
}

/// A value with a residual added: none, that of argument `i`, or what the output held.
pub open spec fn with_residual(
    l: LaunchView,
    s: Held,
    v: Value,
    flag: i32,
    i: int,
    out: int,
) -> Value {
    if flag == 0 {
        v
    } else if flag == 1 {
        Value::Plus(Box::new(held(l, s, i)), Box::new(v))
    } else if flag == 2 {
        Value::Plus(Box::new(held(l, s, out)), Box::new(v))
    } else {
        Value::Lost
    }
}

/// One matrix times one vector: the matrix, the vector, the output, the sides, the
/// bytes of a column, the bias and the residual.
pub open spec fn step_gemv(mats: Mats, l: LaunchView, s: Held) -> Held {
    let v = product(mats, l, 0, held(l, s, 1), 1, num(l, 3), num(l, 4), num(l, 5));
    put(l, s, 2, with_residual(l, s, with_bias(l, v, num(l, 6), 7), num(l, 8), 9, 2))
}

/// One matrix times one vector, in parts: the matrix, the vector, the parts, the sides,
/// the bytes of a column, and how many parts.
pub open spec fn step_split(mats: Mats, l: LaunchView, s: Held) -> Held {
    let v = product(mats, l, 0, held(l, s, 1), 1, num(l, 3), num(l, 4), num(l, 5));
    put(l, s, 2, Value::Parts(Box::new(v), num(l, 6)))
}

/// One matrix times one vector of numbers of eight bits.
pub open spec fn step_global(mats: Mats, l: LaunchView, s: Held) -> Held {
    let x = dequantized(l, s, 1, 2, num(l, 4));
    let v = product(mats, l, 0, x, 1, num(l, 4), num(l, 5), num(l, 6));
    put(l, s, 3, with_residual(l, s, with_bias(l, v, num(l, 7), 8), num(l, 9), 10, 3))
}

/// One matrix times one vector of numbers of eight bits, in parts.
pub open spec fn step_global_split(mats: Mats, l: LaunchView, s: Held) -> Held {
    let x = dequantized(l, s, 1, 2, num(l, 4));
    let v = product(mats, l, 0, x, 1, num(l, 4), num(l, 5), num(l, 6));
    put(l, s, 3, Value::Parts(Box::new(v), num(l, 7)))
}

/// The parts of a product added up: the parts, the output, the columns, how many parts,
/// the bias and the residual.
pub open spec fn step_reduce(l: LaunchView, s: Held) -> Held {
    let v = match held(l, s, 0) {
        Value::Parts(v, n) => if n == num(l, 3) {
            *v
        } else {
            Value::Lost
        },
        _ => Value::Lost,
    };
    put(l, s, 1, with_residual(l, s, with_bias(l, v, num(l, 4), 5), num(l, 6), 7, 1))
}

/// Two matrices times one vector, each into its output.
pub open spec fn step_pair(
    mats: Mats,
    l: LaunchView,
    s: Held,
    x: Value,
    out: int,
    rows: int,
    cols_b: int,
    bytes: int,
    bias: bool,
) -> Held {
    let a = product(mats, l, 0, x, 1, num(l, rows), num(l, rows + 1), num(l, bytes));
    let b = product(mats, l, 1, x, 1, num(l, rows), num(l, cols_b), num(l, bytes));
    let flag = if bias {
        num(l, bytes + 1)
    } else {
        0
    };
    put(
        l,
        put(l, s, out, with_bias(l, a, flag, bytes + 2)),
        out + 1,
        with_bias(l, b, flag, bytes + 3),
    )
}

/// Two matrices times one vector, the first product gating the second one.
pub open spec fn step_ffn(
    mats: Mats,
    l: LaunchView,
    s: Held,
    x: Value,
    out: int,
) -> Held {
    let a = product(mats, l, 0, x, 1, num(l, out + 1), num(l, out + 2), num(l, out + 3));
    let b = product(mats, l, 1, x, 1, num(l, out + 1), num(l, out + 2), num(l, out + 3));
    put(l, s, out, Value::SiluTimes { gate: Box::new(a), up: Box::new(b), n: num(l, out + 2) })
}

/// Three matrices times one vector, each into its output; the numbers begin at `at`.
pub open spec fn step_three(
    mats: Mats,
    l: LaunchView,
    s: Held,
    x: Value,
    out: int,
    at: int,
) -> Held {
    let a = product(mats, l, 0, x, 1, num(l, at), num(l, at + 1), num(l, at + 4));
    let b = product(mats, l, 1, x, 1, num(l, at), num(l, at + 2), num(l, at + 4));
    let c = product(mats, l, 2, x, 1, num(l, at), num(l, at + 3), num(l, at + 4));
    let flag = num(l, at + 5);
    put(
        l,
        put(
            l,
            put(l, s, out, with_bias(l, a, flag, at + 6)),
            out + 1,
            with_bias(l, b, flag, at + 7),
        ),
        out + 2,
        with_bias(l, c, flag, at + 8),
    )
}

/// Three matrices times one vector, in parts.
pub open spec fn step_three_split(mats: Mats, l: LaunchView, s: Held) -> Held {
    let x = dequantized(l, s, 3, 4, num(l, 6));
    let a = product(mats, l, 0, x, 1, num(l, 6), num(l, 7), num(l, 10));
    let b = product(mats, l, 1, x, 1, num(l, 6), num(l, 8), num(l, 10));
    let c = product(mats, l, 2, x, 1, num(l, 6), num(l, 9), num(l, 10));
    let all = Value::Both(Box::new(a), Box::new(Value::Both(Box::new(b), Box::new(c))));
    put(l, s, 5, Value::Parts(Box::new(all), num(l, 11)))
}

/// The parts of three products added up, each into its output.
pub open spec fn step_three_reduce(l: LaunchView, s: Held) -> Held {
    match held(l, s, 0) {
        Value::Parts(all, n) => match *all {
            Value::Both(a, rest) => match *rest {
                Value::Both(b, c) => if n == num(l, 7) {
                    put(
                        l,
                        put(
                            l,
                            put(l, s, 1, with_bias(l, *a, num(l, 8), 9)),
                            2,
                            with_bias(l, *b, num(l, 8), 10),
                        ),
                        3,
                        with_bias(l, *c, num(l, 8), 11),
                    )
                } else {
                    all_lost()
                },
                _ => all_lost(),
            },
            _ => all_lost(),
        },
        _ => all_lost(),
    }
}

/// A kernel that reads the position on the card gets the buffer that holds it, another
/// one the number.
pub open spec fn place_is_right(kernel: Kernel, pos: Arg) -> bool {
    match kernel {
        Kernel::QkNormRopeD
        | Kernel::QkNormPartialRopeD
        | Kernel::RopeD
        | Kernel::CopyKvD
        | Kernel::AttnFastV2D
        | Kernel::AttnFlashPartialD => pos == Arg::Buf(Buf::DPos0),
        _ => pos is Int,
    }
}

/// Heads are normalised and turned in their place.
pub open spec fn step_turn(
    l: LaunchView,
    s: Held,
    norm: Option<VecId>,
    heads: int,
    n_rot: int,
    pos: int,
    known: bool,
) -> Held {
    put(
        l,
        s,
        0,
        if known && place_is_right(l.kernel, l.args[pos]) {
            Value::Turned {
                of: Box::new(held(l, s, 0)),
                norm,
                heads: num(l, heads),
                head_dim: num(l, heads + 1),
                n_rot: num(l, n_rot),
                pos: l.args[pos],
                n_tok: num(l, pos + 1),
            }
        } else {
            Value::Lost
        },
    )
}

/// The vector of an argument.
pub open spec fn vector(l: LaunchView, i: int) -> Option<VecId> {
    match l.args[i] {
        Arg::Vector(v) => Some(v),
        _ => None,
    }
}

/// What the queries of the first argument gather from the caches of the next two.
pub open spec fn gathered(l: LaunchView, s: Held, pos: Arg, n_tok: i32, scaled: bool) -> Value {
    if scaled && place_is_right(l.kernel, pos) {
        Value::Attended {
            q: Box::new(held(l, s, 0)),
            k: Box::new(held(l, s, 1)),
            v: Box::new(held(l, s, 2)),
            n_head: num(l, 4),
            n_kv_heads: num(l, 5),
            head_dim: num(l, 6),
            pos,
            n_tok,
        }
    } else {
        Value::Lost
    }
}

/// Four matrices times one vector, each into its output; the second one may be stored in
/// another way.
pub open spec fn step_four(mats: Mats, l: LaunchView, s: Held, other: WType, gate: int) -> Held {
    let x = held(l, s, 4);
    put(
        l,
        put(
            l,
            put(
                l,
                put(l, s, 5, product(mats, l, 0, x, 1, num(l, 9), num(l, 10), num(l, 14))),
                6,
                product_as(mats, l, 1, x, other, num(l, 9), num(l, 11), num(l, gate)),
            ),
            7,
            product(mats, l, 2, x, 1, num(l, 9), num(l, 12), num(l, 14)),
        ),
        8,
        product(mats, l, 3, x, 1, num(l, 9), num(l, 13), num(l, 14)),
    )
}

/// Four matrices times one vector, in parts.
pub open spec fn step_four_split(
    mats: Mats,
    l: LaunchView,
    s: Held,
    other: WType,
    gate: int,
    n_split: int,
) -> Held {
    let x = dequantized(l, s, 4, 5, num(l, 7));
    let a = product(mats, l, 0, x, 1, num(l, 7), num(l, 8), num(l, 12));
    let b = product_as(mats, l, 1, x, other, num(l, 7), num(l, 9), num(l, gate));
    let c = product(mats, l, 2, x, 1, num(l, 7), num(l, 10), num(l, 12));
    let d = product(mats, l, 3, x, 1, num(l, 7), num(l, 11), num(l, 12));
    let all = Value::Both(
        Box::new(Value::Both(Box::new(a), Box::new(b))),
        Box::new(Value::Both(Box::new(c), Box::new(d))),
    );
    put(l, s, 6, Value::Parts(Box::new(all), num(l, n_split)))
}

/// The parts of four products added up, each into its output.
pub open spec fn step_four_reduce(l: LaunchView, s: Held) -> Held {
    match held(l, s, 0) {
        Value::Parts(all, n) => match *all {
            Value::Both(ab, cd) => match (*ab, *cd) {
                (Value::Both(a, b), Value::Both(c, d)) => if n == num(l, 9) {
                    put(l, put(l, put(l, put(l, s, 1, *a), 2, *b), 3, *c), 4, *d)
                } else {
                    all_lost()
                },
                _ => all_lost(),
            },
            _ => all_lost(),
        },
        _ => all_lost(),
    }
}

/// The product of the matrix of argument `i`, which is stored as `t`, with a value.
pub open spec fn product_as(
    mats: Mats,
    l: LaunchView,
    i: int,
    of: Value,
    t: WType,
    rows: i32,
    cols: i32,
    col_bytes: i32,
) -> Value {
    match l.args[i] {
        Arg::Mat(id, part) => {
            let w = mats(id);
            if w.wtype == t && part == Part::Data && col_bytes == w.col_bytes as i32 && rows
                == w.n_rows as i32 && cols == w.n_cols as i32 {
                Value::Product { mat: id, of: Box::new(of), n_tok: 1 }
            } else {
                Value::Lost
            }
        },
        _ => Value::Lost,
    }
}

/// The rows of the first argument, convolved behind those of the cache.
pub open spec fn convolved(l: LaunchView, s: Held, kernel: int, n_tok: i32, kept: bool) -> Value {
    if l.args[1] == Arg::Vector(VecId::Conv1d) {
        Value::Convolved {
            of: Box::new(held(l, s, 0)),
            cache: Box::new(held(l, s, 2)),
            kept,
            kernel: num(l, kernel),
            n_tok,
        }
    } else {
        Value::Lost
    }
}

/// One of the three runs of heads, of length one where that is asked for.
pub open spec fn cut(
    l: LaunchView,
    of: Value,
    which: int,
    at: int,
    n_tok: i32,
    unit: bool,
) -> Value {
    let v = Value::Cut {
        of: Box::new(of),
        which,
        n_k: num(l, at),
        n_v: num(l, at + 1),
        size: num(l, at + 2),
        n_tok,
    };
    if unit {
        Value::Unit { of: Box::new(v), heads: num(l, at), size: num(l, at + 2), n_tok }
    } else {
        v
    }
}

/// The three runs of heads into three buffers.
pub open spec fn put_cuts(
    l: LaunchView,
    s: Held,
    of: Value,
    out: int,
    at: int,
    n_tok: i32,
    unit: bool,
) -> Held {
    put(
        l,
        put(
            l,
            put(l, s, out, cut(l, of, 0, at, n_tok, unit)),
            out + 1,
            cut(l, of, 1, at, n_tok, unit),
        ),
        out + 2,
        cut(l, of, 2, at, n_tok, false),
    )
}

/// What is asked of the memory; the numbers begin at `at`.
pub open spec fn recall(
    l: LaunchView,
    s: Held,
    decay: Value,
    rate: Value,
    at: int,
    size: i32,
    n_tok: i32,
) -> Recall {
    Recall {
        q: Box::new(held(l, s, 0)),
        k: Box::new(held(l, s, 1)),
        v: Box::new(held(l, s, 2)),
        decay: Box::new(decay),
        rate: Box::new(rate),
        n_k: num(l, at),
        n_v: num(l, at + 1),
        size,
        n_tok,
    }
}

/// The memory of argument `memory` is asked and written, and the answer, normalised and
/// gated where there is a gate, goes into argument `out`.
pub open spec fn put_recalled(
    l: LaunchView,
    s: Held,
    from: Recall,
    memory: int,
    gate: Option<int>,
    out: int,
) -> Held {
    let answer = Value::Recalled { memory: Box::new(held(l, s, memory)), from, after: false };
    let given = match gate {
        Some(g) => Value::GatedNorm {
            of: Box::new(answer),
            gate: Box::new(held(l, s, g)),
            heads: from.n_v,
            size: from.size,
            n_tok: from.n_tok,
        },
        None => answer,
    };
    put(
        l,
        put(
            l,
            s,
            memory,
            Value::Recalled { memory: Box::new(held(l, s, memory)), from, after: true },
        ),
        out,
        given,
    )
}

/// A decay for each of so many heads and tokens.
pub open spec fn decay_of(v: Value, heads: i32, n_tok: i32) -> Value {
    Value::Decay { of: Box::new(v), heads, n_tok }
}

/// A rate for each of so many heads and tokens.
pub open spec fn rate_of(v: Value, heads: i32, n_tok: i32) -> Value {
    Value::Rate { of: Box::new(v), heads, n_tok }
}

/// The product of the matrix of argument `i` with a value, for the expert in the slot of
/// argument `slot` of those that argument `picks` holds.
pub open spec fn expert(
    mats: Mats,
    l: LaunchView,
    s: Held,
    i: int,
    of: Value,
    picks: int,
    slot: int,
    t: WType,
    bytes: Option<int>,
) -> Value {
    match l.args[i] {
        Arg::Mat(id, part) => if mats(id).wtype == t && part == Part::Data && (bytes matches Some(b)
            ==> num(l, b) == mats(id).col_bytes as i32) {
            Value::Expert {
                mat: id,
                of: Box::new(of),
                picks: Box::new(held(l, s, picks)),
                slot: num(l, slot),
                rows: num(l, slot + 1),
                cols: num(l, slot + 2),
            }
        } else {
            Value::Lost
        },
        _ => Value::Lost,
    }
}

/// The gated product of the first two matrices for one expert.
pub open spec fn expert_gated(
    mats: Mats,
    l: LaunchView,
    s: Held,
    of: Value,
    picks: int,
    t: WType,
    bytes: Option<int>,
) -> Value {
    Value::SiluTimes {
        gate: Box::new(expert(mats, l, s, 0, of, picks, picks + 1, t, bytes)),
        up: Box::new(expert(mats, l, s, 1, of, picks, picks + 1, t, bytes)),
        n: num(l, picks + 3),
    }
}

/// The weighted product of the first matrix for one expert is added to argument `out`.
pub open spec fn step_expert_down(
    mats: Mats,
    l: LaunchView,
    s: Held,
    of: Value,
    out: int,
    t: WType,
    bytes: Option<int>,
) -> Held {
    let v = expert(mats, l, s, 0, of, out + 1, out + 3, t, bytes);
    put(
        l,
        s,
        out,
        Value::Plus(
            Box::new(held(l, s, out)),
            Box::new(
                Value::Scaled {
                    of: Box::new(v),
                    weights: Box::new(held(l, s, out + 2)),
                    slot: num(l, out + 3),
                },
            ),
        ),
    )
}

/// What the router picks for a row.
pub open spec fn picked(of: Value, weights: bool, n_experts: i32, width: i32, top_k: i32) -> Value {
    Value::Picked { of: Box::new(of), as_weights: weights, n_experts, width, top_k }
}

/// What the buffers hold after one launch of a kernel of a block of experts, or of the
/// beginning and the end of a model.
pub open spec fn step_moe(mats: Mats, l: LaunchView, s: Held) -> Held {
    match l.kernel {
        Kernel::MoeRouterTopk => if l.args[0] == Arg::Vector(VecId::Router) {
            let pick = |weights: bool|
                picked(held(l, s, 1), weights, num(l, 4), num(l, 5), num(l, 6));
            put(l, put(l, s, 2, pick(false)), 3, pick(true))
        } else {
            all_lost()
        },
        Kernel::MoeFfnPrep => if l.args[3] == Arg::Vector(VecId::Router) && l.args[11] == Arg::Eps
            && vector(l, 1) is Some {
            let v = Value::Normed {
                weight: vector(l, 1)->0,
                of: Box::new(held(l, s, 0)),
                width: num(l, 8),
                n_tok: 1,
            };
            let pick = |weights: bool| picked(v, weights, num(l, 9), num(l, 8), num(l, 10));
            put(
                l,
                put(
                    l,
                    put(l, put(l, put(l, s, 2, v), 4, pick(false)), 5, pick(true)),
                    6,
                    Value::Codes(Box::new(v), num(l, 8)),
                ),
                7,
                Value::Scales(Box::new(v), num(l, 8)),
            )
        } else {
            all_lost()
        },
        Kernel::GemvQ40BmExpertGateUp => put(
            l,
            s,
            4,
            expert_gated(
                mats,
                l,
                s,
                dequantized(l, s, 2, 3, num(l, 7)),
                5,
                WType::Q4_0_BM,
                None,
            ),
        ),
        Kernel::GemvF16ExpertGateUp4w => put(
            l,
            s,
            3,
            expert_gated(mats, l, s, held(l, s, 2), 4, WType::F16, None),
        ),
        Kernel::GemvQ40ExpertGateUp4w | Kernel::GemvQ40ExpertGateUp2w => put(
            l,
            s,
            4,
            expert_gated(
                mats,
                l,
                s,
                dequantized(l, s, 2, 3, num(l, 7)),
                5,
                WType::Q4_0,
                Some(9),
            ),
        ),
        Kernel::GemvQ40ExpertGateUpQ8 => {
            let v = expert_gated(
                mats,
                l,
                s,
                dequantized(l, s, 2, 3, num(l, 8)),
                6,
                WType::Q4_0,
                Some(10),
            );
            put(
                l,
                put(l, s, 4, Value::Codes(Box::new(v), num(l, 9))),
                5,
                Value::Scales(Box::new(v), num(l, 9)),
            )
        },
        Kernel::GemvQ40ExpertGateUp | Kernel::GemvQ8ExpertGateUp => {
            let t = if l.kernel == Kernel::GemvQ40ExpertGateUp {
                WType::Q4_0
            } else {
                WType::Q8_0
            };
            let v = expert_gated(
                mats,
                l,
                s,
                dequantized(l, s, 2, 3, num(l, 8)),
                6,
                t,
                Some(10),
            );
            put(l, put(l, s, 5, Value::Lost), 4, v)
        },
        Kernel::GemvQ40BmExpertDownScale => step_expert_down(
            mats,
            l,
            s,
            dequantized(l, s, 1, 2, num(l, 7)),
            3,
            WType::Q4_0_BM,
            None,
        ),
        Kernel::GemvF16ExpertDownScale4w => step_expert_down(
            mats,
            l,
            s,
            held(l, s, 1),
            2,
            WType::F16,
            None,
        ),
        Kernel::GemvQ40ExpertDownScale4w
        | Kernel::GemvQ40ExpertDownScale2w
        | Kernel::GemvQ40ExpertDownScale => step_expert_down(
            mats,
            l,
            s,
            dequantized(l, s, 1, 2, num(l, 7)),
            3,
            WType::Q4_0,
            Some(9),
        ),
        Kernel::GemvQ8ExpertDownScale => step_expert_down(
            mats,
            l,
            s,
            dequantized(l, s, 1, 2, num(l, 7)),
            3,
            WType::Q8_0,
            Some(9),
        ),
        Kernel::CopyLast => put(
            l,
            s,
            1,
            Value::LastRow { of: Box::new(held(l, s, 0)), n_tok: num(l, 2), width: num(l, 3) },
        ),
        Kernel::Argmax => put(
            l,
            s,
            2,
            Value::Largest { of: Box::new(held(l, s, 0)), n: num(l, 1), n_tok: 1 },
        ),
        Kernel::ArgmaxRows => put(
            l,
            s,
            3,
            Value::Largest { of: Box::new(held(l, s, 0)), n: num(l, 1), n_tok: num(l, 2) },
        ),
        Kernel::EmbedQ4One
        | Kernel::EmbedQ40One
        | Kernel::EmbedQ5kOne
        | Kernel::EmbedQ5One
        | Kernel::EmbedQ6One
        | Kernel::EmbedQ8One
        | Kernel::EmbedQ4OneD
        | Kernel::EmbedQ40OneD
        | Kernel::EmbedQ5kOneD
        | Kernel::EmbedQ5OneD
        | Kernel::EmbedQ6OneD
        | Kernel::EmbedQ8OneD => put(
            l,
            s,
            1,
            embedded(mats, l, l.args[2], 1, num(l, 3), num(l, 4)),
        ),
        Kernel::EmbedQ4
        | Kernel::EmbedQ40
        | Kernel::EmbedQ5k
        | Kernel::EmbedQ5
        | Kernel::EmbedQ6
        | Kernel::EmbedQ8 => put(
            l,
            s,
            1,
            embedded(mats, l, l.args[2], num(l, 3), num(l, 4), num(l, 5)),
        ),
        _ => all_lost(),
    }
}

/// The rows of the embedding, where the kernel reads the matrix as it is stored.
pub open spec fn embedded(
    mats: Mats,
    l: LaunchView,
    token: Arg,
    n_tok: i32,
    rows: i32,
    col_bytes: i32,
) -> Value {
    let t = match l.kernel {
        Kernel::EmbedQ4 | Kernel::EmbedQ4One | Kernel::EmbedQ4OneD => WType::Q4K,
        Kernel::EmbedQ40 | Kernel::EmbedQ40One | Kernel::EmbedQ40OneD => WType::Q4_0,
        Kernel::EmbedQ5k | Kernel::EmbedQ5kOne | Kernel::EmbedQ5kOneD => WType::Q5K,
        Kernel::EmbedQ5 | Kernel::EmbedQ5One | Kernel::EmbedQ5OneD => WType::Q5_0,
        Kernel::EmbedQ6 | Kernel::EmbedQ6One | Kernel::EmbedQ6OneD => WType::Q6K,
        _ => WType::Q8_0,
    };
    let on_card = match l.kernel {
        Kernel::EmbedQ4One
        | Kernel::EmbedQ40One
        | Kernel::EmbedQ5kOne
        | Kernel::EmbedQ5One
        | Kernel::EmbedQ6One
        | Kernel::EmbedQ8One => false,
        _ => true,
    };
    match l.args[0] {
        Arg::Mat(id, part) => if mats(id).wtype == t && part == Part::Data && rows == mats(
            id,
        ).n_rows as i32 && col_bytes == mats(id).col_bytes as i32 && on_card == (token is Buf) {
            Value::Embedded { mat: id, token, n_tok }
        } else {
            Value::Lost
        },
        _ => Value::Lost,
    }
}

/// What the buffers hold after one launch of a kernel of the linear attention.
pub open spec fn step_linear(mats: Mats, l: LaunchView, s: Held) -> Held {
    match l.kernel {
        Kernel::GemvQ8Gdn4way => step_four(mats, l, s, WType::Q8_0, 14),
        Kernel::GemvHybridGdn4way => step_four(mats, l, s, WType::Q4K, 15),
        Kernel::GemvQ8Gdn4waySplitk => step_four_split(mats, l, s, WType::Q8_0, 12, 13),
        Kernel::GemvHybridGdn4waySplitk => step_four_split(mats, l, s, WType::Q4K, 13, 14),
        Kernel::GemvSplitkReduceGdn4way => step_four_reduce(l, s),
        Kernel::GdnPrepDecayBeta => if l.args[2] == Arg::Vector(VecId::SsmDt) && l.args[3]
            == Arg::Vector(VecId::SsmA) {
            put(
                l,
                put(l, s, 0, decay_of(held(l, s, 0), num(l, 4), num(l, 5))),
                1,
                rate_of(held(l, s, 1), num(l, 4), num(l, 5)),
            )
        } else {
            all_lost()
        },
        Kernel::CausalConv1d | Kernel::CausalConv1dOne => {
            let n_tok = if l.kernel == Kernel::CausalConv1d {
                num(l, 6)
            } else {
                1
            };
            let whole = match held(l, s, 0) {
                Value::Product { mat, of, n_tok } => num(l, 4) == mats(mat).n_cols as i32,
                _ => false,
            };
            if whole {
                put(
                    l,
                    put(l, s, 2, convolved(l, s, 5, n_tok, true)),
                    3,
                    convolved(l, s, 5, n_tok, false),
                )
            } else {
                all_lost()
            }
        },
        Kernel::GdnConvQkvl2One => if l.args[10] == Arg::Eps {
            put_cuts(
                l,
                put(l, s, 2, convolved(l, s, 9, 1, true)),
                convolved(l, s, 9, 1, false),
                3,
                6,
                1,
                true,
            )
        } else {
            all_lost()
        },
        Kernel::GdnSplitL2Seq => if l.args[9] == Arg::Eps && num(l, 6) == num(l, 7) {
            put_cuts(l, s, held(l, s, 0), 1, 4, num(l, 8), true)
        } else {
            all_lost()
        },
        Kernel::SplitQkvL2One => if l.args[8] == Arg::Eps && num(l, 6) == num(l, 7) {
            put_cuts(l, s, held(l, s, 0), 1, 4, 1, true)
        } else {
            all_lost()
        },
        Kernel::SplitQkvConv => if num(l, 6) == num(l, 7) {
            put_cuts(l, s, held(l, s, 0), 1, 4, num(l, 8), false)
        } else {
            all_lost()
        },
        Kernel::L2NormHeads => if l.args[4] == Arg::Eps {
            put(
                l,
                s,
                0,
                Value::Unit {
                    of: Box::new(held(l, s, 0)),
                    heads: num(l, 1),
                    size: num(l, 2),
                    n_tok: num(l, 3),
                },
            )
        } else {
            all_lost()
        },
        Kernel::GdnDeltaGatedOne | Kernel::GdnDeltaGatedOneD128 => {
            let size = if l.kernel == Kernel::GdnDeltaGatedOne {
                num(l, 13)
            } else {
                128
            };
            let from = recall(
                l,
                s,
                decay_of(held(l, s, 3), num(l, 12), 1),
                rate_of(held(l, s, 4), num(l, 12), 1),
                11,
                size,
                1,
            );
            if l.args[5] == Arg::Vector(VecId::SsmDt) && l.args[6] == Arg::Vector(VecId::SsmA)
                && l.args[8] == Arg::Vector(VecId::SsmNorm) && l.args.last() == Arg::Eps {
                put_recalled(l, s, from, 7, Some(9), 10)
            } else {
                all_lost()
            }
        },
        Kernel::GdnDeltaGatedSeq => if l.args[6] == Arg::Vector(VecId::SsmNorm) && l.args[13]
            == Arg::Eps {
            let from = recall(l, s, held(l, s, 3), held(l, s, 4), 9, num(l, 11), num(l, 12));
            put_recalled(l, s, from, 5, Some(7), 8)
        } else {
            all_lost()
        },
        Kernel::GatedDeltaOne => put_recalled(
            l,
            s,
            recall(l, s, held(l, s, 3), held(l, s, 4), 7, num(l, 9), 1),
            5,
            None,
            6,
        ),
        Kernel::GatedDeltaSeq => if num(l, 9) == num(l, 10) {
            put_recalled(
                l,
                s,
                recall(l, s, held(l, s, 3), held(l, s, 4), 7, num(l, 9), num(l, 11)),
                5,
                None,
                6,
            )
        } else {
            all_lost()
        },
        Kernel::GatedRmsNorm => if l.args[1] == Arg::Vector(VecId::SsmNorm) && l.args[7]
            == Arg::Eps {
            put(
                l,
                s,
                3,
                Value::GatedNorm {
                    of: Box::new(held(l, s, 0)),
                    gate: Box::new(held(l, s, 2)),
                    heads: num(l, 4),
                    size: num(l, 5),
                    n_tok: num(l, 6),
                },
            )
        } else {
            all_lost()
        },
        _ => step_moe(mats, l, s),
    }
}

/// What the buffers hold after one launch of a kernel of the attention.
pub open spec fn step_attn(mats: Mats, l: LaunchView, s: Held) -> Held {
    match l.kernel {
        Kernel::GemvQ40Qkv | Kernel::GemvQ40Qkv2w | Kernel::GemvQ4Qkv => step_three(
            mats,
            l,
            s,
            dequantized(l, s, 3, 4, num(l, 8)),
            5,
            8,
        ),
        Kernel::GemvQ8Qkv | Kernel::GemvQ5Qkv => step_three(mats, l, s, held(l, s, 3), 4, 7),
        Kernel::GemvQ8QkvSplitk => step_three_split(mats, l, s),
        Kernel::GemvSplitkReduceQkv => step_three_reduce(l, s),
        Kernel::AddBias => put(
            l,
            s,
            0,
            match (held(l, s, 0), l.args[1]) {
                (Value::Product { mat, of, n_tok }, Arg::Vector(v)) => if num(l, 2) == mats(
                    mat,
                ).n_cols as i32 && num(l, 3) == n_tok {
                    Value::Biased(Box::new(Value::Product { mat, of, n_tok }), v)
                } else {
                    Value::Lost
                },
                _ => Value::Lost,
            },
        ),
        Kernel::AttnPrep => {
            let v = match (l.args[1], l.args[6]) {
                (Arg::Vector(weight), Arg::Eps) => Value::Normed {
                    weight,
                    of: Box::new(held(l, s, 0)),
                    width: num(l, 5),
                    n_tok: 1,
                },
                _ => Value::Lost,
            };
            put(
                l,
                put(l, put(l, s, 2, v), 3, Value::Codes(Box::new(v), num(l, 5))),
                4,
                Value::Scales(Box::new(v), num(l, 5)),
            )
        },
        Kernel::SplitQGate => {
            let half = |gates: bool|
                Value::Half {
                    of: Box::new(held(l, s, 0)),
                    gates,
                    n_head: num(l, 3),
                    head_dim: num(l, 4),
                    n_tok: num(l, 5),
                    apart: num(l, 6),
                };
            put(l, put(l, s, 1, half(false)), 2, half(true))
        },
        Kernel::CopyF32 => put(l, s, 1, Value::First(Box::new(held(l, s, 0)), num(l, 2))),
        Kernel::QkNormRope | Kernel::QkNormRopeD => step_turn(
            l,
            s,
            vector(l, 1),
            2,
            3,
            4,
            vector(l, 1) is Some && l.args[6] == Arg::Theta && l.args[7] == Arg::Eps,
        ),
        Kernel::QkNormPartialRope | Kernel::QkNormPartialRopeD => step_turn(
            l,
            s,
            vector(l, 1),
            2,
            4,
            5,
            vector(l, 1) is Some && l.args[7] == Arg::Theta && l.args[8] == Arg::Eps,
        ),
        Kernel::Rope | Kernel::RopeD => step_turn(
            l,
            s,
            None,
            1,
            2,
            3,
            l.args[5] == Arg::Theta,
        ),
        Kernel::CopyKv | Kernel::CopyKvD => put(
            l,
            s,
            1,
            if place_is_right(l.kernel, l.args[2]) {
                Value::Kept {
                    before: Box::new(held(l, s, 1)),
                    of: Box::new(held(l, s, 0)),
                    pos: l.args[2],
                    n_tok: num(l, 3),
                    width: num(l, 4),
                }
            } else {
                Value::Lost
            },
        ),
        Kernel::AttnFastV2
        | Kernel::AttnFastV2D
        | Kernel::AttnFastV1
        | Kernel::AttnBasicF32 => put(
            l,
            s,
            3,
            gathered(l, s, l.args[7], num(l, 8), l.args[9] == Arg::Scale),
        ),
        Kernel::AttnFlashPartial | Kernel::AttnFlashPartialD => put(
            l,
            s,
            3,
            Value::Parts(
                Box::new(gathered(l, s, l.args[7], num(l, 8), l.args[10] == Arg::Scale)),
                num(l, 9),
            ),
        ),
        Kernel::AttnFlashReduce => put(
            l,
            s,
            1,
            match held(l, s, 0) {
                Value::Parts(v, n) => match *v {
                    Value::Attended { n_head, head_dim, n_tok, .. } => if n == num(l, 4) && n_head
                        == num(l, 2) && head_dim == num(l, 3) && n_tok == num(l, 5) {
                        *v
                    } else {
                        Value::Lost
                    },
                    _ => Value::Lost,
                },
                _ => Value::Lost,
            },
        ),
        // The number of positions, the last of which is that of the one token.
        Kernel::AttnOnlineF32 => put(
            l,
            s,
            3,
            gathered(l, s, Arg::Int((num(l, 7) - 1) as i32), 1, l.args[8] == Arg::Scale),
        ),
        Kernel::MulSigmoid => put(
            l,
            s,
            0,
            Value::Sigmoided {
                of: Box::new(held(l, s, 0)),
                gate: Box::new(held(l, s, 1)),
                n: num(l, 2),
            },
        ),
        _ => step_linear(mats, l, s),
    }
}

/// What the buffers hold after one launch.
pub open spec fn step(mats: Mats, l: LaunchView, s: Held) -> Held {
    match l.kernel {
        Kernel::QuantizeQ8 => {
            let v = Box::new(held(l, s, 0));
            put(l, put(l, s, 1, Value::Codes(v, num(l, 3))), 2, Value::Scales(v, num(l, 3)))
        },
        Kernel::GemvQ4
        | Kernel::GemvQ40
        | Kernel::GemvQ5k
        | Kernel::GemvQ5
        | Kernel::GemvQ6
        | Kernel::GemvQ6Repack
        | Kernel::GemvQ8 => step_gemv(mats, l, s),
        Kernel::GemvQ4Splitk
        | Kernel::GemvQ5kSplitk
        | Kernel::GemvQ5Splitk
        | Kernel::GemvQ6Splitk
        | Kernel::GemvQ6RepackSplitk
        | Kernel::GemvQ8Splitk => step_split(mats, l, s),
        Kernel::GemvQ4Global
        | Kernel::GemvQ40Global
        | Kernel::GemvQ8Global
        | Kernel::GemvQ6RepackGlobal
        | Kernel::GemvQ6CompactGlobal
        | Kernel::GemvQ6CompactGlobal4way
        | Kernel::GemvQ6CompactGlobal8way => step_global(mats, l, s),
        Kernel::GemvQ4GlobalSplitk
        | Kernel::GemvQ8GlobalSplitk
        | Kernel::GemvQ6RepackGlobalSplitk => step_global_split(mats, l, s),
        Kernel::GemvSplitkReduce => step_reduce(l, s),
        Kernel::GemvQ5Qk => step_pair(mats, l, s, held(l, s, 2), 3, 5, 7, 8, true),
        Kernel::GemvQ4Pair => step_pair(
            mats,
            l,
            s,
            dequantized(l, s, 2, 3, num(l, 6)),
            4,
            6,
            8,
            9,
            true,
        ),
        Kernel::GemvQ40Pair | Kernel::GemvQ4Dual => step_pair(
            mats,
            l,
            s,
            dequantized(l, s, 2, 3, num(l, 6)),
            4,
            6,
            7,
            8,
            false,
        ),
        Kernel::GemvQ40Ffn | Kernel::GemvQ4Ffn | Kernel::GemvQ4Ffn8way => step_ffn(
            mats,
            l,
            s,
            dequantized(l, s, 2, 3, num(l, 5)),
            4,
        ),
        Kernel::GemvQ4FfnMcol => step_ffn(mats, l, s, held(l, s, 2), 3),
        Kernel::GemmQ4
        | Kernel::GemmQ5k
        | Kernel::GemmQ5
        | Kernel::GemmQ6
        | Kernel::GemmQ8 => put(
            l,
            s,
            2,
            product(mats, l, 0, held(l, s, 1), num(l, 6), num(l, 3), num(l, 4), num(l, 5)),
        ),
        Kernel::RmsNorm => put(
            l,
            s,
            2,
            match (l.args[1], l.args[5]) {
                (Arg::Vector(weight), Arg::Eps) => Value::Normed {
                    weight,
                    of: Box::new(held(l, s, 0)),
                    width: num(l, 3),
                    n_tok: num(l, 4),
                },
                _ => Value::Lost,
            },
        ),
        Kernel::SiluMul => put(
            l,
            s,
            0,
            Value::SiluTimes {
                gate: Box::new(held(l, s, 0)),
                up: Box::new(held(l, s, 1)),
                n: num(l, 2),
            },
        ),
        Kernel::Add => put(
            l,
            s,
            0,
            Value::Plus(Box::new(held(l, s, 0)), Box::new(held(l, s, 1))),
        ),
        _ => step_attn(mats, l, s),
    }
}

/// What the buffers hold after the launches of a plan.
pub open spec fn run(mats: Mats, p: Plan, s: Held) -> Held
    decreases p.len(),
{
    if p.len() == 0 {
        s
    } else {
        step(mats, p.last(), run(mats, p.drop_last(), s))
    }
}

/// The launches of two plans run one after the other.
pub proof fn law_runs_join(mats: Mats, a: Plan, b: Plan, s: Held)
    ensures
        run(mats, a + b, s) == run(mats, b, run(mats, a, s)),
    decreases b.len(),
{
    if b.len() == 0 {
        assert(a + b =~= a);
    } else {
        law_runs_join(mats, a, b.drop_last(), s);
        assert((a + b).drop_last() =~= a + b.drop_last());
    }
}

/// A plan of one launch.
proof fn lemma_run_one(mats: Mats, p: Plan, s: Held)
    requires
        p.len() == 1,
    ensures
        run(mats, p, s) == step(mats, p[0], s),
{
    assert(p.drop_last() =~= Seq::<LaunchView>::empty());
    assert(run(mats, p.drop_last(), s) == s);
}

/// Buffers that a product uses on the way.
pub open spec fn on_the_way(b: Buf) -> bool {
    b == Buf::Q8X || b == Buf::Q8D || b == Buf::GemvPartial
}

/// A value with what is to be added to it.
pub open spec fn plus(v: Value, residual: GemvResidual, s: Held, y: Buf) -> Value {
    match residual {
        GemvResidual::Nothing => v,
        GemvResidual::Add(b) => Value::Plus(Box::new(s[b]), Box::new(v)),
        GemvResidual::InPlace => Value::Plus(Box::new(s[y]), Box::new(v)),
    }
}

/// A product with a bias, where there is one.
pub open spec fn biased(v: Value, bias: Option<VecId>) -> Value {
    match bias {
        Some(b) => Value::Biased(Box::new(v), b),
        None => v,
    }
}

/// A matrix times what a buffer holds.
pub open spec fn times(w: GpuMat, x: Value, n_tok: i32) -> Value {
    Value::Product { mat: w.id, of: Box::new(x), n_tok }
}

/// Nothing but `y` and the buffers on the way has changed.
pub open spec fn only(before: Held, after: Held, y: Buf) -> bool {
    forall|b: Buf| b != y && !on_the_way(b) ==> #[trigger] after[b] == before[b]
}

/// A residual that is not in a buffer on the way.
pub open spec fn clear_of(residual: GemvResidual) -> bool {
    residual matches GemvResidual::Add(b) ==> !on_the_way(b)
}

/// Whatever the form of the matrix and the size, the output holds its product with the
/// vector, with the bias and the residual added, and nothing else changes but the
/// buffers on the way.
#[verifier::rlimit(40)]
pub proof fn law_gemv(
    mats: Mats,
    card: Card,
    w: GpuMat,
    x: Buf,
    y: Buf,
    bias: Option<VecId>,
    residual: GemvResidual,
    s: Held,
)
    requires
        mats(w.id) == w,
        gemv_ok(card, w),
        !on_the_way(x),
        !on_the_way(y),
        clear_of(residual),
    ensures
        ({
            let r = run(mats, gemv_plan(card, w, x, y, bias, residual), s);
            r[y] == plus(biased(times(w, s[x], 1), bias), residual, s, y) && only(s, r, y)
        }),
{
    let p = gemv_plan(card, w, x, y, bias, residual);
    if p.len() == 1 {
        lemma_run_one(mats, p, s);
    } else {
        let a = p.take(1);
        let b = p.skip(1);
        assert(p =~= a + b);
        law_runs_join(mats, a, b, s);
        lemma_run_one(mats, a, s);
        lemma_run_one(mats, b, run(mats, a, s));
    }
}

/// The numbers of eight bits and their scales stand for the vector.
proof fn lemma_quantize(mats: Mats, x: Buf, n: usize, s: Held)
    requires
        !on_the_way(x),
    ensures
        ({
            let r = run(mats, quantize_q8_plan(x, Buf::Q8X, Buf::Q8D, n), s);
            &&& r[Buf::Q8X] == Value::Codes(Box::new(s[x]), n as i32)
            &&& r[Buf::Q8D] == Value::Scales(Box::new(s[x]), n as i32)
            &&& forall|b: Buf| !on_the_way(b) ==> #[trigger] r[b] == s[b]
        }),
{
    lemma_run_one(mats, quantize_q8_plan(x, Buf::Q8X, Buf::Q8D, n), s);
}

/// The ways that take the vector as numbers of eight bits.
#[verifier::rlimit(40)]
proof fn lemma_global(
    mats: Mats,
    card: Card,
    w: GpuMat,
    x: Buf,
    y: Buf,
    residual: GemvResidual,
    s: Held,
)
    requires
        mats(w.id) == w,
        try_gemv_global_q8_plan(card, w, x, y, None, residual).done,
        !on_the_way(x),
        !on_the_way(y),
        clear_of(residual),
    ensures
        ({
            let r = run(mats, try_gemv_global_q8_plan(card, w, x, y, None, residual).plan, s);
            r[y] == plus(times(w, s[x], 1), residual, s, y) && only(s, r, y)
        }),
{
    let (kernel, part, col_bytes) = spec_global_kernel(w)->0;
    let a = quantize_q8_plan(x, Buf::Q8X, Buf::Q8D, w.n_rows);
    let t = run(mats, a, s);
    lemma_quantize(mats, x, w.n_rows, s);
    let n_split = global_n_split(w);
    if n_split <= 1 {
        let b = global_whole_plan(card, kernel, w, part, col_bytes, y, x, None, residual);
        law_runs_join(mats, a, b, s);
        lemma_run_one(mats, b, t);
    } else if part == Part::Compact {
        let b = global_coop_plan(w, part, col_bytes, y, x, None, residual);
        law_runs_join(mats, a, b, s);
        lemma_run_one(mats, b, t);
    } else {
        let b = global_split_plan(w, part, col_bytes, n_split, y, x, None, residual);
        law_runs_join(mats, a, b, s);
        lemma_run_short(mats, b, t);
        assert(b.len() == 2);
    }
}

/// Whatever the way that is taken, the output holds the product of the matrix with the
/// vector, with the residual added.
#[verifier::rlimit(40)]
pub proof fn law_project(
    mats: Mats,
    card: Card,
    w: GpuMat,
    x: Buf,
    y: Buf,
    residual: GemvResidual,
    s: Held,
)
    requires
        mats(w.id) == w,
        project_ok(card, w),
        !on_the_way(x),
        !on_the_way(y),
        clear_of(residual),
    ensures
        ({
            let r = run(mats, project_plan(card, w, x, y, residual), s);
            r[y] == plus(times(w, s[x], 1), residual, s, y) && only(s, r, y)
        }),
{
    let first = try_gemv_global_q8_plan(card, w, x, y, None, residual);
    if first.done {
        lemma_global(mats, card, w, x, y, residual, s);
    } else {
        law_runs_join(mats, first.plan, gemv_plan(card, w, x, y, None, residual), s);
        if first.plan.len() == 1 {
            lemma_run_one(mats, first.plan, s);
        }
        law_gemv(mats, card, w, x, y, None, residual, run(mats, first.plan, s));
    }
}

/// The output holds the product of the matrix with each of the vectors.
#[verifier::rlimit(40)]
pub proof fn law_gemm(mats: Mats, card: Card, w: GpuMat, x: Buf, y: Buf, n_tok: usize, s: Held)
    requires
        mats(w.id) == w,
        gemm_ok(card, w, n_tok),
        gemm_plan(card, w, x, y, n_tok) is Ok,
        !on_the_way(x),
        !on_the_way(y),
    ensures
        ({
            let r = run(mats, gemm_plan(card, w, x, y, n_tok)->Ok_0, s);
            r[y] == times(w, s[x], n_tok as i32) && only(s, r, y)
        }),
{
    if n_tok == 1 {
        law_gemv(mats, card, w, x, y, None, GemvResidual::Nothing, s);
    } else {
        lemma_run_one(mats, gemm_plan(card, w, x, y, n_tok)->Ok_0, s);
    }
}

/// Two matrices at once give what they give one after the other.
#[verifier::rlimit(40)]
pub proof fn law_pair(
    mats: Mats,
    card: Card,
    wa: GpuMat,
    wb: GpuMat,
    x: Buf,
    out_a: Buf,
    out_b: Buf,
    ba: Option<VecId>,
    bb: Option<VecId>,
    s: Held,
)
    requires
        mats(wa.id) == wa,
        mats(wb.id) == wb,
        !on_the_way(x),
        !on_the_way(out_a),
        !on_the_way(out_b),
        out_a != out_b,
    ensures
        try_gemv_pair_plan(card, wa, wb, x, out_a, out_b, ba, bb) matches Some(p) ==> {
            let r = run(mats, p, s);
            &&& r[out_a] == biased(times(wa, s[x], 1), ba)
            &&& r[out_b] == biased(times(wb, s[x], 1), bb)
            &&& forall|b: Buf|
                b != out_a && b != out_b && !on_the_way(b) ==> #[trigger] r[b] == s[b]
        },
        try_gemv_q4_dual_plan(card, wa, wb, x, out_a, out_b) matches Some(p) ==> {
            let r = run(mats, p, s);
            &&& r[out_a] == times(wa, s[x], 1)
            &&& r[out_b] == times(wb, s[x], 1)
            &&& forall|b: Buf|
                b != out_a && b != out_b && !on_the_way(b) ==> #[trigger] r[b] == s[b]
        },
{
    if let Some(p) = try_gemv_pair_plan(card, wa, wb, x, out_a, out_b, ba, bb) {
        lemma_run_short(mats, p, s);
    }
    if let Some(p) = try_gemv_q4_dual_plan(card, wa, wb, x, out_a, out_b) {
        lemma_run_short(mats, p, s);
    }
}

/// A plan of one or two launches.
proof fn lemma_run_short(mats: Mats, p: Plan, s: Held)
    requires
        1 <= p.len() <= 2,
    ensures
        p.len() == 1 ==> run(mats, p, s) == step(mats, p[0], s),
        p.len() == 2 ==> run(mats, p, s) == step(mats, p[1], step(mats, p[0], s)),
{
    if p.len() == 1 {
        lemma_run_one(mats, p, s);
    } else {
        let a = p.take(1);
        let b = p.skip(1);
        assert(p =~= a + b);
        law_runs_join(mats, a, b, s);
        lemma_run_one(mats, a, s);
        lemma_run_one(mats, b, run(mats, a, s));
    }
}

/// What the first half of a dense feed-forward block is to give.
pub open spec fn gated(d: ChunkDims, gate: GpuMat, up: GpuMat, x: Value) -> Value {
    Value::SiluTimes {
        gate: Box::new(times(gate, x, d.n_tok as i32)),
        up: Box::new(times(up, x, d.n_tok as i32)),
        n: (d.n_ff * d.n_tok) as i32,
    }
}

/// For one token and for many, and whatever kernels run: the first buffer holds the
/// product with the first matrix, times its sigmoid, times the product with the second.
#[verifier::rlimit(60)]
pub proof fn law_gate_up(
    mats: Mats,
    card: Card,
    d: ChunkDims,
    gate: GpuMat,
    up: GpuMat,
    s: Held,
)
    requires
        mats(gate.id) == gate,
        mats(up.id) == up,
        gate.n_cols == d.n_ff,
        up.n_cols == d.n_ff,
        d.n_tok == 1 ==> gate_up_ok(card, gate, up),
        d.n_tok != 1 ==> gate.plain() && up.plain(),
        gate_up_plan(card, d, gate, up) is Ok,
    ensures
        ({
            let r = run(mats, gate_up_plan(card, d, gate, up)->Ok_0, s);
            &&& r[Buf::Hb] == gated(d, gate, up, s[Buf::Xb])
            &&& forall|b: Buf|
                b != Buf::Hb && b != Buf::Hb2 && !on_the_way(b) ==> #[trigger] r[b] == s[b]
        }),
{
    let silu = silu_mul_plan(d);
    if d.n_tok == 1 {
        if let Some(p) = try_gemv_q4_ffn_plan(card, gate, up, Buf::Xb, Buf::Hb) {
            lemma_run_short(mats, p, s);
        } else if let Some(p) = try_gemv_q4_dual_plan(card, gate, up, Buf::Xb, Buf::Hb, Buf::Hb2) {
            law_pair(mats, card, gate, up, Buf::Xb, Buf::Hb, Buf::Hb2, None, None, s);
            law_runs_join(mats, p, silu, s);
            lemma_run_one(mats, silu, run(mats, p, s));
        } else if let Some(p) = try_gemv_pair_plan(
            card,
            gate,
            up,
            Buf::Xb,
            Buf::Hb,
            Buf::Hb2,
            None,
            None,
        ) {
            law_pair(mats, card, gate, up, Buf::Xb, Buf::Hb, Buf::Hb2, None, None, s);
            law_runs_join(mats, p, silu, s);
            lemma_run_one(mats, silu, run(mats, p, s));
        } else {
            let a = project_plan(card, gate, Buf::Xb, Buf::Hb, GemvResidual::Nothing);
            let b = project_plan(card, up, Buf::Xb, Buf::Hb2, GemvResidual::Nothing);
            law_runs_join(mats, a + b, silu, s);
            law_runs_join(mats, a, b, s);
            law_project(mats, card, gate, Buf::Xb, Buf::Hb, GemvResidual::Nothing, s);
            let t = run(mats, a, s);
            law_project(mats, card, up, Buf::Xb, Buf::Hb2, GemvResidual::Nothing, t);
            lemma_run_one(mats, silu, run(mats, a + b, s));
        }
    } else {
        let a = gemm_plan(card, gate, Buf::Xb, Buf::Hb, d.n_tok)->Ok_0;
        let b = gemm_plan(card, up, Buf::Xb, Buf::Hb2, d.n_tok)->Ok_0;
        law_runs_join(mats, a + b, silu, s);
        law_runs_join(mats, a, b, s);
        law_gemm(mats, card, gate, Buf::Xb, Buf::Hb, d.n_tok, s);
        let t = run(mats, a, s);
        law_gemm(mats, card, up, Buf::Xb, Buf::Hb2, d.n_tok, t);
        lemma_run_one(mats, silu, run(mats, a + b, s));
    }
}

/// A block adds to the residual stream the product of its last matrix.
#[verifier::rlimit(40)]
pub proof fn law_block_output(
    mats: Mats,
    card: Card,
    d: ChunkDims,
    w: GpuMat,
    x: Buf,
    s: Held,
)
    requires
        mats(w.id) == w,
        output_kernels(card, d.n_tok, w),
        block_output_plan(card, d, w, x) is Ok,
        !on_the_way(x),
        x != Buf::X,
    ensures
        ({
            let r = run(mats, block_output_plan(card, d, w, x)->Ok_0, s);
            &&& r[Buf::X] == Value::Plus(
                Box::new(s[Buf::X]),
                Box::new(times(w, s[x], d.n_tok as i32)),
            )
            &&& forall|b: Buf|
                b != Buf::X && b != Buf::Xb2 && !on_the_way(b) ==> #[trigger] r[b] == s[b]
        }),
{
    if d.n_tok == 1 {
        law_project(mats, card, w, x, Buf::X, GemvResidual::InPlace, s);
    } else {
        let a = gemm_plan(card, w, x, Buf::Xb2, d.n_tok)->Ok_0;
        let b = add_residual_plan(d);
        law_runs_join(mats, a, b, s);
        law_gemm(mats, card, w, x, Buf::Xb2, d.n_tok, s);
        lemma_run_one(mats, b, run(mats, a, s));
    }
}

/// A dense feed-forward block adds to the residual stream the product of the down matrix
/// with the gated product of the normalised stream: every one of its matrices takes
/// part, for one token and for many.
#[verifier::rlimit(40)]
pub proof fn law_dense_block(
    mats: Mats,
    card: Card,
    d: ChunkDims,
    gate: GpuMat,
    up: GpuMat,
    down: GpuMat,
    s: Held,
)
    requires
        mats(gate.id) == gate,
        mats(up.id) == up,
        mats(down.id) == down,
        gate.n_cols == d.n_ff,
        up.n_cols == d.n_ff,
        dense_ok(card, d.n_tok, gate, up, down),
        ffn_block_dense_plan(card, d, gate, up, down) is Ok,
    ensures
        ({
            let r = run(mats, ffn_block_dense_plan(card, d, gate, up, down)->Ok_0, s);
            let normed = Value::Normed {
                weight: VecId::FfnNorm,
                of: Box::new(s[Buf::X]),
                width: d.n_embd as i32,
                n_tok: d.n_tok as i32,
            };
            r[Buf::X] == Value::Plus(
                Box::new(s[Buf::X]),
                Box::new(times(down, gated(d, gate, up, normed), d.n_tok as i32)),
            )
        }),
{
    let a = rms_norm_plan(Buf::X, VecId::FfnNorm, Buf::Xb, d.n_embd, d.n_tok);
    let b = gate_up_plan(card, d, gate, up)->Ok_0;
    let c = block_output_plan(card, d, down, Buf::Hb)->Ok_0;
    law_runs_join(mats, a + b, c, s);
    law_runs_join(mats, a, b, s);
    lemma_run_one(mats, a, s);
    law_gate_up(mats, card, d, gate, up, run(mats, a, s));
    law_block_output(mats, card, d, down, Buf::Hb, run(mats, a + b, s));
}

/// A chunk is refused by a dense block exactly where it has more than one token and one
/// of the matrices takes one token at a time.
pub proof fn law_dense_block_refuses(
    card: Card,
    d: ChunkDims,
    gate: GpuMat,
    up: GpuMat,
    down: GpuMat,
)
    ensures
        ffn_block_dense_plan(card, d, gate, up, down) is Err <==> d.n_tok != 1 && (gate.wtype
            == WType::Q4_0 || up.wtype == WType::Q4_0 || down.wtype == WType::Q4_0),
        ffn_block_dense_plan(card, d, gate, up, down) matches Err(e) ==> e
            == PlanError::Q4ManyTokens,
{
}

/// The queries, keys and values before they are turned: the products with their biases.
pub open spec fn projected(w: GpuMat, x: Value, n_tok: usize, has: bool, v: VecId) -> Value {
    if has {
        Value::Biased(Box::new(times(w, x, n_tok as i32)), v)
    } else {
        times(w, x, n_tok as i32)
    }
}

/// Matrices of one form that take the same vectors have columns of the same size.
pub open spec fn sides_agree(d: ChunkDims, full: FullAttnWeights) -> bool {
    &&& full.wq.n_rows == d.n_embd && full.wk.n_rows == d.n_embd && full.wv.n_rows == d.n_embd
    &&& full.wk.n_cols == d.n_kv_heads * d.head_dim && full.wv.n_cols == d.n_kv_heads * d.head_dim
    &&& full.wq.wtype == full.wk.wtype ==> full.wq.col_bytes == full.wk.col_bytes
    &&& full.wq.wtype == full.wv.wtype ==> full.wq.col_bytes == full.wv.col_bytes
}

/// For one token and for many, and whatever kernels run: the buffers of the queries,
/// keys and values hold the products of their own matrices, with their own biases.
#[verifier::rlimit(40)]
pub proof fn law_qkv(mats: Mats, card: Card, d: ChunkDims, full: FullAttnWeights, s: Held)
    requires
        mats(full.wq.id) == full.wq,
        mats(full.wk.id) == full.wk,
        mats(full.wv.id) == full.wv,
        full_ok(card, d.n_tok, full),
        d.fits(),
        sides_agree(d, full),
        projections_plan(card, d, full) is Ok,
        d.n_tok == 1 && all_q4_0(full) ==> s[Buf::Q8X] == Value::Codes(
            Box::new(s[Buf::Xb]),
            d.n_embd as i32,
        ) && s[Buf::Q8D] == Value::Scales(Box::new(s[Buf::Xb]), d.n_embd as i32),
        // The kernels for three matrices at once take all biases or none.
        d.n_tok == 1 && all_q4_0(full) ==> full.bq == full.bk && full.bq == full.bv,
    ensures
        ({
            let r = run(mats, projections_plan(card, d, full)->Ok_0, s);
            let x = s[Buf::Xb];
            &&& r[Buf::Q] == projected(full.wq, x, d.n_tok, full.bq, VecId::Bq)
            &&& r[Buf::KBuf] == projected(full.wk, x, d.n_tok, full.bk, VecId::Bk)
            &&& r[Buf::VBuf] == projected(full.wv, x, d.n_tok, full.bv, VecId::Bv)
            &&& forall|b: Buf|
                b != Buf::Q && b != Buf::KBuf && b != Buf::VBuf && !on_the_way(b)
                    ==> #[trigger] r[b] == s[b]
        }),
{
    if d.n_tok == 1 {
        lemma_qkv_one(mats, card, full, s);
    } else {
        lemma_qkv_many(mats, card, d, full, s);
    }
}

#[verifier::rlimit(40)]
proof fn lemma_qkv_q4_0(mats: Mats, card: Card, full: FullAttnWeights, s: Held)
    requires
        mats(full.wq.id) == full.wq,
        mats(full.wk.id) == full.wk,
        mats(full.wv.id) == full.wv,
        all_q4_0(full),
        full.bq == full.bk && full.bq == full.bv,
        full.wk.n_rows == full.wq.n_rows && full.wv.n_rows == full.wq.n_rows,
        full.wk.col_bytes == full.wq.col_bytes && full.wv.col_bytes == full.wq.col_bytes,
        s[Buf::Q8X] == Value::Codes(Box::new(s[Buf::Xb]), full.wq.n_rows as i32),
        s[Buf::Q8D] == Value::Scales(Box::new(s[Buf::Xb]), full.wq.n_rows as i32),
    ensures
        ({
            let r = run(mats, qkv_one_plan(card, full), s);
            let x = s[Buf::Xb];
            &&& r[Buf::Q] == projected(full.wq, x, 1, full.bq, VecId::Bq)
            &&& r[Buf::KBuf] == projected(full.wk, x, 1, full.bk, VecId::Bk)
            &&& r[Buf::VBuf] == projected(full.wv, x, 1, full.bv, VecId::Bv)
            &&& forall|b: Buf|
                b != Buf::Q && b != Buf::KBuf && b != Buf::VBuf && !on_the_way(b)
                    ==> #[trigger] r[b] == s[b]
        }),
{
    lemma_run_one(mats, qkv_one_plan(card, full), s);
}

#[verifier::rlimit(40)]
proof fn lemma_qkv_one(mats: Mats, card: Card, full: FullAttnWeights, s: Held)
    requires
        mats(full.wq.id) == full.wq,
        mats(full.wk.id) == full.wk,
        mats(full.wv.id) == full.wv,
        full_ok(card, 1, full),
        all_q4_0(full) ==> {
            &&& full.bq == full.bk && full.bq == full.bv
            &&& full.wk.n_rows == full.wq.n_rows && full.wv.n_rows == full.wq.n_rows
            &&& full.wk.col_bytes == full.wq.col_bytes && full.wv.col_bytes == full.wq.col_bytes
            &&& s[Buf::Q8X] == Value::Codes(Box::new(s[Buf::Xb]), full.wq.n_rows as i32)
            &&& s[Buf::Q8D] == Value::Scales(Box::new(s[Buf::Xb]), full.wq.n_rows as i32)
        },
    ensures
        ({
            let r = run(mats, qkv_one_plan(card, full), s);
            let x = s[Buf::Xb];
            &&& r[Buf::Q] == projected(full.wq, x, 1, full.bq, VecId::Bq)
            &&& r[Buf::KBuf] == projected(full.wk, x, 1, full.bk, VecId::Bk)
            &&& r[Buf::VBuf] == projected(full.wv, x, 1, full.bv, VecId::Bv)
            &&& forall|b: Buf|
                b != Buf::Q && b != Buf::KBuf && b != Buf::VBuf && !on_the_way(b)
                    ==> #[trigger] r[b] == s[b]
        }),
{
    let bq = bias_of(full.bq, VecId::Bq);
    let bk = bias_of(full.bk, VecId::Bk);
    let bv = bias_of(full.bv, VecId::Bv);
    if all_q4_0(full) {
        lemma_qkv_q4_0(mats, card, full, s);
    } else if let Some(p) = qkv_fused_plan(card, full) {
        lemma_qkv_fused(mats, card, full, s);
    } else if let Some(p) = qk_pair_plan(card, full) {
        let c = gemv_plan(card, full.wv, Buf::Xb, Buf::VBuf, bv, GemvResidual::Nothing);
        law_pair(mats, card, full.wq, full.wk, Buf::Xb, Buf::Q, Buf::KBuf, bq, bk, s);
        law_runs_join(mats, p, c, s);
        law_gemv(
            mats,
            card,
            full.wv,
            Buf::Xb,
            Buf::VBuf,
            bv,
            GemvResidual::Nothing,
            run(mats, p, s),
        );
    } else {
        let n = GemvResidual::Nothing;
        let a = gemv_plan(card, full.wq, Buf::Xb, Buf::Q, bq, n);
        let b = gemv_plan(card, full.wk, Buf::Xb, Buf::KBuf, bk, n);
        let c = gemv_plan(card, full.wv, Buf::Xb, Buf::VBuf, bv, n);
        law_runs_join(mats, a + b, c, s);
        law_runs_join(mats, a, b, s);
        law_gemv(mats, card, full.wq, Buf::Xb, Buf::Q, bq, n, s);
        law_gemv(mats, card, full.wk, Buf::Xb, Buf::KBuf, bk, n, run(mats, a, s));
        law_gemv(mats, card, full.wv, Buf::Xb, Buf::VBuf, bv, n, run(mats, a + b, s));
    }
}

#[verifier::rlimit(40)]
proof fn lemma_qkv_fused(mats: Mats, card: Card, full: FullAttnWeights, s: Held)
    requires
        mats(full.wq.id) == full.wq,
        mats(full.wk.id) == full.wk,
        mats(full.wv.id) == full.wv,
        qkv_fused_plan(card, full) is Some,
    ensures
        ({
            let r = run(mats, qkv_fused_plan(card, full)->0, s);
            let x = s[Buf::Xb];
            &&& r[Buf::Q] == projected(full.wq, x, 1, full.bq, VecId::Bq)
            &&& r[Buf::KBuf] == projected(full.wk, x, 1, full.bk, VecId::Bk)
            &&& r[Buf::VBuf] == projected(full.wv, x, 1, full.bv, VecId::Bv)
            &&& forall|b: Buf|
                b != Buf::Q && b != Buf::KBuf && b != Buf::VBuf && !on_the_way(b)
                    ==> #[trigger] r[b] == s[b]
        }),
{
    let p = qkv_fused_plan(card, full)->0;
    let n = full.wq.n_rows;
    let a = quantize_q8_plan(Buf::Xb, Buf::Q8X, Buf::Q8D, n);
    lemma_quantize(mats, Buf::Xb, n, s);
    let t = run(mats, a, s);
    let b = p.skip(1);
    if full.wq.wtype == WType::Q4_0 {
        assert(p =~= a + b);
        law_runs_join(mats, a, b, s);
        lemma_run_one(mats, b, t);
    } else if full.wq.wtype == WType::Q4K {
        assert(p =~= a + b);
        law_runs_join(mats, a, b, s);
        lemma_run_one(mats, b, t);
    } else if full.wq.wtype == WType::Q8_0 && p.len() == 3 {
        assert(p =~= a + b);
        law_runs_join(mats, a, b, s);
        lemma_run_short(mats, b, t);
        assert(b.len() == 2);
        lemma_qkv_split(mats, card, full, t, b);
    } else {
        lemma_run_one(mats, p, s);
    }
}

/// Three products in parts, and the parts added up.
#[verifier::rlimit(40)]
proof fn lemma_qkv_split(mats: Mats, card: Card, full: FullAttnWeights, t: Held, b: Plan)
    requires
        mats(full.wq.id) == full.wq,
        mats(full.wk.id) == full.wk,
        mats(full.wv.id) == full.wv,
        qkv_fused_plan(card, full) is Some,
        qkv_fused_plan(card, full)->0.len() == 3,
        full.wq.wtype == WType::Q8_0,
        b == qkv_fused_plan(card, full)->0.skip(1),
        t[Buf::Q8X] == Value::Codes(Box::new(t[Buf::Xb]), full.wq.n_rows as i32),
        t[Buf::Q8D] == Value::Scales(Box::new(t[Buf::Xb]), full.wq.n_rows as i32),
    ensures
        ({
            let r = step(mats, b[1], step(mats, b[0], t));
            let x = t[Buf::Xb];
            &&& r[Buf::Q] == projected(full.wq, x, 1, full.bq, VecId::Bq)
            &&& r[Buf::KBuf] == projected(full.wk, x, 1, full.bk, VecId::Bk)
            &&& r[Buf::VBuf] == projected(full.wv, x, 1, full.bv, VecId::Bv)
            &&& forall|b: Buf|
                b != Buf::Q && b != Buf::KBuf && b != Buf::VBuf && !on_the_way(b)
                    ==> #[trigger] r[b] == t[b]
        }),
{
    let u = step(mats, b[0], t);
    let a = times(full.wq, t[Buf::Xb], 1);
    let k = times(full.wk, t[Buf::Xb], 1);
    let v = times(full.wv, t[Buf::Xb], 1);
    assert(u == t.insert(
        Buf::GemvPartial,
        Value::Parts(
            Box::new(
                Value::Both(Box::new(a), Box::new(Value::Both(Box::new(k), Box::new(v)))),
            ),
            gemv_n_split(full.wq.n_rows) as i32,
        ),
    ));
}

proof fn lemma_biased_gemm(
    mats: Mats,
    card: Card,
    w: GpuMat,
    y: Buf,
    has: bool,
    v: VecId,
    width: usize,
    n_tok: usize,
    s: Held,
)
    requires
        mats(w.id) == w,
        gemm_ok(card, w, n_tok),
        n_tok != 1,
        gemm_plan(card, w, Buf::Xb, y, n_tok) is Ok,
        !on_the_way(y),
        y != Buf::Xb,
        width == w.n_cols,
    ensures
        ({
            let p = gemm_plan(card, w, Buf::Xb, y, n_tok)->Ok_0 + add_bias_plan(
                y,
                bias_of(has, v),
                width,
                n_tok,
            );
            let r = run(mats, p, s);
            &&& r[y] == projected(w, s[Buf::Xb], n_tok, has, v)
            &&& only(s, r, y)
        }),
{
    let a = gemm_plan(card, w, Buf::Xb, y, n_tok)->Ok_0;
    let b = add_bias_plan(y, bias_of(has, v), width, n_tok);
    law_gemm(mats, card, w, Buf::Xb, y, n_tok, s);
    law_runs_join(mats, a, b, s);
    if has {
        lemma_run_one(mats, b, run(mats, a, s));
    }
}

#[verifier::rlimit(40)]
proof fn lemma_qkv_many(mats: Mats, card: Card, d: ChunkDims, full: FullAttnWeights, s: Held)
    requires
        mats(full.wq.id) == full.wq,
        mats(full.wk.id) == full.wk,
        mats(full.wv.id) == full.wv,
        d.n_tok != 1,
        d.fits(),
        full_ok(card, d.n_tok, full),
        full.wk.n_cols == d.n_kv_heads * d.head_dim,
        full.wv.n_cols == d.n_kv_heads * d.head_dim,
        qkv_many_plan(card, d, full) is Ok,
    ensures
        ({
            let r = run(mats, qkv_many_plan(card, d, full)->Ok_0, s);
            let x = s[Buf::Xb];
            &&& r[Buf::Q] == projected(full.wq, x, d.n_tok, full.bq, VecId::Bq)
            &&& r[Buf::KBuf] == projected(full.wk, x, d.n_tok, full.bk, VecId::Bk)
            &&& r[Buf::VBuf] == projected(full.wv, x, d.n_tok, full.bv, VecId::Bv)
            &&& forall|b: Buf|
                b != Buf::Q && b != Buf::KBuf && b != Buf::VBuf && !on_the_way(b)
                    ==> #[trigger] r[b] == s[b]
        }),
{
    let n = d.n_tok;
    let qa = gemm_plan(card, full.wq, Buf::Xb, Buf::Q, n)->Ok_0;
    let qb = add_bias_plan(Buf::Q, bias_of(full.bq, VecId::Bq), full.wq.n_cols, n);
    let ka = gemm_plan(card, full.wk, Buf::Xb, Buf::KBuf, n)->Ok_0;
    let kb = add_bias_plan(Buf::KBuf, bias_of(full.bk, VecId::Bk), d.stride(), n);
    let va = gemm_plan(card, full.wv, Buf::Xb, Buf::VBuf, n)->Ok_0;
    let vb = add_bias_plan(Buf::VBuf, bias_of(full.bv, VecId::Bv), d.stride(), n);
    let p = qkv_many_plan(card, d, full)->Ok_0;
    assert(p =~= (qa + qb) + (ka + kb) + (va + vb));
    law_runs_join(mats, (qa + qb) + (ka + kb), va + vb, s);
    law_runs_join(mats, qa + qb, ka + kb, s);
    lemma_biased_gemm(mats, card, full.wq, Buf::Q, full.bq, VecId::Bq, full.wq.n_cols, n, s);
    let t = run(mats, qa + qb, s);
    lemma_biased_gemm(mats, card, full.wk, Buf::KBuf, full.bk, VecId::Bk, d.stride(), n, t);
    let u = run(mats, (qa + qb) + (ka + kb), s);
    lemma_biased_gemm(mats, card, full.wv, Buf::VBuf, full.bv, VecId::Bv, d.stride(), n, u);
}

/// The kernels of the attention paths go by their names.
pub proof fn law_attention_kernels()
    ensures
        attn_named("attn_fast_v2"@) == Some(Kernel::AttnFastV2),
        attn_named("attn_fast_v2_d"@) == Some(Kernel::AttnFastV2D),
        attn_named("attn_flash_partial"@) == Some(Kernel::AttnFlashPartial),
        attn_named("attn_flash_partial_d"@) == Some(Kernel::AttnFlashPartialD),
        attn_named("attn_flash_reduce"@) == Some(Kernel::AttnFlashReduce),
        attn_named("attn_fast_v1"@) == Some(Kernel::AttnFastV1),
        attn_named("attn_basic_f32"@) == Some(Kernel::AttnBasicF32),
        attn_named("attn_online_f32"@) == Some(Kernel::AttnOnlineF32),
{
    reveal_strlit("attn_fast_v2");
    reveal_strlit("attn_fast_v2_d");
    reveal_strlit("attn_flash_partial");
    reveal_strlit("attn_flash_partial_d");
    reveal_strlit("attn_flash_reduce");
    reveal_strlit("attn_fast_v1");
    reveal_strlit("attn_basic_f32");
    reveal_strlit("attn_online_f32");
    assert("attn_fast_v2"@.len() == 12 && "attn_fast_v1"@.len() == 12);
    assert("attn_fast_v2_d"@.len() == 14 && "attn_basic_f32"@.len() == 14);
    assert("attn_flash_partial"@.len() == 18 && "attn_flash_partial_d"@.len() == 20);
    assert("attn_flash_reduce"@.len() == 17 && "attn_online_f32"@.len() == 15);
    assert("attn_fast_v2"@[11] != "attn_fast_v1"@[11]);
    assert("attn_fast_v2_d"@[5] != "attn_basic_f32"@[5]);
}

/// The position of the first token, as the kernels get it: a number, or the buffer that
/// holds it.
pub open spec fn first_place(d: ChunkDims) -> Arg {
    if d.use_device_pos {
        Arg::Buf(Buf::DPos0)
    } else {
        Arg::Int(d.pos0 as i32)
    }
}

/// Whether the heads of a layer are turned by their positions.
pub open spec fn turns_heads(rope: RopeConfig, li: usize, flags: Flags) -> bool {
    !flags.no_rope && (rope.no_rope_layer_interval == 0 || (li + 1)
        % rope.no_rope_layer_interval as int != 0)
}

/// How many numbers of a head are turned.
pub open spec fn turned_numbers(
    d: ChunkDims,
    rope: RopeConfig,
    li: usize,
    flags: Flags,
) -> usize {
    if !turns_heads(rope, li, flags) {
        0
    } else if !flags.full_rope && 0 < rope.rope_dim < d.head_dim {
        rope.rope_dim
    } else {
        d.head_dim
    }
}

/// Heads with their positions: normalised where the layer has vectors for that, and
/// turned where the layer turns them.
pub open spec fn placed(
    d: ChunkDims,
    full: FullAttnWeights,
    rope: RopeConfig,
    li: usize,
    flags: Flags,
    of: Value,
    norm: VecId,
    heads: usize,
) -> Value {
    let both = full.attn_q_norm && full.attn_k_norm;
    if both || turns_heads(rope, li, flags) {
        Value::Turned {
            of: Box::new(of),
            norm: if both {
                Some(norm)
            } else {
                None
            },
            heads: heads as i32,
            head_dim: d.head_dim as i32,
            n_rot: if both {
                turned_numbers(d, rope, li, flags) as i32
            } else {
                d.head_dim as i32
            },
            pos: first_place(d),
            n_tok: d.n_tok as i32,
        }
    } else {
        of
    }
}

/// The queries and the keys get their positions, and nothing else changes.
#[verifier::rlimit(40)]
pub proof fn law_positions(
    mats: Mats,
    d: ChunkDims,
    full: FullAttnWeights,
    rope: RopeConfig,
    li: usize,
    flags: Flags,
    s: Held,
)
    requires
        li < MAX_SIDE,
    ensures
        ({
            let r = run(mats, positions_plan(d, full, rope, li, flags), s);
            &&& r[Buf::Q] == placed(
                d,
                full,
                rope,
                li,
                flags,
                s[Buf::Q],
                VecId::QNorm,
                d.n_head,
            )
            &&& r[Buf::KBuf] == placed(
                d,
                full,
                rope,
                li,
                flags,
                s[Buf::KBuf],
                VecId::KNorm,
                d.n_kv_heads,
            )
            &&& forall|b: Buf| b != Buf::Q && b != Buf::KBuf ==> #[trigger] r[b] == s[b]
        }),
{
    let p = positions_plan(d, full, rope, li, flags);
    if p.len() > 0 {
        lemma_run_short(mats, p, s);
    }
}

/// The keys and the values are written behind those of the earlier tokens, each into its
/// own cache.
pub proof fn law_store_kv(mats: Mats, d: ChunkDims, s: Held)
    requires
        d.fits(),
    ensures
        ({
            let r = run(mats, store_kv_plan(d), s);
            let kept = |cache: Buf, of: Buf|
                Value::Kept {
                    before: Box::new(s[cache]),
                    of: Box::new(s[of]),
                    pos: first_place(d),
                    n_tok: d.n_tok as i32,
                    width: (d.n_kv_heads * d.head_dim) as i32,
                };
            &&& r[Buf::CacheK] == kept(Buf::CacheK, Buf::KBuf)
            &&& r[Buf::CacheV] == kept(Buf::CacheV, Buf::VBuf)
            &&& forall|b: Buf| b != Buf::CacheK && b != Buf::CacheV ==> #[trigger] r[b] == s[b]
        }),
{
    lemma_run_short(mats, store_kv_plan(d), s);
    assert(store_kv_plan(d).len() == 2);
}

/// What the queries gather from the caches.
pub open spec fn attended(d: ChunkDims, s: Held) -> Value {
    Value::Attended {
        q: Box::new(s[Buf::Q]),
        k: Box::new(s[Buf::CacheK]),
        v: Box::new(s[Buf::CacheV]),
        n_head: d.n_head as i32,
        n_kv_heads: d.n_kv_heads as i32,
        head_dim: d.head_dim as i32,
        pos: first_place(d),
        n_tok: d.n_tok as i32,
    }
}

/// Every path of the registry gathers the same: what the queries find in the cache, from
/// the positions of the chunk on.
#[verifier::rlimit(40)]
pub proof fn law_attention_paths_agree(mats: Mats, d: ChunkDims, decode: DecodeBackend, s: Held)
    requires
        d.fits(),
        decode.wf(),
        launch_attn_plan(d, decode.view().launch) is Ok,
    ensures
        ({
            let r = run(mats, launch_attn_plan(d, decode.view().launch)->Ok_0, s);
            &&& r[Buf::Xb] == attended(d, s)
            &&& forall|b: Buf|
                b != Buf::Xb && b != Buf::FlashPartial ==> #[trigger] r[b] == s[b]
        }),
{
    law_attention_kernels();
    assert(registry()[0].name == "fastv2"@);
    let p = launch_attn_plan(d, decode.view().launch)->Ok_0;
    lemma_run_short(mats, p, s);
}

/// The first norm of a layer, and the numbers of eight bits where the projections take
/// those.
#[verifier::rlimit(40)]
pub proof fn law_attn_norm(mats: Mats, d: ChunkDims, attn: LayerAttn, s: Held)
    ensures
        ({
            let r = run(mats, attn_norm_plan(d, attn), s);
            let normed = Value::Normed {
                weight: VecId::AttnNorm,
                of: Box::new(s[Buf::X]),
                width: d.n_embd as i32,
                n_tok: d.n_tok as i32,
            };
            &&& r[Buf::Xb] == normed
            &&& attn matches LayerAttn::Full(full) ==> d.n_tok == 1 && all_q4_0(full) ==> {
                &&& r[Buf::Q8X] == Value::Codes(Box::new(normed), d.n_embd as i32)
                &&& r[Buf::Q8D] == Value::Scales(Box::new(normed), d.n_embd as i32)
            }
            &&& forall|b: Buf| b != Buf::Xb && !on_the_way(b) ==> #[trigger] r[b] == s[b]
        }),
{
    lemma_run_one(mats, attn_norm_plan(d, attn), s);
}

/// The queries that go on: all of the product, or its half where the other half are
/// gates.
pub open spec fn queries(d: ChunkDims, full: FullAttnWeights, flags: Flags, q: Value) -> Value {
    if full.fused_q_gate {
        Value::First(
            Box::new(half(d, flags, q, false)),
            ((d.n_head * d.head_dim) as usize * d.n_tok) as i32,
        )
    } else {
        q
    }
}

/// One half of the product of the query matrix.
pub open spec fn half(d: ChunkDims, flags: Flags, q: Value, gates: bool) -> Value {
    Value::Half {
        of: Box::new(q),
        gates,
        n_head: d.n_head as i32,
        head_dim: d.head_dim as i32,
        n_tok: d.n_tok as i32,
        apart: if flags.q_gate_half {
            1
        } else {
            0
        },
    }
}

/// What a layer with attention does with the normalised stream `x`.
pub open spec fn mixed(
    d: ChunkDims,
    full: FullAttnWeights,
    rope: RopeConfig,
    li: usize,
    flags: Flags,
    x: Value,
    cache_k: Value,
    cache_v: Value,
) -> (Value, Value, Value) {
    let q = projected(full.wq, x, d.n_tok, full.bq, VecId::Bq);
    let k = projected(full.wk, x, d.n_tok, full.bk, VecId::Bk);
    let v = projected(full.wv, x, d.n_tok, full.bv, VecId::Bv);
    let width = (d.n_kv_heads * d.head_dim) as i32;
    let kept = |before: Value, of: Value|
        Value::Kept {
            before: Box::new(before),
            of: Box::new(of),
            pos: first_place(d),
            n_tok: d.n_tok as i32,
            width,
        };
    let turned_q = placed(
        d,
        full,
        rope,
        li,
        flags,
        queries(d, full, flags, q),
        VecId::QNorm,
        d.n_head,
    );
    let turned_k = placed(d, full, rope, li, flags, k, VecId::KNorm, d.n_kv_heads);
    let keys = kept(cache_k, turned_k);
    let values = kept(cache_v, v);
    let seen = Value::Attended {
        q: Box::new(turned_q),
        k: Box::new(keys),
        v: Box::new(values),
        n_head: d.n_head as i32,
        n_kv_heads: d.n_kv_heads as i32,
        head_dim: d.head_dim as i32,
        pos: first_place(d),
        n_tok: d.n_tok as i32,
    };
    let out = if full.fused_q_gate && !flags.no_out_gate {
        Value::Sigmoided {
            of: Box::new(seen),
            gate: Box::new(half(d, flags, q, true)),
            n: ((d.n_head * d.head_dim) as usize * d.n_tok) as i32,
        }
    } else {
        seen
    };
    (keys, values, out)
}

/// The queries, keys and values are made ready: the queries parted from their gates,
/// both placed, and the caches filled.
#[verifier::rlimit(40)]
pub proof fn law_before_attention(
    mats: Mats,
    d: ChunkDims,
    full: FullAttnWeights,
    rope: RopeConfig,
    li: usize,
    flags: Flags,
    s: Held,
)
    requires
        d.fits(),
        li < MAX_SIDE,
    ensures
        ({
            let r = run(mats, before_attention_plan(d, full, rope, li, flags), s);
            let k = placed(d, full, rope, li, flags, s[Buf::KBuf], VecId::KNorm, d.n_kv_heads);
            let kept = |before: Value, of: Value|
                Value::Kept {
                    before: Box::new(before),
                    of: Box::new(of),
                    pos: first_place(d),
                    n_tok: d.n_tok as i32,
                    width: (d.n_kv_heads * d.head_dim) as i32,
                };
            &&& r[Buf::Q] == placed(
                d,
                full,
                rope,
                li,
                flags,
                queries(d, full, flags, s[Buf::Q]),
                VecId::QNorm,
                d.n_head,
            )
            &&& r[Buf::CacheK] == kept(s[Buf::CacheK], k)
            &&& r[Buf::CacheV] == kept(s[Buf::CacheV], s[Buf::VBuf])
            &&& full.fused_q_gate ==> r[Buf::GateBuf] == half(d, flags, s[Buf::Q], true)
            &&& r[Buf::X] == s[Buf::X]
        }),
{
    let b = positions_plan(d, full, rope, li, flags);
    let c = store_kv_plan(d);
    if full.fused_q_gate {
        let a = split_gate_plan(d, flags);
        law_runs_join(mats, a + b, c, s);
        law_runs_join(mats, a, b, s);
        lemma_run_short(mats, a, s);
        assert(a.len() == 2);
        law_positions(mats, d, full, rope, li, flags, run(mats, a, s));
        law_store_kv(mats, d, run(mats, a + b, s));
    } else {
        law_runs_join(mats, b, c, s);
        law_positions(mats, d, full, rope, li, flags, s);
        law_store_kv(mats, d, run(mats, b, s));
    }
}

/// A layer with attention adds to the residual stream the product of its output matrix
/// with what the queries of the normalised stream gather, and its caches hold the keys
/// and values of the chunk: for one token and for many, on every path.
#[verifier::rlimit(60)]
pub proof fn law_full_attention_block(
    mats: Mats,
    card: Card,
    d: ChunkDims,
    full: FullAttnWeights,
    rope: RopeConfig,
    li: usize,
    flags: Flags,
    decode: DecodeBackend,
    s: Held,
)
    requires
        mats(full.wq.id) == full.wq,
        mats(full.wk.id) == full.wk,
        mats(full.wv.id) == full.wv,
        mats(full.wo.id) == full.wo,
        full_ok(card, d.n_tok, full),
        d.fits(),
        li < MAX_SIDE,
        decode.wf(),
        sides_agree(d, full),
        d.n_tok == 1 && all_q4_0(full) ==> full.bq == full.bk && full.bq == full.bv,
        attn_block_plan(card, d, LayerAttn::Full(full), rope, li, flags, decode) is Ok,
    ensures
        ({
            let p = attn_block_plan(card, d, LayerAttn::Full(full), rope, li, flags, decode);
            let r = run(mats, p->Ok_0, s);
            let x = Value::Normed {
                weight: VecId::AttnNorm,
                of: Box::new(s[Buf::X]),
                width: d.n_embd as i32,
                n_tok: d.n_tok as i32,
            };
            let (keys, values, out) = mixed(
                d,
                full,
                rope,
                li,
                flags,
                x,
                s[Buf::CacheK],
                s[Buf::CacheV],
            );
            &&& r[Buf::CacheK] == keys
            &&& r[Buf::CacheV] == values
            &&& r[Buf::X] == Value::Plus(
                Box::new(s[Buf::X]),
                Box::new(times(full.wo, out, d.n_tok as i32)),
            )
        }),
{
    let p0 = attn_norm_plan(d, LayerAttn::Full(full));
    let p1 = projections_plan(card, d, full)->Ok_0;
    let p2 = before_attention_plan(d, full, rope, li, flags);
    let p3 = launch_attn_plan(d, decode.view().launch)->Ok_0;
    let p4 = gated_plan(d, full, flags);
    let p5 = block_output_plan(card, d, full.wo, Buf::Xb)->Ok_0;
    lemma_full_parts(card, d, full, rope, li, flags, decode);
    lemma_run_six(mats, p0, p1, p2, p3, p4, p5, s);
    let s0 = run(mats, p0, s);
    let s1 = run(mats, p1, s0);
    let s2 = run(mats, p2, s1);
    let s3 = run(mats, p3, s2);
    let s4 = run(mats, p4, s3);
    assert(s0[Buf::Xb] == Value::Normed {
        weight: VecId::AttnNorm,
        of: Box::new(s[Buf::X]),
        width: d.n_embd as i32,
        n_tok: d.n_tok as i32,
    } && s0[Buf::CacheK] == s[Buf::CacheK] && s0[Buf::CacheV] == s[Buf::CacheV] && s0[Buf::X]
        == s[Buf::X]) by {
        law_attn_norm(mats, d, LayerAttn::Full(full), s);
    }
    let x = s0[Buf::Xb];
    assert(s1[Buf::Q] == projected(full.wq, x, d.n_tok, full.bq, VecId::Bq) && s1[Buf::KBuf]
        == projected(full.wk, x, d.n_tok, full.bk, VecId::Bk) && s1[Buf::VBuf] == projected(
        full.wv,
        x,
        d.n_tok,
        full.bv,
        VecId::Bv,
    ) && s1[Buf::CacheK] == s[Buf::CacheK] && s1[Buf::CacheV] == s[Buf::CacheV] && s1[Buf::X]
        == s[Buf::X]) by {
        law_attn_norm(mats, d, LayerAttn::Full(full), s);
        law_qkv(mats, card, d, full, s0);
    }
    law_before_attention(mats, d, full, rope, li, flags, s1);
    law_attention_paths_agree(mats, d, decode, s2);
    lemma_gated(mats, d, full, flags, s3);
    law_block_output(mats, card, d, full.wo, Buf::Xb, s4);
}

/// The parts of a layer with attention, one after the other.
proof fn lemma_full_parts(
    card: Card,
    d: ChunkDims,
    full: FullAttnWeights,
    rope: RopeConfig,
    li: usize,
    flags: Flags,
    decode: DecodeBackend,
)
    requires
        attn_block_plan(card, d, LayerAttn::Full(full), rope, li, flags, decode) is Ok,
    ensures
        projections_plan(card, d, full) is Ok,
        launch_attn_plan(d, decode.view().launch) is Ok,
        block_output_plan(card, d, full.wo, Buf::Xb) is Ok,
        attn_block_plan(card, d, LayerAttn::Full(full), rope, li, flags, decode)->Ok_0
            == attn_norm_plan(d, LayerAttn::Full(full)) + (projections_plan(card, d, full)->Ok_0
            + before_attention_plan(d, full, rope, li, flags) + launch_attn_plan(
            d,
            decode.view().launch,
        )->Ok_0 + gated_plan(d, full, flags) + block_output_plan(
            card,
            d,
            full.wo,
            Buf::Xb,
        )->Ok_0),
{
}

/// Six plans, one after the other.
proof fn lemma_run_six(
    mats: Mats,
    p0: Plan,
    p1: Plan,
    p2: Plan,
    p3: Plan,
    p4: Plan,
    p5: Plan,
    s: Held,
)
    ensures
        run(mats, p0 + (p1 + p2 + p3 + p4 + p5), s) == run(
            mats,
            p5,
            run(mats, p4, run(mats, p3, run(mats, p2, run(mats, p1, run(mats, p0, s))))),
        ),
{
    let s0 = run(mats, p0, s);
    law_runs_join(mats, p0, p1 + p2 + p3 + p4 + p5, s);
    law_runs_join(mats, p1 + p2 + p3 + p4, p5, s0);
    law_runs_join(mats, p1 + p2 + p3, p4, s0);
    law_runs_join(mats, p1 + p2, p3, s0);
    law_runs_join(mats, p1, p2, s0);
}

/// The output of the attention times its gates, where there are gates.
proof fn lemma_gated(mats: Mats, d: ChunkDims, full: FullAttnWeights, flags: Flags, s: Held)
    requires
        d.fits(),
    ensures
        ({
            let r = run(mats, gated_plan(d, full, flags), s);
            &&& r[Buf::Xb] == (if full.fused_q_gate && !flags.no_out_gate {
                Value::Sigmoided {
                    of: Box::new(s[Buf::Xb]),
                    gate: Box::new(s[Buf::GateBuf]),
                    n: ((d.n_head * d.head_dim) as usize * d.n_tok) as i32,
                }
            } else {
                s[Buf::Xb]
            })
            &&& forall|b: Buf| b != Buf::Xb ==> #[trigger] r[b] == s[b]
        }),
{
    let p = gated_plan(d, full, flags);
    if p.len() == 1 {
        lemma_run_one(mats, p, s);
    }
}

/// What the four matrices of a linear layer give.
pub open spec fn four_made(d: ChunkDims, lin: LinearAttnWeights, s: Held, r: Held) -> bool {
    let x = s[Buf::Xb];
    let n = d.n_tok as i32;
    &&& r[Buf::Q] == times(lin.wqkv, x, n)
    &&& r[Buf::GdnZ] == times(lin.w_gate, x, n)
    &&& r[Buf::GdnBeta] == times(lin.ssm_beta, x, n)
    &&& r[Buf::GdnAlpha] == times(lin.ssm_alpha, x, n)
    &&& forall|b: Buf|
        b != Buf::Q && b != Buf::GdnZ && b != Buf::GdnBeta && b != Buf::GdnAlpha && !on_the_way(b)
            ==> #[trigger] r[b] == s[b]
}

/// For one token and for many, and whatever kernels run: each of the four buffers holds
/// the product of its own matrix.
#[verifier::rlimit(40)]
pub proof fn law_linear_projections(
    mats: Mats,
    card: Card,
    d: ChunkDims,
    lin: LinearAttnWeights,
    flags: Flags,
    s: Held,
)
    requires
        mats(lin.wqkv.id) == lin.wqkv,
        mats(lin.w_gate.id) == lin.w_gate,
        mats(lin.ssm_beta.id) == lin.ssm_beta,
        mats(lin.ssm_alpha.id) == lin.ssm_alpha,
        linear_ok(card, d.n_tok, lin, flags),
        gdn_projections_plan(card, d, lin, flags) is Ok,
    ensures
        four_made(d, lin, s, run(mats, gdn_projections_plan(card, d, lin, flags)->Ok_0, s)),
{
    let nothing = GemvResidual::Nothing;
    if d.n_tok == 1 && gdn_fused_plan(card, lin, flags) is Some {
        lemma_gdn_fused(mats, card, d, lin, flags, s);
    } else if d.n_tok == 1 {
        let a = gemv_plan(card, lin.wqkv, Buf::Xb, Buf::Q, None, nothing);
        let b = gemv_plan(card, lin.w_gate, Buf::Xb, Buf::GdnZ, None, nothing);
        let c = gemv_plan(card, lin.ssm_beta, Buf::Xb, Buf::GdnBeta, None, nothing);
        let e = gemv_plan(card, lin.ssm_alpha, Buf::Xb, Buf::GdnAlpha, None, nothing);
        lemma_run_four(mats, a, b, c, e, s);
        let s1 = run(mats, a, s);
        let s2 = run(mats, b, s1);
        let s3 = run(mats, c, s2);
        law_gemv(mats, card, lin.wqkv, Buf::Xb, Buf::Q, None, nothing, s);
        law_gemv(mats, card, lin.w_gate, Buf::Xb, Buf::GdnZ, None, nothing, s1);
        law_gemv(mats, card, lin.ssm_beta, Buf::Xb, Buf::GdnBeta, None, nothing, s2);
        law_gemv(mats, card, lin.ssm_alpha, Buf::Xb, Buf::GdnAlpha, None, nothing, s3);
    } else {
        let n = d.n_tok;
        let a = gemm_plan(card, lin.wqkv, Buf::Xb, Buf::Q, n)->Ok_0;
        let b = gemm_plan(card, lin.w_gate, Buf::Xb, Buf::GdnZ, n)->Ok_0;
        let c = gemm_plan(card, lin.ssm_beta, Buf::Xb, Buf::GdnBeta, n)->Ok_0;
        let e = gemm_plan(card, lin.ssm_alpha, Buf::Xb, Buf::GdnAlpha, n)->Ok_0;
        lemma_run_four(mats, a, b, c, e, s);
        let s1 = run(mats, a, s);
        let s2 = run(mats, b, s1);
        let s3 = run(mats, c, s2);
        law_gemm(mats, card, lin.wqkv, Buf::Xb, Buf::Q, n, s);
        law_gemm(mats, card, lin.w_gate, Buf::Xb, Buf::GdnZ, n, s1);
        law_gemm(mats, card, lin.ssm_beta, Buf::Xb, Buf::GdnBeta, n, s2);
        law_gemm(mats, card, lin.ssm_alpha, Buf::Xb, Buf::GdnAlpha, n, s3);
    }
}

/// Four plans, one after the other.
proof fn lemma_run_four(mats: Mats, a: Plan, b: Plan, c: Plan, e: Plan, s: Held)
    ensures
        run(mats, a + b + c + e, s) == run(mats, e, run(mats, c, run(mats, b, run(mats, a, s)))),
{
    law_runs_join(mats, a + b + c, e, s);
    law_runs_join(mats, a + b, c, s);
    law_runs_join(mats, a, b, s);
}

#[verifier::rlimit(40)]
proof fn lemma_gdn_fused(
    mats: Mats,
    card: Card,
    d: ChunkDims,
    lin: LinearAttnWeights,
    flags: Flags,
    s: Held,
)
    requires
        mats(lin.wqkv.id) == lin.wqkv,
        mats(lin.w_gate.id) == lin.w_gate,
        mats(lin.ssm_beta.id) == lin.ssm_beta,
        mats(lin.ssm_alpha.id) == lin.ssm_alpha,
        d.n_tok == 1,
        gdn_fused_plan(card, lin, flags) is Some,
    ensures
        four_made(d, lin, s, run(mats, gdn_fused_plan(card, lin, flags)->0, s)),
{
    let p = gdn_fused_plan(card, lin, flags)->0;
    if p.len() == 3 {
        let a = quantize_q8_plan(Buf::Xb, Buf::Q8X, Buf::Q8D, lin.wqkv.n_rows);
        let b = p.skip(1);
        assert(p =~= a + b);
        law_runs_join(mats, a, b, s);
        lemma_quantize(mats, Buf::Xb, lin.wqkv.n_rows, s);
        let t = run(mats, a, s);
        lemma_run_short(mats, b, t);
        assert(b.len() == 2);
        lemma_gdn_parts(mats, card, lin, flags, t);
        lemma_gdn_reduce(mats, card, lin, flags, step(mats, b[0], t), t[Buf::Xb]);
    } else {
        lemma_run_one(mats, p, s);
        lemma_gdn_whole(mats, card, lin, flags, s);
    }
}

/// The four products side by side, in parts.
spec fn four_parts(lin: LinearAttnWeights, x: Value) -> Value {
    Value::Parts(
        Box::new(
            Value::Both(
                Box::new(
                    Value::Both(
                        Box::new(times(lin.wqkv, x, 1)),
                        Box::new(times(lin.w_gate, x, 1)),
                    ),
                ),
                Box::new(
                    Value::Both(
                        Box::new(times(lin.ssm_beta, x, 1)),
                        Box::new(times(lin.ssm_alpha, x, 1)),
                    ),
                ),
            ),
        ),
        gemv_n_split(lin.wqkv.n_rows) as i32,
    )
}

#[verifier::rlimit(40)]
proof fn lemma_gdn_parts(
    mats: Mats,
    card: Card,
    lin: LinearAttnWeights,
    flags: Flags,
    t: Held,
)
    requires
        mats(lin.wqkv.id) == lin.wqkv,
        mats(lin.w_gate.id) == lin.w_gate,
        mats(lin.ssm_beta.id) == lin.ssm_beta,
        mats(lin.ssm_alpha.id) == lin.ssm_alpha,
        gdn_fused_plan(card, lin, flags) is Some,
        gdn_fused_plan(card, lin, flags)->0.len() == 3,
        t[Buf::Q8X] == Value::Codes(Box::new(t[Buf::Xb]), lin.wqkv.n_rows as i32),
        t[Buf::Q8D] == Value::Scales(Box::new(t[Buf::Xb]), lin.wqkv.n_rows as i32),
    ensures
        step(mats, gdn_fused_plan(card, lin, flags)->0[1], t) == t.insert(
            Buf::GemvPartial,
            four_parts(lin, t[Buf::Xb]),
        ),
{
}

#[verifier::rlimit(40)]
proof fn lemma_gdn_reduce(
    mats: Mats,
    card: Card,
    lin: LinearAttnWeights,
    flags: Flags,
    u: Held,
    x: Value,
)
    requires
        gdn_fused_plan(card, lin, flags) is Some,
        gdn_fused_plan(card, lin, flags)->0.len() == 3,
        u[Buf::GemvPartial] == four_parts(lin, x),
    ensures
        step(mats, gdn_fused_plan(card, lin, flags)->0[2], u) == u.insert(
            Buf::Q,
            times(lin.wqkv, x, 1),
        ).insert(Buf::GdnZ, times(lin.w_gate, x, 1)).insert(
            Buf::GdnBeta,
            times(lin.ssm_beta, x, 1),
        ).insert(Buf::GdnAlpha, times(lin.ssm_alpha, x, 1)),
{
}

#[verifier::rlimit(40)]
proof fn lemma_gdn_whole(
    mats: Mats,
    card: Card,
    lin: LinearAttnWeights,
    flags: Flags,
    s: Held,
)
    requires
        mats(lin.wqkv.id) == lin.wqkv,
        mats(lin.w_gate.id) == lin.w_gate,
        mats(lin.ssm_beta.id) == lin.ssm_beta,
        mats(lin.ssm_alpha.id) == lin.ssm_alpha,
        gdn_fused_plan(card, lin, flags) is Some,
        gdn_fused_plan(card, lin, flags)->0.len() == 1,
    ensures
        ({
            let x = s[Buf::Xb];
            step(mats, gdn_fused_plan(card, lin, flags)->0[0], s) == s.insert(
                Buf::Q,
                times(lin.wqkv, x, 1),
            ).insert(Buf::GdnZ, times(lin.w_gate, x, 1)).insert(
                Buf::GdnBeta,
                times(lin.ssm_beta, x, 1),
            ).insert(Buf::GdnAlpha, times(lin.ssm_alpha, x, 1))
        }),
{
}

/// What the recurrence of a linear layer is to give, from what its matrices gave.
pub open spec fn recalled(d: ChunkDims, lin: LinearAttnWeights, s: Held) -> (Value, Value, Value) {
    let n = d.n_tok as i32;
    let kernel = lin.conv_kernel as i32;
    let n_k = lin.n_k_heads as i32;
    let n_v = lin.n_v_heads as i32;
    let size = lin.state_size as i32;
    let conv = |kept: bool|
        Value::Convolved {
            of: Box::new(s[Buf::Q]),
            cache: Box::new(s[Buf::CacheConv]),
            kept,
            kernel,
            n_tok: n,
        };
    let run_of = |which: int|
        Value::Cut { of: Box::new(conv(false)), which, n_k, n_v, size, n_tok: n };
    let unit = |v: Value| Value::Unit { of: Box::new(v), heads: n_k, size, n_tok: n };
    let from = Recall {
        q: Box::new(unit(run_of(0))),
        k: Box::new(unit(run_of(1))),
        v: Box::new(run_of(2)),
        decay: Box::new(decay_of(s[Buf::GdnAlpha], n_v, n)),
        rate: Box::new(rate_of(s[Buf::GdnBeta], n_v, n)),
        n_k,
        n_v,
        size,
        n_tok: n,
    };
    let memory = Box::new(s[Buf::CacheSsm]);
    (
        conv(true),
        Value::Recalled { memory, from, after: true },
        Value::GatedNorm {
            of: Box::new(Value::Recalled { memory, from, after: false }),
            gate: Box::new(s[Buf::GdnZ]),
            heads: n_v,
            size,
            n_tok: n,
        },
    )
}

/// Every form of the recurrence gives the same: the memory is asked with the queries and
/// written with the keys and values of the convolved rows, and the answers are
/// normalised and gated.
pub proof fn law_recurrences_agree(
    mats: Mats,
    d: ChunkDims,
    lin: LinearAttnWeights,
    flags: Flags,
    x: Value,
    s: Held,
)
    requires
        mats(lin.wqkv.id) == lin.wqkv,
        lin.wqkv.n_cols == lin.conv_channels,
        s[Buf::Q] == times(lin.wqkv, x, d.n_tok as i32),
    ensures
        ({
            let r = run(mats, recurrence_plan(d, lin, flags), s);
            let (conv, memory, out) = recalled(d, lin, s);
            &&& r[Buf::CacheConv] == conv
            &&& r[Buf::CacheSsm] == memory
            &&& r[Buf::Xb] == out
            &&& r[Buf::X] == s[Buf::X]
        }),
{
    if square_state(lin, flags) && d.n_tok == 1 {
        lemma_recurrent_one(mats, d, lin, s);
    } else if square_state(lin, flags) {
        lemma_recurrent_many(mats, d, lin, x, s);
    } else if d.n_tok == 1 {
        lemma_plain_one(mats, d, lin, x, s);
    } else {
        lemma_plain_many(mats, d, lin, x, s);
    }
}

/// What a recurrence has done.
spec fn recurred(d: ChunkDims, lin: LinearAttnWeights, s: Held, r: Held) -> bool {
    let (conv, memory, out) = recalled(d, lin, s);
    &&& r[Buf::CacheConv] == conv
    &&& r[Buf::CacheSsm] == memory
    &&& r[Buf::Xb] == out
    &&& r[Buf::X] == s[Buf::X]
}

#[verifier::rlimit(40)]
proof fn lemma_recurrent_one(mats: Mats, d: ChunkDims, lin: LinearAttnWeights, s: Held)
    requires
        d.n_tok == 1,
    ensures
        recurred(d, lin, s, run(mats, recurrent_one_plan(lin), s)),
{
    let p = recurrent_one_plan(lin);
    lemma_run_short(mats, p, s);
    assert(p.len() == 2);
    if lin.state_size == 128 {
        assert(p[1].kernel == Kernel::GdnDeltaGatedOneD128);
    } else {
        assert(p[1].kernel == Kernel::GdnDeltaGatedOne);
    }
}

#[verifier::rlimit(60)]
proof fn lemma_recurrent_many(
    mats: Mats,
    d: ChunkDims,
    lin: LinearAttnWeights,
    x: Value,
    s: Held,
)
    requires
        mats(lin.wqkv.id) == lin.wqkv,
        lin.wqkv.n_cols == lin.conv_channels,
        s[Buf::Q] == times(lin.wqkv, x, d.n_tok as i32),
    ensures
        recurred(d, lin, s, run(mats, recurrent_many_plan(d, lin), s)),
{
    let p = recurrent_many_plan(d, lin);
    assert(p.len() == 4);
    lemma_run_each_four(mats, p, s);
}

#[verifier::rlimit(60)]
proof fn lemma_plain_one(mats: Mats, d: ChunkDims, lin: LinearAttnWeights, x: Value, s: Held)
    requires
        d.n_tok == 1,
        mats(lin.wqkv.id) == lin.wqkv,
        lin.wqkv.n_cols == lin.conv_channels,
        s[Buf::Q] == times(lin.wqkv, x, 1),
    ensures
        recurred(d, lin, s, run(mats, plain_one_plan(d, lin) + gated_norm_plan(d, lin), s)),
{
    let p = plain_one_plan(d, lin);
    assert(p.len() == 4);
    lemma_run_each_four(mats, p, s);
    law_runs_join(mats, p, gated_norm_plan(d, lin), s);
    lemma_run_one(mats, gated_norm_plan(d, lin), run(mats, p, s));
}

#[verifier::rlimit(60)]
proof fn lemma_plain_many(mats: Mats, d: ChunkDims, lin: LinearAttnWeights, x: Value, s: Held)
    requires
        mats(lin.wqkv.id) == lin.wqkv,
        lin.wqkv.n_cols == lin.conv_channels,
        s[Buf::Q] == times(lin.wqkv, x, d.n_tok as i32),
    ensures
        recurred(d, lin, s, run(mats, plain_many_plan(d, lin) + gated_norm_plan(d, lin), s)),
{
    let p = plain_many_plan(d, lin);
    assert(p.len() == 6);
    let a = p.take(4);
    let b = p.skip(4);
    assert(p =~= a + b);
    lemma_run_each_four(mats, a, s);
    law_runs_join(mats, a, b, s);
    lemma_run_short(mats, b, run(mats, a, s));
    law_runs_join(mats, p, gated_norm_plan(d, lin), s);
    lemma_run_one(mats, gated_norm_plan(d, lin), run(mats, p, s));
}

/// A plan of four launches.
proof fn lemma_run_each_four(mats: Mats, p: Plan, s: Held)
    requires
        p.len() == 4,
    ensures
        run(mats, p, s) == step(
            mats,
            p[3],
            step(mats, p[2], step(mats, p[1], step(mats, p[0], s))),
        ),
{
    let a = p.take(2);
    let b = p.skip(2);
    assert(p =~= a + b);
    law_runs_join(mats, a, b, s);
    lemma_run_short(mats, a, s);
    lemma_run_short(mats, b, run(mats, a, s));
}

/// A layer with linear attention adds to the residual stream the product of its output
/// matrix with what its memory gives back, and nothing where such layers are left out.
#[verifier::rlimit(40)]
pub proof fn law_linear_attention_block(
    mats: Mats,
    card: Card,
    d: ChunkDims,
    lin: LinearAttnWeights,
    flags: Flags,
    s: Held,
)
    requires
        mats(lin.wqkv.id) == lin.wqkv,
        mats(lin.w_gate.id) == lin.w_gate,
        mats(lin.ssm_beta.id) == lin.ssm_beta,
        mats(lin.ssm_alpha.id) == lin.ssm_alpha,
        mats(lin.ssm_out.id) == lin.ssm_out,
        lin.wqkv.n_cols == lin.conv_channels,
        flags.skip_linear || linear_ok(card, d.n_tok, lin, flags),
        attn_block_linear_plan(card, d, lin, flags) is Ok,
    ensures
        ({
            let r = run(mats, attn_block_linear_plan(card, d, lin, flags)->Ok_0, s);
            let n = d.n_tok as i32;
            let made = s.insert(Buf::Q, times(lin.wqkv, s[Buf::Xb], n)).insert(
                Buf::GdnZ,
                times(lin.w_gate, s[Buf::Xb], n),
            ).insert(Buf::GdnBeta, times(lin.ssm_beta, s[Buf::Xb], n)).insert(
                Buf::GdnAlpha,
                times(lin.ssm_alpha, s[Buf::Xb], n),
            );
            let (conv, memory, out) = recalled(d, lin, made);
            if flags.skip_linear {
                r == s
            } else {
                &&& r[Buf::CacheConv] == conv
                &&& r[Buf::CacheSsm] == memory
                &&& r[Buf::X] == Value::Plus(
                    Box::new(s[Buf::X]),
                    Box::new(times(lin.ssm_out, out, n)),
                )
            }
        }),
{
    if !flags.skip_linear {
        let a = gdn_projections_plan(card, d, lin, flags)->Ok_0;
        let b = recurrence_plan(d, lin, flags);
        let c = block_output_plan(card, d, lin.ssm_out, Buf::Xb)->Ok_0;
        lemma_linear_parts(card, d, lin, flags);
        law_runs_join(mats, a + b, c, s);
        law_runs_join(mats, a, b, s);
        law_linear_projections(mats, card, d, lin, flags, s);
        let t = run(mats, a, s);
        law_recurrences_agree(mats, d, lin, flags, s[Buf::Xb], t);
        law_block_output(mats, card, d, lin.ssm_out, Buf::Xb, run(mats, b, t));
    }
}

/// The parts of a layer with linear attention.
proof fn lemma_linear_parts(card: Card, d: ChunkDims, lin: LinearAttnWeights, flags: Flags)
    requires
        !flags.skip_linear,
        attn_block_linear_plan(card, d, lin, flags) is Ok,
    ensures
        gdn_projections_plan(card, d, lin, flags) is Ok,
        block_output_plan(card, d, lin.ssm_out, Buf::Xb) is Ok,
        attn_block_linear_plan(card, d, lin, flags)->Ok_0 == gdn_projections_plan(
            card,
            d,
            lin,
            flags,
        )->Ok_0 + recurrence_plan(d, lin, flags) + block_output_plan(
            card,
            d,
            lin.ssm_out,
            Buf::Xb,
        )->Ok_0,
{
}

/// The rows of the embedding are those of the tokens: of the one that is given, of the
/// one on the card, or of the chunk on the card.
#[verifier::rlimit(40)]
pub proof fn law_embedding(mats: Mats, w: GpuMat, tokens: Seq<i32>, s: Held)
    requires
        mats(w.id) == w,
        w.plain(),
        1 <= tokens.len() <= usize::MAX,
    ensures
        run(mats, embed_batch_plan(w, tokens), s) == s.insert(
            Buf::X,
            Value::Embedded {
                mat: w.id,
                token: if tokens.len() == 1 {
                    Arg::Int(tokens[0])
                } else {
                    Arg::Buf(Buf::TokBuf)
                },
                n_tok: tokens.len() as i32,
            },
        ),
        run(mats, embed_one_device_plan(w), s) == s.insert(
            Buf::X,
            Value::Embedded { mat: w.id, token: Arg::Buf(Buf::DToken), n_tok: 1 },
        ),
{
    lemma_run_one(mats, embed_batch_plan(w, tokens), s);
    lemma_run_one(mats, embed_one_device_plan(w), s);
}

/// The scores of the last token: the product of the output matrix, or of the embedding
/// where there is none, with the normalised last row; the score of the special token
/// comes from its own matrix.
#[verifier::rlimit(60)]
pub proof fn law_last_scores(mats: Mats, card: Card, d: ChunkDims, head: Head, s: Held)
    requires
        head.ok(card),
        head.output matches Some(w) ==> mats(w.id) == w,
        mats(head.token_embd.id) == head.token_embd,
        head.special matches Some(w) ==> mats(w.id) == w,
    ensures
        ({
            let r = run(mats, logits_from_last_plan(card, d, head).scores, s);
            let x = Value::Normed {
                weight: VecId::OutputNorm,
                of: Box::new(
                    Value::LastRow {
                        of: Box::new(s[Buf::X]),
                        n_tok: d.n_tok as i32,
                        width: d.n_embd as i32,
                    },
                ),
                width: d.n_embd as i32,
                n_tok: 1,
            };
            &&& head.output matches Some(w) ==> r[Buf::Logits] == times(w, x, 1)
            &&& head.output is None ==> r[Buf::Logits] == times(head.token_embd, x, 1)
            &&& head.special matches Some(w) ==> r[Buf::SpecialLogit] == times(w, x, 1)
        }),
        ({
            let pick = logits_from_last_plan(card, d, head).pick;
            let n = match head.output {
                Some(w) => w.n_cols,
                None => head.token_embd.n_cols,
            };
            let all = if head.special is Some {
                n + 1
            } else {
                n as int
            };
            n < MAX_SIDE ==> run(mats, pick, s) == s.insert(
                Buf::ArgmaxBuf,
                Value::Largest { of: Box::new(s[Buf::Logits]), n: all as i32, n_tok: 1 },
            )
        }),
{
    let a = last_row_plan(d);
    let t = run(mats, a, s);
    lemma_run_short(mats, a, s);
    assert(a.len() == 2);
    let w = head.matrix();
    let b = project_plan(card, w, Buf::Xb1, Buf::Logits, GemvResidual::Nothing);
    law_runs_join(mats, a, b, s);
    law_project(mats, card, w, Buf::Xb1, Buf::Logits, GemvResidual::Nothing, t);
    if let Some(v) = head.special {
        let c = project_plan(card, v, Buf::Xb1, Buf::SpecialLogit, GemvResidual::Nothing);
        law_runs_join(mats, a + b, c, s);
        let u = run(mats, b, t);
        law_project(mats, card, v, Buf::Xb1, Buf::SpecialLogit, GemvResidual::Nothing, u);
    }
    lemma_run_one(mats, logits_from_last_plan(card, d, head).pick, s);
}

/// The scores of every row of a chunk, and the place of the largest in each.
#[verifier::rlimit(40)]
pub proof fn law_row_scores(
    mats: Mats,
    card: Card,
    head: Head,
    n_embd: usize,
    n_tok: usize,
    s: Held,
)
    requires
        gemm_ok(card, head.matrix(), n_tok),
        mats(head.matrix().id) == head.matrix(),
        rows_scores_plan(card, head, n_embd, n_tok) is Ok,
    ensures
        ({
            let r = run(mats, rows_scores_plan(card, head, n_embd, n_tok)->Ok_0, s);
            let w = match head.output {
                Some(w) => w,
                None => head.token_embd,
            };
            let x = Value::Normed {
                weight: VecId::OutputNorm,
                of: Box::new(s[Buf::X]),
                width: n_embd as i32,
                n_tok: n_tok as i32,
            };
            r[Buf::ArgmaxBatch] == Value::Largest {
                of: Box::new(times(w, x, n_tok as i32)),
                n: w.n_cols as i32,
                n_tok: n_tok as i32,
            }
        }),
{
    let p = rows_scores_plan(card, head, n_embd, n_tok)->Ok_0;
    let a = rms_norm_plan(Buf::X, VecId::OutputNorm, Buf::Xb, n_embd, n_tok);
    let b = gemm_plan(card, head.matrix(), Buf::Xb, Buf::LogitsBatch, n_tok)->Ok_0;
    let c = p.skip((a + b).len() as int);
    assert(p =~= a + b + c);
    law_runs_join(mats, a + b, c, s);
    law_runs_join(mats, a, b, s);
    lemma_run_one(mats, a, s);
    law_gemm(mats, card, head.matrix(), Buf::Xb, Buf::LogitsBatch, n_tok, run(mats, a, s));
    lemma_run_one(mats, c, run(mats, a + b, s));
}

/// What the expert in one slot is to add: the product of its down matrix with its gated
/// product of `x`, times its weight.
pub open spec fn expert_adds(
    d: ChunkDims,
    m: MoeFfnWeights,
    x: Value,
    picks: Value,
    weights: Value,
    slot: usize,
) -> Value {
    let first = |w: GpuMat|
        Value::Expert {
            mat: w.id,
            of: Box::new(x),
            picks: Box::new(picks),
            slot: slot as i32,
            rows: d.n_embd as i32,
            cols: m.expert_ff as i32,
        };
    Value::Scaled {
        of: Box::new(
            Value::Expert {
                mat: m.down_all.id,
                of: Box::new(
                    Value::SiluTimes {
                        gate: Box::new(first(m.gate_all)),
                        up: Box::new(first(m.up_all)),
                        n: m.expert_ff as i32,
                    },
                ),
                picks: Box::new(picks),
                slot: slot as i32,
                rows: m.expert_ff as i32,
                cols: d.n_embd as i32,
            },
        ),
        weights: Box::new(weights),
        slot: slot as i32,
    }
}

/// The matrices of the experts are stored alike, in a way that there are kernels for.
pub open spec fn experts_alike(mats: Mats, m: MoeFfnWeights) -> bool {
    let t = m.gate_all.wtype;
    &&& mats(m.gate_all.id) == m.gate_all
    &&& mats(m.up_all.id) == m.up_all
    &&& mats(m.down_all.id) == m.down_all
    &&& m.up_all.wtype == t && m.down_all.wtype == t
    &&& m.up_all.col_bytes == m.gate_all.col_bytes
    &&& t == WType::Q4_0 || t == WType::Q4_0_BM || t == WType::F16 || t == WType::Q8_0
}

/// Whether the kernels of a slot leave the numbers of eight bits of the stream alone.
pub open spec fn keeps_codes(m: MoeFfnWeights, flags: Flags) -> bool {
    let t = m.gate_all.wtype;
    ||| t == WType::Q4_0_BM
    ||| t == WType::F16
    ||| t == WType::Q4_0 && (flags.moe_4w || flags.moe_2w)
    ||| t == WType::Q4_0 && flags.moe_gate_q8 && !flags.moe_classic && m.expert_ff >= 32
        && m.expert_ff % 32 == 0
}

/// The stream as the kernels of the experts read it.
pub open spec fn stream_ready(d: ChunkDims, m: MoeFfnWeights, x: Value, s: Held) -> bool {
    if m.gate_all.wtype == WType::F16 {
        s[Buf::Xb] == x
    } else {
        &&& s[Buf::Q8X] == Value::Codes(Box::new(x), d.n_embd as i32)
        &&& s[Buf::Q8D] == Value::Scales(Box::new(x), d.n_embd as i32)
    }
}

/// Whatever kernels run for it, the expert in a slot adds its weighted product, with its
/// own three matrices; the picks and the weights stay.
#[verifier::rlimit(60)]
pub proof fn law_expert_slot(
    mats: Mats,
    d: ChunkDims,
    m: MoeFfnWeights,
    flags: Flags,
    slot: usize,
    x: Value,
    s: Held,
)
    requires
        experts_alike(mats, m),
        stream_ready(d, m, x, s),
    ensures
        ({
            let r = run(mats, expert_slot_plan(d, m, flags, slot), s);
            &&& r[Buf::X] == Value::Plus(
                Box::new(s[Buf::X]),
                Box::new(expert_adds(d, m, x, s[Buf::MoeIdx], s[Buf::MoeW], slot)),
            )
            &&& r[Buf::MoeIdx] == s[Buf::MoeIdx]
            &&& r[Buf::MoeW] == s[Buf::MoeW]
            &&& keeps_codes(m, flags) ==> stream_ready(d, m, x, r)
        }),
{
    let p = expert_slot_plan(d, m, flags, slot);
    if p.len() == 3 {
        let a = p.take(2);
        let b = p.skip(2);
        assert(p =~= a + b);
        law_runs_join(mats, a, b, s);
        lemma_run_short(mats, a, s);
        lemma_run_one(mats, b, run(mats, a, s));
    } else {
        lemma_run_short(mats, p, s);
    }
}

/// A value with what the first `n` slots add to it.
pub open spec fn experts_add(
    d: ChunkDims,
    m: MoeFfnWeights,
    base: Value,
    x: Value,
    picks: Value,
    weights: Value,
    n: nat,
) -> Value
    decreases n,
{
    if n == 0 {
        base
    } else {
        Value::Plus(
            Box::new(experts_add(d, m, base, x, picks, weights, (n - 1) as nat)),
            Box::new(expert_adds(d, m, x, picks, weights, (n - 1) as usize)),
        )
    }
}

/// The slots add up, one expert after the other.
#[verifier::rlimit(40)]
pub proof fn law_experts_add_up(
    mats: Mats,
    d: ChunkDims,
    m: MoeFfnWeights,
    flags: Flags,
    n: nat,
    x: Value,
    s: Held,
)
    requires
        experts_alike(mats, m),
        stream_ready(d, m, x, s),
        keeps_codes(m, flags) || n <= 1,
        n <= usize::MAX,
    ensures
        ({
            let r = run(mats, slots_plan(d, m, flags, n), s);
            &&& r[Buf::X] == experts_add(
                d,
                m,
                s[Buf::X],
                x,
                s[Buf::MoeIdx],
                s[Buf::MoeW],
                n,
            )
            &&& r[Buf::MoeIdx] == s[Buf::MoeIdx]
            &&& r[Buf::MoeW] == s[Buf::MoeW]
            &&& keeps_codes(m, flags) || n == 0 ==> stream_ready(d, m, x, r)
        }),
    decreases n,
{
    if n > 0 {
        let k = (n - 1) as nat;
        law_experts_add_up(mats, d, m, flags, k, x, s);
        let a = slots_plan(d, m, flags, k);
        let b = expert_slot_plan(d, m, flags, k as usize);
        assert(slots_plan(d, m, flags, n) == a + b);
        law_runs_join(mats, a, b, s);
        law_expert_slot(mats, d, m, flags, k as usize, x, run(mats, a, s));
    }
}

/// The stream is normalised and its experts are picked, before any of them runs.
#[verifier::rlimit(40)]
proof fn lemma_route(mats: Mats, d: ChunkDims, m: MoeFfnWeights, n: usize, s: Held)
    ensures
        ({
            let r = run(mats, moe_route_plan(d, m, n), s);
            let x = Value::Normed {
                weight: VecId::FfnNorm,
                of: Box::new(s[Buf::X]),
                width: d.n_embd as i32,
                n_tok: 1,
            };
            &&& stream_ready(d, m, x, r)
            &&& r[Buf::MoeIdx] == picked(x, false, m.n_experts as i32, d.n_embd as i32, n as i32)
            &&& r[Buf::MoeW] == picked(x, true, m.n_experts as i32, d.n_embd as i32, n as i32)
            &&& r[Buf::X] == s[Buf::X]
        }),
{
    lemma_run_short(mats, moe_route_plan(d, m, n), s);
}

/// A block of experts adds to the residual stream the weighted products of the experts
/// that the router picks for the normalised stream: as many as are asked for, at least
/// one and at most all, or those of the model.
#[verifier::rlimit(60)]
pub proof fn law_experts_block(
    mats: Mats,
    d: ChunkDims,
    m: MoeFfnWeights,
    flags: Flags,
    n: usize,
    s: Held,
)
    requires
        experts_alike(mats, m),
        m.n_experts >= 1,
        match flags.moe_topk {
            Some(Some(k)) => {
                &&& 1 <= k <= m.n_experts ==> n == k
                &&& k < 1 ==> n == 1
                &&& k > m.n_experts ==> n == m.n_experts
            },
            Some(None) => n == m.top_k,
            None => n == (if flags.speed {
                1
            } else {
                m.top_k
            }),
        },
        keeps_codes(m, flags) || n <= 1,
    ensures
        ({
            let r = run(mats, ffn_block_moe_one_plan(d, m, flags), s);
            let x = Value::Normed {
                weight: VecId::FfnNorm,
                of: Box::new(s[Buf::X]),
                width: d.n_embd as i32,
                n_tok: 1,
            };
            let pick = |weights: bool|
                picked(x, weights, m.n_experts as i32, d.n_embd as i32, n as i32);
            r[Buf::X] == experts_add(d, m, s[Buf::X], x, pick(false), pick(true), n as nat)
        }),
{
    let x = Value::Normed {
        weight: VecId::FfnNorm,
        of: Box::new(s[Buf::X]),
        width: d.n_embd as i32,
        n_tok: 1,
    };
    let a = moe_route_plan(d, m, n);
    let b = slots_plan(d, m, flags, n as nat);
    assert(experts_used(m, flags) == n);
    assert(ffn_block_moe_one_plan(d, m, flags) == a + b);
    lemma_route(mats, d, m, n, s);
    law_runs_join(mats, a, b, s);
    law_experts_add_up(mats, d, m, flags, n as nat, x, run(mats, a, s));
}

/// A layer is its attention block and then its feed-forward block; nothing of it is left
/// out but where that is asked for.
pub proof fn law_layer_parts(
    c: LayerContext,
    d: ChunkDims,
    layer: GpuLayer,
    li: usize,
    skip: Option<Seq<char>>,
)
    ensures
        c.flags.identity ==> {
            let r = run_layer_plan(c, d, layer, li, skip);
            r is Ok && r->Ok_0.attn.len() == 0 && r->Ok_0.ffn is None
        },
        !c.flags.identity && run_layer_plan(c, d, layer, li, skip) is Ok ==> {
            let r = run_layer_plan(c, d, layer, li, skip)->Ok_0;
            let attn = attn_block_plan(c.card, d, layer.attn, c.rope, li, c.flags, c.decode);
            &&& attn is Ok && r.attn == attn->Ok_0
            &&& d.n_tok != 1 || skip is None ==> r.ffn is Some
            &&& r.ffn is Some ==> match layer.ffn {
                LayerFfn::Dense { gate, up, down } => {
                    let dense = ffn_block_dense_plan(c.card, d, gate, up, down);
                    dense is Ok && r.ffn->0.plan == dense->Ok_0 && !r.ffn->0.each_token
                },
                LayerFfn::Moe(m) => {
                    &&& r.ffn->0.plan == ffn_block_moe_one_plan(d, m, c.flags)
                    &&& r.ffn->0.each_token == (d.n_tok != 1)
                },
            }
        },
{
    reveal(run_layer_plan);
}

} // verus!
