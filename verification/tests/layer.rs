use taraference::cuda::decode::DecodeBackend;
use taraference::cuda::device::{GemvTuning, Kernel};
use taraference::cuda::launch::{Arg, Buf, Launch, MatId, Part, Shape, VecId};
use taraference::cuda::layer::{
    attn_block, attn_block_full, attn_block_linear, experts_used, ffn_block, ffn_block_dense,
    ffn_block_moe_one, has_layer, launch_attn, logits_from_last, run_layer, ChunkDims, Flags,
    FullAttnWeights, GpuLayer, Head, LayerAttn, LayerContext, LayerFfn, LinearAttnWeights, MoeFfnWeights,
    RopeConfig,
};
use taraference::cuda::matmul::{Card, GpuMat, PlanError, WType};

fn card() -> Card {
    Card {
        tuning: GemvTuning::from_cc(8, None),
        partial_stride: 32768,
    }
}

fn mat(id: MatId, wtype: WType, n_rows: usize, n_cols: usize) -> GpuMat {
    let col_bytes = match wtype {
        WType::Q4K => n_rows / 256 * 144,
        WType::Q6K => n_rows / 256 * 210,
        WType::Q4_0 | WType::Q4_0_BM => n_rows / 32 * 18,
        WType::F16 => n_rows * 2,
        _ => n_rows / 32 * 34,
    };
    GpuMat {
        id,
        has_decode: false,
        has_compact: false,
        n_rows,
        n_cols,
        col_bytes,
        decode_col_bytes: col_bytes,
        compact_col_bytes: 0,
        wtype,
    }
}

fn no_flags() -> Flags {
    Flags {
        identity: false,
        skip_linear: false,
        no_out_gate: false,
        q_gate_half: false,
        no_rope: false,
        full_rope: false,
        gdn_legacy: false,
        gdn_no_4way: false,
        moe_4w: false,
        moe_2w: false,
        moe_gate_q8: false,
        moe_classic: false,
        moe_topk: None,
        speed: false,
        gemv_warps: None,
    }
}

fn dims(n_tok: usize) -> ChunkDims {
    ChunkDims {
        n_tok,
        n_embd: 2048,
        n_ff: 11008,
        n_head: 16,
        n_kv_heads: 2,
        head_dim: 128,
        pos0: 10,
        use_device_pos: false,
    }
}

fn backend(name: &str) -> DecodeBackend {
    DecodeBackend::parse_name(name).unwrap()
}

fn kernels(plan: &[Launch]) -> Vec<Kernel> {
    plan.iter().map(|l| l.kernel).collect()
}

fn shape(grid_x: u32, grid_y: u32, block: u32, smem: u32) -> Shape {
    Shape { grid_x, grid_y, block, smem }
}

fn num(n: i32) -> Arg {
    Arg::Int(n)
}

fn buf(b: Buf) -> Arg {
    Arg::Buf(b)
}

fn data(id: MatId) -> Arg {
    Arg::Mat(id, Part::Data)
}

fn full() -> FullAttnWeights {
    FullAttnWeights {
        wq: mat(MatId::Wq, WType::Q4K, 2048, 2048),
        bq: true,
        wk: mat(MatId::Wk, WType::Q4K, 2048, 256),
        bk: true,
        wv: mat(MatId::Wv, WType::Q6K, 2048, 256),
        bv: true,
        wo: mat(MatId::Wo, WType::Q4K, 2048, 2048),
        attn_q_norm: false,
        attn_k_norm: false,
        fused_q_gate: false,
    }
}

fn rope() -> RopeConfig {
    RopeConfig {
        no_rope_layer_interval: 0,
        rope_dim: 128,
    }
}

#[test]
fn one_token_attends() {
    let d = dims(1);
    let plan = attn_block_full(card(), d, full(), rope(), 0, no_flags(), backend("fastv2")).unwrap();
    assert_eq!(
        kernels(&plan),
        vec![
            Kernel::QuantizeQ8,
            Kernel::GemvQ4Pair,
            Kernel::GemvQ6,
            Kernel::Rope,
            Kernel::Rope,
            Kernel::CopyKv,
            Kernel::CopyKv,
            Kernel::AttnFastV2,
            Kernel::QuantizeQ8,
            Kernel::GemvQ4Global,
        ]
    );
    assert_eq!(plan[1].args[10..], [num(1), Arg::Vector(VecId::Bq), Arg::Vector(VecId::Bk)]);
    assert_eq!(plan[2].args[2], buf(Buf::VBuf));
    assert_eq!(plan[2].args[7], Arg::Vector(VecId::Bv));
    assert_eq!(
        plan[3].args,
        vec![buf(Buf::Q), num(16), num(128), num(10), num(1), Arg::Theta]
    );
    assert_eq!(plan[3].shape, shape(16, 1, 32, 0));
    assert_eq!(
        plan[4].args,
        vec![buf(Buf::KBuf), num(2), num(128), num(10), num(1), Arg::Theta]
    );
    assert_eq!(plan[4].shape, shape(2, 1, 32, 0));
    assert_eq!(
        plan[5].args,
        vec![buf(Buf::KBuf), buf(Buf::CacheK), num(10), num(1), num(256)]
    );
    assert_eq!(plan[5].shape, shape(1, 1, 1024, 0));
    assert_eq!(plan[6].args[..2], [buf(Buf::VBuf), buf(Buf::CacheV)]);
    assert_eq!(
        plan[7].args,
        vec![
            buf(Buf::Q),
            buf(Buf::CacheK),
            buf(Buf::CacheV),
            buf(Buf::Xb),
            num(16),
            num(2),
            num(128),
            num(10),
            num(1),
            Arg::Scale,
        ]
    );
    assert_eq!(plan[7].shape, shape(16, 1, 128, 768));
    assert_eq!(plan[9].args[3], buf(Buf::X));
    assert_eq!(plan[9].args[9], num(2));
}

#[test]
fn a_position_on_the_card_takes_its_own_kernels() {
    let d = ChunkDims { use_device_pos: true, ..dims(1) };
    let plan = attn_block_full(card(), d, full(), rope(), 0, no_flags(), backend("fastv2")).unwrap();
    assert_eq!(
        kernels(&plan)[3..8],
        [
            Kernel::RopeD,
            Kernel::RopeD,
            Kernel::CopyKvD,
            Kernel::CopyKvD,
            Kernel::AttnFastV2D
        ]
    );
    assert_eq!(plan[3].args[3], buf(Buf::DPos0));
    assert_eq!(plan[5].args[2], buf(Buf::DPos0));
    assert_eq!(plan[7].args[7], buf(Buf::DPos0));
}

#[test]
fn many_tokens_attend() {
    let d = dims(3);
    let plan = attn_block_full(card(), d, full(), rope(), 0, no_flags(), backend("flash")).unwrap();
    assert_eq!(
        kernels(&plan),
        vec![
            Kernel::GemmQ4,
            Kernel::AddBias,
            Kernel::GemmQ4,
            Kernel::AddBias,
            Kernel::GemmQ6,
            Kernel::AddBias,
            Kernel::Rope,
            Kernel::Rope,
            Kernel::CopyKv,
            Kernel::CopyKv,
            Kernel::AttnFastV2,
            Kernel::GemmQ4,
            Kernel::Add,
        ]
    );
    assert_eq!(
        plan[1].args,
        vec![buf(Buf::Q), Arg::Vector(VecId::Bq), num(2048), num(3)]
    );
    assert_eq!(plan[1].shape, shape(6, 1, 1024, 0));
    assert_eq!(
        plan[5].args,
        vec![buf(Buf::VBuf), Arg::Vector(VecId::Bv), num(256), num(3)]
    );
    assert_eq!(plan[6].shape, shape(16, 3, 32, 0));
    assert_eq!(plan[10].shape, shape(16, 3, 128, 768));
    assert_eq!(plan[11].args[2], buf(Buf::Xb2));
    assert_eq!(
        plan[12].args,
        vec![buf(Buf::X), buf(Buf::Xb2), num(6144)]
    );
    assert_eq!(plan[12].shape, shape(6, 1, 1024, 0));
}

#[test]
fn a_gate_is_split_off_and_multiplied() {
    let d = ChunkDims {
        n_head: 8,
        head_dim: 256,
        ..dims(1)
    };
    let weights = FullAttnWeights {
        wq: mat(MatId::Wq, WType::Q8_0, 2048, 4096),
        wk: mat(MatId::Wk, WType::Q8_0, 2048, 512),
        wv: mat(MatId::Wv, WType::Q8_0, 2048, 512),
        bq: false,
        bk: false,
        bv: false,
        attn_q_norm: true,
        attn_k_norm: true,
        fused_q_gate: true,
        ..full()
    };
    let part = RopeConfig { no_rope_layer_interval: 4, rope_dim: 64 };
    let flags = Flags { q_gate_half: true, ..no_flags() };
    let plan = attn_block_full(card(), d, weights, part, 0, flags, backend("fastv2")).unwrap();
    assert_eq!(
        kernels(&plan),
        vec![
            Kernel::GemvQ8Qkv,
            Kernel::SplitQGate,
            Kernel::CopyF32,
            Kernel::QkNormPartialRope,
            Kernel::QkNormPartialRope,
            Kernel::CopyKv,
            Kernel::CopyKv,
            Kernel::AttnFastV2,
            Kernel::MulSigmoid,
            Kernel::QuantizeQ8,
            Kernel::GemvQ4Global,
        ]
    );
    assert_eq!(
        plan[1].args,
        vec![
            buf(Buf::Q),
            buf(Buf::GdnOut),
            buf(Buf::GateBuf),
            num(8),
            num(256),
            num(1),
            num(1),
        ]
    );
    assert_eq!(plan[1].shape, shape(8, 1, 128, 0));
    assert_eq!(plan[2].args, vec![buf(Buf::GdnOut), buf(Buf::Q), num(2048)]);
    assert_eq!(
        plan[3].args,
        vec![
            buf(Buf::Q),
            Arg::Vector(VecId::QNorm),
            num(8),
            num(256),
            num(64),
            num(10),
            num(1),
            Arg::Theta,
            Arg::Eps,
        ]
    );
    assert_eq!(plan[4].args[..3], [buf(Buf::KBuf), Arg::Vector(VecId::KNorm), num(2)]);
    assert_eq!(plan[8].args, vec![buf(Buf::Xb), buf(Buf::GateBuf), num(2048)]);
    let fourth = attn_block_full(card(), d, weights, part, 3, flags, backend("fastv2")).unwrap();
    assert_eq!(fourth[3].args[4], num(0));
    let whole = Flags { full_rope: true, no_out_gate: true, ..no_flags() };
    let plan = attn_block_full(card(), d, weights, part, 0, whole, backend("fastv2")).unwrap();
    assert_eq!(plan[1].args[6], num(0));
    assert_eq!(plan[3].kernel, Kernel::QkNormRope);
    assert!(!kernels(&plan).contains(&Kernel::MulSigmoid));
    let none = FullAttnWeights { attn_k_norm: false, ..weights };
    let off = Flags { no_rope: true, ..no_flags() };
    let plan = attn_block_full(card(), d, none, part, 0, off, backend("fastv2")).unwrap();
    assert_eq!(plan[3].kernel, Kernel::CopyKv);
}

#[test]
fn each_backend_launches_its_kernels() {
    let one = dims(1);
    let flash = launch_attn(one, backend("flash")).unwrap();
    assert_eq!(
        kernels(&flash),
        vec![Kernel::AttnFlashPartial, Kernel::AttnFlashReduce]
    );
    assert_eq!(
        flash[0].args,
        vec![
            buf(Buf::Q),
            buf(Buf::CacheK),
            buf(Buf::CacheV),
            buf(Buf::FlashPartial),
            num(16),
            num(2),
            num(128),
            num(10),
            num(1),
            num(8),
            Arg::Scale,
        ]
    );
    assert_eq!(flash[0].shape, shape(16, 8, 128, 768));
    assert_eq!(
        flash[1].args,
        vec![
            buf(Buf::FlashPartial),
            buf(Buf::Xb),
            num(16),
            num(128),
            num(8),
            num(1),
        ]
    );
    assert_eq!(flash[1].shape, shape(16, 1, 128, 0));
    let fast = launch_attn(one, backend("fast")).unwrap();
    assert_eq!(fast[0].kernel, Kernel::AttnFastV1);
    assert_eq!(fast[0].shape, shape(16, 1, 128, 556));
    let basic = launch_attn(dims(3), backend("basic")).unwrap();
    assert_eq!(basic[0].kernel, Kernel::AttnBasicF32);
    assert_eq!(basic[0].shape, shape(16, 3, 128, 52));
    let on_card = ChunkDims { use_device_pos: true, ..one };
    assert!(matches!(
        launch_attn(on_card, backend("basic")),
        Err(PlanError::NoDeviceKernel)
    ));
    let flash = launch_attn(on_card, backend("flash")).unwrap();
    assert_eq!(flash[0].kernel, Kernel::AttnFlashPartialD);
    assert_eq!(flash[0].args[7], buf(Buf::DPos0));
    let online = launch_attn(one, backend("online")).unwrap();
    assert_eq!(online[0].kernel, Kernel::AttnOnlineF32);
    assert_eq!((online[0].shape.grid_x, online[0].shape.block), (16, 128));
    let online = launch_attn(dims(2), backend("online")).unwrap();
    assert_eq!(online[0].kernel, Kernel::AttnFastV2);
}

#[test]
fn four_bits_of_a_pack_are_normalised_and_quantized_at_once() {
    let weights = FullAttnWeights {
        wq: mat(MatId::Wq, WType::Q4_0, 640, 640),
        wk: mat(MatId::Wk, WType::Q4_0, 640, 320),
        wv: mat(MatId::Wv, WType::Q4_0, 640, 320),
        wo: mat(MatId::Wo, WType::Q4_0, 640, 640),
        bq: false,
        bk: false,
        bv: false,
        ..full()
    };
    let d = ChunkDims { n_embd: 640, n_head: 10, n_kv_heads: 5, head_dim: 64, ..dims(1) };
    let attn = LayerAttn::Full(weights);
    let plan = attn_block(card(), d, attn, rope(), 0, no_flags(), backend("fastv2")).unwrap();
    assert_eq!(kernels(&plan)[..2], [Kernel::AttnPrep, Kernel::GemvQ40Qkv2w]);
    assert_eq!(
        plan[0].args,
        vec![
            buf(Buf::X),
            Arg::Vector(VecId::AttnNorm),
            buf(Buf::Xb),
            buf(Buf::Q8X),
            buf(Buf::Q8D),
            num(640),
            Arg::Eps,
        ]
    );
    assert_eq!(plan[0].shape, shape(1, 1, 256, 0));
    let other = LayerAttn::Full(full());
    let plan = attn_block(card(), dims(3), other, rope(), 0, no_flags(), backend("fastv2")).unwrap();
    assert_eq!(
        plan[0].args,
        vec![
            buf(Buf::X),
            Arg::Vector(VecId::AttnNorm),
            buf(Buf::Xb),
            num(2048),
            num(3),
            Arg::Eps,
        ]
    );
    assert_eq!(plan[0].kernel, Kernel::RmsNorm);
    assert_eq!(plan[0].shape, shape(3, 1, 256, 0));
}

fn linear(state_size: usize) -> LinearAttnWeights {
    LinearAttnWeights {
        wqkv: mat(MatId::Wqkv, WType::Q8_0, 1024, 6144),
        w_gate: mat(MatId::WGate, WType::Q8_0, 1024, 2048),
        conv_kernel: 4,
        conv_channels: 6144,
        ssm_alpha: mat(MatId::SsmAlpha, WType::Q8_0, 1024, 16),
        ssm_beta: mat(MatId::SsmBeta, WType::Q8_0, 1024, 16),
        ssm_out: mat(MatId::SsmOut, WType::Q8_0, 2048, 1024),
        n_k_heads: 8,
        n_v_heads: 16,
        state_size,
    }
}

fn linear_dims(n_tok: usize) -> ChunkDims {
    ChunkDims { n_embd: 1024, ..dims(n_tok) }
}

#[test]
fn a_linear_layer_takes_two_launches_for_one_token() {
    let plan = attn_block_linear(card(), linear_dims(1), linear(128), no_flags()).unwrap();
    assert_eq!(
        kernels(&plan),
        vec![
            Kernel::GemvQ8Gdn4way,
            Kernel::GdnConvQkvl2One,
            Kernel::GdnDeltaGatedOneD128,
            Kernel::QuantizeQ8,
            Kernel::GemvQ8Global,
        ]
    );
    assert_eq!(
        plan[1].args,
        vec![
            buf(Buf::Q),
            Arg::Vector(VecId::Conv1d),
            buf(Buf::CacheConv),
            buf(Buf::GdnQ),
            buf(Buf::GdnK),
            buf(Buf::GdnV),
            num(8),
            num(16),
            num(128),
            num(4),
            Arg::Eps,
        ]
    );
    assert_eq!(plan[1].shape, shape(8, 1, 128, 0));
    assert_eq!(
        plan[2].args,
        vec![
            buf(Buf::GdnQ),
            buf(Buf::GdnK),
            buf(Buf::GdnV),
            buf(Buf::GdnAlpha),
            buf(Buf::GdnBeta),
            Arg::Vector(VecId::SsmDt),
            Arg::Vector(VecId::SsmA),
            buf(Buf::CacheSsm),
            Arg::Vector(VecId::SsmNorm),
            buf(Buf::GdnZ),
            buf(Buf::Xb),
            num(8),
            num(16),
            Arg::Eps,
        ]
    );
    assert_eq!(plan[2].shape, shape(16, 1, 128, 0));
    let other = attn_block_linear(card(), linear_dims(1), linear(64), no_flags()).unwrap();
    assert_eq!(other[2].kernel, Kernel::GdnDeltaGatedOne);
    assert_eq!(other[2].args[11..], [num(8), num(16), num(64), Arg::Eps]);
    let skip = Flags { skip_linear: true, ..no_flags() };
    let none = attn_block_linear(card(), linear_dims(1), linear(128), skip).unwrap();
    assert!(none.is_empty());
}

#[test]
fn a_linear_layer_runs_many_tokens() {
    let plan = attn_block_linear(card(), linear_dims(3), linear(128), no_flags()).unwrap();
    assert_eq!(
        kernels(&plan),
        vec![
            Kernel::GemmQ8,
            Kernel::GemmQ8,
            Kernel::GemmQ8,
            Kernel::GemmQ8,
            Kernel::GdnPrepDecayBeta,
            Kernel::CausalConv1d,
            Kernel::GdnSplitL2Seq,
            Kernel::GdnDeltaGatedSeq,
            Kernel::GemmQ8,
            Kernel::Add,
        ]
    );
    assert_eq!(plan[2].args[0], data(MatId::SsmBeta));
    assert_eq!(
        plan[4].args,
        vec![
            buf(Buf::GdnAlpha),
            buf(Buf::GdnBeta),
            Arg::Vector(VecId::SsmDt),
            Arg::Vector(VecId::SsmA),
            num(16),
            num(3),
        ]
    );
    assert_eq!(plan[4].shape, shape(1, 1, 1024, 0));
    assert_eq!(plan[5].shape, shape(24, 1, 256, 0));
    assert_eq!(
        plan[6].args,
        vec![
            buf(Buf::GdnConv),
            buf(Buf::GdnQ),
            buf(Buf::GdnK),
            buf(Buf::GdnV),
            num(8),
            num(16),
            num(128),
            num(128),
            num(3),
            Arg::Eps,
        ]
    );
    assert_eq!(plan[6].shape, shape(8, 3, 128, 0));
    assert_eq!(plan[7].shape, shape(16, 1, 128, 0));
}

#[test]
fn a_linear_layer_can_go_step_by_step() {
    let legacy = Flags { gdn_legacy: true, gdn_no_4way: true, ..no_flags() };
    let plan = attn_block_linear(card(), linear_dims(1), linear(128), legacy).unwrap();
    assert_eq!(
        kernels(&plan),
        vec![
            Kernel::GemvQ8,
            Kernel::GemvQ8,
            Kernel::GemvQ8,
            Kernel::GemvQ8,
            Kernel::GdnPrepDecayBeta,
            Kernel::CausalConv1dOne,
            Kernel::SplitQkvL2One,
            Kernel::GatedDeltaOne,
            Kernel::GatedRmsNorm,
            Kernel::QuantizeQ8,
            Kernel::GemvQ8Global,
        ]
    );
    assert_eq!(
        plan[5].args,
        vec![
            buf(Buf::Q),
            Arg::Vector(VecId::Conv1d),
            buf(Buf::CacheConv),
            buf(Buf::GdnConv),
            num(6144),
            num(4),
        ]
    );
    assert_eq!(
        plan[7].args,
        vec![
            buf(Buf::GdnQ),
            buf(Buf::GdnK),
            buf(Buf::GdnV),
            buf(Buf::GdnAlpha),
            buf(Buf::GdnBeta),
            buf(Buf::CacheSsm),
            buf(Buf::GdnOut),
            num(8),
            num(16),
            num(128),
        ]
    );
    assert_eq!(
        plan[8].args,
        vec![
            buf(Buf::GdnOut),
            Arg::Vector(VecId::SsmNorm),
            buf(Buf::GdnZ),
            buf(Buf::Xb),
            num(16),
            num(128),
            num(1),
            Arg::Eps,
        ]
    );
    let many = attn_block_linear(card(), linear_dims(3), linear(128), legacy).unwrap();
    assert_eq!(
        kernels(&many)[4..11],
        [
            Kernel::GdnPrepDecayBeta,
            Kernel::CausalConv1d,
            Kernel::SplitQkvConv,
            Kernel::L2NormHeads,
            Kernel::L2NormHeads,
            Kernel::GatedDeltaSeq,
            Kernel::GatedRmsNorm,
        ]
    );
    assert_eq!(many[6].shape, shape(3, 1, 128, 0));
    assert_eq!(
        many[8].args,
        vec![buf(Buf::GdnK), num(8), num(128), num(3), Arg::Eps]
    );
    assert_eq!(many[10].shape, shape(16, 3, 128, 0));
}

fn dense(wtype: WType) -> (GpuMat, GpuMat, GpuMat) {
    (
        mat(MatId::Gate, wtype, 2048, 11008),
        mat(MatId::Up, wtype, 2048, 11008),
        mat(MatId::Down, wtype, 11008, 2048),
    )
}

#[test]
fn a_dense_block_fuses_what_it_can() {
    let (gate, up, down) = dense(WType::Q4K);
    let plan = ffn_block_dense(card(), dims(1), gate, up, down).unwrap();
    assert_eq!(
        kernels(&plan),
        vec![
            Kernel::RmsNorm,
            Kernel::GemvQ4FfnMcol,
            Kernel::QuantizeQ8,
            Kernel::GemvQ4GlobalSplitk,
            Kernel::GemvSplitkReduce,
        ]
    );
    assert_eq!(plan[0].args[1], Arg::Vector(VecId::FfnNorm));
    let (gate, up, down) = dense(WType::Q8_0);
    let plan = ffn_block_dense(card(), dims(1), gate, up, down).unwrap();
    assert_eq!(
        kernels(&plan),
        vec![
            Kernel::RmsNorm,
            Kernel::QuantizeQ8,
            Kernel::GemvQ8Global,
            Kernel::QuantizeQ8,
            Kernel::GemvQ8Global,
            Kernel::SiluMul,
            Kernel::QuantizeQ8,
            Kernel::GemvQ8GlobalSplitk,
            Kernel::GemvSplitkReduce,
        ]
    );
    assert_eq!(plan[5].args, vec![buf(Buf::Hb), buf(Buf::Hb2), num(11008)]);
    assert_eq!(plan[5].shape, shape(11, 1, 1024, 0));
    let plan = ffn_block_dense(card(), dims(3), gate, up, down).unwrap();
    assert_eq!(
        kernels(&plan),
        vec![
            Kernel::RmsNorm,
            Kernel::GemmQ8,
            Kernel::GemmQ8,
            Kernel::SiluMul,
            Kernel::GemmQ8,
            Kernel::Add,
        ]
    );
    assert_eq!(plan[3].args[2], num(33024));
}

fn experts(wtype: WType) -> MoeFfnWeights {
    MoeFfnWeights {
        n_experts: 4,
        top_k: 2,
        expert_ff: 1280,
        gate_all: mat(MatId::GateAll, wtype, 640, 5120),
        up_all: mat(MatId::UpAll, wtype, 640, 5120),
        down_all: mat(MatId::DownAll, wtype, 1280, 2560),
    }
}

fn moe_dims() -> ChunkDims {
    ChunkDims { n_embd: 640, n_ff: 1280, ..dims(1) }
}

#[test]
fn experts_run_one_after_another() {
    let plan = ffn_block_moe_one(moe_dims(), experts(WType::Q4_0), no_flags());
    assert_eq!(
        kernels(&plan),
        vec![
            Kernel::MoeFfnPrep,
            Kernel::GemvQ40ExpertGateUp,
            Kernel::QuantizeQ8,
            Kernel::GemvQ40ExpertDownScale,
            Kernel::GemvQ40ExpertGateUp,
            Kernel::QuantizeQ8,
            Kernel::GemvQ40ExpertDownScale,
        ]
    );
    assert_eq!(
        plan[0].args,
        vec![
            buf(Buf::X),
            Arg::Vector(VecId::FfnNorm),
            buf(Buf::Xb),
            Arg::Vector(VecId::Router),
            buf(Buf::MoeIdx),
            buf(Buf::MoeW),
            buf(Buf::Q8X),
            buf(Buf::Q8D),
            num(640),
            num(4),
            num(2),
            Arg::Eps,
        ]
    );
    assert_eq!(
        plan[4].args,
        vec![
            data(MatId::GateAll),
            data(MatId::UpAll),
            buf(Buf::Q8X),
            buf(Buf::Q8D),
            buf(Buf::Hb),
            buf(Buf::Hb2),
            buf(Buf::MoeIdx),
            num(1),
            num(640),
            num(1280),
            num(360),
        ]
    );
    assert_eq!(plan[4].shape, shape(1280, 1, 32, 0));
    assert_eq!(
        plan[5].args,
        vec![buf(Buf::Hb), buf(Buf::Q8X), buf(Buf::Q8D), num(1280)]
    );
    assert_eq!(
        plan[6].args,
        vec![
            data(MatId::DownAll),
            buf(Buf::Q8X),
            buf(Buf::Q8D),
            buf(Buf::X),
            buf(Buf::MoeIdx),
            buf(Buf::MoeW),
            num(1),
            num(1280),
            num(640),
            num(720),
        ]
    );
    assert_eq!(plan[6].shape, shape(640, 1, 32, 0));
    let warps = Flags { gemv_warps: Some(8), ..no_flags() };
    let plan = ffn_block_moe_one(moe_dims(), experts(WType::Q8_0), warps);
    assert_eq!(plan[1].kernel, Kernel::GemvQ8ExpertGateUp);
    assert_eq!(plan[1].shape, shape(160, 1, 256, 0));
    assert_eq!(plan[3].kernel, Kernel::GemvQ8ExpertDownScale);
}

#[test]
fn experts_have_other_kernels() {
    let d = moe_dims();
    let bm = ffn_block_moe_one(d, experts(WType::Q4_0_BM), no_flags());
    assert_eq!(
        kernels(&bm)[..4],
        [
            Kernel::MoeFfnPrep,
            Kernel::GemvQ40BmExpertGateUp,
            Kernel::QuantizeQ8,
            Kernel::GemvQ40BmExpertDownScale,
        ]
    );
    assert_eq!(bm[1].shape, shape(10, 1, 128, 0));
    assert_eq!(bm[2].args[1..3], [buf(Buf::Q8Ff), buf(Buf::Q8FfD)]);
    assert_eq!(bm[3].shape, shape(5, 1, 128, 0));
    let f16 = ffn_block_moe_one(d, experts(WType::F16), no_flags());
    assert_eq!(
        kernels(&f16)[..4],
        [
            Kernel::RmsNorm,
            Kernel::MoeRouterTopk,
            Kernel::GemvF16ExpertGateUp4w,
            Kernel::GemvF16ExpertDownScale4w,
        ]
    );
    assert_eq!(
        f16[1].args,
        vec![
            Arg::Vector(VecId::Router),
            buf(Buf::Xb),
            buf(Buf::MoeIdx),
            buf(Buf::MoeW),
            num(4),
            num(640),
            num(2),
        ]
    );
    assert_eq!(f16[2].shape, shape(1280, 1, 128, 0));
    let four = Flags { moe_4w: true, moe_2w: true, ..no_flags() };
    let plan = ffn_block_moe_one(d, experts(WType::Q4_0), four);
    assert_eq!(plan[1].kernel, Kernel::GemvQ40ExpertGateUp4w);
    assert_eq!(plan[3].kernel, Kernel::GemvQ40ExpertDownScale4w);
    let two = Flags { moe_2w: true, ..no_flags() };
    let plan = ffn_block_moe_one(d, experts(WType::Q4_0), two);
    assert_eq!(plan[1].kernel, Kernel::GemvQ40ExpertGateUp2w);
    assert_eq!(plan[1].shape, shape(1280, 1, 64, 0));
    let q8 = Flags { moe_gate_q8: true, ..no_flags() };
    let plan = ffn_block_moe_one(d, experts(WType::Q4_0), q8);
    assert_eq!(
        kernels(&plan)[1..3],
        [Kernel::GemvQ40ExpertGateUpQ8, Kernel::GemvQ40ExpertDownScale]
    );
    assert_eq!(plan[1].shape, shape(40, 1, 1024, 0));
    let classic = Flags { moe_classic: true, ..q8 };
    let plan = ffn_block_moe_one(d, experts(WType::Q4_0), classic);
    assert_eq!(plan[1].kernel, Kernel::GemvQ40ExpertGateUp);
}

#[test]
fn the_number_of_experts_can_be_asked_for() {
    let m = experts(WType::Q4_0);
    let with = |k: Option<Option<usize>>, speed: bool| Flags { moe_topk: k, speed, ..no_flags() };
    assert_eq!(experts_used(m, with(None, false)), 2);
    assert_eq!(experts_used(m, with(None, true)), 1);
    assert_eq!(experts_used(m, with(Some(Some(9)), true)), 4);
    assert_eq!(experts_used(m, with(Some(Some(0)), false)), 1);
    assert_eq!(experts_used(m, with(Some(None), true)), 2);
    let ffn = LayerFfn::Moe(m);
    let plan = ffn_block(card(), ChunkDims { n_tok: 3, ..moe_dims() }, ffn, no_flags()).unwrap();
    assert!(plan.each_token);
    assert_eq!(plan.launches.len(), 7);
}

fn layer_at(li: usize, flags: Flags, skip: Option<&str>, n_tok: usize) -> (usize, Option<usize>) {
    let (gate, up, down) = dense(WType::Q4K);
    let layer = GpuLayer {
        attn: LayerAttn::Full(full()),
        ffn: LayerFfn::Dense { gate, up, down },
    };
    let context = LayerContext {
        card: card(),
        rope: rope(),
        flags,
        decode: backend("fastv2"),
        n_layer: 8,
    };
    let plan = run_layer(&context, dims(n_tok), layer, li, skip).unwrap();
    (plan.attn.len(), plan.ffn.map(|f| f.launches.len()))
}

#[test]
fn layers_can_be_left_out() {
    assert_eq!(layer_at(1, no_flags(), None, 1), (11, Some(5)));
    let identity = Flags { identity: true, ..no_flags() };
    assert_eq!(layer_at(1, identity, None, 1), (0, None));
    let skipped: Vec<bool> = (0..8)
        .map(|li| layer_at(li, no_flags(), Some("2"), 1).1.is_none())
        .collect();
    assert_eq!(skipped, vec![false, true, false, true, false, true, false, true]);
    assert!((0..8).all(|li| layer_at(li, no_flags(), Some("2"), 3).1.is_some()));
}

#[test]
fn parts_that_are_left_out_need_no_kernels() {
    let context = |flags: Flags| LayerContext {
        card: card(),
        rope: rope(),
        flags,
        decode: backend("fastv2"),
        n_layer: 8,
    };
    let (gate, up, down) = dense(WType::Q4K);
    let wide = GpuMat { n_cols: usize::MAX, ..down };
    let layer = GpuLayer {
        attn: LayerAttn::Full(full()),
        ffn: LayerFfn::Dense { gate, up, down: wide },
    };
    let usual = context(no_flags());
    assert!(!has_layer(&usual, 1, layer, 1, None));
    assert!(has_layer(&usual, 1, layer, 1, Some("2")));
    assert!(!has_layer(&usual, 1, layer, 2, Some("2")));
    assert!(!has_layer(&usual, 3, layer, 1, Some("2")));
    let plan = run_layer(&usual, dims(1), layer, 1, Some("2")).unwrap();
    assert_eq!((plan.attn.len(), plan.ffn.is_none()), (11, true));
    let identity = context(Flags { identity: true, ..no_flags() });
    assert!(has_layer(&identity, 3, layer, 1, None));
    assert!(run_layer(&identity, dims(3), layer, 1, None).unwrap().attn.is_empty());
    let lin = LinearAttnWeights { ssm_out: wide, ..linear(128) };
    let layer = GpuLayer {
        attn: LayerAttn::Linear(lin),
        ffn: LayerFfn::Dense { gate, up, down },
    };
    assert!(!has_layer(&usual, 1, layer, 1, None));
    let skipping = Flags { skip_linear: true, ..no_flags() };
    assert!(has_layer(&context(skipping), 1, layer, 1, None));
    assert!(attn_block_linear(card(), linear_dims(1), lin, skipping).unwrap().is_empty());
}

#[test]
fn scores_end_with_the_best_token() {
    let head = Head {
        token_embd: mat(MatId::TokenEmbd, WType::Q8_0, 2048, 4096),
        output: Some(mat(MatId::Output, WType::Q4K, 2048, 4096)),
        special: Some(mat(MatId::OutputSpecial, WType::Q4K, 2048, 1)),
        special_id: Some(9000),
    };
    let plan = logits_from_last(card(), dims(3), head);
    assert_eq!(
        kernels(&plan.scores),
        vec![
            Kernel::CopyLast,
            Kernel::RmsNorm,
            Kernel::QuantizeQ8,
            Kernel::GemvQ4Global,
            Kernel::QuantizeQ8,
            Kernel::GemvQ4Global,
        ]
    );
    assert_eq!(
        plan.scores[0].args,
        vec![buf(Buf::X), buf(Buf::X1), num(3), num(2048)]
    );
    assert_eq!(plan.scores[0].shape, shape(2, 1, 1024, 0));
    assert_eq!(
        plan.scores[1].args,
        vec![
            buf(Buf::X1),
            Arg::Vector(VecId::OutputNorm),
            buf(Buf::Xb1),
            num(2048),
            num(1),
            Arg::Eps,
        ]
    );
    assert_eq!(plan.scores[5].args[0], data(MatId::OutputSpecial));
    assert_eq!(plan.scores[5].args[3], buf(Buf::SpecialLogit));
    assert_eq!(plan.special_at, Some(4096));
    assert_eq!(
        plan.pick[0].args,
        vec![buf(Buf::Logits), num(4097), buf(Buf::ArgmaxBuf)]
    );
    assert_eq!(plan.pick[0].shape, shape(1, 1, 256, 0));
    assert_eq!(head.map_output_id(4096), 9000);
    assert_eq!(head.map_output_id(17), 17);
}
