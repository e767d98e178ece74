//! The kernels that are loaded, and how the card at hand tunes them.
use crate::text::{same_text, signed_decimal, signed_string};
use vstd::prelude::*;

verus! {

/// What the compute capability of the card decides.
#[derive(Debug, Clone, Copy, PartialEq, Eq, Structural)]
pub struct GemvTuning {
    pub q4_dual_4way: bool,
    pub q4_dual_threads: u32,
    pub gemv_quantized_warps: u32,
}

impl GemvTuning {
    /// The tuning for a compute capability; an override outside 1 to 32 warps
    /// does not count.
    pub fn from_cc(cc_major: i32, warps_override: Option<u32>) -> (r: GemvTuning)
        ensures
            r.q4_dual_4way == (cc_major >= 8),
            r.q4_dual_threads == (if cc_major >= 8 {
                128u32
            } else {
                64
            }),
            r.gemv_quantized_warps == (match warps_override {
                Some(w) if 1 <= w <= 32 => w,
                _ => if cc_major >= 8 {
                    16
                } else {
                    32
                },
            }),
            r.wf(),
    {
        let by_card: u32 = if cc_major >= 8 {
            16
        } else {
            32
        };
        let warps: u32 = match warps_override {
            Some(w) => if 1 <= w && w <= 32 {
                w
            } else {
                by_card
            },
            None => by_card,
        };
        GemvTuning {
            q4_dual_4way: cc_major >= 8,
            q4_dual_threads: if cc_major >= 8 {
                128
            } else {
                64
            },
            gemv_quantized_warps: warps,
        }
    }

    /// A block has between one and 32 warps.
    pub open spec fn wf(self) -> bool {
        1 <= self.gemv_quantized_warps <= 32
    }

    /// Whether a block has a number of warps that the kernels take.
    pub fn is_sound(self) -> (r: bool)
        ensures
            r == self.wf(),
    {
        1 <= self.gemv_quantized_warps && self.gemv_quantized_warps <= 32
    }

    /// The kernel for two equal Q4_K matrices.
    pub open spec fn q4_dual(self) -> Seq<char> {
        if self.q4_dual_4way {
            "gemv_q4_k_dual_4way"@
        } else {
            "gemv_q4_k_dual"@
        }
    }

    /// The kernel for gate and up of a Q4_K feed-forward layer.
    pub open spec fn q4_ffn(self) -> Seq<char> {
        if self.q4_dual_4way {
            "gemv_q4_k_ffn_4way"@
        } else {
            "gemv_q4_k_ffn"@
        }
    }

    /// The same kernel over shared memory.
    pub open spec fn q4_ffn_smem(self) -> Seq<char> {
        if self.q4_dual_4way {
            "gemv_q4_k_ffn_4way_smem"@
        } else {
            "gemv_q4_k_ffn"@
        }
    }

    /// The kernel for two equal Q4_K matrices.
    pub fn q4_dual_symbol(self) -> (r: &'static str)
        ensures
            r@ == self.q4_dual(),
    {
        if self.q4_dual_4way {
            "gemv_q4_k_dual_4way"
        } else {
            "gemv_q4_k_dual"
        }
    }

    /// The kernel for gate and up of a Q4_K feed-forward layer.
    pub fn q4_ffn_symbol(self) -> (r: &'static str)
        ensures
            r@ == self.q4_ffn(),
    {
        if self.q4_dual_4way {
            "gemv_q4_k_ffn_4way"
        } else {
            "gemv_q4_k_ffn"
        }
    }

    /// The same kernel over shared memory.
    pub fn q4_ffn_smem_symbol(self) -> (r: &'static str)
        ensures
            r@ == self.q4_ffn_smem(),
    {
        if self.q4_dual_4way {
            "gemv_q4_k_ffn_4way_smem"
        } else {
            "gemv_q4_k_ffn"
        }
    }
}

/// The kernels.
#[derive(Debug, Clone, Copy, PartialEq, Eq, Hash, Structural)]
pub enum Kernel {
    QuantizeQ8,
    GemvQ4,
    GemvQ4Global,
    GemvQ5,
    GemvQ5k,
    GemvQ6,
    GemvQ6Repack,
    GemvQ6RepackGlobal,
    GemvQ6CompactGlobal,
    GemvQ6CompactGlobal4way,
    GemvQ6CompactGlobal8way,
    GemvQ6CompactGlobalMcol,
    GemvQ8,
    GemvQ8Global,
    GemvQ40,
    GemvQ40Global,
    GemvQ40ExpertSlot,
    GemvQ40ExpertGateUp,
    GemvQ40ExpertGateUpQ8,
    GemvQ40ExpertDownScale,
    GemvF16ExpertGateUp,
    GemvF16ExpertDownScale,
    GemvF16ExpertGateUp4w,
    GemvF16ExpertDownScale4w,
    GemvQ40BmExpertGateUp,
    GemvQ40BmExpertDownScale,
    GemvQ40Qkv,
    GemvQ40Qkv2w,
    GemvQ40Pair,
    GemvQ40Ffn,
    GemvQ40ExpertGateUp2w,
    GemvQ40ExpertDownScale2w,
    GemvQ40ExpertGateUp4w,
    GemvQ40ExpertDownScale4w,
    GemvQ40ExpertGateUpF32,
    GemvQ40ExpertDownScaleF32,
    GemvQ8ExpertGateUp,
    GemvQ8ExpertDownScale,
    GemvQ4Splitk,
    GemvQ4GlobalSplitk,
    GemvQ5Splitk,
    GemvQ5kSplitk,
    GemvQ6Splitk,
    GemvQ6RepackSplitk,
    GemvQ6RepackGlobalSplitk,
    GemvQ6CompactGlobalSplitk,
    GemvQ8Splitk,
    GemvQ8GlobalSplitk,
    GemvSplitkReduce,
    GemvQ5Qk,
    GemvQ5Qkv,
    GemvQ4Pair,
    GemvQ4Dual,
    GemvQ4Ffn,
    GemvQ4Ffn8way,
    GemvQ4FfnMcol,
    GemvQ4FfnSmem,
    GemvQ4Qkv,
    GemvQ8Qkv,
    GemvQ8Gdn4way,
    GemvHybridGdn4way,
    GemvQ8QkvSplitk,
    GemvQ8Gdn4waySplitk,
    GemvHybridGdn4waySplitk,
    GemvSplitkReduceQkv,
    GemvSplitkReduceGdn4way,
    GemmQ4,
    GemmQ5,
    GemmQ5k,
    GemmQ6,
    GemmQ8,
    EmbedQ4,
    EmbedQ5,
    EmbedQ5k,
    EmbedQ6,
    EmbedQ8,
    EmbedQ40,
    EmbedQ4One,
    EmbedQ5One,
    EmbedQ5kOne,
    EmbedQ6One,
    EmbedQ8One,
    EmbedQ40One,
    EmbedQ4OneD,
    EmbedQ5OneD,
    EmbedQ5kOneD,
    EmbedQ6OneD,
    EmbedQ8OneD,
    EmbedQ40OneD,
    RmsNorm,
    MoeFfnPrep,
    AttnPrep,
    SiluMul,
    Add,
    ScaleAdd,
    ScaleAddSlot,
    GemvF32Rows,
    MoeRouterTopk,
    GemvQ8ExpertSlot,
    AddBias,
    Rope,
    RopeD,
    QkNormRope,
    QkNormRopeD,
    QkNormPartialRope,
    QkNormPartialRopeD,
    Sigmoid,
    SoftplusBiasScale,
    SoftplusBiasScaleRows,
    GdnPrepDecayBeta,
    CopyF32,
    ExpF,
    L2NormHeads,
    GatedRmsNorm,
    SplitQGate,
    MulSigmoid,
    CausalConv1d,
    CausalConv1dOne,
    GatedDeltaSeq,
    GatedDeltaOne,
    GdnConvQkvl2One,
    GdnDeltaGatedOne,
    GdnDeltaGatedOneD128,
    GdnSplitL2Seq,
    GdnDeltaGatedSeq,
    SplitQkvConv,
    SplitQkvL2One,
    ZeroF32,
    CopyKv,
    CopyKvD,
    Argmax,
    ArgmaxRows,
    CopyLast,
    AttnFastV2,
    AttnFastV2D,
    AttnFlashPartial,
    AttnFlashPartialD,
    AttnFlashReduce,
    AttnFastV1,
    AttnBasicF32,
    AttnOnlineF32,
}

/// The number of kernels.
pub const N_KERNELS: u32 = 141;

impl Kernel {
    /// The name of the kernel in the compiled module.
    pub open spec fn name(self, tuning: GemvTuning) -> Seq<char> {
        match self {
            Kernel::QuantizeQ8 => "quantize_q8_global"@,
            Kernel::GemvQ4 => "gemv_q4_k"@,
            Kernel::GemvQ4Global => "gemv_q4_k_global"@,
            Kernel::GemvQ5 => "gemv_q5_0"@,
            Kernel::GemvQ5k => "gemv_q5_k"@,
            Kernel::GemvQ6 => "gemv_q6_k"@,
            Kernel::GemvQ6Repack => "gemv_q6_k_repack"@,
            Kernel::GemvQ6RepackGlobal => "gemv_q6_k_repack_global"@,
            Kernel::GemvQ6CompactGlobal => "gemv_q6_k_compact_global"@,
            Kernel::GemvQ6CompactGlobal4way => "gemv_q6_k_compact_global_4way"@,
            Kernel::GemvQ6CompactGlobal8way => "gemv_q6_k_compact_global_8way"@,
            Kernel::GemvQ6CompactGlobalMcol => "gemv_q6_k_compact_global_mcol"@,
            Kernel::GemvQ8 => "gemv_q8_0"@,
            Kernel::GemvQ8Global => "gemv_q8_0_global"@,
            Kernel::GemvQ40 => "gemv_q4_0"@,
            Kernel::GemvQ40Global => "gemv_q4_0_global"@,
            Kernel::GemvQ40ExpertSlot => "gemv_q4_0_global_expert_slot"@,
            Kernel::GemvQ40ExpertGateUp => "gemv_q4_0_global_expert_gate_up"@,
            Kernel::GemvQ40ExpertGateUpQ8 => "gemv_q4_0_global_expert_gate_up_q8"@,
            Kernel::GemvQ40ExpertDownScale => "gemv_q4_0_global_expert_down_scale"@,
            Kernel::GemvF16ExpertGateUp => "gemv_f16_expert_gate_up"@,
            Kernel::GemvF16ExpertDownScale => "gemv_f16_expert_down_scale"@,
            Kernel::GemvF16ExpertGateUp4w => "gemv_f16_expert_gate_up_4w"@,
            Kernel::GemvF16ExpertDownScale4w => "gemv_f16_expert_down_scale_4w"@,
            Kernel::GemvQ40BmExpertGateUp => "gemv_q4_0_bm_expert_gate_up"@,
            Kernel::GemvQ40BmExpertDownScale => "gemv_q4_0_bm_expert_down_scale"@,
            Kernel::GemvQ40Qkv => "gemv_q4_0_global_qkv"@,
            Kernel::GemvQ40Qkv2w => "gemv_q4_0_global_qkv_2w"@,
            Kernel::GemvQ40Pair => "gemv_q4_0_global_pair"@,
            Kernel::GemvQ40Ffn => "gemv_q4_0_global_ffn"@,
            Kernel::GemvQ40ExpertGateUp2w => "gemv_q4_0_global_expert_gate_up_2w"@,
            Kernel::GemvQ40ExpertDownScale2w => "gemv_q4_0_global_expert_down_scale_2w"@,
            Kernel::GemvQ40ExpertGateUp4w => "gemv_q4_0_global_expert_gate_up_4w"@,
            Kernel::GemvQ40ExpertDownScale4w => "gemv_q4_0_global_expert_down_scale_4w"@,
            Kernel::GemvQ40ExpertGateUpF32 => "gemv_q4_0_expert_gate_up_f32"@,
            Kernel::GemvQ40ExpertDownScaleF32 => "gemv_q4_0_expert_down_scale_f32"@,
            Kernel::GemvQ8ExpertGateUp => "gemv_q8_0_global_expert_gate_up"@,
            Kernel::GemvQ8ExpertDownScale => "gemv_q8_0_global_expert_down_scale"@,
            Kernel::GemvQ4Splitk => "gemv_q4_k_splitk"@,
            Kernel::GemvQ4GlobalSplitk => "gemv_q4_k_global_splitk"@,
            Kernel::GemvQ5Splitk => "gemv_q5_0_splitk"@,
            Kernel::GemvQ5kSplitk => "gemv_q5_k_splitk"@,
            Kernel::GemvQ6Splitk => "gemv_q6_k_splitk"@,
            Kernel::GemvQ6RepackSplitk => "gemv_q6_k_repack_splitk"@,
            Kernel::GemvQ6RepackGlobalSplitk => "gemv_q6_k_repack_global_splitk"@,
            Kernel::GemvQ6CompactGlobalSplitk => "gemv_q6_k_compact_global_splitk"@,
            Kernel::GemvQ8Splitk => "gemv_q8_0_splitk"@,
            Kernel::GemvQ8GlobalSplitk => "gemv_q8_0_global_splitk"@,
            Kernel::GemvSplitkReduce => "gemv_splitk_reduce"@,
            Kernel::GemvQ5Qk => "gemv_q5_0_qk"@,
            Kernel::GemvQ5Qkv => "gemv_q5_0_qkv"@,
            Kernel::GemvQ4Pair => "gemv_q4_k_pair"@,
            Kernel::GemvQ4Dual => tuning.q4_dual(),
            Kernel::GemvQ4Ffn => tuning.q4_ffn(),
            Kernel::GemvQ4Ffn8way => "gemv_q4_k_ffn_8way"@,
            Kernel::GemvQ4FfnMcol => "gemv_q4_k_ffn_mcol"@,
            Kernel::GemvQ4FfnSmem => tuning.q4_ffn_smem(),
            Kernel::GemvQ4Qkv => "gemv_q4_k_qkv"@,
            Kernel::GemvQ8Qkv => "gemv_q8_0_qkv"@,
            Kernel::GemvQ8Gdn4way => "gemv_q8_0_gdn_4way"@,
            Kernel::GemvHybridGdn4way => "gemv_hybrid_gdn_4way"@,
            Kernel::GemvQ8QkvSplitk => "gemv_q8_0_qkv_splitk"@,
            Kernel::GemvQ8Gdn4waySplitk => "gemv_q8_0_gdn_4way_splitk"@,
            Kernel::GemvHybridGdn4waySplitk => "gemv_hybrid_gdn_4way_splitk"@,
            Kernel::GemvSplitkReduceQkv => "gemv_splitk_reduce_qkv"@,
            Kernel::GemvSplitkReduceGdn4way => "gemv_splitk_reduce_gdn_4way"@,
            Kernel::GemmQ4 => "gemm_q4_k"@,
            Kernel::GemmQ5 => "gemm_q5_0"@,
            Kernel::GemmQ5k => "gemm_q5_k"@,
            Kernel::GemmQ6 => "gemm_q6_k"@,
            Kernel::GemmQ8 => "gemm_q8_0"@,
            Kernel::EmbedQ4 => "embed_q4_k"@,
            Kernel::EmbedQ5 => "embed_q5_0"@,
            Kernel::EmbedQ5k => "embed_q5_k"@,
            Kernel::EmbedQ6 => "embed_q6_k"@,
            Kernel::EmbedQ8 => "embed_q8_0"@,
            Kernel::EmbedQ40 => "embed_q4_0"@,
            Kernel::EmbedQ4One => "embed_q4_k_one"@,
            Kernel::EmbedQ5One => "embed_q5_0_one"@,
            Kernel::EmbedQ5kOne => "embed_q5_k_one"@,
            Kernel::EmbedQ6One => "embed_q6_k_one"@,
            Kernel::EmbedQ8One => "embed_q8_0_one"@,
            Kernel::EmbedQ40One => "embed_q4_0_one"@,
            Kernel::EmbedQ4OneD => "embed_q4_k_one_d"@,
            Kernel::EmbedQ5OneD => "embed_q5_0_one_d"@,
            Kernel::EmbedQ5kOneD => "embed_q5_k_one_d"@,
            Kernel::EmbedQ6OneD => "embed_q6_k_one_d"@,
            Kernel::EmbedQ8OneD => "embed_q8_0_one_d"@,
            Kernel::EmbedQ40OneD => "embed_q4_0_one_d"@,
            Kernel::RmsNorm => "rms_norm_f32"@,
            Kernel::MoeFfnPrep => "moe_ffn_prep_rms_router_quant"@,
            Kernel::AttnPrep => "attn_prep_rms_quant"@,
            Kernel::SiluMul => "silu_mul_f32"@,
            Kernel::Add => "add_f32"@,
            Kernel::ScaleAdd => "scale_add_f32"@,
            Kernel::ScaleAddSlot => "scale_add_slot_f32"@,
            Kernel::GemvF32Rows => "gemv_f32_rows"@,
            Kernel::MoeRouterTopk => "moe_router_topk_f32"@,
            Kernel::GemvQ8ExpertSlot => "gemv_q8_0_global_expert_slot"@,
            Kernel::AddBias => "add_bias_f32"@,
            Kernel::Rope => "rope_neox_f32"@,
            Kernel::RopeD => "rope_neox_f32_d"@,
            Kernel::QkNormRope => "qk_rms_norm_rope_neox_f32"@,
            Kernel::QkNormRopeD => "qk_rms_norm_rope_neox_f32_d"@,
            Kernel::QkNormPartialRope => "qk_rms_norm_partial_rope_neox_f32"@,
            Kernel::QkNormPartialRopeD => "qk_rms_norm_partial_rope_neox_f32_d"@,
            Kernel::Sigmoid => "sigmoid_f32"@,
            Kernel::SoftplusBiasScale => "softplus_bias_scale_f32"@,
            Kernel::SoftplusBiasScaleRows => "softplus_bias_scale_rows_f32"@,
            Kernel::GdnPrepDecayBeta => "gdn_prep_decay_beta_f32"@,
            Kernel::CopyF32 => "copy_f32"@,
            Kernel::ExpF => "exp_f32"@,
            Kernel::L2NormHeads => "l2_norm_heads_f32"@,
            Kernel::GatedRmsNorm => "gated_rms_norm_f32"@,
            Kernel::SplitQGate => "split_q_gate_interleaved_f32"@,
            Kernel::MulSigmoid => "mul_sigmoid_f32"@,
            Kernel::CausalConv1d => "causal_conv1d_f32"@,
            Kernel::CausalConv1dOne => "causal_conv1d_one_f32"@,
            Kernel::GatedDeltaSeq => "gated_delta_rule_seq_f32"@,
            Kernel::GatedDeltaOne => "gated_delta_rule_one_f32"@,
            Kernel::GdnConvQkvl2One => "gdn_conv_qkvl2_one_f32"@,
            Kernel::GdnDeltaGatedOne => "gdn_delta_gated_one_f32"@,
            Kernel::GdnDeltaGatedOneD128 => "gdn_delta_gated_one_d128_f32"@,
            Kernel::GdnSplitL2Seq => "gdn_split_l2_seq_f32"@,
            Kernel::GdnDeltaGatedSeq => "gdn_delta_gated_seq_f32"@,
            Kernel::SplitQkvConv => "split_qkv_from_conv_f32"@,
            Kernel::SplitQkvL2One => "split_qkv_l2_one_f32"@,
            Kernel::ZeroF32 => "zero_f32"@,
            Kernel::CopyKv => "copy_kv_f16"@,
            Kernel::CopyKvD => "copy_kv_f16_d"@,
            Kernel::Argmax => "argmax_f32"@,
            Kernel::ArgmaxRows => "argmax_rows_f32"@,
            Kernel::CopyLast => "copy_last_row"@,
            Kernel::AttnFastV2 => "attn_fast_v2"@,
            Kernel::AttnFastV2D => "attn_fast_v2_d"@,
            Kernel::AttnFlashPartial => "attn_flash_partial"@,
            Kernel::AttnFlashPartialD => "attn_flash_partial_d"@,
            Kernel::AttnFlashReduce => "attn_flash_reduce"@,
            Kernel::AttnFastV1 => "attn_fast_v1"@,
            Kernel::AttnBasicF32 => "attn_basic_f32"@,
            Kernel::AttnOnlineF32 => "attn_online_f32"@,
        }
    }

    /// The place of the kernel in the list of all.
    pub open spec fn place(self) -> int {
        match self {
            Kernel::QuantizeQ8 => 0,
            Kernel::GemvQ4 => 1,
            Kernel::GemvQ4Global => 2,
            Kernel::GemvQ5 => 3,
            Kernel::GemvQ5k => 4,
            Kernel::GemvQ6 => 5,
            Kernel::GemvQ6Repack => 6,
            Kernel::GemvQ6RepackGlobal => 7,
            Kernel::GemvQ6CompactGlobal => 8,
            Kernel::GemvQ6CompactGlobal4way => 9,
            Kernel::GemvQ6CompactGlobal8way => 10,
            Kernel::GemvQ6CompactGlobalMcol => 11,
            Kernel::GemvQ8 => 12,
            Kernel::GemvQ8Global => 13,
            Kernel::GemvQ40 => 14,
            Kernel::GemvQ40Global => 15,
            Kernel::GemvQ40ExpertSlot => 16,
            Kernel::GemvQ40ExpertGateUp => 17,
            Kernel::GemvQ40ExpertGateUpQ8 => 18,
            Kernel::GemvQ40ExpertDownScale => 19,
            Kernel::GemvF16ExpertGateUp => 20,
            Kernel::GemvF16ExpertDownScale => 21,
            Kernel::GemvF16ExpertGateUp4w => 22,
            Kernel::GemvF16ExpertDownScale4w => 23,
            Kernel::GemvQ40BmExpertGateUp => 24,
            Kernel::GemvQ40BmExpertDownScale => 25,
            Kernel::GemvQ40Qkv => 26,
            Kernel::GemvQ40Qkv2w => 27,
            Kernel::GemvQ40Pair => 28,
            Kernel::GemvQ40Ffn => 29,
            Kernel::GemvQ40ExpertGateUp2w => 30,
            Kernel::GemvQ40ExpertDownScale2w => 31,
            Kernel::GemvQ40ExpertGateUp4w => 32,
            Kernel::GemvQ40ExpertDownScale4w => 33,
            Kernel::GemvQ40ExpertGateUpF32 => 34,
            Kernel::GemvQ40ExpertDownScaleF32 => 35,
            Kernel::GemvQ8ExpertGateUp => 36,
            Kernel::GemvQ8ExpertDownScale => 37,
            Kernel::GemvQ4Splitk => 38,
            Kernel::GemvQ4GlobalSplitk => 39,
            Kernel::GemvQ5Splitk => 40,
            Kernel::GemvQ5kSplitk => 41,
            Kernel::GemvQ6Splitk => 42,
            Kernel::GemvQ6RepackSplitk => 43,
            Kernel::GemvQ6RepackGlobalSplitk => 44,
            Kernel::GemvQ6CompactGlobalSplitk => 45,
            Kernel::GemvQ8Splitk => 46,
            Kernel::GemvQ8GlobalSplitk => 47,
            Kernel::GemvSplitkReduce => 48,
            Kernel::GemvQ5Qk => 49,
            Kernel::GemvQ5Qkv => 50,
            Kernel::GemvQ4Pair => 51,
            Kernel::GemvQ4Dual => 52,
            Kernel::GemvQ4Ffn => 53,
            Kernel::GemvQ4Ffn8way => 54,
            Kernel::GemvQ4FfnMcol => 55,
            Kernel::GemvQ4FfnSmem => 56,
            Kernel::GemvQ4Qkv => 57,
            Kernel::GemvQ8Qkv => 58,
            Kernel::GemvQ8Gdn4way => 59,
            Kernel::GemvHybridGdn4way => 60,
            Kernel::GemvQ8QkvSplitk => 61,
            Kernel::GemvQ8Gdn4waySplitk => 62,
            Kernel::GemvHybridGdn4waySplitk => 63,
            Kernel::GemvSplitkReduceQkv => 64,
            Kernel::GemvSplitkReduceGdn4way => 65,
            Kernel::GemmQ4 => 66,
            Kernel::GemmQ5 => 67,
            Kernel::GemmQ5k => 68,
            Kernel::GemmQ6 => 69,
            Kernel::GemmQ8 => 70,
            Kernel::EmbedQ4 => 71,
            Kernel::EmbedQ5 => 72,
            Kernel::EmbedQ5k => 73,
            Kernel::EmbedQ6 => 74,
            Kernel::EmbedQ8 => 75,
            Kernel::EmbedQ40 => 76,
            Kernel::EmbedQ4One => 77,
            Kernel::EmbedQ5One => 78,
            Kernel::EmbedQ5kOne => 79,
            Kernel::EmbedQ6One => 80,
            Kernel::EmbedQ8One => 81,
            Kernel::EmbedQ40One => 82,
            Kernel::EmbedQ4OneD => 83,
            Kernel::EmbedQ5OneD => 84,
            Kernel::EmbedQ5kOneD => 85,
            Kernel::EmbedQ6OneD => 86,
            Kernel::EmbedQ8OneD => 87,
            Kernel::EmbedQ40OneD => 88,
            Kernel::RmsNorm => 89,
            Kernel::MoeFfnPrep => 90,
            Kernel::AttnPrep => 91,
            Kernel::SiluMul => 92,
            Kernel::Add => 93,
            Kernel::ScaleAdd => 94,
            Kernel::ScaleAddSlot => 95,
            Kernel::GemvF32Rows => 96,
            Kernel::MoeRouterTopk => 97,
            Kernel::GemvQ8ExpertSlot => 98,
            Kernel::AddBias => 99,
            Kernel::Rope => 100,
            Kernel::RopeD => 101,
            Kernel::QkNormRope => 102,
            Kernel::QkNormRopeD => 103,
            Kernel::QkNormPartialRope => 104,
            Kernel::QkNormPartialRopeD => 105,
            Kernel::Sigmoid => 106,
            Kernel::SoftplusBiasScale => 107,
            Kernel::SoftplusBiasScaleRows => 108,
            Kernel::GdnPrepDecayBeta => 109,
            Kernel::CopyF32 => 110,
            Kernel::ExpF => 111,
            Kernel::L2NormHeads => 112,
            Kernel::GatedRmsNorm => 113,
            Kernel::SplitQGate => 114,
            Kernel::MulSigmoid => 115,
            Kernel::CausalConv1d => 116,
            Kernel::CausalConv1dOne => 117,
            Kernel::GatedDeltaSeq => 118,
            Kernel::GatedDeltaOne => 119,
            Kernel::GdnConvQkvl2One => 120,
            Kernel::GdnDeltaGatedOne => 121,
            Kernel::GdnDeltaGatedOneD128 => 122,
            Kernel::GdnSplitL2Seq => 123,
            Kernel::GdnDeltaGatedSeq => 124,
            Kernel::SplitQkvConv => 125,
            Kernel::SplitQkvL2One => 126,
            Kernel::ZeroF32 => 127,
            Kernel::CopyKv => 128,
            Kernel::CopyKvD => 129,
            Kernel::Argmax => 130,
            Kernel::ArgmaxRows => 131,
            Kernel::CopyLast => 132,
            Kernel::AttnFastV2 => 133,
            Kernel::AttnFastV2D => 134,
            Kernel::AttnFlashPartial => 135,
            Kernel::AttnFlashPartialD => 136,
            Kernel::AttnFlashReduce => 137,
            Kernel::AttnFastV1 => 138,
            Kernel::AttnBasicF32 => 139,
            Kernel::AttnOnlineF32 => 140,
        }
    }

    /// The name of the kernel in the compiled module.
    pub fn symbol(self, tuning: GemvTuning) -> (r: &'static str)
        ensures
            r@ == self.name(tuning),
    {
        match self {
            Kernel::QuantizeQ8 => "quantize_q8_global",
            Kernel::GemvQ4 => "gemv_q4_k",
            Kernel::GemvQ4Global => "gemv_q4_k_global",
            Kernel::GemvQ5 => "gemv_q5_0",
            Kernel::GemvQ5k => "gemv_q5_k",
            Kernel::GemvQ6 => "gemv_q6_k",
            Kernel::GemvQ6Repack => "gemv_q6_k_repack",
            Kernel::GemvQ6RepackGlobal => "gemv_q6_k_repack_global",
            Kernel::GemvQ6CompactGlobal => "gemv_q6_k_compact_global",
            Kernel::GemvQ6CompactGlobal4way => "gemv_q6_k_compact_global_4way",
            Kernel::GemvQ6CompactGlobal8way => "gemv_q6_k_compact_global_8way",
            Kernel::GemvQ6CompactGlobalMcol => "gemv_q6_k_compact_global_mcol",
            Kernel::GemvQ8 => "gemv_q8_0",
            Kernel::GemvQ8Global => "gemv_q8_0_global",
            Kernel::GemvQ40 => "gemv_q4_0",
            Kernel::GemvQ40Global => "gemv_q4_0_global",
            Kernel::GemvQ40ExpertSlot => "gemv_q4_0_global_expert_slot",
            Kernel::GemvQ40ExpertGateUp => "gemv_q4_0_global_expert_gate_up",
            Kernel::GemvQ40ExpertGateUpQ8 => "gemv_q4_0_global_expert_gate_up_q8",
            Kernel::GemvQ40ExpertDownScale => "gemv_q4_0_global_expert_down_scale",
            Kernel::GemvF16ExpertGateUp => "gemv_f16_expert_gate_up",
            Kernel::GemvF16ExpertDownScale => "gemv_f16_expert_down_scale",
            Kernel::GemvF16ExpertGateUp4w => "gemv_f16_expert_gate_up_4w",
            Kernel::GemvF16ExpertDownScale4w => "gemv_f16_expert_down_scale_4w",
            Kernel::GemvQ40BmExpertGateUp => "gemv_q4_0_bm_expert_gate_up",
            Kernel::GemvQ40BmExpertDownScale => "gemv_q4_0_bm_expert_down_scale",
            Kernel::GemvQ40Qkv => "gemv_q4_0_global_qkv",
            Kernel::GemvQ40Qkv2w => "gemv_q4_0_global_qkv_2w",
            Kernel::GemvQ40Pair => "gemv_q4_0_global_pair",
            Kernel::GemvQ40Ffn => "gemv_q4_0_global_ffn",
            Kernel::GemvQ40ExpertGateUp2w => "gemv_q4_0_global_expert_gate_up_2w",
            Kernel::GemvQ40ExpertDownScale2w => "gemv_q4_0_global_expert_down_scale_2w",
            Kernel::GemvQ40ExpertGateUp4w => "gemv_q4_0_global_expert_gate_up_4w",
            Kernel::GemvQ40ExpertDownScale4w => "gemv_q4_0_global_expert_down_scale_4w",
            Kernel::GemvQ40ExpertGateUpF32 => "gemv_q4_0_expert_gate_up_f32",
            Kernel::GemvQ40ExpertDownScaleF32 => "gemv_q4_0_expert_down_scale_f32",
            Kernel::GemvQ8ExpertGateUp => "gemv_q8_0_global_expert_gate_up",
            Kernel::GemvQ8ExpertDownScale => "gemv_q8_0_global_expert_down_scale",
            Kernel::GemvQ4Splitk => "gemv_q4_k_splitk",
            Kernel::GemvQ4GlobalSplitk => "gemv_q4_k_global_splitk",
            Kernel::GemvQ5Splitk => "gemv_q5_0_splitk",
            Kernel::GemvQ5kSplitk => "gemv_q5_k_splitk",
            Kernel::GemvQ6Splitk => "gemv_q6_k_splitk",
            Kernel::GemvQ6RepackSplitk => "gemv_q6_k_repack_splitk",
            Kernel::GemvQ6RepackGlobalSplitk => "gemv_q6_k_repack_global_splitk",
            Kernel::GemvQ6CompactGlobalSplitk => "gemv_q6_k_compact_global_splitk",
            Kernel::GemvQ8Splitk => "gemv_q8_0_splitk",
            Kernel::GemvQ8GlobalSplitk => "gemv_q8_0_global_splitk",
            Kernel::GemvSplitkReduce => "gemv_splitk_reduce",
            Kernel::GemvQ5Qk => "gemv_q5_0_qk",
            Kernel::GemvQ5Qkv => "gemv_q5_0_qkv",
            Kernel::GemvQ4Pair => "gemv_q4_k_pair",
            Kernel::GemvQ4Dual => tuning.q4_dual_symbol(),
            Kernel::GemvQ4Ffn => tuning.q4_ffn_symbol(),
            Kernel::GemvQ4Ffn8way => "gemv_q4_k_ffn_8way",
            Kernel::GemvQ4FfnMcol => "gemv_q4_k_ffn_mcol",
            Kernel::GemvQ4FfnSmem => tuning.q4_ffn_smem_symbol(),
            Kernel::GemvQ4Qkv => "gemv_q4_k_qkv",
            Kernel::GemvQ8Qkv => "gemv_q8_0_qkv",
            Kernel::GemvQ8Gdn4way => "gemv_q8_0_gdn_4way",
            Kernel::GemvHybridGdn4way => "gemv_hybrid_gdn_4way",
            Kernel::GemvQ8QkvSplitk => "gemv_q8_0_qkv_splitk",
            Kernel::GemvQ8Gdn4waySplitk => "gemv_q8_0_gdn_4way_splitk",
            Kernel::GemvHybridGdn4waySplitk => "gemv_hybrid_gdn_4way_splitk",
            Kernel::GemvSplitkReduceQkv => "gemv_splitk_reduce_qkv",
            Kernel::GemvSplitkReduceGdn4way => "gemv_splitk_reduce_gdn_4way",
            Kernel::GemmQ4 => "gemm_q4_k",
            Kernel::GemmQ5 => "gemm_q5_0",
            Kernel::GemmQ5k => "gemm_q5_k",
            Kernel::GemmQ6 => "gemm_q6_k",
            Kernel::GemmQ8 => "gemm_q8_0",
            Kernel::EmbedQ4 => "embed_q4_k",
            Kernel::EmbedQ5 => "embed_q5_0",
            Kernel::EmbedQ5k => "embed_q5_k",
            Kernel::EmbedQ6 => "embed_q6_k",
            Kernel::EmbedQ8 => "embed_q8_0",
            Kernel::EmbedQ40 => "embed_q4_0",
            Kernel::EmbedQ4One => "embed_q4_k_one",
            Kernel::EmbedQ5One => "embed_q5_0_one",
            Kernel::EmbedQ5kOne => "embed_q5_k_one",
            Kernel::EmbedQ6One => "embed_q6_k_one",
            Kernel::EmbedQ8One => "embed_q8_0_one",
            Kernel::EmbedQ40One => "embed_q4_0_one",
            Kernel::EmbedQ4OneD => "embed_q4_k_one_d",
            Kernel::EmbedQ5OneD => "embed_q5_0_one_d",
            Kernel::EmbedQ5kOneD => "embed_q5_k_one_d",
            Kernel::EmbedQ6OneD => "embed_q6_k_one_d",
            Kernel::EmbedQ8OneD => "embed_q8_0_one_d",
            Kernel::EmbedQ40OneD => "embed_q4_0_one_d",
            Kernel::RmsNorm => "rms_norm_f32",
            Kernel::MoeFfnPrep => "moe_ffn_prep_rms_router_quant",
            Kernel::AttnPrep => "attn_prep_rms_quant",
            Kernel::SiluMul => "silu_mul_f32",
            Kernel::Add => "add_f32",
            Kernel::ScaleAdd => "scale_add_f32",
            Kernel::ScaleAddSlot => "scale_add_slot_f32",
            Kernel::GemvF32Rows => "gemv_f32_rows",
            Kernel::MoeRouterTopk => "moe_router_topk_f32",
            Kernel::GemvQ8ExpertSlot => "gemv_q8_0_global_expert_slot",
            Kernel::AddBias => "add_bias_f32",
            Kernel::Rope => "rope_neox_f32",
            Kernel::RopeD => "rope_neox_f32_d",
            Kernel::QkNormRope => "qk_rms_norm_rope_neox_f32",
            Kernel::QkNormRopeD => "qk_rms_norm_rope_neox_f32_d",
            Kernel::QkNormPartialRope => "qk_rms_norm_partial_rope_neox_f32",
            Kernel::QkNormPartialRopeD => "qk_rms_norm_partial_rope_neox_f32_d",
            Kernel::Sigmoid => "sigmoid_f32",
            Kernel::SoftplusBiasScale => "softplus_bias_scale_f32",
            Kernel::SoftplusBiasScaleRows => "softplus_bias_scale_rows_f32",
            Kernel::GdnPrepDecayBeta => "gdn_prep_decay_beta_f32",
            Kernel::CopyF32 => "copy_f32",
            Kernel::ExpF => "exp_f32",
            Kernel::L2NormHeads => "l2_norm_heads_f32",
            Kernel::GatedRmsNorm => "gated_rms_norm_f32",
            Kernel::SplitQGate => "split_q_gate_interleaved_f32",
            Kernel::MulSigmoid => "mul_sigmoid_f32",
            Kernel::CausalConv1d => "causal_conv1d_f32",
            Kernel::CausalConv1dOne => "causal_conv1d_one_f32",
            Kernel::GatedDeltaSeq => "gated_delta_rule_seq_f32",
            Kernel::GatedDeltaOne => "gated_delta_rule_one_f32",
            Kernel::GdnConvQkvl2One => "gdn_conv_qkvl2_one_f32",
            Kernel::GdnDeltaGatedOne => "gdn_delta_gated_one_f32",
            Kernel::GdnDeltaGatedOneD128 => "gdn_delta_gated_one_d128_f32",
            Kernel::GdnSplitL2Seq => "gdn_split_l2_seq_f32",
            Kernel::GdnDeltaGatedSeq => "gdn_delta_gated_seq_f32",
            Kernel::SplitQkvConv => "split_qkv_from_conv_f32",
            Kernel::SplitQkvL2One => "split_qkv_l2_one_f32",
            Kernel::ZeroF32 => "zero_f32",
            Kernel::CopyKv => "copy_kv_f16",
            Kernel::CopyKvD => "copy_kv_f16_d",
            Kernel::Argmax => "argmax_f32",
            Kernel::ArgmaxRows => "argmax_rows_f32",
            Kernel::CopyLast => "copy_last_row",
            Kernel::AttnFastV2 => "attn_fast_v2",
            Kernel::AttnFastV2D => "attn_fast_v2_d",
            Kernel::AttnFlashPartial => "attn_flash_partial",
            Kernel::AttnFlashPartialD => "attn_flash_partial_d",
            Kernel::AttnFlashReduce => "attn_flash_reduce",
            Kernel::AttnFastV1 => "attn_fast_v1",
            Kernel::AttnBasicF32 => "attn_basic_f32",
            Kernel::AttnOnlineF32 => "attn_online_f32",
        }
    }
}

/// The kernel at a place of the list of all.
fn kernel_at(i: u32) -> (r: Kernel)
    requires
        i < N_KERNELS,
    ensures
        r.place() == i,
{
    match i {
        0 => Kernel::QuantizeQ8,
        1 => Kernel::GemvQ4,
        2 => Kernel::GemvQ4Global,
        3 => Kernel::GemvQ5,
        4 => Kernel::GemvQ5k,
        5 => Kernel::GemvQ6,
        6 => Kernel::GemvQ6Repack,
        7 => Kernel::GemvQ6RepackGlobal,
        8 => Kernel::GemvQ6CompactGlobal,
        9 => Kernel::GemvQ6CompactGlobal4way,
        10 => Kernel::GemvQ6CompactGlobal8way,
        11 => Kernel::GemvQ6CompactGlobalMcol,
        12 => Kernel::GemvQ8,
        13 => Kernel::GemvQ8Global,
        14 => Kernel::GemvQ40,
        15 => Kernel::GemvQ40Global,
        16 => Kernel::GemvQ40ExpertSlot,
        17 => Kernel::GemvQ40ExpertGateUp,
        18 => Kernel::GemvQ40ExpertGateUpQ8,
        19 => Kernel::GemvQ40ExpertDownScale,
        20 => Kernel::GemvF16ExpertGateUp,
        21 => Kernel::GemvF16ExpertDownScale,
        22 => Kernel::GemvF16ExpertGateUp4w,
        23 => Kernel::GemvF16ExpertDownScale4w,
        24 => Kernel::GemvQ40BmExpertGateUp,
        25 => Kernel::GemvQ40BmExpertDownScale,
        26 => Kernel::GemvQ40Qkv,
        27 => Kernel::GemvQ40Qkv2w,
        28 => Kernel::GemvQ40Pair,
        29 => Kernel::GemvQ40Ffn,
        30 => Kernel::GemvQ40ExpertGateUp2w,
        31 => Kernel::GemvQ40ExpertDownScale2w,
        32 => Kernel::GemvQ40ExpertGateUp4w,
        33 => Kernel::GemvQ40ExpertDownScale4w,
        34 => Kernel::GemvQ40ExpertGateUpF32,
        35 => Kernel::GemvQ40ExpertDownScaleF32,
        36 => Kernel::GemvQ8ExpertGateUp,
        37 => Kernel::GemvQ8ExpertDownScale,
        38 => Kernel::GemvQ4Splitk,
        39 => Kernel::GemvQ4GlobalSplitk,
        40 => Kernel::GemvQ5Splitk,
        41 => Kernel::GemvQ5kSplitk,
        42 => Kernel::GemvQ6Splitk,
        43 => Kernel::GemvQ6RepackSplitk,
        44 => Kernel::GemvQ6RepackGlobalSplitk,
        45 => Kernel::GemvQ6CompactGlobalSplitk,
        46 => Kernel::GemvQ8Splitk,
        47 => Kernel::GemvQ8GlobalSplitk,
        48 => Kernel::GemvSplitkReduce,
        49 => Kernel::GemvQ5Qk,
        50 => Kernel::GemvQ5Qkv,
        51 => Kernel::GemvQ4Pair,
        52 => Kernel::GemvQ4Dual,
        53 => Kernel::GemvQ4Ffn,
        54 => Kernel::GemvQ4Ffn8way,
        55 => Kernel::GemvQ4FfnMcol,
        56 => Kernel::GemvQ4FfnSmem,
        57 => Kernel::GemvQ4Qkv,
        58 => Kernel::GemvQ8Qkv,
        59 => Kernel::GemvQ8Gdn4way,
        60 => Kernel::GemvHybridGdn4way,
        61 => Kernel::GemvQ8QkvSplitk,
        62 => Kernel::GemvQ8Gdn4waySplitk,
        63 => Kernel::GemvHybridGdn4waySplitk,
        64 => Kernel::GemvSplitkReduceQkv,
        65 => Kernel::GemvSplitkReduceGdn4way,
        66 => Kernel::GemmQ4,
        67 => Kernel::GemmQ5,
        68 => Kernel::GemmQ5k,
        69 => Kernel::GemmQ6,
        70 => Kernel::GemmQ8,
        71 => Kernel::EmbedQ4,
        72 => Kernel::EmbedQ5,
        73 => Kernel::EmbedQ5k,
        74 => Kernel::EmbedQ6,
        75 => Kernel::EmbedQ8,
        76 => Kernel::EmbedQ40,
        77 => Kernel::EmbedQ4One,
        78 => Kernel::EmbedQ5One,
        79 => Kernel::EmbedQ5kOne,
        80 => Kernel::EmbedQ6One,
        81 => Kernel::EmbedQ8One,
        82 => Kernel::EmbedQ40One,
        83 => Kernel::EmbedQ4OneD,
        84 => Kernel::EmbedQ5OneD,
        85 => Kernel::EmbedQ5kOneD,
        86 => Kernel::EmbedQ6OneD,
        87 => Kernel::EmbedQ8OneD,
        88 => Kernel::EmbedQ40OneD,
        89 => Kernel::RmsNorm,
        90 => Kernel::MoeFfnPrep,
        91 => Kernel::AttnPrep,
        92 => Kernel::SiluMul,
        93 => Kernel::Add,
        94 => Kernel::ScaleAdd,
        95 => Kernel::ScaleAddSlot,
        96 => Kernel::GemvF32Rows,
        97 => Kernel::MoeRouterTopk,
        98 => Kernel::GemvQ8ExpertSlot,
        99 => Kernel::AddBias,
        100 => Kernel::Rope,
        101 => Kernel::RopeD,
        102 => Kernel::QkNormRope,
        103 => Kernel::QkNormRopeD,
        104 => Kernel::QkNormPartialRope,
        105 => Kernel::QkNormPartialRopeD,
        106 => Kernel::Sigmoid,
        107 => Kernel::SoftplusBiasScale,
        108 => Kernel::SoftplusBiasScaleRows,
        109 => Kernel::GdnPrepDecayBeta,
        110 => Kernel::CopyF32,
        111 => Kernel::ExpF,
        112 => Kernel::L2NormHeads,
        113 => Kernel::GatedRmsNorm,
        114 => Kernel::SplitQGate,
        115 => Kernel::MulSigmoid,
        116 => Kernel::CausalConv1d,
        117 => Kernel::CausalConv1dOne,
        118 => Kernel::GatedDeltaSeq,
        119 => Kernel::GatedDeltaOne,
        120 => Kernel::GdnConvQkvl2One,
        121 => Kernel::GdnDeltaGatedOne,
        122 => Kernel::GdnDeltaGatedOneD128,
        123 => Kernel::GdnSplitL2Seq,
        124 => Kernel::GdnDeltaGatedSeq,
        125 => Kernel::SplitQkvConv,
        126 => Kernel::SplitQkvL2One,
        127 => Kernel::ZeroF32,
        128 => Kernel::CopyKv,
        129 => Kernel::CopyKvD,
        130 => Kernel::Argmax,
        131 => Kernel::ArgmaxRows,
        132 => Kernel::CopyLast,
        133 => Kernel::AttnFastV2,
        134 => Kernel::AttnFastV2D,
        135 => Kernel::AttnFlashPartial,
        136 => Kernel::AttnFlashPartialD,
        137 => Kernel::AttnFlashReduce,
        138 => Kernel::AttnFastV1,
        139 => Kernel::AttnBasicF32,
        _ => Kernel::AttnOnlineF32,
    }
}

/// A kernel and its name in the compiled module.
pub struct Loaded {
    pub kernel: Kernel,
    pub symbol: &'static str,
}

/// The kernels to load, and their names.
pub struct Kernels {
    pub loaded: Vec<Loaded>,
}

impl Kernels {
    /// What is loaded: every kernel once, under its name.
    pub fn load(tuning: GemvTuning) -> (r: Kernels)
        ensures
            r.loaded@.len() == N_KERNELS,
            forall|i: int|
                0 <= i < N_KERNELS ==> (#[trigger] r.loaded@[i]).kernel.place() == i
                    && r.loaded@[i].symbol@ == r.loaded@[i].kernel.name(tuning),
            forall|k: Kernel| r.loaded@[#[trigger] k.place()].kernel == k,
    {
        let mut loaded: Vec<Loaded> = Vec::new();
        let mut i: u32 = 0;
        while i < N_KERNELS
            invariant
                i <= N_KERNELS,
                loaded@.len() == i,
                forall|k: int|
                    0 <= k < i ==> (#[trigger] loaded@[k]).kernel.place() == k
                        && loaded@[k].symbol@ == loaded@[k].kernel.name(tuning),
            decreases N_KERNELS - i,
        {
            let kernel: Kernel = kernel_at(i);
            loaded.push(Loaded { kernel, symbol: kernel.symbol(tuning) });
            i = i + 1;
        }
        proof {
            assert forall|k: Kernel| loaded@[#[trigger] k.place()].kernel == k by {
                law_places_differ(loaded@[k.place()].kernel, k);
            }
        }
        Kernels { loaded }
    }
}

/// No two kernels share a place.
pub proof fn law_places_differ(a: Kernel, b: Kernel)
    ensures
        0 <= a.place() < N_KERNELS,
        a.place() == b.place() ==> a == b,
{
}

/// The attention kernel of that name.
pub open spec fn attn_named(symbol: Seq<char>) -> Option<Kernel> {
    if symbol == "attn_fast_v2"@ {
        Some(Kernel::AttnFastV2)
    } else if symbol == "attn_fast_v2_d"@ {
        Some(Kernel::AttnFastV2D)
    } else if symbol == "attn_flash_partial"@ {
        Some(Kernel::AttnFlashPartial)
    } else if symbol == "attn_flash_partial_d"@ {
        Some(Kernel::AttnFlashPartialD)
    } else if symbol == "attn_flash_reduce"@ {
        Some(Kernel::AttnFlashReduce)
    } else if symbol == "attn_fast_v1"@ {
        Some(Kernel::AttnFastV1)
    } else if symbol == "attn_basic_f32"@ {
        Some(Kernel::AttnBasicF32)
    } else if symbol == "attn_online_f32"@ {
        Some(Kernel::AttnOnlineF32)
    } else {
        None
    }
}

/// The attention kernel of that name, where there is one.
pub fn attn(symbol: &str) -> (r: Option<Kernel>)
    ensures
        r == attn_named(symbol@),
        r matches Some(k) ==> forall|t: GemvTuning| k.name(t) == symbol@,
{
    if same_text(symbol, "attn_fast_v2") {
        Some(Kernel::AttnFastV2)
    } else if same_text(symbol, "attn_fast_v2_d") {
        Some(Kernel::AttnFastV2D)
    } else if same_text(symbol, "attn_flash_partial") {
        Some(Kernel::AttnFlashPartial)
    } else if same_text(symbol, "attn_flash_partial_d") {
        Some(Kernel::AttnFlashPartialD)
    } else if same_text(symbol, "attn_flash_reduce") {
        Some(Kernel::AttnFlashReduce)
    } else if same_text(symbol, "attn_fast_v1") {
        Some(Kernel::AttnFastV1)
    } else if same_text(symbol, "attn_basic_f32") {
        Some(Kernel::AttnBasicF32)
    } else if same_text(symbol, "attn_online_f32") {
        Some(Kernel::AttnOnlineF32)
    } else {
        None
    }
}

/// The architecture that kernels are compiled for.
pub open spec fn arch_name(major: int, minor: int) -> Seq<char> {
    "sm_"@ + signed_decimal(major) + signed_decimal(minor)
}

/// The architecture that kernels are compiled for.
pub fn nvrtc_arch(cc_major: i32, cc_minor: i32) -> (r: String)
    ensures
        r@ == arch_name(cc_major as int, cc_minor as int),
{
    let mut out: String = String::new();
    out.append("sm_");
    out.append(signed_string(cc_major as i64).as_str());
    out.append(signed_string(cc_minor as i64).as_str());
    proof {
        assert(out@ == arch_name(cc_major as int, cc_minor as int));
    }
    out
}

/// The name of the card: what it says, or else its number and architecture.
pub fn gpu_name(said: Option<&str>, cc_major: i32, cc_minor: i32) -> (r: String)
    ensures
        r@ == (match said {
            Some(s) => s@,
            None => "CUDA device 0 ("@ + arch_name(cc_major as int, cc_minor as int) + ")"@,
        }),
{
    match said {
        Some(s) => s.to_owned(),
        None => {
            let mut out: String = String::new();
            out.append("CUDA device 0 (");
            out.append(nvrtc_arch(cc_major, cc_minor).as_str());
            out.append(")");
            proof {
                assert(out@ == "CUDA device 0 ("@ + arch_name(cc_major as int, cc_minor as int)
                    + ")"@);
            }
            out
        },
    }
}

/// The option that asks the compiler for an architecture.
pub fn arch_option(arch: &str) -> (r: String)
    ensures
        r@ == "--gpu-architecture="@ + arch@,
{
    let mut out: String = String::new();
    out.append("--gpu-architecture=");
    out.append(arch);
    proof {
        assert(out@ == "--gpu-architecture="@ + arch@);
    }
    out
}

/// A kernel that reads its position or token on the card is called after the kernel that it stands for.
pub proof fn law_names_on_card(t: GemvTuning)
    ensures
        Kernel::RopeD.name(t) == Kernel::Rope.name(t) + "_d"@,
        Kernel::QkNormRopeD.name(t) == Kernel::QkNormRope.name(t) + "_d"@,
        Kernel::QkNormPartialRopeD.name(t) == Kernel::QkNormPartialRope.name(t) + "_d"@,
        Kernel::CopyKvD.name(t) == Kernel::CopyKv.name(t) + "_d"@,
        Kernel::AttnFastV2D.name(t) == Kernel::AttnFastV2.name(t) + "_d"@,
        Kernel::AttnFlashPartialD.name(t) == Kernel::AttnFlashPartial.name(t) + "_d"@,
{
    reveal_strlit("_d");
    assert("rope_neox_f32_d"@ =~= "rope_neox_f32"@ + "_d"@) by {
        reveal_strlit("rope_neox_f32_d");
        reveal_strlit("rope_neox_f32");
    }
    assert("qk_rms_norm_rope_neox_f32_d"@ =~= "qk_rms_norm_rope_neox_f32"@ + "_d"@) by {
        reveal_strlit("qk_rms_norm_rope_neox_f32_d");
        reveal_strlit("qk_rms_norm_rope_neox_f32");
    }
    assert("qk_rms_norm_partial_rope_neox_f32_d"@ =~= "qk_rms_norm_partial_rope_neox_f32"@ + "_d"@) by {
        reveal_strlit("qk_rms_norm_partial_rope_neox_f32_d");
        reveal_strlit("qk_rms_norm_partial_rope_neox_f32");
    }
    assert("copy_kv_f16_d"@ =~= "copy_kv_f16"@ + "_d"@) by {
        reveal_strlit("copy_kv_f16_d");
        reveal_strlit("copy_kv_f16");
    }
    assert("attn_fast_v2_d"@ =~= "attn_fast_v2"@ + "_d"@) by {
        reveal_strlit("attn_fast_v2_d");
        reveal_strlit("attn_fast_v2");
    }
    assert("attn_flash_partial_d"@ =~= "attn_flash_partial"@ + "_d"@) by {
        reveal_strlit("attn_flash_partial_d");
        reveal_strlit("attn_flash_partial");
    }
}

/// A kernel that works in parts is called after the kernel that it stands for.
pub proof fn law_names_in_parts(t: GemvTuning)
    ensures
        Kernel::GemvQ4Splitk.name(t) == Kernel::GemvQ4.name(t) + "_splitk"@,
        Kernel::GemvQ4GlobalSplitk.name(t) == Kernel::GemvQ4Global.name(t) + "_splitk"@,
        Kernel::GemvQ5Splitk.name(t) == Kernel::GemvQ5.name(t) + "_splitk"@,
        Kernel::GemvQ5kSplitk.name(t) == Kernel::GemvQ5k.name(t) + "_splitk"@,
        Kernel::GemvQ6Splitk.name(t) == Kernel::GemvQ6.name(t) + "_splitk"@,
        Kernel::GemvQ6RepackSplitk.name(t) == Kernel::GemvQ6Repack.name(t) + "_splitk"@,
        Kernel::GemvQ6RepackGlobalSplitk.name(t) == Kernel::GemvQ6RepackGlobal.name(t) + "_splitk"@,
        Kernel::GemvQ6CompactGlobalSplitk.name(t) == Kernel::GemvQ6CompactGlobal.name(t) + "_splitk"@,
        Kernel::GemvQ8Splitk.name(t) == Kernel::GemvQ8.name(t) + "_splitk"@,
        Kernel::GemvQ8GlobalSplitk.name(t) == Kernel::GemvQ8Global.name(t) + "_splitk"@,
        Kernel::GemvQ8QkvSplitk.name(t) == Kernel::GemvQ8Qkv.name(t) + "_splitk"@,
        Kernel::GemvQ8Gdn4waySplitk.name(t) == Kernel::GemvQ8Gdn4way.name(t) + "_splitk"@,
        Kernel::GemvHybridGdn4waySplitk.name(t) == Kernel::GemvHybridGdn4way.name(t) + "_splitk"@,
{
    reveal_strlit("_splitk");
    assert("gemv_q4_k_splitk"@ =~= "gemv_q4_k"@ + "_splitk"@) by {
        reveal_strlit("gemv_q4_k_splitk");
        reveal_strlit("gemv_q4_k");
    }
    assert("gemv_q4_k_global_splitk"@ =~= "gemv_q4_k_global"@ + "_splitk"@) by {
        reveal_strlit("gemv_q4_k_global_splitk");
        reveal_strlit("gemv_q4_k_global");
    }
    assert("gemv_q5_0_splitk"@ =~= "gemv_q5_0"@ + "_splitk"@) by {
        reveal_strlit("gemv_q5_0_splitk");
        reveal_strlit("gemv_q5_0");
    }
    assert("gemv_q5_k_splitk"@ =~= "gemv_q5_k"@ + "_splitk"@) by {
        reveal_strlit("gemv_q5_k_splitk");
        reveal_strlit("gemv_q5_k");
    }
    assert("gemv_q6_k_splitk"@ =~= "gemv_q6_k"@ + "_splitk"@) by {
        reveal_strlit("gemv_q6_k_splitk");
        reveal_strlit("gemv_q6_k");
    }
    assert("gemv_q6_k_repack_splitk"@ =~= "gemv_q6_k_repack"@ + "_splitk"@) by {
        reveal_strlit("gemv_q6_k_repack_splitk");
        reveal_strlit("gemv_q6_k_repack");
    }
    assert("gemv_q6_k_repack_global_splitk"@ =~= "gemv_q6_k_repack_global"@ + "_splitk"@) by {
        reveal_strlit("gemv_q6_k_repack_global_splitk");
        reveal_strlit("gemv_q6_k_repack_global");
    }
    assert("gemv_q6_k_compact_global_splitk"@ =~= "gemv_q6_k_compact_global"@ + "_splitk"@) by {
        reveal_strlit("gemv_q6_k_compact_global_splitk");
        reveal_strlit("gemv_q6_k_compact_global");
    }
    assert("gemv_q8_0_splitk"@ =~= "gemv_q8_0"@ + "_splitk"@) by {
        reveal_strlit("gemv_q8_0_splitk");
        reveal_strlit("gemv_q8_0");
    }
    assert("gemv_q8_0_global_splitk"@ =~= "gemv_q8_0_global"@ + "_splitk"@) by {
        reveal_strlit("gemv_q8_0_global_splitk");
        reveal_strlit("gemv_q8_0_global");
    }
    assert("gemv_q8_0_qkv_splitk"@ =~= "gemv_q8_0_qkv"@ + "_splitk"@) by {
        reveal_strlit("gemv_q8_0_qkv_splitk");
        reveal_strlit("gemv_q8_0_qkv");
    }
    assert("gemv_q8_0_gdn_4way_splitk"@ =~= "gemv_q8_0_gdn_4way"@ + "_splitk"@) by {
        reveal_strlit("gemv_q8_0_gdn_4way_splitk");
        reveal_strlit("gemv_q8_0_gdn_4way");
    }
    assert("gemv_hybrid_gdn_4way_splitk"@ =~= "gemv_hybrid_gdn_4way"@ + "_splitk"@) by {
        reveal_strlit("gemv_hybrid_gdn_4way_splitk");
        reveal_strlit("gemv_hybrid_gdn_4way");
    }
}

/// A kernel for one token is called after the kernel that it stands for.
pub proof fn law_names_one_token(t: GemvTuning)
    ensures
        Kernel::EmbedQ4One.name(t) == Kernel::EmbedQ4.name(t) + "_one"@,
        Kernel::EmbedQ5One.name(t) == Kernel::EmbedQ5.name(t) + "_one"@,
        Kernel::EmbedQ5kOne.name(t) == Kernel::EmbedQ5k.name(t) + "_one"@,
        Kernel::EmbedQ6One.name(t) == Kernel::EmbedQ6.name(t) + "_one"@,
        Kernel::EmbedQ8One.name(t) == Kernel::EmbedQ8.name(t) + "_one"@,
        Kernel::EmbedQ40One.name(t) == Kernel::EmbedQ40.name(t) + "_one"@,
{
    reveal_strlit("_one");
    assert("embed_q4_k_one"@ =~= "embed_q4_k"@ + "_one"@) by {
        reveal_strlit("embed_q4_k_one");
        reveal_strlit("embed_q4_k");
    }
    assert("embed_q5_0_one"@ =~= "embed_q5_0"@ + "_one"@) by {
        reveal_strlit("embed_q5_0_one");
        reveal_strlit("embed_q5_0");
    }
    assert("embed_q5_k_one"@ =~= "embed_q5_k"@ + "_one"@) by {
        reveal_strlit("embed_q5_k_one");
        reveal_strlit("embed_q5_k");
    }
    assert("embed_q6_k_one"@ =~= "embed_q6_k"@ + "_one"@) by {
        reveal_strlit("embed_q6_k_one");
        reveal_strlit("embed_q6_k");
    }
    assert("embed_q8_0_one"@ =~= "embed_q8_0"@ + "_one"@) by {
        reveal_strlit("embed_q8_0_one");
        reveal_strlit("embed_q8_0");
    }
    assert("embed_q4_0_one"@ =~= "embed_q4_0"@ + "_one"@) by {
        reveal_strlit("embed_q4_0_one");
        reveal_strlit("embed_q4_0");
    }
}

} // verus!
