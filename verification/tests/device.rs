//! What the card decides.
use taraference::cuda::device::GemvTuning;

#[test]
fn ampere_uses_4way_and_16_warps() {
    let t = GemvTuning::from_cc(8, None);
    assert!(t.q4_dual_4way);
    assert_eq!(t.q4_dual_threads, 128);
    assert_eq!(t.gemv_quantized_warps, 16);
    assert_eq!(t.q4_dual_symbol(), "gemv_q4_k_dual_4way");
    assert_eq!(t.q4_ffn_symbol(), "gemv_q4_k_ffn_4way");
    assert_eq!(t.q4_ffn_smem_symbol(), "gemv_q4_k_ffn_4way_smem");
}

#[test]
fn turing_uses_2way_and_32_warps() {
    let t = GemvTuning::from_cc(7, None);
    assert!(!t.q4_dual_4way);
    assert_eq!(t.q4_dual_threads, 64);
    assert_eq!(t.gemv_quantized_warps, 32);
    assert_eq!(t.q4_dual_symbol(), "gemv_q4_k_dual");
    assert_eq!(t.q4_ffn_symbol(), "gemv_q4_k_ffn");
    assert_eq!(t.q4_ffn_smem_symbol(), "gemv_q4_k_ffn");
}

#[test]
fn warps_override_clamped_to_valid_range() {
    assert_eq!(GemvTuning::from_cc(8, Some(8)).gemv_quantized_warps, 8);
    assert_eq!(GemvTuning::from_cc(8, Some(32)).gemv_quantized_warps, 32);
    // Out of range: the default of the architecture.
    assert_eq!(GemvTuning::from_cc(8, Some(0)).gemv_quantized_warps, 16);
    assert_eq!(GemvTuning::from_cc(8, Some(64)).gemv_quantized_warps, 16);
    assert_eq!(GemvTuning::from_cc(7, Some(0)).gemv_quantized_warps, 32);
}
