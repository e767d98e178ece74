//! Families of models and the context that each of them gets.
use taraference::backend::BackendKind;
use taraference::config::{LayerKind, ModelConfig, RouterWeightMode};
use taraference::gguf::value::FloatBits;

fn cfg(architecture: &str, experts: usize) -> ModelConfig {
    ModelConfig {
        architecture: architecture.into(),
        n_vocab: 32,
        n_embd: 16,
        n_layer: 1,
        n_head: 1,
        n_head_kv: 1,
        attention_head_dim: 16,
        no_rope_layer_interval: 0,
        n_ff: 32,
        n_ctx: 4096,
        rope_theta: FloatBits::Single(10_000.0f32.to_bits()),
        rms_eps: FloatBits::Single(1e-6f32.to_bits()),
        rope_dim: 16,
        fused_q_gate: false,
        ssm_conv_kernel: 0,
        ssm_state_size: 0,
        ssm_n_k_heads: 0,
        ssm_n_v_heads: 0,
        ssm_inner_size: 0,
        layer_kinds: vec![LayerKind::FullAttention],
        n_experts: experts,
        router_top_k: usize::from(experts > 0),
        router_weight_mode: RouterWeightMode::SelectedSoftmax,
        expert_ff: 32,
        num_dense_layers: usize::from(experts == 0),
    }
}

#[test]
fn dispatches_architecture_families() {
    assert_eq!(BackendKind::from_config(&cfg("qwen35", 0)), BackendKind::Qwen35);
    assert_eq!(BackendKind::from_config(&cfg("qwen2", 0)), BackendKind::Qwen2);
    assert_eq!(BackendKind::from_config(&cfg("llama", 2)), BackendKind::TaraMoe);
    assert_eq!(BackendKind::from_config(&cfg("tara_moe_141", 4)), BackendKind::Tara141);
}

#[test]
fn tara_policy_does_not_inherit_qwen_context_cap() {
    assert_eq!(BackendKind::TaraMoe.max_seq(4096, 4096, 3 * 1024 * 1024 * 1024, false), 4096);
}

#[test]
fn large_qwen35_gets_a_short_context() {
    let gib: u64 = 1024 * 1024 * 1024;
    assert_eq!(BackendKind::Qwen35.max_seq(4096, 8192, 3 * gib, false), 1024);
    assert_eq!(BackendKind::Qwen35.max_seq(4096, 8192, 3 * gib, true), 4096);
    assert_eq!(BackendKind::Qwen35.max_seq(4096, 8192, gib, false), 4096);
    assert_eq!(BackendKind::Qwen35.max_seq(9000, 8192, gib, false), 8192);
}

#[test]
fn families_have_names() {
    assert_eq!(BackendKind::Qwen35.name(), "qwen3.5-hybrid");
    assert_ne!(BackendKind::Tara141.name(), BackendKind::TaraMoe.name());
}
