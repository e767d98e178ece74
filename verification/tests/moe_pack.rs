//! Packs of sparse models.
use taraference::cuda::decode::DecodeBackend;
use taraference::cuda::device::GemvTuning;
use taraference::cuda::layer::{Flags, LayerFfn};
use taraference::cuda::load::Setup;
use taraference::cuda::matmul::WType;
use taraference::cuda::model::CudaModel;
use taraference::cuda::moe_pack::{
    has_fitting_file, no_files, no_listing, PackFileMeta, PackLayerMeta, PackMeta, PackOptions,
};

fn options() -> PackOptions {
    PackOptions {
        n_ctx: None,
        strict_ctx: false,
        full_vocab: false,
        vocab_limit: None,
        speed: false,
        align: false,
        experts_f16: false,
        experts_bm: false,
    }
}

fn meta() -> PackMeta {
    PackMeta {
        format: "tara_moe_q8_v1".to_string(),
        quant: None,
        mode: None,
        arch: "tara_moe_141".to_string(),
        n_vocab: 16,
        n_embd: 32,
        n_layer: 1,
        n_head: 2,
        n_head_kv: 1,
        n_ff: 32,
        n_experts: 2,
        router_top_k: 1,
        router_weight_mode: None,
        expert_ff: 32,
        num_dense_layers: 0,
        rope_theta: 10_000.0f32.to_bits(),
        rms_eps: 1e-6f32.to_bits(),
        n_ctx: 512,
        head_dim: 16,
        layers: vec![PackLayerMeta { i: 0, kind: "moe".to_string() }],
        files: no_listing(),
    }
}

fn setup() -> Setup {
    Setup {
        decode: DecodeBackend::default(),
        tuning: GemvTuning::from_cc(8, None),
        flags: Flags {
            identity: false,
            skip_linear: false,
            no_out_gate: false,
            q_gate_half: false,
            no_rope: false,
            full_rope: false,
            gdn_legacy: false,
            gdn_no_4way: false,
            moe_4w: false,
            moe_2w: false,
            moe_gate_q8: false,
            moe_classic: false,
            moe_topk: None,
            speed: false,
            gemv_warps: None,
        },
        skip_ffn: None,
    }
}

fn message(m: &PackMeta) -> String {
    m.check().unwrap_err().message()
}

#[test]
fn packs_are_checked() {
    assert!(meta().check().is_ok());
    assert!(!meta().is_q4());
    let mut m = meta();
    m.format = "other\n".to_string();
    assert_eq!(
        message(&m),
        "unsupported pack format \"other\\n\" (want tara_moe_q8_v1 or tara_moe_q4_v1)"
    );
    let mut m = meta();
    m.n_embd = 33;
    assert_eq!(message(&m), "n_embd=33 must be multiple of 32 for Q8_0");
    let mut m = meta();
    m.expert_ff = 31;
    assert_eq!(message(&m), "expert_ff=31 must be multiple of 32 for Q8_0");
    let mut m = meta();
    m.n_experts = 65;
    assert_eq!(message(&m), "n_experts=65 must be in 1..=64 for CUDA MoE");
    let mut m = meta();
    m.router_top_k = 3;
    assert_eq!(message(&m), "router_top_k=3 must be in 1..=min(n_experts, 8)");
    let mut m = meta();
    m.router_weight_mode = Some("x".to_string());
    assert_eq!(message(&m), "unknown router weight mode x");
}

#[test]
fn a_pack_has_hyper_parameters() {
    let c = meta().config(&options()).unwrap();
    assert_eq!((c.n_ctx, c.n_experts, c.router_top_k), (1024, 2, 1));
    let mut o = options();
    o.strict_ctx = true;
    assert_eq!(meta().config(&o).unwrap().n_ctx, 512);
    o.n_ctx = Some(300);
    assert_eq!(meta().config(&o).unwrap().n_ctx, 300);
    assert!(!meta().is_dense(0));
    assert!(meta().has_fitting_sizes());
}

#[test]
fn missing_files_are_named() {
    let m = meta();
    let files = no_files();
    let e = CudaModel::load_tara_moe_pack(&m, &files, setup(), &options()).err().unwrap();
    assert_eq!(e.message(), "meta.files missing token_embd.q4 or token_embd.q8");
    let mut m = meta();
    m.files.insert(
        "token_embd.q8".to_string(),
        PackFileMeta { n_rows: 32, n_cols: 16, nbytes: 544 },
    );
    let e = CudaModel::load_tara_moe_pack(&m, &files, setup(), &options()).err().unwrap();
    assert_eq!(e.message(), "read token_embd.q8");
}

#[test]
fn a_pack_is_loaded() {
    let mut m = meta();
    let bytes: Vec<u8> = (0..60_000u32).map(|i| (i % 253) as u8).collect();
    let mut files = no_files();
    for (name, rows, cols) in [
        ("token_embd.q8", 32, 16),
        ("blk.0.attn_q.q8", 32, 32),
        ("blk.0.attn_k.q8", 32, 16),
        ("blk.0.attn_v.q8", 32, 16),
        ("blk.0.attn_o.q8", 32, 32),
        ("blk.0.exp0.ffn_gate.q8", 32, 32),
        ("blk.0.exp1.ffn_gate.q8", 32, 32),
        ("blk.0.exp0.ffn_up.q8", 32, 32),
        ("blk.0.exp1.ffn_up.q8", 32, 32),
        ("blk.0.exp0.ffn_down.q8", 32, 32),
        ("blk.0.exp1.ffn_down.q8", 32, 32),
    ] {
        let n = rows / 32 * 34 * cols;
        let f = PackFileMeta { n_rows: rows, n_cols: cols, nbytes: n };
        assert!(has_fitting_file(&f));
        m.files.insert(name.to_string(), f);
        files.insert(name.to_string(), &bytes[..n]);
    }
    for (name, n) in [
        ("output_norm.f32", 32),
        ("blk.0.attn_norm.f32", 32),
        ("blk.0.ffn_norm.f32", 32),
        ("blk.0.router.f32", 64),
    ] {
        files.insert(name.to_string(), &bytes[..n * 4]);
    }
    let loaded = CudaModel::load_tara_moe_pack(&m, &files, setup(), &options());
    let p = match loaded {
        Ok(p) => p,
        Err(e) => panic!("{}", e.message()),
    };
    assert_eq!(p.embd.mat.wtype, WType::Q8_0);
    assert_eq!(p.embd.bytes.len(), 544);
    assert_eq!(p.model.layers.len(), 1);
    match p.model.layers[0].ffn {
        LayerFfn::Moe(w) => {
            assert_eq!((w.n_experts, w.top_k, w.expert_ff), (2, 1, 32));
            assert_eq!(w.gate_all.n_cols, 64);
        },
        other => panic!("{other:?}"),
    }
    assert!(p.model.is_ready(1));
}
