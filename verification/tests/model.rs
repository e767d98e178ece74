//! A small model: its configuration, its matrices and what it launches.
use taraference::config::{has_heads, LayerKind, ModelConfig};
use taraference::cuda::decode::DecodeBackend;
use taraference::cuda::device::{GemvTuning, Kernel, Kernels};
use taraference::cuda::forward::{
    card_ids, token_ids, CaptureStep, Chunk, Forward, ForwardError, RowsError,
};
use taraference::cuda::kv::CudaKv;
use taraference::cuda::launch::{Arg, Buf, MatId, Part};
use taraference::cuda::layer::{
    decode_should_skip_ffn, Flags, LayerAttn, LayerFfn,
};
use taraference::cuda::load::{
    all_mats, blk_name, class_of, count_class, f32_host, load_head, load_mat, takes_one,
    LoadOptions, Setup,
};
use taraference::cuda::matmul::{
    gemv_baseline, gemv_n_split, quantize_q8, Card, GemvResidual, GpuMat, WType,
};
use taraference::cuda::model::{
    has_fitting_cache, has_fitting_sides, has_fitting_state, CudaModel, Widths,
};
use taraference::gguf::reader::GgufFile;

fn text(out: &mut Vec<u8>, s: &str) {
    out.extend_from_slice(&(s.len() as u64).to_le_bytes());
    out.extend_from_slice(s.as_bytes());
}

struct Builder {
    pairs: Vec<u8>,
    n_pairs: u64,
    tensors: Vec<u8>,
    n_tensors: u64,
    data: Vec<u8>,
}

impl Builder {
    fn new() -> Builder {
        Builder { pairs: vec![], n_pairs: 0, tensors: vec![], n_tensors: 0, data: vec![] }
    }

    fn number(&mut self, key: &str, n: u32) {
        text(&mut self.pairs, key);
        self.pairs.extend_from_slice(&4u32.to_le_bytes());
        self.pairs.extend_from_slice(&n.to_le_bytes());
        self.n_pairs += 1;
    }

    fn string(&mut self, key: &str, s: &str) {
        text(&mut self.pairs, key);
        self.pairs.extend_from_slice(&8u32.to_le_bytes());
        text(&mut self.pairs, s);
        self.n_pairs += 1;
    }

    fn tensor(&mut self, name: &str, dims: &[u64], id: u32, bytes: usize) {
        text(&mut self.tensors, name);
        self.tensors.extend_from_slice(&(dims.len() as u32).to_le_bytes());
        for d in dims {
            self.tensors.extend_from_slice(&d.to_le_bytes());
        }
        self.tensors.extend_from_slice(&id.to_le_bytes());
        self.tensors.extend_from_slice(&(self.data.len() as u64).to_le_bytes());
        self.n_tensors += 1;
        let from = self.data.len();
        for i in 0..bytes {
            self.data.push(((from + i) % 7) as u8);
        }
        while self.data.len() % 32 != 0 {
            self.data.push(0);
        }
    }

    fn finish(self) -> Vec<u8> {
        let mut out = Vec::new();
        out.extend_from_slice(b"GGUF");
        out.extend_from_slice(&3u32.to_le_bytes());
        out.extend_from_slice(&self.n_tensors.to_le_bytes());
        out.extend_from_slice(&self.n_pairs.to_le_bytes());
        out.extend_from_slice(&self.pairs);
        out.extend_from_slice(&self.tensors);
        while out.len() % 32 != 0 {
            out.push(0);
        }
        out.extend_from_slice(&self.data);
        out
    }
}

/// One softmax layer, Q8_0 throughout: 64 wide, two heads of 32.
fn small() -> Builder {
    let mut b = Builder::new();
    b.string("general.architecture", "qwen2");
    b.number("qwen2.embedding_length", 64);
    b.number("qwen2.block_count", 1);
    b.number("qwen2.attention.head_count", 2);
    b.number("qwen2.attention.head_count_kv", 1);
    b.number("qwen2.feed_forward_length", 96);
    b.number("qwen2.context_length", 512);
    b.number("tokenizer.ggml.eos_token_id", 3);
    let q8 = |rows: usize, cols: usize| rows / 32 * 34 * cols;
    b.tensor("token_embd.weight", &[64, 8], 8, q8(64, 8));
    b.tensor("output_norm.weight", &[64], 0, 256);
    b.tensor("blk.0.attn_norm.weight", &[64], 0, 256);
    b.tensor("blk.0.attn_q.weight", &[64, 64], 8, q8(64, 64));
    b.tensor("blk.0.attn_q.bias", &[64], 0, 256);
    b.tensor("blk.0.attn_k.weight", &[64, 32], 8, q8(64, 32));
    b.tensor("blk.0.attn_v.weight", &[64, 32], 8, q8(64, 32));
    b.tensor("blk.0.attn_output.weight", &[64, 64], 8, q8(64, 64));
    b.tensor("blk.0.ffn_norm.weight", &[64], 0, 256);
    b.tensor("blk.0.ffn_gate.weight", &[64, 96], 8, q8(64, 96));
    b.tensor("blk.0.ffn_up.weight", &[64, 96], 8, q8(64, 96));
    b.tensor("blk.0.ffn_down.weight", &[96, 64], 8, q8(96, 64));
    b
}

fn flags() -> Flags {
    Flags {
        identity: false,
        skip_linear: false,
        no_out_gate: false,
        q_gate_half: false,
        no_rope: false,
        full_rope: false,
        gdn_legacy: false,
        gdn_no_4way: false,
        moe_4w: false,
        moe_2w: false,
        moe_gate_q8: false,
        moe_classic: false,
        moe_topk: None,
        speed: false,
        gemv_warps: None,
    }
}

fn options() -> LoadOptions {
    LoadOptions {
        q5k_native: false,
        q5k_transcode: false,
        rms_one_plus: false,
        full_vocab: false,
        vocab_limit: None,
    }
}

fn load(bytes: &[u8]) -> CudaModel {
    let f = GgufFile::open("m".to_string(), bytes).unwrap();
    assert!(has_heads(&f));
    let cfg = ModelConfig::from_gguf(&f).unwrap();
    assert!(has_fitting_sides(&cfg) && has_fitting_state(&cfg));
    let setup = Setup {
        decode: DecodeBackend::default(),
        tuning: GemvTuning::from_cc(8, None),
        flags: flags(),
        skip_ffn: None,
    };
    CudaModel::load_with(&f, cfg, setup, &options()).unwrap()
}

fn cache(len: usize, max_seq: usize) -> CudaKv {
    CudaKv { is_full: vec![true], len, max_seq }
}

#[test]
fn a_configuration_is_read() {
    let b = small().finish();
    let f = GgufFile::open("m".to_string(), &b).unwrap();
    let c = ModelConfig::from_gguf(&f).unwrap();
    assert_eq!((c.n_embd, c.n_layer, c.n_head, c.n_head_kv), (64, 1, 2, 1));
    assert_eq!((c.head_dim(), c.n_ff, c.n_ctx, c.n_vocab), (32, 96, 512, 8));
    assert_eq!(c.layer_kinds, vec![LayerKind::FullAttention]);
    assert!(!c.is_hybrid() && !c.is_moe());
    assert_eq!(c.q_proj_dim(), 64);
}

#[test]
fn a_configuration_needs_its_keys() {
    let mut b = Builder::new();
    b.string("general.architecture", "qwen2");
    b.number("qwen2.embedding_length", 64);
    let bytes = b.finish();
    let f = GgufFile::open("m".to_string(), &bytes).unwrap();
    assert!(has_heads(&f));
    let e = ModelConfig::from_gguf(&f).unwrap_err();
    assert_eq!(e.message(), "missing qwen2.block_count");
    let bytes = Builder::new().finish();
    let f = GgufFile::open("m".to_string(), &bytes).unwrap();
    let e = ModelConfig::from_gguf(&f).unwrap_err();
    assert_eq!(e.message(), "missing general.architecture");
}

#[test]
fn unequal_heads_are_refused() {
    let mut b = small();
    b.number("qwen2.attention.key_length", 32);
    b.number("qwen2.attention.value_length", 16);
    let bytes = b.finish();
    let f = GgufFile::open("m".to_string(), &bytes).unwrap();
    let e = ModelConfig::from_gguf(&f).unwrap_err();
    assert_eq!(
        e.message(),
        "different attention key/value lengths are unsupported: key=32, value=16"
    );
    let mut b = Builder::new();
    b.string("general.architecture", "x");
    b.number("x.embedding_length", 64);
    b.number("x.block_count", 1);
    b.number("x.attention.head_count", 0);
    let bytes = b.finish();
    let f = GgufFile::open("m".to_string(), &bytes).unwrap();
    assert!(!has_heads(&f));
}

#[test]
fn a_hybrid_model_mixes_layers() {
    let mut b = Builder::new();
    b.string("general.architecture", "qwen35");
    for (k, n) in [
        ("embedding_length", 64),
        ("block_count", 5),
        ("attention.head_count", 2),
        ("feed_forward_length", 96),
        ("vocab_size", 8),
        ("ssm.state_size", 16),
        ("ssm.group_count", 2),
        ("ssm.time_step_rank", 4),
    ] {
        b.number(&format!("qwen35.{k}"), n);
    }
    let bytes = b.finish();
    let f = GgufFile::open("m".to_string(), &bytes).unwrap();
    let c = ModelConfig::from_gguf(&f).unwrap();
    let linear: Vec<bool> = (0..5).map(|i| c.is_linear_layer(i)).collect();
    assert_eq!(linear, vec![true, true, true, false, true]);
    assert_eq!((c.ssm_key_dim(), c.ssm_value_dim(), c.ssm_conv_channels()), (32, 64, 128));
    assert_eq!((c.ssm_state_elems(), c.ssm_conv_state_elems()), (1024, 384));
    assert_eq!(c.q_proj_dim(), 128);
    assert!(has_fitting_cache(&c, 100));
    let mut big = c;
    big.ssm_state_size = usize::MAX;
    assert!(!has_fitting_state(&big));
    assert!(!has_fitting_cache(&big, 100));
}

#[test]
fn a_model_is_loaded() {
    let b = small().finish();
    let m = load(&b);
    assert_eq!(m.layers.len(), 1);
    match m.layers[0].attn {
        LayerAttn::Full(a) => {
            assert!(a.bq && !a.bk && !a.bv && !a.attn_q_norm && !a.fused_q_gate);
            assert_eq!((a.wq.n_rows, a.wq.n_cols, a.wq.col_bytes), (64, 64, 68));
            assert_eq!(a.wq.wtype, WType::Q8_0);
        },
        other => panic!("{other:?}"),
    }
    assert!(matches!(m.layers[0].ffn, LayerFfn::Dense { .. }));
    assert!(m.head.output.is_none());
    assert_eq!(m.card.partial_stride, 96);
    assert!(m.cuda_graph && !m.graph_tried && !m.graph_active());
    assert!(m.is_ready(1) && m.is_ready(5));
    let mats = all_mats(&m.head, &m.layers);
    assert_eq!(mats.len(), 8);
    assert_eq!(count_class(&mats, class_of(WType::Q8_0)).0, 8);
    assert_eq!(count_class(&mats, class_of(WType::Q4K)), (0, 0));
}

#[test]
fn missing_tensors_are_named() {
    let b = small().finish();
    let f = GgufFile::open("m".to_string(), &b).unwrap();
    let e = load_mat(&f, "x.weight", MatId::Wq, false).unwrap_err();
    assert_eq!(e.message(), "missing x.weight");
    let e = load_mat(&f, "output_norm.weight", MatId::Wq, false).unwrap_err();
    assert_eq!(
        e.message(),
        "unsupported weight type F32 (supported: Q4_0, Q4_K, Q5_K, Q5_0, Q6_K, Q8_0)"
    );
    let e = f32_host(&f, "token_embd.weight").unwrap_err();
    assert_eq!(e.message(), "token_embd.weight not F32");
    let v = f32_host(&f, "blk.0.ffn_norm.weight").unwrap();
    assert_eq!(v.len(), 64);
    assert_eq!(blk_name(12, "ssm_a"), "blk.12.ssm_a");
    assert!(takes_one(taraference::cuda::launch::VecId::AttnNorm));
    assert!(!takes_one(taraference::cuda::launch::VecId::SsmA));
}

#[test]
fn tensors_that_are_not_read_may_have_any_shape() {
    let mut b = small();
    b.tensor("stray.weight", &[], 0, 4);
    b.tensor("empty.weight", &[0, u64::MAX], 8, 0);
    let m = load(&b.finish());
    assert_eq!(m.layers.len(), 1);
}

#[test]
fn a_matrix_needs_a_column() {
    let mut b = small();
    b.tensor("scalar.weight", &[], 8, 34);
    b.tensor("tall.weight", &[u64::MAX, 0], 8, 0);
    b.tensor("wide.weight", &[32, 2], 8, 68);
    let b = b.finish();
    let f = GgufFile::open("m".to_string(), &b).unwrap();
    let e = load_mat(&f, "scalar.weight", MatId::Wq, false).unwrap_err();
    assert_eq!(e.message(), "scalar.weight has no column");
    let e = load_mat(&f, "tall.weight", MatId::Wq, false).unwrap_err();
    assert_eq!(e.message(), "tall.weight has no column");
    assert_eq!(load_mat(&f, "wide.weight", MatId::Wq, false).unwrap().n_cols, 2);
    let mut b = small();
    b.tensor("output.weight", &[], 8, 34);
    let b = b.finish();
    let f = GgufFile::open("m".to_string(), &b).unwrap();
    let cfg = ModelConfig::from_gguf(&f).unwrap();
    let e = load_head(&f, &cfg, &options()).unwrap_err();
    assert_eq!(e.message(), "output.weight has no column");
}

#[test]
fn tokens_run_in_chunks() {
    let b = small().finish();
    let m = load(&b);
    let many: Vec<u32> = (0..300).collect();
    match m.forward_greedy(&many, &cache(10, 512)).unwrap() {
        Forward::Chunks(c) => assert_eq!(
            c,
            vec![
                Chunk { start: 0, len: 256, pos0: 10, last: false },
                Chunk { start: 256, len: 44, pos0: 266, last: true },
            ]
        ),
        other => panic!("{other:?}"),
    }
    assert!(matches!(
        m.forward_greedy(&[5], &cache(10, 512)),
        Ok(Forward::Eager { pos: 10, token: 5, capture: true })
    ));
    assert_eq!(m.forward_greedy(&[], &cache(0, 512)).unwrap_err(), ForwardError::EmptyTokens);
    assert_eq!(
        m.forward_greedy(&many, &cache(300, 512)).unwrap_err().message(),
        "context full"
    );
    let all = m.forward_greedy_all(&many[..10], &cache(0, 512)).unwrap();
    assert_eq!(all.len(), 2);
    assert_eq!((all[1].start, all[1].len), (9, 1));
}

#[test]
fn a_recording_is_replayed() {
    let b = small().finish();
    let mut m = load(&b);
    let kv = cache(3, 512);
    let step = m.start_capture(&kv);
    assert_eq!(step, CaptureStep::Probe { pos: 511 });
    let step = m.next_capture(step, true);
    assert_eq!(step, CaptureStep::Begin { pos: 511 });
    let step = m.next_capture(step, true);
    assert_eq!(step, CaptureStep::Record { pos: 511 });
    let step = m.next_capture(step, true);
    assert_eq!(step, CaptureStep::Done);
    assert!(m.graph_active() && m.has_graph);
    assert!(matches!(
        m.forward_greedy(&[5], &kv),
        Ok(Forward::Replay { pos: 3, token: 5 })
    ));
    m.invalidate_decode_graph();
    assert!(m.cuda_graph && !m.graph_active() && !m.has_graph && !m.graph_tried);
    assert!(matches!(
        m.forward_greedy(&[5], &kv),
        Ok(Forward::Eager { pos: 3, token: 5, capture: true })
    ));
    m.graph_active = true;
    assert_eq!(m.forward_greedy(&[5], &kv).unwrap_err(), ForwardError::NoGraph);
    m.set_cuda_graph(false);
    assert!(matches!(
        m.forward_greedy(&[5], &kv),
        Ok(Forward::Eager { capture: false, .. })
    ));
}

#[test]
fn a_chunk_is_planned() {
    let b = small().finish();
    let m = load(&b);
    let p = m.forward_chunk(&[1, 2, 3], 4, true, false).unwrap();
    assert_eq!(p.layers.len(), 1);
    assert_eq!(p.embed[0].kernel, Kernel::EmbedQ8);
    assert_eq!(p.layers[0].attn[0].kernel, Kernel::RmsNorm);
    assert!(p.layers[0].attn.iter().any(|l| l.kernel == Kernel::GemmQ8));
    assert!(p.head.is_some());
    let head = p.head.unwrap();
    assert_eq!(head.special_at, None);
    assert_eq!(head.pick[0].kernel, Kernel::Argmax);
    let one = m.forward_chunk(&[1], 4, false, true).unwrap();
    assert_eq!(one.embed[0].kernel, Kernel::EmbedQ8OneD);
    assert!(one.head.is_none());
}

#[test]
fn rows_are_scored_together() {
    let b = small().finish();
    let m = load(&b);
    let p = m.logits_for_rows(3).unwrap();
    assert_eq!(p[p.len() - 1].kernel, Kernel::ArgmaxRows);
    let e = m.logits_for_rows(10).unwrap_err();
    assert_eq!(e, RowsError::Batch(10));
    assert_eq!(e.message(), "verification batch 10 exceeds 9");
}

#[test]
fn scores_have_token_numbers() {
    let b = small().finish();
    let m = load(&b);
    assert_eq!(m.current_logits(&[7, 8], None), vec![(0, 7), (1, 8)]);
    assert_eq!(m.current_logits(&[0; 20], None).len(), 8);
    assert_eq!(card_ids(&[1, u32::MAX]), vec![1, -1]);
    assert_eq!(token_ids(&[1, -1]), vec![1, u32::MAX]);
}

#[test]
fn a_cache_is_laid_out() {
    let b = small().finish();
    let m = load(&b);
    assert!(has_fitting_cache(&m.cfg, 100));
    let mut l = m.alloc_kv(100);
    assert_eq!(l.slots[0].kv, 3200);
    assert_eq!(l.kv_bytes, 12800);
    assert_eq!(l.state_bytes, 0);
    assert_eq!(l.kv.bytes_per_token(1, 32), 128);
    assert!(l.kv.has_room(100) && !l.kv.has_room(101));
    l.kv.advance(40);
    l.kv.rewind(30);
    assert_eq!(l.kv.len, 30);
    l.kv.clear();
    assert_eq!(l.kv.len, 0);
    let w = Widths::of(&m.cfg, 8, true);
    assert_eq!(w.buffer_len(Buf::X), 256 * 64);
    assert_eq!(w.buffer_len(Buf::Logits), 8);
    assert_eq!(w.buffer_len(Buf::GemvPartial), 8 * 96);
    assert!(m.zero_recurrent(0).is_empty());
}

#[test]
fn products_are_planned() {
    let card = Card { tuning: GemvTuning::from_cc(8, None), partial_stride: 4096 };
    let w = GpuMat {
        id: MatId::Wo,
        has_decode: false,
        has_compact: false,
        n_rows: 64,
        n_cols: 100,
        col_bytes: 36,
        decode_col_bytes: 36,
        compact_col_bytes: 0,
        wtype: WType::Q4K,
    };
    let p = gemv_baseline(card, w, Buf::Xb, Buf::X, None, GemvResidual::InPlace);
    assert_eq!(p.len(), 1);
    assert_eq!(p[0].kernel, Kernel::GemvQ4);
    assert_eq!(p[0].args[0], Arg::Mat(MatId::Wo, Part::Data));
    assert_eq!((p[0].shape.grid_x, p[0].shape.block, p[0].shape.smem), (4, 1024, 256));
    let q = quantize_q8(Buf::Xb, Buf::Q8X, Buf::Q8D, 4096);
    assert_eq!((q[0].kernel, q[0].shape.grid_x), (Kernel::QuantizeQ8, 16));
    assert_eq!((gemv_n_split(2048), gemv_n_split(4096)), (1, 4));
}

#[test]
fn feed_forward_parts_are_left_out() {
    assert!(!decode_should_skip_ffn(None, 0, 8));
    let every_second: Vec<bool> =
        (0..4).map(|i| decode_should_skip_ffn(Some("2"), i, 4)).collect();
    assert_eq!(every_second, vec![false, true, false, true]);
    let middle: Vec<bool> =
        (0..6).map(|i| decode_should_skip_ffn(Some("middle:2"), i, 6)).collect();
    assert_eq!(middle, vec![false, false, true, true, false, false]);
    let mask: Vec<bool> =
        (0..4).map(|i| decode_should_skip_ffn(Some("mask:1,4"), i, 4)).collect();
    assert_eq!(mask, vec![true, false, false, true]);
    assert!(!decode_should_skip_ffn(Some("1"), 0, 4));
}

#[test]
fn kernels_have_symbols() {
    let t = GemvTuning::from_cc(8, None);
    let k = Kernels::load(t);
    assert_eq!(k.loaded.len(), 141);
    assert_eq!(Kernel::RmsNorm.symbol(t), "rms_norm_f32");
    assert_eq!(Kernel::GemvQ4Dual.symbol(t), "gemv_q4_k_dual_4way");
}
