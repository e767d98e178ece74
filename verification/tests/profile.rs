//! Profiles and their reports.
use taraference::cli::profile::{
    latest_name, log_name, model_slug, parse_decode, plan_profile, read_values, slug_of,
    time_stamp, totals, value_after, Reading, TurnRow,
};
use taraference::cli::report::{
    parse_summary_metrics, report, GpuCells, Hints, HostCells, ProfileMeta, ReportCells,
    SummaryCells,
};
use taraference::config::{LayerKind, ModelConfig, RouterWeightMode};
use taraference::cuda::decode::DecodeBackend;
use taraference::gguf::value::FloatBits;
use taraference::session::StopReason;

fn s(t: &str) -> String {
    t.to_string()
}

fn turn(index: usize, user: &str, ctx_len: usize, stop: StopReason, cut: bool) -> TurnRow {
    TurnRow {
        index,
        user: s(user),
        prompt_tokens: 10 + index,
        gen_tokens: 20,
        ctx_before: 0,
        ctx_len,
        stop,
        hit_max_new: cut,
        prefill: s("12"),
        decode_tps: s("30.5"),
        ttft: s("15"),
    }
}

fn cfg() -> ModelConfig {
    ModelConfig {
        architecture: s("qwen2"),
        n_vocab: 32,
        n_embd: 16,
        n_layer: 1,
        n_head: 4,
        n_head_kv: 2,
        attention_head_dim: 4,
        no_rope_layer_interval: 0,
        n_ff: 32,
        n_ctx: 4096,
        rope_theta: FloatBits::Single(0),
        rms_eps: FloatBits::Single(0),
        rope_dim: 4,
        fused_q_gate: false,
        ssm_conv_kernel: 0,
        ssm_state_size: 0,
        ssm_n_k_heads: 0,
        ssm_n_v_heads: 0,
        ssm_inner_size: 0,
        layer_kinds: vec![LayerKind::FullAttention],
        n_experts: 0,
        router_top_k: 0,
        router_weight_mode: RouterWeightMode::SelectedSoftmax,
        expert_ff: 0,
        num_dense_layers: 1,
    }
}

fn gpu() -> GpuCells {
    GpuCells {
        mem_avg: s("100"),
        mem_min: s("90"),
        mem_max: s("110"),
        mem_total: s("4096"),
        mem_pct: s("3"),
        mem_free: s("3986"),
        mem_util: s("12.5"),
        util_min: s("1.0"),
        util_avg: s("50.0"),
        util_max: s("100.0"),
        power_min: s("5.0"),
        power_avg: s("20.0"),
        power_max: s("35.0"),
        temp_min: s("40"),
        temp_avg: s("50"),
        temp_max: s("60"),
        clock_avg: s("1000"),
        clock_max: s("1500"),
        mem_clock: s("5000"),
        efficiency: s("0.610"),
        energy: Some(s("1.50")),
    }
}

fn cells(with_gpu: bool) -> ReportCells {
    ReportCells {
        weight_gib: s("1.90"),
        elapsed: s("4.25"),
        span: s("4100"),
        ttft_avg: s("15"),
        ttft_min: s("14"),
        ttft_max: s("16"),
        tokenize_total: s("1.0"),
        tokenize_turn: s("0.50"),
        ms_prefill: s("1.2"),
        ms_decode: s("32.8"),
        prefill_ms: s("24"),
        prefill_tps: s("875.0"),
        prefill_share: s("1.8"),
        decode_ms: s("1311"),
        decode_tps: s("30.5"),
        decode_share: s("98.0"),
        wall_ms: s("1338"),
        first_tps: s("30.6"),
        last_tps: s("30.4"),
        drop_pct: s("1"),
        first_prefill: s("12"),
        later_prefill: s("13"),
        gbps: s("62.2"),
        bw_pct: s("32"),
        ctx_pct: s("1.3"),
        growth: s("30"),
        cpu_min: s("0.0"),
        cpu_avg: s("2.5"),
        cpu_max: s("10.0"),
        gpu: if with_gpu { Some(gpu()) } else { None },
        host: if with_gpu {
            Some(HostCells { used: s("8000"), total: s("16000") })
        } else {
            None
        },
        hints: Hints {
            headroom: if with_gpu { Some(s("3986")) } else { None },
            busy: false,
            dropped: with_gpu,
            heavy: true,
            cpu: with_gpu,
            hot: if with_gpu { Some(s("90")) } else { None },
            full: if with_gpu { Some(s("81")) } else { None },
            idle: !with_gpu,
            loaded: true,
        },
        summary: SummaryCells {
            decode_tps: s("30.500"),
            prefill_tps: s("875.000"),
            first_tps: s("30.600"),
            last_tps: s("30.400"),
            drop_pct: s("0.65"),
            prefill_ms: s("24.00"),
            decode_ms: s("1311.00"),
            wall_s: s("4.250"),
            first_prefill: s("12.00"),
            later_prefill: s("13.00"),
        },
    }
}

fn meta() -> ProfileMeta {
    ProfileMeta {
        model_path: s("models/a.gguf"),
        cfg: cfg(),
        max_seq: 4096,
        max_new: 128,
        sample_interval_ms: 100,
        decode: DecodeBackend::default(),
    }
}

#[test]
fn a_profile_talks_or_asks_once() {
    let p = plan_profile(None, 512);
    assert_eq!((p.script.len(), p.mode, p.max_new), (5, "multi-turn", 128));
    assert_eq!(p.script[0], "hi, who are you?");
    let p = plan_profile(Some("x"), 16);
    assert_eq!((p.script, p.mode, p.max_new), (vec![s("x")], "single-turn", 16));
}

#[test]
fn a_decode_path_is_chosen() {
    assert_eq!(parse_decode("default"), Ok(DecodeBackend::default()));
    let e = parse_decode("warp").unwrap_err();
    assert!(e.starts_with("unknown --decode \"warp\"; choose one of: "));
}

#[test]
fn turns_are_summed() {
    let turns = vec![
        turn(0, "a", 40, StopReason::Eos, false),
        turn(1, "b", 30, StopReason::MaxNew, true),
        turn(2, "c", 90, StopReason::Empty, false),
    ];
    let t = totals(&turns);
    assert_eq!((t.prompt, t.reply, t.final_ctx), (33, 60, 90));
    assert_eq!((t.growth, t.growth_steps), (60, 2));
    assert_eq!((t.cut, t.eos, t.empty), (1, 1, 1));
    assert_eq!(totals(&[]).final_ctx, 0);
}

#[test]
fn reports_are_named_after_the_model() {
    assert_eq!(
        model_slug("models/Qwen2.5-3B-Instruct-Q4_K_M.gguf"),
        "Qwen2.5-3B-Instruct-Q4_K_M"
    );
    assert_eq!(model_slug("a b/c d$.x.gguf"), "c_d_.x");
    assert_eq!(model_slug(".hidden"), ".hidden");
    assert_eq!(model_slug("plain"), "plain");
    assert_eq!(model_slug("models/x.y.gguf/"), "x.y");
    assert_eq!(model_slug("models/x.y.gguf/./"), "x.y");
    assert_eq!(model_slug(".."), "model");
    assert_eq!(model_slug("/"), "model");
    assert_eq!(model_slug("/."), "model");
    assert_eq!(model_slug(""), "model");
    assert_eq!(model_slug("."), "model");
    assert_eq!(slug_of(&None), "model");
    assert_eq!(slug_of(&Some(s(""))), "model");
    assert_eq!(slug_of(&Some("y".repeat(100))), "y".repeat(80));
    assert_eq!(slug_of(&Some(s("é"))), "_");
}

#[test]
fn reports_have_files() {
    assert_eq!(time_stamp(None, 17), "unix_17");
    assert_eq!(time_stamp(Some(" 2024-01-02_03-04-05\r\n"), 17), "2024-01-02_03-04-05");
    assert_eq!(time_stamp(Some(" \n"), 17), "unix_17");
    let d = DecodeBackend::default();
    assert_eq!(log_name("t", "m", d, None), format!("profile_t_m_{}.txt", d.name()));
    assert_eq!(log_name("t", "m", d, Some(9)), format!("profile_t_m_{}_9.txt", d.name()));
    assert_eq!(latest_name("m"), "latest_m.txt");
}

#[test]
fn a_card_tells_its_values() {
    match read_values(" 10, 20 ,30\nsecond", 3) {
        Reading::Values(v) => assert_eq!(v, vec!["10", "20", "30"]),
        other => panic!("{other:?}"),
    }
    assert!(matches!(read_values("1,2", 3), Reading::Short));
    assert!(matches!(read_values("", 3), Reading::Nothing));
    assert_eq!(value_after("x\r\nLoad=7 \r\nLoad=8", "Load=", false).unwrap(), "7");
    assert_eq!(value_after("x\r\nLoad=7 \r\nLoad=8", "Load=", true).unwrap(), "8");
    assert!(value_after("x", "Load=", true).is_none());
}

#[test]
fn a_report_tells_everything() {
    let turns = vec![
        turn(0, "hi", 40, StopReason::Eos, false),
        turn(1, &"q".repeat(40), 70, StopReason::MaxNew, true),
    ];
    let r = report("multi-turn", "unix_1", "a", &meta(), &turns, 41, &cells(true));
    assert!(r.starts_with(&format!(
        "\n{}\n  PROFILE REPORT  (multi-turn)\n  saved_at  unix_1\n",
        "═".repeat(64)
    )));
    for line in [
        "    arch      qwen2  L=1  d=16  heads=4/2  ff=32  vocab=32",
        "    weights   1.90 GiB Q  |  model n_ctx=4096  session max_seq=4096  max_new=128",
        "    sample    every 100 ms  |  41 samples over 4.25s wall (span 4100 ms)",
        "    prefill       24 ms |    21 tok |  875.0 tok/s |   1.8% of turn-time",
        "    decode      1311 ms |    40 tok |   30.5 tok/s |  98.0% of turn-time",
        "    prefill  first 12 ms | later avg 13 ms",
        "    ctx final 70 / 4096  (1.3% full)  avg growth/turn 30 tok",
        "    host RAM  ~8000 / 16000 MiB used (system snapshot)",
        "    stop: eos=1  hit_max_new=1  empty=0  / 2 turns",
        "    ⚠ 1 turn(s) hit max_new=128 — reply may be truncated mid-sentence",
        "    util   min   0.0%  avg   2.5%  max  10.0%",
        "    temp     min    40 °C avg    50 °C max    60 °C",
        "    tok/J (rough)  1.50 decode tok per joule  [gen_tok / (avg_W × decode_s)]",
        "    • VRAM headroom ~3986 MiB — not memory-capacity bound; speed ≠ fill VRAM.",
        "    • GPU hot (90°C) — possible thermal throttle; watch clocks.",
        "    • High GPU util → optimize matmul/attention bandwidth next.",
        "    total_gen=40",
    ] {
        assert!(r.lines().any(|l| l == line), "{line}");
    }
    let row = format!(
        "  {:>4} {:>5}ms {:>5}t/s {:>5} {:>5} {:>5} {:>5} {:>5} {:>6} {:>4} {}",
        2,
        "12",
        "30.5",
        "15",
        11,
        20,
        0,
        70,
        "max",
        "Y",
        format!("{}…", "q".repeat(36))
    );
    assert!(r.lines().any(|l| l == row));
}

#[test]
fn a_report_without_a_card() {
    let turns = vec![turn(0, "hi", 40, StopReason::Eos, false)];
    let r = report("single-turn", "t", "a", &meta(), &turns, 0, &cells(false));
    assert!(r.contains("    (nvidia-smi unavailable — check PATH / driver)\n"));
    assert!(!r.contains("VRAM"));
    assert!(!r.contains("later avg"));
    assert!(!r.contains("Later-turn"));
    assert!(r.contains("Low GPU util"));
    assert!(!r.contains("High GPU util"));
}

#[test]
fn the_summary_is_read_back() {
    let turns = vec![turn(0, "\nfinal_ctx=999\n", 77, StopReason::Eos, false)];
    let r = report("single-turn", "t", "a", &meta(), &turns, 1, &cells(true));
    let m = parse_summary_metrics(&r);
    assert_eq!(m.decode_tps.unwrap(), "30.500");
    assert_eq!(m.first_tps.unwrap(), "30.600");
    assert_eq!(m.last_tps.unwrap(), "30.400");
    assert_eq!(m.drop_pct.unwrap(), "0.65");
    assert_eq!(m.final_ctx, 77);
    let none = parse_summary_metrics("nothing\n final_ctx=x");
    assert!(none.decode_tps.is_none());
    assert_eq!(none.final_ctx, 0);
}

#[test]
fn latest_reports_of_models_are_kept_apart() {
    assert_eq!(latest_name("a"), "latest_a.txt");
    assert_ne!(latest_name("a"), latest_name("b"));
    assert_ne!(latest_name(""), "latest.txt");
}
