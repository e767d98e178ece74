//! The report of a profile, and what is read back of it.
use crate::cli::profile::{all_totals, sums_fit, totals, Totals, TurnRow};
use crate::cli::serve::{shortened, truncate};
use crate::config::ModelConfig;
use crate::cuda::decode::DecodeBackend;
use crate::session::StopReason;
use crate::text::{
    chars_of, decimal, decimal_string, has_prefix, is_white_space, law_number_has_digits,
    law_number_reads_back, law_split_not_empty, maybe_text, parse_number, parsed_number,
    push_decimal, skip_chars, split_chars, split_on, string_of, trim, trim_end, trim_start, trimmed,
};
use vstd::prelude::*;

verus! {

/// What a profile was made of.
#[derive(Debug)]
pub struct ProfileMeta {
    pub model_path: String,
    pub cfg: ModelConfig,
    pub max_seq: usize,
    pub max_new: usize,
    pub sample_interval_ms: u64,
    pub decode: DecodeBackend,
}

/// What the card told of itself: texts that were printed of the numbers.
#[derive(Debug)]
pub struct GpuCells {
    pub mem_avg: String,
    pub mem_min: String,
    pub mem_max: String,
    pub mem_total: String,
    pub mem_pct: String,
    pub mem_free: String,
    pub mem_util: String,
    pub util_min: String,
    pub util_avg: String,
    pub util_max: String,
    pub power_min: String,
    pub power_avg: String,
    pub power_max: String,
    pub temp_min: String,
    pub temp_avg: String,
    pub temp_max: String,
    pub clock_avg: String,
    pub clock_max: String,
    pub mem_clock: String,
    pub efficiency: String,
    /// Tokens of a joule, where the power is known.
    pub energy: Option<String>,
}

/// What the host told of its memory.
#[derive(Debug)]
pub struct HostCells {
    pub used: String,
    pub total: String,
}

/// What the numbers hint at. A hint that shows a number holds its text.
#[derive(Debug)]
pub struct Hints {
    /// Memory of the card is left.
    pub headroom: Option<String>,
    /// The card is busy, and few weights are read.
    pub busy: bool,
    /// The pace fell.
    pub dropped: bool,
    /// Later prompts take as long as the first one.
    pub heavy: bool,
    /// The processor has much to do.
    pub cpu: bool,
    /// The card is hot.
    pub hot: Option<String>,
    /// The context is nearly full.
    pub full: Option<String>,
    /// The card has little to do.
    pub idle: bool,
    /// The card has much to do.
    pub loaded: bool,
}

/// What is measured: texts that were printed of the numbers.
#[derive(Debug)]
pub struct ReportCells {
    pub weight_gib: String,
    pub elapsed: String,
    pub span: String,
    pub ttft_avg: String,
    pub ttft_min: String,
    pub ttft_max: String,
    pub tokenize_total: String,
    pub tokenize_turn: String,
    pub ms_prefill: String,
    pub ms_decode: String,
    pub prefill_ms: String,
    pub prefill_tps: String,
    pub prefill_share: String,
    pub decode_ms: String,
    pub decode_tps: String,
    pub decode_share: String,
    pub wall_ms: String,
    pub first_tps: String,
    pub last_tps: String,
    pub drop_pct: String,
    pub first_prefill: String,
    pub later_prefill: String,
    pub gbps: String,
    pub bw_pct: String,
    pub ctx_pct: String,
    pub growth: String,
    pub cpu_min: String,
    pub cpu_avg: String,
    pub cpu_max: String,
    pub gpu: Option<GpuCells>,
    pub host: Option<HostCells>,
    pub hints: Hints,
    pub summary: SummaryCells,
}

/// What the summary tells: texts with more decimals.
#[derive(Debug)]
pub struct SummaryCells {
    pub decode_tps: String,
    pub prefill_tps: String,
    pub first_tps: String,
    pub last_tps: String,
    pub drop_pct: String,
    pub prefill_ms: String,
    pub decode_ms: String,
    pub wall_s: String,
    pub first_prefill: String,
    pub later_prefill: String,
}

/// `s` with spaces before it, up to `width` characters.
pub open spec fn led(s: Seq<char>, width: nat) -> Seq<char>
    decreases width,
{
    if s.len() >= width {
        s
    } else {
        seq![' '] + led(s, (width - 1) as nat)
    }
}

/// Adds `s` to `out`, with spaces before it, up to `width` characters.
fn push_led(out: &mut String, s: &str, width: usize)
    ensures
        final(out)@ == old(out)@ + led(s@, width as nat),
{
    let n: usize = chars_of(s).len();
    let mut w: usize = width;
    proof {
        assert(out@ + led(s@, w as nat) == old(out)@ + led(s@, width as nat));
    }
    while w > n
        invariant
            n == s@.len(),
            out@ + led(s@, w as nat) == old(out)@ + led(s@, width as nat),
        decreases w,
    {
        let ghost before: Seq<char> = out@;
        out.push(' ');
        proof {
            assert(out@ + led(s@, (w - 1) as nat) =~= before + (seq![' '] + led(
                s@,
                (w - 1) as nat,
            )));
        }
        w = w - 1;
    }
    out.append(s);
}

/// A text, or nothing.
pub open spec fn opt(shown: bool, s: Seq<char>) -> Seq<char> {
    if shown {
        s
    } else {
        Seq::empty()
    }
}

fn push_if(out: &mut String, shown: bool, s: &str)
    ensures
        final(out)@ == old(out)@ + opt(shown, s@),
{
    if shown {
        out.append(s);
    } else {
        proof {
            assert(out@ + Seq::<char>::empty() =~= out@);
        }
    }
}

/// How a turn ended, as the report says it.
pub open spec fn stop_name(stop: StopReason) -> Seq<char> {
    match stop {
        StopReason::Eos => "eos"@,
        StopReason::MaxNew => "max"@,
        StopReason::Empty => "empty"@,
    }
}

fn stop_word(stop: StopReason) -> (r: &'static str)
    ensures
        r@ == stop_name(stop),
{
    match stop {
        StopReason::Eos => "eos",
        StopReason::MaxNew => "max",
        StopReason::Empty => "empty",
    }
}

/// The mark of a turn that was cut.
pub open spec fn cut_mark(cut: bool) -> Seq<char> {
    if cut {
        "Y"@
    } else {
        "-"@
    }
}

fn cut_word(cut: bool) -> (r: &'static str)
    ensures
        r@ == cut_mark(cut),
{
    if cut {
        "Y"
    } else {
        "-"
    }
}

/// The first lines of a report.
pub open spec fn head_text(mode: Seq<char>, stamp: Seq<char>, model_path: Seq<char>) -> Seq<char> {
    "\n════════════════════════════════════════════════════════════════\n  PROFILE REPORT  ("@
        + mode
        + ")\n  saved_at  "@
        + stamp
        + "\n════════════════════════════════════════════════════════════════\n  CONFIG\n    model     "@
        + model_path
        + "\n"@
}

fn head(mode: &str, stamp: &str, model_path: &str) -> (r: String)
    ensures
        r@ == head_text(mode@, stamp@, model_path@),
{
    let mut out: String = "\n════════════════════════════════════════════════════════════════\n  PROFILE REPORT  (".to_owned();
    out.append(mode);
    out.append(")\n  saved_at  ");
    out.append(stamp);
    out.append("\n════════════════════════════════════════════════════════════════\n  CONFIG\n    model     ");
    out.append(model_path);
    out.append("\n");
    out
}

/// The line on the shape of the model.
pub open spec fn shape_text(cfg: ModelConfig) -> Seq<char> {
    "    arch      "@
        + cfg.architecture@
        + "  L="@
        + decimal(cfg.n_layer as nat)
        + "  d="@
        + decimal(cfg.n_embd as nat)
        + "  heads="@
        + decimal(cfg.n_head as nat)
        + "/"@
        + decimal(cfg.n_head_kv as nat)
        + "  ff="@
        + decimal(cfg.n_ff as nat)
        + "  vocab="@
        + decimal(cfg.n_vocab as nat)
        + "\n"@
}

fn shape(cfg: &ModelConfig) -> (r: String)
    ensures
        r@ == shape_text(*cfg),
{
    let mut out: String = "    arch      ".to_owned();
    out.append(cfg.architecture.as_str());
    out.append("  L=");
    push_decimal(&mut out, cfg.n_layer as u64);
    out.append("  d=");
    push_decimal(&mut out, cfg.n_embd as u64);
    out.append("  heads=");
    push_decimal(&mut out, cfg.n_head as u64);
    out.append("/");
    push_decimal(&mut out, cfg.n_head_kv as u64);
    out.append("  ff=");
    push_decimal(&mut out, cfg.n_ff as u64);
    out.append("  vocab=");
    push_decimal(&mut out, cfg.n_vocab as u64);
    out.append("\n");
    out
}

/// The lines on how the model was run.
pub open spec fn setup_text(meta: ProfileMeta, c: ReportCells, samples: usize) -> Seq<char> {
    "    weights   "@
        + c.weight_gib@
        + " GiB Q  |  model n_ctx="@
        + decimal(meta.cfg.n_ctx as nat)
        + "  session max_seq="@
        + decimal(meta.max_seq as nat)
        + "  max_new="@
        + decimal(meta.max_new as nat)
        + "\n    decode    "@
        + meta.decode.view().name
        + " — "@
        + meta.decode.view().description
        + "\n    kv        f16 (half bandwidth vs f32)\n    sample    every "@
        + decimal(meta.sample_interval_ms as nat)
        + " ms  |  "@
        + decimal(samples as nat)
        + " samples over "@
        + c.elapsed@
        + "s wall (span "@
        + c.span@
        + " ms)\n────────────────────────────────────────────────────────────────\n  PER-TURN\n  turn prefill  decode   ttft  pTok  gTok  ctx0   ctx   stop  cap user\n"@
}

fn setup(meta: &ProfileMeta, c: &ReportCells, samples: usize) -> (r: String)
    requires
        meta.decode.wf(),
    ensures
        r@ == setup_text(*meta, *c, samples),
{
    let mut out: String = "    weights   ".to_owned();
    out.append(c.weight_gib.as_str());
    out.append(" GiB Q  |  model n_ctx=");
    push_decimal(&mut out, meta.cfg.n_ctx as u64);
    out.append("  session max_seq=");
    push_decimal(&mut out, meta.max_seq as u64);
    out.append("  max_new=");
    push_decimal(&mut out, meta.max_new as u64);
    out.append("\n    decode    ");
    out.append(meta.decode.name());
    out.append(" — ");
    out.append(meta.decode.description());
    out.append("\n    kv        f16 (half bandwidth vs f32)\n    sample    every ");
    push_decimal(&mut out, meta.sample_interval_ms as u64);
    out.append(" ms  |  ");
    push_decimal(&mut out, samples as u64);
    out.append(" samples over ");
    out.append(c.elapsed.as_str());
    out.append("s wall (span ");
    out.append(c.span.as_str());
    out.append(" ms)\n────────────────────────────────────────────────────────────────\n  PER-TURN\n  turn prefill  decode   ttft  pTok  gTok  ctx0   ctx   stop  cap user\n");
    out
}

/// The line of a turn.
pub open spec fn turn_line_text(t: TurnRow) -> Seq<char> {
    "  "@
        + led(decimal((t.index + 1) as nat), 4)
        + " "@
        + led(t.prefill@, 5)
        + "ms "@
        + led(t.decode_tps@, 5)
        + "t/s "@
        + led(t.ttft@, 5)
        + " "@
        + led(decimal(t.prompt_tokens as nat), 5)
        + " "@
        + led(decimal(t.gen_tokens as nat), 5)
        + " "@
        + led(decimal(t.ctx_before as nat), 5)
        + " "@
        + led(decimal(t.ctx_len as nat), 5)
        + " "@
        + led(stop_name(t.stop), 6)
        + " "@
        + led(cut_mark(t.hit_max_new), 4)
        + " "@
        + shortened(t.user@, 36)
        + "\n"@
}

fn turn_line(t: &TurnRow) -> (r: String)
    requires
        t.index < usize::MAX,
    ensures
        r@ == turn_line_text(*t),
{
    let mut out: String = "  ".to_owned();
    push_led(&mut out, decimal_string((t.index + 1) as u64).as_str(), 4);
    out.append(" ");
    push_led(&mut out, t.prefill.as_str(), 5);
    out.append("ms ");
    push_led(&mut out, t.decode_tps.as_str(), 5);
    out.append("t/s ");
    push_led(&mut out, t.ttft.as_str(), 5);
    out.append(" ");
    push_led(&mut out, decimal_string(t.prompt_tokens as u64).as_str(), 5);
    out.append(" ");
    push_led(&mut out, decimal_string(t.gen_tokens as u64).as_str(), 5);
    out.append(" ");
    push_led(&mut out, decimal_string(t.ctx_before as u64).as_str(), 5);
    out.append(" ");
    push_led(&mut out, decimal_string(t.ctx_len as u64).as_str(), 5);
    out.append(" ");
    push_led(&mut out, stop_word(t.stop), 6);
    out.append(" ");
    push_led(&mut out, cut_word(t.hit_max_new), 4);
    out.append(" ");
    out.append(truncate(t.user.as_str(), 36).as_str());
    out.append("\n");
    out
}

/// The lines on how long things took.
pub open spec fn latency_text(c: ReportCells) -> Seq<char> {
    "────────────────────────────────────────────────────────────────\n  LATENCY\n    TTFT      avg "@
        + c.ttft_avg@
        + " ms  min "@
        + c.ttft_min@
        + "  max "@
        + c.ttft_max@
        + "  (user→first token)\n    tokenize  total "@
        + c.tokenize_total@
        + " ms  ("@
        + c.tokenize_turn@
        + " ms/turn)\n    ms/token  prefill "@
        + c.ms_prefill@
        + "  decode "@
        + c.ms_decode@
        + "\n"@
}

fn latency(c: &ReportCells) -> (r: String)
    ensures
        r@ == latency_text(*c),
{
    let mut out: String = "────────────────────────────────────────────────────────────────\n  LATENCY\n    TTFT      avg ".to_owned();
    out.append(c.ttft_avg.as_str());
    out.append(" ms  min ");
    out.append(c.ttft_min.as_str());
    out.append("  max ");
    out.append(c.ttft_max.as_str());
    out.append("  (user→first token)\n    tokenize  total ");
    out.append(c.tokenize_total.as_str());
    out.append(" ms  (");
    out.append(c.tokenize_turn.as_str());
    out.append(" ms/turn)\n    ms/token  prefill ");
    out.append(c.ms_prefill.as_str());
    out.append("  decode ");
    out.append(c.ms_decode.as_str());
    out.append("\n");
    out
}

/// The lines on how much was done in that time.
pub open spec fn throughput_text(c: ReportCells, t: Totals) -> Seq<char> {
    "────────────────────────────────────────────────────────────────\n  THROUGHPUT\n    prefill  "@
        + led(c.prefill_ms@, 7)
        + " ms | "@
        + led(decimal(t.prompt as nat), 5)
        + " tok | "@
        + led(c.prefill_tps@, 6)
        + " tok/s | "@
        + led(c.prefill_share@, 5)
        + "% of turn-time\n    decode   "@
        + led(c.decode_ms@, 7)
        + " ms | "@
        + led(decimal(t.reply as nat), 5)
        + " tok | "@
        + led(c.decode_tps@, 6)
        + " tok/s | "@
        + led(c.decode_share@, 5)
        + "% of turn-time\n"@
}

fn throughput(c: &ReportCells, t: &Totals) -> (r: String)
    ensures
        r@ == throughput_text(*c, *t),
{
    let mut out: String = "────────────────────────────────────────────────────────────────\n  THROUGHPUT\n    prefill  ".to_owned();
    push_led(&mut out, c.prefill_ms.as_str(), 7);
    out.append(" ms | ");
    push_led(&mut out, decimal_string(t.prompt as u64).as_str(), 5);
    out.append(" tok | ");
    push_led(&mut out, c.prefill_tps.as_str(), 6);
    out.append(" tok/s | ");
    push_led(&mut out, c.prefill_share.as_str(), 5);
    out.append("% of turn-time\n    decode   ");
    push_led(&mut out, c.decode_ms.as_str(), 7);
    out.append(" ms | ");
    push_led(&mut out, decimal_string(t.reply as u64).as_str(), 5);
    out.append(" tok | ");
    push_led(&mut out, c.decode_tps.as_str(), 6);
    out.append(" tok/s | ");
    push_led(&mut out, c.decode_share.as_str(), 5);
    out.append("% of turn-time\n");
    out
}

/// The lines on how the pace changed.
pub open spec fn pace_text(c: ReportCells) -> Seq<char> {
    "    wall     "@
        + led(c.wall_ms@, 7)
        + " ms sum turns | wall-clock run "@
        + c.elapsed@
        + "s\n    decode   first-turn "@
        + c.first_tps@
        + " t/s → last-turn "@
        + c.last_tps@
        + " t/s  (drop "@
        + c.drop_pct@
        + "%)\n"@
}

fn pace(c: &ReportCells) -> (r: String)
    ensures
        r@ == pace_text(*c),
{
    let mut out: String = "    wall     ".to_owned();
    push_led(&mut out, c.wall_ms.as_str(), 7);
    out.append(" ms sum turns | wall-clock run ");
    out.append(c.elapsed.as_str());
    out.append("s\n    decode   first-turn ");
    out.append(c.first_tps.as_str());
    out.append(" t/s → last-turn ");
    out.append(c.last_tps.as_str());
    out.append(" t/s  (drop ");
    out.append(c.drop_pct.as_str());
    out.append("%)\n");
    out
}

/// The line on the prompts after the first one.
pub open spec fn later_text(c: ReportCells) -> Seq<char> {
    "    prefill  first "@
        + c.first_prefill@
        + " ms | later avg "@
        + c.later_prefill@
        + " ms\n"@
}

fn later(c: &ReportCells) -> (r: String)
    ensures
        r@ == later_text(*c),
{
    let mut out: String = "    prefill  first ".to_owned();
    out.append(c.first_prefill.as_str());
    out.append(" ms | later avg ");
    out.append(c.later_prefill.as_str());
    out.append(" ms\n");
    out
}

/// The line on the memory that was read, and the one on the context.
pub open spec fn bandwidth_text(c: ReportCells, t: Totals, max_seq: usize) -> Seq<char> {
    "    est weight BW  "@
        + c.gbps@
        + " GB/s  (~"@
        + c.bw_pct@
        + "% of 192 GB/s ref)  [decode × model size]\n────────────────────────────────────────────────────────────────\n  CONTEXT / MEMORY\n    ctx final "@
        + decimal(t.final_ctx as nat)
        + " / "@
        + decimal(max_seq as nat)
        + "  ("@
        + c.ctx_pct@
        + "% full)  avg growth/turn "@
        + c.growth@
        + " tok\n"@
}

fn bandwidth(c: &ReportCells, t: &Totals, max_seq: usize) -> (r: String)
    ensures
        r@ == bandwidth_text(*c, *t, max_seq),
{
    let mut out: String = "    est weight BW  ".to_owned();
    out.append(c.gbps.as_str());
    out.append(" GB/s  (~");
    out.append(c.bw_pct.as_str());
    out.append("% of 192 GB/s ref)  [decode × model size]\n────────────────────────────────────────────────────────────────\n  CONTEXT / MEMORY\n    ctx final ");
    push_decimal(&mut out, t.final_ctx as u64);
    out.append(" / ");
    push_decimal(&mut out, max_seq as u64);
    out.append("  (");
    out.append(c.ctx_pct.as_str());
    out.append("% full)  avg growth/turn ");
    out.append(c.growth.as_str());
    out.append(" tok\n");
    out
}

/// The lines on the memory of the card.
pub open spec fn memory_text(g: GpuCells) -> Seq<char> {
    "    VRAM   used avg "@
        + g.mem_avg@
        + "  min "@
        + g.mem_min@
        + "  peak "@
        + g.mem_max@
        + " / "@
        + g.mem_total@
        + " MiB  ("@
        + g.mem_pct@
        + "% peak)\n    VRAM   free at peak ~"@
        + g.mem_free@
        + " MiB  |  mem-controller util avg "@
        + g.mem_util@
        + "%\n"@
}

fn memory(g: &GpuCells) -> (r: String)
    ensures
        r@ == memory_text(*g),
{
    let mut out: String = "    VRAM   used avg ".to_owned();
    out.append(g.mem_avg.as_str());
    out.append("  min ");
    out.append(g.mem_min.as_str());
    out.append("  peak ");
    out.append(g.mem_max.as_str());
    out.append(" / ");
    out.append(g.mem_total.as_str());
    out.append(" MiB  (");
    out.append(g.mem_pct.as_str());
    out.append("% peak)\n    VRAM   free at peak ~");
    out.append(g.mem_free.as_str());
    out.append(" MiB  |  mem-controller util avg ");
    out.append(g.mem_util.as_str());
    out.append("%\n");
    out
}

/// The line on the memory of the host.
pub open spec fn host_text(h: HostCells) -> Seq<char> {
    "    host RAM  ~"@
        + h.used@
        + " / "@
        + h.total@
        + " MiB used (system snapshot)\n"@
}

fn host(h: &HostCells) -> (r: String)
    ensures
        r@ == host_text(*h),
{
    let mut out: String = "    host RAM  ~".to_owned();
    out.append(h.used.as_str());
    out.append(" / ");
    out.append(h.total.as_str());
    out.append(" MiB used (system snapshot)\n");
    out
}

/// The line on how the turns ended.
pub open spec fn quality_text(t: Totals, turns: usize) -> Seq<char> {
    "────────────────────────────────────────────────────────────────\n  GENERATION QUALITY FLAGS\n    stop: eos="@
        + decimal(t.eos as nat)
        + "  hit_max_new="@
        + decimal(t.cut as nat)
        + "  empty="@
        + decimal(t.empty as nat)
        + "  / "@
        + decimal(turns as nat)
        + " turns\n"@
}

fn quality(t: &Totals, turns: usize) -> (r: String)
    ensures
        r@ == quality_text(*t, turns),
{
    let mut out: String = "────────────────────────────────────────────────────────────────\n  GENERATION QUALITY FLAGS\n    stop: eos=".to_owned();
    push_decimal(&mut out, t.eos as u64);
    out.append("  hit_max_new=");
    push_decimal(&mut out, t.cut as u64);
    out.append("  empty=");
    push_decimal(&mut out, t.empty as u64);
    out.append("  / ");
    push_decimal(&mut out, turns as u64);
    out.append(" turns\n");
    out
}

/// The line on turns that were cut.
pub open spec fn cut_text(t: Totals, max_new: usize) -> Seq<char> {
    "    ⚠ "@
        + decimal(t.cut as nat)
        + " turn(s) hit max_new="@
        + decimal(max_new as nat)
        + " — reply may be truncated mid-sentence\n"@
}

fn cut(t: &Totals, max_new: usize) -> (r: String)
    ensures
        r@ == cut_text(*t, max_new),
{
    let mut out: String = "    ⚠ ".to_owned();
    push_decimal(&mut out, t.cut as u64);
    out.append(" turn(s) hit max_new=");
    push_decimal(&mut out, max_new as u64);
    out.append(" — reply may be truncated mid-sentence\n");
    out
}

/// The lines on the processor.
pub open spec fn cpu_text(c: ReportCells) -> Seq<char> {
    "────────────────────────────────────────────────────────────────\n  CPU\n    util   min "@
        + led(c.cpu_min@, 5)
        + "%  avg "@
        + led(c.cpu_avg@, 5)
        + "%  max "@
        + led(c.cpu_max@, 5)
        + "%\n  GPU\n"@
}

fn cpu(c: &ReportCells) -> (r: String)
    ensures
        r@ == cpu_text(*c),
{
    let mut out: String = "────────────────────────────────────────────────────────────────\n  CPU\n    util   min ".to_owned();
    push_led(&mut out, c.cpu_min.as_str(), 5);
    out.append("%  avg ");
    push_led(&mut out, c.cpu_avg.as_str(), 5);
    out.append("%  max ");
    push_led(&mut out, c.cpu_max.as_str(), 5);
    out.append("%\n  GPU\n");
    out
}

/// The lines on the card.
pub open spec fn card_text(g: GpuCells) -> Seq<char> {
    "    compute  min "@
        + led(g.util_min@, 5)
        + "%  avg "@
        + led(g.util_avg@, 5)
        + "%  max "@
        + led(g.util_max@, 5)
        + "%\n    power    min "@
        + led(g.power_min@, 5)
        + " W  avg "@
        + led(g.power_avg@, 5)
        + " W  max "@
        + led(g.power_max@, 5)
        + " W\n    temp     min "@
        + led(g.temp_min@, 5)
        + " °C avg "@
        + led(g.temp_avg@, 5)
        + " °C max "@
        + led(g.temp_max@, 5)
        + " °C\n"@
}

fn card(g: &GpuCells) -> (r: String)
    ensures
        r@ == card_text(*g),
{
    let mut out: String = "    compute  min ".to_owned();
    push_led(&mut out, g.util_min.as_str(), 5);
    out.append("%  avg ");
    push_led(&mut out, g.util_avg.as_str(), 5);
    out.append("%  max ");
    push_led(&mut out, g.util_max.as_str(), 5);
    out.append("%\n    power    min ");
    push_led(&mut out, g.power_min.as_str(), 5);
    out.append(" W  avg ");
    push_led(&mut out, g.power_avg.as_str(), 5);
    out.append(" W  max ");
    push_led(&mut out, g.power_max.as_str(), 5);
    out.append(" W\n    temp     min ");
    push_led(&mut out, g.temp_min.as_str(), 5);
    out.append(" °C avg ");
    push_led(&mut out, g.temp_avg.as_str(), 5);
    out.append(" °C max ");
    push_led(&mut out, g.temp_max.as_str(), 5);
    out.append(" °C\n");
    out
}

/// The lines on the clocks of the card.
pub open spec fn clocks_text(g: GpuCells) -> Seq<char> {
    "    clocks   core avg "@
        + g.clock_avg@
        + " MHz (max "@
        + g.clock_max@
        + ")  mem avg "@
        + g.mem_clock@
        + " MHz\n    efficiency  "@
        + g.efficiency@
        + " decode_tok/s per GPU%   (higher = more tokens for same util)\n"@
}

fn clocks(g: &GpuCells) -> (r: String)
    ensures
        r@ == clocks_text(*g),
{
    let mut out: String = "    clocks   core avg ".to_owned();
    out.append(g.clock_avg.as_str());
    out.append(" MHz (max ");
    out.append(g.clock_max.as_str());
    out.append(")  mem avg ");
    out.append(g.mem_clock.as_str());
    out.append(" MHz\n    efficiency  ");
    out.append(g.efficiency.as_str());
    out.append(" decode_tok/s per GPU%   (higher = more tokens for same util)\n");
    out
}

/// The line on the energy of a token.
pub open spec fn energy_text(s: Seq<char>) -> Seq<char> {
    "    tok/J (rough)  "@
        + s
        + " decode tok per joule  [gen_tok / (avg_W × decode_s)]\n"@
}

fn energy(s: &str) -> (r: String)
    ensures
        r@ == energy_text(s@),
{
    let mut out: String = "    tok/J (rough)  ".to_owned();
    out.append(s);
    out.append(" decode tok per joule  [gen_tok / (avg_W × decode_s)]\n");
    out
}

/// The hint on memory that is left.
pub open spec fn headroom_text(s: Seq<char>) -> Seq<char> {
    "    • VRAM headroom ~"@
        + s
        + " MiB — not memory-capacity bound; speed ≠ fill VRAM.\n"@
}

fn headroom(s: &str) -> (r: String)
    ensures
        r@ == headroom_text(s@),
{
    let mut out: String = "    • VRAM headroom ~".to_owned();
    out.append(s);
    out.append(" MiB — not memory-capacity bound; speed ≠ fill VRAM.\n");
    out
}

/// The hint on a pace that fell.
pub open spec fn dropped_text(s: Seq<char>) -> Seq<char> {
    "    • Decode dropped "@
        + s
        + "% as ctx grew → attention/KV path dominates long chats.\n"@
}

fn dropped(s: &str) -> (r: String)
    ensures
        r@ == dropped_text(s@),
{
    let mut out: String = "    • Decode dropped ".to_owned();
    out.append(s);
    out.append("% as ctx grew → attention/KV path dominates long chats.\n");
    out
}

/// The hint on a card that is hot.
pub open spec fn hot_text(s: Seq<char>) -> Seq<char> {
    "    • GPU hot ("@
        + s
        + "°C) — possible thermal throttle; watch clocks.\n"@
}

fn hot(s: &str) -> (r: String)
    ensures
        r@ == hot_text(s@),
{
    let mut out: String = "    • GPU hot (".to_owned();
    out.append(s);
    out.append("°C) — possible thermal throttle; watch clocks.\n");
    out
}

/// The hint on a context that is nearly full.
pub open spec fn full_text(s: Seq<char>) -> Seq<char> {
    "    • Context nearly full ("@
        + s
        + "%) — risk of failures / need /reset.\n"@
}

fn full(s: &str) -> (r: String)
    ensures
        r@ == full_text(s@),
{
    let mut out: String = "    • Context nearly full (".to_owned();
    out.append(s);
    out.append("%) — risk of failures / need /reset.\n");
    out
}

/// The line of a hint that shows a number, or nothing.
pub open spec fn headroom_line(s: Option<String>) -> Seq<char> {
    match s {
        Some(t) => headroom_text(t@),
        None => Seq::empty(),
    }
}

/// The line of a hint that shows a number, or nothing.
pub open spec fn hot_line(s: Option<String>) -> Seq<char> {
    match s {
        Some(t) => hot_text(t@),
        None => Seq::empty(),
    }
}

/// The line of a hint that shows a number, or nothing.
pub open spec fn full_line(s: Option<String>) -> Seq<char> {
    match s {
        Some(t) => full_text(t@),
        None => Seq::empty(),
    }
}

/// The lines on what the numbers hint at.
pub open spec fn hints_text(c: ReportCells, t: Totals, turns: nat) -> Seq<char> {
    "────────────────────────────────────────────────────────────────\n  READOUT / HINTS\n"@
        + headroom_line(c.hints.headroom)
        + opt(c.hints.busy, "    • GPU util high but est weight BW low vs peak → kernels busy but not streaming weights efficiently (or util metric saturated).\n"@)
        + opt(c.hints.dropped, dropped_text(c.drop_pct@))
        + opt(turns > 1 && c.hints.heavy, "    • Later-turn prefill still heavy → each new token pays attention over long KV (expected) or rework batching.\n"@)
        + opt(c.hints.cpu, "    • CPU elevated → host launch/sync/copy may steal decode tok/s.\n"@)
        + hot_line(c.hints.hot)
        + opt(t.cut > 0, "    • Raise max_new (or profile cap) if answers look cut off.\n"@)
        + full_line(c.hints.full)
        + opt(c.hints.idle, "    • Low GPU util → launch-bound or CPU-bound; fuse kernels / less sync.\n"@)
        + opt(!c.hints.idle && c.hints.loaded, "    • High GPU util → optimize matmul/attention bandwidth next.\n"@)
}

fn hints(c: &ReportCells, t: &Totals, turns: usize) -> (r: String)
    ensures
        r@ == hints_text(*c, *t, turns as nat),
{
    let mut out: String = "────────────────────────────────────────────────────────────────\n  READOUT / HINTS\n".to_owned();
    let headroom_part: String = match &c.hints.headroom {
        Some(s) => headroom(s.as_str()),
        None => String::new(),
    };
    out.append(headroom_part.as_str());
    push_if(&mut out, c.hints.busy, "    • GPU util high but est weight BW low vs peak → kernels busy but not streaming weights efficiently (or util metric saturated).\n");
    push_if(&mut out, c.hints.dropped, dropped(c.drop_pct.as_str()).as_str());
    push_if(&mut out, turns > 1 && c.hints.heavy, "    • Later-turn prefill still heavy → each new token pays attention over long KV (expected) or rework batching.\n");
    push_if(&mut out, c.hints.cpu, "    • CPU elevated → host launch/sync/copy may steal decode tok/s.\n");
    let hot_part: String = match &c.hints.hot {
        Some(s) => hot(s.as_str()),
        None => String::new(),
    };
    out.append(hot_part.as_str());
    push_if(&mut out, t.cut > 0, "    • Raise max_new (or profile cap) if answers look cut off.\n");
    let full_part: String = match &c.hints.full {
        Some(s) => full(s.as_str()),
        None => String::new(),
    };
    out.append(full_part.as_str());
    push_if(&mut out, c.hints.idle, "    • Low GPU util → launch-bound or CPU-bound; fuse kernels / less sync.\n");
    push_if(&mut out, !c.hints.idle && c.hints.loaded, "    • High GPU util → optimize matmul/attention bandwidth next.\n");
    out
}

/// The lines of the first `n` turns.
pub open spec fn turn_lines(turns: Seq<TurnRow>, n: nat) -> Seq<char>
    decreases n,
{
    if n == 0 {
        Seq::empty()
    } else {
        turn_lines(turns, (n - 1) as nat) + turn_line_text(turns[n - 1])
    }
}

fn all_turns(turns: &[TurnRow]) -> (r: String)
    requires
        forall|i: int| 0 <= i < turns@.len() ==> (#[trigger] turns@[i]).index < usize::MAX,
    ensures
        r@ == turn_lines(turns@, turns@.len()),
{
    let mut out: String = String::new();
    let mut i: usize = 0;
    proof {
        assert(out@ =~= turn_lines(turns@, 0));
    }
    while i < turns.len()
        invariant
            i <= turns@.len(),
            forall|k: int| 0 <= k < turns@.len() ==> (#[trigger] turns@[k]).index < usize::MAX,
            out@ == turn_lines(turns@, i as nat),
        decreases turns@.len() - i,
    {
        out.append(turn_line(&turns[i]).as_str());
        i = i + 1;
    }
    out
}

/// The lines on the memory of the card, where it told something.
pub open spec fn memory_part(g: Option<GpuCells>) -> Seq<char> {
    match g {
        Some(g) => memory_text(g),
        None => Seq::empty(),
    }
}

/// The line on the memory of the host, where it told something.
pub open spec fn host_part(h: Option<HostCells>) -> Seq<char> {
    match h {
        Some(h) => host_text(h),
        None => Seq::empty(),
    }
}

/// The line on the energy of a token, where it is known.
pub open spec fn energy_part(s: Option<String>) -> Seq<char> {
    match s {
        Some(s) => energy_text(s@),
        None => Seq::empty(),
    }
}

/// The lines on the card, or that it told nothing.
pub open spec fn card_part(g: Option<GpuCells>) -> Seq<char> {
    match g {
        Some(g) => card_text(g) + clocks_text(g) + energy_part(g.energy),
        None => "    (nvidia-smi unavailable — check PATH / driver)\n"@,
    }
}

fn card_lines(g: &Option<GpuCells>) -> (r: String)
    ensures
        r@ == card_part(*g),
{
    match g {
        Some(g) => {
            let mut out: String = card(g);
            out.append(clocks(g).as_str());
            let last: String = match &g.energy {
                Some(s) => energy(s.as_str()),
                None => String::new(),
            };
            out.append(last.as_str());
            out
        },
        None => "    (nvidia-smi unavailable — check PATH / driver)\n".to_owned(),
    }
}

/// The report down to the summary.
#[verifier::opaque]
pub open spec fn front_text(
    mode: Seq<char>,
    stamp: Seq<char>,
    meta: ProfileMeta,
    turns: Seq<TurnRow>,
    samples: usize,
    c: ReportCells,
) -> Seq<char> {
    let t = all_totals(turns);
    head_text(mode, stamp, meta.model_path@)
        + shape_text(meta.cfg)
        + setup_text(meta, c, samples)
        + turn_lines(turns, turns.len())
        + latency_text(c)
        + throughput_text(c, t)
        + pace_text(c)
        + opt(turns.len() > 1, later_text(c))
        + bandwidth_text(c, t, meta.max_seq)
        + memory_part(c.gpu)
        + host_part(c.host)
        + quality_text(t, turns.len() as usize)
        + opt(t.cut > 0, cut_text(t, meta.max_new))
        + cpu_text(c)
        + card_part(c.gpu)
        + hints_text(c, t, turns.len())
        + "════════════════════════════════════════════════════════════════\n"@
}

fn front(
    mode: &str,
    stamp: &str,
    meta: &ProfileMeta,
    turns: &[TurnRow],
    samples: usize,
    c: &ReportCells,
) -> (r: String)
    requires
        meta.decode.wf(),
        sums_fit(turns@),
        forall|i: int| 0 <= i < turns@.len() ==> (#[trigger] turns@[i]).index < usize::MAX,
    ensures
        r@ == front_text(mode@, stamp@, *meta, turns@, samples, *c),
{
    let t: Totals = totals(turns);
    let mut out: String = head(mode, stamp, meta.model_path.as_str());
    out.append(shape(&meta.cfg).as_str());
    out.append(setup(meta, c, samples).as_str());
    out.append(all_turns(turns).as_str());
    out.append(latency(c).as_str());
    out.append(throughput(c, &t).as_str());
    out.append(pace(c).as_str());
    push_if(&mut out, turns.len() > 1, later(c).as_str());
    out.append(bandwidth(c, &t, meta.max_seq).as_str());
    let memory_lines: String = match &c.gpu {
        Some(g) => memory(g),
        None => String::new(),
    };
    out.append(memory_lines.as_str());
    let host_lines: String = match &c.host {
        Some(h) => host(h),
        None => String::new(),
    };
    out.append(host_lines.as_str());
    out.append(quality(&t, turns.len()).as_str());
    push_if(&mut out, t.cut > 0, cut(&t, meta.max_new).as_str());
    out.append(cpu(c).as_str());
    out.append(card_lines(&c.gpu).as_str());
    out.append(hints(c, &t, turns.len()).as_str());
    out.append("════════════════════════════════════════════════════════════════\n");
    reveal(front_text);
    out
}

/// A line of the summary.
pub open spec fn entry(key: Seq<char>, value: Seq<char>) -> Seq<char> {
    "    "@ + key + "="@ + value + "\n"@
}

fn push_entry(out: &mut String, key: &str, value: &str)
    ensures
        final(out)@ == old(out)@ + entry(key@, value@),
{
    out.append("    ");
    out.append(key);
    out.append("=");
    out.append(value);
    out.append("\n");
    proof {
        assert(out@ =~= old(out)@ + entry(key@, value@));
    }
}

/// The lines of the summary that say what was run.
pub open spec fn summary_head(stamp: Seq<char>, slug: Seq<char>, mode: Seq<char>, meta: ProfileMeta) -> Seq<
    char,
> {
    "  SUMMARY_KV\n"@
        + entry("stamp"@, stamp)
        + entry("model"@, slug)
        + entry("model_path"@, meta.model_path@)
        + entry("decode_backend"@, meta.decode.view().name)
        + entry("mode"@, mode)
}

/// The lines of the summary that say what was measured, after `s`.
pub open spec fn with_measures(s: Seq<char>, c: SummaryCells, t: Totals) -> Seq<char> {
    s
        + entry("overall_decode_tps"@, c.decode_tps@)
        + entry("overall_prefill_tps"@, c.prefill_tps@)
        + entry("decode_tps_first"@, c.first_tps@)
        + entry("decode_tps_last"@, c.last_tps@)
        + entry("decode_drop_pct"@, c.drop_pct@)
        + entry("total_prefill_ms"@, c.prefill_ms@)
        + entry("total_decode_ms"@, c.decode_ms@)
        + entry("total_gen"@, decimal(t.reply as nat))
        + entry("total_prompt"@, decimal(t.prompt as nat))
        + entry("final_ctx"@, decimal(t.final_ctx as nat))
        + entry("wall_s"@, c.wall_s@)
        + entry("first_prefill_ms"@, c.first_prefill@)
        + entry("later_prefill_avg_ms"@, c.later_prefill@)
}

/// The whole report.
pub open spec fn report_text(
    mode: Seq<char>,
    stamp: Seq<char>,
    slug: Seq<char>,
    meta: ProfileMeta,
    turns: Seq<TurnRow>,
    samples: usize,
    c: ReportCells,
) -> Seq<char> {
    with_measures(
        front_text(mode, stamp, meta, turns, samples, c) + summary_head(stamp, slug, mode, meta),
        c.summary,
        all_totals(turns),
    ) + "════════════════════════════════════════════════════════════════\n"@
}

fn summary_start(stamp: &str, slug: &str, mode: &str, meta: &ProfileMeta) -> (r: String)
    requires
        meta.decode.wf(),
    ensures
        r@ == summary_head(stamp@, slug@, mode@, *meta),
{
    let mut out: String = "  SUMMARY_KV\n".to_owned();
    push_entry(&mut out, "stamp", stamp);
    push_entry(&mut out, "model", slug);
    push_entry(&mut out, "model_path", meta.model_path.as_str());
    push_entry(&mut out, "decode_backend", meta.decode.name());
    push_entry(&mut out, "mode", mode);
    out
}

fn push_measures(out: &mut String, c: &SummaryCells, t: &Totals)
    ensures
        final(out)@ == with_measures(old(out)@, *c, *t),
{
    push_entry(out, "overall_decode_tps", c.decode_tps.as_str());
    push_entry(out, "overall_prefill_tps", c.prefill_tps.as_str());
    push_entry(out, "decode_tps_first", c.first_tps.as_str());
    push_entry(out, "decode_tps_last", c.last_tps.as_str());
    push_entry(out, "decode_drop_pct", c.drop_pct.as_str());
    push_entry(out, "total_prefill_ms", c.prefill_ms.as_str());
    push_entry(out, "total_decode_ms", c.decode_ms.as_str());
    push_entry(out, "total_gen", decimal_string(t.reply as u64).as_str());
    push_entry(out, "total_prompt", decimal_string(t.prompt as u64).as_str());
    push_entry(out, "final_ctx", decimal_string(t.final_ctx as u64).as_str());
    push_entry(out, "wall_s", c.wall_s.as_str());
    push_entry(out, "first_prefill_ms", c.first_prefill.as_str());
    push_entry(out, "later_prefill_avg_ms", c.later_prefill.as_str());
}

/// The whole report. The numbers that were measured come as texts.
pub fn report(
    mode: &str,
    stamp: &str,
    slug: &str,
    meta: &ProfileMeta,
    turns: &[TurnRow],
    samples: usize,
    c: &ReportCells,
) -> (r: String)
    requires
        meta.decode.wf(),
        sums_fit(turns@),
        forall|i: int| 0 <= i < turns@.len() ==> (#[trigger] turns@[i]).index < usize::MAX,
    ensures
        r@ == report_text(mode@, stamp@, slug@, *meta, turns@, samples, *c),
{
    let t: Totals = totals(turns);
    let mut out: String = front(mode, stamp, meta, turns, samples, c);
    out.append(summary_start(stamp, slug, mode, meta).as_str());
    push_measures(&mut out, &c.summary, &t);
    out.append("════════════════════════════════════════════════════════════════\n");
    out
}

/// What a report tells of its profile: texts of numbers, and the context at the
/// end.
#[derive(Debug)]
pub struct Summary {
    pub decode_tps: Option<String>,
    pub first_tps: Option<String>,
    pub last_tps: Option<String>,
    pub drop_pct: Option<String>,
    pub final_ctx: usize,
}

/// The same as a mathematical value.
#[verifier::ext_equal]
pub struct SummaryView {
    pub decode_tps: Option<Seq<char>>,
    pub first_tps: Option<Seq<char>>,
    pub last_tps: Option<Seq<char>>,
    pub drop_pct: Option<Seq<char>>,
    pub final_ctx: nat,
}

impl View for Summary {
    type V = SummaryView;

    open spec fn view(&self) -> SummaryView {
        SummaryView {
            decode_tps: maybe_text(self.decode_tps),
            first_tps: maybe_text(self.first_tps),
            last_tps: maybe_text(self.last_tps),
            drop_pct: maybe_text(self.drop_pct),
            final_ctx: self.final_ctx as nat,
        }
    }
}

/// Whether a line tells the value of `key`.
pub open spec fn tells(line: Seq<char>, key: Seq<char>) -> bool {
    has_prefix(line, key + "="@)
}

/// The value that a line tells of `key`.
pub open spec fn told(line: Seq<char>, key: Seq<char>) -> Seq<char> {
    line.skip((key + "="@).len() as int)
}

/// What is known after one more line.
pub open spec fn read_line(st: SummaryView, line: Seq<char>) -> SummaryView {
    let t = trimmed(line);
    if tells(t, "overall_decode_tps"@) {
        SummaryView { decode_tps: Some(told(t, "overall_decode_tps"@)), ..st }
    } else if tells(t, "decode_tps_first"@) {
        SummaryView { first_tps: Some(told(t, "decode_tps_first"@)), ..st }
    } else if tells(t, "decode_tps_last"@) {
        SummaryView { last_tps: Some(told(t, "decode_tps_last"@)), ..st }
    } else if tells(t, "decode_drop_pct"@) {
        SummaryView { drop_pct: Some(told(t, "decode_drop_pct"@)), ..st }
    } else if tells(t, "final_ctx"@) {
        SummaryView {
            final_ctx: match parsed_number(told(t, "final_ctx"@)) {
                Some(n) => n,
                None => 0,
            },
            ..st
        }
    } else {
        st
    }
}

/// What is known after all lines: the last line that tells a value counts.
pub open spec fn read_rows(rows: Seq<Seq<char>>) -> SummaryView
    decreases rows.len(),
{
    if rows.len() == 0 {
        SummaryView {
            decode_tps: None,
            first_tps: None,
            last_tps: None,
            drop_pct: None,
            final_ctx: 0,
        }
    } else {
        read_line(read_rows(rows.drop_last()), rows.last())
    }
}

/// What a report tells.
pub open spec fn summary_of(report: Seq<char>) -> SummaryView {
    read_rows(split_on(report, '\n'))
}

fn value_told(line: &[char], key: &str) -> (r: Option<String>)
    ensures
        match r {
            Some(v) => tells(line@, key@) && v@ == told(line@, key@),
            None => !tells(line@, key@),
        },
{
    let mut head: String = key.to_owned();
    head.append("=");
    match skip_chars(line, head.as_str()) {
        Some(rest) => Some(string_of(&rest)),
        None => None,
    }
}

fn add_line(st: Summary, line: &[char]) -> (r: Summary)
    ensures
        r@ == read_line(st@, line@),
{
    let t: Vec<char> = trim(line);
    let mut st: Summary = st;
    if let Some(v) = value_told(&t, "overall_decode_tps") {
        st.decode_tps = Some(v);
    } else if let Some(v) = value_told(&t, "decode_tps_first") {
        st.first_tps = Some(v);
    } else if let Some(v) = value_told(&t, "decode_tps_last") {
        st.last_tps = Some(v);
    } else if let Some(v) = value_told(&t, "decode_drop_pct") {
        st.drop_pct = Some(v);
    } else if let Some(v) = value_told(&t, "final_ctx") {
        st.final_ctx = match parse_number(&chars_of(v.as_str())) {
            Some(n) => n,
            None => 0,
        };
    }
    st
}

/// What a report tells.
pub fn parse_summary_metrics(report: &str) -> (r: Summary)
    ensures
        r@ == summary_of(report@),
{
    let rows: Vec<Vec<char>> = split_chars(&chars_of(report), '\n');
    let ghost views: Seq<Seq<char>> = split_on(report@, '\n');
    let mut st: Summary = Summary {
        decode_tps: None,
        first_tps: None,
        last_tps: None,
        drop_pct: None,
        final_ctx: 0,
    };
    let mut i: usize = 0;
    proof {
        assert(views.take(0) =~= Seq::<Seq<char>>::empty());
    }
    while i < rows.len()
        invariant
            i <= rows@.len() == views.len(),
            forall|k: int| 0 <= k < rows@.len() ==> (#[trigger] rows@[k])@ == views[k],
            st@ == read_rows(views.take(i as int)),
        decreases rows@.len() - i,
    {
        proof {
            assert(rows@[i as int]@ == views[i as int]);
            assert(views.take(i as int + 1).drop_last() =~= views.take(i as int));
        }
        st = add_line(st, &rows[i]);
        i = i + 1;
    }
    proof {
        assert(views.take(views.len() as int) =~= views);
    }
    st
}

/// Whether a text can be a value: nothing in it parts lines or is trimmed.
pub open spec fn is_clean(s: Seq<char>) -> bool {
    forall|i: int| 0 <= i < s.len() ==> !is_white_space(#[trigger] s[i])
}

/// Whether a text can be a key: a value that is not empty and has no equals sign.
pub open spec fn is_key(s: Seq<char>) -> bool {
    &&& is_clean(s)
    &&& s.len() > 0
    &&& forall|i: int| 0 <= i < s.len() ==> #[trigger] s[i] != '='
}

proof fn lemma_line_joins(s: Seq<char>, l: Seq<char>)
    requires
        s.len() == 0 || s.last() == '\n',
        forall|i: int| 0 <= i < l.len() ==> #[trigger] l[i] != '\n',
    ensures
        split_on(s + l, '\n') == split_on(s, '\n').drop_last().push(l),
    decreases l.len(),
{
    law_split_not_empty(s, '\n');
    let rows = split_on(s, '\n');
    if l.len() == 0 {
        assert(s + l =~= s);
        assert(rows.last() =~= l);
        assert(rows =~= rows.drop_last().push(l));
    } else {
        lemma_line_joins(s, l.drop_last());
        assert((s + l).drop_last() =~= s + l.drop_last());
        assert((s + l).last() == l.last());
        assert(rows.drop_last().push(l.drop_last()).drop_last() =~= rows.drop_last());
        assert(l.drop_last().push(l.last()) =~= l);
    }
}

/// A line that is ended is read, and nothing else.
proof fn lemma_line_is_read(s: Seq<char>, l: Seq<char>)
    requires
        s.len() == 0 || s.last() == '\n',
        forall|i: int| 0 <= i < l.len() ==> #[trigger] l[i] != '\n',
    ensures
        summary_of((s + l).push('\n')) == read_line(summary_of(s), l),
{
    law_split_not_empty(s, '\n');
    let rows = split_on(s, '\n');
    let none = Seq::<char>::empty();
    lemma_line_joins(s, l);
    lemma_line_joins(s, none);
    assert(s + none =~= s);
    lemma_nothing_is_told(read_rows(rows.drop_last()));
    assert(rows.last() == none);
    let now = (s + l).push('\n');
    assert(now.drop_last() =~= s + l);
    assert(split_on(now, '\n') == split_on(s + l, '\n').push(none));
    assert(split_on(now, '\n').drop_last() =~= split_on(s + l, '\n'));
    lemma_nothing_is_told(read_rows(split_on(s + l, '\n')));
    assert(split_on(s + l, '\n').drop_last() =~= rows.drop_last());
}

proof fn lemma_nothing_is_told(st: SummaryView)
    ensures
        read_line(st, Seq::empty()) == st,
{
    reveal_strlit("=");
    assert(trimmed(Seq::<char>::empty()) =~= Seq::<char>::empty());
}

/// A line with a key and a value tells that key and no other.
proof fn lemma_one_is_told(key: Seq<char>, value: Seq<char>, other: Seq<char>)
    requires
        is_key(key),
        is_key(other),
    ensures
        tells(key + "="@ + value, other) <==> key == other,
        told(key + "="@ + value, key) == value,
{
    reveal_strlit("=");
    let line = key + "="@ + value;
    let n = other.len() as int;
    assert(line[key.len() as int] == '=');
    assert(told(line, key) =~= value);
    if key == other {
        assert(line.take(n + 1) =~= other + "="@);
    }
    if tells(line, other) {
        assert(line.take(n + 1)[n] == (other + "="@)[n]);
        assert(line[n] == '=');
        if n < key.len() {
            assert(line[n] == key[n]);
        }
        if n > key.len() {
            assert(line.take(n + 1)[key.len() as int] == (other + "="@)[key.len() as int]);
            assert(other[key.len() as int] == '=');
        }
        assert forall|i: int| 0 <= i < n implies key[i] == other[i] by {
            assert(line.take(n + 1)[i] == (other + "="@)[i]);
        }
        assert(key =~= other);
    }
}

proof fn lemma_entry_trims(key: Seq<char>, value: Seq<char>)
    requires
        is_key(key),
        is_clean(value),
    ensures
        trimmed("    "@ + key + "="@ + value) == key + "="@ + value,
{
    reveal_strlit("    ");
    reveal_strlit("=");
    let rest = key + "="@ + value;
    let line = "    "@ + key + "="@ + value;
    assert(rest[0] == key[0]);
    assert(trim_start(rest) == rest);
    let l1 = line.drop_first();
    let l2 = l1.drop_first();
    let l3 = l2.drop_first();
    assert(line[0] == ' ' && l1[0] == ' ' && l2[0] == ' ' && l3[0] == ' ');
    assert(l3.drop_first() =~= rest);
    assert(trim_start(l3) == rest);
    assert(trim_start(l2) == rest);
    assert(trim_start(l1) == rest);
    assert(trim_start(line) == rest);
    if value.len() > 0 {
        assert(rest.last() == value.last());
    } else {
        assert(rest.last() == '=');
    }
    assert(trim_end(rest) == rest);
}

/// A line of the summary is read as its key and value.
proof fn lemma_entry_is_read(s: Seq<char>, key: Seq<char>, value: Seq<char>)
    requires
        s.len() > 0,
        s.last() == '\n',
        is_key(key),
        is_clean(value),
    ensures
        summary_of(s + entry(key, value)) == read_entry(summary_of(s), key, value),
        (s + entry(key, value)).last() == '\n',
{
    reveal_strlit("    ");
    reveal_strlit("=");
    reveal_strlit("\n");
    let line = "    "@ + key + "="@ + value;
    assert forall|i: int| 0 <= i < line.len() implies #[trigger] line[i] != '\n' by {
        if i < 4 {
            assert(line[i] == "    "@[i]);
        } else if i < 4 + key.len() {
            assert(line[i] == key[i - 4]);
        } else if i == 4 + key.len() {
            assert(line[i] == '=');
        } else {
            assert(line[i] == value[i - 5 - key.len()]);
        }
    }
    lemma_line_is_read(s, line);
    assert((s + line).push('\n') =~= s + entry(key, value));
    lemma_entry_trims(key, value);
    lemma_keys();
    lemma_one_is_told(key, value, "overall_decode_tps"@);
    lemma_one_is_told(key, value, "decode_tps_first"@);
    lemma_one_is_told(key, value, "decode_tps_last"@);
    lemma_one_is_told(key, value, "decode_drop_pct"@);
    lemma_one_is_told(key, value, "final_ctx"@);
}

/// What is known after a line with this key and value.
pub open spec fn read_entry(st: SummaryView, key: Seq<char>, value: Seq<char>) -> SummaryView {
    if key == "overall_decode_tps"@ {
        SummaryView { decode_tps: Some(value), ..st }
    } else if key == "decode_tps_first"@ {
        SummaryView { first_tps: Some(value), ..st }
    } else if key == "decode_tps_last"@ {
        SummaryView { last_tps: Some(value), ..st }
    } else if key == "decode_drop_pct"@ {
        SummaryView { drop_pct: Some(value), ..st }
    } else if key == "final_ctx"@ {
        SummaryView {
            final_ctx: match parsed_number(value) {
                Some(n) => n,
                None => 0,
            },
            ..st
        }
    } else {
        st
    }
}

proof fn lemma_keys()
    ensures
        is_key("overall_decode_tps"@),
        is_key("decode_tps_first"@),
        is_key("decode_tps_last"@),
        is_key("decode_drop_pct"@),
        is_key("final_ctx"@),
{
    reveal_strlit("overall_decode_tps");
    reveal_strlit("decode_tps_first");
    reveal_strlit("decode_tps_last");
    reveal_strlit("decode_drop_pct");
    reveal_strlit("final_ctx");
}

/// The other keys of the summary are keys, and none of them is read.
proof fn lemma_other_keys(st: SummaryView, value: Seq<char>)
    ensures
        is_key("overall_prefill_tps"@) && read_entry(st, "overall_prefill_tps"@, value) == st,
        is_key("total_prefill_ms"@) && read_entry(st, "total_prefill_ms"@, value) == st,
        is_key("total_decode_ms"@) && read_entry(st, "total_decode_ms"@, value) == st,
        is_key("total_gen"@) && read_entry(st, "total_gen"@, value) == st,
        is_key("total_prompt"@) && read_entry(st, "total_prompt"@, value) == st,
        is_key("wall_s"@) && read_entry(st, "wall_s"@, value) == st,
        is_key("first_prefill_ms"@) && read_entry(st, "first_prefill_ms"@, value) == st,
        is_key("later_prefill_avg_ms"@) && read_entry(st, "later_prefill_avg_ms"@, value) == st,
{
    lemma_first_chars();
    reveal_strlit("overall_prefill_tps");
    reveal_strlit("total_prefill_ms");
    reveal_strlit("total_decode_ms");
    reveal_strlit("total_gen");
    reveal_strlit("total_prompt");
    reveal_strlit("wall_s");
    reveal_strlit("first_prefill_ms");
    reveal_strlit("later_prefill_avg_ms");
    assert("overall_prefill_tps"@.len() == 19);
    assert("first_prefill_ms"@.len() == 16);
}

proof fn lemma_first_chars()
    ensures
        "overall_decode_tps"@.len() == 18 && "overall_decode_tps"@[0] == 'o',
        "decode_tps_first"@.len() == 16 && "decode_tps_first"@[0] == 'd',
        "decode_tps_last"@.len() == 15 && "decode_tps_last"@[0] == 'd' && "decode_tps_last"@[7]
            == 't',
        "decode_drop_pct"@.len() == 15 && "decode_drop_pct"@[0] == 'd' && "decode_drop_pct"@[7]
            == 'd',
        "final_ctx"@.len() == 9 && "final_ctx"@[0] == 'f',
{
    reveal_strlit("overall_decode_tps");
    reveal_strlit("decode_tps_first");
    reveal_strlit("decode_tps_last");
    reveal_strlit("decode_drop_pct");
    reveal_strlit("final_ctx");
}

/// All texts of the summary can be values.
pub open spec fn cells_clean(c: SummaryCells) -> bool {
    &&& is_clean(c.decode_tps@)
    &&& is_clean(c.prefill_tps@)
    &&& is_clean(c.first_tps@)
    &&& is_clean(c.last_tps@)
    &&& is_clean(c.drop_pct@)
    &&& is_clean(c.prefill_ms@)
    &&& is_clean(c.decode_ms@)
    &&& is_clean(c.wall_s@)
    &&& is_clean(c.first_prefill@)
    &&& is_clean(c.later_prefill@)
}

/// What the summary of a profile tells.
pub open spec fn summary_told(c: SummaryCells, t: Totals) -> SummaryView {
    SummaryView {
        decode_tps: Some(c.decode_tps@),
        first_tps: Some(c.first_tps@),
        last_tps: Some(c.last_tps@),
        drop_pct: Some(c.drop_pct@),
        final_ctx: t.final_ctx as nat,
    }
}

proof fn lemma_number_clean(n: nat)
    ensures
        is_clean(decimal(n)),
{
    law_number_has_digits(n);
}

proof fn lemma_measures_are_read(s: Seq<char>, c: SummaryCells, t: Totals)
    requires
        s.len() > 0,
        s.last() == '\n',
        cells_clean(c),
    ensures
        summary_of(with_measures(s, c, t)) == summary_told(c, t),
        with_measures(s, c, t).last() == '\n',
{
    lemma_keys();
    lemma_first_chars();
    lemma_number_clean(t.reply as nat);
    lemma_number_clean(t.prompt as nat);
    lemma_number_clean(t.final_ctx as nat);
    law_number_reads_back(t.final_ctx);
    let s1 = s + entry("overall_decode_tps"@, c.decode_tps@);
    lemma_entry_is_read(s, "overall_decode_tps"@, c.decode_tps@);
    lemma_other_keys(summary_of(s1), c.prefill_tps@);
    let s2 = s1 + entry("overall_prefill_tps"@, c.prefill_tps@);
    lemma_entry_is_read(s1, "overall_prefill_tps"@, c.prefill_tps@);
    let s3 = s2 + entry("decode_tps_first"@, c.first_tps@);
    lemma_entry_is_read(s2, "decode_tps_first"@, c.first_tps@);
    let s4 = s3 + entry("decode_tps_last"@, c.last_tps@);
    lemma_entry_is_read(s3, "decode_tps_last"@, c.last_tps@);
    let s5 = s4 + entry("decode_drop_pct"@, c.drop_pct@);
    lemma_entry_is_read(s4, "decode_drop_pct"@, c.drop_pct@);
    lemma_other_keys(summary_of(s5), c.prefill_ms@);
    let s6 = s5 + entry("total_prefill_ms"@, c.prefill_ms@);
    lemma_entry_is_read(s5, "total_prefill_ms"@, c.prefill_ms@);
    lemma_other_keys(summary_of(s6), c.decode_ms@);
    let s7 = s6 + entry("total_decode_ms"@, c.decode_ms@);
    lemma_entry_is_read(s6, "total_decode_ms"@, c.decode_ms@);
    lemma_other_keys(summary_of(s7), decimal(t.reply as nat));
    let s8 = s7 + entry("total_gen"@, decimal(t.reply as nat));
    lemma_entry_is_read(s7, "total_gen"@, decimal(t.reply as nat));
    lemma_other_keys(summary_of(s8), decimal(t.prompt as nat));
    let s9 = s8 + entry("total_prompt"@, decimal(t.prompt as nat));
    lemma_entry_is_read(s8, "total_prompt"@, decimal(t.prompt as nat));
    let s10 = s9 + entry("final_ctx"@, decimal(t.final_ctx as nat));
    lemma_entry_is_read(s9, "final_ctx"@, decimal(t.final_ctx as nat));
    lemma_other_keys(summary_of(s10), c.wall_s@);
    let s11 = s10 + entry("wall_s"@, c.wall_s@);
    lemma_entry_is_read(s10, "wall_s"@, c.wall_s@);
    lemma_other_keys(summary_of(s11), c.first_prefill@);
    let s12 = s11 + entry("first_prefill_ms"@, c.first_prefill@);
    lemma_entry_is_read(s11, "first_prefill_ms"@, c.first_prefill@);
    lemma_other_keys(summary_of(s12), c.later_prefill@);
    lemma_entry_is_read(s12, "later_prefill_avg_ms"@, c.later_prefill@);
}

/// What a report tells is read back: whatever else stands in it, the numbers of
/// its summary and its final context are what was measured.
pub proof fn law_summary_reads_back(
    mode: Seq<char>,
    stamp: Seq<char>,
    slug: Seq<char>,
    meta: ProfileMeta,
    turns: Seq<TurnRow>,
    samples: usize,
    c: ReportCells,
)
    requires
        cells_clean(c.summary),
    ensures
        summary_of(report_text(mode, stamp, slug, meta, turns, samples, c)) == summary_told(
            c.summary,
            all_totals(turns),
        ),
{
    lemma_report_reads_back(
        front_text(mode, stamp, meta, turns, samples, c),
        stamp,
        slug,
        mode,
        meta,
        c.summary,
        all_totals(turns),
    );
}

proof fn lemma_report_reads_back(
    front: Seq<char>,
    stamp: Seq<char>,
    slug: Seq<char>,
    mode: Seq<char>,
    meta: ProfileMeta,
    c: SummaryCells,
    t: Totals,
)
    requires
        cells_clean(c),
    ensures
        summary_of(with_measures(front + summary_head(stamp, slug, mode, meta), c, t) + "════════════════════════════════════════════════════════════════\n"@)
            == summary_told(c, t),
{
    let start = front + summary_head(stamp, slug, mode, meta);
    reveal_strlit("\n");
    assert(entry("mode"@, mode).last() == '\n');
    assert(start.last() == '\n');
    lemma_measures_are_read(start, c, t);
    lemma_border(with_measures(start, c, t));
}

/// The line below the summary tells nothing.
proof fn lemma_border(s: Seq<char>)
    requires
        s.len() > 0,
        s.last() == '\n',
    ensures
        summary_of(s + "════════════════════════════════════════════════════════════════\n"@) == summary_of(s),
{
    reveal_strlit("════════════════════════════════════════════════════════════════\n");
    let line = "════════════════════════════════════════════════════════════════\n"@.drop_last();
    assert((s + line).push('\n') =~= s + "════════════════════════════════════════════════════════════════\n"@);
    lemma_line_is_read(s, line);
    assert(trim_start(line) == line);
    assert(trim_end(line) == line);
    lemma_first_chars();
    let st = summary_of(s);
    assert(line[0] == '═');
    lemma_no_tell(line, "overall_decode_tps"@);
    lemma_no_tell(line, "decode_tps_first"@);
    lemma_no_tell(line, "decode_tps_last"@);
    lemma_no_tell(line, "decode_drop_pct"@);
    lemma_no_tell(line, "final_ctx"@);
}

proof fn lemma_no_tell(line: Seq<char>, key: Seq<char>)
    requires
        key.len() > 0,
        line.len() > 0,
        line[0] != key[0],
    ensures
        !tells(line, key),
{
    if tells(line, key) {
        assert(line.take((key + "="@).len() as int)[0] == (key + "="@)[0]);
    }
}

/// A cell is led by spaces up to its width, and a longer one stays.
pub proof fn law_led(s: Seq<char>, width: nat)
    ensures
        led(s, width).len() == (if s.len() >= width {
            s.len()
        } else {
            width
        }),
        led(s, width).skip(led(s, width).len() - s.len()) == s,
        forall|i: int| 0 <= i < led(s, width).len() - s.len() ==> #[trigger] led(s, width)[i] == ' ',
    decreases width,
{
    if s.len() < width {
        let r = led(s, (width - 1) as nat);
        law_led(s, (width - 1) as nat);
        let all = led(s, width);
        assert(all.skip(all.len() - s.len()) =~= r.skip(r.len() - s.len()));
        assert forall|i: int| 0 <= i < all.len() - s.len() implies #[trigger] all[i] == ' ' by {
            if i > 0 {
                assert(all[i] == r[i - 1]);
            }
        }
    } else {
        assert(s.skip(0) =~= s);
    }
}

} // verus!
