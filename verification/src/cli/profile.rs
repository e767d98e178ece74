//! Profiles: what is asked of the model, what is counted, and under which names
//! the reports are kept.
use crate::cuda::decode::{parsed, unknown_sentence, DecodeBackend};
use crate::path::{file_stem, law_one_reading, name_by, portable, reads, slashes, stem_of};
use crate::session::StopReason;
use crate::text::{
    chars_of, decimal, has_prefix, maybe_text, push_decimal, skip_chars, split_chars, split_on, string_of,
    trim, trimmed,
};
use vstd::prelude::*;

verus! {

/// Most tokens of a reply while a profile runs.
pub const PROFILE_MAX_NEW: usize = 128;

/// The directory of the reports.
pub const PROFILE_LOG_DIR: &'static str = "profile-logs";

/// The first line of the list of reports.
pub const INDEX_HEADER: &'static str =
    "stamp,model,decode,file,overall_decode_tps,decode_tps_first,decode_tps_last,decode_drop_pct,final_ctx";

/// What is said to the model, turn by turn.
pub open spec fn script_lines() -> Seq<Seq<char>> {
    seq![
        "hi, who are you?"@,
        "what can you help me with in one sentence?"@,
        "ok give me 3 bullet ideas for a weekend project"@,
        "expand on the second idea a bit more"@,
        "summarize everything we talked about so far"@,
    ]
}

/// Texts as sequences of characters.
pub open spec fn texts(v: Seq<String>) -> Seq<Seq<char>> {
    v.map_values(|s: String| s@)
}

/// What a profile runs.
#[derive(Debug)]
pub struct ProfilePlan {
    pub script: Vec<String>,
    pub mode: &'static str,
    pub max_new: usize,
}

/// What a profile runs: one prompt where one is given, else a talk of several
/// turns. The replies are not longer than a profile allows.
pub fn plan_profile(prompt: Option<&str>, max_new: usize) -> (r: ProfilePlan)
    ensures
        match prompt {
            Some(p) => texts(r.script@) == seq![p@] && r.mode@ == "single-turn"@,
            None => texts(r.script@) == script_lines() && r.mode@ == "multi-turn"@,
        },
        r.max_new == (if max_new < PROFILE_MAX_NEW {
            max_new
        } else {
            PROFILE_MAX_NEW
        }),
{
    let limit: usize = if max_new < PROFILE_MAX_NEW {
        max_new
    } else {
        PROFILE_MAX_NEW
    };
    match prompt {
        Some(p) => {
            let script: Vec<String> = vec![p.to_owned()];
            proof {
                assert(texts(script@) =~= seq![p@]);
            }
            ProfilePlan { script, mode: "single-turn", max_new: limit }
        },
        None => {
            let script: Vec<String> = vec![
                "hi, who are you?".to_owned(),
                "what can you help me with in one sentence?".to_owned(),
                "ok give me 3 bullet ideas for a weekend project".to_owned(),
                "expand on the second idea a bit more".to_owned(),
                "summarize everything we talked about so far".to_owned(),
            ];
            proof {
                assert(texts(script@) =~= script_lines());
            }
            ProfilePlan { script, mode: "multi-turn", max_new: limit }
        },
    }
}

/// The attention path that an argument chooses, or the sentence that refuses it.
pub fn parse_decode(s: &str) -> (r: Result<DecodeBackend, String>)
    ensures
        match r {
            Ok(b) => b.wf() && parsed(s@) == Some(b.idx as nat),
            Err(e) => parsed(s@) is None && e@ == unknown_sentence(s@),
        },
{
    match DecodeBackend::parse_name(s) {
        Ok(b) => Ok(b),
        Err(e) => Err(e.message()),
    }
}

/// What is counted in a turn. The times are texts that were printed of them.
#[derive(Debug)]
pub struct TurnRow {
    pub index: usize,
    pub user: String,
    pub prompt_tokens: usize,
    pub gen_tokens: usize,
    pub ctx_before: usize,
    pub ctx_len: usize,
    pub stop: StopReason,
    pub hit_max_new: bool,
    /// Milliseconds of the prompt, without decimals.
    pub prefill: String,
    /// Tokens of the reply in a second, with one decimal.
    pub decode_tps: String,
    /// Milliseconds to the first token, without decimals.
    pub ttft: String,
}

/// The tokens of the prompts of the first `n` turns.
pub open spec fn prompt_sum(turns: Seq<TurnRow>, n: nat) -> nat
    decreases n,
{
    if n == 0 {
        0
    } else {
        prompt_sum(turns, (n - 1) as nat) + turns[n - 1].prompt_tokens as nat
    }
}

/// The tokens of the replies of the first `n` turns.
pub open spec fn reply_sum(turns: Seq<TurnRow>, n: nat) -> nat
    decreases n,
{
    if n == 0 {
        0
    } else {
        reply_sum(turns, (n - 1) as nat) + turns[n - 1].gen_tokens as nat
    }
}

/// By how much the context grew from one turn to the next.
pub open spec fn growth(before: TurnRow, after: TurnRow) -> nat {
    if after.ctx_len > before.ctx_len {
        (after.ctx_len - before.ctx_len) as nat
    } else {
        0
    }
}

/// By how much the context grew between the first `n` turns.
pub open spec fn growth_sum(turns: Seq<TurnRow>, n: nat) -> nat
    decreases n,
{
    if n <= 1 {
        0
    } else {
        growth_sum(turns, (n - 1) as nat) + growth(turns[n - 2], turns[n - 1])
    }
}

/// How many of the first `n` turns were cut.
pub open spec fn cut_count(turns: Seq<TurnRow>, n: nat) -> nat
    decreases n,
{
    if n == 0 {
        0
    } else {
        cut_count(turns, (n - 1) as nat) + (if turns[n - 1].hit_max_new {
            1nat
        } else {
            0nat
        })
    }
}

/// How many of the first `n` turns ended in this way.
pub open spec fn stop_count(turns: Seq<TurnRow>, stop: StopReason, n: nat) -> nat
    decreases n,
{
    if n == 0 {
        0
    } else {
        stop_count(turns, stop, (n - 1) as nat) + (if turns[n - 1].stop == stop {
            1nat
        } else {
            0nat
        })
    }
}

/// What is counted in all turns together.
#[derive(Debug, Clone, Copy, PartialEq, Eq, Structural)]
pub struct Totals {
    pub prompt: usize,
    pub reply: usize,
    /// The context after the last turn.
    pub final_ctx: usize,
    pub growth: usize,
    /// How many times the context could grow.
    pub growth_steps: usize,
    pub cut: usize,
    pub eos: usize,
    pub empty: usize,
}

/// The sums can be held.
pub open spec fn sums_fit(turns: Seq<TurnRow>) -> bool {
    &&& prompt_sum(turns, turns.len()) <= usize::MAX
    &&& reply_sum(turns, turns.len()) <= usize::MAX
    &&& growth_sum(turns, turns.len()) <= usize::MAX
}

/// The sums of all turns.
pub open spec fn all_totals(turns: Seq<TurnRow>) -> Totals {
    let n = turns.len();
    Totals {
        prompt: prompt_sum(turns, n) as usize,
        reply: reply_sum(turns, n) as usize,
        final_ctx: if n > 0 {
            turns.last().ctx_len
        } else {
            0
        },
        growth: growth_sum(turns, n) as usize,
        growth_steps: if n > 0 {
            (n - 1) as usize
        } else {
            0
        },
        cut: cut_count(turns, n) as usize,
        eos: stop_count(turns, StopReason::Eos, n) as usize,
        empty: stop_count(turns, StopReason::Empty, n) as usize,
    }
}

/// No sum falls when a turn is added.
proof fn lemma_sums_grow(turns: Seq<TurnRow>, i: nat, n: nat)
    requires
        i <= n <= turns.len(),
    ensures
        prompt_sum(turns, i) <= prompt_sum(turns, n),
        reply_sum(turns, i) <= reply_sum(turns, n),
        growth_sum(turns, i) <= growth_sum(turns, n),
    decreases n,
{
    if i < n {
        lemma_sums_grow(turns, i, (n - 1) as nat);
    }
}

/// What is counted in all turns together.
pub fn totals(turns: &[TurnRow]) -> (r: Totals)
    requires
        sums_fit(turns@),
    ensures
        r == all_totals(turns@),
{
    let mut t: Totals = Totals {
        prompt: 0,
        reply: 0,
        final_ctx: 0,
        growth: 0,
        growth_steps: 0,
        cut: 0,
        eos: 0,
        empty: 0,
    };
    let mut i: usize = 0;
    assert(turns.len() == turns@.len());
    while i < turns.len()
        invariant
            i <= turns@.len() <= usize::MAX,
            sums_fit(turns@),
            t.prompt == prompt_sum(turns@, i as nat),
            t.reply == reply_sum(turns@, i as nat),
            t.final_ctx == (if i > 0 {
                turns@[i - 1].ctx_len
            } else {
                0
            }),
            t.growth == growth_sum(turns@, i as nat),
            t.growth_steps == (if i > 0 {
                i - 1
            } else {
                0
            }),
            t.cut == cut_count(turns@, i as nat) <= i,
            t.eos == stop_count(turns@, StopReason::Eos, i as nat) <= i,
            t.empty == stop_count(turns@, StopReason::Empty, i as nat) <= i,
        decreases turns@.len() - i,
    {
        proof {
            lemma_sums_grow(turns@, i as nat + 1, turns@.len());
        }
        let row: &TurnRow = &turns[i];
        t.prompt = t.prompt + row.prompt_tokens;
        t.reply = t.reply + row.gen_tokens;
        if i > 0 {
            let before: usize = turns[i - 1].ctx_len;
            if row.ctx_len > before {
                t.growth = t.growth + (row.ctx_len - before);
            }
            t.growth_steps = t.growth_steps + 1;
        }
        t.final_ctx = row.ctx_len;
        if row.hit_max_new {
            t.cut = t.cut + 1;
        }
        if row.stop == StopReason::Eos {
            t.eos = t.eos + 1;
        }
        if row.stop == StopReason::Empty {
            t.empty = t.empty + 1;
        }
        i = i + 1;
    }
    t
}

/// Every turn ends in one way: those that ended by themselves and those without a
/// reply are not more than all.
pub proof fn law_turns_end_once(turns: Seq<TurnRow>, n: nat)
    requires
        n <= turns.len(),
    ensures
        stop_count(turns, StopReason::Eos, n) + stop_count(turns, StopReason::Empty, n)
            + stop_count(turns, StopReason::MaxNew, n) == n,
    decreases n,
{
    if n > 0 {
        law_turns_end_once(turns, (n - 1) as nat);
    }
}

/// Whether a character is kept in the name of a report.
pub open spec fn is_safe(c: char) -> bool {
    ||| '0' <= c <= '9'
    ||| 'A' <= c <= 'Z'
    ||| 'a' <= c <= 'z'
    ||| c == '-'
    ||| c == '_'
    ||| c == '.'
}

/// A text in which every character that is not safe is an underscore.
pub open spec fn safe_text(s: Seq<char>) -> Seq<char> {
    s.map_values(
        |c: char|
            if is_safe(c) {
                c
            } else {
                '_'
            },
    )
}

/// The name that reports of a model bear: the name of its file, made safe and
/// not too long.
pub open spec fn slug(stem: Option<Seq<char>>) -> Seq<char> {
    let name = safe_text(
        match stem {
            Some(s) => s,
            None => "model"@,
        },
    );
    if name.len() == 0 {
        "model"@
    } else if name.len() > 80 {
        name.take(80)
    } else {
        name
    }
}

/// The name that reports bear, of the name of a file without its extension.
pub fn slug_of(stem: &Option<String>) -> (r: String)
    ensures
        r@ == slug(maybe_text(*stem)),
{
    let name: Vec<char> = match stem {
        Some(s) => chars_of(s.as_str()),
        None => chars_of("model"),
    };
    let mut out: Vec<char> = Vec::new();
    let mut i: usize = 0;
    while i < name.len()
        invariant
            i <= name@.len(),
            out@.len() == i,
            forall|k: int|
                0 <= k < i ==> #[trigger] out@[k] == (if is_safe(name@[k]) {
                    name@[k]
                } else {
                    '_'
                }),
        decreases name@.len() - i,
    {
        let c: char = name[i];
        if ('0' <= c && c <= '9') || ('A' <= c && c <= 'Z') || ('a' <= c && c <= 'z') || c == '-'
            || c == '_' || c == '.' {
            out.push(c);
        } else {
            out.push('_');
        }
        i = i + 1;
    }
    proof {
        assert(out@ =~= safe_text(name@));
    }
    if out.len() == 0 {
        return "model".to_owned();
    }
    if out.len() > 80 {
        let head: &[char] = vstd::slice::slice_subrange(out.as_slice(), 0, 80);
        proof {
            assert(head@ =~= out@.take(80));
        }
        return string_of(head);
    }
    string_of(&out)
}

/// The name that reports of a model bear.
pub fn model_slug(model_path: &str) -> (r: String)
    ensures
        exists|name: Option<Seq<char>>| #[trigger]
            reads(model_path@, name) && r@ == slug(stem_of(name)),
        portable(model_path@) ==> r@ == slug(stem_of(name_by(model_path@, slashes()))),
        0 < r@.len() <= 80,
        forall|i: int| 0 <= i < r@.len() ==> is_safe(#[trigger] r@[i]),
{
    let s: Option<String> = file_stem(model_path);
    proof {
        law_slug_is_safe(maybe_text(s));
        if portable(model_path@) {
            assert forall|name: Option<Seq<char>>| #[trigger] reads(model_path@, name) implies name
                == name_by(model_path@, slashes()) by {
                law_one_reading(model_path@, name);
            }
        }
    }
    slug_of(&s)
}

/// A name of reports is never empty, has at most eighty characters, and all of
/// them are safe in the name of a file.
pub proof fn law_slug_is_safe(stem: Option<Seq<char>>)
    ensures
        0 < slug(stem).len() <= 80,
        forall|i: int| 0 <= i < slug(stem).len() ==> is_safe(#[trigger] slug(stem)[i]),
{
    reveal_strlit("model");
    assert("model"@.len() == 5);
    assert("model"@ =~= seq!['m', 'o', 'd', 'e', 'l']);
}

/// When a report was made: as the shell tells the time, or else in seconds.
pub open spec fn stamp_text(shell: Option<Seq<char>>, secs: u64) -> Seq<char> {
    if shell is Some && trimmed(shell->0).len() > 0 {
        trimmed(shell->0)
    } else {
        "unix_"@ + decimal(secs as nat)
    }
}

/// When a report was made: as the shell tells the time, or else in seconds.
pub fn time_stamp(shell: Option<&str>, secs: u64) -> (r: String)
    ensures
        r@ == stamp_text(
            match shell {
                Some(s) => Some(s@),
                None => None,
            },
            secs,
        ),
{
    match shell {
        Some(s) => {
            let t: Vec<char> = trim(&chars_of(s));
            if t.len() > 0 {
                return string_of(&t);
            }
        },
        None => {},
    }
    let mut out: String = "unix_".to_owned();
    push_decimal(&mut out, secs);
    out
}

/// The name of a report. The seconds are added where a report of that name is
/// there.
pub open spec fn log_file(
    stamp: Seq<char>,
    slug: Seq<char>,
    decode: Seq<char>,
    secs: Option<u64>,
) -> Seq<char> {
    "profile_"@ + stamp + "_"@ + slug + "_"@ + decode + (match secs {
        Some(s) => "_"@ + decimal(s as nat),
        None => Seq::empty(),
    }) + ".txt"@
}

/// The name of a report. The seconds are added where a report of that name is
/// there.
pub fn log_name(stamp: &str, slug: &str, decode: DecodeBackend, secs: Option<u64>) -> (r: String)
    requires
        decode.wf(),
    ensures
        r@ == log_file(stamp@, slug@, decode.view().name, secs),
{
    let mut out: String = "profile_".to_owned();
    out.append(stamp);
    out.append("_");
    out.append(slug);
    out.append("_");
    out.append(decode.name());
    match secs {
        Some(s) => {
            out.append("_");
            push_decimal(&mut out, s);
        },
        None => {},
    }
    out.append(".txt");
    proof {
        assert(out@ =~= log_file(stamp@, slug@, decode.view().name, secs));
    }
    out
}

/// The name of the latest report of a model.
pub open spec fn latest_file(slug: Seq<char>) -> Seq<char> {
    "latest_"@ + slug + ".txt"@
}

/// The name of the latest report of a model.
pub fn latest_name(slug: &str) -> (r: String)
    ensures
        r@ == latest_file(slug@),
{
    let mut out: String = "latest_".to_owned();
    out.append(slug);
    out.append(".txt");
    out
}

/// The latest reports of two models bear the same name only where the models do,
/// and none of them bears the name of the latest report of all.
pub proof fn law_latest_apart(a: Seq<char>, b: Seq<char>)
    ensures
        latest_file(a) == latest_file(b) ==> a == b,
        latest_file(a) != "latest.txt"@,
{
    reveal_strlit("latest_");
    reveal_strlit("latest.txt");
    let head = "latest_"@;
    let tail = ".txt"@;
    assert(latest_file(a).subrange(7, 7 + a.len() as int) =~= a);
    assert(latest_file(b).subrange(7, 7 + b.len() as int) =~= b);
    assert(latest_file(a).len() == head.len() + a.len() + tail.len());
    assert(latest_file(b).len() == head.len() + b.len() + tail.len());
    assert(latest_file(a)[6] == head[6]);
    assert("latest.txt"@[6] == '.');
}

/// What a card tells of itself: values with commas between them.
#[derive(Debug)]
pub enum Reading {
    /// There is no line.
    Nothing,
    /// There are too few values.
    Short,
    Values(Vec<String>),
}

/// The first line of a text.
pub open spec fn first_line(s: Seq<char>) -> Seq<char> {
    split_on(s, '\n')[0]
}

/// The values of a line.
pub open spec fn line_values(line: Seq<char>) -> Seq<Seq<char>> {
    split_on(trimmed(line), ',').map_values(|p: Seq<char>| trimmed(p))
}

/// What a card tells of itself in the first line of a text, of which at least
/// `wanted` values are asked for.
pub fn read_values(text: &str, wanted: usize) -> (r: Reading)
    ensures
        match r {
            Reading::Nothing => text@.len() == 0,
            Reading::Short => text@.len() > 0 && line_values(first_line(text@)).len() < wanted,
            Reading::Values(v) => {
                &&& text@.len() > 0
                &&& line_values(first_line(text@)).len() >= wanted
                &&& texts(v@) == line_values(first_line(text@))
            },
        },
{
    let all: Vec<char> = chars_of(text);
    if all.len() == 0 {
        return Reading::Nothing;
    }
    let lines: Vec<Vec<char>> = split_chars(&all, '\n');
    proof {
        crate::text::law_split_not_empty(text@, '\n');
    }
    let line: Vec<char> = trim(&lines[0]);
    let parts: Vec<Vec<char>> = split_chars(&line, ',');
    if parts.len() < wanted {
        return Reading::Short;
    }
    let mut out: Vec<String> = Vec::new();
    let mut i: usize = 0;
    while i < parts.len()
        invariant
            i <= parts@.len(),
            out@.len() == i,
            forall|k: int| 0 <= k < i ==> (#[trigger] out@[k])@ == trimmed(parts@[k]@),
        decreases parts@.len() - i,
    {
        out.push(string_of(&trim(&parts[i])));
        i = i + 1;
    }
    proof {
        assert(texts(out@) =~= line_values(first_line(text@)));
    }
    Reading::Values(out)
}

/// What follows `key` in the lines of a text, where `last` asks for the last such
/// line and else the first is taken.
pub open spec fn keyed_value(rows: Seq<Seq<char>>, key: Seq<char>, n: nat, last: bool) -> Option<
    Seq<char>,
>
    decreases n,
{
    if n == 0 {
        None
    } else {
        let before = keyed_value(rows, key, (n - 1) as nat, last);
        if has_prefix(rows[n - 1], key) && (last || before is None) {
            Some(trimmed(rows[n - 1].skip(key.len() as int)))
        } else {
            before
        }
    }
}

/// The value after `key` in the first or the last line of a text that begins with
/// it.
pub fn value_after(text: &str, key: &str, last: bool) -> (r: Option<String>)
    ensures
        maybe_text(r) == keyed_value(
            split_on(text@, '\n'),
            key@,
            split_on(text@, '\n').len(),
            last,
        ),
{
    let rows: Vec<Vec<char>> = split_chars(&chars_of(text), '\n');
    let ghost views: Seq<Seq<char>> = split_on(text@, '\n');
    let mut found: Option<String> = None;
    let mut i: usize = 0;
    while i < rows.len()
        invariant
            i <= rows@.len() == views.len(),
            forall|k: int| 0 <= k < rows@.len() ==> (#[trigger] rows@[k])@ == views[k],
            maybe_text(found) == keyed_value(views, key@, i as nat, last),
        decreases rows@.len() - i,
    {
        assert(rows@[i as int]@ == views[i as int]);
        if last || found.is_none() {
            match skip_chars(&rows[i], key) {
                Some(rest) => {
                    found = Some(string_of(&trim(&rest)));
                },
                None => {},
            }
        }
        i = i + 1;
    }
    found
}

/// One more turn adds its own counts to the totals, and its context is the final one.
pub proof fn law_totals_grow(turns: Seq<TurnRow>, t: TurnRow)
    requires
        sums_fit(turns.push(t)),
        turns.len() < usize::MAX,
    ensures
        ({
            let a = all_totals(turns);
            let b = all_totals(turns.push(t));
            &&& b.prompt == a.prompt + t.prompt_tokens
            &&& b.reply == a.reply + t.gen_tokens
            &&& b.final_ctx == t.ctx_len
            &&& b.growth_steps == turns.len()
            &&& turns.len() > 0 && t.ctx_len >= turns.last().ctx_len ==> b.growth == a.growth
                + t.ctx_len - turns.last().ctx_len
        }),
{
    let more = turns.push(t);
    lemma_sums_same(turns, more, turns.len());
    assert(more[turns.len() as int] == t);
    if turns.len() > 0 {
        assert(more[turns.len() - 1] == turns.last());
    }
}

proof fn lemma_sums_same(a: Seq<TurnRow>, b: Seq<TurnRow>, n: nat)
    requires
        n <= a.len() <= b.len(),
        forall|i: int| 0 <= i < a.len() ==> a[i] == b[i],
    ensures
        prompt_sum(a, n) == prompt_sum(b, n),
        reply_sum(a, n) == reply_sum(b, n),
        growth_sum(a, n) == growth_sum(b, n),
    decreases n,
{
    if n > 0 {
        lemma_sums_same(a, b, (n - 1) as nat);
    }
}

/// The value of a key is that of the first line that begins with it, or of the last one
/// where that is asked for; without such a line there is none.
pub proof fn law_keyed_value(rows: Seq<Seq<char>>, key: Seq<char>, k: int)
    requires
        0 <= k < rows.len(),
        has_prefix(rows[k], key),
    ensures
        (forall|j: int| 0 <= j < k ==> !has_prefix(#[trigger] rows[j], key)) ==> keyed_value(
            rows,
            key,
            rows.len(),
            false,
        ) == Some(trimmed(rows[k].skip(key.len() as int))),
        (forall|j: int| k < j < rows.len() ==> !has_prefix(#[trigger] rows[j], key)) ==> keyed_value(
            rows,
            key,
            rows.len(),
            true,
        ) == Some(trimmed(rows[k].skip(key.len() as int))),
{
    lemma_keyed_value(rows, key, k, rows.len());
}

proof fn lemma_keyed_value(rows: Seq<Seq<char>>, key: Seq<char>, k: int, n: nat)
    requires
        0 <= k < rows.len(),
        n <= rows.len(),
        has_prefix(rows[k], key),
    ensures
        (forall|j: int| 0 <= j < k ==> !has_prefix(#[trigger] rows[j], key)) ==> keyed_value(
            rows,
            key,
            n,
            false,
        ) == (if k < n {
            Some(trimmed(rows[k].skip(key.len() as int)))
        } else {
            None
        }),
        (forall|j: int| k < j < rows.len() ==> !has_prefix(#[trigger] rows[j], key)) && k < n
            ==> keyed_value(rows, key, n, true) == Some(trimmed(rows[k].skip(key.len() as int))),
    decreases n,
{
    if n > 0 {
        lemma_keyed_value(rows, key, k, (n - 1) as nat);
    }
}

} // verus!
