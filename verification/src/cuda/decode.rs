//! The attention paths that can be chosen, and how each is launched.
use crate::text::{
    chars_of, lower, quote, quoted, same_text, string_of, to_lower, trim, trim_end, trim_start,
    trimmed,
};
use vstd::prelude::*;

verus! {

/// How much shared memory an attention kernel gets.
#[derive(Clone, Copy, Debug, PartialEq, Eq, Structural)]
pub enum SmemRule {
    /// One number for each dimension of a head and each position.
    HeadPlusSeq,
    /// One number for each position.
    SeqOnly,
    /// One number for each dimension of a head and each place of a tile.
    HeadPlusTile { tile: u32 },
    /// Two numbers for each dimension of a head.
    HeadTimes2,
}

impl SmemRule {
    /// Numbers held in shared memory.
    pub open spec fn numbers(self, head_dim: nat, seq_len: nat) -> nat {
        let positions: nat = if seq_len < 1 {
            1
        } else {
            seq_len
        };
        match self {
            SmemRule::HeadPlusSeq => head_dim + positions,
            SmemRule::SeqOnly => positions,
            SmemRule::HeadPlusTile { tile } => head_dim + tile as nat,
            SmemRule::HeadTimes2 => head_dim * 2,
        }
    }

    /// Bytes of shared memory: four for each number.
    pub fn bytes(self, head_dim: usize, seq_len: usize) -> (r: u32)
        requires
            self.numbers(head_dim as nat, seq_len as nat) * 4 <= usize::MAX,
        ensures
            r == (self.numbers(head_dim as nat, seq_len as nat) * 4) as u32,
    {
        let positions: usize = if seq_len < 1 {
            1
        } else {
            seq_len
        };
        let n: usize = match self {
            SmemRule::HeadPlusSeq => head_dim + positions,
            SmemRule::SeqOnly => positions,
            SmemRule::HeadPlusTile { tile } => head_dim + tile as usize,
            SmemRule::HeadTimes2 => head_dim * 2,
        };
        #[verifier::truncate]
        ((n * 4) as u32)
    }
}

/// The most parts that flash decoding may split the positions into.
pub const FLASH_MAX_SPLIT: u32 = 8;

/// The parts that flash decoding splits the positions into.
pub const FLASH_DECODE_SPLIT: u32 = 8;

/// How an attention path is launched.
#[derive(Clone, Copy, Debug)]
pub enum AttnLaunch {
    /// One block for each head and each query.
    Causal {
        kernel: &'static str,
        /// The variant that reads the first position on the device.
        kernel_d: Option<&'static str>,
        smem: SmemRule,
        block_threads: u32,
    },
    /// One block for each head and each part, then a reduction. More than one
    /// query goes by the path `prefill_as`.
    Flash {
        partial: &'static str,
        partial_d: &'static str,
        reduce: &'static str,
        smem: SmemRule,
        block_threads: u32,
        prefill_as: &'static str,
        n_split: u32,
    },
    /// One block for each head. More than one query goes by the path
    /// `prefill_as`.
    OnlineDecode { kernel: &'static str, prefill_as: &'static str, max_head_dim: usize },
}

/// How an attention path is launched, as a mathematical value.
pub enum LaunchView {
    Causal { kernel: Seq<char>, kernel_d: Option<Seq<char>>, smem: SmemRule, block_threads: u32 },
    Flash {
        partial: Seq<char>,
        partial_d: Seq<char>,
        reduce: Seq<char>,
        smem: SmemRule,
        block_threads: u32,
        prefill_as: Seq<char>,
        n_split: u32,
    },
    OnlineDecode { kernel: Seq<char>, prefill_as: Seq<char>, max_head_dim: usize },
}

impl View for AttnLaunch {
    type V = LaunchView;

    open spec fn view(&self) -> LaunchView {
        match self {
            AttnLaunch::Causal { kernel, kernel_d, smem, block_threads } => LaunchView::Causal {
                kernel: kernel@,
                kernel_d: match kernel_d {
                    Some(k) => Some(k@),
                    None => None,
                },
                smem: *smem,
                block_threads: *block_threads,
            },
            AttnLaunch::Flash {
                partial,
                partial_d,
                reduce,
                smem,
                block_threads,
                prefill_as,
                n_split,
            } => LaunchView::Flash {
                partial: partial@,
                partial_d: partial_d@,
                reduce: reduce@,
                smem: *smem,
                block_threads: *block_threads,
                prefill_as: prefill_as@,
                n_split: *n_split,
            },
            AttnLaunch::OnlineDecode { kernel, prefill_as, max_head_dim } =>
                LaunchView::OnlineDecode {
                kernel: kernel@,
                prefill_as: prefill_as@,
                max_head_dim: *max_head_dim,
            },
        }
    }
}

impl LaunchView {
    /// The kernels that the path launches.
    pub open spec fn symbols(self) -> Seq<Seq<char>> {
        match self {
            LaunchView::Causal { kernel, kernel_d, .. } => match kernel_d {
                Some(d) => seq![kernel, d],
                None => seq![kernel],
            },
            LaunchView::Flash { partial, partial_d, reduce, .. } => seq![partial, partial_d, reduce],
            LaunchView::OnlineDecode { kernel, .. } => seq![kernel],
        }
    }
}

/// One attention path.
#[derive(Debug)]
pub struct DecodeSpec {
    /// The name that chooses it.
    pub name: &'static str,
    /// Other names that choose it.
    pub aliases: Vec<&'static str>,
    /// One line for the help.
    pub description: &'static str,
    pub launch: AttnLaunch,
    pub is_default: bool,
}

/// One attention path as a mathematical value.
pub struct SpecView {
    pub name: Seq<char>,
    pub aliases: Seq<Seq<char>>,
    pub description: Seq<char>,
    pub launch: LaunchView,
    pub is_default: bool,
}

/// Texts as sequences of characters.
pub open spec fn texts(v: Seq<&'static str>) -> Seq<Seq<char>> {
    v.map_values(|s: &'static str| s@)
}

impl View for DecodeSpec {
    type V = SpecView;

    open spec fn view(&self) -> SpecView {
        SpecView {
            name: self.name@,
            aliases: texts(self.aliases@),
            description: self.description@,
            launch: self.launch@,
            is_default: self.is_default,
        }
    }
}

/// Attention paths that can be chosen.
pub const N_BACKENDS: u8 = 5;

/// The attention paths, in the order in which the help lists them.
pub open spec fn registry() -> Seq<SpecView> {
    seq![
        SpecView {
            name: "fastv2"@,
            aliases: seq!["v2"@, "tiled"@],
            description: "v2: f16 KV + tiled online attn + CUDA-graph path — recommended"@,
            launch: LaunchView::Causal {
                kernel: "attn_fast_v2"@,
                kernel_d: Some("attn_fast_v2_d"@),
                smem: SmemRule::HeadPlusTile { tile: 64 },
                block_threads: 128,
            },
            is_default: true,
        },
        SpecView {
            name: "flash"@,
            aliases: seq!["flashdec"@, "fd"@],
            description: "flash-decoding: split KV + reduce (helps long-ctx drop)"@,
            launch: LaunchView::Flash {
                partial: "attn_flash_partial"@,
                partial_d: "attn_flash_partial_d"@,
                reduce: "attn_flash_reduce"@,
                smem: SmemRule::HeadPlusTile { tile: 64 },
                block_threads: 128,
                prefill_as: "fastv2"@,
                n_split: FLASH_DECODE_SPLIT,
            },
            is_default: false,
        },
        SpecView {
            name: "fast"@,
            aliases: seq!["fastv1"@, "v1"@, "parallel"@],
            description: "v1: f16 KV + parallel softmax scores[ctx] smem — A/B baseline"@,
            launch: LaunchView::Causal {
                kernel: "attn_fast_v1"@,
                kernel_d: None,
                smem: SmemRule::HeadPlusSeq,
                block_threads: 128,
            },
            is_default: false,
        },
        SpecView {
            name: "basic"@,
            aliases: seq!["baseline"@, "serial"@],
            description: "f16 KV + serial softmax scores[ctx] — slow baseline"@,
            launch: LaunchView::Causal {
                kernel: "attn_basic_f32"@,
                kernel_d: None,
                smem: SmemRule::SeqOnly,
                block_threads: 128,
            },
            is_default: false,
        },
        SpecView {
            name: "online"@,
            aliases: seq![],
            description: "f16 KV + online decode (1 tok); prefill uses fastv2"@,
            launch: LaunchView::OnlineDecode {
                kernel: "attn_online_f32"@,
                prefill_as: "fastv2"@,
                max_head_dim: 256,
            },
            is_default: false,
        },
    ]
}

/// Whether `key` chooses the path: its name or one of its other names.
pub open spec fn chooses(key: Seq<char>, s: SpecView) -> bool {
    s.name == key || s.aliases.contains(key)
}

/// The first path from place `from` on that `key` chooses.
pub open spec fn first_chosen(key: Seq<char>, from: nat) -> Option<nat>
    decreases registry().len() - from,
{
    if from >= registry().len() {
        None
    } else if chooses(key, registry()[from as int]) {
        Some(from)
    } else {
        first_chosen(key, from + 1)
    }
}

/// The place of the default path.
pub const DEFAULT_INDEX: u8 = 0;

/// The path that a text chooses: white space around it and the case of its
/// letters do not matter, and `default` means the default path.
pub open spec fn parsed(s: Seq<char>) -> Option<nat> {
    let key = lower(trimmed(s));
    if key == "default"@ {
        Some(DEFAULT_INDEX as nat)
    } else {
        first_chosen(key, 0)
    }
}

/// A text that chooses no attention path.
#[derive(Debug)]
pub struct UnknownDecode {
    pub text: String,
}

/// Texts with `sep` between them.
pub open spec fn joined(parts: Seq<Seq<char>>, sep: Seq<char>) -> Seq<char>
    decreases parts.len(),
{
    if parts.len() == 0 {
        Seq::empty()
    } else if parts.len() == 1 {
        parts[0]
    } else {
        joined(parts.drop_last(), sep) + sep + parts.last()
    }
}

/// The names of the paths.
pub open spec fn backend_names() -> Seq<Seq<char>> {
    registry().map_values(|s: SpecView| s.name)
}

/// One line of the help.
pub open spec fn help_line(s: SpecView) -> Seq<char> {
    s.name + " — "@ + s.description + (if s.is_default {
        " [default]"@
    } else {
        ""@
    })
}

/// The sentence about a text that chooses no path.
pub open spec fn unknown_sentence(s: Seq<char>) -> Seq<char> {
    "unknown --decode "@ + quoted(s) + "; choose one of: "@ + joined(backend_names(), ", "@)
}

impl UnknownDecode {
    /// The sentence that tells the error.
    pub fn message(&self) -> (r: String)
        ensures
            r@ == unknown_sentence(self.text@),
    {
        let mut out: String = String::new();
        out.append("unknown --decode ");
        out.append(quote(self.text.as_str()).as_str());
        out.append("; choose one of: ");
        let ghost head: Seq<char> = out@;
        let mut i: u8 = 0;
        proof {
            assert(backend_names().take(0) =~= Seq::<Seq<char>>::empty());
        }
        while i < N_BACKENDS
            invariant
                i <= N_BACKENDS,
                out@ == head + joined(backend_names().take(i as int), ", "@),
                head == "unknown --decode "@ + quoted(self.text@) + "; choose one of: "@,
            decreases N_BACKENDS - i,
        {
            if i > 0 {
                out.append(", ");
            }
            out.append(DecodeBackend { idx: i }.name());
            proof {
                let next = backend_names().take(i as int + 1);
                assert(next.drop_last() =~= backend_names().take(i as int));
                assert(next.last() == registry()[i as int].name);
                if i == 0 {
                    assert(out@ =~= head + joined(next, ", "@));
                } else {
                    assert(out@ =~= head + (joined(next.drop_last(), ", "@) + ", "@ + next.last()));
                }
            }
            i = i + 1;
        }
        proof {
            assert(backend_names().take(5) =~= backend_names());
        }
        out
    }
}

/// The attention path that is in use: a place in the registry.
#[derive(Clone, Copy, Debug, PartialEq, Eq, Hash, Structural)]
pub struct DecodeBackend {
    pub idx: u8,
}

impl Default for DecodeBackend {
    /// The default path.
    fn default() -> (r: DecodeBackend)
        ensures
            r.wf(),
            r.idx == DEFAULT_INDEX,
            r.view().is_default,
    {
        DecodeBackend { idx: DEFAULT_INDEX }
    }
}

/// A list with a text behind it, unless it holds the text.
pub open spec fn with_new(v: Seq<Seq<char>>, s: Seq<char>) -> Seq<Seq<char>> {
    if v.contains(s) {
        v
    } else {
        v.push(s)
    }
}

/// A list with those of `more` behind it that it does not hold.
pub open spec fn with_all_new(v: Seq<Seq<char>>, more: Seq<Seq<char>>) -> Seq<Seq<char>>
    decreases more.len(),
{
    if more.len() == 0 {
        v
    } else {
        with_new(with_all_new(v, more.drop_last()), more.last())
    }
}

/// The kernels of the first `n` paths, each where it is first named.
pub open spec fn first_named(n: nat) -> Seq<Seq<char>>
    decreases n,
{
    if n == 0 {
        Seq::empty()
    } else {
        with_all_new(first_named((n - 1) as nat), registry()[n - 1].launch.symbols())
    }
}

/// Up to three texts are added one after another.
proof fn lemma_few_added(v: Seq<Seq<char>>, more: Seq<Seq<char>>)
    ensures
        more.len() == 1 ==> with_all_new(v, more) == with_new(v, more[0]),
        more.len() == 2 ==> with_all_new(v, more) == with_new(with_new(v, more[0]), more[1]),
        more.len() == 3 ==> with_all_new(v, more) == with_new(
            with_new(with_new(v, more[0]), more[1]),
            more[2],
        ),
{
    reveal_with_fuel(with_all_new, 4);
}

/// A list to which texts are added holds what it held and what is added, and
/// nothing twice.
proof fn lemma_all_added(v: Seq<Seq<char>>, more: Seq<Seq<char>>)
    requires
        v.no_duplicates(),
    ensures
        with_all_new(v, more).no_duplicates(),
        forall|s: Seq<char>| #[trigger]
            with_all_new(v, more).contains(s) <==> v.contains(s) || more.contains(s),
    decreases more.len(),
{
    if more.len() > 0 {
        let rest = more.drop_last();
        let before = with_all_new(v, rest);
        let after = with_all_new(v, more);
        lemma_all_added(v, rest);
        assert forall|s: Seq<char>| #[trigger] after.contains(s) <==> v.contains(s)
            || more.contains(s) by {
            assert(more.contains(s) <==> rest.contains(s) || s == more.last()) by {
                if more.contains(s) {
                    let k = more.index_of(s);
                    if k < rest.len() {
                        assert(rest[k] == s);
                    }
                }
                if rest.contains(s) {
                    let k = rest.index_of(s);
                    assert(more[k] == s);
                }
                assert(more[more.len() - 1] == more.last());
            }
            if !before.contains(more.last()) {
                assert(after =~= before.push(more.last()));
                if after.contains(s) {
                    let k = after.index_of(s);
                    if k < before.len() {
                        assert(before[k] == s);
                    }
                }
                if before.contains(s) {
                    let k = before.index_of(s);
                    assert(after[k] == s);
                }
                assert(after[after.len() - 1] == more.last());
            }
        }
    }
}

/// The kernels of the first `n` paths are named once each.
proof fn lemma_first_named(n: nat)
    ensures
        first_named(n).no_duplicates(),
        forall|s: Seq<char>| #[trigger]
            first_named(n).contains(s) <==> exists|k: int|
                0 <= k < n && (#[trigger] registry()[k]).launch.symbols().contains(s),
    decreases n,
{
    if n > 0 {
        let before = first_named((n - 1) as nat);
        let more = registry()[n - 1].launch.symbols();
        lemma_first_named((n - 1) as nat);
        lemma_all_added(before, more);
        assert forall|s: Seq<char>| #[trigger] first_named(n).contains(s) <==> exists|k: int|
            0 <= k < n && (#[trigger] registry()[k]).launch.symbols().contains(s) by {
            assert(first_named(n).contains(s) <==> before.contains(s) || more.contains(s));
            if before.contains(s) {
                let k = choose|k: int|
                    0 <= k < n - 1 && (#[trigger] registry()[k]).launch.symbols().contains(s);
                assert(registry()[k].launch.symbols().contains(s));
            }
            if more.contains(s) {
                assert(registry()[n - 1].launch.symbols().contains(s));
            }
        }
    }
}

impl DecodeBackend {
    /// The place lies in the registry.
    pub open spec fn wf(self) -> bool {
        self.idx < N_BACKENDS
    }

    /// Whether there is a path at that place.
    pub fn is_known(self) -> (r: bool)
        ensures
            r == self.wf(),
    {
        self.idx < N_BACKENDS
    }

    /// The path at that place.
    pub open spec fn view(self) -> SpecView {
        registry()[self.idx as int]
    }

    /// All paths, in order.
    pub fn all() -> (r: Vec<DecodeBackend>)
        ensures
            r@.len() == registry().len(),
            forall|i: int| 0 <= i < r@.len() ==> (#[trigger] r@[i]).idx == i && r@[i].wf(),
    {
        let mut out: Vec<DecodeBackend> = Vec::new();
        let mut i: u8 = 0;
        while i < N_BACKENDS
            invariant
                i <= N_BACKENDS,
                out@.len() == i,
                forall|k: int| 0 <= k < i ==> (#[trigger] out@[k]).idx == k,
            decreases N_BACKENDS - i,
        {
            out.push(DecodeBackend { idx: i });
            i = i + 1;
        }
        out
    }

    /// The path at that place.
    pub fn spec(self) -> (r: DecodeSpec)
        requires
            self.wf(),
        ensures
            r@ == self.view(),
    {
        let out: DecodeSpec = match self.idx {
            0 => DecodeSpec {
                name: "fastv2",
                aliases: vec!["v2", "tiled"],
                description: "v2: f16 KV + tiled online attn + CUDA-graph path — recommended",
                launch: AttnLaunch::Causal {
                    kernel: "attn_fast_v2",
                    kernel_d: Some("attn_fast_v2_d"),
                    smem: SmemRule::HeadPlusTile { tile: 64 },
                    block_threads: 128,
                },
                is_default: true,
            },
            1 => DecodeSpec {
                name: "flash",
                aliases: vec!["flashdec", "fd"],
                description: "flash-decoding: split KV + reduce (helps long-ctx drop)",
                launch: AttnLaunch::Flash {
                    partial: "attn_flash_partial",
                    partial_d: "attn_flash_partial_d",
                    reduce: "attn_flash_reduce",
                    smem: SmemRule::HeadPlusTile { tile: 64 },
                    block_threads: 128,
                    prefill_as: "fastv2",
                    n_split: FLASH_DECODE_SPLIT,
                },
                is_default: false,
            },
            2 => DecodeSpec {
                name: "fast",
                aliases: vec!["fastv1", "v1", "parallel"],
                description: "v1: f16 KV + parallel softmax scores[ctx] smem — A/B baseline",
                launch: AttnLaunch::Causal {
                    kernel: "attn_fast_v1",
                    kernel_d: None,
                    smem: SmemRule::HeadPlusSeq,
                    block_threads: 128,
                },
                is_default: false,
            },
            3 => DecodeSpec {
                name: "basic",
                aliases: vec!["baseline", "serial"],
                description: "f16 KV + serial softmax scores[ctx] — slow baseline",
                launch: AttnLaunch::Causal {
                    kernel: "attn_basic_f32",
                    kernel_d: None,
                    smem: SmemRule::SeqOnly,
                    block_threads: 128,
                },
                is_default: false,
            },
            _ => DecodeSpec {
                name: "online",
                aliases: Vec::new(),
                description: "f16 KV + online decode (1 tok); prefill uses fastv2",
                launch: AttnLaunch::OnlineDecode {
                    kernel: "attn_online_f32",
                    prefill_as: "fastv2",
                    max_head_dim: 256,
                },
                is_default: false,
            },
        };
        proof {
            assert(out@.aliases =~= self.view().aliases);
        }
        out
    }

    /// The name of the path.
    pub fn name(self) -> (r: &'static str)
        requires
            self.wf(),
        ensures
            r@ == self.view().name,
    {
        self.spec().name
    }

    /// The description of the path.
    pub fn description(self) -> (r: &'static str)
        requires
            self.wf(),
        ensures
            r@ == self.view().description,
    {
        self.spec().description
    }

    /// The help: a line for each path.
    pub fn list_help() -> (r: String)
        ensures
            r@ == joined(registry().map_values(|s: SpecView| help_line(s)), "; "@),
    {
        let ghost lines: Seq<Seq<char>> = registry().map_values(|s: SpecView| help_line(s));
        let mut out: String = String::new();
        let mut i: u8 = 0;
        proof {
            assert(lines.take(0) =~= Seq::<Seq<char>>::empty());
        }
        while i < N_BACKENDS
            invariant
                i <= N_BACKENDS,
                lines == registry().map_values(|s: SpecView| help_line(s)),
                out@ == joined(lines.take(i as int), "; "@),
            decreases N_BACKENDS - i,
        {
            let ghost before: Seq<char> = out@;
            if i > 0 {
                out.append("; ");
            }
            let s: DecodeSpec = DecodeBackend { idx: i }.spec();
            out.append(s.name);
            out.append(" — ");
            out.append(s.description);
            out.append(
                if s.is_default {
                    " [default]"
                } else {
                    ""
                },
            );
            proof {
                let next = lines.take(i as int + 1);
                assert(next.drop_last() =~= lines.take(i as int));
                assert(next.last() == help_line(s@));
                if i == 0 {
                    assert(out@ =~= joined(next, "; "@));
                } else {
                    assert(out@ =~= joined(next.drop_last(), "; "@) + "; "@ + next.last());
                }
            }
            i = i + 1;
        }
        proof {
            assert(lines.take(5) =~= lines);
        }
        out
    }

    /// The kernels that the paths launch, each once, in the order in which the paths
    /// first name them.
    pub fn required_kernel_symbols() -> (r: Vec<&'static str>)
        ensures
            texts(r@) == first_named(registry().len()),
            texts(r@).no_duplicates(),
            forall|s: Seq<char>| #[trigger]
                texts(r@).contains(s) <==> exists|i: int|
                    0 <= i < registry().len() && (#[trigger] registry()[i]).launch.symbols().contains(
                        s,
                    ),
    {
        let mut out: Vec<&'static str> = Vec::new();
        let mut i: u8 = 0;
        proof {
            assert(texts(out@) =~= first_named(0));
        }
        while i < N_BACKENDS
            invariant
                i <= N_BACKENDS,
                texts(out@) == first_named(i as nat),
            decreases N_BACKENDS - i,
        {
            let ghost before: Seq<Seq<char>> = texts(out@);
            let spec: DecodeSpec = DecodeBackend { idx: i }.spec();
            let ghost more: Seq<Seq<char>> = registry()[i as int].launch.symbols();
            match spec.launch {
                AttnLaunch::Causal { kernel, kernel_d, .. } => {
                    push_unique(&mut out, kernel);
                    match kernel_d {
                        Some(d) => {
                            push_unique(&mut out, d);
                        },
                        None => {},
                    }
                },
                AttnLaunch::Flash { partial, partial_d, reduce, .. } => {
                    push_unique(&mut out, partial);
                    push_unique(&mut out, partial_d);
                    push_unique(&mut out, reduce);
                },
                AttnLaunch::OnlineDecode { kernel, .. } => {
                    push_unique(&mut out, kernel);
                },
            }
            proof {
                lemma_few_added(before, more);
            }
            i = i + 1;
        }
        proof {
            lemma_first_named(registry().len());
            let first = registry()[0].launch.symbols();
            assert(first[0] == "attn_fast_v2"@);
            assert(first[1] == "attn_fast_v2_d"@);
            assert(registry()[0].launch.symbols().contains("attn_fast_v2"@));
            assert(registry()[0].launch.symbols().contains("attn_fast_v2_d"@));
        }
        push_unique(&mut out, "attn_fast_v2");
        push_unique(&mut out, "attn_fast_v2_d");
        out
    }

    /// The path that a text chooses.
    pub fn parse_name(s: &str) -> (r: Result<DecodeBackend, UnknownDecode>)
        ensures
            match r {
                Ok(b) => b.wf() && parsed(s@) == Some(b.idx as nat),
                Err(e) => parsed(s@) is None && e.text@ == s@,
            },
    {
        let key_chars: Vec<char> = to_lower(&trim(&chars_of(s)));
        let key: String = string_of(&key_chars);
        if same_text(key.as_str(), "default") {
            return Ok(DecodeBackend { idx: DEFAULT_INDEX });
        }
        let mut i: u8 = 0;
        while i < N_BACKENDS
            invariant
                i <= N_BACKENDS,
                key@ == lower(trimmed(s@)),
                key@ != "default"@,
                first_chosen(key@, 0) == first_chosen(key@, i as nat),
            decreases N_BACKENDS - i,
        {
            let b: DecodeBackend = DecodeBackend { idx: i };
            if b.answers_to(key.as_str()) {
                return Ok(b);
            }
            i = i + 1;
        }
        Err(UnknownDecode { text: s.to_owned() })
    }

    /// Whether `key` is the name of the path or one of its other names.
    fn answers_to(self, key: &str) -> (r: bool)
        requires
            self.wf(),
        ensures
            r == chooses(key@, self.view()),
    {
        let spec: DecodeSpec = self.spec();
        if same_text(spec.name, key) {
            return true;
        }
        let mut i: usize = 0;
        while i < spec.aliases.len()
            invariant
                i <= spec.aliases@.len(),
                spec@ == self.view(),
                forall|k: int| 0 <= k < i ==> #[trigger] spec@.aliases[k] != key@,
            decreases spec.aliases@.len() - i,
        {
            assert(spec@.aliases[i as int] == spec.aliases@[i as int]@);
            if same_text(spec.aliases[i], key) {
                return true;
            }
            i = i + 1;
        }
        false
    }
}

/// Adds `s` unless it is there.
pub fn push_unique(v: &mut Vec<&'static str>, s: &'static str)
    ensures
        texts(final(v)@) == (if texts(old(v)@).contains(s@) {
            texts(old(v)@)
        } else {
            texts(old(v)@).push(s@)
        }),
        texts(old(v)@).no_duplicates() ==> texts(final(v)@).no_duplicates(),
        forall|t: Seq<char>| #[trigger]
            texts(final(v)@).contains(t) <==> texts(old(v)@).contains(t) || t == s@,
{
    let ghost before: Seq<Seq<char>> = texts(v@);
    let mut i: usize = 0;
    while i < v.len()
        invariant
            i <= v@.len(),
            v@ == old(v)@,
            before == texts(v@),
            forall|k: int| 0 <= k < i ==> #[trigger] before[k] != s@,
        decreases v@.len() - i,
    {
        assert(before[i as int] == v@[i as int]@);
        if same_text(v[i], s) {
            assert(before.contains(s@));
            return;
        }
        i = i + 1;
    }
    v.push(s);
    proof {
        assert(texts(v@) =~= before.push(s@));
        assert forall|t: Seq<char>| #[trigger] texts(v@).contains(t) <==> before.contains(t) || t
            == s@ by {
            if before.contains(t) {
                let k = choose|k: int| 0 <= k < before.len() && before[k] == t;
                assert(texts(v@)[k] == t);
            }
            if t == s@ {
                assert(texts(v@)[before.len() as int] == t);
            }
        }
    }
}

/// The path of that name.
pub fn find_by_name(name: &str) -> (r: Option<DecodeSpec>)
    ensures
        match r {
            Some(s) => s@.name == name@ && registry().contains(s@),
            None => forall|i: int|
                0 <= i < registry().len() ==> (#[trigger] registry()[i]).name != name@,
        },
{
    let mut i: u8 = 0;
    while i < N_BACKENDS
        invariant
            i <= N_BACKENDS,
            forall|k: int| 0 <= k < i ==> (#[trigger] registry()[k]).name != name@,
        decreases N_BACKENDS - i,
    {
        let s: DecodeSpec = DecodeBackend { idx: i }.spec();
        if same_text(s.name, name) {
            assert(registry()[i as int] == s@);
            return Some(s);
        }
        i = i + 1;
    }
    None
}

/// Made of lower-case letters and digits alone, and of at least one.
pub open spec fn plain(s: Seq<char>) -> bool {
    s.len() > 0 && forall|i: int|
        0 <= i < s.len() ==> 'a' <= #[trigger] s[i] <= 'z' || '0' <= s[i] <= '9'
}

proof fn lemma_words_plain()
    ensures
        plain("fastv2"@),
        plain("v2"@),
        plain("tiled"@),
        plain("flash"@),
        plain("flashdec"@),
        plain("fd"@),
        plain("fast"@),
        plain("fastv1"@),
        plain("v1"@),
        plain("parallel"@),
        plain("basic"@),
        plain("baseline"@),
        plain("serial"@),
        plain("online"@),
        plain("default"@),
{
    reveal_strlit("fastv2");
    reveal_strlit("v2");
    reveal_strlit("tiled");
    reveal_strlit("flash");
    reveal_strlit("flashdec");
    reveal_strlit("fd");
    reveal_strlit("fast");
    reveal_strlit("fastv1");
    reveal_strlit("v1");
    reveal_strlit("parallel");
    reveal_strlit("basic");
    reveal_strlit("baseline");
    reveal_strlit("serial");
    reveal_strlit("online");
    reveal_strlit("default");
    assert("fastv2"@.len() == 6);
    assert("v2"@.len() == 2);
    assert("tiled"@.len() == 5);
    assert("flash"@.len() == 5);
    assert("flashdec"@.len() == 8);
    assert("fd"@.len() == 2);
    assert("fast"@.len() == 4);
    assert("fastv1"@.len() == 6);
    assert("v1"@.len() == 2);
    assert("parallel"@.len() == 8);
    assert("basic"@.len() == 5);
    assert("baseline"@.len() == 8);
    assert("serial"@.len() == 6);
    assert("online"@.len() == 6);
    assert("default"@.len() == 7);
}

proof fn lemma_words_differ()
    ensures
        "fastv2"@ != "v2"@,
        "fastv2"@ != "tiled"@,
        "fastv2"@ != "flash"@,
        "fastv2"@ != "flashdec"@,
        "fastv2"@ != "fd"@,
        "fastv2"@ != "fast"@,
        "fastv2"@ != "fastv1"@,
        "fastv2"@ != "v1"@,
        "fastv2"@ != "parallel"@,
        "fastv2"@ != "basic"@,
        "fastv2"@ != "baseline"@,
        "fastv2"@ != "serial"@,
        "fastv2"@ != "online"@,
        "fastv2"@ != "default"@,
        "v2"@ != "tiled"@,
        "v2"@ != "flash"@,
        "v2"@ != "flashdec"@,
        "v2"@ != "fd"@,
        "v2"@ != "fast"@,
        "v2"@ != "fastv1"@,
        "v2"@ != "v1"@,
        "v2"@ != "parallel"@,
        "v2"@ != "basic"@,
        "v2"@ != "baseline"@,
        "v2"@ != "serial"@,
        "v2"@ != "online"@,
        "v2"@ != "default"@,
        "tiled"@ != "flash"@,
        "tiled"@ != "flashdec"@,
        "tiled"@ != "fd"@,
        "tiled"@ != "fast"@,
        "tiled"@ != "fastv1"@,
        "tiled"@ != "v1"@,
        "tiled"@ != "parallel"@,
        "tiled"@ != "basic"@,
        "tiled"@ != "baseline"@,
        "tiled"@ != "serial"@,
        "tiled"@ != "online"@,
        "tiled"@ != "default"@,
        "flash"@ != "flashdec"@,
        "flash"@ != "fd"@,
        "flash"@ != "fast"@,
        "flash"@ != "fastv1"@,
        "flash"@ != "v1"@,
        "flash"@ != "parallel"@,
        "flash"@ != "basic"@,
        "flash"@ != "baseline"@,
        "flash"@ != "serial"@,
        "flash"@ != "online"@,
        "flash"@ != "default"@,
        "flashdec"@ != "fd"@,
        "flashdec"@ != "fast"@,
        "flashdec"@ != "fastv1"@,
        "flashdec"@ != "v1"@,
        "flashdec"@ != "parallel"@,
        "flashdec"@ != "basic"@,
        "flashdec"@ != "baseline"@,
        "flashdec"@ != "serial"@,
        "flashdec"@ != "online"@,
        "flashdec"@ != "default"@,
        "fd"@ != "fast"@,
        "fd"@ != "fastv1"@,
        "fd"@ != "v1"@,
        "fd"@ != "parallel"@,
        "fd"@ != "basic"@,
        "fd"@ != "baseline"@,
        "fd"@ != "serial"@,
        "fd"@ != "online"@,
        "fd"@ != "default"@,
        "fast"@ != "fastv1"@,
        "fast"@ != "v1"@,
        "fast"@ != "parallel"@,
        "fast"@ != "basic"@,
        "fast"@ != "baseline"@,
        "fast"@ != "serial"@,
        "fast"@ != "online"@,
        "fast"@ != "default"@,
        "fastv1"@ != "v1"@,
        "fastv1"@ != "parallel"@,
        "fastv1"@ != "basic"@,
        "fastv1"@ != "baseline"@,
        "fastv1"@ != "serial"@,
        "fastv1"@ != "online"@,
        "fastv1"@ != "default"@,
        "v1"@ != "parallel"@,
        "v1"@ != "basic"@,
        "v1"@ != "baseline"@,
        "v1"@ != "serial"@,
        "v1"@ != "online"@,
        "v1"@ != "default"@,
        "parallel"@ != "basic"@,
        "parallel"@ != "baseline"@,
        "parallel"@ != "serial"@,
        "parallel"@ != "online"@,
        "parallel"@ != "default"@,
        "basic"@ != "baseline"@,
        "basic"@ != "serial"@,
        "basic"@ != "online"@,
        "basic"@ != "default"@,
        "baseline"@ != "serial"@,
        "baseline"@ != "online"@,
        "baseline"@ != "default"@,
        "serial"@ != "online"@,
        "serial"@ != "default"@,
        "online"@ != "default"@,
{
    reveal_strlit("fastv2");
    reveal_strlit("v2");
    reveal_strlit("tiled");
    reveal_strlit("flash");
    reveal_strlit("flashdec");
    reveal_strlit("fd");
    reveal_strlit("fast");
    reveal_strlit("fastv1");
    reveal_strlit("v1");
    reveal_strlit("parallel");
    reveal_strlit("basic");
    reveal_strlit("baseline");
    reveal_strlit("serial");
    reveal_strlit("online");
    reveal_strlit("default");
    assert("fastv2"@.len() == 6);
    assert("v2"@.len() == 2);
    assert("tiled"@.len() == 5);
    assert("flash"@.len() == 5);
    assert("flashdec"@.len() == 8);
    assert("fd"@.len() == 2);
    assert("fast"@.len() == 4);
    assert("fastv1"@.len() == 6);
    assert("v1"@.len() == 2);
    assert("parallel"@.len() == 8);
    assert("basic"@.len() == 5);
    assert("baseline"@.len() == 8);
    assert("serial"@.len() == 6);
    assert("online"@.len() == 6);
    assert("default"@.len() == 7);
    assert("fastv2"@[5] != "fastv1"@[5]);
    assert("fastv2"@[0] != "serial"@[0]);
    assert("fastv2"@[0] != "online"@[0]);
    assert("v2"@[0] != "fd"@[0]);
    assert("v2"@[1] != "v1"@[1]);
    assert("tiled"@[0] != "flash"@[0]);
    assert("tiled"@[0] != "basic"@[0]);
    assert("flash"@[0] != "basic"@[0]);
    assert("flashdec"@[0] != "parallel"@[0]);
    assert("flashdec"@[0] != "baseline"@[0]);
    assert("fd"@[0] != "v1"@[0]);
    assert("fastv1"@[0] != "serial"@[0]);
    assert("fastv1"@[0] != "online"@[0]);
    assert("parallel"@[0] != "baseline"@[0]);
    assert("serial"@[0] != "online"@[0]);
}

/// A plain text is neither trimmed nor changed by lower case.
proof fn lemma_plain_key(s: Seq<char>)
    requires
        plain(s),
    ensures
        lower(trimmed(s)) == s,
{
    assert(trim_start(s) == s);
    assert(trim_end(s) == s);
    assert(lower(s) =~= s);
}

/// Exactly one path is the default.
pub proof fn law_one_default(i: int)
    requires
        0 <= i < registry().len(),
    ensures
        registry()[i].is_default <==> i == DEFAULT_INDEX,
{
}

/// No two paths share a name.
pub proof fn law_names_differ(i: int, j: int)
    requires
        0 <= i < j < registry().len(),
    ensures
        registry()[i].name != registry()[j].name,
{
    lemma_words_differ();
}

/// The name and every other name of a path choose that path.
pub proof fn law_names_choose(i: int, key: Seq<char>)
    requires
        0 <= i < registry().len(),
        chooses(key, registry()[i]),
    ensures
        parsed(key) == Some(i as nat),
{
    lemma_words_plain();
    lemma_words_differ();
    let r = registry();
    assert(r[i].aliases.contains(key) ==> exists|k: int|
        0 <= k < r[i].aliases.len() && r[i].aliases[k] == key);
    assert(plain(key));
    lemma_plain_key(key);
    assert(key != "default"@);
    assert forall|j: int| 0 <= j < i implies !chooses(key, #[trigger] r[j]) by {
        assert(!r[j].aliases.contains(key)) by {
            assert forall|k: int| 0 <= k < r[j].aliases.len() implies r[j].aliases[k] != key by {}
        }
    }
    reveal_with_fuel(first_chosen, 6);
}

/// A word chooses a path only by its name or one of its other names, whatever its case
/// and the spaces round it, or as the word for the default one.
pub proof fn law_choice_is_named(s: Seq<char>)
    ensures
        parsed(s) matches Some(i) ==> i < registry().len() && (chooses(
            lower(trimmed(s)),
            registry()[i as int],
        ) || (lower(trimmed(s)) == "default"@ && registry()[i as int].is_default)),
        parsed(s) is None ==> forall|i: int|
            0 <= i < registry().len() ==> !chooses(lower(trimmed(s)), #[trigger] registry()[i]),
{
    lemma_first_chosen(lower(trimmed(s)), 0);
}

proof fn lemma_first_chosen(key: Seq<char>, from: nat)
    ensures
        first_chosen(key, from) matches Some(i) ==> from <= i < registry().len() && chooses(
            key,
            registry()[i as int],
        ),
        first_chosen(key, from) is None ==> forall|i: int|
            from <= i < registry().len() ==> !chooses(key, #[trigger] registry()[i]),
    decreases registry().len() - from,
{
    if from < registry().len() && !chooses(key, registry()[from as int]) {
        lemma_first_chosen(key, from + 1);
    }
}

/// The shared memory that a path takes: room for a head, for the positions, or both.
pub proof fn law_shared_memory(head_dim: nat, seq_len: nat, tile: usize)
    ensures
        seq_len >= 1 ==> SmemRule::HeadPlusSeq.numbers(head_dim, seq_len) == head_dim + seq_len,
        seq_len >= 1 ==> SmemRule::SeqOnly.numbers(head_dim, seq_len) == seq_len,
        SmemRule::HeadTimes2.numbers(head_dim, seq_len) == head_dim + head_dim,
        SmemRule::SeqOnly.numbers(head_dim, seq_len) >= 1,
{
}

} // verus!
