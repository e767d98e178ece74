//! A chat over several turns: the prompts, the tokens that end a reply, and
//! the steps of a generation.
use crate::chat::{
    assistant_generation_prompt, chatml, generation_prompt, law_turn_text, turn, turns, with_system,
    ChatRole, MessageView,
};
use crate::cuda::kv::CudaKv;
use crate::sampler::{SamplingOptions, ONE};
use crate::text::{chars_of, has_prefix, maybe_text, same_text, string_of, trim, trimmed};
use crate::tokenizer::special::starts_with;
use crate::tokenizer::Tokenizer;
use vstd::prelude::*;

verus! {

/// Why a generation ended.
#[derive(Debug, Clone, Copy, PartialEq, Eq, Structural)]
pub enum StopReason {
    Eos,
    MaxNew,
    Empty,
}

/// How a session behaves. The numbers of the sampling are single precision
/// bits.
#[derive(Debug)]
pub struct SessionOptions {
    pub max_new: usize,
    pub system: String,
    /// Print the tokens as they come.
    pub print_stream: bool,
    /// Print a line after each turn.
    pub print_stats: bool,
    /// Open a think block and leave it open.
    pub enable_thinking: bool,
    pub sampling: SamplingOptions,
    pub seed: u64,
}

impl SessionOptions {
    /// The usual behaviour, with these three choices.
    pub open spec fn usual(self, max_new: usize, stream: bool, stats: bool) -> bool {
        &&& self.max_new == max_new
        &&& self.system@ == "You are a helpful assistant."@
        &&& self.print_stream == stream
        &&& self.print_stats == stats
        &&& !self.enable_thinking
        &&& self.sampling == (SamplingOptions {
            temperature: 0,
            top_p: ONE,
            top_k: 256,
            repetition_penalty: ONE,
        })
        &&& self.seed == 42
    }

    /// Nothing is printed.
    pub fn quiet(max_new: usize) -> (r: SessionOptions)
        ensures
            r.usual(max_new, false, false),
    {
        SessionOptions {
            max_new,
            system: "You are a helpful assistant.".to_owned(),
            print_stream: false,
            print_stats: false,
            enable_thinking: false,
            sampling: SamplingOptions::default(),
            seed: 42,
        }
    }

    /// Tokens and counts are printed.
    pub fn interactive(max_new: usize) -> (r: SessionOptions)
        ensures
            r.usual(max_new, true, true),
    {
        let mut r: SessionOptions = SessionOptions::quiet(max_new);
        r.print_stream = true;
        r.print_stats = true;
        r
    }
}

impl Default for SessionOptions {
    /// Tokens and counts are printed, and a reply has at most 512 tokens.
    fn default() -> (r: SessionOptions)
        ensures
            r.usual(512, true, true),
    {
        SessionOptions::interactive(512)
    }
}

/// A prompt for a model that is asked once.
pub open spec fn single_prompt(system: Seq<char>, user: Seq<char>) -> Seq<char> {
    "<|system|>"@ + system + "<|/system|>\n<|user|>"@ + user + "<|/user|>\n<|assistant|>"@
}

/// A prompt for the next turn: the first one begins with the system message.
pub open spec fn turn_prompt(system: Seq<char>, user: Seq<char>, first: bool, thinking: bool) -> Seq<
    char,
> {
    (if first {
        "<|im_start|>system\n"@ + system + "<|im_end|>\n"@
    } else {
        Seq::empty()
    }) + "<|im_start|>user\n"@ + user + "<|im_end|>\n"@ + generation_prompt(thinking)
}

/// The prompt of a turn is what the chat format gives for what is said in it: the
/// system's message and the user's one on the first turn, the user's one alone on a
/// later turn.
pub proof fn law_turn_prompt_is_chat(system: Seq<char>, user: Seq<char>, thinking: bool)
    ensures
        turn_prompt(system, user, true, thinking) == chatml(
            seq![(ChatRole::System, system), (ChatRole::User, user)],
            None,
            thinking,
        ),
        turn_prompt(system, user, true, thinking) == chatml(
            seq![(ChatRole::User, user)],
            Some(system),
            thinking,
        ),
        turn_prompt(system, user, false, thinking) == chatml(
            seq![(ChatRole::User, user)],
            None,
            thinking,
        ),
{
    let u: MessageView = (ChatRole::User, user);
    let s: MessageView = (ChatRole::System, system);
    law_turn_text(u);
    law_turn_text(s);
    assert(seq![u].drop_last() =~= Seq::<MessageView>::empty());
    assert(turns(Seq::<MessageView>::empty()) =~= Seq::<char>::empty());
    assert(turns(seq![u]) =~= turn(u));
    assert(seq![s].drop_last() =~= Seq::<MessageView>::empty());
    assert(turns(seq![s]) =~= turn(s));
    assert(seq![s, u].drop_last() =~= seq![s]);
    assert(turns(seq![s, u]) =~= turn(s) + turn(u));
    assert(with_system(seq![u], Some(system)) =~= seq![s, u]) by {
        assert(seq![u][0].0 != ChatRole::System);
        assert(seq![s] + seq![u] =~= seq![s, u]);
    }
    assert(turn_prompt(system, user, true, thinking) =~= turn(s) + turn(u) + generation_prompt(
        thinking,
    ));
    assert(turn_prompt(system, user, false, thinking) =~= turn(u) + generation_prompt(thinking));
}

/// Every prompt of a turn, the first one and a later one, with thinking and without
/// it, ends by opening the turn of the assistant.
pub proof fn law_turn_prompt_opens_reply(
    system: Seq<char>,
    user: Seq<char>,
    first: bool,
    thinking: bool,
)
    ensures
        "<|im_start|>assistant\n<think>\n"@.is_suffix_of(turn_prompt(system, user, first, true)),
        "<|im_start|>assistant\n<think>\n\n</think>\n\n"@.is_suffix_of(
            turn_prompt(system, user, first, false),
        ),
        generation_prompt(thinking).is_suffix_of(turn_prompt(system, user, first, thinking)),
        generation_prompt(thinking).len() > 0,
{
    reveal_strlit("<|im_start|>assistant\n<think>\n");
    reveal_strlit("<|im_start|>assistant\n<think>\n\n</think>\n\n");
}

/// The first prompt is the system's turn and then the prompt that a later turn with
/// the same text has. Its text is that of the turns, letter for letter.
pub proof fn law_first_prompt_adds_system(system: Seq<char>, user: Seq<char>, thinking: bool)
    ensures
        turn_prompt(system, user, true, thinking) == "<|im_start|>system\n"@ + system
            + "<|im_end|>\n"@ + turn_prompt(system, user, false, thinking),
        turn_prompt(system, user, false, true) == "<|im_start|>user\n"@ + user
            + "<|im_end|>\n<|im_start|>assistant\n<think>\n"@,
        turn_prompt(system, user, false, false) == "<|im_start|>user\n"@ + user
            + "<|im_end|>\n<|im_start|>assistant\n<think>\n\n</think>\n\n"@,
{
    assert(turn_prompt(system, user, true, thinking) =~= "<|im_start|>system\n"@ + system
        + "<|im_end|>\n"@ + turn_prompt(system, user, false, thinking));
    reveal_strlit("<|im_end|>\n");
    reveal_strlit("<|im_start|>assistant\n<think>\n");
    reveal_strlit("<|im_start|>assistant\n<think>\n\n</think>\n\n");
    reveal_strlit("<|im_end|>\n<|im_start|>assistant\n<think>\n");
    reveal_strlit("<|im_end|>\n<|im_start|>assistant\n<think>\n\n</think>\n\n");
    assert("<|im_end|>\n<|im_start|>assistant\n<think>\n"@ =~= "<|im_end|>\n"@
        + "<|im_start|>assistant\n<think>\n"@);
    assert("<|im_end|>\n<|im_start|>assistant\n<think>\n\n</think>\n\n"@ =~= "<|im_end|>\n"@
        + "<|im_start|>assistant\n<think>\n\n</think>\n\n"@);
    assert(turn_prompt(system, user, false, true) =~= "<|im_start|>user\n"@ + user
        + ("<|im_end|>\n"@ + "<|im_start|>assistant\n<think>\n"@));
    assert(turn_prompt(system, user, false, false) =~= "<|im_start|>user\n"@ + user
        + ("<|im_end|>\n"@ + "<|im_start|>assistant\n<think>\n\n</think>\n\n"@));
}

/// What a session asks: the prompt of the turn, or for a model that is asked once the
/// system's and the user's text between their marks, with the assistant's mark last.
pub proof fn law_session_prompt(session: Session, user: Seq<char>, first: bool)
    ensures
        session.prompt(user, first, true) == "<|system|>"@ + session.system@
            + "<|/system|>\n<|user|>"@ + user + "<|/user|>\n<|assistant|>"@,
        session.prompt(user, first, false) == chatml(
            if first {
                seq![(ChatRole::System, session.system@), (ChatRole::User, user)]
            } else {
                seq![(ChatRole::User, user)]
            },
            None,
            session.enable_thinking,
        ),
{
    law_turn_prompt_is_chat(session.system@, user, session.enable_thinking);
}

/// A session over a model and a cache that are kept elsewhere.
#[derive(Debug)]
pub struct Session {
    pub max_new: usize,
    pub system: String,
    pub print_stream: bool,
    pub print_stats: bool,
    pub enable_thinking: bool,
    pub sampling: SamplingOptions,
    pub rng_state: u64,
    /// Whether something has been said.
    pub primed: bool,
    /// The tokens whose keys and values are in the cache.
    pub history: Vec<u32>,
}

impl Session {
    /// Everything but what has been said is as in `other`.
    pub open spec fn same_rules(self, other: Session) -> bool {
        &&& self.max_new == other.max_new
        &&& self.system == other.system
        &&& self.print_stream == other.print_stream
        &&& self.print_stats == other.print_stats
        &&& self.enable_thinking == other.enable_thinking
        &&& self.sampling == other.sampling
        &&& self.rng_state == other.rng_state
    }

    /// A session over a cache: something has been said where positions are
    /// filled.
    pub fn with_kv(cache: &CudaKv, opts: SessionOptions) -> (r: Session)
        ensures
            r.max_new == opts.max_new,
            r.system == opts.system,
            r.print_stream == opts.print_stream,
            r.print_stats == opts.print_stats,
            r.enable_thinking == opts.enable_thinking,
            r.sampling == opts.sampling,
            r.rng_state == (if opts.seed == 0 {
                1
            } else {
                opts.seed
            }),
            r.primed == (cache.len > 0),
            r.history@.len() == 0,
    {
        Session {
            max_new: opts.max_new,
            system: opts.system,
            print_stream: opts.print_stream,
            print_stats: opts.print_stats,
            enable_thinking: opts.enable_thinking,
            sampling: opts.sampling,
            rng_state: if opts.seed == 0 {
                1
            } else {
                opts.seed
            },
            primed: cache.len > 0,
            history: Vec::new(),
        }
    }

    /// Forgets everything that has been said.
    pub fn reset(&mut self, cache: &mut CudaKv)
        ensures
            final(self).same_rules(*old(self)),
            !final(self).primed,
            final(self).history@.len() == 0,
            final(cache).len == 0,
            final(cache).max_seq == old(cache).max_seq,
            final(cache).is_full == old(cache).is_full,
    {
        cache.clear();
        self.history = Vec::new();
        self.primed = false;
    }

    /// The prompt of a turn.
    pub open spec fn prompt(self, user: Seq<char>, first: bool, once: bool) -> Seq<char> {
        if once {
            single_prompt(self.system@, user)
        } else {
            turn_prompt(self.system@, user, first, self.enable_thinking)
        }
    }

    /// The prompt of a turn; `once` for a model that is asked once.
    pub fn build_user_prompt(&self, user: &str, first: bool, once: bool) -> (r: String)
        ensures
            r@ == self.prompt(user@, first, once),
    {
        let mut s: String = String::new();
        if once {
            s.append("<|system|>");
            s.append(self.system.as_str());
            s.append("<|/system|>\n<|user|>");
            s.append(user);
            s.append("<|/user|>\n<|assistant|>");
            proof {
                assert(s@ =~= self.prompt(user@, first, once));
            }
            return s;
        }
        if first {
            s.append("<|im_start|>system\n");
            s.append(self.system.as_str());
            s.append("<|im_end|>\n");
        }
        s.append("<|im_start|>user\n");
        s.append(user);
        s.append("<|im_end|>\n");
        s.append(assistant_generation_prompt(self.enable_thinking));
        proof {
            assert(s@ =~= self.prompt(user@, first, once));
        }
        s
    }

    /// Begins a turn: the prompt, and whether it is the first one. A model that
    /// is asked once forgets what has been said.
    pub fn begin_turn(&mut self, cache: &mut CudaKv, user: &str, once: bool) -> (r: (String, bool))
        ensures
            r.1 == (once || !old(self).primed),
            r.0@ == old(self).prompt(user@, r.1, once),
            final(self).same_rules(*old(self)),
            final(self).primed,
            final(self).history@ == (if once {
                Seq::<u32>::empty()
            } else {
                old(self).history@
            }),
            final(cache).len == (if once {
                0
            } else {
                old(cache).len
            }),
            final(cache).max_seq == old(cache).max_seq,
            final(cache).is_full == old(cache).is_full,
    {
        if once {
            self.reset(cache);
            proof {
                assert(self.history@ =~= Seq::<u32>::empty());
            }
        }
        let first: bool = !self.primed;
        let prompt: String = self.build_user_prompt(user, first, once);
        self.primed = true;
        (prompt, first)
    }

    /// Begins the reply to a whole prompt: what has been said is forgotten.
    pub fn begin_prompt(&mut self, cache: &mut CudaKv)
        ensures
            final(self).same_rules(*old(self)),
            final(self).primed,
            final(self).history@.len() == 0,
            final(cache).len == 0,
            final(cache).max_seq == old(cache).max_seq,
            final(cache).is_full == old(cache).is_full,
    {
        self.reset(cache);
        self.primed = true;
    }

    /// Tokens have run: they are part of the history.
    pub fn take_tokens(&mut self, ids: &[u32])
        ensures
            final(self).history@ == old(self).history@ + ids@,
            final(self).same_rules(*old(self)),
            final(self).primed == old(self).primed,
    {
        self.history.extend_from_slice(ids);
        proof {
            assert(self.history@ =~= old(self).history@ + ids@);
        }
    }
}

/// Why a prompt is refused.
#[derive(Debug, Clone, Copy, PartialEq, Eq, Structural)]
pub enum PromptError {
    /// No token stands for it.
    NoTokens,
}

impl PromptError {
    /// The error as a text.
    pub fn message(&self) -> (r: String)
        ensures
            r@ == "tokenizer produced 0 tokens for prompt"@,
    {
        "tokenizer produced 0 tokens for prompt".to_owned()
    }
}

/// Refuses a prompt that no token stands for.
pub fn check_prompt(ids: &[u32]) -> (r: Result<(), PromptError>)
    ensures
        match r {
            Ok(()) => ids@.len() > 0,
            Err(e) => ids@.len() == 0 && e == PromptError::NoTokens,
        },
{
    assert(ids.len() == ids@.len());
    if ids.len() == 0 {
        Err(PromptError::NoTokens)
    } else {
        Ok(())
    }
}

/// Whether a token may not be drafted: the end token, and marked ones.
pub open spec fn stops_draft(tok: Tokenizer, id: u32) -> bool {
    id == tok.eos_id || has_prefix(tok.text_of(id), "<|"@)
}

/// Tokens up to the first one that may not be drafted.
pub open spec fn until_stop(tok: Tokenizer, s: Seq<u32>) -> Seq<u32>
    decreases s.len(),
{
    if s.len() == 0 || stops_draft(tok, s[0]) {
        Seq::empty()
    } else {
        seq![s[0]] + until_stop(tok, s.skip(1))
    }
}

/// The smaller of two numbers.
pub open spec fn smaller(a: int, b: int) -> int {
    if a < b {
        a
    } else {
        b
    }
}

/// What followed the `n` tokens at place `pos`: at most eight, and at most
/// `limit`.
pub open spec fn draft_at(tok: Tokenizer, history: Seq<u32>, pos: int, n: int, limit: int) -> Seq<
    u32,
> {
    until_stop(
        tok,
        history.subrange(pos + n, smaller(pos + n + smaller(8, limit), history.len() as int)),
    )
}

/// Whether the last `n` tokens stand at place `pos`, and something follows
/// them.
pub open spec fn recurs_at(history: Seq<u32>, context: Seq<u32>, n: int, pos: int) -> bool {
    &&& 0 <= pos
    &&& pos + n < history.len()
    &&& history.subrange(pos, pos + n) == context.skip(context.len() - n)
}

/// The draft after the longest run of last tokens that stands in the history,
/// the latest of those; searched from `n` tokens and place `pos` down.
pub open spec fn search(
    tok: Tokenizer,
    history: Seq<u32>,
    context: Seq<u32>,
    limit: int,
    n: int,
    pos: int,
) -> Seq<u32>
    decreases n, pos + 1,
{
    if n < 2 {
        Seq::empty()
    } else if pos < 0 {
        search(tok, history, context, limit, n - 1, history.len() - (n - 1))
    } else if recurs_at(history, context, n, pos) && draft_at(
        tok,
        history,
        pos,
        n,
        limit,
    ).len() >= 2 {
        draft_at(tok, history, pos, n, limit)
    } else {
        search(tok, history, context, limit, n, pos - 1)
    }
}

/// The tokens that may come next: those that followed the same run of tokens
/// earlier.
pub open spec fn drafted(tok: Tokenizer, history: Seq<u32>, current: u32, limit: int) -> Seq<u32> {
    if limit < 2 || history.len() < 4 {
        Seq::empty()
    } else {
        let context = history.push(current);
        let n = smaller(8, context.len() as int);
        search(tok, history, context, limit, n, history.len() - n)
    }
}

/// Tokens up to a stop are the first ones.
proof fn lemma_until_stop(tok: Tokenizer, s: Seq<u32>)
    ensures
        until_stop(tok, s).len() <= s.len(),
        until_stop(tok, s) == s.take(until_stop(tok, s).len() as int),
        forall|k: int|
            0 <= k < until_stop(tok, s).len() ==> !stops_draft(tok, #[trigger] s[k]),
    decreases s.len(),
{
    if s.len() > 0 && !stops_draft(tok, s[0]) {
        let rest = s.skip(1);
        lemma_until_stop(tok, rest);
        let n = until_stop(tok, rest).len() as int;
        assert(seq![s[0]] + rest.take(n) =~= s.take(n + 1));
        assert forall|k: int| 0 <= k < n + 1 implies !stops_draft(tok, #[trigger] s[k]) by {
            if k > 0 {
                assert(rest[k - 1] == s[k]);
            }
        }
    } else {
        assert(s.take(0) =~= Seq::<u32>::empty());
    }
}

/// A draft has at most eight tokens and no more than are wanted, and it followed
/// the last tokens earlier; it is empty or has at least two tokens.
pub proof fn law_draft_followed(
    tok: Tokenizer,
    history: Seq<u32>,
    context: Seq<u32>,
    limit: int,
    n: int,
    pos: int,
)
    requires
        limit >= 2,
        n <= context.len(),
        pos <= history.len(),
    ensures
        ({
            let d = search(tok, history, context, limit, n, pos);
            &&& d.len() <= 8
            &&& d.len() <= limit
            &&& d.len() == 0 || d.len() >= 2
            &&& d.len() > 0 ==> exists|m: int, p: int| #[trigger]
                recurs_at(history, context, m, p) && p + m + d.len() <= history.len() && d
                    == history.subrange(p + m, p + m + d.len())
        }),
    decreases n, pos + 1,
{
    if n >= 2 {
        if pos < 0 {
            law_draft_followed(tok, history, context, limit, n - 1, history.len() - (n - 1));
        } else if recurs_at(history, context, n, pos) && draft_at(
            tok,
            history,
            pos,
            n,
            limit,
        ).len() >= 2 {
            let end = smaller(pos + n + smaller(8, limit), history.len() as int);
            let s = history.subrange(pos + n, end);
            lemma_until_stop(tok, s);
            let d = until_stop(tok, s);
            assert(d =~= history.subrange(pos + n, pos + n + d.len()));
            assert(recurs_at(history, context, n, pos));
        } else {
            law_draft_followed(tok, history, context, limit, n, pos - 1);
        }
    }
}

/// Whether a token may not be drafted.
fn ends_draft(tok: &Tokenizer, id: u32) -> (r: bool)
    ensures
        r == stops_draft(*tok, id),
{
    if id == tok.eos_id {
        return true;
    }
    let piece: String = tok.decode_one(id);
    let chars: Vec<char> = chars_of(piece.as_str());
    starts_with(&chars, "<|")
}

/// Whether the last `n` tokens stand at place `pos`, and something follows
/// them.
fn stands_in(history: &Vec<u32>, current: u32, n: usize, pos: usize) -> (r: bool)
    requires
        1 <= n <= history@.len() + 1,
    ensures
        r == recurs_at(history@, history@.push(current), n as int, pos as int),
{
    let len: usize = history.len();
    if pos >= len || n >= len - pos {
        return false;
    }
    let ghost context: Seq<u32> = history@.push(current);
    let ghost tail: Seq<u32> = context.skip(context.len() - n);
    let mut k: usize = 0;
    while k < n
        invariant
            k <= n,
            1 <= n,
            pos + n < len,
            len == history@.len(),
            context == history@.push(current),
            tail == context.skip(context.len() - n),
            forall|j: int| 0 <= j < k ==> history@[pos + j] == #[trigger] tail[j],
        decreases n - k,
    {
        let at: usize = len - (n - 1) + k;
        let want: u32 = if at == len {
            current
        } else {
            history[at]
        };
        proof {
            assert(tail[k as int] == want);
        }
        if history[pos + k] != want {
            proof {
                assert(history@.subrange(pos as int, pos + n)[k as int] != tail[k as int]);
            }
            return false;
        }
        k = k + 1;
    }
    proof {
        assert(history@.subrange(pos as int, pos + n) =~= tail);
    }
    true
}

/// What followed the `n` tokens at place `pos`.
fn follow(tok: &Tokenizer, history: &Vec<u32>, pos: usize, n: usize, limit: usize) -> (r: Vec<u32>)
    requires
        pos + n < history@.len(),
        limit >= 2,
    ensures
        r@ == draft_at(*tok, history@, pos as int, n as int, limit as int),
{
    let most: usize = if limit < 8 {
        limit
    } else {
        8
    };
    let len: usize = history.len();
    let start: usize = pos + n;
    let end: usize = if most < len - start {
        start + most
    } else {
        len
    };
    let ghost all: Seq<u32> = history@.subrange(start as int, end as int);
    let mut out: Vec<u32> = Vec::new();
    let mut k: usize = start;
    proof {
        assert(all.skip(0) =~= all);
        assert(out@ + until_stop(*tok, all) =~= until_stop(*tok, all));
    }
    while k < end
        invariant
            start <= k <= end,
            end <= history@.len(),
            all == history@.subrange(start as int, end as int),
            until_stop(*tok, all) == draft_at(*tok, history@, pos as int, n as int, limit as int),
            out@ + until_stop(*tok, all.skip(k - start)) == until_stop(*tok, all),
        decreases end - k,
    {
        let id: u32 = history[k];
        let ghost rest: Seq<u32> = all.skip(k - start);
        proof {
            assert(rest[0] == id);
            assert(rest.skip(1) =~= all.skip(k + 1 - start));
        }
        if ends_draft(tok, id) {
            proof {
                assert(out@ + until_stop(*tok, rest) =~= out@);
            }
            return out;
        }
        let ghost held: Seq<u32> = out@;
        out.push(id);
        proof {
            assert(held + (seq![id] + until_stop(*tok, rest.skip(1))) =~= out@ + until_stop(
                *tok,
                rest.skip(1),
            ));
        }
        k = k + 1;
    }
    proof {
        assert(all.skip(end - start) =~= Seq::<u32>::empty());
        assert(out@ + Seq::<u32>::empty() =~= out@);
    }
    out
}

/// The tokens that may come next.
pub fn prompt_lookup_draft(tok: &Tokenizer, history: &Vec<u32>, current: u32, limit: usize) -> (r:
    Vec<u32>)
    ensures
        r@ == drafted(*tok, history@, current, limit as int),
{
    if limit < 2 || history.len() < 4 {
        return Vec::new();
    }
    let len: usize = history.len();
    let ghost context: Seq<u32> = history@.push(current);
    let mut n: usize = if len < 7 {
        len + 1
    } else {
        8
    };
    while n >= 2
        invariant
            n <= 8,
            n <= len + 1,
            limit >= 2,
            len == history@.len(),
            len >= 4,
            context == history@.push(current),
            drafted(*tok, history@, current, limit as int) == search(
                *tok,
                history@,
                context,
                limit as int,
                n as int,
                len - n,
            ),
        decreases n,
    {
        if n <= len {
            let mut left: usize = len - n + 1;
            while left > 0
                invariant
                    left <= len - n + 1,
                    2 <= n <= len,
                    limit >= 2,
                    len == history@.len(),
                    context == history@.push(current),
                    drafted(*tok, history@, current, limit as int) == search(
                        *tok,
                        history@,
                        context,
                        limit as int,
                        n as int,
                        left - 1,
                    ),
                decreases left,
            {
                let pos: usize = left - 1;
                if stands_in(history, current, n, pos) {
                    let draft: Vec<u32> = follow(tok, history, pos, n, limit);
                    if draft.len() >= 2 {
                        return draft;
                    }
                }
                left = left - 1;
            }
        }
        n = n - 1;
    }
    Vec::new()
}

/// Whether a token ends a reply.
pub open spec fn ends_reply(tok: Tokenizer, id: u32) -> bool {
    ||| id == tok.eos_id
    ||| tok.text_of(id) == "<|im_end|>"@
    ||| tok.text_of(id) == "<|endoftext|>"@
    ||| tok.text_of(id) == "<|/assistant|>"@
    ||| tok.text_of(id) == "<|assistant|>"@
    ||| tok.text_of(id) == "<|im_start|>"@
}

/// Whether a token, which means `piece`, ends a reply.
fn is_end(tok: &Tokenizer, id: u32, piece: &str) -> (r: bool)
    requires
        piece@ == tok.text_of(id),
    ensures
        r == ends_reply(*tok, id),
{
    id == tok.eos_id || same_text(piece, "<|im_end|>") || same_text(piece, "<|endoftext|>")
        || same_text(piece, "<|/assistant|>") || same_text(piece, "<|assistant|>") || same_text(
        piece,
        "<|im_start|>",
    )
}

/// A reply that is being generated.
#[derive(Debug)]
pub struct Generation {
    pub max_new: usize,
    /// The token that comes next.
    pub next: u32,
    pub reply_ids: Vec<u32>,
    pub reply: String,
    /// Why the reply ended; while it grows, the number of tokens is what would
    /// end it.
    pub stop: StopReason,
    /// Whether the reply is complete.
    pub done: bool,
    /// Passes over drafts, the tokens that they proposed, and those that the
    /// model took.
    pub passes: usize,
    pub proposed: usize,
    pub accepted: usize,
}

/// What is to be done next.
#[derive(Debug)]
pub enum Action {
    /// The reply is complete.
    Done,
    /// Run this token.
    One(u32),
    /// Run these tokens, the last of them drafted, and compare.
    Verify(Vec<u32>),
}

impl Generation {
    /// No more tokens than are wanted, the text is what they mean, and the
    /// reason of the end agrees with their number.
    pub open spec fn wf(self, tok: Tokenizer) -> bool {
        &&& self.reply_ids@.len() <= self.max_new
        &&& self.reply@ == tok.decoded(self.reply_ids@)
        &&& !self.done ==> self.stop == StopReason::MaxNew
        &&& self.done ==> match self.stop {
            StopReason::MaxNew => self.reply_ids@.len() == self.max_new,
            StopReason::Eos => 0 < self.reply_ids@.len() < self.max_new,
            StopReason::Empty => 0 == self.reply_ids@.len() < self.max_new,
        }
    }

    /// A reply that begins with `next`.
    pub open spec fn begun(self, tok: Tokenizer, max_new: usize, next: u32) -> bool {
        &&& self.wf(tok)
        &&& self.max_new == max_new
        &&& self.next == next
        &&& self.reply_ids@.len() == 0
        &&& !self.done
        &&& self.passes == 0
        &&& self.proposed == 0
        &&& self.accepted == 0
    }

    /// A reply that begins with `next`.
    pub fn start(tok: &Tokenizer, max_new: usize, next: u32) -> (r: Generation)
        ensures
            r.begun(*tok, max_new, next),
    {
        let reply_ids: Vec<u32> = Vec::new();
        let reply: String = String::new();
        proof {
            assert(reply@ =~= tok.decoded(reply_ids@));
        }
        Generation {
            max_new,
            next,
            reply_ids,
            reply,
            stop: StopReason::MaxNew,
            done: false,
            passes: 0,
            proposed: 0,
            accepted: 0,
        }
    }

    /// Whether the reply ends before the next token: it is complete or long
    /// enough, or the token ends it.
    pub open spec fn ends(self, tok: Tokenizer, ignore_eos: bool) -> bool {
        self.done || self.reply_ids@.len() >= self.max_new || (!ignore_eos && ends_reply(
            tok,
            self.next,
        ))
    }

    /// The counts of the drafts are as in `other`.
    pub open spec fn same_counts(self, other: Generation) -> bool {
        &&& self.max_new == other.max_new
        &&& self.passes == other.passes
        &&& self.proposed == other.proposed
        &&& self.accepted == other.accepted
    }

    /// Adds a token to the reply.
    fn add_token(&mut self, tok: &Tokenizer, id: u32, piece: &str)
        requires
            old(self).wf(*tok),
            !old(self).done,
            old(self).reply_ids@.len() < old(self).max_new,
            piece@ == tok.text_of(id),
        ensures
            final(self).wf(*tok),
            final(self).reply_ids@ == old(self).reply_ids@.push(id),
            final(self).next == old(self).next,
            final(self).stop == old(self).stop,
            final(self).done == old(self).done,
            final(self).same_counts(*old(self)),
    {
        let ghost before: Seq<u32> = self.reply_ids@;
        self.reply_ids.push(id);
        self.reply.append(piece);
        proof {
            assert(self.reply_ids@.drop_last() =~= before);
        }
    }

    /// One step from this state to `after`, which adds the text `shown`: the
    /// next token ends the reply, or is added to it.
    pub open spec fn stepped(
        self,
        after: Generation,
        tok: Tokenizer,
        ignore_eos: bool,
        shown: Option<Seq<char>>,
    ) -> bool {
        &&& after.wf(tok)
        &&& after.next == self.next
        &&& after.same_counts(self)
        &&& if self.ends(tok, ignore_eos) {
            &&& shown is None
            &&& after.done
            &&& after.reply_ids@ == self.reply_ids@
            &&& after.stop == (if self.done || self.reply_ids@.len() >= self.max_new {
                self.stop
            } else if self.reply_ids@.len() == 0 {
                StopReason::Empty
            } else {
                StopReason::Eos
            })
        } else {
            &&& shown == Some(tok.text_of(self.next))
            &&& after.done == (after.reply_ids@.len() >= self.max_new)
            &&& after.reply_ids@ == self.reply_ids@.push(self.next)
            &&& after.stop == StopReason::MaxNew
        }
    }

    /// One step: the next token ends the reply, or is added to it; then it is
    /// run, alone or with a draft. Gives the text that was added.
    pub fn step(&mut self, tok: &Tokenizer, history: &Vec<u32>, ignore_eos: bool, lookup: bool) -> (r:
        (Option<String>, Action))
        requires
            old(self).wf(*tok),
        ensures
            old(self).stepped(*final(self), *tok, ignore_eos, maybe_text(r.0)),
            ({
                let left = old(self).max_new - final(self).reply_ids@.len();
                let draft = drafted(*tok, history@, old(self).next, left);
                if final(self).done {
                    r.1 is Done
                } else if lookup && draft.len() > 0 {
                    r.1 matches Action::Verify(v) && v@ == seq![old(self).next] + draft
                } else {
                    r.1 matches Action::One(t) && t == old(self).next
                }
            }),
    {
        if self.done {
            return (None, Action::Done);
        }
        if self.reply_ids.len() >= self.max_new {
            self.done = true;
            return (None, Action::Done);
        }
        let next: u32 = self.next;
        let piece: String = tok.decode_one(next);
        if !ignore_eos && is_end(tok, next, piece.as_str()) {
            self.stop = if self.reply_ids.len() == 0 {
                StopReason::Empty
            } else {
                StopReason::Eos
            };
            self.done = true;
            return (None, Action::Done);
        }
        self.add_token(tok, next, piece.as_str());
        if self.reply_ids.len() >= self.max_new {
            self.done = true;
            return (Some(piece), Action::Done);
        }
        if lookup {
            let mut draft: Vec<u32> = prompt_lookup_draft(
                tok,
                history,
                next,
                self.max_new - self.reply_ids.len(),
            );
            if draft.len() > 0 {
                let mut verify: Vec<u32> = vec![next];
                verify.append(&mut draft);
                return (Some(piece), Action::Verify(verify));
            }
        }
        (Some(piece), Action::One(next))
    }

    /// A token has run alone: it is part of the history.
    pub fn take_one(&self, history: &mut Vec<u32>)
        ensures
            final(history)@ == old(history)@.push(self.next),
    {
        history.push(self.next);
    }

    /// From this state to `after` only the token that comes next changes.
    pub open spec fn chose(self, after: Generation, next: u32) -> bool {
        &&& after.next == next
        &&& after.reply_ids@ == self.reply_ids@
        &&& after.reply@ == self.reply@
        &&& after.stop == self.stop
        &&& after.done == self.done
        &&& after.same_counts(self)
    }

    /// The token that comes next.
    pub fn choose_next(&mut self, next: u32)
        ensures
            old(self).chose(*final(self), next),
    {
        self.next = next;
    }
}

/// How many of the drafted tokens the model took: those up to the first that it
/// would not have chosen.
pub open spec fn agreed(verify: Seq<u32>, predictions: Seq<u32>, from: nat) -> nat
    decreases verify.len() - from,
{
    if from + 1 >= verify.len() || predictions[from as int] != verify[from as int + 1] {
        from
    } else {
        agreed(verify, predictions, from + 1)
    }
}

/// No more tokens are taken than are drafted.
proof fn lemma_agreed(verify: Seq<u32>, predictions: Seq<u32>, from: nat)
    requires
        from < verify.len(),
    ensures
        from <= agreed(verify, predictions, from) < verify.len(),
        forall|k: int|
            from <= k < agreed(verify, predictions, from) ==> #[trigger] predictions[k]
                == verify[k + 1],
    decreases verify.len() - from,
{
    if from + 1 < verify.len() && predictions[from as int] == verify[from as int + 1] {
        lemma_agreed(verify, predictions, from + 1);
    }
}

/// Every drafted token that is taken is the one that the model would have
/// chosen there.
pub proof fn law_drafts_are_checked(verify: Seq<u32>, predictions: Seq<u32>, k: int)
    requires
        verify.len() > 0,
        0 <= k < agreed(verify, predictions, 0),
    ensures
        verify[k + 1] == predictions[k],
        agreed(verify, predictions, 0) < verify.len(),
{
    lemma_agreed(verify, predictions, 0);
    assert(predictions[k] == verify[k + 1]);
}

/// What came of a draft: the texts that were added, how many drafted tokens the
/// model took, and whether the reply is complete.
pub struct Taken {
    pub pieces: Vec<String>,
    pub accepted: usize,
    pub done: bool,
}

impl Taken {
    /// Of the `run` tokens that ran last, the cache keeps the first and those that
    /// the model took.
    pub fn trim(&self, cache: &mut CudaKv, run: usize)
        requires
            old(cache).wf(),
            self.accepted < run <= old(cache).len,
        ensures
            final(cache).wf(),
            final(cache).len == trimmed_len(old(cache).len as int, run as int, self.accepted as int),
            final(cache).max_seq == old(cache).max_seq,
            final(cache).is_full == old(cache).is_full,
    {
        let len: usize = cache.len - run + 1 + self.accepted;
        cache.rewind(len);
    }
}

/// The positions that stay filled where `run` tokens ran last, and the first and
/// `accepted` more of them are kept.
pub open spec fn trimmed_len(len: int, run: int, accepted: int) -> int {
    len - run + 1 + accepted
}

/// The history after a draft: the first token, and those that the model took.
pub open spec fn history_after(history: Seq<u32>, verify: Seq<u32>, predictions: Seq<u32>) -> Seq<
    u32,
> {
    history + verify.take(agreed(verify, predictions, 0) as int + 1)
}

/// Where the cache held the tokens of the history before a draft ran, it holds
/// those of the history after it too, and no others.
pub proof fn law_history_is_cached(
    history: Seq<u32>,
    verify: Seq<u32>,
    predictions: Seq<u32>,
    len: int,
)
    requires
        verify.len() > 0,
        len == history.len(),
    ensures
        history_after(history, verify, predictions).len() == trimmed_len(
            len + verify.len(),
            verify.len() as int,
            agreed(verify, predictions, 0) as int,
        ),
        history_after(history, verify, predictions).is_prefix_of(history + verify),
{
    lemma_agreed(verify, predictions, 0);
    let n = agreed(verify, predictions, 0) + 1;
    assert(history_after(history, verify, predictions) =~= (history + verify).take(
        history.len() as int + n,
    ));
}

/// Texts as sequences of characters.
pub open spec fn text_views(v: Seq<String>) -> Seq<Seq<char>> {
    v.map_values(|s: String| s@)
}

impl Generation {
    /// From this state to `after` a draft was taken, which adds the texts
    /// `shown`: those tokens on which draft and model agree, as far as the reply
    /// may grow.
    pub open spec fn drew(
        self,
        after: Generation,
        tok: Tokenizer,
        verify: Seq<u32>,
        predictions: Seq<u32>,
        shown: Seq<Seq<char>>,
    ) -> bool {
        let accepted = agreed(verify, predictions, 0);
        let added = verify.subrange(
            1,
            1 + smaller(accepted as int, self.max_new - self.reply_ids@.len()),
        );
        &&& after.wf(tok)
        &&& after.max_new == self.max_new
        &&& after.passes == self.passes + 1
        &&& after.proposed == self.proposed + verify.len() - 1
        &&& after.accepted == self.accepted + accepted
        &&& after.reply_ids@ == self.reply_ids@ + added
        &&& shown == added.map_values(|id: u32| tok.text_of(id))
        &&& after.done == (after.reply_ids@.len() >= self.max_new)
        &&& after.stop == StopReason::MaxNew
        &&& after.next == (if after.done {
            self.next
        } else {
            predictions[accepted as int]
        })
    }

    /// A draft has run, and `predictions` says what the model would have chosen
    /// after each of the tokens: those on which both agree are added, as far as
    /// the reply may grow.
    pub fn take_draft(
        &mut self,
        tok: &Tokenizer,
        history: &mut Vec<u32>,
        verify: &Vec<u32>,
        predictions: &Vec<u32>,
    ) -> (r: Taken)
        requires
            old(self).wf(*tok),
            !old(self).done,
            verify@.len() > 0,
            verify@[0] == old(self).next,
            predictions@.len() == verify@.len(),
            old(self).passes < usize::MAX,
            old(self).proposed + verify@.len() <= usize::MAX,
            old(self).accepted + verify@.len() <= usize::MAX,
        ensures
            old(self).drew(*final(self), *tok, verify@, predictions@, text_views(r.pieces@)),
            r.accepted == agreed(verify@, predictions@, 0),
            r.done == final(self).done,
            final(history)@ == history_after(old(history)@, verify@, predictions@),
            r.accepted < verify@.len(),
    {
        proof {
            lemma_agreed(verify@, predictions@, 0);
        }
        let n: usize = verify.len();
        let mut accepted: usize = 0;
        while accepted + 1 < n && predictions[accepted] == verify[accepted + 1]
            invariant
                n == verify@.len(),
                accepted < n,
                predictions@.len() == verify@.len(),
                agreed(verify@, predictions@, 0) == agreed(verify@, predictions@, accepted as nat),
            decreases verify@.len() - accepted,
        {
            accepted = accepted + 1;
        }
        self.passes = self.passes + 1;
        self.proposed = self.proposed + (n - 1);
        self.accepted = self.accepted + accepted;
        let ghost start_history: Seq<u32> = history@;
        let mut i: usize = 0;
        while i < accepted + 1
            invariant
                i <= accepted + 1,
                accepted < n,
                n == verify@.len(),
                history@ =~= start_history + verify@.take(i as int),
            decreases accepted + 1 - i,
        {
            history.push(verify[i]);
            i = i + 1;
        }
        let ghost start_ids: Seq<u32> = self.reply_ids@;
        let ghost room: int = self.max_new - self.reply_ids@.len();
        let mut pieces: Vec<String> = Vec::new();
        let mut k: usize = 0;
        proof {
            assert(start_ids + verify@.subrange(1, 1) =~= start_ids);
            assert(text_views(pieces@) =~= verify@.subrange(1, 1).map_values(
                |id: u32| tok.text_of(id),
            ));
        }
        while k < accepted && self.reply_ids.len() < self.max_new
            invariant
                k <= accepted,
                accepted < verify@.len(),
                self.wf(*tok),
                self.max_new == old(self).max_new,
                self.passes == old(self).passes + 1,
                self.proposed == old(self).proposed + verify@.len() - 1,
                self.accepted == old(self).accepted + accepted,
                !self.done,
                self.next == old(self).next,
                start_ids == old(self).reply_ids@,
                room == self.max_new - start_ids.len(),
                k <= room,
                self.reply_ids@ == start_ids + verify@.subrange(1, 1 + k),
                text_views(pieces@) == verify@.subrange(1, 1 + k).map_values(
                    |id: u32| tok.text_of(id),
                ),
            decreases accepted - k,
        {
            let id: u32 = verify[k + 1];
            let piece: String = tok.decode_one(id);
            let ghost held: Seq<String> = pieces@;
            self.add_token(tok, id, piece.as_str());
            pieces.push(piece);
            k = k + 1;
            proof {
                assert(self.reply_ids@ =~= start_ids + verify@.subrange(1, 1 + k));
                assert(text_views(pieces@) =~= text_views(held).push(piece@));
                assert(text_views(pieces@) =~= verify@.subrange(1, 1 + k).map_values(
                    |id: u32| tok.text_of(id),
                ));
            }
        }
        let done: bool = self.reply_ids.len() >= self.max_new;
        if done {
            self.done = true;
        } else {
            self.next = predictions[accepted];
        }
        Taken { pieces, accepted, done }
    }

    /// Why the generation ended, and whether it was cut: an empty reply is not.
    pub open spec fn ended(self) -> (StopReason, bool) {
        (
            if self.reply_ids@.len() == 0 {
                StopReason::Empty
            } else {
                self.stop
            },
            self.stop == StopReason::MaxNew && self.reply_ids@.len() > 0,
        )
    }

    /// Why the generation ended, and whether it was cut: an empty reply is not.
    pub fn outcome(&self) -> (r: (StopReason, bool))
        ensures
            r == self.ended(),
    {
        let n: usize = self.reply_ids.len();
        let cut: bool = self.stop == StopReason::MaxNew && n > 0;
        if n == 0 {
            (StopReason::Empty, cut)
        } else {
            (self.stop, cut)
        }
    }
}

/// What happens to a reply that is being generated, with the texts that are
/// handed out.
pub enum Move {
    Step { ignore_eos: bool, piece: Option<Seq<char>> },
    Choose { next: u32 },
    Draft { verify: Seq<u32>, predictions: Seq<u32>, shown: Seq<Seq<char>> },
}

impl Move {
    /// The texts that are handed out.
    pub open spec fn shown(self) -> Seq<Seq<char>> {
        match self {
            Move::Step { piece: Some(s), .. } => seq![s],
            Move::Draft { shown, .. } => shown,
            _ => Seq::empty(),
        }
    }

    /// Whether it leads from one state to the other.
    pub open spec fn leads(self, tok: Tokenizer, before: Generation, after: Generation) -> bool {
        match self {
            Move::Step { ignore_eos, piece } => before.stepped(after, tok, ignore_eos, piece),
            Move::Choose { next } => before.chose(after, next),
            Move::Draft { verify, predictions, shown } => !before.done && before.drew(
                after,
                tok,
                verify,
                predictions,
                shown,
            ),
        }
    }
}

/// The texts that are handed out in several moves, one after the other.
pub open spec fn all_shown(moves: Seq<Move>) -> Seq<Seq<char>>
    decreases moves.len(),
{
    if moves.len() == 0 {
        Seq::empty()
    } else {
        all_shown(moves.drop_last()) + moves.last().shown()
    }
}

/// Texts as one.
pub open spec fn one_text(texts: Seq<Seq<char>>) -> Seq<char>
    decreases texts.len(),
{
    if texts.len() == 0 {
        Seq::empty()
    } else {
        one_text(texts.drop_last()) + texts.last()
    }
}

/// Whether the moves lead through the states, from a reply that has just begun.
pub open spec fn generates(
    tok: Tokenizer,
    max_new: usize,
    first: u32,
    states: Seq<Generation>,
    moves: Seq<Move>,
) -> bool {
    &&& states.len() == moves.len() + 1
    &&& states[0].begun(tok, max_new, first)
    &&& forall|i: int|
        0 <= i < moves.len() ==> (#[trigger] moves[i]).leads(tok, states[i], states[i + 1])
}

/// What tokens mean, as one text, is what they mean one by one.
proof fn lemma_decoded(tok: Tokenizer, ids: Seq<u32>)
    ensures
        tok.decoded(ids) == one_text(ids.map_values(|id: u32| tok.text_of(id))),
    decreases ids.len(),
{
    let texts = ids.map_values(|id: u32| tok.text_of(id));
    if ids.len() > 0 {
        lemma_decoded(tok, ids.drop_last());
        assert(texts.drop_last() =~= ids.drop_last().map_values(|id: u32| tok.text_of(id)));
    }
}

/// Of a whole generation: the texts that are handed out are those of the tokens
/// of the reply, in their order, so that joined they are the reply, and there are
/// as many. When it is complete, the reason is the number of tokens exactly where
/// all that are wanted are there, and some are wanted; the reply is called empty
/// exactly where it has no token; and it counts as cut exactly where its number of
/// tokens ended it.
pub proof fn law_whole_generation(
    tok: Tokenizer,
    max_new: usize,
    first: u32,
    states: Seq<Generation>,
    moves: Seq<Move>,
)
    requires
        generates(tok, max_new, first, states, moves),
    ensures
        ({
            let last = states.last();
            let shown = all_shown(moves);
            &&& last.wf(tok)
            &&& last.max_new == max_new
            &&& shown == last.reply_ids@.map_values(|id: u32| tok.text_of(id))
            &&& shown.len() == last.reply_ids@.len() <= max_new
            &&& last.reply@ == one_text(shown)
            &&& last.done ==> {
                &&& last.ended().0 == StopReason::MaxNew <==> shown.len() == max_new && max_new > 0
                &&& last.ended().0 == StopReason::Empty <==> shown.len() == 0
                &&& last.ended().1 <==> last.ended().0 == StopReason::MaxNew
            }
        }),
    decreases moves.len(),
{
    let last = states.last();
    let text = |id: u32| tok.text_of(id);
    if moves.len() == 0 {
        assert(all_shown(moves) =~= last.reply_ids@.map_values(text));
    } else {
        let n = moves.len() - 1;
        assert(moves[n].leads(tok, states[n], states[n + 1]));
        assert forall|i: int| 0 <= i < moves.drop_last().len() implies (
        #[trigger] moves.drop_last()[i]).leads(
            tok,
            states.drop_last()[i],
            states.drop_last()[i + 1],
        ) by {
            assert(moves[i].leads(tok, states[i], states[i + 1]));
        }
        law_whole_generation(tok, max_new, first, states.drop_last(), moves.drop_last());
        assert(states.drop_last().last() == states[n]);
        assert(all_shown(moves) =~= last.reply_ids@.map_values(text));
    }
    lemma_decoded(tok, last.reply_ids@);
}

/// The text that ends a turn.
pub const TURN_END: &'static str = "<|im_end|>\n";

/// Whether the tokens that end a turn are added to the cache: where they leave
/// room.
pub fn appends_end(end: &[u32], cache: &CudaKv) -> (r: bool)
    requires
        cache.wf(),
    ensures
        r == (end@.len() > 0 && cache.len + end@.len() < cache.max_seq),
{
    assert(end.len() == end@.len());
    end.len() > 0 && end.len() < cache.max_seq - cache.len
}

/// A line that was typed.
#[derive(Debug)]
pub enum Line {
    Nothing,
    Quit,
    Reset,
    Say(String),
}

/// A line that was typed, without the white space at its ends.
pub fn read_line(line: &str) -> (r: Line)
    ensures
        ({
            let t = trimmed(line@);
            match r {
                Line::Nothing => t.len() == 0,
                Line::Quit => t == "/quit"@ || t == "/exit"@,
                Line::Reset => t == "/reset"@,
                Line::Say(s) => s@ == t && t.len() > 0 && t != "/quit"@ && t != "/exit"@ && t
                    != "/reset"@,
            }
        }),
{
    let chars: Vec<char> = chars_of(line);
    let inner: Vec<char> = trim(&chars);
    if inner.len() == 0 {
        return Line::Nothing;
    }
    let text: String = string_of(&inner);
    if same_text(text.as_str(), "/quit") || same_text(text.as_str(), "/exit") {
        return Line::Quit;
    }
    if same_text(text.as_str(), "/reset") {
        return Line::Reset;
    }
    Line::Say(text)
}

/// Whether the tokens before a place are the last `n` of the context, and enough may
/// follow them to be a draft.
pub open spec fn usable(
    tok: Tokenizer,
    history: Seq<u32>,
    context: Seq<u32>,
    limit: int,
    n: int,
    pos: int,
) -> bool {
    recurs_at(history, context, n, pos) && draft_at(tok, history, pos, n, limit).len() >= 2
}

/// A draft is what followed the longest end of the context that occurred before, up to
/// eight tokens of it, and of its places the latest; there is none only where no end of
/// two or more tokens occurred with enough behind it.
pub proof fn law_draft_is_longest_then_latest(
    tok: Tokenizer,
    history: Seq<u32>,
    current: u32,
    limit: int,
)
    requires
        limit >= 2,
        history.len() >= 4,
    ensures
        ({
            let context = history.push(current);
            let d = drafted(tok, history, current, limit);
            let most = if context.len() < 8 {
                context.len() as int
            } else {
                8
            };
            &&& d.len() == 0 ==> forall|m: int, p: int|
                2 <= m <= most ==> !#[trigger] usable(tok, history, context, limit, m, p)
            &&& d.len() > 0 ==> exists|m: int, p: int|
                {
                    &&& 2 <= m <= most
                    &&& #[trigger] usable(tok, history, context, limit, m, p)
                    &&& d == draft_at(tok, history, p, m, limit)
                    &&& forall|n: int, q: int|
                        m <= n <= most && #[trigger] usable(tok, history, context, limit, n, q)
                            ==> n == m && q <= p
                }
        }),
{
    let context = history.push(current);
    let n = smaller(8, context.len() as int);
    lemma_search(tok, history, context, limit, n, history.len() - n);
}

proof fn lemma_search(
    tok: Tokenizer,
    history: Seq<u32>,
    context: Seq<u32>,
    limit: int,
    n: int,
    pos: int,
)
    requires
        limit >= 2,
        forall|q: int| q > pos ==> !#[trigger] usable(tok, history, context, limit, n, q),
    ensures
        ({
            let d = search(tok, history, context, limit, n, pos);
            &&& d.len() == 0 ==> forall|m: int, p: int|
                2 <= m <= n ==> !#[trigger] usable(tok, history, context, limit, m, p)
            &&& d.len() > 0 ==> exists|m: int, p: int|
                {
                    &&& 2 <= m <= n
                    &&& #[trigger] usable(tok, history, context, limit, m, p)
                    &&& d == draft_at(tok, history, p, m, limit)
                    &&& forall|k: int, q: int|
                        m <= k <= n && #[trigger] usable(tok, history, context, limit, k, q) ==> k
                            == m && q <= p
                }
        }),
    decreases n, pos + 1,
{
    if n < 2 {
    } else if pos < 0 {
        lemma_search(tok, history, context, limit, n - 1, history.len() - (n - 1));
        assert forall|q: int| !#[trigger] usable(tok, history, context, limit, n, q) by {
            if q <= pos {
                assert(!recurs_at(history, context, n, q));
            }
        }
    } else if usable(tok, history, context, limit, n, pos) {
        assert(search(tok, history, context, limit, n, pos) == draft_at(
            tok,
            history,
            pos,
            n,
            limit,
        ));
    } else {
        assert forall|q: int| q > pos - 1 implies !#[trigger] usable(
            tok,
            history,
            context,
            limit,
            n,
            q,
        ) by {
            if q == pos {
            }
        }
        lemma_search(tok, history, context, limit, n, pos - 1);
    }
}

/// What goes into a draft: the tokens in their order, up to the first that would end it
/// and not that one.
pub proof fn law_draft_stops(tok: Tokenizer, s: Seq<u32>)
    ensures
        ({
            let d = until_stop(tok, s);
            &&& d.len() <= s.len()
            &&& d == s.take(d.len() as int)
            &&& forall|i: int|
                0 <= i < d.len() ==> s[i] != tok.eos_id && !has_prefix(
                    tok.text_of(#[trigger] s[i]),
                    "<|"@,
                )
            &&& d.len() < s.len() ==> s[d.len() as int] == tok.eos_id || has_prefix(
                tok.text_of(s[d.len() as int]),
                "<|"@,
            )
        }),
    decreases s.len(),
{
    if s.len() > 0 && !stops_draft(tok, s[0]) {
        let rest = s.skip(1);
        law_draft_stops(tok, rest);
        let d = until_stop(tok, s);
        let e = until_stop(tok, rest);
        assert(d =~= s.take(d.len() as int));
        assert forall|i: int| 0 <= i < d.len() implies s[i] != tok.eos_id && !has_prefix(
            tok.text_of(#[trigger] s[i]),
            "<|"@,
        ) by {
            if i > 0 {
                assert(rest[i - 1] == s[i]);
            }
        }
        if d.len() < s.len() {
            assert(rest[e.len() as int] == s[d.len() as int]);
        }
    } else {
        assert(until_stop(tok, s) =~= s.take(0));
    }
}

/// As many tokens of a draft are accepted as the model foretold, and no fewer: behind
/// them the draft ends or the model foretold another token.
pub proof fn law_drafts_are_accepted(verify: Seq<u32>, predictions: Seq<u32>)
    requires
        verify.len() > 0,
    ensures
        ({
            let n = agreed(verify, predictions, 0);
            &&& n < verify.len()
            &&& n + 1 == verify.len() || predictions[n as int] != verify[n as int + 1]
            &&& forall|k: int| 0 <= k < n ==> #[trigger] predictions[k] == verify[k + 1]
        }),
{
    lemma_agreed_stops(verify, predictions, 0);
    assert forall|k: int|
        0 <= k < agreed(verify, predictions, 0) implies #[trigger] predictions[k] == verify[k
        + 1] by {
        law_drafts_are_checked(verify, predictions, k);
    }
}

proof fn lemma_agreed_stops(verify: Seq<u32>, predictions: Seq<u32>, from: nat)
    requires
        from < verify.len(),
    ensures
        ({
            let n = agreed(verify, predictions, from);
            &&& from <= n < verify.len()
            &&& n + 1 == verify.len() || predictions[n as int] != verify[n as int + 1]
        }),
    decreases verify.len() - from,
{
    if from + 1 < verify.len() && predictions[from as int] == verify[from as int + 1] {
        lemma_agreed_stops(verify, predictions, from + 1);
    }
}

/// A reply ends with the end token of the tokenizer, and with each token that ends or
/// begins a turn in either form of prompt; no other token ends it.
pub proof fn law_reply_ends(tok: Tokenizer, id: u32)
    ensures
        id == tok.eos_id ==> ends_reply(tok, id),
        turn((ChatRole::User, Seq::empty())) == tok.text_of(id) + "user\n"@ + "<|im_end|>\n"@
            ==> ends_reply(tok, id),
        tok.text_of(id) + "\n"@ == "<|im_end|>\n"@ ==> ends_reply(tok, id),
        ends_reply(tok, id) && id != tok.eos_id ==> seq![
            "<|im_end|>"@,
            "<|im_start|>"@,
            "<|endoftext|>"@,
            "<|assistant|>"@,
            "<|/assistant|>"@,
        ].contains(tok.text_of(id)),
        seq![
            "<|im_end|>"@,
            "<|im_start|>"@,
            "<|endoftext|>"@,
            "<|assistant|>"@,
            "<|/assistant|>"@,
        ].contains(tok.text_of(id)) ==> ends_reply(tok, id),
{
    let all = seq![
        "<|im_end|>"@,
        "<|im_start|>"@,
        "<|endoftext|>"@,
        "<|assistant|>"@,
        "<|/assistant|>"@,
    ];
    assert(all[0] == "<|im_end|>"@ && all[1] == "<|im_start|>"@ && all[2] == "<|endoftext|>"@
        && all[3] == "<|assistant|>"@ && all[4] == "<|/assistant|>"@);
    let t = tok.text_of(id);
    reveal_strlit("\n");
    reveal_strlit("<|im_end|>");
    reveal_strlit("<|im_end|>\n");
    assert("<|im_end|>\n"@ =~= "<|im_end|>"@ + "\n"@);
    if t + "\n"@ == "<|im_end|>"@ + "\n"@ {
        assert((t + "\n"@).drop_last() =~= t);
        assert(("<|im_end|>"@ + "\n"@).drop_last() =~= "<|im_end|>"@);
    }
    reveal_strlit("<|im_start|>");
    reveal_strlit("<|im_start|>user\n");
    reveal_strlit("user\n");
    law_turn_text((ChatRole::User, Seq::empty()));
    let whole = turn((ChatRole::User, Seq::empty()));
    assert(whole =~= "<|im_start|>"@ + "user\n"@ + "<|im_end|>\n"@);
    if whole == t + "user\n"@ + "<|im_end|>\n"@ {
        assert((t + "user\n"@ + "<|im_end|>\n"@).take(t.len() as int) =~= t);
        assert(whole.take(12) =~= "<|im_start|>"@);
        assert(t.len() == 12);
    }
}

} // verus!
