//! Choosing among the scores of the next token: the random numbers, which
//! tokens count as repeated, and which scores are the highest.
use crate::quant::{exp32, frac32, sign32, size32};
use vstd::arithmetic::power2::pow2;
use vstd::prelude::*;

verus! {

/// How the next token is chosen. The numbers are single precision bits.
#[derive(Debug, Clone, Copy, PartialEq, Eq, Structural)]
pub struct SamplingOptions {
    /// Nothing above zero means the highest score.
    pub temperature: u32,
    pub top_p: u32,
    pub top_k: usize,
    pub repetition_penalty: u32,
}

/// `1.0` in single precision.
pub const ONE: u32 = 0x3f80_0000;

impl Default for SamplingOptions {
    /// The highest score, whatever has been said.
    fn default() -> (r: SamplingOptions)
        ensures
            r == (SamplingOptions {
                temperature: 0,
                top_p: ONE,
                top_k: 256,
                repetition_penalty: ONE,
            }),
    {
        SamplingOptions { temperature: 0, top_p: ONE, top_k: 256, repetition_penalty: ONE }
    }
}

/// Whether a single precision number is at most zero: zero, or negative and a
/// number.
pub open spec fn at_most_zero(bits: u32) -> bool {
    bits == 0 || (0x8000_0000 <= bits && bits <= 0xff80_0000)
}

impl SamplingOptions {
    /// Whether the highest score is taken.
    pub fn is_greedy(&self) -> (r: bool)
        ensures
            r == at_most_zero(self.temperature),
    {
        self.temperature == 0 || (0x8000_0000 <= self.temperature && self.temperature
            <= 0xff80_0000)
    }
}

/// The state after `x`: three shifts, each joined by an exclusive or.
pub open spec fn shifted(x: u64) -> u64 {
    let a = x ^ (x << 13u64);
    let b = a ^ (a >> 7u64);
    b ^ (b << 17u64)
}

/// The next random number, which is also the next state; a state of zero counts
/// as one.
pub fn next_random(state: &mut u64) -> (r: u64)
    ensures
        r == shifted(if *old(state) == 0 {
            1
        } else {
            *old(state)
        }),
        *final(state) == r,
        r != 0,
{
    let start: u64 = if *state == 0 {
        1
    } else {
        *state
    };
    let a: u64 = start ^ (start << 13u64);
    let b: u64 = a ^ (a >> 7u64);
    let c: u64 = b ^ (b << 17u64);
    proof {
        law_random_never_ends(start);
    }
    *state = c;
    c
}

/// A state that is not zero leads to one that is not zero.
pub proof fn law_random_never_ends(x: u64)
    requires
        x != 0,
    ensures
        shifted(x) != 0,
{
    let a = x ^ (x << 13u64);
    assert(a != 0) by (bit_vector)
        requires
            x != 0,
            a == x ^ (x << 13u64),
    ;
    let b = a ^ (a >> 7u64);
    assert(b != 0) by (bit_vector)
        requires
            a != 0,
            b == a ^ (a >> 7u64),
    ;
    let c = b ^ (b << 17u64);
    assert(c != 0) by (bit_vector)
        requires
            b != 0,
            c == b ^ (b << 17u64),
    ;
}

/// Two states lead to two states: no two seeds ever meet.
pub proof fn law_random_is_one_to_one(x: u64, y: u64)
    requires
        shifted(x) == shifted(y),
    ensures
        x == y,
{
    let a = x ^ (x << 13u64);
    let p = y ^ (y << 13u64);
    let b = a ^ (a >> 7u64);
    let q = p ^ (p >> 7u64);
    assert(b == q) by (bit_vector)
        requires
            b ^ (b << 17u64) == q ^ (q << 17u64),
    ;
    assert(a == p) by (bit_vector)
        requires
            a ^ (a >> 7u64) == p ^ (p >> 7u64),
    ;
    assert(x == y) by (bit_vector)
        requires
            x ^ (x << 13u64) == y ^ (y << 13u64),
    ;
}

/// For each score whether its token has been said.
pub fn repeated(scores: &[(u32, u32)], history: &[u32]) -> (r: Vec<bool>)
    ensures
        r@ == Seq::new(scores@.len(), |i: int| history@.contains(scores@[i].0)),
{
    let mut out: Vec<bool> = Vec::new();
    let mut i: usize = 0;
    while i < scores.len()
        invariant
            i <= scores@.len(),
            out@.len() == i,
            forall|k: int| 0 <= k < i ==> out@[k] == history@.contains((#[trigger] scores@[k]).0),
        decreases scores@.len() - i,
    {
        out.push(holds(history, scores[i].0));
        i = i + 1;
    }
    proof {
        assert(out@ =~= Seq::new(scores@.len(), |i: int| history@.contains(scores@[i].0)));
    }
    out
}

/// Whether a number occurs.
fn holds(v: &[u32], x: u32) -> (r: bool)
    ensures
        r == v@.contains(x),
{
    let mut i: usize = 0;
    while i < v.len()
        invariant
            i <= v@.len(),
            forall|k: int| 0 <= k < i ==> v@[k] != x,
        decreases v@.len() - i,
    {
        if v[i] == x {
            assert(v@[i as int] == x);
            return true;
        }
        i = i + 1;
    }
    false
}

/// The place of a single precision number in the total order of all of them.
pub open spec fn place_of(bits: u32) -> int {
    if bits < 0x8000_0000 {
        0x8000_0000 + bits
    } else {
        0xffff_ffff - bits
    }
}

/// The place of a single precision number in the total order of all of them.
fn place(bits: u32) -> (r: u32)
    ensures
        r == place_of(bits),
{
    if bits < 0x8000_0000 {
        0x8000_0000 + bits
    } else {
        0xffff_ffff - bits
    }
}

/// Whether bits stand for a number, infinite ones among them.
pub open spec fn is_number(bits: u32) -> bool {
    exp32(bits) < 255 || frac32(bits) == 0
}

/// The number that bits stand for, counted in units of 2^-150; an infinite one
/// counts as larger than all others.
pub open spec fn number_of(bits: u32) -> int {
    if sign32(bits) == 1 {
        -size32(bits)
    } else {
        size32(bits)
    }
}

/// Without their signs numbers go up with their bits.
proof fn lemma_size_grows(a: u32, b: u32)
    requires
        a % 0x8000_0000 < b % 0x8000_0000,
    ensures
        0 <= size32(a) < size32(b),
{
    let (e, g) = (exp32(a), exp32(b));
    let (f, h) = (frac32(a), frac32(b));
    assert(a % 0x8000_0000 == e * 0x80_0000 + f);
    assert(b % 0x8000_0000 == g * 0x80_0000 + h);
    vstd::arithmetic::power2::lemma2_to64();
    vstd::arithmetic::power2::lemma_pow2_pos(e as nat);
    vstd::arithmetic::power2::lemma_pow2_pos(g as nat);
    let p = pow2(e as nat) as int;
    let q = pow2(g as nat) as int;
    if g == 0 {
        assert(e == 0);
    } else if e == g {
        assert((0x80_0000 + f) * p < (0x80_0000 + h) * p) by (nonlinear_arith)
            requires
                f < h,
                p > 0,
        ;
        assert(0 <= (0x80_0000 + f) * p) by (nonlinear_arith)
            requires
                f >= 0,
                p > 0,
        ;
    } else {
        assert(e < g);
        vstd::arithmetic::power2::lemma_pow2_unfold(g as nat);
        vstd::arithmetic::power2::lemma_pow2_pos((g - 1) as nat);
        if e > 0 {
            if e < g - 1 {
                vstd::arithmetic::power2::lemma_pow2_strictly_increases(e as nat, (g - 1) as nat);
            }
            assert((0x80_0000 + f) * p < (0x80_0000 + h) * q && 0 <= (0x80_0000 + f) * p)
                by (nonlinear_arith)
                requires
                    0 <= f < 0x80_0000,
                    h >= 0,
                    p > 0,
                    q >= 2 * p,
            ;
        } else {
            assert((0x80_0000 + h) * q >= 0x80_0000 * 2) by (nonlinear_arith)
                requires
                    h >= 0,
                    q >= 2,
            ;
        }
    }
}

/// Scores are ordered as the numbers that their bits stand for: a higher number
/// has a higher place, below zero too.
pub proof fn law_order_is_that_of_numbers(a: u32, b: u32)
    requires
        is_number(a),
        is_number(b),
        number_of(a) < number_of(b),
    ensures
        place_of(a) < place_of(b),
{
    let x = (a % 0x8000_0000) as u32;
    let y = (b % 0x8000_0000) as u32;
    assert(size32(a) == size32(x) && size32(b) == size32(y));
    lemma_size_positive(a);
    lemma_size_positive(b);
    if sign32(a) == sign32(b) {
        if x < y {
            lemma_size_grows(a, b);
        } else if y < x {
            lemma_size_grows(b, a);
        }
    }
}

/// A size is not negative.
proof fn lemma_size_positive(b: u32)
    ensures
        size32(b) >= 0,
{
    vstd::arithmetic::power2::lemma_pow2_pos(exp32(b) as nat);
    let (f, p) = (frac32(b), pow2(exp32(b) as nat) as int);
    assert((0x80_0000 + f) * p >= 0) by (nonlinear_arith)
        requires
            f >= 0,
            p > 0,
    ;
}

/// Two scores that stand for different bits have different places.
pub proof fn law_places_are_one_to_one(a: u32, b: u32)
    requires
        place_of(a) == place_of(b),
    ensures
        a == b,
{
}

/// The highest score is taken exactly where the temperature is a number no higher
/// than zero.
pub proof fn law_greedy_at_zero_or_below(bits: u32)
    ensures
        at_most_zero(bits) <==> is_number(bits) && number_of(bits) <= 0,
{
    lemma_size_positive(bits);
    if 0 < bits < 0x8000_0000 {
        lemma_size_grows(0, bits);
    }
}

/// Where a score goes among scores from the highest down: behind those that are
/// no lower.
pub open spec fn rank_in(s: Seq<(u32, u32)>, x: (u32, u32), n: nat) -> int
    decreases n,
{
    if n == 0 {
        0
    } else if place_of(s[n - 1].1) >= place_of(x.1) {
        n as int
    } else {
        rank_in(s, x, (n - 1) as nat)
    }
}

/// Scores with one more, from the highest down.
pub open spec fn placed(s: Seq<(u32, u32)>, x: (u32, u32)) -> Seq<(u32, u32)> {
    s.insert(rank_in(s, x, s.len()), x)
}

/// Scores from the highest down; of equal ones the first comes first.
pub open spec fn ranked(s: Seq<(u32, u32)>) -> Seq<(u32, u32)>
    decreases s.len(),
{
    if s.len() == 0 {
        s
    } else {
        placed(ranked(s.drop_last()), s.last())
    }
}

/// How many scores are kept: at least one, and no more than there are.
pub open spec fn kept(n: nat, top_k: nat) -> nat {
    let k = if top_k == 0 {
        1
    } else {
        top_k
    };
    if k < n {
        k
    } else {
        n
    }
}

/// A rank lies among the scores.
proof fn lemma_rank_in(s: Seq<(u32, u32)>, x: (u32, u32), n: nat)
    requires
        n <= s.len(),
    ensures
        0 <= rank_in(s, x, n) <= n,
        forall|k: int| rank_in(s, x, n) <= k < n ==> place_of((#[trigger] s[k]).1) < place_of(x.1),
        rank_in(s, x, n) > 0 ==> place_of(s[rank_in(s, x, n) - 1].1) >= place_of(x.1),
    decreases n,
{
    if n > 0 {
        lemma_rank_in(s, x, (n - 1) as nat);
    }
}

/// Whether scores go from the highest down.
pub open spec fn descending(s: Seq<(u32, u32)>) -> bool {
    forall|i: int, j: int|
        0 <= i <= j < s.len() ==> place_of((#[trigger] s[i]).1) >= place_of((#[trigger] s[j]).1)
}

/// Scores that are ranked go from the highest down.
pub proof fn law_ranked_descends(s: Seq<(u32, u32)>)
    ensures
        descending(ranked(s)),
        ranked(s).len() == s.len(),
    decreases s.len(),
{
    if s.len() > 0 {
        let front = ranked(s.drop_last());
        let x = s.last();
        law_ranked_descends(s.drop_last());
        lemma_rank_in(front, x, front.len());
        lemma_placed_descends(front, x);
    }
}

/// Placing one more keeps the order.
proof fn lemma_placed_descends(s: Seq<(u32, u32)>, x: (u32, u32))
    requires
        descending(s),
    ensures
        descending(placed(s, x)),
        placed(s, x).len() == s.len() + 1,
{
    lemma_rank_in(s, x, s.len());
    let r = rank_in(s, x, s.len());
    let t = placed(s, x);
    assert forall|i: int, j: int| 0 <= i <= j < t.len() implies place_of((#[trigger] t[i]).1)
        >= place_of((#[trigger] t[j]).1) by {
        if i < r && j < r {
            assert(t[i] == s[i] && t[j] == s[j]);
        } else if i < r && j == r {
            assert(t[i] == s[i] && t[j] == x);
            assert(place_of(s[i].1) >= place_of(s[r - 1].1));
        } else if i < r {
            assert(t[i] == s[i] && t[j] == s[j - 1]);
        } else if i == r && j > r {
            assert(t[i] == x && t[j] == s[j - 1]);
        } else if i > r {
            assert(t[i] == s[i - 1] && t[j] == s[j - 1]);
        }
    }
}

/// Ranking keeps every score: none is lost, none is added.
pub proof fn law_ranked_keeps(s: Seq<(u32, u32)>)
    ensures
        ranked(s).to_multiset() == s.to_multiset(),
    decreases s.len(),
{
    if s.len() > 0 {
        let front = ranked(s.drop_last());
        let x = s.last();
        law_ranked_keeps(s.drop_last());
        lemma_rank_in(front, x, front.len());
        vstd::seq_lib::to_multiset_insert(front, rank_in(front, x, front.len()), x);
        assert(s =~= s.drop_last().push(x));
        vstd::seq_lib::to_multiset_build(s.drop_last(), x);
    }
}

/// The highest of some scores with one more are among the highest of those
/// and the one more.
proof fn lemma_placed_take(s: Seq<(u32, u32)>, x: (u32, u32), k: int)
    requires
        descending(s),
        0 <= k <= s.len(),
    ensures
        placed(s, x).take(k) == placed(s.take(k), x).take(k),
{
    let cut = s.take(k);
    lemma_rank_in(s, x, s.len());
    lemma_rank_in(cut, x, cut.len());
    let r = rank_in(s, x, s.len());
    let c = rank_in(cut, x, cut.len());
    if r <= k {
        if c < r {
            assert(cut[c] == s[c]);
            assert(place_of(s[c].1) >= place_of(s[r - 1].1));
        }
        if r < c {
            assert(cut[c - 1] == s[c - 1]);
        }
        assert(r == c);
    } else {
        assert(c == k) by {
            if c < k {
                assert(cut[c] == s[c]);
                assert(place_of(s[c].1) >= place_of(s[r - 1].1));
            }
        }
    }
    assert(placed(s, x).take(k) =~= placed(cut, x).take(k));
}

/// Places a score among the highest `k`, which go from the highest down.
fn place_score(best: &mut Vec<(u32, u32)>, x: (u32, u32), k: usize)
    requires
        k >= 1,
        old(best)@.len() <= k,
    ensures
        final(best)@ == (if old(best)@.len() < k {
            placed(old(best)@, x)
        } else {
            placed(old(best)@, x).take(k as int)
        }),
        final(best)@.len() <= k,
{
    let n: usize = best.len();
    let key: u32 = place(x.1);
    let mut at: usize = n;
    while at > 0 && place(best[at - 1].1) < key
        invariant
            at <= n,
            n == best@.len(),
            best@ == old(best)@,
            key == place_of(x.1),
            rank_in(best@, x, n as nat) == rank_in(best@, x, at as nat),
        decreases at,
    {
        at = at - 1;
    }
    let ghost before: Seq<(u32, u32)> = best@;
    proof {
        assert(rank_in(before, x, n as nat) == at);
    }
    best.insert(at, x);
    if best.len() > k {
        let _ = best.pop();
        proof {
            assert(best@ =~= placed(before, x).take(k as int));
        }
    }
}

/// The highest scores, from the highest down: as many as are wanted.
pub fn top_candidates(scores: &[(u32, u32)], top_k: usize) -> (r: Vec<(u32, u32)>)
    ensures
        r@ == ranked(scores@).take(kept(scores@.len(), top_k as nat) as int),
        descending(r@),
{
    let k: usize = if top_k == 0 {
        1
    } else {
        top_k
    };
    let mut best: Vec<(u32, u32)> = Vec::new();
    let mut i: usize = 0;
    proof {
        assert(scores@.take(0) =~= Seq::<(u32, u32)>::empty());
        assert(ranked(scores@.take(0)).take(0) =~= Seq::<(u32, u32)>::empty());
    }
    while i < scores.len()
        invariant
            i <= scores@.len(),
            k >= 1,
            best@.len() <= k,
            best@ == ranked(scores@.take(i as int)).take(
                (if k < i {
                    k as int
                } else {
                    i as int
                }),
            ),
        decreases scores@.len() - i,
    {
        let ghost front: Seq<(u32, u32)> = ranked(scores@.take(i as int));
        let ghost held: Seq<(u32, u32)> = best@;
        let x: (u32, u32) = scores[i];
        place_score(&mut best, x, k);
        proof {
            law_ranked_descends(scores@.take(i as int));
            assert(scores@.take(i as int + 1).drop_last() =~= scores@.take(i as int));
            let next = ranked(scores@.take(i as int + 1));
            assert(next == placed(front, x));
            if i < k {
                assert(front.take(i as int) =~= front);
                lemma_rank_in(front, x, front.len());
                assert(next.take(i as int + 1) =~= next);
            } else {
                lemma_placed_take(front, x, k as int);
            }
        }
        i = i + 1;
    }
    proof {
        assert(scores@.take(scores@.len() as int) =~= scores@);
        law_ranked_descends(scores@);
    }
    best
}

/// The first candidate has the highest score of all.
pub proof fn law_first_is_highest(scores: Seq<(u32, u32)>, i: int)
    requires
        0 <= i < scores.len(),
    ensures
        place_of(scores[i].1) <= place_of(ranked(scores)[0].1),
{
    law_ranked_descends(scores);
    law_ranked_keeps(scores);
    assert(scores.to_multiset().count(scores[i]) > 0) by {
        scores.to_multiset_ensures();
        assert(scores.contains(scores[i]));
    }
    ranked(scores).to_multiset_ensures();
    assert(ranked(scores).contains(scores[i]));
    let j = choose|j: int| 0 <= j < ranked(scores).len() && ranked(scores)[j] == scores[i];
    assert(place_of(ranked(scores)[0].1) >= place_of(ranked(scores)[j].1));
}

/// What is kept are the highest scores: no candidate that is left out has a higher one
/// than a candidate that is kept, and as many are kept as are asked for, at least one
/// and at most all.
pub proof fn law_kept_are_highest(scores: Seq<(u32, u32)>, top_k: nat, i: int, j: int)
    requires
        0 <= i < kept(scores.len(), top_k) <= j < scores.len(),
        is_number(ranked(scores)[i].1),
        is_number(ranked(scores)[j].1),
    ensures
        number_of(ranked(scores)[i].1) >= number_of(ranked(scores)[j].1),
{
    law_ranked_descends(scores);
    let a = ranked(scores)[i].1;
    let b = ranked(scores)[j].1;
    if number_of(a) < number_of(b) {
        law_order_is_that_of_numbers(a, b);
    }
}

/// How many candidates are kept.
pub proof fn law_kept_count(n: nat, top_k: nat)
    ensures
        kept(n, top_k) <= n,
        top_k >= n ==> kept(n, top_k) == n,
        1 <= top_k <= n ==> kept(n, top_k) == top_k,
        top_k == 0 && n >= 1 ==> kept(n, top_k) == 1,
{
}

/// A candidate is ranked behind all that came before it with the same score or a higher
/// one, and before all with a lower one.
pub proof fn law_ties_keep_order(s: Seq<(u32, u32)>, x: (u32, u32))
    ensures
        exists|r: int|
            {
                &&& 0 <= r <= s.len()
                &&& ranked(s.push(x)) == #[trigger] ranked(s).insert(r, x)
                &&& forall|i: int| 0 <= i < r ==> place_of((#[trigger] ranked(s)[i]).1) >= place_of(x.1)
                &&& forall|i: int|
                    r <= i < s.len() ==> place_of((#[trigger] ranked(s)[i]).1) < place_of(x.1)
            },
{
    law_ranked_descends(s);
    assert(s.push(x).drop_last() =~= s);
    let r = rank_in(ranked(s), x, ranked(s).len());
    lemma_rank_splits(ranked(s), x, ranked(s).len());
    assert(ranked(s.push(x)) == ranked(s).insert(r, x));
}

proof fn lemma_rank_splits(s: Seq<(u32, u32)>, x: (u32, u32), n: nat)
    requires
        n <= s.len(),
        descending(s),
    ensures
        0 <= rank_in(s, x, n) <= n,
        forall|i: int|
            0 <= i < rank_in(s, x, n) ==> place_of((#[trigger] s[i]).1) >= place_of(x.1),
        forall|i: int|
            rank_in(s, x, n) <= i < n ==> place_of((#[trigger] s[i]).1) < place_of(x.1),
    decreases n,
{
    if n > 0 && place_of(s[n - 1].1) < place_of(x.1) {
        lemma_rank_splits(s, x, (n - 1) as nat);
    }
}

/// A step of the random state can be undone, with the shifts that made it.
pub proof fn law_random_can_be_undone(x: u64)
    ensures
        ({
            let r = shifted(x);
            let b = r ^ (r << 17u64) ^ (r << 34u64) ^ (r << 51u64);
            let a = b ^ (b >> 7u64) ^ (b >> 14u64) ^ (b >> 21u64) ^ (b >> 28u64) ^ (b >> 35u64) ^ (b
                >> 42u64) ^ (b >> 49u64) ^ (b >> 56u64) ^ (b >> 63u64);
            (a ^ (a << 13u64) ^ (a << 26u64) ^ (a << 39u64) ^ (a << 52u64)) == x
        }),
{
    let a0 = x ^ (x << 13u64);
    let b0 = a0 ^ (a0 >> 7u64);
    let r = b0 ^ (b0 << 17u64);
    assert((r ^ (r << 17u64) ^ (r << 34u64) ^ (r << 51u64)) == b0) by (bit_vector)
        requires
            r == b0 ^ (b0 << 17u64),
    ;
    assert((b0 ^ (b0 >> 7u64) ^ (b0 >> 14u64) ^ (b0 >> 21u64) ^ (b0 >> 28u64) ^ (b0 >> 35u64) ^ (b0
        >> 42u64) ^ (b0 >> 49u64) ^ (b0 >> 56u64) ^ (b0 >> 63u64)) == a0) by (bit_vector)
        requires
            b0 == a0 ^ (a0 >> 7u64),
    ;
    assert((a0 ^ (a0 << 13u64) ^ (a0 << 26u64) ^ (a0 << 39u64) ^ (a0 << 52u64)) == x)
        by (bit_vector)
        requires
            a0 == x ^ (x << 13u64),
    ;
}

} // verus!
