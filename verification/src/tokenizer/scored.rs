//! Splitting a text by the scores of its pieces: which pieces there are, and
//! which numbers the best way through them gives.
use crate::text::string_of;
use crate::tokenizer::codec::SPACE_MARK;
use crate::tokenizer::Tokenizer;
use vstd::prelude::*;
use vstd::utf8::{
    decode_utf8, encode_utf8, encode_utf8_decode_utf8, encode_utf8_valid_utf8, is_char_boundary,
};

verus! {

/// A text with marks for its spaces, and a mark before it.
pub open spec fn normalized(text: Seq<char>) -> Seq<char> {
    seq![SPACE_MARK] + text.map_values(
        |c: char|
            if c == ' ' {
                SPACE_MARK
            } else {
                c
            },
    )
}

/// A text with marks for its spaces, and a mark before it.
pub fn normalize(text: &str) -> (r: String)
    ensures
        r@ == normalized(text@),
{
    let chars: Vec<char> = crate::text::chars_of(text);
    let mut out: Vec<char> = vec![SPACE_MARK];
    let mut i: usize = 0;
    while i < chars.len()
        invariant
            i <= chars@.len(),
            out@.len() == i + 1,
            out@[0] == SPACE_MARK,
            forall|k: int|
                0 <= k < i ==> #[trigger] out@[k + 1] == (if chars@[k] == ' ' {
                    SPACE_MARK
                } else {
                    chars@[k]
                }),
        decreases chars@.len() - i,
    {
        let c: char = chars[i];
        out.push(
            if c == ' ' {
                SPACE_MARK
            } else {
                c
            },
        );
        i = i + 1;
    }
    proof {
        let want = normalized(text@);
        assert forall|k: int| 0 <= k < out@.len() implies out@[k] == want[k] by {
            if k > 0 {
                assert(out@[(k - 1) + 1] == want[k]);
            }
        }
        assert(out@ =~= want);
    }
    string_of(&out)
}

/// The tokens that stand in a text from byte `start` on and end at byte `upto`
/// at the latest: where each ends, and its number.
pub open spec fn candidates(
    bytes: Seq<u8>,
    ids: Map<Seq<char>, u32>,
    start: int,
    upto: int,
) -> Seq<(usize, u32)>
    decreases upto - start,
{
    if upto <= start {
        Seq::empty()
    } else {
        let before = candidates(bytes, ids, start, upto - 1);
        let piece = decode_utf8(bytes.subrange(start, upto));
        if is_char_boundary(bytes, upto) && ids.contains_key(piece) {
            before.push((upto as usize, ids[piece]))
        } else {
            before
        }
    }
}

/// The next byte behind `i` at which a character begins or the text ends.
pub open spec fn next_start(bytes: Seq<u8>, i: int) -> int
    decreases bytes.len() - i,
{
    if i + 1 >= bytes.len() || is_char_boundary(bytes, i + 1) {
        i + 1
    } else {
        next_start(bytes, i + 1)
    }
}

/// The characters of a text from byte `start` to byte `end`.
fn between<'a>(text: &'a str, start: usize, end: usize) -> (r: &'a str)
    requires
        start <= end <= encode_utf8(text@).len(),
        is_char_boundary(encode_utf8(text@), start as int),
        is_char_boundary(encode_utf8(text@), end as int),
    ensures
        r@ == decode_utf8(encode_utf8(text@).subrange(start as int, end as int)),
{
    let (front, _) = text.split_at(end);
    proof {
        encode_utf8_valid_utf8(text@);
        encode_utf8_valid_utf8(front@);
        encode_utf8_decode_utf8(front@);
        lemma_boundary_in_front(encode_utf8(text@), encode_utf8(front@), start as int, end as int);
    }
    let (_, piece) = front.split_at(start);
    proof {
        encode_utf8_decode_utf8(piece@);
        assert(encode_utf8(piece@) =~= encode_utf8(text@).subrange(start as int, end as int));
    }
    piece
}

/// A place where a character begins in a text is one in what lies before a
/// later such place.
proof fn lemma_boundary_in_front(all: Seq<u8>, front: Seq<u8>, start: int, end: int)
    requires
        vstd::utf8::valid_utf8(all),
        vstd::utf8::valid_utf8(front),
        front == all.subrange(0, end),
        0 <= start <= end <= all.len(),
        is_char_boundary(all, start),
    ensures
        is_char_boundary(front, start),
{
    if start < end {
        vstd::utf8::is_char_boundary_iff_not_is_continuation_byte(all, start);
        vstd::utf8::is_char_boundary_iff_not_is_continuation_byte(front, start);
    } else {
        vstd::utf8::is_char_boundary_start_end_of_seq(front);
    }
}

impl Tokenizer {
    /// The tokens that stand in a text from byte `start` on: no longer ones than
    /// the longest token.
    pub open spec fn candidates_of(self, text: Seq<char>, start: int) -> Seq<(usize, u32)> {
        let n = encode_utf8(text).len();
        candidates(
            encode_utf8(text),
            self.token_to_id@,
            start,
            if start + self.max_piece_bytes < n {
                start + self.max_piece_bytes
            } else {
                n as int
            },
        )
    }

    /// The tokens that stand in a text from byte `start` on.
    pub fn pieces_at(&self, text: &str, start: usize) -> (r: Vec<(usize, u32)>)
        requires
            start <= encode_utf8(text@).len(),
            is_char_boundary(encode_utf8(text@), start as int),
        ensures
            r@ == self.candidates_of(text@, start as int),
    {
        let bytes: &[u8] = text.as_bytes();
        let n: usize = bytes.len();
        let limit: usize = if self.max_piece_bytes < n - start {
            start + self.max_piece_bytes
        } else {
            n
        };
        let mut out: Vec<(usize, u32)> = Vec::new();
        let mut end: usize = start;
        while end < limit
            invariant
                start <= end <= limit,
                limit <= n,
                n == encode_utf8(text@).len(),
                bytes@ == encode_utf8(text@),
                is_char_boundary(encode_utf8(text@), start as int),
                out@ == candidates(bytes@, self.token_to_id@, start as int, end as int),
            decreases limit - end,
        {
            end = end + 1;
            if text.is_char_boundary(end) {
                match self.token_to_id.get(between(text, start, end)) {
                    Some(id) => {
                        out.push((end, *id));
                    },
                    None => {},
                }
            }
        }
        out
    }
}

/// The next byte behind `i` at which a character begins or the text ends.
pub fn next_char(text: &str, i: usize) -> (r: usize)
    requires
        i < encode_utf8(text@).len(),
    ensures
        r == next_start(encode_utf8(text@), i as int),
        i < r <= encode_utf8(text@).len(),
{
    let bytes: &[u8] = text.as_bytes();
    let n: usize = bytes.len();
    let mut k: usize = i + 1;
    while k < n && !text.is_char_boundary(k)
        invariant
            i < k <= n,
            n == encode_utf8(text@).len(),
            next_start(encode_utf8(text@), i as int) == next_start(encode_utf8(text@), k - 1),
        decreases n - k,
    {
        k = k + 1;
    }
    k
}

/// The numbers on the way to place `at`, where `steps` says for each place from
/// where and with which number it is reached.
pub open spec fn way_to(steps: Seq<Option<(usize, u32)>>, at: int) -> Option<Seq<u32>>
    decreases at,
{
    if at <= 0 {
        Some(Seq::empty())
    } else {
        match steps[at] {
            None => None,
            Some(step) => if step.0 < at {
                match way_to(steps, step.0 as int) {
                    None => None,
                    Some(before) => Some(before.push(step.1)),
                }
            } else {
                None
            },
        }
    }
}

impl Tokenizer {
    /// The numbers of the best way through a text, or the number of an unknown
    /// piece where there is no way.
    pub fn read_back(&self, steps: &Vec<Option<(usize, u32)>>) -> (r: Vec<u32>)
        requires
            steps@.len() > 0,
            forall|k: int|
                0 <= k < steps@.len() ==> ((#[trigger] steps@[k]) matches Some(s) ==> s.0 < k),
        ensures
            r@ == (match way_to(steps@, steps@.len() - 1) {
                Some(ids) => ids,
                None => seq![self.unk_id],
            }),
    {
        let n: usize = steps.len() - 1;
        let mut back: Vec<u32> = Vec::new();
        let mut at: usize = n;
        while at > 0
            invariant
                at <= n,
                n == steps@.len() - 1,
                forall|k: int|
                    0 <= k < steps@.len() ==> ((#[trigger] steps@[k]) matches Some(s) ==> s.0 < k),
                way_to(steps@, n as int) == (match way_to(steps@, at as int) {
                    Some(front) => Some(front + back@.reverse()),
                    None => None,
                }),
            decreases at,
        {
            match steps[at] {
                None => {
                    return vec![self.unk_id];
                },
                Some(step) => {
                    let ghost held: Seq<u32> = back@;
                    back.push(step.1);
                    proof {
                        assert(steps@[at as int] == Some(step));
                        match way_to(steps@, step.0 as int) {
                            Some(front) => {
                                assert(front.push(step.1) + held.reverse() =~= front
                                    + back@.reverse());
                            },
                            None => {},
                        }
                    }
                    at = step.0;
                },
            }
        }
        let out: Vec<u32> = reversed(&back);
        proof {
            assert(Seq::<u32>::empty() + back@.reverse() =~= back@.reverse());
        }
        out
    }
}

/// Numbers in the other order.
fn reversed(v: &Vec<u32>) -> (r: Vec<u32>)
    ensures
        r@ == v@.reverse(),
{
    let mut out: Vec<u32> = Vec::new();
    let mut i: usize = v.len();
    while i > 0
        invariant
            i <= v@.len(),
            out@.len() == v@.len() - i,
            forall|k: int| 0 <= k < out@.len() ==> out@[k] == v@[v@.len() - 1 - k],
        decreases i,
    {
        i = i - 1;
        out.push(v[i]);
    }
    proof {
        assert(out@ =~= v@.reverse());
    }
    out
}

/// A text is prepared by a mark before it and a mark in the place of each space; every
/// other character stays.
pub proof fn law_normalized(text: Seq<char>, i: int)
    ensures
        normalized(text).len() == text.len() + 1,
        normalized(text)[0] == '\u{2581}',
        0 <= i < text.len() ==> normalized(text)[i + 1] == (if text[i] == ' ' {
            '\u{2581}'
        } else {
            text[i]
        }),
{
}

/// The tokens that begin at a place: one for each end, up to the bound, that is the end
/// of a character and of a text that is a token; the shorter ones come first.
pub proof fn law_candidates(
    bytes: Seq<u8>,
    ids: Map<Seq<char>, u32>,
    start: int,
    upto: int,
    end: int,
)
    requires
        0 <= start,
        upto <= usize::MAX,
        start < end <= upto,
    ensures
        is_char_boundary(bytes, end) && ids.contains_key(decode_utf8(bytes.subrange(start, end)))
            ==> candidates(bytes, ids, start, upto).contains(
            (end as usize, ids[decode_utf8(bytes.subrange(start, end))]),
        ),
        !(is_char_boundary(bytes, end) && ids.contains_key(
            decode_utf8(bytes.subrange(start, end)),
        )) ==> forall|k: int|
            0 <= k < candidates(bytes, ids, start, upto).len() ==> (#[trigger] candidates(
                bytes,
                ids,
                start,
                upto,
            )[k]).0 != end,
        forall|k: int|
            0 <= k < candidates(bytes, ids, start, upto).len() ==> start < (#[trigger] candidates(
                bytes,
                ids,
                start,
                upto,
            )[k]).0 <= upto,
    decreases upto - start,
{
    let before = candidates(bytes, ids, start, upto - 1);
    let all = candidates(bytes, ids, start, upto);
    let piece = decode_utf8(bytes.subrange(start, upto));
    lemma_candidate_ends(bytes, ids, start, upto);
    lemma_candidate_ends(bytes, ids, start, upto - 1);
    if end < upto {
        law_candidates(bytes, ids, start, upto - 1, end);
        let c = (end as usize, ids[decode_utf8(bytes.subrange(start, end))]);
        if before.contains(c) {
            let k = choose|k: int| 0 <= k < before.len() && before[k] == c;
            assert(all[k] == c);
        }
    } else if is_char_boundary(bytes, upto) && ids.contains_key(piece) {
        assert(all[all.len() - 1] == (upto as usize, ids[piece]));
    }
}

proof fn lemma_candidate_ends(
    bytes: Seq<u8>,
    ids: Map<Seq<char>, u32>,
    start: int,
    upto: int,
)
    requires
        0 <= start,
        upto <= usize::MAX,
    ensures
        forall|k: int|
            0 <= k < candidates(bytes, ids, start, upto).len() ==> start < (#[trigger] candidates(
                bytes,
                ids,
                start,
                upto,
            )[k]).0 <= upto,
    decreases upto - start,
{
    if upto > start {
        lemma_candidate_ends(bytes, ids, start, upto - 1);
        let before = candidates(bytes, ids, start, upto - 1);
        let all = candidates(bytes, ids, start, upto);
        assert forall|k: int| 0 <= k < all.len() implies start < (#[trigger] all[k]).0 <= upto by {
            if k < before.len() {
                assert(all[k] == before[k]);
            }
        }
    }
}

} // verus!
