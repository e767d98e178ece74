//! Texts split at the tokens that stand for themselves.
use crate::text::{chars_of, found_at, has_prefix, same_text, skip_chars, stands_at};
use vstd::prelude::*;

verus! {

/// Whether a text ends with `tail`.
pub open spec fn has_suffix(s: Seq<char>, tail: Seq<char>) -> bool {
    s.len() >= tail.len() && s.skip(s.len() - tail.len()) == tail
}

/// Whether a token is written between `<|` and `|>`.
pub open spec fn is_marked(t: Seq<char>) -> bool {
    has_prefix(t, "<|"@) && has_suffix(t, "|>"@)
}

/// Whether a token stands for itself: one between `<|` and `|>`, and the two
/// that enclose a thought.
pub open spec fn is_special(t: Seq<char>) -> bool {
    is_marked(t) || t == "<think>"@ || t == "</think>"@
}

/// Whether a token is written between `<|` and `|>`.
pub fn marked(t: &[char]) -> (r: bool)
    ensures
        r == is_marked(t@),
{
    proof {
        reveal_strlit("<|");
        reveal_strlit("|>");
        assert("<|"@.len() == 2 && "|>"@.len() == 2);
    }
    let n: usize = t.len();
    if n < 2 {
        return false;
    }
    let front: bool = t[0] == '<' && t[1] == '|';
    let back: bool = t[n - 2] == '|' && t[n - 1] == '>';
    proof {
        assert(front == has_prefix(t@, "<|"@)) by {
            if front {
                assert(t@.take(2) =~= "<|"@);
            } else if has_prefix(t@, "<|"@) {
                assert(t@.take(2)[0] == t@[0] && t@.take(2)[1] == t@[1]);
            }
        }
        assert(back == has_suffix(t@, "|>"@)) by {
            let tail = t@.skip(n - 2);
            if back {
                assert(tail =~= "|>"@);
            } else if has_suffix(t@, "|>"@) {
                assert(tail[0] == t@[n - 2] && tail[1] == t@[n - 1]);
            }
        }
    }
    front && back
}

/// Whether a token stands for itself.
pub fn special(t: &str) -> (r: bool)
    ensures
        r == is_special(t@),
{
    let chars: Vec<char> = chars_of(t);
    marked(&chars) || same_text(t, "<think>") || same_text(t, "</think>")
}

/// Tokens as sequences of characters.
pub open spec fn token_views(tokens: Seq<String>) -> Seq<Seq<char>> {
    tokens.map_values(|t: String| t@)
}

/// The length of the longest of the first `n` tokens that stands for itself
/// and stands in the text at place `i`; zero where none does.
pub open spec fn hit_len(text: Seq<char>, tokens: Seq<Seq<char>>, i: int, n: nat) -> nat
    decreases n,
{
    if n == 0 {
        0
    } else {
        let before = hit_len(text, tokens, i, (n - 1) as nat);
        let t = tokens[n - 1];
        if is_special(t) && stands_at(text, t, i) && t.len() > before {
            t.len()
        } else {
            before
        }
    }
}

/// The length of the longest token that stands for itself at place `i`.
pub open spec fn hit(text: Seq<char>, tokens: Seq<Seq<char>>, i: int) -> nat {
    hit_len(text, tokens, i, tokens.len())
}

/// The first place from `i` on where a token that stands for itself stands, or
/// the end.
pub open spec fn next_hit(text: Seq<char>, tokens: Seq<Seq<char>>, i: int) -> int
    decreases text.len() - i,
{
    if i >= text.len() || hit(text, tokens, i) > 0 {
        i
    } else {
        next_hit(text, tokens, i + 1)
    }
}

/// Where the piece that begins at place `i` ends: behind the longest token that
/// stands for itself there, or before the next one.
pub open spec fn piece_end(text: Seq<char>, tokens: Seq<Seq<char>>, i: int) -> int {
    if hit(text, tokens, i) > 0 {
        i + hit(text, tokens, i)
    } else {
        next_hit(text, tokens, i + 1)
    }
}

/// The pieces of a text from place `i` on.
pub open spec fn pieces(text: Seq<char>, tokens: Seq<Seq<char>>, i: int) -> Seq<Seq<char>>
    decreases text.len() - i,
{
    if i < 0 || i >= text.len() || piece_end(text, tokens, i) <= i || piece_end(text, tokens, i)
        > text.len() {
        Seq::empty()
    } else {
        seq![text.subrange(i, piece_end(text, tokens, i))] + pieces(
            text,
            tokens,
            piece_end(text, tokens, i),
        )
    }
}

/// A token that is found lies in the text.
proof fn lemma_hit_in(text: Seq<char>, tokens: Seq<Seq<char>>, i: int, n: nat)
    requires
        0 <= i <= text.len(),
        n <= tokens.len(),
    ensures
        i + hit_len(text, tokens, i, n) <= text.len(),
    decreases n,
{
    if n > 0 {
        lemma_hit_in(text, tokens, i, (n - 1) as nat);
    }
}

/// The next token lies from here to the end.
proof fn lemma_next_in(text: Seq<char>, tokens: Seq<Seq<char>>, i: int)
    requires
        0 <= i <= text.len(),
    ensures
        i <= next_hit(text, tokens, i) <= text.len(),
    decreases text.len() - i,
{
    if i < text.len() && hit(text, tokens, i) == 0 {
        lemma_next_in(text, tokens, i + 1);
    }
}

/// Every piece is made of at least one character, and ends in the text.
pub proof fn law_pieces_advance(text: Seq<char>, tokens: Seq<Seq<char>>, i: int)
    requires
        0 <= i < text.len(),
    ensures
        i < piece_end(text, tokens, i) <= text.len(),
{
    lemma_hit_in(text, tokens, i, tokens.len());
    lemma_next_in(text, tokens, i + 1);
}

/// Pieces, one after the other.
pub open spec fn glued(parts: Seq<Seq<char>>) -> Seq<char>
    decreases parts.len(),
{
    if parts.len() == 0 {
        Seq::empty()
    } else {
        glued(parts.drop_last()) + parts.last()
    }
}

/// Pieces before other pieces.
pub proof fn lemma_glued_joins(a: Seq<Seq<char>>, b: Seq<Seq<char>>)
    ensures
        glued(a + b) == glued(a) + glued(b),
    decreases b.len(),
{
    if b.len() == 0 {
        assert(a + b =~= a);
        assert(glued(a) + glued(b) =~= glued(a));
    } else {
        lemma_glued_joins(a, b.drop_last());
        assert((a + b).drop_last() =~= a + b.drop_last());
        assert(glued(a) + glued(b.drop_last()) + b.last() =~= glued(a) + (glued(b.drop_last())
            + b.last()));
    }
}

/// The pieces of a text make up the text: nothing is lost and nothing is
/// added.
pub proof fn law_pieces_make_text(text: Seq<char>, tokens: Seq<Seq<char>>, i: int)
    requires
        0 <= i <= text.len(),
    ensures
        glued(pieces(text, tokens, i)) == text.skip(i),
    decreases text.len() - i,
{
    if i == text.len() {
        assert(text.skip(i) =~= Seq::<char>::empty());
    } else {
        law_pieces_advance(text, tokens, i);
        let e = piece_end(text, tokens, i);
        law_pieces_make_text(text, tokens, e);
        let first = seq![text.subrange(i, e)];
        lemma_glued_joins(first, pieces(text, tokens, e));
        assert(first.drop_last() =~= Seq::<Seq<char>>::empty());
        assert(glued(first) =~= text.subrange(i, e)) by {
            assert(glued(first.drop_last()) =~= Seq::<char>::empty());
        }
        assert(text.subrange(i, e) + text.skip(e) =~= text.skip(i));
    }
}

/// The tokens that stand for themselves.
fn specials_of(tokens: &Vec<String>) -> (r: Vec<Vec<char>>)
    ensures
        forall|k: int| 0 <= k < r@.len() ==> is_special((#[trigger] r@[k])@),
        forall|k: int|
            0 <= k < r@.len() ==> token_views(tokens@).contains((#[trigger] r@[k])@),
        forall|k: int|
            0 <= k < tokens@.len() && is_special((#[trigger] tokens@[k])@) ==> exists|j: int|
                0 <= j < r@.len() && (#[trigger] r@[j])@ == tokens@[k]@,
{
    let mut out: Vec<Vec<char>> = Vec::new();
    let mut i: usize = 0;
    while i < tokens.len()
        invariant
            i <= tokens@.len(),
            forall|k: int| 0 <= k < out@.len() ==> is_special((#[trigger] out@[k])@),
            forall|k: int|
                0 <= k < out@.len() ==> token_views(tokens@).contains((#[trigger] out@[k])@),
            forall|k: int|
                0 <= k < i && is_special((#[trigger] tokens@[k])@) ==> exists|j: int|
                    0 <= j < out@.len() && (#[trigger] out@[j])@ == tokens@[k]@,
        decreases tokens@.len() - i,
    {
        let t: &str = tokens[i].as_str();
        if special(t) {
            let chars: Vec<char> = chars_of(t);
            let ghost before: Seq<Vec<char>> = out@;
            out.push(chars);
            proof {
                assert(token_views(tokens@)[i as int] == chars@);
                assert(out@[before.len() as int]@ == tokens@[i as int]@);
                assert forall|k: int|
                    0 <= k < i + 1 && is_special((#[trigger] tokens@[k])@) implies exists|j: int|
                    0 <= j < out@.len() && (#[trigger] out@[j])@ == tokens@[k]@ by {
                    if k < i {
                        let j = choose|j: int|
                            0 <= j < before.len() && (#[trigger] before[j])@ == tokens@[k]@;
                        assert(out@[j]@ == tokens@[k]@);
                    }
                }
            }
        }
        i = i + 1;
    }
    out
}

/// What is found at place `i` is one of the tokens, and none is longer.
proof fn lemma_hit_is_longest(text: Seq<char>, tokens: Seq<Seq<char>>, i: int, n: nat)
    requires
        n <= tokens.len(),
    ensures
        forall|k: int|
            0 <= k < n && is_special(#[trigger] tokens[k]) && stands_at(text, tokens[k], i)
                ==> tokens[k].len() <= hit_len(text, tokens, i, n),
        hit_len(text, tokens, i, n) > 0 ==> exists|k: int|
            0 <= k < n && is_special(#[trigger] tokens[k]) && stands_at(text, tokens[k], i)
                && tokens[k].len() == hit_len(text, tokens, i, n),
    decreases n,
{
    if n > 0 {
        lemma_hit_is_longest(text, tokens, i, (n - 1) as nat);
        let t = tokens[n - 1];
        if is_special(t) && stands_at(text, t, i) {
            assert(tokens[n - 1] == t);
        }
    }
}

/// The length of the longest token that stands for itself at place `i`.
fn longest_at(
    text: &Vec<char>,
    specials: &Vec<Vec<char>>,
    i: usize,
    tokens: &Vec<String>,
) -> (r: usize)
    requires
        forall|k: int| 0 <= k < specials@.len() ==> is_special((#[trigger] specials@[k])@),
        forall|k: int|
            0 <= k < specials@.len() ==> token_views(tokens@).contains((#[trigger] specials@[k])@),
        forall|k: int|
            0 <= k < tokens@.len() && is_special((#[trigger] tokens@[k])@) ==> exists|j: int|
                0 <= j < specials@.len() && (#[trigger] specials@[j])@ == tokens@[k]@,
    ensures
        r == hit(text@, token_views(tokens@), i as int),
{
    let mut best: usize = 0;
    let mut k: usize = 0;
    while k < specials.len()
        invariant
            k <= specials@.len(),
            forall|j: int|
                0 <= j < k && stands_at(text@, (#[trigger] specials@[j])@, i as int)
                    ==> specials@[j]@.len() <= best,
            best > 0 ==> exists|j: int|
                0 <= j < k && stands_at(text@, (#[trigger] specials@[j])@, i as int)
                    && specials@[j]@.len() == best,
        decreases specials@.len() - k,
    {
        let ghost old_best: usize = best;
        if specials[k].len() > best && found_at(text, &specials[k], i) {
            best = specials[k].len();
        }
        proof {
            if best > 0 && best == old_best {
                let j = choose|j: int|
                    0 <= j < k && stands_at(text@, (#[trigger] specials@[j])@, i as int)
                        && specials@[j]@.len() == old_best;
                assert(stands_at(text@, specials@[j]@, i as int));
            } else if best > 0 {
                assert(stands_at(text@, specials@[k as int]@, i as int));
            }
        }
        k = k + 1;
    }
    proof {
        let all = token_views(tokens@);
        lemma_hit_is_longest(text@, all, i as int, all.len());
        let h = hit(text@, all, i as int);
        if best > 0 {
            let j = choose|j: int|
                0 <= j < specials@.len() && stands_at(
                    text@,
                    (#[trigger] specials@[j])@,
                    i as int,
                ) && specials@[j]@.len() == best;
            assert(all.contains(specials@[j]@));
            let m = choose|m: int| 0 <= m < all.len() && all[m] == specials@[j]@;
            assert(is_special(all[m]) && stands_at(text@, all[m], i as int));
            assert(best <= h);
        }
        if h > 0 {
            let m = choose|m: int|
                0 <= m < all.len() && is_special(#[trigger] all[m]) && stands_at(
                    text@,
                    all[m],
                    i as int,
                ) && all[m].len() == h;
            assert(tokens@[m]@ == all[m]);
            let j = choose|j: int|
                0 <= j < specials@.len() && (#[trigger] specials@[j])@ == tokens@[m]@;
            assert(stands_at(text@, specials@[j]@, i as int));
            assert(h <= best);
        }
    }
    best
}

/// Splits a text at the tokens that stand for themselves: at each place the
/// longest one counts.
pub fn split_special(text: &str, tokens: &Vec<String>) -> (r: Vec<Vec<char>>)
    ensures
        crate::text::char_rows(r@) == pieces(text@, token_views(tokens@), 0),
{
    let chars: Vec<char> = chars_of(text);
    let specials: Vec<Vec<char>> = specials_of(tokens);
    let ghost all: Seq<Seq<char>> = token_views(tokens@);
    let n: usize = chars.len();
    let mut out: Vec<Vec<char>> = Vec::new();
    let mut i: usize = 0;
    proof {
        assert(crate::text::char_rows(out@) + pieces(chars@, all, 0) =~= pieces(chars@, all, 0));
    }
    while i < n
        invariant
            i <= n,
            n == chars@.len(),
            all == token_views(tokens@),
            forall|k: int| 0 <= k < specials@.len() ==> is_special((#[trigger] specials@[k])@),
            forall|k: int|
                0 <= k < specials@.len() ==> token_views(tokens@).contains(
                    (#[trigger] specials@[k])@,
                ),
            forall|k: int|
                0 <= k < tokens@.len() && is_special((#[trigger] tokens@[k])@) ==> exists|j: int|
                    0 <= j < specials@.len() && (#[trigger] specials@[j])@ == tokens@[k]@,
            crate::text::char_rows(out@) + pieces(chars@, all, i as int) == pieces(chars@, all, 0),
        decreases n - i,
    {
        proof {
            law_pieces_advance(chars@, all, i as int);
        }
        let start: usize = i;
        let h: usize = longest_at(&chars, &specials, i, tokens);
        let mut end: usize = i;
        if h > 0 {
            end = i + h;
        } else {
            end = i + 1;
            while end < n && longest_at(&chars, &specials, end, tokens) == 0
                invariant
                    start < end <= n,
                    n == chars@.len(),
                    all == token_views(tokens@),
                    forall|k: int|
                        0 <= k < specials@.len() ==> is_special((#[trigger] specials@[k])@),
                    forall|k: int|
                        0 <= k < specials@.len() ==> token_views(tokens@).contains(
                            (#[trigger] specials@[k])@,
                        ),
                    forall|k: int|
                        0 <= k < tokens@.len() && is_special((#[trigger] tokens@[k])@)
                            ==> exists|j: int|
                            0 <= j < specials@.len() && (#[trigger] specials@[j])@ == tokens@[k]@,
                    next_hit(chars@, all, start + 1) == next_hit(chars@, all, end as int),
                decreases n - end,
            {
                end = end + 1;
            }
        }
        let ghost before: Seq<Vec<char>> = out@;
        let piece: Vec<char> = vstd::slice::slice_to_vec(
            vstd::slice::slice_subrange(chars.as_slice(), start, end),
        );
        out.push(piece);
        proof {
            assert(end == piece_end(chars@, all, start as int));
            assert(piece@ =~= chars@.subrange(start as int, end as int));
            assert(crate::text::char_rows(out@) =~= crate::text::char_rows(before).push(piece@));
            assert(crate::text::char_rows(out@) + pieces(chars@, all, end as int)
                =~= crate::text::char_rows(before) + pieces(chars@, all, start as int));
        }
        i = end;
    }
    proof {
        assert(pieces(chars@, all, n as int) =~= Seq::<Seq<char>>::empty());
        assert(crate::text::char_rows(out@) =~= pieces(chars@, all, 0));
    }
    out
}

/// Whether a text begins with `head`.
pub fn starts_with(v: &[char], head: &str) -> (r: bool)
    ensures
        r == has_prefix(v@, head@),
{
    skip_chars(v, head).is_some()
}

/// A marked token begins with an angle bracket and a bar and ends with a bar and an
/// angle bracket; the think tokens are special too, and nothing else is.
pub proof fn law_special_tokens(t: Seq<char>)
    ensures
        is_marked(t) <==> t.len() >= 2 && t[0] == '<' && t[1] == '|' && t[t.len() - 2] == '|'
            && t[t.len() - 1] == '>',
        is_special(t) <==> is_marked(t) || t == "<think>"@ || t == "</think>"@,
{
    reveal_strlit("<|");
    reveal_strlit("|>");
    if t.len() >= 2 {
        assert(t.take(2)[0] == t[0] && t.take(2)[1] == t[1]);
        let tail = t.skip(t.len() - 2);
        assert(tail[0] == t[t.len() - 2] && tail[1] == t[t.len() - 1]);
        if t[0] == '<' && t[1] == '|' {
            assert(t.take(2) =~= "<|"@);
        }
        if t[t.len() - 2] == '|' && t[t.len() - 1] == '>' {
            assert(tail =~= "|>"@);
        }
    }
}

/// Of the special tokens that stand at a place the longest is found, and one is found
/// wherever one that is not empty stands.
pub proof fn law_longest_hit(text: Seq<char>, tokens: Seq<Seq<char>>, i: int)
    ensures
        forall|k: int|
            0 <= k < tokens.len() && is_special(#[trigger] tokens[k]) && stands_at(
                text,
                tokens[k],
                i,
            ) ==> tokens[k].len() <= hit(text, tokens, i),
        hit(text, tokens, i) > 0 ==> exists|k: int|
            0 <= k < tokens.len() && is_special(#[trigger] tokens[k]) && stands_at(
                text,
                tokens[k],
                i,
            ) && tokens[k].len() == hit(text, tokens, i),
{
    lemma_longest_hit(text, tokens, i, tokens.len());
}

proof fn lemma_longest_hit(text: Seq<char>, tokens: Seq<Seq<char>>, i: int, n: nat)
    requires
        n <= tokens.len(),
    ensures
        forall|k: int|
            0 <= k < n && is_special(#[trigger] tokens[k]) && stands_at(text, tokens[k], i)
                ==> tokens[k].len() <= hit_len(text, tokens, i, n),
        hit_len(text, tokens, i, n) > 0 ==> exists|k: int|
            0 <= k < n && is_special(#[trigger] tokens[k]) && stands_at(text, tokens[k], i)
                && tokens[k].len() == hit_len(text, tokens, i, n),
    decreases n,
{
    if n > 0 {
        lemma_longest_hit(text, tokens, i, (n - 1) as nat);
        let t = tokens[n - 1];
    }
}

/// A piece is either a special token or a run of text up to the next one: no special
/// token begins inside it, and one begins behind it where the text goes on.
pub proof fn law_piece_is_token_or_text(text: Seq<char>, tokens: Seq<Seq<char>>, i: int)
    requires
        0 <= i < text.len(),
    ensures
        pieces(text, tokens, i).len() > 0,
        hit(text, tokens, i) > 0 ==> pieces(text, tokens, i)[0] == text.subrange(
            i,
            i + hit(text, tokens, i),
        ),
        hit(text, tokens, i) == 0 ==> {
            let end = i + pieces(text, tokens, i)[0].len();
            &&& i < end <= text.len()
            &&& pieces(text, tokens, i)[0] == text.subrange(i, end)
            &&& forall|j: int| i <= j < end ==> #[trigger] hit(text, tokens, j) == 0
            &&& end < text.len() ==> hit(text, tokens, end) > 0
        },
{
    law_pieces_advance(text, tokens, i);
    let end = piece_end(text, tokens, i);
    assert(pieces(text, tokens, i)[0] == text.subrange(i, end));
    if hit(text, tokens, i) == 0 {
        lemma_next_hit(text, tokens, i + 1);
    }
}

proof fn lemma_next_hit(text: Seq<char>, tokens: Seq<Seq<char>>, i: int)
    requires
        0 <= i <= text.len(),
    ensures
        i <= next_hit(text, tokens, i) <= text.len(),
        forall|j: int| i <= j < next_hit(text, tokens, i) ==> #[trigger] hit(text, tokens, j) == 0,
        next_hit(text, tokens, i) < text.len() ==> hit(text, tokens, next_hit(text, tokens, i)) > 0,
    decreases text.len() - i,
{
    if i < text.len() && hit(text, tokens, i) == 0 {
        lemma_next_hit(text, tokens, i + 1);
    }
}

} // verus!
