//! Merging the characters of a text to tokens, pair by pair.
use crate::text::{char_rows, string_of};
use crate::tokenizer::special::{glued, lemma_glued_joins};
use vstd::hash_map::StringHashMap;
use vstd::prelude::*;

verus! {

/// A pair as the merges write it.
pub open spec fn pair_key(a: Seq<char>, b: Seq<char>) -> Seq<char> {
    a + seq![' '] + b
}

/// The best of the first `n` neighbours of a word: the place and the rank of
/// the one with the lowest rank, the first of those.
pub open spec fn best_pair(word: Seq<Seq<char>>, merges: Map<Seq<char>, u32>, n: nat) -> Option<
    (int, u32),
>
    decreases n,
{
    if n == 0 {
        None
    } else {
        let before = best_pair(word, merges, (n - 1) as nat);
        let key = pair_key(word[n - 1], word[n as int]);
        if merges.contains_key(key) && (before is None || merges[key] < (before->0).1) {
            Some((n - 1, merges[key]))
        } else {
            before
        }
    }
}

/// A word with the parts at places `i` and `i + 1` merged.
pub open spec fn merged_at(word: Seq<Seq<char>>, i: int) -> Seq<Seq<char>> {
    word.take(i).push(word[i] + word[i + 1]) + word.skip(i + 2)
}

/// A word after all merges: as long as neighbours can be merged, the best ones
/// are.
pub open spec fn merged(word: Seq<Seq<char>>, merges: Map<Seq<char>, u32>) -> Seq<Seq<char>>
    decreases word.len(),
{
    if word.len() < 2 {
        word
    } else {
        match best_pair(word, merges, (word.len() - 1) as nat) {
            None => word,
            Some(best) => if 0 <= best.0 < word.len() - 1 {
                merged(merged_at(word, best.0), merges)
            } else {
                word
            },
        }
    }
}

/// The best place is one of the neighbours.
proof fn lemma_best_in(word: Seq<Seq<char>>, merges: Map<Seq<char>, u32>, n: nat)
    ensures
        best_pair(word, merges, n) matches Some(b) ==> 0 <= b.0 < n,
    decreases n,
{
    if n > 0 {
        lemma_best_in(word, merges, (n - 1) as nat);
    }
}

/// The best neighbours have the lowest rank of all, and are the first with it.
pub proof fn law_best_is_lowest(word: Seq<Seq<char>>, merges: Map<Seq<char>, u32>, n: nat, i: int)
    requires
        0 <= i < n,
        n < word.len(),
        merges.contains_key(pair_key(word[i], word[i + 1])),
    ensures
        best_pair(word, merges, n) is Some,
        (best_pair(word, merges, n)->0).1 <= merges[pair_key(word[i], word[i + 1])],
        (best_pair(word, merges, n)->0).1 == merges[pair_key(word[i], word[i + 1])]
            ==> (best_pair(word, merges, n)->0).0 <= i,
    decreases n,
{
    lemma_best_in(word, merges, n);
    if i < n - 1 {
        law_best_is_lowest(word, merges, (n - 1) as nat, i);
    } else {
        lemma_best_in(word, merges, (n - 1) as nat);
    }
}

/// Merging two parts keeps the text.
proof fn lemma_merge_keeps(word: Seq<Seq<char>>, i: int)
    requires
        0 <= i < word.len() - 1,
    ensures
        glued(merged_at(word, i)) == glued(word),
{
    let front = word.take(i);
    let back = word.skip(i + 2);
    let a = word[i];
    let b = word[i + 1];
    lemma_glued_joins(front.push(a + b), back);
    assert(front.push(a + b).drop_last() =~= front);
    assert(word =~= front.push(a).push(b) + back);
    lemma_glued_joins(front.push(a).push(b), back);
    assert(front.push(a).push(b).drop_last() =~= front.push(a));
    assert(front.push(a).drop_last() =~= front);
    assert(glued(front.push(a).push(b)) == glued(front.push(a)) + b);
    assert(glued(front.push(a)) == glued(front) + a);
    assert(glued(front.push(a + b)) == glued(front) + (a + b));
    assert(glued(front) + a + b =~= glued(front) + (a + b));
    assert(merged_at(word, i) == front.push(a + b) + back);
}

/// Merging keeps the text: the parts of the word still make it up.
pub proof fn law_merging_keeps_text(word: Seq<Seq<char>>, merges: Map<Seq<char>, u32>)
    ensures
        glued(merged(word, merges)) == glued(word),
    decreases word.len(),
{
    if word.len() >= 2 {
        match best_pair(word, merges, (word.len() - 1) as nat) {
            None => {},
            Some(best) => {
                if 0 <= best.0 < word.len() - 1 {
                    lemma_merge_keeps(word, best.0);
                    law_merging_keeps_text(merged_at(word, best.0), merges);
                }
            },
        }
    }
}

/// After merging no two neighbours can be merged any more.
pub proof fn law_merging_ends(word: Seq<Seq<char>>, merges: Map<Seq<char>, u32>, i: int)
    requires
        0 <= i < merged(word, merges).len() - 1,
    ensures
        !merges.contains_key(pair_key(merged(word, merges)[i], merged(word, merges)[i + 1])),
    decreases word.len(),
{
    if word.len() >= 2 {
        let n = (word.len() - 1) as nat;
        lemma_best_in(word, merges, n);
        match best_pair(word, merges, n) {
            None => {
                if merges.contains_key(pair_key(word[i], word[i + 1])) {
                    law_best_is_lowest(word, merges, n, i);
                }
            },
            Some(best) => {
                law_merging_ends(merged_at(word, best.0), merges, i);
            },
        }
    }
}

/// A word without neighbours that stand in the merges stays as it is.
pub proof fn law_unmergeable_stays(word: Seq<Seq<char>>, merges: Map<Seq<char>, u32>)
    requires
        forall|j: int|
            0 <= j < word.len() - 1 ==> !merges.contains_key(
                #[trigger] word[j] + seq![' '] + word[j + 1],
            ),
    ensures
        merged(word, merges) == word,
{
    if word.len() >= 2 {
        let n = (word.len() - 1) as nat;
        lemma_best_in(word, merges, n);
        lemma_best_stands(word, merges, n);
        if best_pair(word, merges, n) is Some {
            let i = (best_pair(word, merges, n)->0).0;
            assert(merges.contains_key(word[i] + seq![' '] + word[i + 1]));
        }
    }
}

/// The best neighbours stand in the merges, with that rank.
proof fn lemma_best_stands(word: Seq<Seq<char>>, merges: Map<Seq<char>, u32>, n: nat)
    ensures
        best_pair(word, merges, n) matches Some(b) ==> {
            let key = word[b.0] + seq![' '] + word[b.0 + 1];
            merges.contains_key(key) && merges[key] == b.1
        },
    decreases n,
{
    if n > 0 {
        lemma_best_stands(word, merges, (n - 1) as nat);
    }
}

/// Of all neighbours that stand in the merges those of the lowest rank are merged
/// first, and of several with that rank the first ones: a word and the same word
/// with those two joined come to the same.
pub proof fn law_lowest_rank_first(word: Seq<Seq<char>>, merges: Map<Seq<char>, u32>, i: int)
    requires
        0 <= i < word.len() - 1,
        merges.contains_key(word[i] + seq![' '] + word[i + 1]),
        forall|j: int|
            0 <= j < word.len() - 1 && merges.contains_key(
                #[trigger] word[j] + seq![' '] + word[j + 1],
            ) ==> {
                let here = merges[word[i] + seq![' '] + word[i + 1]];
                let there = merges[word[j] + seq![' '] + word[j + 1]];
                here < there || (here == there && i <= j)
            },
    ensures
        merged(word, merges) == merged(
            word.subrange(0, i) + seq![word[i] + word[i + 1]] + word.subrange(
                i + 2,
                word.len() as int,
            ),
            merges,
        ),
{
    let n = (word.len() - 1) as nat;
    law_best_is_lowest(word, merges, n, i);
    lemma_best_in(word, merges, n);
    lemma_best_stands(word, merges, n);
    let best = best_pair(word, merges, n)->0;
    let k = best.0;
    assert(merges.contains_key(word[k] + seq![' '] + word[k + 1]));
    assert(k == i);
    assert(merged_at(word, i) =~= word.subrange(0, i) + seq![word[i] + word[i + 1]]
        + word.subrange(i + 2, word.len() as int));
}

/// A pair as the merges write it.
fn key_of(a: &[char], b: &[char]) -> (r: String)
    ensures
        r@ == pair_key(a@, b@),
{
    let mut out: String = string_of(a);
    out.push(' ');
    out.append(string_of(b).as_str());
    proof {
        assert(out@ =~= pair_key(a@, b@));
    }
    out
}

/// The best neighbours of a word.
fn find_best(word: &Vec<Vec<char>>, merges: &StringHashMap<u32>) -> (r: Option<(usize, u32)>)
    requires
        word@.len() >= 2,
    ensures
        match r {
            Some(b) => best_pair(char_rows(word@), merges@, (word@.len() - 1) as nat) == Some(
                (b.0 as int, b.1),
            ) && b.0 < word@.len() - 1,
            None => best_pair(char_rows(word@), merges@, (word@.len() - 1) as nat) is None,
        },
{
    let ghost rows: Seq<Seq<char>> = char_rows(word@);
    let mut best: Option<(usize, u32)> = None;
    let mut i: usize = 0;
    while i < word.len() - 1
        invariant
            word@.len() >= 2,
            i <= word@.len() - 1,
            rows == char_rows(word@),
            match best {
                Some(b) => best_pair(rows, merges@, i as nat) == Some((b.0 as int, b.1)) && b.0
                    < i,
                None => best_pair(rows, merges@, i as nat) is None,
            },
        decreases word@.len() - i,
    {
        proof {
            assert(rows[i as int] == word@[i as int]@);
            assert(rows[i as int + 1] == word@[i as int + 1]@);
        }
        let key: String = key_of(&word[i], &word[i + 1]);
        match merges.get(key.as_str()) {
            Some(rank) => {
                let better: bool = match best {
                    Some(b) => *rank < b.1,
                    None => true,
                };
                if better {
                    best = Some((i, *rank));
                }
            },
            None => {},
        }
        i = i + 1;
    }
    best
}

/// Merges the parts of a word.
pub fn merge_word(parts: Vec<Vec<char>>, merges: &StringHashMap<u32>) -> (r: Vec<Vec<char>>)
    ensures
        char_rows(r@) == merged(char_rows(parts@), merges@),
{
    let mut word: Vec<Vec<char>> = parts;
    while word.len() >= 2
        invariant
            merged(char_rows(word@), merges@) == merged(char_rows(parts@), merges@),
        decreases word@.len(),
    {
        match find_best(&word, merges) {
            None => {
                return word;
            },
            Some(best) => {
                let i: usize = best.0;
                let ghost before: Seq<Vec<char>> = word@;
                let mut joined: Vec<char> = Vec::new();
                join_chars(&mut joined, &word[i]);
                join_chars(&mut joined, &word[i + 1]);
                word.set(i, joined);
                word.remove(i + 1);
                proof {
                    assert(joined@ =~= before[i as int]@ + before[i as int + 1]@);
                    assert(char_rows(word@) =~= merged_at(char_rows(before), i as int));
                }
            },
        }
    }
    word
}

/// Adds characters.
pub fn join_chars(out: &mut Vec<char>, more: &[char])
    ensures
        final(out)@ == old(out)@ + more@,
{
    let ghost start: Seq<char> = out@;
    let mut i: usize = 0;
    while i < more.len()
        invariant
            i <= more@.len(),
            out@ =~= start + more@.take(i as int),
        decreases more@.len() - i,
    {
        out.push(more[i]);
        i = i + 1;
    }
    proof {
        assert(more@.take(more@.len() as int) =~= more@);
    }
}

/// Each character of a text as a part of its own.
pub open spec fn singles(s: Seq<char>) -> Seq<Seq<char>> {
    s.map_values(|c: char| seq![c])
}

/// Characters apart make up the text.
pub proof fn law_singles_make_text(s: Seq<char>)
    ensures
        glued(singles(s)) == s,
    decreases s.len(),
{
    if s.len() > 0 {
        law_singles_make_text(s.drop_last());
        assert(singles(s).drop_last() =~= singles(s.drop_last()));
        assert(s.drop_last() + seq![s.last()] =~= s);
    } else {
        assert(singles(s) =~= Seq::<Seq<char>>::empty());
        assert(s =~= Seq::<char>::empty());
    }
}

/// Each character of a text as a part of its own.
pub fn split_singles(s: &[char]) -> (r: Vec<Vec<char>>)
    ensures
        char_rows(r@) == singles(s@),
{
    let mut out: Vec<Vec<char>> = Vec::new();
    let mut i: usize = 0;
    while i < s.len()
        invariant
            i <= s@.len(),
            out@.len() == i,
            forall|k: int| 0 <= k < i ==> (#[trigger] out@[k])@ == seq![s@[k]],
        decreases s@.len() - i,
    {
        out.push(vec![s[i]]);
        i = i + 1;
    }
    proof {
        assert(char_rows(out@) =~= singles(s@));
    }
    out
}

} // verus!
