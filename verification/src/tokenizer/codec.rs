//! Texts to token numbers and back.
use crate::text::{char_rows, string_of};
use crate::tokenizer::bytes::{
    bpe_chars_to_text, law_shown_joins, law_text_comes_back, law_unmapped_joins, mapped, shown,
    text_to_chars, unmapped,
};
use crate::tokenizer::merge::{
    law_merging_keeps_text, law_singles_make_text, merge_word, merged, singles, split_singles,
};
use crate::tokenizer::special::{
    glued, hit_len, is_marked, is_special, law_pieces_make_text, marked, piece_end, pieces,
    split_special,
};
use crate::tokenizer::{ids_of, Tokenizer};
use vstd::hash_map::StringHashMap;
use vstd::prelude::*;
use vstd::utf8::valid_utf8;

verus! {

/// The numbers of the characters that are tokens by themselves.
pub open spec fn char_ids(p: Seq<char>, ids: Map<Seq<char>, u32>) -> Seq<u32>
    decreases p.len(),
{
    if p.len() == 0 {
        Seq::empty()
    } else {
        let before = char_ids(p.drop_last(), ids);
        if ids.contains_key(seq![p.last()]) {
            before.push(ids[seq![p.last()]])
        } else {
            before
        }
    }
}

/// The numbers of a part: its own, or those of its characters, or the end token
/// where not one of them is a token.
pub open spec fn part_ids(p: Seq<char>, ids: Map<Seq<char>, u32>, eos: u32) -> Seq<u32> {
    if ids.contains_key(p) {
        seq![ids[p]]
    } else if char_ids(p, ids).len() > 0 {
        char_ids(p, ids)
    } else {
        seq![eos]
    }
}

/// The numbers of the parts of a word.
pub open spec fn word_ids(word: Seq<Seq<char>>, ids: Map<Seq<char>, u32>, eos: u32) -> Seq<u32>
    decreases word.len(),
{
    if word.len() == 0 {
        Seq::empty()
    } else {
        word_ids(word.drop_last(), ids, eos) + part_ids(word.last(), ids, eos)
    }
}

impl Tokenizer {
    /// The parts of a text after all merges.
    pub open spec fn parts(self, text: Seq<char>) -> Seq<Seq<char>> {
        merged(singles(mapped(text)), self.merges@)
    }

    /// The numbers of a text without tokens that stand for themselves.
    pub open spec fn bpe(self, text: Seq<char>) -> Seq<u32> {
        word_ids(self.parts(text), self.token_to_id@, self.eos_id)
    }

    /// The numbers of a piece: a marked token has one of its own.
    pub open spec fn piece_ids(self, piece: Seq<char>) -> Seq<u32> {
        if is_marked(piece) && self.token_to_id@.contains_key(piece) {
            seq![self.token_to_id@[piece]]
        } else {
            self.bpe(piece)
        }
    }

    /// The numbers of pieces.
    pub open spec fn pieces_ids(self, parts: Seq<Seq<char>>) -> Seq<u32>
        decreases parts.len(),
    {
        if parts.len() == 0 {
            Seq::empty()
        } else {
            self.pieces_ids(parts.drop_last()) + self.piece_ids(parts.last())
        }
    }

    /// The start token, where it is wanted and the tokenizer has it.
    pub open spec fn start(self, add_special: bool) -> Seq<u32> {
        if add_special && self.add_bos {
            seq![self.bos_id]
        } else {
            Seq::empty()
        }
    }

    /// The numbers of a text.
    pub open spec fn encoded(self, text: Seq<char>, add_special: bool) -> Seq<u32> {
        self.start(add_special) + self.pieces_ids(pieces(text, self.words(), 0))
    }

    /// The numbers of a text that is split by merges.
    pub fn encode(&self, text: &str, add_special: bool) -> (r: Vec<u32>)
        requires
            !self.sentencepiece,
        ensures
            r@ == self.encoded(text@, add_special),
    {
        let parts: Vec<Vec<char>> = split_special(text, &self.tokens);
        let ghost rows: Seq<Seq<char>> = char_rows(parts@);
        let mut found: Vec<u32> = Vec::new();
        let mut i: usize = 0;
        proof {
            assert(rows.take(0) =~= Seq::<Seq<char>>::empty());
        }
        while i < parts.len()
            invariant
                i <= parts@.len(),
                rows == char_rows(parts@),
                found@ == self.pieces_ids(rows.take(i as int)),
            decreases parts@.len() - i,
        {
            proof {
                assert(rows.take(i as int + 1).drop_last() =~= rows.take(i as int));
                assert(rows.take(i as int + 1).last() == parts@[i as int]@);
            }
            let mut more: Vec<u32> = self.encode_piece(&parts[i]);
            found.append(&mut more);
            i = i + 1;
        }
        proof {
            assert(rows.take(rows.len() as int) =~= rows);
        }
        self.with_start(found, add_special)
    }

    /// Numbers behind the start token, where it is wanted and the tokenizer has
    /// it.
    pub fn with_start(&self, ids: Vec<u32>, add_special: bool) -> (r: Vec<u32>)
        ensures
            r@ == self.start(add_special) + ids@,
    {
        let mut out: Vec<u32> = Vec::new();
        if add_special && self.add_bos {
            out.push(self.bos_id);
        }
        let mut more: Vec<u32> = ids;
        out.append(&mut more);
        proof {
            assert(out@ =~= self.start(add_special) + ids@);
        }
        out
    }

    /// The numbers of a piece.
    fn encode_piece(&self, piece: &Vec<char>) -> (r: Vec<u32>)
        ensures
            r@ == self.piece_ids(piece@),
    {
        let text: String = string_of(piece);
        if marked(piece) {
            match self.token_to_id.get(text.as_str()) {
                Some(id) => {
                    return vec![*id];
                },
                None => {},
            }
        }
        self.bpe_encode(text.as_str())
    }

    /// The numbers of a text without tokens that stand for themselves.
    pub fn bpe_encode(&self, text: &str) -> (r: Vec<u32>)
        ensures
            r@ == self.bpe(text@),
    {
        let chars: Vec<char> = text_to_chars(text);
        let word: Vec<Vec<char>> = merge_word(split_singles(&chars), &self.merges);
        let ghost rows: Seq<Seq<char>> = char_rows(word@);
        let mut out: Vec<u32> = Vec::new();
        let mut i: usize = 0;
        proof {
            assert(rows.take(0) =~= Seq::<Seq<char>>::empty());
        }
        while i < word.len()
            invariant
                i <= word@.len(),
                rows == char_rows(word@),
                out@ == word_ids(rows.take(i as int), self.token_to_id@, self.eos_id),
            decreases word@.len() - i,
        {
            proof {
                assert(rows.take(i as int + 1).drop_last() =~= rows.take(i as int));
                assert(rows.take(i as int + 1).last() == word@[i as int]@);
            }
            let mut more: Vec<u32> = number_part(&word[i], &self.token_to_id, self.eos_id);
            out.append(&mut more);
            i = i + 1;
        }
        proof {
            assert(rows.take(rows.len() as int) =~= rows);
        }
        out
    }
}

/// The numbers of a part.
fn number_part(p: &Vec<char>, ids: &StringHashMap<u32>, eos: u32) -> (r: Vec<u32>)
    ensures
        r@ == part_ids(p@, ids@, eos),
{
    let text: String = string_of(p);
    match ids.get(text.as_str()) {
        Some(id) => {
            return vec![*id];
        },
        None => {},
    }
    let mut out: Vec<u32> = Vec::new();
    let mut i: usize = 0;
    proof {
        assert(p@.take(0) =~= Seq::<char>::empty());
    }
    while i < p.len()
        invariant
            i <= p@.len(),
            out@ == char_ids(p@.take(i as int), ids@),
        decreases p@.len() - i,
    {
        proof {
            assert(p@.take(i as int + 1).drop_last() =~= p@.take(i as int));
        }
        let one: Vec<char> = vec![p[i]];
        let text: String = string_of(&one);
        proof {
            assert(text@ =~= seq![p@[i as int]]);
        }
        match ids.get(text.as_str()) {
            Some(id) => {
                out.push(*id);
            },
            None => {},
        }
        i = i + 1;
    }
    proof {
        assert(p@.take(p@.len() as int) =~= p@);
    }
    if out.len() == 0 {
        out.push(eos);
    }
    out
}

/// The mark that stands for a space.
pub const SPACE_MARK: char = '\u{2581}';

/// A text with spaces for the marks that stand for them.
pub open spec fn with_spaces(s: Seq<char>) -> Seq<char> {
    s.map_values(
        |c: char|
            if c == SPACE_MARK {
                ' '
            } else {
                c
            },
    )
}

/// What a token means where texts are split by scores: nothing where it is
/// written between `<` and `>`, else its text.
pub open spec fn scored_text(t: Seq<char>) -> Seq<char> {
    if t.len() > 0 && t[0] == '<' && t.last() == '>' {
        Seq::empty()
    } else {
        with_spaces(t)
    }
}

/// What a token means where texts are split by merges: a marked one itself,
/// another one the bytes that its characters stand for.
pub open spec fn merged_text(t: Seq<char>) -> Seq<char> {
    if is_marked(t) {
        t
    } else {
        shown(unmapped(t))
    }
}

impl Tokenizer {
    /// What a number means: nothing where there is no token of that number.
    pub open spec fn text_of(self, id: u32) -> Seq<char> {
        if id < self.tokens@.len() {
            if self.sentencepiece {
                scored_text(self.tokens@[id as int]@)
            } else {
                merged_text(self.tokens@[id as int]@)
            }
        } else {
            Seq::empty()
        }
    }

    /// What numbers mean.
    pub open spec fn decoded(self, ids: Seq<u32>) -> Seq<char>
        decreases ids.len(),
    {
        if ids.len() == 0 {
            Seq::empty()
        } else {
            self.decoded(ids.drop_last()) + self.text_of(ids.last())
        }
    }

    /// What numbers mean.
    pub fn decode(&self, ids: &[u32]) -> (r: String)
        ensures
            r@ == self.decoded(ids@),
    {
        let mut out: String = String::new();
        let mut i: usize = 0;
        proof {
            assert(ids@.take(0) =~= Seq::<u32>::empty());
        }
        while i < ids.len()
            invariant
                i <= ids@.len(),
                out@ == self.decoded(ids@.take(i as int)),
            decreases ids@.len() - i,
        {
            proof {
                assert(ids@.take(i as int + 1).drop_last() =~= ids@.take(i as int));
            }
            let piece: String = self.decode_one(ids[i]);
            out.append(piece.as_str());
            i = i + 1;
        }
        proof {
            assert(ids@.take(ids@.len() as int) =~= ids@);
        }
        out
    }

    /// What a number means.
    pub fn decode_one(&self, id: u32) -> (r: String)
        ensures
            r@ == self.text_of(id),
    {
        if id as u64 >= self.tokens.len() as u64 {
            return String::new();
        }
        let t: &str = self.tokens[id as usize].as_str();
        let chars: Vec<char> = crate::text::chars_of(t);
        if self.sentencepiece {
            let n: usize = chars.len();
            if n > 0 && chars[0] == '<' && chars[n - 1] == '>' {
                return String::new();
            }
            return string_of(&spaced(&chars));
        }
        if marked(&chars) {
            t.to_owned()
        } else {
            bpe_chars_to_text(t)
        }
    }
}

/// A text with spaces for the marks that stand for them.
fn spaced(s: &[char]) -> (r: Vec<char>)
    ensures
        r@ == with_spaces(s@),
{
    let mut out: Vec<char> = Vec::new();
    let mut i: usize = 0;
    while i < s.len()
        invariant
            i <= s@.len(),
            out@ == with_spaces(s@.take(i as int)),
        decreases s@.len() - i,
    {
        let c: char = s[i];
        out.push(
            if c == SPACE_MARK {
                ' '
            } else {
                c
            },
        );
        i = i + 1;
        proof {
            assert(out@ =~= with_spaces(s@.take(i as int)));
        }
    }
    proof {
        assert(s@.take(s@.len() as int) =~= s@);
    }
    out
}

/// Every token has a number, and the number leads to the token.
pub proof fn law_numbers_lead_to_tokens(tokens: Seq<Seq<char>>, t: Seq<char>)
    requires
        tokens.len() <= u32::MAX,
    ensures
        ids_of(tokens).contains_key(t) <==> tokens.contains(t),
        ids_of(tokens).contains_key(t) ==> ids_of(tokens)[t] < tokens.len()
            && tokens[ids_of(tokens)[t] as int] == t,
    decreases tokens.len(),
{
    if tokens.len() > 0 {
        let front = tokens.drop_last();
        law_numbers_lead_to_tokens(front, t);
        law_numbers_lead_to_tokens(front, tokens.last());
        if tokens.contains(t) {
            let k = choose|k: int| 0 <= k < tokens.len() && tokens[k] == t;
            if k < front.len() {
                assert(front[k] == t);
            }
        }
        if front.contains(t) {
            let k = choose|k: int| 0 <= k < front.len() && front[k] == t;
            assert(tokens[k] == t);
        }
        assert(tokens[tokens.len() - 1] == tokens.last());
    }
}

/// The longest token that stands for itself is the whole text where the text is
/// such a token.
proof fn lemma_whole_hit(text: Seq<char>, tokens: Seq<Seq<char>>, n: nat)
    requires
        is_special(text),
        n <= tokens.len(),
    ensures
        hit_len(text, tokens, 0, n) <= text.len(),
        (exists|k: int| 0 <= k < n && tokens[k] == text) ==> hit_len(text, tokens, 0, n)
            == text.len(),
    decreases n,
{
    if n > 0 {
        lemma_whole_hit(text, tokens, (n - 1) as nat);
        if tokens[n - 1] == text {
            assert(text.subrange(0, text.len() as int) =~= text);
        } else if exists|k: int| 0 <= k < n && tokens[k] == text {
            let k = choose|k: int| 0 <= k < n && tokens[k] == text;
            assert(0 <= k < n - 1 && tokens[k] == text);
        }
    }
}

/// A marked token, written alone, is encoded as its own number and nothing
/// else.
pub proof fn law_marked_token_is_one(t: Tokenizer, text: Seq<char>)
    requires
        t.token_to_id@ == ids_of(t.words()),
        t.words().len() <= u32::MAX,
        t.words().contains(text),
        is_marked(text),
    ensures
        t.encoded(text, false) == seq![t.token_to_id@[text]],
{
    reveal_strlit("<|");
    let tokens = t.words();
    law_numbers_lead_to_tokens(tokens, text);
    let k = choose|k: int| 0 <= k < tokens.len() && tokens[k] == text;
    lemma_whole_hit(text, tokens, tokens.len());
    assert("<|"@.len() == 2);
    assert(text.len() > 0);
    assert(piece_end(text, tokens, 0) == text.len());
    assert(text.subrange(0, text.len() as int) =~= text);
    assert(pieces(text, tokens, text.len() as int) =~= Seq::<Seq<char>>::empty());
    assert(pieces(text, tokens, 0) =~= seq![text]);
    assert(seq![text].drop_last() =~= Seq::<Seq<char>>::empty());
    assert(t.pieces_ids(seq![text]) =~= seq![t.token_to_id@[text]]) by {
        assert(t.pieces_ids(seq![text].drop_last()) =~= Seq::<u32>::empty());
    }
    assert(t.encoded(text, false) =~= seq![t.token_to_id@[text]]);
}

impl Tokenizer {
    /// A part that is a token, not marked, and encodes a text.
    pub open spec fn clean_part(self, p: Seq<char>) -> bool {
        self.token_to_id@.contains_key(p) && !is_marked(p) && valid_utf8(unmapped(p))
    }

    /// A piece that is a marked token, or whose parts are all tokens that encode
    /// texts.
    pub open spec fn clean_piece(self, piece: Seq<char>) -> bool {
        ||| is_marked(piece) && self.token_to_id@.contains_key(piece)
        ||| forall|k: int|
            0 <= k < self.parts(piece).len() ==> self.clean_part(#[trigger] self.parts(piece)[k])
    }
}

/// What numbers mean, one after the other.
pub proof fn law_decoded_joins(t: Tokenizer, a: Seq<u32>, b: Seq<u32>)
    ensures
        t.decoded(a + b) == t.decoded(a) + t.decoded(b),
    decreases b.len(),
{
    if b.len() == 0 {
        assert(a + b =~= a);
        assert(t.decoded(a) + t.decoded(b) =~= t.decoded(a));
    } else {
        law_decoded_joins(t, a, b.drop_last());
        assert((a + b).drop_last() =~= a + b.drop_last());
        assert(t.decoded(a) + t.decoded(b.drop_last()) + t.text_of(b.last()) =~= t.decoded(a) + (
        t.decoded(b.drop_last()) + t.text_of(b.last())));
    }
}

/// What the number of one token means.
proof fn lemma_decoded_one(t: Tokenizer, id: u32)
    ensures
        t.decoded(seq![id]) == t.text_of(id),
{
    assert(seq![id].drop_last() =~= Seq::<u32>::empty());
    assert(t.decoded(seq![id].drop_last()) =~= Seq::<char>::empty());
    assert(t.decoded(seq![id]) =~= t.text_of(id));
}

/// The parts of a word are decoded to the text that they make up.
proof fn lemma_word_comes_back(t: Tokenizer, word: Seq<Seq<char>>)
    requires
        !t.sentencepiece,
        t.token_to_id@ == ids_of(t.words()),
        t.words().len() <= u32::MAX,
        forall|k: int| 0 <= k < word.len() ==> t.clean_part(#[trigger] word[k]),
    ensures
        valid_utf8(unmapped(glued(word))),
        t.decoded(word_ids(word, t.token_to_id@, t.eos_id)) == shown(unmapped(glued(word))),
    decreases word.len(),
{
    let ids = t.token_to_id@;
    if word.len() == 0 {
        assert(unmapped(glued(word)) =~= Seq::<u8>::empty());
        assert(shown(Seq::<u8>::empty()) =~= Seq::<char>::empty());
    } else {
        let front = word.drop_last();
        let p = word.last();
        assert forall|k: int| 0 <= k < front.len() implies t.clean_part(#[trigger] front[k]) by {
            assert(t.clean_part(word[k]));
        }
        lemma_word_comes_back(t, front);
        assert(t.clean_part(word[word.len() - 1]));
        law_numbers_lead_to_tokens(t.words(), p);
        let id = ids[p];
        assert(t.tokens@[id as int]@ == p) by {
            assert(t.words()[id as int] == p);
        }
        assert(t.text_of(id) == shown(unmapped(p)));
        law_decoded_joins(t, word_ids(front, ids, t.eos_id), seq![id]);
        lemma_decoded_one(t, id);
        law_unmapped_joins(glued(front), p);
        law_shown_joins(unmapped(glued(front)), unmapped(p));
    }
}

/// A clean piece comes back as it was.
proof fn lemma_piece_comes_back(t: Tokenizer, piece: Seq<char>)
    requires
        !t.sentencepiece,
        t.token_to_id@ == ids_of(t.words()),
        t.words().len() <= u32::MAX,
        t.clean_piece(piece),
    ensures
        t.decoded(t.piece_ids(piece)) == piece,
{
    if is_marked(piece) && t.token_to_id@.contains_key(piece) {
        law_numbers_lead_to_tokens(t.words(), piece);
        let id = t.token_to_id@[piece];
        assert(t.tokens@[id as int]@ == piece) by {
            assert(t.words()[id as int] == piece);
        }
        lemma_decoded_one(t, id);
    } else {
        lemma_word_comes_back(t, t.parts(piece));
        law_merging_keeps_text(singles(mapped(piece)), t.merges@);
        law_singles_make_text(mapped(piece));
        law_text_comes_back(piece);
    }
}

/// Clean pieces come back as they were.
proof fn lemma_pieces_come_back(t: Tokenizer, parts: Seq<Seq<char>>)
    requires
        !t.sentencepiece,
        t.token_to_id@ == ids_of(t.words()),
        t.words().len() <= u32::MAX,
        forall|k: int| 0 <= k < parts.len() ==> t.clean_piece(#[trigger] parts[k]),
    ensures
        t.decoded(t.pieces_ids(parts)) == glued(parts),
    decreases parts.len(),
{
    if parts.len() > 0 {
        let front = parts.drop_last();
        assert forall|k: int| 0 <= k < front.len() implies t.clean_piece(#[trigger] front[k]) by {
            assert(t.clean_piece(parts[k]));
        }
        lemma_pieces_come_back(t, front);
        assert(t.clean_piece(parts[parts.len() - 1]));
        lemma_piece_comes_back(t, parts.last());
        law_decoded_joins(t, t.pieces_ids(front), t.piece_ids(parts.last()));
    }
}

/// What is encoded is decoded to the text that it was: where each piece is a
/// marked token, or is merged to tokens that are texts by themselves.
pub proof fn law_text_round_trip(t: Tokenizer, text: Seq<char>)
    requires
        !t.sentencepiece,
        t.token_to_id@ == ids_of(t.words()),
        t.words().len() <= u32::MAX,
        forall|k: int|
            0 <= k < pieces(text, t.words(), 0).len() ==> t.clean_piece(
                #[trigger] pieces(text, t.words(), 0)[k],
            ),
    ensures
        t.decoded(t.encoded(text, false)) == text,
{
    let parts = pieces(text, t.words(), 0);
    lemma_pieces_come_back(t, parts);
    law_pieces_make_text(text, t.words(), 0);
    assert(text.skip(0) =~= text);
    assert(t.encoded(text, false) =~= t.pieces_ids(parts));
}

/// The numbers of two runs of parts are those of the first and then those of the second.
pub proof fn law_word_numbers_join(
    a: Seq<Seq<char>>,
    b: Seq<Seq<char>>,
    ids: Map<Seq<char>, u32>,
    eos: u32,
)
    ensures
        word_ids(a + b, ids, eos) == word_ids(a, ids, eos) + word_ids(b, ids, eos),
    decreases b.len(),
{
    if b.len() == 0 {
        assert(a + b =~= a);
        assert(word_ids(a, ids, eos) + word_ids(b, ids, eos) =~= word_ids(a, ids, eos));
    } else {
        law_word_numbers_join(a, b.drop_last(), ids, eos);
        assert((a + b).drop_last() =~= a + b.drop_last());
        assert(word_ids(a + b, ids, eos) =~= word_ids(a, ids, eos) + (word_ids(
            b.drop_last(),
            ids,
            eos,
        ) + part_ids(b.last(), ids, eos)));
    }
}

/// The numbers of the characters of a text, those that are tokens, in their order.
pub proof fn law_char_numbers(a: Seq<char>, c: char, b: Seq<char>, ids: Map<Seq<char>, u32>)
    ensures
        char_ids(a + seq![c] + b, ids) == char_ids(a, ids) + (if ids.contains_key(seq![c]) {
            seq![ids[seq![c]]]
        } else {
            Seq::<u32>::empty()
        }) + char_ids(b, ids),
        char_ids(Seq::<char>::empty(), ids).len() == 0,
    decreases b.len(),
{
    let whole = a + seq![c] + b;
    if b.len() == 0 {
        assert(whole.drop_last() =~= a);
        assert(whole.last() == c);
        assert(char_ids(b, ids) =~= Seq::<u32>::empty());
        assert(char_ids(whole, ids) =~= char_ids(a, ids) + (if ids.contains_key(seq![c]) {
            seq![ids[seq![c]]]
        } else {
            Seq::<u32>::empty()
        }) + char_ids(b, ids));
    } else {
        law_char_numbers(a, c, b.drop_last(), ids);
        assert(whole.drop_last() =~= a + seq![c] + b.drop_last());
        assert(whole.last() == b.last());
        assert(char_ids(whole, ids) =~= char_ids(a, ids) + (if ids.contains_key(seq![c]) {
            seq![ids[seq![c]]]
        } else {
            Seq::<u32>::empty()
        }) + char_ids(b, ids));
    }
}

/// A part that is a token has its number. Another part has those of its characters that
/// are tokens, and the end token where none is: it never vanishes.
pub proof fn law_part_numbers(p: Seq<char>, ids: Map<Seq<char>, u32>, eos: u32)
    ensures
        ids.contains_key(p) ==> word_ids(seq![p], ids, eos) == seq![ids[p]],
        !ids.contains_key(p) && char_ids(p, ids).len() > 0 ==> word_ids(seq![p], ids, eos)
            == char_ids(p, ids),
        !ids.contains_key(p) && char_ids(p, ids).len() == 0 ==> word_ids(seq![p], ids, eos)
            == seq![eos],
        word_ids(Seq::<Seq<char>>::empty(), ids, eos).len() == 0,
{
    assert(seq![p].drop_last() =~= Seq::<Seq<char>>::empty());
    reveal_with_fuel(word_ids, 2);
    assert(word_ids(seq![p], ids, eos) =~= part_ids(p, ids, eos));
}

/// The beginning token is put before the text where that is asked for and the tokenizer
/// has one, and changes nothing else.
pub proof fn law_start_token(t: Tokenizer, text: Seq<char>)
    ensures
        t.add_bos ==> t.encoded(text, true) == seq![t.bos_id] + t.encoded(text, false),
        !t.add_bos ==> t.encoded(text, true) == t.encoded(text, false),
{
    assert(t.encoded(text, false) =~= t.pieces_ids(pieces(text, t.words(), 0)));
    assert(t.add_bos ==> t.encoded(text, true) =~= seq![t.bos_id] + t.encoded(text, false));
}

/// A text in which no special token stands is encoded as a whole: the parts that the
/// merges leave of its bytes.
pub proof fn law_plain_text(t: Tokenizer, text: Seq<char>)
    requires
        pieces(text, t.words(), 0) == seq![text],
        !is_marked(text) || !t.token_to_id@.contains_key(text),
    ensures
        t.encoded(text, false) == word_ids(
            merged(singles(mapped(text)), t.merges@),
            t.token_to_id@,
            t.eos_id,
        ),
{
    assert(seq![text].drop_last() =~= Seq::<Seq<char>>::empty());
    assert(t.pieces_ids(Seq::<Seq<char>>::empty()) =~= Seq::<u32>::empty());
    assert(t.pieces_ids(seq![text]) =~= t.bpe(text));
    assert(t.encoded(text, false) =~= t.bpe(text));
}

/// The numbers of pieces are those of each of them, in their order.
pub proof fn law_piece_numbers(t: Tokenizer, before: Seq<Seq<char>>, piece: Seq<char>)
    ensures
        t.pieces_ids(before.push(piece)) == t.pieces_ids(before) + t.piece_ids(piece),
        t.pieces_ids(Seq::<Seq<char>>::empty()).len() == 0,
        is_marked(piece) && t.token_to_id@.contains_key(piece) ==> t.piece_ids(piece)
            == seq![t.token_to_id@[piece]],
{
    assert(before.push(piece).drop_last() =~= before);
}

/// The text of one number. Numbers that no token has give nothing. With scores a token
/// in angle brackets gives nothing, and in every other one the marks become spaces;
/// with merges a marked token gives itself, and every other one the text of its bytes.
pub proof fn law_token_text(t: Tokenizer, id: u32)
    ensures
        t.decoded(seq![id]) == t.text_of(id),
        id >= t.tokens@.len() ==> t.decoded(seq![id]).len() == 0,
        id < t.tokens@.len() && t.sentencepiece ==> {
            let word = t.tokens@[id as int]@;
            if word.len() > 0 && word[0] == '<' && word[word.len() - 1] == '>' {
                t.decoded(seq![id]).len() == 0
            } else {
                &&& t.decoded(seq![id]).len() == word.len()
                &&& forall|i: int|
                    0 <= i < word.len() ==> #[trigger] t.decoded(seq![id])[i] == (if word[i]
                        == '\u{2581}' {
                        ' '
                    } else {
                        word[i]
                    })
            }
        },
        id < t.tokens@.len() && !t.sentencepiece ==> {
            let word = t.tokens@[id as int]@;
            t.decoded(seq![id]) == (if is_marked(word) {
                word
            } else {
                shown(unmapped(word))
            })
        },
{
    assert(seq![id].drop_last() =~= Seq::<u32>::empty());
    assert(t.decoded(Seq::<u32>::empty()) =~= Seq::<char>::empty());
    assert(t.decoded(seq![id]) =~= t.text_of(id));
}

} // verus!
