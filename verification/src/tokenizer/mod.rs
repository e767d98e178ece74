//! Texts as token numbers: byte-level merges, and pieces with scores.
pub mod bytes;
pub mod codec;
pub mod merge;
pub mod scored;
pub mod special;
use crate::config::count_of;
use crate::gguf::reader::GgufFile;
use crate::gguf::value::{views, FloatBits, Value, ValueView};
use crate::text::chars_of;
use crate::tokenizer::special::token_views;
use vstd::hash_map::StringHashMap;
use vstd::prelude::*;
use vstd::utf8::encode_utf8;

verus! {

/// Why a file has no tokenizer.
#[derive(Debug)]
pub enum TokenizerError {
    MissingTokens,
    TokenNotString,
    MergeNotString,
    BadMerge(String),
}

/// Why a file has no tokenizer, as a mathematical value.
pub enum TokenizerErrorView {
    MissingTokens,
    TokenNotString,
    MergeNotString,
    BadMerge(Seq<char>),
}

impl View for TokenizerError {
    type V = TokenizerErrorView;

    open spec fn view(&self) -> TokenizerErrorView {
        match *self {
            TokenizerError::MissingTokens => TokenizerErrorView::MissingTokens,
            TokenizerError::TokenNotString => TokenizerErrorView::TokenNotString,
            TokenizerError::MergeNotString => TokenizerErrorView::MergeNotString,
            TokenizerError::BadMerge(s) => TokenizerErrorView::BadMerge(s@),
        }
    }
}

impl TokenizerErrorView {
    /// The sentence that tells the error.
    pub open spec fn sentence(self) -> Seq<char> {
        match self {
            TokenizerErrorView::MissingTokens => "missing tokenizer.ggml.tokens"@,
            TokenizerErrorView::TokenNotString => "token not string"@,
            TokenizerErrorView::MergeNotString => "merge not string"@,
            TokenizerErrorView::BadMerge(s) => "bad merge: "@ + s,
        }
    }
}

impl TokenizerError {
    /// The sentence that tells the error.
    pub fn message(&self) -> (r: String)
        ensures
            r@ == self@.sentence(),
    {
        let mut out: String = String::new();
        match self {
            TokenizerError::MissingTokens => {
                out.append("missing tokenizer.ggml.tokens");
            },
            TokenizerError::TokenNotString => {
                out.append("token not string");
            },
            TokenizerError::MergeNotString => {
                out.append("merge not string");
            },
            TokenizerError::BadMerge(s) => {
                out.append("bad merge: ");
                out.append(s.as_str());
            },
        }
        proof {
            assert(out@ == self@.sentence());
        }
        out
    }
}

/// A tokenizer.
pub struct Tokenizer {
    pub tokens: Vec<String>,
    /// The number of each token; of a token that occurs twice, the first.
    pub token_to_id: StringHashMap<u32>,
    /// The rank of each pair that is merged; a pair is written with a space
    /// between its parts.
    pub merges: StringHashMap<u32>,
    /// The score of each token.
    pub scores: Vec<FloatBits>,
    /// Whether texts are split by scores and not by merges.
    pub sentencepiece: bool,
    /// Bytes of the longest token.
    pub max_piece_bytes: usize,
    pub bos_id: u32,
    pub eos_id: u32,
    pub unk_id: u32,
    pub add_bos: bool,
}

/// The tokens of an array, or the first error.
pub open spec fn tokens_of(items: Seq<ValueView>) -> Result<Seq<Seq<char>>, TokenizerErrorView>
    decreases items.len(),
{
    if items.len() == 0 {
        Ok(Seq::empty())
    } else {
        match tokens_of(items.drop_last()) {
            Err(e) => Err(e),
            Ok(before) => match items.last().as_str() {
                None => Err(TokenizerErrorView::TokenNotString),
                Some(s) => Ok(before.push(s)),
            },
        }
    }
}

/// The number of each token: the first place where it occurs.
pub open spec fn ids_of(tokens: Seq<Seq<char>>) -> Map<Seq<char>, u32>
    decreases tokens.len(),
{
    if tokens.len() == 0 {
        Map::empty()
    } else {
        let before = ids_of(tokens.drop_last());
        if before.contains_key(tokens.last()) {
            before
        } else {
            before.insert(tokens.last(), (tokens.len() - 1) as u32)
        }
    }
}

/// The ranks of the merges of an array, or the first error; of a pair that
/// occurs twice, the last place counts.
pub open spec fn merges_of(items: Seq<ValueView>) -> Result<
    Map<Seq<char>, u32>,
    TokenizerErrorView,
>
    decreases items.len(),
{
    if items.len() == 0 {
        Ok(Map::empty())
    } else {
        match merges_of(items.drop_last()) {
            Err(e) => Err(e),
            Ok(before) => match items.last().as_str() {
                None => Err(TokenizerErrorView::MergeNotString),
                Some(s) => if s.contains(' ') {
                    Ok(before.insert(s, (items.len() - 1) as u32))
                } else {
                    Err(TokenizerErrorView::BadMerge(s))
                },
            },
        }
    }
}

/// `-100.0` in single precision.
pub const NO_SCORE: u32 = 0xc2c8_0000;

/// The score that an item says.
pub open spec fn score_of(v: ValueView) -> FloatBits {
    match v.as_f32() {
        Some(f) => f,
        None => FloatBits::Single(NO_SCORE),
    }
}

/// Bytes of the longest token; one where there is none.
pub open spec fn longest_bytes(tokens: Seq<Seq<char>>) -> nat
    decreases tokens.len(),
{
    if tokens.len() == 0 {
        1
    } else if tokens.len() == 1 {
        encode_utf8(tokens[0]).len()
    } else {
        let before = longest_bytes(tokens.drop_last());
        let n = encode_utf8(tokens.last()).len();
        if n > before {
            n
        } else {
            before
        }
    }
}

/// The items of the array under a key.
pub open spec fn array_at(file: GgufFile<'_>, key: Seq<char>) -> Option<Seq<ValueView>> {
    match file.meta(key) {
        Some(v) => match v {
            ValueView::Array { items, .. } => Some(items),
            _ => None,
        },
        None => None,
    }
}

/// The count under a key, or zero.
pub open spec fn id_at(file: GgufFile<'_>, key: Seq<char>) -> u32 {
    match count_of(file.meta(key)) {
        Some(n) => n,
        None => 0,
    }
}

impl Tokenizer {
    /// The tokens.
    pub open spec fn words(self) -> Seq<Seq<char>> {
        token_views(self.tokens@)
    }

    /// The error of the tokenizer of a file, the first one.
    pub open spec fn error_of(file: GgufFile<'_>) -> Option<TokenizerErrorView> {
        match array_at(file, "tokenizer.ggml.tokens"@) {
            None => Some(TokenizerErrorView::MissingTokens),
            Some(items) => match tokens_of(items) {
                Err(e) => Some(e),
                Ok(_) => match array_at(file, "tokenizer.ggml.merges"@) {
                    None => None,
                    Some(m) => match merges_of(m) {
                        Err(e) => Some(e),
                        Ok(_) => None,
                    },
                },
            },
        }
    }

    /// The tokenizer of a file without errors.
    pub open spec fn is_of(self, file: GgufFile<'_>) -> bool {
        let tokens = tokens_of(array_at(file, "tokenizer.ggml.tokens"@)->0)->Ok_0;
        let merges = array_at(file, "tokenizer.ggml.merges"@);
        let scores = array_at(file, "tokenizer.ggml.scores"@);
        &&& self.words() == tokens
        &&& self.token_to_id@ == ids_of(tokens)
        &&& self.merges@ == (match merges {
            Some(m) => merges_of(m)->Ok_0,
            None => Map::empty(),
        })
        &&& self.sentencepiece == (merges is None)
        &&& self.scores@ == (match scores {
            Some(s) => s.map_values(|v: ValueView| score_of(v)),
            None => Seq::new(tokens.len(), |i: int| FloatBits::Single(0)),
        })
        &&& self.max_piece_bytes == longest_bytes(tokens)
        &&& self.bos_id == id_at(file, "tokenizer.ggml.bos_token_id"@)
        &&& self.eos_id == id_at(file, "tokenizer.ggml.eos_token_id"@)
        &&& self.unk_id == id_at(file, "tokenizer.ggml.unknown_token_id"@)
        &&& self.add_bos == (match file.meta("tokenizer.ggml.add_bos_token"@) {
            Some(v) => v.as_bool() == Some(true),
            None => false,
        })
    }

    /// The tokenizer of a file.
    pub fn from_gguf(file: &GgufFile<'_>) -> (r: Result<Tokenizer, TokenizerError>)
        ensures
            match r {
                Ok(t) => Tokenizer::error_of(*file) is None && t.is_of(*file),
                Err(e) => Tokenizer::error_of(*file) == Some(e@),
            },
    {
        let items: &Vec<Value> = match find_array(file, "tokenizer.ggml.tokens") {
            Some(v) => v,
            None => {
                return Err(TokenizerError::MissingTokens);
            },
        };
        let tokens: Vec<String> = match read_tokens(items) {
            Ok(t) => t,
            Err(e) => {
                return Err(e);
            },
        };
        let mut merges: StringHashMap<u32> = StringHashMap::new();
        let mut sentencepiece: bool = true;
        match find_array(file, "tokenizer.ggml.merges") {
            Some(m) => match read_merges(m) {
                Ok(found) => {
                    merges = found;
                    sentencepiece = false;
                },
                Err(e) => {
                    return Err(e);
                },
            },
            None => {},
        }
        let scores: Vec<FloatBits> = match find_array(file, "tokenizer.ggml.scores") {
            Some(s) => read_scores(s),
            None => zero_scores(tokens.len()),
        };
        let token_to_id: StringHashMap<u32> = number_tokens(&tokens);
        let max_piece_bytes: usize = longest_token(&tokens);
        let add_bos: bool = match file.metadata.get("tokenizer.ggml.add_bos_token") {
            Some(v) => match v.as_bool() {
                Some(b) => b,
                None => false,
            },
            None => false,
        };
        Ok(
            Tokenizer {
                tokens,
                token_to_id,
                merges,
                scores,
                sentencepiece,
                max_piece_bytes,
                bos_id: read_id(file, "tokenizer.ggml.bos_token_id"),
                eos_id: read_id(file, "tokenizer.ggml.eos_token_id"),
                unk_id: read_id(file, "tokenizer.ggml.unknown_token_id"),
                add_bos,
            },
        )
    }
}

/// The items of the array under a key.
fn find_array<'b>(file: &'b GgufFile<'_>, key: &str) -> (r: Option<&'b Vec<Value>>)
    ensures
        match r {
            Some(v) => array_at(*file, key@) == Some(views(v@)),
            None => array_at(*file, key@) is None,
        },
{
    match file.metadata.get(key) {
        Some(v) => v.as_array(),
        None => None,
    }
}

/// The count under a key, or zero.
fn read_id(file: &GgufFile<'_>, key: &str) -> (r: u32)
    ensures
        r == id_at(*file, key@),
{
    match file.meta_u32(key) {
        Some(n) => n,
        None => match file.meta_u64(key) {
            Some(n) =>
            #[verifier::truncate]
            (n as u32),
            None => 0,
        },
    }
}

/// The first error stays, however many items follow.
proof fn lemma_tokens_fail(items: Seq<ValueView>, i: int)
    requires
        0 <= i <= items.len(),
        tokens_of(items.take(i)) is Err,
    ensures
        tokens_of(items) == tokens_of(items.take(i)),
    decreases items.len() - i,
{
    if i == items.len() {
        assert(items.take(i) =~= items);
    } else {
        assert(items.take(i + 1).drop_last() =~= items.take(i));
        lemma_tokens_fail(items, i + 1);
    }
}

/// The tokens of an array.
fn read_tokens(items: &Vec<Value>) -> (r: Result<Vec<String>, TokenizerError>)
    ensures
        match r {
            Ok(t) => tokens_of(views(items@)) == Ok::<Seq<Seq<char>>, TokenizerErrorView>(
                token_views(t@),
            ),
            Err(e) => tokens_of(views(items@)) == Err::<Seq<Seq<char>>, TokenizerErrorView>(e@),
        },
{
    let ghost all: Seq<ValueView> = views(items@);
    let mut out: Vec<String> = Vec::new();
    let mut i: usize = 0;
    proof {
        assert(all.take(0) =~= Seq::<ValueView>::empty());
        assert(token_views(out@) =~= Seq::<Seq<char>>::empty());
    }
    while i < items.len()
        invariant
            i <= items@.len(),
            all == views(items@),
            tokens_of(all.take(i as int)) == Ok::<Seq<Seq<char>>, TokenizerErrorView>(
                token_views(out@),
            ),
        decreases items@.len() - i,
    {
        proof {
            assert(all.take(i as int + 1).drop_last() =~= all.take(i as int));
            assert(all.take(i as int + 1).last() == items@[i as int]@);
        }
        match items[i].as_str() {
            Some(s) => {
                let ghost before: Seq<String> = out@;
                let t: String = s.to_owned();
                out.push(t);
                proof {
                    assert(token_views(out@) =~= token_views(before).push(t@));
                }
            },
            None => {
                proof {
                    lemma_tokens_fail(all, i as int + 1);
                }
                return Err(TokenizerError::TokenNotString);
            },
        }
        i = i + 1;
    }
    proof {
        assert(all.take(all.len() as int) =~= all);
    }
    Ok(out)
}

/// The number of each token.
fn number_tokens(tokens: &Vec<String>) -> (r: StringHashMap<u32>)
    ensures
        r@ == ids_of(token_views(tokens@)),
{
    let ghost all: Seq<Seq<char>> = token_views(tokens@);
    let mut out: StringHashMap<u32> = StringHashMap::new();
    let mut i: usize = 0;
    proof {
        assert(all.take(0) =~= Seq::<Seq<char>>::empty());
    }
    while i < tokens.len()
        invariant
            i <= tokens@.len(),
            all == token_views(tokens@),
            out@ == ids_of(all.take(i as int)),
        decreases tokens@.len() - i,
    {
        proof {
            assert(all.take(i as int + 1).drop_last() =~= all.take(i as int));
            assert(all.take(i as int + 1).last() == tokens@[i as int]@);
        }
        if !out.contains_key(tokens[i].as_str()) {
            out.insert(
                tokens[i].as_str().to_owned(),
                #[verifier::truncate]
                (i as u32),
            );
        }
        i = i + 1;
    }
    proof {
        assert(all.take(all.len() as int) =~= all);
    }
    out
}

/// The first error stays, however many items follow.
proof fn lemma_merges_fail(items: Seq<ValueView>, i: int)
    requires
        0 <= i <= items.len(),
        merges_of(items.take(i)) is Err,
    ensures
        merges_of(items) == merges_of(items.take(i)),
    decreases items.len() - i,
{
    if i == items.len() {
        assert(items.take(i) =~= items);
    } else {
        assert(items.take(i + 1).drop_last() =~= items.take(i));
        lemma_merges_fail(items, i + 1);
    }
}

/// Whether a character occurs.
fn has_char(v: &[char], c: char) -> (r: bool)
    ensures
        r == v@.contains(c),
{
    let mut i: usize = 0;
    while i < v.len()
        invariant
            i <= v@.len(),
            forall|k: int| 0 <= k < i ==> v@[k] != c,
        decreases v@.len() - i,
    {
        if v[i] == c {
            assert(v@[i as int] == c);
            return true;
        }
        i = i + 1;
    }
    false
}

/// The ranks of the merges of an array.
fn read_merges(items: &Vec<Value>) -> (r: Result<StringHashMap<u32>, TokenizerError>)
    ensures
        match r {
            Ok(m) => merges_of(views(items@)) == Ok::<Map<Seq<char>, u32>, TokenizerErrorView>(m@),
            Err(e) => merges_of(views(items@)) == Err::<Map<Seq<char>, u32>, TokenizerErrorView>(
                e@,
            ),
        },
{
    let ghost all: Seq<ValueView> = views(items@);
    let mut out: StringHashMap<u32> = StringHashMap::new();
    let mut i: usize = 0;
    proof {
        assert(all.take(0) =~= Seq::<ValueView>::empty());
    }
    while i < items.len()
        invariant
            i <= items@.len(),
            all == views(items@),
            merges_of(all.take(i as int)) == Ok::<Map<Seq<char>, u32>, TokenizerErrorView>(out@),
        decreases items@.len() - i,
    {
        proof {
            assert(all.take(i as int + 1).drop_last() =~= all.take(i as int));
            assert(all.take(i as int + 1).last() == items@[i as int]@);
            if merges_of(all.take(i as int + 1)) is Err {
                lemma_merges_fail(all, i as int + 1);
            }
        }
        match items[i].as_str() {
            Some(s) => {
                let chars: Vec<char> = chars_of(s);
                if !has_char(&chars, ' ') {
                    return Err(TokenizerError::BadMerge(s.to_owned()));
                }
                out.insert(
                    s.to_owned(),
                    #[verifier::truncate]
                    (i as u32),
                );
            },
            None => {
                return Err(TokenizerError::MergeNotString);
            },
        }
        i = i + 1;
    }
    proof {
        assert(all.take(all.len() as int) =~= all);
    }
    Ok(out)
}

/// The scores of an array.
fn read_scores(items: &Vec<Value>) -> (r: Vec<FloatBits>)
    ensures
        r@ == views(items@).map_values(|v: ValueView| score_of(v)),
{
    let mut out: Vec<FloatBits> = Vec::new();
    let mut i: usize = 0;
    while i < items.len()
        invariant
            i <= items@.len(),
            out@.len() == i,
            forall|k: int| 0 <= k < i ==> #[trigger] out@[k] == score_of(items@[k]@),
        decreases items@.len() - i,
    {
        out.push(
            match items[i].as_f32() {
                Some(f) => f,
                None => FloatBits::Single(NO_SCORE),
            },
        );
        i = i + 1;
    }
    proof {
        assert(out@ =~= views(items@).map_values(|v: ValueView| score_of(v)));
    }
    out
}

/// As many scores of zero.
fn zero_scores(n: usize) -> (r: Vec<FloatBits>)
    ensures
        r@ == Seq::new(n as nat, |i: int| FloatBits::Single(0)),
{
    let mut out: Vec<FloatBits> = Vec::new();
    while out.len() < n
        invariant
            out@.len() <= n,
            forall|k: int| 0 <= k < out@.len() ==> out@[k] == FloatBits::Single(0),
        decreases n - out@.len(),
    {
        out.push(FloatBits::Single(0));
    }
    proof {
        assert(out@ =~= Seq::new(n as nat, |i: int| FloatBits::Single(0)));
    }
    out
}

/// Bytes of a text.
fn byte_len(s: &str) -> (r: usize)
    ensures
        r == encode_utf8(s@).len(),
{
    let b: &[u8] = s.as_bytes();
    b.len()
}

/// Bytes of the longest token.
fn longest_token(tokens: &Vec<String>) -> (r: usize)
    ensures
        r == longest_bytes(token_views(tokens@)),
{
    let ghost all: Seq<Seq<char>> = token_views(tokens@);
    if tokens.len() == 0 {
        return 1;
    }
    let mut best: usize = byte_len(tokens[0].as_str());
    let mut i: usize = 1;
    proof {
        assert(all.take(1)[0] == tokens@[0]@);
    }
    while i < tokens.len()
        invariant
            1 <= i <= tokens@.len(),
            all == token_views(tokens@),
            best == longest_bytes(all.take(i as int)),
        decreases tokens@.len() - i,
    {
        proof {
            assert(all.take(i as int + 1).drop_last() =~= all.take(i as int));
            assert(all.take(i as int + 1).last() == tokens@[i as int]@);
        }
        let n: usize = byte_len(tokens[i].as_str());
        if n > best {
            best = n;
        }
        i = i + 1;
    }
    proof {
        assert(all.take(all.len() as int) =~= all);
    }
    best
}

/// The words of a list are its texts, in their order, and there are words exactly where
/// every item is a text.
pub proof fn law_tokens_are_texts(items: Seq<ValueView>)
    ensures
        tokens_of(items) is Ok <==> forall|i: int|
            0 <= i < items.len() ==> (#[trigger] items[i]).as_str() is Some,
        tokens_of(items) is Err ==> tokens_of(items)->Err_0 == TokenizerErrorView::TokenNotString,
        tokens_of(items) is Ok ==> {
            let words = tokens_of(items)->Ok_0;
            &&& words.len() == items.len()
            &&& forall|i: int|
                0 <= i < items.len() ==> items[i].as_str() == Some(#[trigger] words[i])
        },
    decreases items.len(),
{
    if items.len() > 0 {
        let before = items.drop_last();
        law_tokens_are_texts(before);
        assert(forall|i: int| 0 <= i < before.len() ==> before[i] == items[i]);
        assert(items[items.len() - 1] == items.last());
    }
}

/// The number of a word is the first place that it has.
pub proof fn law_first_place_wins(tokens: Seq<Seq<char>>, t: Seq<char>)
    requires
        tokens.len() <= u32::MAX,
    ensures
        ids_of(tokens).contains_key(t) <==> tokens.contains(t),
        ids_of(tokens).contains_key(t) ==> {
            let n = ids_of(tokens)[t];
            &&& n < tokens.len()
            &&& tokens[n as int] == t
            &&& forall|j: int| 0 <= j < n ==> #[trigger] tokens[j] != t
        },
    decreases tokens.len(),
{
    if tokens.len() > 0 {
        let before = tokens.drop_last();
        law_first_place_wins(before, t);
        assert(forall|i: int| 0 <= i < before.len() ==> before[i] == tokens[i]);
        assert(tokens[tokens.len() - 1] == tokens.last());
        if before.contains(t) {
            assert(tokens.contains(t));
        }
        if tokens.contains(t) && !before.contains(t) {
            assert forall|j: int| 0 <= j < before.len() implies #[trigger] tokens[j] != t by {
                assert(before[j] == tokens[j]);
            }
        }
    }
}

/// The rank of a merge is the last place that it has in the list: an earlier place is a
/// lower rank, and merges are refused exactly where an item is no text or has no space.
pub proof fn law_merge_ranks(items: Seq<ValueView>, m: Seq<char>)
    requires
        items.len() <= u32::MAX,
    ensures
        merges_of(items) is Ok <==> forall|i: int|
            0 <= i < items.len() ==> (#[trigger] items[i]).as_str() is Some
                && items[i].as_str()->0.contains(' '),
        merges_of(items) is Ok ==> {
            let ranks = merges_of(items)->Ok_0;
            &&& ranks.contains_key(m) <==> exists|i: int|
                0 <= i < items.len() && (#[trigger] items[i]).as_str() == Some(m)
            &&& ranks.contains_key(m) ==> {
                &&& ranks[m] < items.len()
                &&& items[ranks[m] as int].as_str() == Some(m)
                &&& forall|j: int|
                    ranks[m] < j < items.len() ==> (#[trigger] items[j]).as_str() != Some(m)
            }
        },
    decreases items.len(),
{
    if items.len() > 0 {
        let before = items.drop_last();
        law_merge_ranks(before, m);
        assert(forall|i: int| 0 <= i < before.len() ==> before[i] == items[i]);
        assert(items[items.len() - 1] == items.last());
        if merges_of(items) is Ok && merges_of(before)->Ok_0.contains_key(m) {
            let k = merges_of(before)->Ok_0[m] as int;
            assert(items[k].as_str() == Some(m));
        }
    }
}

/// No word has more bytes than the longest, and some word has as many.
pub proof fn law_longest_word(tokens: Seq<Seq<char>>, i: int)
    requires
        0 <= i < tokens.len(),
    ensures
        encode_utf8(tokens[i]).len() <= longest_bytes(tokens),
        exists|k: int|
            0 <= k < tokens.len() && encode_utf8(#[trigger] tokens[k]).len() == longest_bytes(
                tokens,
            ),
    decreases tokens.len(),
{
    if tokens.len() > 1 {
        let before = tokens.drop_last();
        law_longest_word(
            before,
            if i < before.len() {
                i
            } else {
                0
            },
        );
        let k = choose|k: int|
            0 <= k < before.len() && encode_utf8(#[trigger] before[k]).len() == longest_bytes(
                before,
            );
        assert(tokens[k] == before[k]);
        assert(tokens[tokens.len() - 1] == tokens.last());
    } else {
        assert(tokens[0] == tokens[i]);
    }
}

} // verus!
