//! Bytes as printable characters, so that every text is a text without
//! control characters and spaces.
use crate::text::string_of;
use vstd::prelude::*;
use vstd::utf8::{decode_utf8, encode_utf8, encode_utf8_decode_utf8, encode_utf8_valid_utf8, valid_utf8};

verus! {

/// `char::from_u32`: the character of a number, and none for a number above
/// `0x10ffff` or between `0xd800` and `0xdfff`.
pub assume_specification[ char::from_u32 ](i: u32) -> (r: Option<char>)
    ensures
        match r {
            Some(c) => c as u32 == i,
            None => i > 0x10_ffff || 0xd800 <= i <= 0xdfff,
        },
;

/// Whether a byte stands for itself.
pub open spec fn prints(b: int) -> bool {
    33 <= b <= 126 || 161 <= b <= 172 || 174 <= b <= 255
}

/// The number of the character that stands for a byte: the byte itself, or the
/// next number from 256 on.
pub open spec fn code_of(b: int) -> int {
    if prints(b) {
        b
    } else if b <= 32 {
        256 + b
    } else if b <= 160 {
        289 + (b - 127)
    } else {
        323
    }
}

/// The character that stands for a byte.
pub open spec fn char_of(b: u8) -> char {
    code_of(b as int) as char
}

/// The byte that a character stands for, where it stands for one.
pub open spec fn byte_of(c: char) -> Option<u8> {
    let n = c as u32;
    if prints(n as int) {
        Some(n as u8)
    } else if 256 <= n <= 288 {
        Some((n - 256) as u8)
    } else if 289 <= n <= 322 {
        Some((n - 289 + 127) as u8)
    } else if n == 323 {
        Some(173)
    } else {
        None
    }
}

/// The character that stands for a byte.
fn char_of_byte(b: u8) -> (r: char)
    ensures
        r == char_of(b),
{
    let n: u32 = b as u32;
    let code: u32 = if (33 <= n && n <= 126) || (161 <= n && n <= 172) || 174 <= n {
        n
    } else if n <= 32 {
        256 + n
    } else if n <= 160 {
        289 + (n - 127)
    } else {
        323
    };
    match char::from_u32(code) {
        Some(c) => {
            proof {
                vstd::utf8::char_u32_cast(c, code);
                assert(code_of(b as int) == code);
            }
            c
        },
        None => 'x',
    }
}

/// The byte that a character stands for, where it stands for one.
pub fn unicode_to_byte(c: char) -> (r: Option<u8>)
    ensures
        r == byte_of(c),
{
    let n: u32 = c as u32;
    if (33 <= n && n <= 126) || (161 <= n && n <= 172) || (174 <= n && n <= 255) {
        Some(n as u8)
    } else if 256 <= n && n <= 288 {
        Some((n - 256) as u8)
    } else if 289 <= n && n <= 322 {
        Some((n - 289 + 127) as u8)
    } else if n == 323 {
        Some(173)
    } else {
        None
    }
}

/// The characters that stand for the bytes, by byte.
pub fn bytes_to_unicode() -> (r: Vec<char>)
    ensures
        r@ == Seq::new(256, |b: int| char_of(b as u8)),
{
    let mut table: Vec<char> = Vec::new();
    let mut b: u32 = 0;
    while b < 256
        invariant
            b <= 256,
            table@ == Seq::new(b as nat, |k: int| char_of(k as u8)),
        decreases 256 - b,
    {
        table.push(char_of_byte(b as u8));
        b = b + 1;
        proof {
            assert(table@ =~= Seq::new(b as nat, |k: int| char_of(k as u8)));
        }
    }
    table
}

/// Every character of the table stands for the byte at its place, and no two
/// bytes have the same one.
pub proof fn law_bytes_come_back(b: u8)
    ensures
        byte_of(char_of(b)) == Some(b),
        forall|c: u8| char_of(c) == char_of(b) ==> c == b,
{
    assert forall|c: u8| char_of(c) == char_of(b) implies c == b by {
        assert(byte_of(char_of(c)) == Some(c));
    }
}

/// No byte is written as a space or a control character.
pub proof fn law_no_space(b: u8)
    ensures
        char_of(b) as u32 > 32,
        char_of(b) as u32 != 127,
        char_of(b) != ' ',
{
}

/// A text with its bytes as characters.
pub open spec fn mapped(text: Seq<char>) -> Seq<char> {
    encode_utf8(text).map_values(|b: u8| char_of(b))
}

/// A text with its bytes as characters.
pub fn text_to_bpe_chars(text: &str) -> (r: String)
    ensures
        r@ == mapped(text@),
{
    let chars: Vec<char> = text_to_chars(text);
    string_of(&chars)
}

/// A text with its bytes as characters.
pub fn text_to_chars(text: &str) -> (r: Vec<char>)
    ensures
        r@ == mapped(text@),
{
    let bytes: &[u8] = text.as_bytes();
    let mut out: Vec<char> = Vec::new();
    let mut i: usize = 0;
    while i < bytes.len()
        invariant
            i <= bytes@.len(),
            out@ == bytes@.take(i as int).map_values(|b: u8| char_of(b)),
        decreases bytes@.len() - i,
    {
        out.push(char_of_byte(bytes[i]));
        i = i + 1;
        proof {
            assert(out@ =~= bytes@.take(i as int).map_values(|b: u8| char_of(b)));
        }
    }
    proof {
        assert(bytes@.take(bytes@.len() as int) =~= bytes@);
    }
    out
}

/// The bytes that characters stand for; those that stand for none are left out.
pub open spec fn unmapped(s: Seq<char>) -> Seq<u8>
    decreases s.len(),
{
    if s.len() == 0 {
        Seq::empty()
    } else {
        match byte_of(s.last()) {
            Some(b) => unmapped(s.drop_last()).push(b),
            None => unmapped(s.drop_last()),
        }
    }
}

/// The text of bytes, with a replacement for what is no text.
pub uninterp spec fn lossy(bytes: Seq<u8>) -> Seq<char>;

/// `String::from_utf8_lossy`: the text that the bytes encode; what encodes no
/// text is replaced, which is left to the name. Bytes that encode a text give
/// that text.
#[verifier::external_body]
fn text_of_bytes(bytes: &[u8]) -> (r: String)
    ensures
        r@ == lossy(bytes@),
        valid_utf8(bytes@) ==> r@ == decode_utf8(bytes@),
{
    String::from_utf8_lossy(bytes).into_owned()
}

/// The text of bytes: the text that they encode, or what stands for bytes that
/// encode none.
pub open spec fn shown(bytes: Seq<u8>) -> Seq<char> {
    if valid_utf8(bytes) {
        decode_utf8(bytes)
    } else {
        lossy(bytes)
    }
}

/// The bytes that characters stand for.
pub fn chars_to_bytes(s: &[char]) -> (r: Vec<u8>)
    ensures
        r@ == unmapped(s@),
{
    let mut out: Vec<u8> = Vec::new();
    let mut i: usize = 0;
    proof {
        assert(s@.take(0) =~= Seq::<char>::empty());
    }
    while i < s.len()
        invariant
            i <= s@.len(),
            out@ == unmapped(s@.take(i as int)),
        decreases s@.len() - i,
    {
        proof {
            assert(s@.take(i as int + 1).drop_last() =~= s@.take(i as int));
        }
        match unicode_to_byte(s[i]) {
            Some(b) => {
                out.push(b);
            },
            None => {},
        }
        i = i + 1;
    }
    proof {
        assert(s@.take(s@.len() as int) =~= s@);
    }
    out
}

/// What a text means whose characters stand for bytes.
pub fn bpe_chars_to_text(s: &str) -> (r: String)
    ensures
        r@ == shown(unmapped(s@)),
{
    let chars: Vec<char> = crate::text::chars_of(s);
    let bytes: Vec<u8> = chars_to_bytes(&chars);
    text_of_bytes(&bytes)
}

/// Bytes written as characters are read back.
pub proof fn law_unmapped(bytes: Seq<u8>)
    ensures
        unmapped(bytes.map_values(|b: u8| char_of(b))) == bytes,
    decreases bytes.len(),
{
    let s = bytes.map_values(|b: u8| char_of(b));
    if bytes.len() == 0 {
        assert(s =~= Seq::<char>::empty());
        assert(bytes =~= Seq::<u8>::empty());
    } else {
        law_unmapped(bytes.drop_last());
        assert(s.drop_last() =~= bytes.drop_last().map_values(|b: u8| char_of(b)));
        law_bytes_come_back(bytes.last());
        assert(bytes.drop_last().push(bytes.last()) =~= bytes);
    }
}

/// What [`text_to_bpe_chars`] writes, [`bpe_chars_to_text`] reads back: every
/// text comes back as it was.
pub proof fn law_text_comes_back(text: Seq<char>)
    ensures
        shown(unmapped(mapped(text))) == text,
{
    law_unmapped(encode_utf8(text));
    encode_utf8_valid_utf8(text);
    encode_utf8_decode_utf8(text);
}

/// Characters one after the other stand for their bytes one after the other.
pub proof fn law_unmapped_joins(a: Seq<char>, b: Seq<char>)
    ensures
        unmapped(a + b) == unmapped(a) + unmapped(b),
    decreases b.len(),
{
    if b.len() == 0 {
        assert(a + b =~= a);
        assert(unmapped(a) + unmapped(b) =~= unmapped(a));
    } else {
        law_unmapped_joins(a, b.drop_last());
        assert((a + b).drop_last() =~= a + b.drop_last());
        match byte_of(b.last()) {
            Some(x) => {
                assert((unmapped(a) + unmapped(b.drop_last())).push(x) =~= unmapped(a) + unmapped(
                    b.drop_last(),
                ).push(x));
            },
            None => {},
        }
    }
}

/// Texts one after the other have their bytes one after the other.
proof fn lemma_encode_joins(a: Seq<char>, b: Seq<char>)
    ensures
        encode_utf8(a + b) == encode_utf8(a) + encode_utf8(b),
    decreases a.len(),
{
    if a.len() == 0 {
        assert(a + b =~= b);
        assert(encode_utf8(a) + encode_utf8(b) =~= encode_utf8(b));
    } else {
        lemma_encode_joins(a.drop_first(), b);
        assert((a + b).drop_first() =~= a.drop_first() + b);
        assert((a + b)[0] == a[0]);
        let first = vstd::utf8::encode_scalar(a[0] as u32);
        assert(first + (encode_utf8(a.drop_first()) + encode_utf8(b)) =~= first + encode_utf8(
            a.drop_first(),
        ) + encode_utf8(b));
    }
}

/// Bytes that encode texts, one after the other, encode the texts one after the
/// other.
pub proof fn law_shown_joins(a: Seq<u8>, b: Seq<u8>)
    requires
        valid_utf8(a),
        valid_utf8(b),
    ensures
        valid_utf8(a + b),
        shown(a + b) == shown(a) + shown(b),
{
    let x = decode_utf8(a);
    let y = decode_utf8(b);
    vstd::utf8::decode_utf8_encode_utf8(a);
    vstd::utf8::decode_utf8_encode_utf8(b);
    lemma_encode_joins(x, y);
    encode_utf8_valid_utf8(x + y);
    encode_utf8_decode_utf8(x + y);
}

/// A byte that prints is shown as itself; the others are shown, in their order, as the
/// characters from number 256 on, without a gap.
pub proof fn law_shown_bytes(b: u8, c: u8)
    ensures
        (33 <= b <= 126 || 161 <= b <= 172 || b >= 174) ==> char_of(b) as u32 == b,
        !(33 <= b <= 126 || 161 <= b <= 172 || b >= 174) ==> 256 <= char_of(b) as u32 <= 323,
        b < c && !(33 <= b <= 126 || 161 <= b <= 172 || b >= 174) && !(33 <= c <= 126 || 161 <= c
            <= 172 || c >= 174) ==> (char_of(b) as u32) < (char_of(c) as u32),
{
}

/// The characters of a text are those of its bytes, one for each, in their order.
pub proof fn law_mapped_bytes(text: Seq<char>, i: int)
    ensures
        mapped(text).len() == encode_utf8(text).len(),
        0 <= i < encode_utf8(text).len() ==> mapped(text)[i] == char_of(encode_utf8(text)[i]),
{
}

} // verus!
