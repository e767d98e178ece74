//! Little-endian numbers and strings read from a byte slice.
use crate::gguf::error::{GgufError, GgufErrorView};
use crate::text::{decimal, push_decimal};
use byteorder::{LittleEndian, ReadBytesExt};
use vstd::prelude::*;
use vstd::utf8::{decode_utf8, encode_utf8, valid_utf8};

verus! {

/// The number whose base-256 digits are `b`, the lowest digit first.
pub open spec fn little_endian(b: Seq<u8>) -> nat
    decreases b.len(),
{
    if b.len() == 0 {
        0
    } else {
        b[0] as nat + 256 * little_endian(b.drop_first())
    }
}

/// The `n` bytes of `s` from `pos` on, as a little-endian number.
pub open spec fn number_at(s: Seq<u8>, pos: int, n: int) -> nat {
    little_endian(s.subrange(pos, pos + n))
}

/// Two's complement: `v` as a signed number, where `half` is half of the range.
pub open spec fn signed(v: nat, half: nat) -> int {
    if v >= half {
        v - 2 * half
    } else {
        v as int
    }
}

/// `ReadBytesExt::read_u8` of `byteorder` on the bytes from `pos` on: the next
/// byte, or nothing at the end.
#[verifier::external_body]
fn next_u8(bytes: &[u8], pos: usize) -> (r: Option<u8>)
    requires
        pos <= bytes@.len(),
    ensures
        r == (if bytes@.len() - pos >= 1 {
            Some(bytes@[pos as int])
        } else {
            None
        }),
{
    let mut rest = &bytes[pos..];
    rest.read_u8().ok()
}

/// `ReadBytesExt::read_i8` of `byteorder` on the bytes from `pos` on: the next
/// byte in two's complement, or nothing at the end.
#[verifier::external_body]
fn next_i8(bytes: &[u8], pos: usize) -> (r: Option<i8>)
    requires
        pos <= bytes@.len(),
    ensures
        match r {
            Some(v) => bytes@.len() - pos >= 1 && v == signed(bytes@[pos as int] as nat, 0x80),
            None => bytes@.len() - pos < 1,
        },
{
    let mut rest = &bytes[pos..];
    rest.read_i8().ok()
}

/// `ReadBytesExt::read_u16::<LittleEndian>` of `byteorder` on the bytes from
/// `pos` on: two bytes as a number, or nothing where fewer are left.
#[verifier::external_body]
fn next_u16(bytes: &[u8], pos: usize) -> (r: Option<u16>)
    requires
        pos <= bytes@.len(),
    ensures
        match r {
            Some(v) => bytes@.len() - pos >= 2 && v == number_at(bytes@, pos as int, 2),
            None => bytes@.len() - pos < 2,
        },
{
    let mut rest = &bytes[pos..];
    rest.read_u16::<LittleEndian>().ok()
}

/// `ReadBytesExt::read_i16::<LittleEndian>` of `byteorder` on the bytes from
/// `pos` on: two bytes in two's complement, or nothing where fewer are left.
#[verifier::external_body]
fn next_i16(bytes: &[u8], pos: usize) -> (r: Option<i16>)
    requires
        pos <= bytes@.len(),
    ensures
        match r {
            Some(v) => bytes@.len() - pos >= 2 && v == signed(
                number_at(bytes@, pos as int, 2),
                0x8000,
            ),
            None => bytes@.len() - pos < 2,
        },
{
    let mut rest = &bytes[pos..];
    rest.read_i16::<LittleEndian>().ok()
}

/// `ReadBytesExt::read_u32::<LittleEndian>` of `byteorder` on the bytes from
/// `pos` on: four bytes as a number, or nothing where fewer are left.
#[verifier::external_body]
fn next_u32(bytes: &[u8], pos: usize) -> (r: Option<u32>)
    requires
        pos <= bytes@.len(),
    ensures
        match r {
            Some(v) => bytes@.len() - pos >= 4 && v == number_at(bytes@, pos as int, 4),
            None => bytes@.len() - pos < 4,
        },
{
    let mut rest = &bytes[pos..];
    rest.read_u32::<LittleEndian>().ok()
}

/// `ReadBytesExt::read_i32::<LittleEndian>` of `byteorder` on the bytes from
/// `pos` on: four bytes in two's complement, or nothing where fewer are left.
#[verifier::external_body]
fn next_i32(bytes: &[u8], pos: usize) -> (r: Option<i32>)
    requires
        pos <= bytes@.len(),
    ensures
        match r {
            Some(v) => bytes@.len() - pos >= 4 && v == signed(
                number_at(bytes@, pos as int, 4),
                0x8000_0000,
            ),
            None => bytes@.len() - pos < 4,
        },
{
    let mut rest = &bytes[pos..];
    rest.read_i32::<LittleEndian>().ok()
}

/// `ReadBytesExt::read_u64::<LittleEndian>` of `byteorder` on the bytes from
/// `pos` on: eight bytes as a number, or nothing where fewer are left.
#[verifier::external_body]
fn next_u64(bytes: &[u8], pos: usize) -> (r: Option<u64>)
    requires
        pos <= bytes@.len(),
    ensures
        match r {
            Some(v) => bytes@.len() - pos >= 8 && v == number_at(bytes@, pos as int, 8),
            None => bytes@.len() - pos < 8,
        },
{
    let mut rest = &bytes[pos..];
    rest.read_u64::<LittleEndian>().ok()
}

/// `ReadBytesExt::read_i64::<LittleEndian>` of `byteorder` on the bytes from
/// `pos` on: eight bytes in two's complement, or nothing where fewer are left.
#[verifier::external_body]
fn next_i64(bytes: &[u8], pos: usize) -> (r: Option<i64>)
    requires
        pos <= bytes@.len(),
    ensures
        match r {
            Some(v) => bytes@.len() - pos >= 8 && v == signed(
                number_at(bytes@, pos as int, 8),
                0x8000_0000_0000_0000,
            ),
            None => bytes@.len() - pos < 8,
        },
{
    let mut rest = &bytes[pos..];
    rest.read_i64::<LittleEndian>().ok()
}

/// `String::from_utf8`: the text that the bytes encode, or nothing where they
/// are not UTF-8.
#[verifier::external_body]
pub(crate) fn utf8_string(bytes: Vec<u8>) -> (r: Option<String>)
    ensures
        match r {
            Some(s) => valid_utf8(bytes@) && s@ == decode_utf8(bytes@),
            None => !valid_utf8(bytes@),
        },
{
    String::from_utf8(bytes).ok()
}

/// A place in a byte slice.
pub struct Cursor<'a> {
    pub bytes: &'a [u8],
    pub pos: usize,
}

/// What reading gives: a value and the place after it, or an error.
pub type Parsed<T> = Result<(T, int), GgufErrorView>;

/// Whether `r` and the place after it are what `want` says.
pub open spec fn meets<T>(
    want: Parsed<T>,
    before: Cursor<'_>,
    after: Cursor<'_>,
    r: Result<T, GgufError>,
) -> bool {
    &&& after.bytes == before.bytes
    &&& after.wf()
    &&& match r {
        Ok(v) => want == Parsed::<T>::Ok((v, after.pos as int)),
        Err(e) => want == Parsed::<T>::Err(e@),
    }
}

/// Nothing but the end of the bytes stands against reading `n` of them.
pub open spec fn at_end<T>(context: Seq<char>) -> Parsed<T> {
    Err(GgufErrorView::UnexpectedEof { context })
}

/// Reading a `u8`.
pub open spec fn u8_at(s: Seq<u8>, pos: int, context: Seq<char>) -> Parsed<u8> {
    if s.len() - pos >= 1 {
        Ok((s[pos], pos + 1))
    } else {
        at_end(context)
    }
}

/// Reading an `i8`.
pub open spec fn i8_at(s: Seq<u8>, pos: int, context: Seq<char>) -> Parsed<i8> {
    if s.len() - pos >= 1 {
        Ok((signed(s[pos] as nat, 0x80) as i8, pos + 1))
    } else {
        at_end(context)
    }
}

/// Reading a `u16`.
pub open spec fn u16_at(s: Seq<u8>, pos: int, context: Seq<char>) -> Parsed<u16> {
    if s.len() - pos >= 2 {
        Ok((number_at(s, pos, 2) as u16, pos + 2))
    } else {
        at_end(context)
    }
}

/// Reading an `i16`.
pub open spec fn i16_at(s: Seq<u8>, pos: int, context: Seq<char>) -> Parsed<i16> {
    if s.len() - pos >= 2 {
        Ok((signed(number_at(s, pos, 2), 0x8000) as i16, pos + 2))
    } else {
        at_end(context)
    }
}

/// Reading a `u32`.
pub open spec fn u32_at(s: Seq<u8>, pos: int, context: Seq<char>) -> Parsed<u32> {
    if s.len() - pos >= 4 {
        Ok((number_at(s, pos, 4) as u32, pos + 4))
    } else {
        at_end(context)
    }
}

/// Reading an `i32`.
pub open spec fn i32_at(s: Seq<u8>, pos: int, context: Seq<char>) -> Parsed<i32> {
    if s.len() - pos >= 4 {
        Ok((signed(number_at(s, pos, 4), 0x8000_0000) as i32, pos + 4))
    } else {
        at_end(context)
    }
}

/// Reading a `u64`.
pub open spec fn u64_at(s: Seq<u8>, pos: int, context: Seq<char>) -> Parsed<u64> {
    if s.len() - pos >= 8 {
        Ok((number_at(s, pos, 8) as u64, pos + 8))
    } else {
        at_end(context)
    }
}

/// Reading an `i64`.
pub open spec fn i64_at(s: Seq<u8>, pos: int, context: Seq<char>) -> Parsed<i64> {
    if s.len() - pos >= 8 {
        Ok((signed(number_at(s, pos, 8), 0x8000_0000_0000_0000) as i64, pos + 8))
    } else {
        at_end(context)
    }
}

/// The longest string that a file may hold, in bytes.
pub const MAX_STRING: u64 = 67_108_864;

/// Reading a string: its length in bytes, then its bytes.
pub open spec fn string_at(s: Seq<u8>, pos: int) -> Parsed<Seq<char>> {
    match u64_at(s, pos, "string length"@) {
        Err(e) => Err(e),
        Ok((len, p)) => if len > MAX_STRING {
            Err(
                GgufErrorView::Malformed(
                    "string length "@ + decimal(len as nat) + " is unreasonably large"@,
                ),
            )
        } else if s.len() - p < len {
            at_end("string bytes"@)
        } else if !valid_utf8(s.subrange(p, p + len)) {
            Err(GgufErrorView::InvalidUtf8 { context: "metadata/tensor name"@ })
        } else {
            Ok((decode_utf8(s.subrange(p, p + len)), p + len))
        },
    }
}

impl<'a> Cursor<'a> {
    /// The place lies in the bytes or at their end.
    pub open spec fn wf(self) -> bool {
        self.pos <= self.bytes@.len()
    }

    /// The start of `bytes`.
    pub fn new(bytes: &'a [u8]) -> (r: Cursor<'a>)
        ensures
            r.wf(),
            r.bytes == bytes,
            r.pos == 0,
    {
        Cursor { bytes, pos: 0 }
    }

    /// Reads a `u8`; `context` names it in an error.
    pub fn read_u8(&mut self, context: &'static str) -> (r: Result<u8, GgufError>)
        requires
            old(self).wf(),
        ensures
            meets(
                u8_at(old(self).bytes@, old(self).pos as int, context@),
                *old(self),
                *final(self),
                r,
            ),
    {
        match next_u8(self.bytes, self.pos) {
            Some(v) => {
                assert(self.bytes.len() == self.bytes@.len());
                self.pos = self.pos + 1;
                Ok(v)
            },
            None => Err(GgufError::UnexpectedEof { context }),
        }
    }

    /// Reads an `i8`; `context` names it in an error.
    pub fn read_i8(&mut self, context: &'static str) -> (r: Result<i8, GgufError>)
        requires
            old(self).wf(),
        ensures
            meets(
                i8_at(old(self).bytes@, old(self).pos as int, context@),
                *old(self),
                *final(self),
                r,
            ),
    {
        match next_i8(self.bytes, self.pos) {
            Some(v) => {
                assert(self.bytes.len() == self.bytes@.len());
                self.pos = self.pos + 1;
                Ok(v)
            },
            None => Err(GgufError::UnexpectedEof { context }),
        }
    }

    /// Reads a `u16`; `context` names it in an error.
    pub fn read_u16(&mut self, context: &'static str) -> (r: Result<u16, GgufError>)
        requires
            old(self).wf(),
        ensures
            meets(
                u16_at(old(self).bytes@, old(self).pos as int, context@),
                *old(self),
                *final(self),
                r,
            ),
    {
        match next_u16(self.bytes, self.pos) {
            Some(v) => {
                assert(self.bytes.len() == self.bytes@.len());
                self.pos = self.pos + 2;
                Ok(v)
            },
            None => Err(GgufError::UnexpectedEof { context }),
        }
    }

    /// Reads an `i16`; `context` names it in an error.
    pub fn read_i16(&mut self, context: &'static str) -> (r: Result<i16, GgufError>)
        requires
            old(self).wf(),
        ensures
            meets(
                i16_at(old(self).bytes@, old(self).pos as int, context@),
                *old(self),
                *final(self),
                r,
            ),
    {
        match next_i16(self.bytes, self.pos) {
            Some(v) => {
                assert(self.bytes.len() == self.bytes@.len());
                self.pos = self.pos + 2;
                Ok(v)
            },
            None => Err(GgufError::UnexpectedEof { context }),
        }
    }

    /// Reads a `u32`; `context` names it in an error.
    pub fn read_u32(&mut self, context: &'static str) -> (r: Result<u32, GgufError>)
        requires
            old(self).wf(),
        ensures
            meets(
                u32_at(old(self).bytes@, old(self).pos as int, context@),
                *old(self),
                *final(self),
                r,
            ),
    {
        match next_u32(self.bytes, self.pos) {
            Some(v) => {
                assert(self.bytes.len() == self.bytes@.len());
                self.pos = self.pos + 4;
                Ok(v)
            },
            None => Err(GgufError::UnexpectedEof { context }),
        }
    }

    /// Reads an `i32`; `context` names it in an error.
    pub fn read_i32(&mut self, context: &'static str) -> (r: Result<i32, GgufError>)
        requires
            old(self).wf(),
        ensures
            meets(
                i32_at(old(self).bytes@, old(self).pos as int, context@),
                *old(self),
                *final(self),
                r,
            ),
    {
        match next_i32(self.bytes, self.pos) {
            Some(v) => {
                assert(self.bytes.len() == self.bytes@.len());
                self.pos = self.pos + 4;
                Ok(v)
            },
            None => Err(GgufError::UnexpectedEof { context }),
        }
    }

    /// Reads a `u64`; `context` names it in an error.
    pub fn read_u64(&mut self, context: &'static str) -> (r: Result<u64, GgufError>)
        requires
            old(self).wf(),
        ensures
            meets(
                u64_at(old(self).bytes@, old(self).pos as int, context@),
                *old(self),
                *final(self),
                r,
            ),
    {
        match next_u64(self.bytes, self.pos) {
            Some(v) => {
                assert(self.bytes.len() == self.bytes@.len());
                self.pos = self.pos + 8;
                Ok(v)
            },
            None => Err(GgufError::UnexpectedEof { context }),
        }
    }

    /// Reads an `i64`; `context` names it in an error.
    pub fn read_i64(&mut self, context: &'static str) -> (r: Result<i64, GgufError>)
        requires
            old(self).wf(),
        ensures
            meets(
                i64_at(old(self).bytes@, old(self).pos as int, context@),
                *old(self),
                *final(self),
                r,
            ),
    {
        match next_i64(self.bytes, self.pos) {
            Some(v) => {
                assert(self.bytes.len() == self.bytes@.len());
                self.pos = self.pos + 8;
                Ok(v)
            },
            None => Err(GgufError::UnexpectedEof { context }),
        }
    }
}

/// Whether the text `r` and the place after it are what `want` says.
pub open spec fn meets_text(
    want: Parsed<Seq<char>>,
    before: Cursor<'_>,
    after: Cursor<'_>,
    r: Result<String, GgufError>,
) -> bool {
    &&& after.bytes == before.bytes
    &&& after.wf()
    &&& match r {
        Ok(v) => want == Parsed::<Seq<char>>::Ok((v@, after.pos as int)),
        Err(e) => want == Parsed::<Seq<char>>::Err(e@),
    }
}

/// Reads a string.
pub fn read_string(r: &mut Cursor<'_>) -> (out: Result<String, GgufError>)
    requires
        old(r).wf(),
    ensures
        meets_text(string_at(old(r).bytes@, old(r).pos as int), *old(r), *final(r), out),
{
    let len: u64 = match r.read_u64("string length") {
        Ok(n) => n,
        Err(e) => {
            return Err(e);
        },
    };
    if len > MAX_STRING {
        let mut why: String = String::new();
        why.append("string length ");
        push_decimal(&mut why, len);
        why.append(" is unreasonably large");
        proof {
            assert(why@ == "string length "@ + decimal(len as nat) + " is unreasonably large"@);
        }
        return Err(GgufError::Malformed(why));
    }
    let left: usize = r.bytes.len() - r.pos;
    if (left as u64) < len {
        return Err(GgufError::UnexpectedEof { context: "string bytes" });
    }
    let n: usize = len as usize;
    let chunk: &[u8] = vstd::slice::slice_subrange(r.bytes, r.pos, r.pos + n);
    match utf8_string(vstd::slice::slice_to_vec(chunk)) {
        Some(s) => {
            r.pos = r.pos + n;
            Ok(s)
        },
        None => Err(GgufError::InvalidUtf8 { context: "metadata/tensor name" }),
    }
}

/// The first byte of a number counts ones, and each byte counts as much as 256 of the
/// byte before it.
pub proof fn law_numbers_in_bytes(s: Seq<u8>, pos: int, context: Seq<char>)
    requires
        0 <= pos,
    ensures
        pos + 1 <= s.len() ==> u8_at(s, pos, context) == Parsed::<u8>::Ok((s[pos], pos + 1)),
        pos + 2 <= s.len() ==> {
            let r = u16_at(s, pos, context);
            r is Ok && r->Ok_0.0 == s[pos] + 256 * s[pos + 1] && r->Ok_0.1 == pos + 2
        },
        pos + 4 <= s.len() ==> {
            let r = u32_at(s, pos, context);
            r is Ok && r->Ok_0.0 == s[pos] + 256 * s[pos + 1] + 65536 * s[pos + 2] + 16777216 * s[pos
                + 3] && r->Ok_0.1 == pos + 4
        },
        pos + 8 <= s.len() ==> {
            let r = u64_at(s, pos, context);
            r is Ok && r->Ok_0.0 == s[pos] + 256 * s[pos + 1] + 65536 * s[pos + 2] + 16777216 * s[pos
                + 3] + 4294967296 * (s[pos + 4] + 256 * s[pos + 5] + 65536 * s[pos + 6] + 16777216
                * s[pos + 7]) && r->Ok_0.1 == pos + 8
        },
        pos + 1 > s.len() ==> u8_at(s, pos, context) is Err,
        pos + 2 > s.len() ==> u16_at(s, pos, context) is Err,
        pos + 4 > s.len() ==> u32_at(s, pos, context) is Err,
        pos + 8 > s.len() ==> u64_at(s, pos, context) is Err,
{
    if pos + 2 <= s.len() {
        lemma_little_two(s.subrange(pos, pos + 2));
    }
    if pos + 4 <= s.len() {
        lemma_little_four(s.subrange(pos, pos + 4));
    }
    if pos + 8 <= s.len() {
        lemma_little_eight(s.subrange(pos, pos + 8));
    }
}

proof fn lemma_little_two(b: Seq<u8>)
    requires
        b.len() == 2,
    ensures
        little_endian(b) == b[0] + 256 * b[1],
{
    let c = b.drop_first();
    assert(c[0] == b[1]);
    let d = c.drop_first();
    assert(d.len() == 0);
    assert(little_endian(d) == 0);
    assert(little_endian(c) == b[1]);
}

proof fn lemma_little_four(b: Seq<u8>)
    requires
        b.len() == 4,
    ensures
        little_endian(b) == b[0] + 256 * b[1] + 65536 * b[2] + 16777216 * b[3],
{
    let c = b.drop_first();
    let d = c.drop_first();
    assert(c[0] == b[1] && d[0] == b[2] && d[1] == b[3]);
    lemma_little_two(d);
    assert(little_endian(c) == c[0] + 256 * little_endian(d));
    assert(little_endian(b) == b[0] + 256 * little_endian(c));
}

proof fn lemma_little_eight(b: Seq<u8>)
    requires
        b.len() == 8,
    ensures
        little_endian(b) == b[0] + 256 * b[1] + 65536 * b[2] + 16777216 * b[3] + 4294967296 * (b[4]
            + 256 * b[5] + 65536 * b[6] + 16777216 * b[7]),
{
    let c = b.drop_first();
    let d = c.drop_first();
    let e = d.drop_first();
    let f = e.drop_first();
    assert(c[0] == b[1] && d[0] == b[2] && e[0] == b[3]);
    assert(f[0] == b[4] && f[1] == b[5] && f[2] == b[6] && f[3] == b[7]);
    lemma_little_four(f);
    assert(little_endian(e) == e[0] + 256 * little_endian(f));
    assert(little_endian(d) == d[0] + 256 * little_endian(e));
    assert(little_endian(c) == c[0] + 256 * little_endian(d));
    assert(little_endian(b) == b[0] + 256 * little_endian(c));
}

/// A signed number has the bytes of the unsigned one that differs from it by a whole
/// turn, and is negative where the highest bit is set.
pub proof fn law_signed_numbers(s: Seq<u8>, pos: int, context: Seq<char>)
    requires
        0 <= pos,
    ensures
        pos + 1 <= s.len() ==> {
            let u = u8_at(s, pos, context)->Ok_0.0;
            let r = i8_at(s, pos, context);
            r is Ok && r->Ok_0.1 == pos + 1 && r->Ok_0.0 == (if u >= 128 {
                u - 256
            } else {
                u as int
            })
        },
        pos + 2 <= s.len() ==> {
            let u = u16_at(s, pos, context)->Ok_0.0;
            let r = i16_at(s, pos, context);
            r is Ok && r->Ok_0.1 == pos + 2 && r->Ok_0.0 == (if u >= 0x8000 {
                u - 0x1_0000
            } else {
                u as int
            })
        },
        pos + 4 <= s.len() ==> {
            let u = u32_at(s, pos, context)->Ok_0.0;
            let r = i32_at(s, pos, context);
            r is Ok && r->Ok_0.1 == pos + 4 && r->Ok_0.0 == (if u >= 0x8000_0000 {
                u - 0x1_0000_0000
            } else {
                u as int
            })
        },
        pos + 8 <= s.len() ==> {
            let u = u64_at(s, pos, context)->Ok_0.0;
            let r = i64_at(s, pos, context);
            r is Ok && r->Ok_0.1 == pos + 8 && r->Ok_0.0 == (if u >= 0x8000_0000_0000_0000 {
                u - 0x1_0000_0000_0000_0000
            } else {
                u as int
            })
        },
{
    law_numbers_in_bytes(s, pos, context);
    if pos + 2 <= s.len() {
        lemma_little_two(s.subrange(pos, pos + 2));
    }
    if pos + 4 <= s.len() {
        lemma_little_four(s.subrange(pos, pos + 4));
    }
    if pos + 8 <= s.len() {
        lemma_little_eight(s.subrange(pos, pos + 8));
    }
}

/// A text is written as the number of its bytes, in eight bytes, and then its bytes; it
/// is read back as it was, and what follows it begins right behind it.
pub proof fn law_text_is_read_back(s: Seq<u8>, pos: int, text: Seq<char>)
    requires
        0 <= pos,
        encode_utf8(text).len() <= 67_108_864,
        pos + 8 + encode_utf8(text).len() <= s.len(),
        s[pos] + 256 * s[pos + 1] + 65536 * s[pos + 2] + 16777216 * s[pos + 3] == encode_utf8(
            text,
        ).len(),
        s[pos + 4] == 0 && s[pos + 5] == 0 && s[pos + 6] == 0 && s[pos + 7] == 0,
        s.subrange(pos + 8, pos + 8 + encode_utf8(text).len()) == encode_utf8(text),
    ensures
        string_at(s, pos) == Parsed::<Seq<char>>::Ok((text, pos + 8 + encode_utf8(text).len())),
{
    law_numbers_in_bytes(s, pos, "string length"@);
    vstd::utf8::encode_utf8_valid_utf8(text);
    vstd::utf8::encode_utf8_decode_utf8(text);
}

/// What was read of a text lies between the place and the end, behind its length.
pub proof fn law_text_in_bytes(s: Seq<u8>, pos: int)
    requires
        0 <= pos,
    ensures
        string_at(s, pos) matches Ok((text, end)) ==> {
            let n = u64_at(s, pos, "string length"@)->Ok_0.0;
            &&& pos + 8 <= s.len()
            &&& end == pos + 8 + n
            &&& end <= s.len()
            &&& valid_utf8(s.subrange(pos + 8, end))
            &&& text == decode_utf8(s.subrange(pos + 8, end))
        },
{
}

} // verus!
