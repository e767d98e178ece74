//! Text as sequences of characters: building strings, printing numbers,
//! comparing, trimming and searching.
use vstd::prelude::*;

verus! {

/// A text that may be missing, as a mathematical value.
pub open spec fn maybe_text(s: Option<String>) -> Option<Seq<char>> {
    match s {
        Some(t) => Some(t@),
        None => None,
    }
}

/// `String::push`: the character is added at the end.
pub assume_specification[ std::string::String::push ](s: &mut std::string::String, c: char)
    ensures
        final(s)@ == old(s)@.push(c),
;

/// The characters of `s`, in order.
pub fn chars_of(s: &str) -> (r: Vec<char>)
    ensures
        r@ == s@,
{
    let mut out: Vec<char> = Vec::new();
    for c in it: s.chars()
        invariant
            it.seq() == s@,
            out@ == s@.take(it.index() as int),
    {
        out.push(c);
    }
    proof {
        assert(s@.take(s@.len() as int) == s@);
    }
    out
}

/// The string made of the characters of `v`.
pub fn string_of(v: &[char]) -> (r: String)
    ensures
        r@ == v@,
{
    let mut out: String = String::new();
    let mut i: usize = 0;
    while i < v.len()
        invariant
            i <= v@.len(),
            out@ == v@.take(i as int),
        decreases v@.len() - i,
    {
        out.push(v[i]);
        proof {
            assert(v@.take(i as int + 1) == v@.take(i as int).push(v@[i as int]));
        }
        i = i + 1;
    }
    proof {
        assert(v@.take(v@.len() as int) == v@);
    }
    out
}

/// Whether two texts are the same.
pub fn same_text(a: &str, b: &str) -> (r: bool)
    ensures
        r == (a@ == b@),
{
    let x: Vec<char> = chars_of(a);
    let y: Vec<char> = chars_of(b);
    same_chars(&x, &y)
}

/// Whether two character slices are the same.
pub fn same_chars(a: &[char], b: &[char]) -> (r: bool)
    ensures
        r == (a@ == b@),
{
    if a.len() != b.len() {
        return false;
    }
    let mut i: usize = 0;
    while i < a.len()
        invariant
            i <= a@.len(),
            a@.len() == b@.len(),
            a@.take(i as int) == b@.take(i as int),
        decreases a@.len() - i,
    {
        if a[i] != b[i] {
            proof {
                assert(a@[i as int] != b@[i as int]);
            }
            return false;
        }
        proof {
            assert(a@.take(i as int + 1) == a@.take(i as int).push(a@[i as int]));
            assert(b@.take(i as int + 1) == b@.take(i as int).push(b@[i as int]));
        }
        i = i + 1;
    }
    proof {
        assert(a@.take(a@.len() as int) == a@);
        assert(b@.take(b@.len() as int) == b@);
    }
    true
}

/// The decimal digit of `d`, which is below ten.
pub open spec fn digit_char(d: nat) -> char {
    ('0' as nat + d) as char
}

/// The decimal text of `n`, without leading zeros.
pub open spec fn decimal(n: nat) -> Seq<char>
    decreases n,
{
    if n < 10 {
        seq![digit_char(n)]
    } else {
        decimal(n / 10).push(digit_char(n % 10))
    }
}

/// The decimal text of an integer: a minus sign before a negative one.
pub open spec fn signed_decimal(n: int) -> Seq<char> {
    if n < 0 {
        seq!['-'] + decimal((-n) as nat)
    } else {
        decimal(n as nat)
    }
}

fn digit(d: u64) -> (c: char)
    requires
        d < 10,
    ensures
        c == digit_char(d as nat),
{
    match d {
        0 => '0',
        1 => '1',
        2 => '2',
        3 => '3',
        4 => '4',
        5 => '5',
        6 => '6',
        7 => '7',
        8 => '8',
        _ => '9',
    }
}

/// The upper-case hexadecimal digit of `d`, which is below sixteen.
pub open spec fn hex_digit(d: nat) -> char {
    if d < 10 {
        digit_char(d)
    } else {
        ('A' as nat + d - 10) as char
    }
}

/// The last `width` hexadecimal digits of `n`, zeros in front.
pub open spec fn hex(n: nat, width: nat) -> Seq<char>
    decreases width,
{
    if width == 0 {
        Seq::empty()
    } else {
        hex(n / 16, (width - 1) as nat).push(hex_digit(n % 16))
    }
}

/// Adds the last `width` hexadecimal digits of `n` to `out`.
pub fn push_hex(out: &mut String, n: u32, width: u32)
    ensures
        final(out)@ == old(out)@ + hex(n as nat, width as nat),
    decreases width,
{
    if width > 0 {
        push_hex(out, n / 16, width - 1);
        let d: u32 = n % 16;
        let c: char = if d < 10 {
            digit(d as u64)
        } else if d == 10 {
            'A'
        } else if d == 11 {
            'B'
        } else if d == 12 {
            'C'
        } else if d == 13 {
            'D'
        } else if d == 14 {
            'E'
        } else {
            'F'
        };
        out.push(c);
        proof {
            assert(c == hex_digit(d as nat));
            assert(out@ == old(out)@ + hex((n / 16) as nat, (width - 1) as nat).push(c));
        }
    } else {
        proof {
            assert(out@ == old(out)@ + Seq::<char>::empty());
        }
    }
}

/// Adds the decimal text of `n` to `out`.
pub fn push_decimal(out: &mut String, n: u64)
    ensures
        final(out)@ == old(out)@ + decimal(n as nat),
    decreases n,
{
    if n >= 10 {
        push_decimal(out, n / 10);
    }
    out.push(digit(n % 10));
    proof {
        if n < 10 {
            assert(out@ == old(out)@ + seq![digit_char(n as nat)]);
        } else {
            assert(out@ == old(out)@ + decimal((n / 10) as nat).push(digit_char((n % 10) as nat)));
        }
    }
}

/// The decimal text of `n`.
pub fn decimal_string(n: u64) -> (r: String)
    ensures
        r@ == decimal(n as nat),
{
    let mut out: String = String::new();
    push_decimal(&mut out, n);
    proof {
        assert(out@ == decimal(n as nat));
    }
    out
}

/// The decimal text of a signed number.
pub fn signed_string(n: i64) -> (r: String)
    ensures
        r@ == signed_decimal(n as int),
{
    let mut out: String = String::new();
    if n < 0 {
        out.push('-');
        let m: u64 = if n == i64::MIN {
            0x8000_0000_0000_0000u64
        } else {
            (-n) as u64
        };
        push_decimal(&mut out, m);
        proof {
            assert(out@ == seq!['-'] + decimal((-n) as nat));
        }
    } else {
        push_decimal(&mut out, n as u64);
        proof {
            assert(out@ == decimal(n as nat));
        }
    }
    out
}

/// The Unicode property White_Space.
pub open spec fn is_white_space(c: char) -> bool {
    ||| '\u{9}' <= c <= '\u{d}'
    ||| c == ' '
    ||| c == '\u{85}'
    ||| c == '\u{a0}'
    ||| c == '\u{1680}'
    ||| '\u{2000}' <= c <= '\u{200a}'
    ||| c == '\u{2028}'
    ||| c == '\u{2029}'
    ||| c == '\u{202f}'
    ||| c == '\u{205f}'
    ||| c == '\u{3000}'
}

/// Whether `c` has the Unicode property White_Space.
pub fn white_space(c: char) -> (r: bool)
    ensures
        r == is_white_space(c),
{
    ('\u{9}' <= c && c <= '\u{d}') || c == ' ' || c == '\u{85}' || c == '\u{a0}' || c == '\u{1680}'
        || ('\u{2000}' <= c && c <= '\u{200a}') || c == '\u{2028}' || c == '\u{2029}' || c
        == '\u{202f}' || c == '\u{205f}' || c == '\u{3000}'
}

/// `s` without the white space at its start.
pub open spec fn trim_start(s: Seq<char>) -> Seq<char>
    decreases s.len(),
{
    if s.len() > 0 && is_white_space(s[0]) {
        trim_start(s.drop_first())
    } else {
        s
    }
}

/// `s` without the white space at its end.
pub open spec fn trim_end(s: Seq<char>) -> Seq<char>
    decreases s.len(),
{
    if s.len() > 0 && is_white_space(s.last()) {
        trim_end(s.drop_last())
    } else {
        s
    }
}

/// `s` without the white space at both ends.
pub open spec fn trimmed(s: Seq<char>) -> Seq<char> {
    trim_end(trim_start(s))
}

/// The characters of `v` without the white space at both ends.
pub fn trim(v: &[char]) -> (r: Vec<char>)
    ensures
        r@ == trimmed(v@),
{
    let n: usize = v.len();
    let mut i: usize = 0;
    proof {
        assert(v@.skip(0) =~= v@);
    }
    while i < n && white_space(v[i])
        invariant
            i <= n == v@.len(),
            trim_start(v@) == trim_start(v@.skip(i as int)),
        decreases n - i,
    {
        assert(v@.skip(i as int).drop_first() =~= v@.skip(i as int + 1));
        i = i + 1;
    }
    let ghost rest: Seq<char> = v@.skip(i as int);
    let mut j: usize = n;
    proof {
        assert(rest.take(j - i) =~= rest);
    }
    while j > i && white_space(v[j - 1])
        invariant
            i <= j <= n == v@.len(),
            rest == v@.skip(i as int),
            trim_end(rest) == trim_end(rest.take(j - i)),
        decreases j,
    {
        assert(rest.take(j - i).drop_last() =~= rest.take(j - i - 1));
        j = j - 1;
    }
    let out: &[char] = vstd::slice::slice_subrange(v, i, j);
    proof {
        assert(rest.take(j - i) =~= out@);
    }
    vstd::slice::slice_to_vec(out)
}

/// An upper-case ASCII letter in lower case; every other character as it is.
pub open spec fn ascii_lower(c: char) -> char {
    if 'A' <= c <= 'Z' {
        (c as u32 + 32) as char
    } else {
        c
    }
}

/// `s` with its upper-case ASCII letters in lower case.
pub open spec fn lower(s: Seq<char>) -> Seq<char> {
    s.map_values(|c: char| ascii_lower(c))
}

/// The characters of `v` with upper-case ASCII letters in lower case.
pub fn to_lower(v: &[char]) -> (r: Vec<char>)
    ensures
        r@ == lower(v@),
{
    let mut out: Vec<char> = Vec::new();
    let mut i: usize = 0;
    while i < v.len()
        invariant
            i <= v@.len(),
            out@ == lower(v@.take(i as int)),
        decreases v@.len() - i,
    {
        let c: char = v[i];
        if 'A' <= c && c <= 'Z' {
            let code: u8 = c as u8;
            out.push((code + 32) as char);
        } else {
            out.push(c);
        }
        proof {
            assert(v@.take(i as int + 1) =~= v@.take(i as int).push(c));
            assert(out@ =~= lower(v@.take(i as int + 1)));
        }
        i = i + 1;
    }
    proof {
        assert(v@.take(v@.len() as int) =~= v@);
    }
    out
}

/// Lower case is kept by lower case.
pub proof fn law_lower_idempotent(s: Seq<char>)
    ensures
        lower(lower(s)) == lower(s),
{
    assert(lower(lower(s)) =~= lower(s));
}

proof fn lemma_trim_start_lower(s: Seq<char>)
    ensures
        trim_start(lower(s)) == lower(trim_start(s)),
    decreases s.len(),
{
    if s.len() > 0 {
        assert(lower(s)[0] == ascii_lower(s[0]));
        if is_white_space(s[0]) {
            lemma_trim_start_lower(s.drop_first());
            assert(lower(s).drop_first() =~= lower(s.drop_first()));
        }
    }
}

proof fn lemma_trim_end_lower(s: Seq<char>)
    ensures
        trim_end(lower(s)) == lower(trim_end(s)),
    decreases s.len(),
{
    if s.len() > 0 {
        assert(lower(s).last() == ascii_lower(s.last()));
        if is_white_space(s.last()) {
            lemma_trim_end_lower(s.drop_last());
            assert(lower(s).drop_last() =~= lower(s.drop_last()));
        }
    }
}

/// Trimming and lower case can be done in either order.
pub proof fn law_trim_keeps_lower(s: Seq<char>)
    ensures
        trimmed(lower(s)) == lower(trimmed(s)),
{
    lemma_trim_start_lower(s);
    lemma_trim_end_lower(trim_start(s));
}

/// Whether `s` begins with `head`.
pub open spec fn has_prefix(s: Seq<char>, head: Seq<char>) -> bool {
    s.len() >= head.len() && s.take(head.len() as int) == head
}

/// What follows `head` in `v`, where `v` begins with it.
pub fn skip_chars(v: &[char], head: &str) -> (r: Option<Vec<char>>)
    ensures
        match r {
            Some(rest) => has_prefix(v@, head@) && rest@ == v@.skip(head@.len() as int),
            None => !has_prefix(v@, head@),
        },
{
    let h: Vec<char> = chars_of(head);
    if v.len() < h.len() {
        return None;
    }
    let front: &[char] = vstd::slice::slice_subrange(v, 0, h.len());
    proof {
        assert(front@ =~= v@.take(h@.len() as int));
    }
    if !same_chars(front, &h) {
        return None;
    }
    let rest: &[char] = vstd::slice::slice_subrange(v, h.len(), v.len());
    proof {
        assert(rest@ =~= v@.skip(h@.len() as int));
    }
    Some(vstd::slice::slice_to_vec(rest))
}

/// Whether `needle` stands in `s` at place `i`.
pub open spec fn stands_at(s: Seq<char>, needle: Seq<char>, i: int) -> bool {
    0 <= i && i + needle.len() <= s.len() && s.subrange(i, i + needle.len()) == needle
}

/// Whether `needle` stands anywhere in `s`.
pub open spec fn has_text(s: Seq<char>, needle: Seq<char>) -> bool {
    exists|i: int| stands_at(s, needle, i)
}

/// Whether `needle` stands in `v` at place `i`.
pub fn found_at(v: &[char], needle: &[char], i: usize) -> (r: bool)
    ensures
        r == stands_at(v@, needle@, i as int),
{
    assert(v.len() == v@.len());
    assert(needle.len() == needle@.len());
    if needle.len() > v.len() || i > v.len() - needle.len() {
        return false;
    }
    let part: &[char] = vstd::slice::slice_subrange(v, i, i + needle.len());
    same_chars(part, needle)
}

/// Whether `needle` stands anywhere in `v`.
pub fn contains_chars(v: &[char], needle: &[char]) -> (r: bool)
    ensures
        r == has_text(v@, needle@),
{
    let mut i: usize = 0;
    assert(v.len() == v@.len());
    while i < v.len()
        invariant
            i <= v@.len(),
            v@.len() <= usize::MAX,
            forall|k: int| 0 <= k < i ==> !(#[trigger] stands_at(v@, needle@, k)),
        decreases v@.len() - i,
    {
        if found_at(v, needle, i) {
            return true;
        }
        i = i + 1;
    }
    let last: bool = found_at(v, needle, v.len());
    proof {
        if has_text(v@, needle@) {
            let k = choose|k: int| stands_at(v@, needle@, k);
            assert(k <= v@.len());
            assert(last);
        }
    }
    last
}

/// The pieces of `s` between the separators `sep`.
pub open spec fn split_on(s: Seq<char>, sep: char) -> Seq<Seq<char>>
    decreases s.len(),
{
    if s.len() == 0 {
        seq![Seq::empty()]
    } else if s.last() == sep {
        split_on(s.drop_last(), sep).push(Seq::empty())
    } else {
        let before = split_on(s.drop_last(), sep);
        before.drop_last().push(before.last().push(s.last()))
    }
}

/// A text has at least one piece.
pub proof fn law_split_not_empty(s: Seq<char>, sep: char)
    ensures
        split_on(s, sep).len() >= 1,
    decreases s.len(),
{
    if s.len() > 0 {
        law_split_not_empty(s.drop_last(), sep);
    }
}

/// Texts as sequences of characters.
pub open spec fn char_rows(v: Seq<Vec<char>>) -> Seq<Seq<char>> {
    v.map_values(|p: Vec<char>| p@)
}

/// The pieces of `v` between the separators `sep`.
pub fn split_chars(v: &[char], sep: char) -> (r: Vec<Vec<char>>)
    ensures
        char_rows(r@) == split_on(v@, sep),
        r@.len() == split_on(v@, sep).len(),
        forall|k: int| 0 <= k < r@.len() ==> (#[trigger] r@[k])@ == split_on(v@, sep)[k],
{
    let mut done: Vec<Vec<char>> = Vec::new();
    let mut piece: Vec<char> = Vec::new();
    let mut i: usize = 0;
    proof {
        assert(v@.take(0) =~= Seq::<char>::empty());
        assert(char_rows(done@).push(piece@) =~= split_on(v@.take(0), sep));
    }
    while i < v.len()
        invariant
            i <= v@.len(),
            char_rows(done@).push(piece@) == split_on(v@.take(i as int), sep),
        decreases v@.len() - i,
    {
        let c: char = v[i];
        let ghost before: Seq<Seq<char>> = char_rows(done@);
        let ghost held: Seq<char> = piece@;
        let ghost next: Seq<char> = v@.take(i as int + 1);
        assert(next.drop_last() =~= v@.take(i as int));
        assert(next.last() == c);
        if c == sep {
            done.push(piece);
            piece = Vec::new();
            proof {
                assert(char_rows(done@) =~= before.push(held));
                assert(char_rows(done@).push(piece@) =~= split_on(next, sep));
            }
        } else {
            piece.push(c);
            proof {
                assert(before.push(held).drop_last() =~= before);
                assert(char_rows(done@).push(piece@) =~= split_on(next, sep));
            }
        }
        i = i + 1;
    }
    let ghost before: Seq<Seq<char>> = char_rows(done@);
    let ghost last: Seq<char> = piece@;
    done.push(piece);
    proof {
        assert(v@.take(v@.len() as int) =~= v@);
        assert(char_rows(done@) =~= before.push(last));
        assert forall|k: int| 0 <= k < done@.len() implies (#[trigger] done@[k])@ == split_on(
            v@,
            sep,
        )[k] by {
            assert(char_rows(done@)[k] == done@[k]@);
        }
    }
    done
}

/// Whether `c` is a decimal digit.
pub open spec fn is_digit(c: char) -> bool {
    '0' <= c <= '9'
}

/// The number that decimal digits mean.
pub open spec fn digits_value(s: Seq<char>) -> nat
    decreases s.len(),
{
    if s.len() == 0 {
        0
    } else {
        digits_value(s.drop_last()) * 10 + (s.last() as nat - '0' as nat) as nat
    }
}

/// Whether a text is made of digits alone.
pub open spec fn all_digits(s: Seq<char>) -> bool {
    forall|i: int| 0 <= i < s.len() ==> is_digit(#[trigger] s[i])
}

/// The number that digits mean: at least one, and no more than a `usize`
/// holds.
pub open spec fn plain_number(digits: Seq<char>) -> Option<nat> {
    if digits.len() > 0 && all_digits(digits) && digits_value(digits) <= usize::MAX {
        Some(digits_value(digits))
    } else {
        None
    }
}

/// The number that a text means: digits, with at most one plus sign before
/// them.
pub open spec fn parsed_number(s: Seq<char>) -> Option<nat> {
    if s.len() > 0 && s[0] == '+' {
        plain_number(s.skip(1))
    } else {
        plain_number(s)
    }
}

/// The decimal text of a number is made of digits, and they mean the number.
pub proof fn law_number_has_digits(n: nat)
    ensures
        all_digits(decimal(n)),
        decimal(n).len() > 0,
        digits_value(decimal(n)) == n,
    decreases n,
{
    if n < 10 {
        assert(decimal(n).drop_last() =~= Seq::<char>::empty());
        assert(digits_value(decimal(n).drop_last()) == 0);
    } else {
        law_number_has_digits(n / 10);
        assert(decimal(n).drop_last() =~= decimal(n / 10));
    }
}

/// A number that is printed is read back.
pub proof fn law_number_reads_back(n: usize)
    ensures
        parsed_number(decimal(n as nat)) == Some(n as nat),
{
    law_number_has_digits(n as nat);
    assert(is_digit(decimal(n as nat)[0]));
}

/// More digits never mean less.
proof fn lemma_digits_grow(s: Seq<char>, i: int)
    requires
        0 <= i <= s.len(),
    ensures
        digits_value(s.take(i)) <= digits_value(s),
    decreases s.len() - i,
{
    if i == s.len() {
        assert(s.take(i) =~= s);
    } else {
        lemma_digits_grow(s, i + 1);
        assert(s.take(i + 1).drop_last() =~= s.take(i));
    }
}

/// The number that a text means.
pub fn parse_number(v: &[char]) -> (r: Option<usize>)
    ensures
        match r {
            Some(n) => parsed_number(v@) == Some(n as nat),
            None => parsed_number(v@) is None,
        },
{
    let from: usize = if v.len() > 0 && v[0] == '+' {
        1
    } else {
        0
    };
    let ghost digits: Seq<char> = v@.skip(from as int);
    proof {
        assert(v@.skip(0) =~= v@);
    }
    if from == v.len() {
        return None;
    }
    let mut n: usize = 0;
    let mut i: usize = from;
    proof {
        assert(digits.take(0) =~= Seq::<char>::empty());
    }
    while i < v.len()
        invariant
            from <= i <= v@.len(),
            digits == v@.skip(from as int),
            n == digits_value(digits.take(i - from)),
            forall|k: int| 0 <= k < i - from ==> is_digit(#[trigger] digits[k]),
            digits.len() > 0,
            parsed_number(v@) == plain_number(digits),
        decreases v@.len() - i,
    {
        let c: char = v[i];
        assert(digits[i - from] == c);
        if !('0' <= c && c <= '9') {
            return None;
        }
        let d: usize = c as usize - '0' as usize;
        proof {
            let next = digits.take(i - from + 1);
            assert(next.drop_last() =~= digits.take(i - from));
            assert(digits_value(next) == n * 10 + d);
            if n * 10 + d > usize::MAX {
                lemma_digits_grow(digits, i - from + 1);
            }
        }
        n = match n.checked_mul(10) {
            Some(m) => match m.checked_add(d) {
                Some(s) => s,
                None => {
                    return None;
                },
            },
            None => {
                return None;
            },
        };
        i = i + 1;
    }
    proof {
        assert(digits.take(digits.len() as int) =~= digits);
    }
    Some(n)
}

/// What `{:?}` prints of a text: the text in quotes, with escapes.
pub uninterp spec fn quoted(s: Seq<char>) -> Seq<char>;

/// `{:?}` of a `str`: the text in quotes, with the escapes of the standard
/// library. Which characters are escaped is left to the name.
#[verifier::external_body]
pub(crate) fn quote(s: &str) -> (r: String)
    ensures
        r@ == quoted(s@),
{
    format!("{s:?}")
}

/// Parts with a separator between them.
pub open spec fn rejoined(parts: Seq<Seq<char>>, sep: char) -> Seq<char>
    decreases parts.len(),
{
    if parts.len() == 0 {
        Seq::empty()
    } else if parts.len() == 1 {
        parts[0]
    } else {
        rejoined(parts.drop_last(), sep).push(sep) + parts.last()
    }
}

/// The parts of a text hold no separator, and with separators between them they are the
/// text again.
pub proof fn law_split_comes_back(s: Seq<char>, sep: char)
    ensures
        split_on(s, sep).len() >= 1,
        rejoined(split_on(s, sep), sep) == s,
        forall|i: int|
            0 <= i < split_on(s, sep).len() ==> !(#[trigger] split_on(s, sep)[i]).contains(sep),
    decreases s.len(),
{
    let parts = split_on(s, sep);
    if s.len() == 0 {
        assert(rejoined(parts, sep) =~= s);
    } else {
        let before = split_on(s.drop_last(), sep);
        law_split_comes_back(s.drop_last(), sep);
        if s.last() == sep {
            assert(parts.drop_last() =~= before);
            assert(rejoined(parts, sep) =~= s.drop_last().push(sep));
            assert(s =~= s.drop_last().push(s.last()));
        } else {
            let end = before.last().push(s.last());
            assert(parts == before.drop_last().push(end));
            assert(parts.drop_last() =~= before.drop_last());
            assert(!end.contains(sep)) by {
                assert(!before[before.len() - 1].contains(sep));
                assert forall|k: int| 0 <= k < end.len() implies end[k] != sep by {
                    if k < before.last().len() {
                        assert(before.last().contains(before.last()[k]));
                    }
                }
            }
            if before.len() == 1 {
                assert(rejoined(parts, sep) =~= s.drop_last().push(s.last()));
            } else {
                assert(rejoined(parts, sep) =~= (rejoined(before.drop_last(), sep).push(sep)
                    + before.last()).push(s.last()));
            }
            assert(s =~= s.drop_last().push(s.last()));
            assert forall|i: int| 0 <= i < parts.len() implies !(#[trigger] parts[i]).contains(
                sep,
            ) by {
                if i < before.len() - 1 {
                    assert(parts[i] == before[i]);
                }
            }
        }
    }
}

/// What is trimmed from a text is white space, and none is left at its ends.
pub proof fn law_trimmed(s: Seq<char>)
    ensures
        exists|i: int, j: int|
            {
                &&& 0 <= i <= j <= s.len()
                &&& trimmed(s) == #[trigger] s.subrange(i, j)
                &&& forall|k: int| 0 <= k < i ==> is_white_space(#[trigger] s[k])
                &&& forall|k: int| j <= k < s.len() ==> is_white_space(#[trigger] s[k])
            },
        trimmed(s).len() > 0 ==> !is_white_space(trimmed(s)[0]) && !is_white_space(
            trimmed(s).last(),
        ),
{
    let i = lemma_trim_start(s);
    let t = trim_start(s);
    let n = lemma_trim_end(t);
    assert(trimmed(s) =~= s.subrange(i, i + n));
    assert forall|k: int| i + n <= k < s.len() implies is_white_space(#[trigger] s[k]) by {
        assert(t[k - i] == s[k]);
    }
    if trimmed(s).len() > 0 {
        assert(trimmed(s)[0] == t[0]);
    }
}

proof fn lemma_trim_start(s: Seq<char>) -> (i: int)
    ensures
        0 <= i <= s.len(),
        trim_start(s) == s.skip(i),
        forall|k: int| 0 <= k < i ==> is_white_space(#[trigger] s[k]),
        i < s.len() ==> !is_white_space(s[i]),
    decreases s.len(),
{
    if s.len() > 0 && is_white_space(s[0]) {
        let r = s.drop_first();
        let j = lemma_trim_start(r);
        assert(trim_start(s) =~= s.skip(j + 1));
        assert forall|k: int| 0 <= k < j + 1 implies is_white_space(#[trigger] s[k]) by {
            if k > 0 {
                assert(r[k - 1] == s[k]);
            }
        }
        if j + 1 < s.len() {
            assert(r[j] == s[j + 1]);
        }
        j + 1
    } else {
        assert(s.skip(0) =~= s);
        0
    }
}

proof fn lemma_trim_end(s: Seq<char>) -> (n: int)
    ensures
        0 <= n <= s.len(),
        trim_end(s) == s.take(n),
        forall|k: int| n <= k < s.len() ==> is_white_space(#[trigger] s[k]),
        n > 0 ==> !is_white_space(s[n - 1]),
    decreases s.len(),
{
    if s.len() > 0 && is_white_space(s.last()) {
        let r = s.drop_last();
        let m = lemma_trim_end(r);
        assert(trim_end(s) =~= s.take(m));
        assert forall|k: int| m <= k < s.len() implies is_white_space(#[trigger] s[k]) by {
            if k < r.len() {
                assert(r[k] == s[k]);
            }
        }
        m
    } else {
        assert(s.take(s.len() as int) =~= s);
        s.len() as int
    }
}

/// Capital letters of the alphabet become the small letters of the same place in it, and
/// every other character stays.
pub proof fn law_lower_letters(s: Seq<char>, i: int)
    requires
        0 <= i < s.len(),
    ensures
        lower(s).len() == s.len(),
        'A' <= s[i] <= 'Z' ==> 'a' <= lower(s)[i] <= 'z' && lower(s)[i] as u32 - 'a' as u32
            == s[i] as u32 - 'A' as u32,
        !('A' <= s[i] <= 'Z') ==> lower(s)[i] == s[i],
{
}

/// A number in base sixteen has as many digits as are asked for, the last of which counts
/// ones; ten to fifteen are the letters from A on.
pub proof fn law_hex_digits(n: nat, width: nat)
    requires
        width > 0,
    ensures
        hex(n, width).len() == width,
        hex(n, width).drop_last() == hex(n / 16, (width - 1) as nat),
        n % 16 < 10 ==> hex(n, width).last() as nat == '0' as nat + n % 16,
        n % 16 >= 10 ==> hex(n, width).last() as nat == 'A' as nat + n % 16 - 10,
    decreases width,
{
    if width > 1 {
        law_hex_digits(n / 16, (width - 1) as nat);
    }
    assert(hex(n, width).drop_last() =~= hex(n / 16, (width - 1) as nat));
}

} // verus!
