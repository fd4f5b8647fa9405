//! Text as bytes: the classes of ASCII bytes, searching, trimming, and
//! decimal numbers.
//!
//! Header values and names are bytes, and everything that the routing rules
//! read in them is ASCII. The functions here say what such text means, and
//! compute it.

use vstd::prelude::*;
use vstd::slice::slice_subrange;
use vstd::string::*;
use vstd::utf8::*;

verus! {

/// An ASCII decimal digit.
pub open spec fn is_digit(b: u8) -> bool {
    0x30 <= b <= 0x39
}

/// ASCII white space: space, tab, line feed, vertical tab, form feed, carriage return.
pub open spec fn is_space(b: u8) -> bool {
    b == 0x20 || 0x09 <= b <= 0x0d
}

/// The byte with an ASCII capital letter replaced by its small letter.
pub open spec fn lower(b: u8) -> u8 {
    if 0x41 <= b <= 0x5a {
        (b + 32) as u8
    } else {
        b
    }
}

/// Whether a byte is a decimal digit.
pub fn byte_is_digit(b: u8) -> (r: bool)
    ensures
        r == is_digit(b),
{
    0x30 <= b && b <= 0x39
}

/// Whether a byte is white space.
pub fn byte_is_space(b: u8) -> (r: bool)
    ensures
        r == is_space(b),
{
    b == 0x20 || (0x09 <= b && b <= 0x0d)
}

/// A byte in lower case.
pub fn byte_lower(b: u8) -> (r: u8)
    ensures
        r == lower(b),
{
    if 0x41 <= b && b <= 0x5a {
        b + 32
    } else {
        b
    }
}

/// The text with every ASCII capital letter replaced by its small letter.
pub open spec fn lowered(s: Seq<u8>) -> Seq<u8> {
    Seq::new(s.len(), |i: int| lower(s[i]))
}

/// The text as characters, one for each byte.
pub open spec fn as_chars(s: Seq<u8>) -> Seq<char> {
    Seq::new(s.len(), |i: int| s[i] as char)
}

/// Every byte is ASCII.
pub open spec fn is_ascii_bytes(s: Seq<u8>) -> bool {
    forall|i: int| 0 <= i < s.len() ==> #[trigger] s[i] < 0x80
}

/// A character whose scalar value is below 0x80 is an ASCII character.
proof fn lemma_ascii_char(c: char)
    requires
        c as u32 <= 0x7f,
    ensures
        '\0' <= c <= '\u{7f}',
{
}

/// Characters whose UTF-8 encoding holds ASCII bytes only are ASCII
/// characters, one for each byte.
pub proof fn lemma_ascii_bytes_of_chars(chars: Seq<char>)
    requires
        is_ascii_bytes(encode_utf8(chars)),
    ensures
        is_ascii_chars(chars),
        encode_utf8(chars).len() == chars.len(),
        as_chars(encode_utf8(chars)) == chars,
    decreases chars.len(),
{
    if chars.len() > 0 {
        char_is_scalar(chars[0]);
        let c0 = chars[0] as u32;
        let rest = chars.drop_first();
        let head = encode_scalar(c0);
        let enc = encode_utf8(chars);
        assert(enc[0] < 0x80);
        let x2 = ((c0 >> 6) & 0x1F) as u8;
        let x3 = ((c0 >> 12) & 0x0F) as u8;
        let x4 = ((c0 >> 18) & 0x7) as u8;
        assert(0xC0u8 | x2 >= 0x80) by (bit_vector);
        assert(0xE0u8 | x3 >= 0x80) by (bit_vector);
        assert(0xF0u8 | x4 >= 0x80) by (bit_vector);
        assert((c0 & 0x7F) as u8 == c0) by (bit_vector)
            requires
                c0 <= 0x7F,
        ;
        assert forall|i: int| 0 <= i < encode_utf8(rest).len() implies #[trigger] encode_utf8(
            rest,
        )[i] < 0x80 by {
            assert(encode_utf8(rest)[i] == enc[i + 1]);
        }
        lemma_ascii_bytes_of_chars(rest);
        assert forall|i: int| 0 <= i < chars.len() implies '\0' <= #[trigger] chars[i]
            <= '\u{7f}' by {
            if i > 0 {
                assert('\0' <= rest[i - 1] <= '\u{7f}');
            } else {
                lemma_ascii_char(chars[0]);
            }
        }
        assert forall|i: int| 0 <= i < chars.len() implies as_chars(enc)[i] == chars[i] by {
            if i > 0 {
                assert(as_chars(encode_utf8(rest))[i - 1] == rest[i - 1]);
            } else {
                char_u32_cast(chars[0], c0);
            }
        }
    }
}

/// The part `from..to` of an ASCII string.
pub(crate) fn ascii_slice<'a>(s: &'a str, from: usize, to: usize) -> (r: &'a str)
    requires
        is_ascii_bytes(s.spec_bytes()),
        from <= to <= s.spec_bytes().len(),
    ensures
        r.spec_bytes() == s.spec_bytes().subrange(from as int, to as int),
        r@ == as_chars(r.spec_bytes()),
{
    proof {
        lemma_ascii_bytes_of_chars(s@);
    }
    let r = s.substring_ascii(from, to);
    proof {
        is_ascii_chars_encode_utf8(s@);
        is_ascii_chars_encode_utf8(r@);
        lemma_ascii_bytes_of_chars(r@);
    }
    r
}

/// An ASCII literal has one byte for each of its characters.
pub proof fn lemma_ascii_literal(s: &str)
    requires
        is_ascii_chars(s@),
    ensures
        s.spec_bytes().len() == s@.len(),
        forall|i: int| 0 <= i < s@.len() ==> #[trigger] s.spec_bytes()[i] == s@[i] as u8,
{
    is_ascii_chars_encode_utf8(s@);
}

/// Whether two texts are the same.
pub fn bytes_eq(s: &[u8], t: &[u8]) -> (r: bool)
    ensures
        r == (s@ == t@),
{
    if s.len() != t.len() {
        return false;
    }
    let mut i: usize = 0;
    while i < s.len()
        invariant
            i <= s.len(),
            s.len() == t.len(),
            forall|j: int| 0 <= j < i ==> s[j] == t[j],
        decreases s.len() - i,
    {
        if s[i] != t[i] {
            return false;
        }
        i = i + 1;
    }
    assert(s@ =~= t@);
    true
}

/// Whether a text in lower case is a given text.
pub fn lowered_eq(s: &[u8], t: &[u8]) -> (r: bool)
    ensures
        r == (lowered(s@) == t@),
{
    if s.len() != t.len() {
        return false;
    }
    let mut i: usize = 0;
    while i < s.len()
        invariant
            i <= s.len(),
            s.len() == t.len(),
            forall|j: int| 0 <= j < i ==> lower(#[trigger] s[j]) == t[j],
        decreases s.len() - i,
    {
        if byte_lower(s[i]) != t[i] {
            return false;
        }
        i = i + 1;
    }
    assert(lowered(s@) =~= t@);
    true
}

/// Whether a text in lower case ends with a suffix.
pub fn ends_with_lowered(s: &[u8], suffix: &[u8]) -> (r: bool)
    ensures
        r == ends_with(lowered(s@), suffix@),
{
    if s.len() < suffix.len() {
        return false;
    }
    let tail = slice_subrange(s, s.len() - suffix.len(), s.len());
    proof {
        assert(lowered(tail@) =~= lowered(s@).skip(s.len() - suffix.len()));
    }
    lowered_eq(tail, suffix)
}

/// Where a byte first stands in a text; the length of the text where it does not.
pub open spec fn index_of(s: Seq<u8>, b: u8) -> int
    decreases s.len(),
{
    if s.len() == 0 || s[0] == b {
        0
    } else {
        1 + index_of(s.drop_first(), b)
    }
}

/// Where a byte last stands in a text; -1 where it does not.
pub open spec fn last_index_of(s: Seq<u8>, b: u8) -> int
    decreases s.len(),
{
    if s.len() == 0 {
        -1
    } else if s.last() == b {
        s.len() - 1
    } else {
        last_index_of(s.drop_last(), b)
    }
}

/// The text ends with the suffix.
pub open spec fn ends_with(s: Seq<u8>, suffix: Seq<u8>) -> bool {
    s.len() >= suffix.len() && s.skip(s.len() - suffix.len()) == suffix
}

/// The first place of a byte is in the text or at its end, the byte stands
/// there, and it does not stand before.
pub proof fn lemma_index_of(s: Seq<u8>, b: u8)
    ensures
        0 <= index_of(s, b) <= s.len(),
        index_of(s, b) < s.len() ==> s[index_of(s, b)] == b,
        forall|i: int| 0 <= i < index_of(s, b) ==> s[i] != b,
    decreases s.len(),
{
    if s.len() > 0 && s[0] != b {
        let t = s.drop_first();
        lemma_index_of(t, b);
        assert forall|i: int| 0 <= i < index_of(s, b) implies s[i] != b by {
            if i > 0 {
                assert(t[i - 1] == s[i]);
            }
        }
    }
}

/// The last place of a byte is in the text or -1, the byte stands there, and
/// it does not stand behind.
pub proof fn lemma_last_index_of(s: Seq<u8>, b: u8)
    ensures
        -1 <= last_index_of(s, b) < s.len(),
        last_index_of(s, b) >= 0 ==> s[last_index_of(s, b)] == b,
        forall|i: int| last_index_of(s, b) < i < s.len() ==> s[i] != b,
    decreases s.len(),
{
    if s.len() > 0 && s.last() != b {
        let t = s.drop_last();
        lemma_last_index_of(t, b);
        assert forall|i: int| last_index_of(s, b) < i < s.len() implies s[i] != b by {
            if i < t.len() {
                assert(t[i] == s[i]);
            }
        }
    }
}

/// Finds the first place of a byte in a text: the length of the text where
/// the byte is not in it.
pub fn find_byte(s: &[u8], b: u8) -> (r: usize)
    ensures
        r == index_of(s@, b),
        r <= s.len(),
        r < s.len() ==> s[r as int] == b,
        forall|i: int| 0 <= i < r ==> s[i] != b,
{
    let mut i: usize = 0;
    assert(s@.skip(0) =~= s@);
    while i < s.len() && s[i] != b
        invariant
            i <= s.len(),
            index_of(s@, b) == i + index_of(s@.skip(i as int), b),
        decreases s.len() - i,
    {
        proof {
            assert(s@.skip(i as int).drop_first() =~= s@.skip(i + 1));
        }
        i = i + 1;
    }
    proof {
        lemma_index_of(s@, b);
    }
    i
}

/// Finds the last place of a byte in a text.
pub fn rfind_byte(s: &[u8], b: u8) -> (r: Option<usize>)
    ensures
        match r {
            Some(i) => i == last_index_of(s@, b) && i < s.len() && s[i as int] == b,
            None => last_index_of(s@, b) == -1,
        },
        forall|i: int| last_index_of(s@, b) < i < s.len() ==> s[i] != b,
{
    let mut i: usize = s.len();
    assert(s@.take(s.len() as int) =~= s@);
    while i > 0 && s[i - 1] != b
        invariant
            i <= s.len(),
            last_index_of(s@, b) == last_index_of(s@.take(i as int), b),
        decreases i,
    {
        proof {
            assert(s@.take(i as int).drop_last() =~= s@.take(i - 1));
        }
        i = i - 1;
    }
    proof {
        lemma_last_index_of(s@, b);
    }
    if i == 0 {
        None
    } else {
        Some(i - 1)
    }
}

/// The text without its leading white space.
pub open spec fn skip_leading_space(s: Seq<u8>) -> Seq<u8>
    decreases s.len(),
{
    if s.len() > 0 && is_space(s[0]) {
        skip_leading_space(s.drop_first())
    } else {
        s
    }
}

/// The text without its trailing white space.
pub open spec fn drop_trailing_space(s: Seq<u8>) -> Seq<u8>
    decreases s.len(),
{
    if s.len() > 0 && is_space(s.last()) {
        drop_trailing_space(s.drop_last())
    } else {
        s
    }
}

/// The text without the white space around it.
pub open spec fn trimmed(s: Seq<u8>) -> Seq<u8> {
    drop_trailing_space(skip_leading_space(s))
}

/// Where the text without the white space around it begins and ends.
pub fn trim_bounds(s: &[u8]) -> (r: (usize, usize))
    ensures
        r.0 <= r.1 <= s.len(),
        s@.subrange(r.0 as int, r.1 as int) == trimmed(s@),
{
    let mut from: usize = 0;
    assert(s@.subrange(0, s.len() as int) =~= s@);
    while from < s.len() && byte_is_space(s[from])
        invariant
            from <= s.len(),
            skip_leading_space(s@) == skip_leading_space(s@.subrange(from as int, s.len() as int)),
        decreases s.len() - from,
    {
        proof {
            let cur = s@.subrange(from as int, s.len() as int);
            assert(cur.drop_first() =~= s@.subrange(from + 1, s.len() as int));
        }
        from = from + 1;
    }
    let ghost rest = s@.subrange(from as int, s.len() as int);
    let mut to: usize = s.len();
    while to > from && byte_is_space(s[to - 1])
        invariant
            from <= to <= s.len(),
            rest == s@.subrange(from as int, s.len() as int),
            drop_trailing_space(rest) == drop_trailing_space(s@.subrange(from as int, to as int)),
        decreases to,
    {
        proof {
            let cur = s@.subrange(from as int, to as int);
            assert(cur.drop_last() =~= s@.subrange(from as int, to - 1));
        }
        to = to - 1;
    }
    (from, to)
}

/// Every byte is a decimal digit.
pub open spec fn all_digits(s: Seq<u8>) -> bool {
    forall|i: int| 0 <= i < s.len() ==> is_digit(#[trigger] s[i])
}

/// The number that a run of decimal digits writes, most significant digit first.
pub open spec fn decimal_value(s: Seq<u8>) -> nat
    decreases s.len(),
{
    if s.len() == 0 {
        0
    } else {
        decimal_value(s.drop_last()) * 10 + (s.last() - 0x30) as nat
    }
}

/// The digits of an unsigned number in text: the text itself, without one leading `+`.
pub open spec fn unsigned_digits(s: Seq<u8>) -> Seq<u8> {
    if s.len() > 0 && s[0] == 0x2b {
        s.drop_first()
    } else {
        s
    }
}

/// The 16-bit number that the text writes in decimal: an optional `+`, then one
/// digit or more, the whole no greater than 65535. Leading zeros are allowed.
pub open spec fn parse_u16(s: Seq<u8>) -> Option<u16> {
    let d = unsigned_digits(s);
    if d.len() > 0 && all_digits(d) && decimal_value(d) <= u16::MAX {
        Some(decimal_value(d) as u16)
    } else {
        None
    }
}

/// The decimal digits of a number, without leading zeros.
pub open spec fn decimal_text(n: nat) -> Seq<char>
    decreases n,
{
    if n < 10 {
        seq![digit_char(n)]
    } else {
        decimal_text(n / 10).push(digit_char(n % 10))
    }
}

/// The character of one decimal digit.
pub open spec fn digit_char(d: nat) -> char {
    if d == 0 {
        '0'
    } else if d == 1 {
        '1'
    } else if d == 2 {
        '2'
    } else if d == 3 {
        '3'
    } else if d == 4 {
        '4'
    } else if d == 5 {
        '5'
    } else if d == 6 {
        '6'
    } else if d == 7 {
        '7'
    } else if d == 8 {
        '8'
    } else {
        '9'
    }
}

/// A prefix of a run of digits writes a number no greater than the whole run.
pub proof fn lemma_decimal_value_prefix(s: Seq<u8>, k: int)
    requires
        0 <= k <= s.len(),
    ensures
        decimal_value(s.take(k)) <= decimal_value(s),
    decreases s.len(),
{
    if k == s.len() {
        assert(s.take(k) =~= s);
    } else {
        assert(s.drop_last().take(k) =~= s.take(k));
        lemma_decimal_value_prefix(s.drop_last(), k);
    }
}

/// The number that the digits `s[from..to]` write, where it is no greater than `max`.
pub(crate) fn decimal_in(s: &[u8], from: usize, to: usize, max: u64) -> (r: Option<u64>)
    requires
        from <= to <= s.len(),
        all_digits(s@.subrange(from as int, to as int)),
        max <= 0xffff_ffff,
    ensures
        r == if decimal_value(s@.subrange(from as int, to as int)) <= max {
            Some(decimal_value(s@.subrange(from as int, to as int)) as u64)
        } else {
            None
        },
{
    let ghost digits = s@.subrange(from as int, to as int);
    let mut acc: u64 = 0;
    let mut i: usize = from;
    while i < to
        invariant
            from <= i <= to <= s.len(),
            digits == s@.subrange(from as int, to as int),
            all_digits(digits),
            max <= 0xffff_ffff,
            acc == decimal_value(digits.take(i - from)),
            acc <= max,
        decreases to - i,
    {
        let b: u8 = s[i];
        proof {
            assert(digits[i - from] == b);
            assert(digits.take(i - from + 1).drop_last() =~= digits.take(i - from));
            lemma_decimal_value_prefix(digits, i - from + 1);
        }
        acc = acc * 10 + (b - 0x30) as u64;
        i = i + 1;
        if acc > max {
            return None;
        }
    }
    proof {
        assert(digits.take(to - from) =~= digits);
    }
    Some(acc)
}

/// Reads a 16-bit number in decimal, as `parse_u16` defines it.
pub fn parse_port(s: &[u8]) -> (r: Option<u16>)
    ensures
        r == parse_u16(s@),
{
    let from: usize = if s.len() > 0 && s[0] == 0x2b {
        1
    } else {
        0
    };
    let ghost d = unsigned_digits(s@);
    if from == s.len() {
        return None;
    }
    let mut i: usize = from;
    while i < s.len()
        invariant
            from <= i <= s.len(),
            d == unsigned_digits(s@),
            d == s@.subrange(from as int, s.len() as int),
            forall|j: int| 0 <= j < i - from ==> is_digit(#[trigger] d[j]),
        decreases s.len() - i,
    {
        if !byte_is_digit(s[i]) {
            assert(!is_digit(d[i - from]));
            return None;
        }
        i = i + 1;
    }
    match decimal_in(s, from, s.len(), 0xffff) {
        Some(v) => Some(v as u16),
        None => None,
    }
}

/// The string of one decimal digit.
pub(crate) fn digit_str(d: u64) -> (r: &'static str)
    requires
        d < 10,
    ensures
        r@ == seq![digit_char(d as nat)],
{
    proof {
        reveal_strlit("0");
        reveal_strlit("1");
        reveal_strlit("2");
        reveal_strlit("3");
        reveal_strlit("4");
        reveal_strlit("5");
        reveal_strlit("6");
        reveal_strlit("7");
        reveal_strlit("8");
        reveal_strlit("9");
    }
    let r = if d == 0 {
        "0"
    } else if d == 1 {
        "1"
    } else if d == 2 {
        "2"
    } else if d == 3 {
        "3"
    } else if d == 4 {
        "4"
    } else if d == 5 {
        "5"
    } else if d == 6 {
        "6"
    } else if d == 7 {
        "7"
    } else if d == 8 {
        "8"
    } else {
        "9"
    };
    r
}

/// Appends the decimal digits of a number to a string.
pub fn push_decimal(out: &mut String, n: u64)
    ensures
        final(out)@ == old(out)@ + decimal_text(n as nat),
    decreases n,
{
    if n >= 10 {
        push_decimal(out, n / 10);
    }
    out.append(digit_str(n % 10));
    proof {
        if n >= 10 {
            assert(final(out)@ =~= old(out)@ + decimal_text((n / 10) as nat).push(
                digit_char((n % 10) as nat),
            ));
        }
    }
}

} // verus!
