//! The tokens of the assembly dialect, as functions on the bytes of the
//! source text.
//!
//! Every recognizer takes the text and a position and gives the position
//! behind what it recognized, or nothing. The text is read byte by byte:
//! all tokens are ASCII, and the bytes of other characters only occur in
//! strings and comments, where they are taken as they are.

use vstd::prelude::*;
use vstd::string::{StringExecFns, StringSliceAdditionalSpecFns};
use vstd::utf8::{
    decode_utf8, is_char_boundary, length_of_first_scalar, pop_first_scalar, valid_utf8,
};

verus! {

/// The classes of bytes that tokens are made of.
#[derive(Clone, Copy)]
pub enum Class {
    /// A space or a tab.
    Space,
    /// A letter, a digit or an underscore.
    Ident,
    /// A hexadecimal digit.
    Hex,
    /// A decimal digit.
    Dec,
    /// Anything but the end of the line.
    NotEol,
    /// Anything but the end of the line and the quote that ends a string.
    NotEolOrQuote,
    /// Anything but a line feed.
    NotLf,
    /// White space: a space, a tab, a line feed, a vertical tab, a form
    /// feed or a carriage return.
    Blank,
    /// Anything but white space.
    NotBlank,
}

impl Class {
    pub open spec fn has(self, byte: u8) -> bool {
        match self {
            Class::Space => byte == 0x20 || byte == 0x09,
            Class::Ident => (0x41 <= byte <= 0x5A) || (0x61 <= byte <= 0x7A) || (0x30 <= byte
                <= 0x39) || byte == 0x5F,
            Class::Hex => (0x30 <= byte <= 0x39) || (0x41 <= byte <= 0x46) || (0x61 <= byte
                <= 0x66),
            Class::Dec => 0x30 <= byte <= 0x39,
            Class::NotEol => byte != 0x0D && byte != 0x0A,
            Class::NotEolOrQuote => byte != 0x0D && byte != 0x0A && byte != 0x22,
            Class::NotLf => byte != 0x0A,
            Class::Blank => byte == 0x20 || (0x09 <= byte <= 0x0D),
            Class::NotBlank => !(byte == 0x20 || (0x09 <= byte <= 0x0D)),
        }
    }

    pub(crate) fn holds(self, byte: u8) -> (held: bool)
        ensures
            held == self.has(byte),
    {
        match self {
            Class::Space => byte == 0x20 || byte == 0x09,
            Class::Ident => (0x41 <= byte && byte <= 0x5A) || (0x61 <= byte && byte <= 0x7A) || (
            0x30 <= byte && byte <= 0x39) || byte == 0x5F,
            Class::Hex => (0x30 <= byte && byte <= 0x39) || (0x41 <= byte && byte <= 0x46) || (0x61
                <= byte && byte <= 0x66),
            Class::Dec => 0x30 <= byte && byte <= 0x39,
            Class::NotEol => byte != 0x0D && byte != 0x0A,
            Class::NotEolOrQuote => byte != 0x0D && byte != 0x0A && byte != 0x22,
            Class::NotLf => byte != 0x0A,
            Class::Blank => byte == 0x20 || (0x09 <= byte && byte <= 0x0D),
            Class::NotBlank => !(byte == 0x20 || (0x09 <= byte && byte <= 0x0D)),
        }
    }
}

/// The position behind the bytes of the class that stand at `i`, of
/// which at most `limit` are taken.
pub open spec fn span(s: Seq<u8>, i: int, class: Class, limit: int) -> int
    decreases limit,
{
    if limit > 0 && 0 <= i < s.len() && class.has(s[i]) {
        span(s, i + 1, class, limit - 1)
    } else {
        i
    }
}

/// A span ends at or behind its start, within the text and within its
/// limit.
pub proof fn lemma_span_bounds(s: Seq<u8>, i: int, class: Class, limit: int)
    requires
        0 <= i <= s.len(),
    ensures
        i <= span(s, i, class, limit) <= s.len(),
        limit >= 0 ==> span(s, i, class, limit) <= i + limit,
        forall|k: int| i <= k < span(s, i, class, limit) ==> class.has(#[trigger] s[k]),
    decreases limit,
{
    if limit > 0 && i < s.len() && class.has(s[i]) {
        lemma_span_bounds(s, i + 1, class, limit - 1);
    }
}

/// A span stops at its limit, at the end of the text, or before a byte
/// that is not of the class.
pub proof fn lemma_span_stops(s: Seq<u8>, i: int, class: Class, limit: int)
    requires
        0 <= i <= s.len(),
        limit >= 0,
    ensures
        span(s, i, class, limit) == i + limit || span(s, i, class, limit) == s.len() || !class.has(
            s[span(s, i, class, limit)],
        ),
    decreases limit,
{
    if limit > 0 && i < s.len() && class.has(s[i]) {
        lemma_span_stops(s, i + 1, class, limit - 1);
    }
}

/// Skips the bytes of the class, at most `limit` of them.
pub(crate) fn skip(s: &Vec<u8>, i: usize, class: Class, limit: usize) -> (end: usize)
    requires
        i <= s@.len(),
    ensures
        end == span(s@, i as int, class, limit as int),
        i <= end <= s@.len(),
{
    let mut end = i;
    let mut left = limit;
    while left > 0 && end < s.len() && class.holds(s[end])
        invariant
            i <= end <= s@.len(),
            span(s@, i as int, class, limit as int) == span(s@, end as int, class, left as int),
        decreases left,
    {
        end += 1;
        left -= 1;
    }
    end
}

/// The position behind the spaces and tabs at `i`, if there are any.
pub open spec fn spaces(s: Seq<u8>, i: int) -> int {
    span(s, i, Class::Space, s.len() as int)
}

/// The lower-case form of an ASCII letter; any other byte as it is.
pub open spec fn lower(byte: u8) -> u8 {
    if 0x41 <= byte <= 0x5A {
        (byte + 0x20) as u8
    } else {
        byte
    }
}

pub(crate) fn to_lower(byte: u8) -> (lowered: u8)
    ensures
        lowered == lower(byte),
{
    if 0x41 <= byte && byte <= 0x5A {
        byte + 0x20
    } else {
        byte
    }
}

/// Whether the byte at `i` is `byte`, whatever the case of a letter.
pub open spec fn at(s: Seq<u8>, i: int, byte: u8) -> bool {
    0 <= i < s.len() && lower(s[i]) == byte
}

pub(crate) fn is_at(s: &Vec<u8>, i: usize, byte: u8) -> (found: bool)
    ensures
        found == at(s@, i as int, byte),
{
    i < s.len() && to_lower(s[i]) == byte
}

/// The value of a digit of any base up to 16.
pub open spec fn digit(byte: u8) -> int {
    if 0x30 <= byte <= 0x39 {
        byte - 0x30
    } else if 0x41 <= byte <= 0x46 {
        byte - 0x41 + 10
    } else {
        byte - 0x61 + 10
    }
}

/// The number that the digits from `from` up to `to` spell in the base.
pub open spec fn number(s: Seq<u8>, from: int, to: int, base: int) -> int
    decreases to - from,
{
    if to <= from {
        0
    } else {
        number(s, from, to - 1, base) * base + digit(s[to - 1])
    }
}

/// A number is not negative.
pub proof fn lemma_number_bounds(s: Seq<u8>, from: int, to: int, base: int)
    requires
        0 <= from <= to <= s.len(),
        base == 10 || base == 16,
        forall|k: int| from <= k < to ==> Class::Hex.has(#[trigger] s[k]),
    ensures
        0 <= number(s, from, to, base),
    decreases to - from,
{
    if from < to {
        lemma_number_bounds(s, from, to - 1, base);
        assert(Class::Hex.has(s[to - 1]));
        assert(number(s, from, to - 1, base) * base >= 0) by (nonlinear_arith)
            requires
                number(s, from, to - 1, base) >= 0,
                base > 0,
        ;
    }
}

/// A number in the source text: `0x` and up to `hex_digits` hexadecimal
/// digits, or else up to `dec_digits` decimal digits. Digits beyond that
/// are left where they are. A number above `most` is not recognized.
pub open spec fn literal(s: Seq<u8>, i: int, hex_digits: int, dec_digits: int, most: int) -> Option<
    (int, int),
> {
    let hex_end = span(s, i + 2, Class::Hex, hex_digits);
    let dec_end = span(s, i, Class::Dec, dec_digits);
    if 0 <= i && i + 1 < s.len() && s[i] == 0x30 && s[i + 1] == 0x78 && hex_end > i + 2 && number(
        s,
        i + 2,
        hex_end,
        16,
    ) <= most {
        Some((number(s, i + 2, hex_end, 16), hex_end))
    } else if dec_end > i && number(s, i, dec_end, 10) <= most {
        Some((number(s, i, dec_end, 10), dec_end))
    } else {
        None
    }
}

/// Reads the digits from `from` up to `to` as a number in the base,
/// unless the number is above `most`.
pub(crate) fn read_number(s: &Vec<u8>, from: usize, to: usize, base: u64, most: u64) -> (value: Option<u64>)
    requires
        from <= to <= s@.len(),
        base == 10 || base == 16,
        15 <= most <= 0x7FFF_FFFF_FFFF_FFFF,
        forall|k: int| from <= k < to ==> Class::Hex.has(#[trigger] s@[k]),
    ensures
        value == (if number(s@, from as int, to as int, base as int) <= most {
            Some(number(s@, from as int, to as int, base as int) as u64)
        } else {
            None
        }),
{
    let mut value: u64 = 0;
    let mut k = from;
    while k < to
        invariant
            from <= k <= to <= s@.len(),
            base == 10 || base == 16,
            15 <= most <= 0x7FFF_FFFF_FFFF_FFFF,
            forall|k: int| from <= k < to ==> Class::Hex.has(#[trigger] s@[k]),
            value == number(s@, from as int, k as int, base as int),
            value <= most,
        decreases to - k,
    {
        let byte = s[k];
        assert(Class::Hex.has(byte));
        let d: u64 = if 0x30 <= byte && byte <= 0x39 {
            (byte - 0x30) as u64
        } else if 0x41 <= byte && byte <= 0x46 {
            (byte - 0x41) as u64 + 10
        } else {
            (byte - 0x61) as u64 + 10
        };
        if value > (most - d) / base {
            proof {
                let rest = number(s@, from as int, k + 1, base as int);
                assert(rest == value * base + d);
                let (v, b, m, dd) = (value as int, base as int, most as int, d as int);
                assert(v * b + dd > m) by (nonlinear_arith)
                    requires
                        v > (m - dd) / b,
                        b > 0,
                        0 <= dd <= m,
                ;
                lemma_number_grows(s@, from as int, k + 1, to as int, base as int);
            }
            return None;
        }
        assert(value * base + d <= most) by (nonlinear_arith)
            requires
                value as int <= (most as int - d as int) / (base as int),
                base > 0,
                d <= most,
        ;
        value = value * base + d;
        k += 1;
    }
    Some(value)
}

/// More digits do not make a number smaller.
pub proof fn lemma_number_grows(s: Seq<u8>, from: int, middle: int, to: int, base: int)
    requires
        0 <= from <= middle <= to <= s.len(),
        base == 10 || base == 16,
        forall|k: int| from <= k < to ==> Class::Hex.has(#[trigger] s[k]),
    ensures
        number(s, from, middle, base) <= number(s, from, to, base),
    decreases to - middle,
{
    if middle < to {
        lemma_number_grows(s, from, middle, to - 1, base);
        lemma_number_bounds(s, from, to - 1, base);
        assert(Class::Hex.has(s[to - 1]));
        assert(number(s, from, to - 1, base) * base >= number(s, from, to - 1, base))
            by (nonlinear_arith)
            requires
                number(s, from, to - 1, base) >= 0,
                base >= 1,
        ;
    }
}

/// Reads a number at `i`.
pub(crate) fn read_literal(s: &Vec<u8>, i: usize, hex_digits: usize, dec_digits: usize, most: u64) -> (result:
    Option<(u64, usize)>)
    requires
        i <= s@.len(),
        15 <= most <= 0x7FFF_FFFF_FFFF_FFFF,
    ensures
        match literal(s@, i as int, hex_digits as int, dec_digits as int, most as int) {
            Some((value, end)) => result == Some((value as u64, end as usize)) && i < end
                <= s@.len() && 0 <= value <= most,
            None => result is None,
        },
{
    if i < s.len() && s.len() - i >= 2 && s[i] == 0x30 && s[i + 1] == 0x78 {
        let end = skip(s, i + 2, Class::Hex, hex_digits);
        proof {
            lemma_span_bounds(s@, i + 2, Class::Hex, hex_digits as int);
            lemma_number_bounds(s@, i + 2, end as int, 16);
        }
        if end > i + 2 {
            match read_number(s, i + 2, end, 16, most) {
                Some(value) => {
                    return Some((value, end));
                },
                None => {},
            }
        }
    }
    let end = skip(s, i, Class::Dec, dec_digits);
    proof {
        lemma_span_bounds(s@, i as int, Class::Dec, dec_digits as int);
        assert forall|k: int| i <= k < end implies Class::Hex.has(#[trigger] s@[k]) by {
            assert(Class::Dec.has(s@[k]));
        }
        lemma_number_bounds(s@, i as int, end as int, 10);
    }
    if end > i {
        match read_number(s, i, end, 10, most) {
            Some(value) => {
                return Some((value, end));
            },
            None => {},
        }
    }
    None
}

/// The end of a line that has nothing more on it: spaces and tabs and a
/// comment, which starts with `;`, may stand before the end. The
/// position is that of the end of the line itself, which is left where
/// it is.
pub open spec fn end_line(s: Seq<u8>, i: int) -> Option<int> {
    let text = spaces(s, i);
    let end = if 0 <= text < s.len() && s[text] == 0x3B {
        span(s, text + 1, Class::NotEol, s.len() as int)
    } else {
        text
    };
    if 0 <= end < s.len() && !Class::NotEol.has(s[end]) {
        Some(end)
    } else {
        None
    }
}

pub(crate) fn read_end_line(s: &Vec<u8>, i: usize) -> (result: Option<usize>)
    requires
        i <= s@.len(),
    ensures
        match end_line(s@, i as int) {
            Some(end) => result == Some(end as usize) && i <= end < s@.len(),
            None => result is None,
        },
{
    // ignore trailing whitespace
    let text = skip(s, i, Class::Space, s.len());
    // ignore comments
    let end = if text < s.len() && s[text] == 0x3B {
        skip(s, text + 1, Class::NotEol, s.len())
    } else {
        text
    };
    // does the line truly end?
    if end < s.len() && !Class::NotEol.holds(s[end]) {
        Some(end)
    } else {
        None
    }
}

/// A comma, with spaces and tabs around it as one likes.
pub open spec fn comma(s: Seq<u8>, i: int) -> Option<int> {
    let at_comma = spaces(s, i);
    if 0 <= at_comma < s.len() && s[at_comma] == 0x2C {
        Some(spaces(s, at_comma + 1))
    } else {
        None
    }
}

pub(crate) fn read_comma(s: &Vec<u8>, i: usize) -> (result: Option<usize>)
    requires
        i <= s@.len(),
    ensures
        match comma(s@, i as int) {
            Some(end) => result == Some(end as usize) && i < end <= s@.len(),
            None => result is None,
        },
{
    let at_comma = skip(s, i, Class::Space, s.len());
    if at_comma < s.len() && s[at_comma] == 0x2C {
        Some(skip(s, at_comma + 1, Class::Space, s.len()))
    } else {
        None
    }
}

/// An identifier: letters, digits and underscores, as many as there are.
pub open spec fn identifier(s: Seq<u8>, i: int) -> Option<int> {
    let end = span(s, i, Class::Ident, s.len() as int);
    if end > i {
        Some(end)
    } else {
        None
    }
}

pub(crate) fn read_identifier(s: &Vec<u8>, i: usize) -> (result: Option<usize>)
    requires
        i <= s@.len(),
    ensures
        match identifier(s@, i as int) {
            Some(end) => result == Some(end as usize) && i < end <= s@.len() && forall|k: int|
                i <= k < end ==> Class::Ident.has(#[trigger] s@[k]),
            None => result is None,
        },
{
    let end = skip(s, i, Class::Ident, s.len());
    proof {
        lemma_span_bounds(s@, i as int, Class::Ident, s@.len() as int);
    }
    if end > i {
        Some(end)
    } else {
        None
    }
}

/// In text, a character starts behind every ASCII byte: no character of
/// several bytes holds one.
pub proof fn lemma_boundary_behind_ascii(bytes: Seq<u8>, i: int)
    requires
        valid_utf8(bytes),
        0 <= i < bytes.len(),
        bytes[i] < 0x80,
    ensures
        is_char_boundary(bytes, i + 1),
    decreases bytes.len(),
{
    reveal_with_fuel(is_char_boundary, 2);
    vstd::utf8::is_char_boundary_iff_not_is_continuation_byte(bytes, i);
    let first = length_of_first_scalar(bytes);
    let rest = pop_first_scalar(bytes);
    if i > 0 {
        assert(is_char_boundary(rest, i - first));
        assert(rest[i - first] == bytes[i]);
        lemma_boundary_behind_ascii(rest, i - first);
    }
}

/// The characters that the bytes from `from` up to `to` spell.
pub open spec fn spelled(s: Seq<u8>, from: int, to: int) -> Seq<char> {
    decode_utf8(s.subrange(from, to))
}

/// The part of `text` from the byte `from` up to the byte `to`, where
/// both lie between characters.
pub(crate) fn substring(text: &str, from: usize, to: usize) -> (word: String)
    requires
        from <= to <= text.spec_bytes().len(),
        is_char_boundary(text.spec_bytes(), from as int),
        is_char_boundary(text.spec_bytes(), to as int),
    ensures
        word@ == spelled(text.spec_bytes(), from as int, to as int),
{
    broadcast use {
        vstd::utf8::encode_utf8_valid_utf8,
        vstd::utf8::encode_utf8_decode_utf8,
        vstd::utf8::valid_utf8_split,
    };

    let ghost bytes = text.spec_bytes();
    assert(valid_utf8(bytes));
    let (_, tail) = text.split_at(from);
    let ghost rest = tail.spec_bytes();
    assert(valid_utf8(rest));
    assert(rest.len() == bytes.len() - from);
    assert(is_char_boundary(rest, to - from)) by {
        lemma_boundary_in_tail(bytes, from as int, to as int);
    }
    let (word, _) = tail.split_at(to - from);
    assert(word.spec_bytes() == bytes.subrange(from as int, to as int));
    String::from_str(word)
}

/// A place between characters of a text lies between characters of
/// what is left of the text behind another such place.
pub proof fn lemma_boundary_in_tail(bytes: Seq<u8>, from: int, to: int)
    requires
        valid_utf8(bytes),
        0 <= from <= to <= bytes.len(),
        is_char_boundary(bytes, from),
        is_char_boundary(bytes, to),
    ensures
        is_char_boundary(bytes.subrange(from, bytes.len() as int), to - from),
    decreases bytes.len(),
{
    reveal_with_fuel(is_char_boundary, 2);
    vstd::utf8::valid_utf8_split(bytes, from);
    let tail = bytes.subrange(from, bytes.len() as int);
    if from == 0 {
        assert(tail == bytes);
    } else if to == from {
    } else {
        let first = length_of_first_scalar(bytes);
        let rest = pop_first_scalar(bytes);
        assert(is_char_boundary(rest, from - first));
        assert(is_char_boundary(rest, to - first));
        lemma_boundary_in_tail(rest, from - first, to - first);
        assert(rest.subrange(from - first, rest.len() as int) == tail);
    }
}

} // verus!
