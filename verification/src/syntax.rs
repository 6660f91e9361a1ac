//! The operands of the assembly dialect: constant expressions,
//! registers, conditions and data, and the patterns that the grammar
//! of a line is written in.

use crate::ast::{
    canonical_bytes, canonical_string, little_endian_u16, BinaryExpr, BinaryOperator, Expr, Flag,
    Reg16, Reg16Push, Reg8, UnaryExpr, UnaryOperator,
};
use crate::lexer::{
    at, comma, end_line, identifier, is_at, lemma_boundary_behind_ascii, literal, read_comma,
    read_end_line, read_identifier, read_literal, skip, spaces, span, spelled, substring,
    to_lower, Class,
};
use vstd::prelude::*;
use vstd::string::StringSliceAdditionalSpecFns;

verus! {

/// Whether `s` holds the bytes of `text`, with or without a line feed
/// added behind them.
pub open spec fn holds_text(s: Seq<u8>, text: &str) -> bool {
    s == text.spec_bytes() || s == text.spec_bytes().push(0x0Au8)
}

/// The binary operator that a byte stands for on a level of precedence.
/// The levels, from the one that binds most: 1 for `*`, `/` and `%`; 2
/// for `+` and `-`; 3 for `&`; 4 for `^`; 5 for `|`.
pub open spec fn operator_on(level: int, byte: u8) -> Option<BinaryOperator> {
    if level == 1 && byte == 0x2A {
        Some(BinaryOperator::Mul)
    } else if level == 1 && byte == 0x2F {
        Some(BinaryOperator::Div)
    } else if level == 1 && byte == 0x25 {
        Some(BinaryOperator::Rem)
    } else if level == 2 && byte == 0x2B {
        Some(BinaryOperator::Add)
    } else if level == 2 && byte == 0x2D {
        Some(BinaryOperator::Sub)
    } else if level == 3 && byte == 0x26 {
        Some(BinaryOperator::And)
    } else if level == 4 && byte == 0x5E {
        Some(BinaryOperator::Xor)
    } else if level == 5 && byte == 0x7C {
        Some(BinaryOperator::Or)
    } else {
        None
    }
}

fn operator_of(level: u8, byte: u8) -> (operator: Option<BinaryOperator>)
    ensures
        operator == operator_on(level as int, byte),
{
    if level == 1 && byte == 0x2A {
        Some(BinaryOperator::Mul)
    } else if level == 1 && byte == 0x2F {
        Some(BinaryOperator::Div)
    } else if level == 1 && byte == 0x25 {
        Some(BinaryOperator::Rem)
    } else if level == 2 && byte == 0x2B {
        Some(BinaryOperator::Add)
    } else if level == 2 && byte == 0x2D {
        Some(BinaryOperator::Sub)
    } else if level == 3 && byte == 0x26 {
        Some(BinaryOperator::And)
    } else if level == 4 && byte == 0x5E {
        Some(BinaryOperator::Xor)
    } else if level == 5 && byte == 0x7C {
        Some(BinaryOperator::Or)
    } else {
        None
    }
}

/// A constant expression at `i`: the expression and the position behind
/// it. Operators of one level associate to the left; spaces and tabs may
/// stand around a binary operator, and nowhere else.
pub open spec fn expression(s: Seq<u8>, i: int) -> Option<(Expr, int)>
    decreases s.len() - i, 7int, 0int,
{
    binary(s, i, 5)
}

/// An expression of the operators up to `level`: operands of the level
/// below, with operators of this level between them.
pub open spec fn binary(s: Seq<u8>, i: int, level: nat) -> Option<(Expr, int)>
    decreases s.len() - i, level + 1, 1int,
{
    if level == 0 {
        unary(s, i)
    } else {
        match binary(s, i, (level - 1) as nat) {
            None => None,
            Some((left, end)) => if i <= end <= s.len() {
                Some(binary_tail(s, end, level, left))
            } else {
                None
            },
        }
    }
}

/// What follows the operand `left` on its level: as long as an operator
/// of the level and another operand follow, both are taken and the
/// expression so far becomes the left operand.
pub open spec fn binary_tail(s: Seq<u8>, i: int, level: nat, left: Expr) -> (Expr, int)
    decreases s.len() - i, level + 1, 0int,
{
    let at_operator = spaces(s, i);
    if 0 < level && 0 <= i <= at_operator < s.len() && operator_on(level as int, s[at_operator])
        is Some {
        let operand = spaces(s, at_operator + 1);
        if i < operand <= s.len() {
            match binary(s, operand, (level - 1) as nat) {
                Some((right, end)) => if i < end <= s.len() {
                    binary_tail(
                        s,
                        end,
                        level,
                        Expr::Binary(
                            Box::new(
                                BinaryExpr {
                                    left,
                                    operator: operator_on(level as int, s[at_operator])->Some_0,
                                    right,
                                },
                            ),
                        ),
                    )
                } else {
                    (left, i)
                },
                None => (left, i),
            }
        } else {
            (left, i)
        }
    } else {
        (left, i)
    }
}

/// A primary expression, with any number of minus signs before it.
pub open spec fn unary(s: Seq<u8>, i: int) -> Option<(Expr, int)>
    decreases s.len() - i, 0int, 1int,
{
    if 0 <= i < s.len() && s[i] == 0x2D {
        match unary(s, i + 1) {
            Some((expr, end)) => Some(
                (
                    Expr::Unary(Box::new(UnaryExpr { operator: UnaryOperator::Minus, expr })),
                    end,
                ),
            ),
            None => None,
        }
    } else {
        primary(s, i)
    }
}

/// An expression in parentheses, a number or an identifier. A number
/// has up to 16 hexadecimal digits behind `0x` or up to 20 decimal
/// digits, and fits a signed 64-bit integer.
pub open spec fn primary(s: Seq<u8>, i: int) -> Option<(Expr, int)>
    decreases s.len() - i, 0int, 0int,
{
    if 0 <= i < s.len() && s[i] == 0x28 {
        match expression(s, i + 1) {
            Some((expr, end)) => if 0 <= end < s.len() && s[end] == 0x29 {
                Some((expr, end + 1))
            } else {
                None
            },
            None => None,
        }
    } else {
        match literal(s, i, 16, 20, i64::MAX as int) {
            Some((value, end)) => Some((Expr::Const(value as i64), end)),
            None => match identifier(s, i) {
                Some(end) => Some((Expr::Ident(canonical_string(spelled(s, i, end))), end)),
                None => None,
            },
        }
    }
}

/// Reads a constant expression.
pub(crate) fn read_expression(text: &str, s: &Vec<u8>, i: usize) -> (result: Option<(Expr, usize)>)
    requires
        holds_text(s@, text),
        i <= s@.len(),
    ensures
        match expression(s@, i as int) {
            Some((expr, end)) => result matches Some((read, stop)) && read.canonical() == expr
                && stop == end && i < end <= s@.len(),
            None => result is None,
        },
    decreases s@.len() - i, 7int, 0int,
{
    read_binary(text, s, i, 5)
}

fn read_binary(text: &str, s: &Vec<u8>, i: usize, level: u8) -> (result: Option<(Expr, usize)>)
    requires
        holds_text(s@, text),
        i <= s@.len(),
        level <= 5,
    ensures
        match binary(s@, i as int, level as nat) {
            Some((expr, end)) => result matches Some((read, stop)) && read.canonical() == expr
                && stop == end && i < end <= s@.len(),
            None => result is None,
        },
    decreases s@.len() - i, level + 1, 1int,
{
    let length = s.len();
    if level == 0 {
        return read_unary(text, s, i);
    }
    let (mut left, mut end) = match read_binary(text, s, i, level - 1) {
        Some(found) => found,
        None => {
            return None;
        },
    };
    let ghost first = left.canonical();
    let ghost start = end;
    loop
        invariant
            holds_text(s@, text),
            0 < level <= 5,
            length == s@.len(),
            i < end <= s@.len(),
            binary_tail(s@, start as int, level as nat, first) == binary_tail(
                s@,
                end as int,
                level as nat,
                left.canonical(),
            ),
        ensures
            (left.canonical(), end as int) == binary_tail(s@, start as int, level as nat, first),
            i < end <= s@.len(),
        decreases s@.len() - end,
    {
        let at_operator = skip(s, end, Class::Space, s.len());
        if at_operator >= s.len() {
            break ;
        }
        let operator = match operator_of(level, s[at_operator]) {
            Some(operator) => operator,
            None => {
                break ;
            },
        };
        let operand = skip(s, at_operator + 1, Class::Space, s.len());
        match read_binary(text, s, operand, level - 1) {
            Some((right, stop)) => {
                left = Expr::binary(left, operator, right);
                end = stop;
            },
            None => {
                break ;
            },
        }
    }
    Some((left, end))
}

fn read_unary(text: &str, s: &Vec<u8>, i: usize) -> (result: Option<(Expr, usize)>)
    requires
        holds_text(s@, text),
        i <= s@.len(),
    ensures
        match unary(s@, i as int) {
            Some((expr, end)) => result matches Some((read, stop)) && read.canonical() == expr
                && stop == end && i < end <= s@.len(),
            None => result is None,
        },
    decreases s@.len() - i, 0int, 1int,
{
    if i < s.len() && s[i] == 0x2D {
        match read_unary(text, s, i + 1) {
            Some((expr, end)) => Some((Expr::unary(expr, UnaryOperator::Minus), end)),
            None => None,
        }
    } else {
        read_primary(text, s, i)
    }
}

fn read_primary(text: &str, s: &Vec<u8>, i: usize) -> (result: Option<(Expr, usize)>)
    requires
        holds_text(s@, text),
        i <= s@.len(),
    ensures
        match primary(s@, i as int) {
            Some((expr, end)) => result matches Some((read, stop)) && read.canonical() == expr
                && stop == end && i < end <= s@.len(),
            None => result is None,
        },
    decreases s@.len() - i, 0int, 0int,
{
    if i < s.len() && s[i] == 0x28 {
        match read_expression(text, s, i + 1) {
            Some((expr, end)) => {
                if end < s.len() && s[end] == 0x29 {
                    Some((expr, end + 1))
                } else {
                    None
                }
            },
            None => None,
        }
    } else {
        match read_literal(s, i, 16, 20, 0x7FFF_FFFF_FFFF_FFFF) {
            Some((value, end)) => Some((Expr::Const(value as i64), end)),
            None => match read_name(text, s, i) {
                Some((name, end)) => Some((Expr::Ident(name), end)),
                None => None,
            },
        }
    }
}

/// Reads an identifier and gives it as a string.
pub(crate) fn read_name(text: &str, s: &Vec<u8>, i: usize) -> (result: Option<(String, usize)>)
    requires
        holds_text(s@, text),
        i <= s@.len(),
    ensures
        match identifier(s@, i as int) {
            Some(end) => result matches Some((name, stop)) && name@ == spelled(
                s@,
                i as int,
                end,
            ) && stop == end && i < end <= s@.len(),
            None => result is None,
        },
{
    let length = s.len();
    match read_identifier(s, i) {
        Some(end) => {
            let ghost bytes = text.spec_bytes();
            proof {
                broadcast use vstd::utf8::encode_utf8_valid_utf8;

                assert(i < end <= length);
                assert(Class::Ident.has(s@[end - 1]));
                assert(Class::Ident.has(s@[i as int]));
                if s@ != bytes {
                    assert(s@[bytes.len() as int] == 0x0Au8);
                }
                assert(end <= bytes.len());
                assert(s@.subrange(i as int, end as int) =~= bytes.subrange(
                    i as int,
                    end as int,
                ));
                assert(bytes[i as int] == s@[i as int]);
                assert(bytes[end - 1] == s@[end - 1]);
                vstd::utf8::is_char_boundary_iff_not_is_continuation_byte(bytes, i as int);
                lemma_boundary_behind_ascii(bytes, end - 1);
            }
            Some((substring(text, i, end), end))
        },
        None => None,
    }
}


/// An 8-bit register: one of the letters a, b, c, d, e, h, l.
pub open spec fn register8(s: Seq<u8>, i: int) -> Option<(Reg8, int)> {
    if at(s, i, 0x61) {
        Some((Reg8::A, i + 1))
    } else if at(s, i, 0x62) {
        Some((Reg8::B, i + 1))
    } else if at(s, i, 0x63) {
        Some((Reg8::C, i + 1))
    } else if at(s, i, 0x64) {
        Some((Reg8::D, i + 1))
    } else if at(s, i, 0x65) {
        Some((Reg8::E, i + 1))
    } else if at(s, i, 0x68) {
        Some((Reg8::H, i + 1))
    } else if at(s, i, 0x6C) {
        Some((Reg8::L, i + 1))
    } else {
        None
    }
}

pub(crate) fn read_register8(s: &Vec<u8>, i: usize) -> (result: Option<(Reg8, usize)>)
    requires
        i <= s@.len(),
    ensures
        match register8(s@, i as int) {
            Some((reg, end)) => result == Some((reg, end as usize)) && end == i + 1 && end
                <= s@.len(),
            None => result is None,
        },
{
    let length = s.len();
    if i >= s.len() {
        return None;
    }
    let byte = to_lower(s[i]);
    if byte == 0x61 {
        Some((Reg8::A, i + 1))
    } else if byte == 0x62 {
        Some((Reg8::B, i + 1))
    } else if byte == 0x63 {
        Some((Reg8::C, i + 1))
    } else if byte == 0x64 {
        Some((Reg8::D, i + 1))
    } else if byte == 0x65 {
        Some((Reg8::E, i + 1))
    } else if byte == 0x68 {
        Some((Reg8::H, i + 1))
    } else if byte == 0x6C {
        Some((Reg8::L, i + 1))
    } else {
        None
    }
}

/// Whether the two letters stand at `i`, in whatever case.
pub open spec fn letters(s: Seq<u8>, i: int, first: u8, second: u8) -> bool {
    at(s, i, first) && at(s, i + 1, second)
}

fn has_letters(s: &Vec<u8>, i: usize, first: u8, second: u8) -> (found: bool)
    requires
        i <= s@.len(),
    ensures
        found == letters(s@, i as int, first, second),
        found ==> i + 2 <= s@.len(),
{
    i < s.len() && s.len() - i >= 2 && to_lower(s[i]) == first && to_lower(s[i + 1]) == second
}

/// A 16-bit register: bc, de, hl or sp.
pub open spec fn register16(s: Seq<u8>, i: int) -> Option<(Reg16, int)> {
    if letters(s, i, 0x62, 0x63) {
        Some((Reg16::BC, i + 2))
    } else if letters(s, i, 0x64, 0x65) {
        Some((Reg16::DE, i + 2))
    } else if letters(s, i, 0x68, 0x6C) {
        Some((Reg16::HL, i + 2))
    } else if letters(s, i, 0x73, 0x70) {
        Some((Reg16::SP, i + 2))
    } else {
        None
    }
}

pub(crate) fn read_register16(s: &Vec<u8>, i: usize) -> (result: Option<(Reg16, usize)>)
    requires
        i <= s@.len(),
    ensures
        match register16(s@, i as int) {
            Some((reg, end)) => result == Some((reg, end as usize)) && end == i + 2 && end
                <= s@.len(),
            None => result is None,
        },
{
    let length = s.len();
    if has_letters(s, i, 0x62, 0x63) {
        Some((Reg16::BC, i + 2))
    } else if has_letters(s, i, 0x64, 0x65) {
        Some((Reg16::DE, i + 2))
    } else if has_letters(s, i, 0x68, 0x6C) {
        Some((Reg16::HL, i + 2))
    } else if has_letters(s, i, 0x73, 0x70) {
        Some((Reg16::SP, i + 2))
    } else {
        None
    }
}

/// A 16-bit register of `push` and `pop`: bc, de, hl or af.
pub open spec fn register16_push(s: Seq<u8>, i: int) -> Option<(Reg16Push, int)> {
    if letters(s, i, 0x62, 0x63) {
        Some((Reg16Push::BC, i + 2))
    } else if letters(s, i, 0x64, 0x65) {
        Some((Reg16Push::DE, i + 2))
    } else if letters(s, i, 0x68, 0x6C) {
        Some((Reg16Push::HL, i + 2))
    } else if letters(s, i, 0x61, 0x66) {
        Some((Reg16Push::AF, i + 2))
    } else {
        None
    }
}

pub(crate) fn read_register16_push(s: &Vec<u8>, i: usize) -> (result: Option<(Reg16Push, usize)>)
    requires
        i <= s@.len(),
    ensures
        match register16_push(s@, i as int) {
            Some((reg, end)) => result == Some((reg, end as usize)) && end == i + 2 && end
                <= s@.len(),
            None => result is None,
        },
{
    let length = s.len();
    if has_letters(s, i, 0x62, 0x63) {
        Some((Reg16Push::BC, i + 2))
    } else if has_letters(s, i, 0x64, 0x65) {
        Some((Reg16Push::DE, i + 2))
    } else if has_letters(s, i, 0x68, 0x6C) {
        Some((Reg16Push::HL, i + 2))
    } else if has_letters(s, i, 0x61, 0x66) {
        Some((Reg16Push::AF, i + 2))
    } else {
        None
    }
}

/// A condition: z, nz, c or nc, tried in this order.
pub open spec fn condition(s: Seq<u8>, i: int) -> Option<(Flag, int)> {
    if at(s, i, 0x7A) {
        Some((Flag::Z, i + 1))
    } else if letters(s, i, 0x6E, 0x7A) {
        Some((Flag::NZ, i + 2))
    } else if at(s, i, 0x63) {
        Some((Flag::C, i + 1))
    } else if letters(s, i, 0x6E, 0x63) {
        Some((Flag::NC, i + 2))
    } else {
        None
    }
}

pub(crate) fn read_condition(s: &Vec<u8>, i: usize) -> (result: Option<(Flag, usize)>)
    requires
        i <= s@.len(),
    ensures
        match condition(s@, i as int) {
            Some((flag, end)) => result == Some((flag, end as usize)) && i < end <= s@.len(),
            None => result is None,
        },
{
    let length = s.len();
    if is_at(s, i, 0x7A) {
        Some((Flag::Z, i + 1))
    } else if has_letters(s, i, 0x6E, 0x7A) {
        Some((Flag::NZ, i + 2))
    } else if is_at(s, i, 0x63) {
        Some((Flag::C, i + 1))
    } else if has_letters(s, i, 0x6E, 0x63) {
        Some((Flag::NC, i + 2))
    } else {
        None
    }
}

/// The register that an 8-bit operation works on besides the
/// accumulator. The accumulator may be named before it: `a, b` reads as
/// `b`. Where `a` and a comma are not followed by a register, the `a` is
/// the register.
pub open spec fn accumulator_and_register8(s: Seq<u8>, i: int) -> Option<(Reg8, int)> {
    if at(s, i, 0x61) && comma(s, i + 1) is Some && register8(s, comma(s, i + 1)->Some_0)
        is Some {
        register8(s, comma(s, i + 1)->Some_0)
    } else {
        register8(s, i)
    }
}

pub(crate) fn read_accumulator_and_register8(s: &Vec<u8>, i: usize) -> (result: Option<(Reg8, usize)>)
    requires
        i <= s@.len(),
    ensures
        match accumulator_and_register8(s@, i as int) {
            Some((reg, end)) => result == Some((reg, end as usize)) && i < end <= s@.len(),
            None => result is None,
        },
{
    let length = s.len();
    if is_at(s, i, 0x61) {
        match read_comma(s, i + 1) {
            Some(operand) => match read_register8(s, operand) {
                Some(found) => {
                    return Some(found);
                },
                None => {},
            },
            None => {},
        }
    }
    read_register8(s, i)
}

/// The accumulator and a comma, which may stand before the operand of
/// an 8-bit operation and may be left out.
pub open spec fn optional_accumulator(s: Seq<u8>, i: int) -> int {
    if at(s, i, 0x61) && comma(s, i + 1) is Some {
        comma(s, i + 1)->Some_0
    } else {
        i
    }
}

pub(crate) fn skip_optional_accumulator(s: &Vec<u8>, i: usize) -> (end: usize)
    requires
        i <= s@.len(),
    ensures
        end == optional_accumulator(s@, i as int),
        i <= end <= s@.len(),
{
    let length = s.len();
    if is_at(s, i, 0x61) {
        match read_comma(s, i + 1) {
            Some(end) => {
                return end;
            },
            None => {},
        }
    }
    i
}

/// One item of the data of `db`: a string between double quotes, which
/// holds at least one byte and neither a quote nor the end of the line,
/// or a number of one byte: `0x` and one or two hexadecimal digits, or
/// up to three decimal digits.
pub open spec fn data_item(s: Seq<u8>, i: int) -> Option<(Seq<u8>, int)> {
    if 0 <= i < s.len() && s[i] == 0x22 {
        let end = span(s, i + 1, Class::NotEolOrQuote, s.len() as int);
        if i + 1 < end < s.len() && s[end] == 0x22 {
            Some((s.subrange(i + 1, end), end + 1))
        } else {
            None
        }
    } else {
        match literal(s, i, 2, 3, 0xFF) {
            Some((value, end)) => Some((seq![value as u8], end)),
            None => None,
        }
    }
}

/// The items that follow the data so far, each behind a comma, as long
/// as there are any.
pub open spec fn more_data(s: Seq<u8>, i: int, data: Seq<u8>) -> (Seq<u8>, int)
    decreases s.len() - i,
{
    match comma(s, i) {
        None => (data, i),
        Some(item) => match data_item(s, item) {
            None => (data, i),
            Some((bytes, end)) => if i < end <= s.len() {
                more_data(s, end, data + bytes)
            } else {
                (data, i)
            },
        },
    }
}

/// The data of `db`: one item or more, with commas between them.
pub open spec fn data_list(s: Seq<u8>, i: int) -> Option<(Seq<u8>, int)> {
    match data_item(s, i) {
        None => None,
        Some((bytes, end)) => Some(more_data(s, end, bytes)),
    }
}

/// Reads one item of data and appends its bytes to `data`.
fn read_data_item(s: &Vec<u8>, i: usize, data: &mut Vec<u8>) -> (result: Option<usize>)
    requires
        i <= s@.len(),
    ensures
        match data_item(s@, i as int) {
            Some((bytes, end)) => result == Some(end as usize) && i < end <= s@.len()
                && final(data)@ == old(data)@ + bytes,
            None => result is None && final(data)@ == old(data)@,
        },
{
    let length = s.len();
    if i < s.len() && s[i] == 0x22 {
        let end = skip(s, i + 1, Class::NotEolOrQuote, s.len());
        if end > i + 1 && end < s.len() && s[end] == 0x22 {
            let ghost before = data@;
            let mut k = i + 1;
            while k < end
                invariant
                    i + 1 <= k <= end < s@.len(),
                    data@ == before + s@.subrange(i + 1, k as int),
                decreases end - k,
            {
                data.push(s[k]);
                k += 1;
            }
            Some(end + 1)
        } else {
            None
        }
    } else {
        match read_literal(s, i, 2, 3, 0xFF) {
            Some((value, end)) => {
                data.push(value as u8);
                Some(end)
            },
            None => None,
        }
    }
}

/// Reads the data of `db`.
pub(crate) fn read_data_list(s: &Vec<u8>, i: usize) -> (result: Option<(Vec<u8>, usize)>)
    requires
        i <= s@.len(),
    ensures
        match data_list(s@, i as int) {
            Some((bytes, end)) => result matches Some((data, stop)) && data@ == bytes && stop
                == end && i < end <= s@.len(),
            None => result is None,
        },
{
    let length = s.len();
    let mut data: Vec<u8> = Vec::new();
    let mut end = match read_data_item(s, i, &mut data) {
        Some(end) => end,
        None => {
            return None;
        },
    };
    let ghost first = data@;
    let ghost start = end;
    loop
        invariant
            length == s@.len(),
            i < end <= s@.len(),
            more_data(s@, start as int, first) == more_data(s@, end as int, data@),
        ensures
            (data@, end as int) == more_data(s@, start as int, first),
            i < end <= s@.len(),
        decreases s@.len() - end,
    {
        let item = match read_comma(s, end) {
            Some(item) => item,
            None => {
                break ;
            },
        };
        match read_data_item(s, item, &mut data) {
            Some(stop) => {
                end = stop;
            },
            None => {
                break ;
            },
        }
    }
    Some((data, end))
}

/// What a pattern has taken from a line.
pub struct Captures {
    /// The first 8-bit register.
    pub first: Option<Reg8>,
    /// The second 8-bit register.
    pub second: Option<Reg8>,
    /// The 16-bit register.
    pub pair: Option<Reg16>,
    /// The 16-bit register of `push` or `pop`.
    pub stack: Option<Reg16Push>,
    /// The condition.
    pub flag: Option<Flag>,
    /// The expression.
    pub expr: Option<Expr>,
    /// The name of a label or a constant.
    pub name: Option<String>,
    /// The data of `db`.
    pub bytes: Option<Vec<u8>>,
    /// The number of `dw` or `advance_address`.
    pub word: Option<u16>,
}

impl Captures {
    /// Nothing taken yet.
    pub open spec fn nothing() -> Captures {
        Captures {
            first: None,
            second: None,
            pair: None,
            stack: None,
            flag: None,
            expr: None,
            name: None,
            bytes: None,
            word: None,
        }
    }

    /// The captures with expression, name and data in canonical form.
    pub open spec fn canonical(self) -> Captures {
        Captures {
            first: self.first,
            second: self.second,
            pair: self.pair,
            stack: self.stack,
            flag: self.flag,
            expr: match self.expr {
                Some(expr) => Some(expr.canonical()),
                None => None,
            },
            name: match self.name {
                Some(name) => Some(canonical_string(name@)),
                None => None,
            },
            bytes: match self.bytes {
                Some(bytes) => Some(canonical_bytes(bytes@)),
                None => None,
            },
            word: self.word,
        }
    }

    pub(crate) fn new() -> (captures: Captures)
        ensures
            captures == Captures::nothing(),
            captures.canonical() == Captures::nothing(),
    {
        Captures {
            first: None,
            second: None,
            pair: None,
            stack: None,
            flag: None,
            expr: None,
            name: None,
            bytes: None,
            word: None,
        }
    }
}

/// What one sign of a pattern takes from the line at `i`. A pattern is
/// made of these signs:
///
/// * a space: spaces and tabs, at least one
/// * `~`: spaces and tabs, if there are any
/// * `,`: a comma, with spaces and tabs around it as one likes
/// * `$`: the end of the line, before which spaces, tabs and a comment
///   may stand
/// * `R`: an 8-bit register; the first one is kept as `first`, the next
///   one as `second`
/// * `U`: an 8-bit register before which the accumulator and a comma
///   may stand
/// * `A`: the accumulator and a comma, or nothing
/// * `X`: a 16-bit register
/// * `P`: a 16-bit register of `push` and `pop`
/// * `F`: a condition
/// * `E`: an expression
/// * `I`: an identifier
/// * `B`: the data of `db`
/// * `W`: a number of 16 bits: `0x` and up to four hexadecimal digits,
///   or up to five decimal digits
/// * any other byte: that byte, where a letter may be in either case
pub open spec fn sign(code: u8, s: Seq<u8>, i: int, seen: Captures) -> Option<(Captures, int)> {
    if code == 0x20 {
        if spaces(s, i) > i {
            Some((seen, spaces(s, i)))
        } else {
            None
        }
    } else if code == 0x7E {
        Some((seen, spaces(s, i)))
    } else if code == 0x2C {
        match comma(s, i) {
            Some(end) => Some((seen, end)),
            None => None,
        }
    } else if code == 0x24 {
        match end_line(s, i) {
            Some(end) => Some((seen, end)),
            None => None,
        }
    } else if code == 0x52 {
        match register8(s, i) {
            Some((reg, end)) => if seen.first is None {
                Some((Captures { first: Some(reg), ..seen }, end))
            } else {
                Some((Captures { second: Some(reg), ..seen }, end))
            },
            None => None,
        }
    } else if code == 0x55 {
        match accumulator_and_register8(s, i) {
            Some((reg, end)) => Some((Captures { first: Some(reg), ..seen }, end)),
            None => None,
        }
    } else if code == 0x41 {
        Some((seen, optional_accumulator(s, i)))
    } else if code == 0x58 {
        match register16(s, i) {
            Some((reg, end)) => Some((Captures { pair: Some(reg), ..seen }, end)),
            None => None,
        }
    } else if code == 0x50 {
        match register16_push(s, i) {
            Some((reg, end)) => Some((Captures { stack: Some(reg), ..seen }, end)),
            None => None,
        }
    } else if code == 0x46 {
        match condition(s, i) {
            Some((flag, end)) => Some((Captures { flag: Some(flag), ..seen }, end)),
            None => None,
        }
    } else if code == 0x45 {
        match expression(s, i) {
            Some((expr, end)) => Some((Captures { expr: Some(expr), ..seen }, end)),
            None => None,
        }
    } else if code == 0x49 {
        match identifier(s, i) {
            Some(end) => Some(
                (Captures { name: Some(canonical_string(spelled(s, i, end))), ..seen }, end),
            ),
            None => None,
        }
    } else if code == 0x42 {
        match data_list(s, i) {
            Some((bytes, end)) => Some(
                (Captures { bytes: Some(canonical_bytes(bytes)), ..seen }, end),
            ),
            None => None,
        }
    } else if code == 0x57 {
        match literal(s, i, 4, 5, 0xFFFF) {
            Some((value, end)) => Some((Captures { word: Some(value as u16), ..seen }, end)),
            None => None,
        }
    } else if at(s, i, code) {
        Some((seen, i + 1))
    } else {
        None
    }
}

/// What the signs of the pattern from the `k`th on take from the line at
/// `i`, one behind the other; nothing where one of them does not fit.
pub open spec fn fit(pattern: Seq<u8>, k: int, s: Seq<u8>, i: int, seen: Captures) -> Option<
    (Captures, int),
>
    decreases pattern.len() - k,
{
    if k < 0 || k >= pattern.len() {
        Some((seen, i))
    } else {
        match sign(pattern[k], s, i, seen) {
            None => None,
            Some((taken, end)) => fit(pattern, k + 1, s, end, taken),
        }
    }
}

/// Reads what one sign of a pattern takes.
fn read_sign(code: u8, text: &str, s: &Vec<u8>, i: usize, seen: Captures) -> (result: Option<
    (Captures, usize),
>)
    requires
        holds_text(s@, text),
        i <= s@.len(),
    ensures
        match sign(code, s@, i as int, seen.canonical()) {
            Some((taken, end)) => result matches Some((read, stop)) && read.canonical() == taken
                && stop == end && i <= end <= s@.len(),
            None => result is None,
        },
{
    let length = s.len();
    let mut seen = seen;
    if code == 0x20 {
        let end = skip(s, i, Class::Space, s.len());
        if end > i {
            Some((seen, end))
        } else {
            None
        }
    } else if code == 0x7E {
        Some((seen, skip(s, i, Class::Space, s.len())))
    } else if code == 0x2C {
        match read_comma(s, i) {
            Some(end) => Some((seen, end)),
            None => None,
        }
    } else if code == 0x24 {
        match read_end_line(s, i) {
            Some(end) => Some((seen, end)),
            None => None,
        }
    } else if code == 0x52 {
        match read_register8(s, i) {
            Some((reg, end)) => {
                if seen.first.is_none() {
                    seen.first = Some(reg);
                } else {
                    seen.second = Some(reg);
                }
                Some((seen, end))
            },
            None => None,
        }
    } else if code == 0x55 {
        match read_accumulator_and_register8(s, i) {
            Some((reg, end)) => {
                seen.first = Some(reg);
                Some((seen, end))
            },
            None => None,
        }
    } else if code == 0x41 {
        Some((seen, skip_optional_accumulator(s, i)))
    } else if code == 0x58 {
        match read_register16(s, i) {
            Some((reg, end)) => {
                seen.pair = Some(reg);
                Some((seen, end))
            },
            None => None,
        }
    } else if code == 0x50 {
        match read_register16_push(s, i) {
            Some((reg, end)) => {
                seen.stack = Some(reg);
                Some((seen, end))
            },
            None => None,
        }
    } else if code == 0x46 {
        match read_condition(s, i) {
            Some((flag, end)) => {
                seen.flag = Some(flag);
                Some((seen, end))
            },
            None => None,
        }
    } else if code == 0x45 {
        match read_expression(text, s, i) {
            Some((expr, end)) => {
                seen.expr = Some(expr);
                Some((seen, end))
            },
            None => None,
        }
    } else if code == 0x49 {
        match read_name(text, s, i) {
            Some((name, end)) => {
                seen.name = Some(name);
                Some((seen, end))
            },
            None => None,
        }
    } else if code == 0x42 {
        match read_data_list(s, i) {
            Some((bytes, end)) => {
                seen.bytes = Some(bytes);
                Some((seen, end))
            },
            None => None,
        }
    } else if code == 0x57 {
        match read_literal(s, i, 4, 5, 0xFFFF) {
            Some((value, end)) => {
                seen.word = Some(value as u16);
                Some((seen, end))
            },
            None => None,
        }
    } else if is_at(s, i, code) {
        Some((seen, i + 1))
    } else {
        None
    }
}

/// Reads what a pattern takes from the line at `i`.
pub(crate) fn read_pattern(pattern: &[u8], text: &str, s: &Vec<u8>, i: usize) -> (result: Option<
    (Captures, usize),
>)
    requires
        holds_text(s@, text),
        i <= s@.len(),
    ensures
        match fit(pattern@, 0, s@, i as int, Captures::nothing()) {
            Some((taken, end)) => result matches Some((read, stop)) && read.canonical() == taken
                && stop == end && i <= end <= s@.len(),
            None => result is None,
        },
{
    let length = s.len();
    let mut seen = Captures::new();
    let mut end = i;
    let mut k: usize = 0;
    while k < pattern.len()
        invariant
            holds_text(s@, text),
            length == s@.len(),
            k <= pattern@.len(),
            i <= end <= s@.len(),
            fit(pattern@, 0, s@, i as int, Captures::nothing()) == fit(
                pattern@,
                k as int,
                s@,
                end as int,
                seen.canonical(),
            ),
        decreases pattern@.len() - k,
    {
        match read_sign(pattern[k], text, s, end, seen) {
            Some((taken, stop)) => {
                seen = taken;
                end = stop;
            },
            None => {
                return None;
            },
        }
        k += 1;
    }
    Some((seen, end))
}

} // verus!
