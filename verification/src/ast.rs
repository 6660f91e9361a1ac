//! The syntax tree of an assembly program: its constant expressions and
//! their values, and its instructions and their lengths.

use crate::symbols::SymbolTable;
use byteorder::{ByteOrder, LittleEndian};
use vstd::prelude::*;

verus! {

/// A constant expression. Assembly uses them in place of magic numbers;
/// their identifiers are looked up when the ROM is assembled.
#[derive(PartialEq, Debug)]
pub enum Expr {
    Ident(String),
    Const(i64),
    Binary(Box<BinaryExpr>),
    Unary(Box<UnaryExpr>),
}

#[derive(PartialEq, Debug)]
pub struct BinaryExpr {
    pub left: Expr,
    pub operator: BinaryOperator,
    pub right: Expr,
}

#[derive(PartialEq, Debug)]
pub struct UnaryExpr {
    pub operator: UnaryOperator,
    pub expr: Expr,
}

#[derive(Clone, Copy, PartialEq, Debug)]
pub enum BinaryOperator {
    Add,
    Sub,
    Mul,
    Div,
    Rem,
    And,
    Xor,
    Or,
}

#[derive(Clone, Copy, PartialEq, Debug)]
pub enum UnaryOperator {
    Minus,
}

/// What went wrong in signed 64-bit arithmetic.
#[derive(Clone, Copy, PartialEq, Debug)]
pub enum ArithmeticFault {
    AddOverflow,
    SubUnderflow,
    MulOverflow,
    DivByZero,
    DivOverflow,
    RemByZero,
    RemOverflow,
    NegOverflow,
}

/// Why an expression has no value, or no value of the width asked for.
#[derive(PartialEq, Debug)]
pub enum ExprRunError {
    /// The identifier is not in the symbol table.
    MissingIdentifier(String),
    /// An operation overflowed, underflowed or divided by zero.
    ArithmeticError(ArithmeticFault),
    /// The value, which does not fit the width that was asked for.
    ResultDoesntFit(i64),
}

impl Clone for Expr {
    fn clone(&self) -> (copy: Expr)
        ensures
            copy == *self,
        decreases self,
    {
        match self {
            Expr::Ident(name) => Expr::Ident(name.clone()),
            Expr::Const(value) => Expr::Const(*value),
            Expr::Binary(binary) => Expr::Binary(
                Box::new(
                    BinaryExpr {
                        left: binary.left.clone(),
                        operator: binary.operator,
                        right: binary.right.clone(),
                    },
                ),
            ),
            Expr::Unary(unary) => Expr::Unary(
                Box::new(UnaryExpr { operator: unary.operator, expr: unary.expr.clone() }),
            ),
        }
    }
}

impl Clone for BinaryExpr {
    fn clone(&self) -> (copy: BinaryExpr)
        ensures
            copy == *self,
    {
        BinaryExpr { left: self.left.clone(), operator: self.operator, right: self.right.clone() }
    }
}

impl Clone for UnaryExpr {
    fn clone(&self) -> (copy: UnaryExpr)
        ensures
            copy == *self,
    {
        UnaryExpr { operator: self.operator, expr: self.expr.clone() }
    }
}

impl Clone for ExprRunError {
    fn clone(&self) -> (copy: ExprRunError)
        ensures
            copy == *self,
    {
        match self {
            ExprRunError::MissingIdentifier(name) => ExprRunError::MissingIdentifier(name.clone()),
            ExprRunError::ArithmeticError(fault) => ExprRunError::ArithmeticError(*fault),
            ExprRunError::ResultDoesntFit(value) => ExprRunError::ResultDoesntFit(*value),
        }
    }
}

/// The quotient of `x` by `d`, rounded towards zero.
pub open spec fn trunc_div(x: int, d: int) -> int
    recommends
        d != 0,
{
    if x >= 0 && d > 0 {
        x / d
    } else if x < 0 && d < 0 {
        (-x) / (-d)
    } else if x < 0 {
        -((-x) / d)
    } else {
        -(x / (-d))
    }
}

/// The remainder that goes with [`trunc_div`]: it has the sign of `x`.
pub open spec fn trunc_rem(x: int, d: int) -> int
    recommends
        d != 0,
{
    x - d * trunc_div(x, d)
}

/// The value of `left operator right` in checked signed 64-bit arithmetic.
pub open spec fn binary_value(operator: BinaryOperator, left: i64, right: i64) -> Result<
    i64,
    ExprRunError,
> {
    match operator {
        BinaryOperator::Add => if i64::MIN <= left + right <= i64::MAX {
            Ok((left + right) as i64)
        } else {
            Err(ExprRunError::ArithmeticError(ArithmeticFault::AddOverflow))
        },
        BinaryOperator::Sub => if i64::MIN <= left - right <= i64::MAX {
            Ok((left - right) as i64)
        } else {
            Err(ExprRunError::ArithmeticError(ArithmeticFault::SubUnderflow))
        },
        BinaryOperator::Mul => if i64::MIN <= left * right <= i64::MAX {
            Ok((left * right) as i64)
        } else {
            Err(ExprRunError::ArithmeticError(ArithmeticFault::MulOverflow))
        },
        BinaryOperator::Div => if right == 0 {
            Err(ExprRunError::ArithmeticError(ArithmeticFault::DivByZero))
        } else if left == i64::MIN && right == -1 {
            Err(ExprRunError::ArithmeticError(ArithmeticFault::DivOverflow))
        } else {
            Ok(trunc_div(left as int, right as int) as i64)
        },
        BinaryOperator::Rem => if right == 0 {
            Err(ExprRunError::ArithmeticError(ArithmeticFault::RemByZero))
        } else if left == i64::MIN && right == -1 {
            Err(ExprRunError::ArithmeticError(ArithmeticFault::RemOverflow))
        } else {
            Ok(trunc_rem(left as int, right as int) as i64)
        },
        BinaryOperator::And => Ok(left & right),
        BinaryOperator::Or => Ok(left | right),
        BinaryOperator::Xor => Ok(left ^ right),
    }
}

impl Expr {
    /// The value of the expression under `symbols`. The operands of a
    /// binary operator are evaluated left first, and the first failure is
    /// the failure of the whole.
    pub open spec fn value(self, symbols: Map<Seq<char>, i64>) -> Result<i64, ExprRunError>
        decreases self,
    {
        match self {
            Expr::Ident(name) => if symbols.contains_key(name@) {
                Ok(symbols[name@])
            } else {
                Err(ExprRunError::MissingIdentifier(name))
            },
            Expr::Const(value) => Ok(value),
            Expr::Binary(binary) => match binary.left.value(symbols) {
                Err(e) => Err(e),
                Ok(left) => match binary.right.value(symbols) {
                    Err(e) => Err(e),
                    Ok(right) => binary_value(binary.operator, left, right),
                },
            },
            Expr::Unary(unary) => match unary.expr.value(symbols) {
                Err(e) => Err(e),
                Ok(value) => if value == i64::MIN {
                    Err(ExprRunError::ArithmeticError(ArithmeticFault::NegOverflow))
                } else {
                    Ok((-value) as i64)
                },
            },
        }
    }

    pub fn binary(left: Expr, operator: BinaryOperator, right: Expr) -> (expr: Expr)
        ensures
            expr == Expr::Binary(Box::new(BinaryExpr { left, operator, right })),
    {
        Expr::Binary(Box::new(BinaryExpr { left, operator, right }))
    }

    pub fn unary(expr: Expr, operator: UnaryOperator) -> (result: Expr)
        ensures
            result == Expr::Unary(Box::new(UnaryExpr { operator, expr })),
    {
        Expr::Unary(Box::new(UnaryExpr { operator, expr }))
    }

    /// Evaluates the expression.
    pub fn run(&self, constants: &SymbolTable) -> (result: Result<i64, ExprRunError>)
        ensures
            result == self.value(constants@),
        decreases self,
    {
        match self {
            Expr::Ident(name) => match constants.get(name.as_str()) {
                Some(value) => Ok(value),
                None => Err(ExprRunError::MissingIdentifier(name.clone())),
            },
            Expr::Const(value) => Ok(*value),
            Expr::Binary(binary) => {
                let left = match binary.left.run(constants) {
                    Ok(v) => v,
                    Err(e) => { return Err(e); },
                };
                let right = match binary.right.run(constants) {
                    Ok(v) => v,
                    Err(e) => { return Err(e); },
                };
                apply_binary(binary.operator, left, right)
            },
            Expr::Unary(unary) => {
                let value = match unary.expr.run(constants) {
                    Ok(v) => v,
                    Err(e) => { return Err(e); },
                };
                match 0i64.checked_sub(value) {
                    Some(negated) => Ok(negated),
                    None => Err(ExprRunError::ArithmeticError(ArithmeticFault::NegOverflow)),
                }
            },
        }
    }
}

/// The magnitudes of a quotient and a remainder, from those of the operands.
proof fn lemma_div_rem_magnitude(a: int, b: int)
    requires
        a >= 0,
        b >= 1,
    ensures
        0 <= a / b <= a,
        0 <= a % b < b,
        a % b <= a,
        a == b * (a / b) + a % b,
        a > 0 && b >= 2 ==> a / b < a,
{
    assert(0 <= a / b <= a && 0 <= a % b < b && a == b * (a / b) + a % b) by (nonlinear_arith)
        requires
            a >= 0,
            b >= 1,
    ;
    assert(a > 0 && b >= 2 ==> a / b < a) by (nonlinear_arith)
        requires
            a >= 0,
            b >= 1,
    ;
    assert(a % b <= a) by (nonlinear_arith)
        requires
            a >= 0,
            b >= 1,
            0 <= a / b,
            a == b * (a / b) + a % b,
    ;
}

/// Truncated division of 64-bit operands: the quotient overflows only for
/// the least value divided by -1, and the remainder is the magnitude of
/// the dividend modulo that of the divisor, with the dividend's sign.
proof fn lemma_trunc_div_rem(x: int, d: int)
    requires
        i64::MIN <= x <= i64::MAX,
        i64::MIN <= d <= i64::MAX,
        d != 0,
    ensures
        !(x == i64::MIN && d == -1) ==> i64::MIN <= trunc_div(x, d) <= i64::MAX,
        x == i64::MIN && d == -1 ==> trunc_div(x, d) > i64::MAX,
        i64::MIN <= trunc_rem(x, d) <= i64::MAX,
        x >= 0 && d > 0 ==> trunc_rem(x, d) == x % d,
        x < 0 && d < 0 ==> trunc_rem(x, d) == -((-x) % (-d)),
        x < 0 && d > 0 ==> trunc_rem(x, d) == -((-x) % d),
        x >= 0 && d < 0 ==> trunc_rem(x, d) == x % (-d),
{
    let a = if x >= 0 { x } else { -x };
    let b = if d > 0 { d } else { -d };
    lemma_div_rem_magnitude(a, b);
    let q = a / b;
    if x >= 0 && d > 0 {
        assert(trunc_rem(x, d) == x - d * q);
    } else if x < 0 && d < 0 {
        assert(trunc_div(x, d) == q);
        assert(d * q == -(b * q)) by (nonlinear_arith)
            requires
                d == -b,
        ;
    } else if x < 0 {
        assert(trunc_div(x, d) == -q);
        assert(d * (-q) == -(b * q)) by (nonlinear_arith)
            requires
                d == b,
        ;
    } else {
        assert(trunc_div(x, d) == -q);
        assert(d * (-q) == b * q) by (nonlinear_arith)
            requires
                d == -b,
        ;
    }
}

/// Applies one binary operator in checked arithmetic.
fn apply_binary(operator: BinaryOperator, left: i64, right: i64) -> (result: Result<
    i64,
    ExprRunError,
>)
    ensures
        result == binary_value(operator, left, right),
{
    match operator {
        BinaryOperator::Add => match left.checked_add(right) {
            Some(value) => Ok(value),
            None => Err(ExprRunError::ArithmeticError(ArithmeticFault::AddOverflow)),
        },
        BinaryOperator::Sub => match left.checked_sub(right) {
            Some(value) => Ok(value),
            None => Err(ExprRunError::ArithmeticError(ArithmeticFault::SubUnderflow)),
        },
        BinaryOperator::Mul => match left.checked_mul(right) {
            Some(value) => Ok(value),
            None => Err(ExprRunError::ArithmeticError(ArithmeticFault::MulOverflow)),
        },
        BinaryOperator::Div => {
            if right == 0 {
                Err(ExprRunError::ArithmeticError(ArithmeticFault::DivByZero))
            } else {
                proof {
                    lemma_trunc_div_rem(left as int, right as int);
                }
                match left.checked_div(right) {
                    Some(value) => Ok(value),
                    None => Err(ExprRunError::ArithmeticError(ArithmeticFault::DivOverflow)),
                }
            }
        },
        BinaryOperator::Rem => {
            if right == 0 {
                Err(ExprRunError::ArithmeticError(ArithmeticFault::RemByZero))
            } else {
                proof {
                    lemma_trunc_div_rem(left as int, right as int);
                }
                match left.checked_rem(right) {
                    Some(value) => Ok(value),
                    None => Err(ExprRunError::ArithmeticError(ArithmeticFault::RemOverflow)),
                }
            }
        },
        BinaryOperator::And => Ok(left & right),
        BinaryOperator::Or => Ok(left | right),
        BinaryOperator::Xor => Ok(left ^ right),
    }
}


/// The value narrowed to one unsigned byte.
pub open spec fn byte_of(value: i64) -> Result<u8, ExprRunError> {
    if 0 <= value <= 0xFF {
        Ok(value as u8)
    } else {
        Err(ExprRunError::ResultDoesntFit(value))
    }
}

/// The value narrowed to 16 bits, low byte first.
pub open spec fn word_of(value: i64) -> Result<Seq<u8>, ExprRunError> {
    if 0 <= value <= 0xFFFF {
        Ok(seq![(value % 256) as u8, (value / 256) as u8])
    } else {
        Err(ExprRunError::ResultDoesntFit(value))
    }
}

/// The value narrowed to the index of a bit in a byte.
pub open spec fn bit_index_of(value: i64) -> Result<u8, ExprRunError> {
    if 0 <= value <= 7 {
        Ok(value as u8)
    } else {
        Err(ExprRunError::ResultDoesntFit(value))
    }
}

impl Expr {
    /// The expression's value as one byte.
    pub open spec fn byte(self, symbols: Map<Seq<char>, i64>) -> Result<u8, ExprRunError> {
        match self.value(symbols) {
            Ok(value) => byte_of(value),
            Err(e) => Err(e),
        }
    }

    /// The expression's value as two bytes, low byte first.
    pub open spec fn word(self, symbols: Map<Seq<char>, i64>) -> Result<Seq<u8>, ExprRunError> {
        match self.value(symbols) {
            Ok(value) => word_of(value),
            Err(e) => Err(e),
        }
    }

    /// The expression's value as a bit index.
    pub open spec fn bit_index(self, symbols: Map<Seq<char>, i64>) -> Result<u8, ExprRunError> {
        match self.value(symbols) {
            Ok(value) => bit_index_of(value),
            Err(e) => Err(e),
        }
    }

    /// Evaluates the expression to the two bytes of a 16-bit value, in
    /// little-endian order.
    pub fn get_2bytes(&self, constants: &SymbolTable) -> (result: Result<[u8; 2], ExprRunError>)
        ensures
            match self.word(constants@) {
                Ok(bytes) => result matches Ok(array) && array@ == bytes,
                Err(e) => result == Err::<[u8; 2], ExprRunError>(e),
            },
    {
        let value = match self.run(constants) {
            Ok(v) => v,
            Err(e) => { return Err(e); },
        };
        if value > 0xFFFF || value < 0 {
            Err(ExprRunError::ResultDoesntFit(value))
        } else {
            Ok(little_endian_u16(value as u16))
        }
    }

    /// Evaluates the expression to one byte.
    pub fn get_byte(&self, constants: &SymbolTable) -> (result: Result<u8, ExprRunError>)
        ensures
            result == self.byte(constants@),
    {
        let value = match self.run(constants) {
            Ok(v) => v,
            Err(e) => { return Err(e); },
        };
        if value > 0xFF || value < 0 {
            Err(ExprRunError::ResultDoesntFit(value))
        } else {
            Ok(value as u8)
        }
    }

    /// Evaluates the expression to the index of a bit in a byte.
    pub fn get_bit_index(&self, constants: &SymbolTable) -> (result: Result<u8, ExprRunError>)
        ensures
            result == self.bit_index(constants@),
    {
        let value = match self.run(constants) {
            Ok(v) => v,
            Err(e) => { return Err(e); },
        };
        if value > 7 || value < 0 {
            Err(ExprRunError::ResultDoesntFit(value))
        } else {
            Ok(value as u8)
        }
    }
}

/// The two bytes of `n`, low byte first, as `byteorder` writes them:
/// `LittleEndian::write_u16` copies `n.to_le_bytes()` into the first two
/// bytes of the buffer, which here is exactly two bytes long.
#[verifier::external_body]
pub(crate) fn little_endian_u16(n: u16) -> (bytes: [u8; 2])
    ensures
        bytes@ == seq![(n % 256) as u8, (n / 256) as u8],
{
    let mut bytes = [0u8; 2];
    LittleEndian::write_u16(&mut bytes, n);
    bytes
}

#[derive(Clone, Copy, PartialEq, Debug)]
pub enum Reg8 {
    A,
    B,
    C,
    D,
    E,
    H,
    L,
}

#[derive(Clone, Copy, PartialEq, Debug)]
pub enum Reg16 {
    BC,
    DE,
    HL,
    SP,
}

#[derive(Clone, Copy, PartialEq, Debug)]
pub enum Reg16Push {
    BC,
    DE,
    HL,
    AF,
}

#[derive(Clone, Copy, PartialEq, Debug)]
pub enum Flag {
    Always,
    Z,
    NZ,
    C,
    NC,
}

/// One line of an assembly program.
///
/// Key:
/// *   R16  - 16 bit register
/// *   R8   - 8 bit register
/// *   Rhl  - the hl register
/// *   Ra   - the a register
/// *   MR16 - 8 bit value in memory pointed at by a 16 bit register
/// *   MRhl - 8 bit value in memory pointed at by the HL register
/// *   MRc  - 8 bit value in memory pointed at by 0xFF00 + the register C
/// *   I8   - immediate 8 bit value
/// *   I16  - immediate 16 bit value
/// *   Bit  - an index to a bit
#[derive(Clone, PartialEq, Debug)]
pub enum Instruction {
    /// Empty lines are kept so that line numbers can be told from positions.
    EmptyLine,
    /// Pads with zeroes up to this address within the current ROM bank.
    AdvanceAddress(u16),
    Equ(String, Expr),
    Label(String),
    Db(Vec<u8>),
    DbExpr8(Expr),
    DbExpr16(Expr),
    Nop,
    Stop,
    Halt,
    Di,
    Ei,
    Rrca,
    Rra,
    Cpl,
    Ccf,
    Rlca,
    Rla,
    Daa,
    Scf,
    Ret(Flag),
    Reti,
    Call(Flag, Expr),
    JpI16(Flag, Expr),
    JpRhl,
    Jr(Flag, Expr),
    IncR16(Reg16),
    IncR8(Reg8),
    IncMRhl,
    DecR16(Reg16),
    DecR8(Reg8),
    DecMRhl,
    AddR8(Reg8),
    AddMRhl,
    AddI8(Expr),
    AddRhlR16(Reg16),
    AddRspI8(Expr),
    SubR8(Reg8),
    SubMRhl,
    SubI8(Expr),
    AndR8(Reg8),
    AndMRhl,
    AndI8(Expr),
    OrR8(Reg8),
    OrMRhl,
    OrI8(Expr),
    AdcR8(Reg8),
    AdcMRhl,
    AdcI8(Expr),
    SbcR8(Reg8),
    SbcMRhl,
    SbcI8(Expr),
    XorR8(Reg8),
    XorMRhl,
    XorI8(Expr),
    CpR8(Reg8),
    CpMRhl,
    CpI8(Expr),
    LdR16I16(Reg16, Expr),
    LdMI16Rsp(Expr),
    LdMRbcRa,
    LdMRdeRa,
    LdRaMRbc,
    LdRaMRde,
    LdR8R8(Reg8, Reg8),
    LdR8I8(Reg8, Expr),
    LdR8MRhl(Reg8),
    LdMRhlR8(Reg8),
    LdMRhlI8(Expr),
    LdMI16Ra(Expr),
    LdRaMI16(Expr),
    LdhRaMI8(Expr),
    LdhMI8Ra(Expr),
    LdhRaMRc,
    LdhMRcRa,
    LdiMRhlRa,
    LddMRhlRa,
    LdiRaMRhl,
    LddRaMRhl,
    LdRhlRspI8(Expr),
    LdRspRhl,
    Push(Reg16Push),
    Pop(Reg16Push),
    // 0xCB prefix
    RlcR8(Reg8),
    RlcMRhl,
    RrcR8(Reg8),
    RrcMRhl,
    RlR8(Reg8),
    RlMRhl,
    RrR8(Reg8),
    RrMRhl,
    SlaR8(Reg8),
    SlaMRhl,
    SraR8(Reg8),
    SraMRhl,
    SwapR8(Reg8),
    SwapMRhl,
    SrlR8(Reg8),
    SrlMRhl,
    BitBitR8(Expr, Reg8),
    BitBitMRhl(Expr),
    ResBitR8(Expr, Reg8),
    ResBitMRhl(Expr),
    SetBitR8(Expr, Reg8),
    SetBitMRhl(Expr),
}

impl Instruction {
    /// Whether the opcode sits on the page behind the 0xCB prefix.
    pub open spec fn is_prefixed(self) -> bool {
        match self {
            Instruction::RlcR8(_) | Instruction::RlcMRhl | Instruction::RrcR8(_)
            | Instruction::RrcMRhl | Instruction::RlR8(_) | Instruction::RlMRhl
            | Instruction::RrR8(_) | Instruction::RrMRhl | Instruction::SlaR8(_)
            | Instruction::SlaMRhl | Instruction::SraR8(_) | Instruction::SraMRhl
            | Instruction::SwapR8(_) | Instruction::SwapMRhl | Instruction::SrlR8(_)
            | Instruction::SrlMRhl | Instruction::BitBitR8(_, _) | Instruction::BitBitMRhl(_)
            | Instruction::ResBitR8(_, _) | Instruction::ResBitMRhl(_)
            | Instruction::SetBitR8(_, _) | Instruction::SetBitMRhl(_) => true,
            _ => false,
        }
    }

    /// How many bytes of immediate operand follow the opcode.
    pub open spec fn immediate_width(self) -> int {
        match self {
            Instruction::Call(_, _) | Instruction::JpI16(_, _) | Instruction::LdR16I16(_, _)
            | Instruction::LdMI16Rsp(_) | Instruction::LdMI16Ra(_)
            | Instruction::LdRaMI16(_) => 2,
            Instruction::Jr(_, _) | Instruction::AddI8(_) | Instruction::AddRspI8(_)
            | Instruction::SubI8(_) | Instruction::AndI8(_) | Instruction::OrI8(_)
            | Instruction::AdcI8(_) | Instruction::SbcI8(_) | Instruction::XorI8(_)
            | Instruction::CpI8(_) | Instruction::LdR8I8(_, _) | Instruction::LdMRhlI8(_)
            | Instruction::LdhRaMI8(_) | Instruction::LdhMI8Ra(_)
            | Instruction::LdRhlRspI8(_) => 1,
            // `halt` is followed by one padding byte
            Instruction::Halt => 1,
            _ => 0,
        }
    }

    /// How many bytes the instruction takes up when it starts at the
    /// address `start` within its bank. Only the length of
    /// `AdvanceAddress` depends on `start`.
    pub open spec fn byte_length(self, start: int) -> int {
        match self {
            Instruction::AdvanceAddress(target) => target - start,
            Instruction::EmptyLine | Instruction::Equ(_, _) | Instruction::Label(_) => 0,
            Instruction::Db(bytes) => bytes@.len() as int,
            Instruction::DbExpr8(_) => 1,
            Instruction::DbExpr16(_) => 2,
            _ => (if self.is_prefixed() {
                2int
            } else {
                1int
            }) + self.immediate_width(),
        }
    }

    /// Whether the length at `start` is defined and fits 16 bits.
    pub open spec fn has_length(self, start: int) -> bool {
        match self {
            Instruction::AdvanceAddress(target) => target >= start,
            Instruction::Db(bytes) => bytes@.len() <= 0xFFFF,
            _ => true,
        }
    }

    /// A length that is defined is a number of 16 bits.
    pub proof fn lemma_length_in_range(self, start: int)
        requires
            0 <= start,
            self.has_length(start),
        ensures
            0 <= self.byte_length(start) <= 0xFFFF,
    {
    }

    /// Returns how many bytes the instruction takes up.
    pub fn len(&self, start_address: u16) -> (length: u16)
        requires
            self.has_length(start_address as int),
        ensures
            length == self.byte_length(start_address as int),
    {
        match self {
            Instruction::AdvanceAddress(advance_address) => *advance_address - start_address,
            Instruction::EmptyLine => 0,
            Instruction::Equ(_, _) => 0,
            Instruction::Label(_) => 0,
            Instruction::Db(bytes) => bytes.len() as u16,
            Instruction::DbExpr8(_) => 1,
            Instruction::DbExpr16(_) => 2,
            Instruction::Nop => 1,
            Instruction::Stop => 1,
            Instruction::Halt => 2,
            Instruction::Di => 1,
            Instruction::Ei => 1,
            Instruction::Rrca => 1,
            Instruction::Rra => 1,
            Instruction::Cpl => 1,
            Instruction::Ccf => 1,
            Instruction::Rlca => 1,
            Instruction::Rla => 1,
            Instruction::Daa => 1,
            Instruction::Scf => 1,
            Instruction::Ret(_) => 1,
            Instruction::Reti => 1,
            Instruction::Call(_, _) => 3,
            Instruction::JpI16(_, _) => 3,
            Instruction::JpRhl => 1,
            Instruction::Jr(_, _) => 2,
            Instruction::IncR16(_) => 1,
            Instruction::IncR8(_) => 1,
            Instruction::IncMRhl => 1,
            Instruction::DecR16(_) => 1,
            Instruction::DecR8(_) => 1,
            Instruction::DecMRhl => 1,
            Instruction::AddR8(_) => 1,
            Instruction::AddMRhl => 1,
            Instruction::AddI8(_) => 2,
            Instruction::AddRhlR16(_) => 1,
            Instruction::AddRspI8(_) => 2,
            Instruction::SubR8(_) => 1,
            Instruction::SubMRhl => 1,
            Instruction::SubI8(_) => 2,
            Instruction::AndR8(_) => 1,
            Instruction::AndMRhl => 1,
            Instruction::AndI8(_) => 2,
            Instruction::OrR8(_) => 1,
            Instruction::OrMRhl => 1,
            Instruction::OrI8(_) => 2,
            Instruction::AdcR8(_) => 1,
            Instruction::AdcMRhl => 1,
            Instruction::AdcI8(_) => 2,
            Instruction::SbcR8(_) => 1,
            Instruction::SbcMRhl => 1,
            Instruction::SbcI8(_) => 2,
            Instruction::XorR8(_) => 1,
            Instruction::XorMRhl => 1,
            Instruction::XorI8(_) => 2,
            Instruction::CpR8(_) => 1,
            Instruction::CpMRhl => 1,
            Instruction::CpI8(_) => 2,
            Instruction::LdR16I16(_, _) => 3,
            Instruction::LdMI16Rsp(_) => 3,
            Instruction::LdR8I8(_, _) => 2,
            Instruction::LdR8R8(_, _) => 1,
            Instruction::LdMRbcRa => 1,
            Instruction::LdMRdeRa => 1,
            Instruction::LdRaMRbc => 1,
            Instruction::LdRaMRde => 1,
            Instruction::LdR8MRhl(_) => 1,
            Instruction::LdMRhlR8(_) => 1,
            Instruction::LdMRhlI8(_) => 2,
            Instruction::LdMI16Ra(_) => 3,
            Instruction::LdRaMI16(_) => 3,
            Instruction::LdhRaMI8(_) => 2,
            Instruction::LdhMI8Ra(_) => 2,
            Instruction::LdhRaMRc => 1,
            Instruction::LdhMRcRa => 1,
            Instruction::LdiMRhlRa => 1,
            Instruction::LddMRhlRa => 1,
            Instruction::LdiRaMRhl => 1,
            Instruction::LddRaMRhl => 1,
            Instruction::LdRhlRspI8(_) => 2,
            Instruction::LdRspRhl => 1,
            Instruction::Push(_) => 1,
            Instruction::Pop(_) => 1,
            Instruction::BitBitR8(_, _) => 2,
            Instruction::BitBitMRhl(_) => 2,
            Instruction::ResBitR8(_, _) => 2,
            Instruction::ResBitMRhl(_) => 2,
            Instruction::SetBitR8(_, _) => 2,
            Instruction::SetBitMRhl(_) => 2,
            Instruction::RlcR8(_) => 2,
            Instruction::RlcMRhl => 2,
            Instruction::RrcR8(_) => 2,
            Instruction::RrcMRhl => 2,
            Instruction::RlR8(_) => 2,
            Instruction::RlMRhl => 2,
            Instruction::RrR8(_) => 2,
            Instruction::RrMRhl => 2,
            Instruction::SlaR8(_) => 2,
            Instruction::SlaMRhl => 2,
            Instruction::SraR8(_) => 2,
            Instruction::SraMRhl => 2,
            Instruction::SwapR8(_) => 2,
            Instruction::SwapMRhl => 2,
            Instruction::SrlR8(_) => 2,
            Instruction::SrlMRhl => 2,
        }
    }

    /// The length as [`Instruction::len`] gives it, or `None` where the
    /// instruction has no length at `start_address`: a block of more than
    /// 0xFFFF bytes, or an `AdvanceAddress` to an address that lies behind.
    pub fn checked_len(&self, start_address: u16) -> (length: Option<u16>)
        ensures
            length == (if self.has_length(start_address as int) {
                Some(self.byte_length(start_address as int) as u16)
            } else {
                None
            }),
    {
        let defined = match self {
            Instruction::AdvanceAddress(target) => *target >= start_address,
            Instruction::Db(bytes) => bytes.len() <= 0xFFFF,
            _ => true,
        };
        if defined {
            Some(self.len(start_address))
        } else {
            None
        }
    }
}


/// The string that stands for all strings of the same characters.
/// Two strings with the same characters need not be the same value to
/// the verifier; their canonical strings are.
pub open spec fn canonical_string(chars: Seq<char>) -> String {
    choose|string: String| string@ == chars
}

/// The vector that stands for all vectors of the same bytes.
pub open spec fn canonical_bytes(bytes: Seq<u8>) -> Vec<u8> {
    choose|vector: Vec<u8>| vector@ == bytes
}

impl Expr {
    /// The expression with every identifier replaced by the canonical
    /// string of its characters.
    pub open spec fn canonical(self) -> Expr
        decreases self,
    {
        match self {
            Expr::Ident(name) => Expr::Ident(canonical_string(name@)),
            Expr::Const(value) => Expr::Const(value),
            Expr::Binary(binary) => Expr::Binary(
                Box::new(
                    BinaryExpr {
                        left: binary.left.canonical(),
                        operator: binary.operator,
                        right: binary.right.canonical(),
                    },
                ),
            ),
            Expr::Unary(unary) => Expr::Unary(
                Box::new(UnaryExpr { operator: unary.operator, expr: unary.expr.canonical() }),
            ),
        }
    }
}

impl Instruction {
    /// The instruction with every name, every block of bytes and every
    /// expression replaced by its canonical form: two instructions that
    /// read the same have the same canonical form.
    pub open spec fn canonical(self) -> Instruction {
        match self {
            Instruction::Label(name) => Instruction::Label(canonical_string(name@)),
            Instruction::Equ(name, expr) => Instruction::Equ(
                canonical_string(name@),
                expr.canonical(),
            ),
            Instruction::Db(bytes) => Instruction::Db(canonical_bytes(bytes@)),
            Instruction::DbExpr8(expr) => Instruction::DbExpr8(expr.canonical()),
            Instruction::DbExpr16(expr) => Instruction::DbExpr16(expr.canonical()),
            Instruction::AddI8(expr) => Instruction::AddI8(expr.canonical()),
            Instruction::AddRspI8(expr) => Instruction::AddRspI8(expr.canonical()),
            Instruction::SubI8(expr) => Instruction::SubI8(expr.canonical()),
            Instruction::AndI8(expr) => Instruction::AndI8(expr.canonical()),
            Instruction::OrI8(expr) => Instruction::OrI8(expr.canonical()),
            Instruction::AdcI8(expr) => Instruction::AdcI8(expr.canonical()),
            Instruction::SbcI8(expr) => Instruction::SbcI8(expr.canonical()),
            Instruction::XorI8(expr) => Instruction::XorI8(expr.canonical()),
            Instruction::CpI8(expr) => Instruction::CpI8(expr.canonical()),
            Instruction::LdMI16Rsp(expr) => Instruction::LdMI16Rsp(expr.canonical()),
            Instruction::LdMRhlI8(expr) => Instruction::LdMRhlI8(expr.canonical()),
            Instruction::LdMI16Ra(expr) => Instruction::LdMI16Ra(expr.canonical()),
            Instruction::LdRaMI16(expr) => Instruction::LdRaMI16(expr.canonical()),
            Instruction::LdhRaMI8(expr) => Instruction::LdhRaMI8(expr.canonical()),
            Instruction::LdhMI8Ra(expr) => Instruction::LdhMI8Ra(expr.canonical()),
            Instruction::LdRhlRspI8(expr) => Instruction::LdRhlRspI8(expr.canonical()),
            Instruction::BitBitMRhl(expr) => Instruction::BitBitMRhl(expr.canonical()),
            Instruction::ResBitMRhl(expr) => Instruction::ResBitMRhl(expr.canonical()),
            Instruction::SetBitMRhl(expr) => Instruction::SetBitMRhl(expr.canonical()),
            Instruction::Call(flag, expr) => Instruction::Call(flag, expr.canonical()),
            Instruction::JpI16(flag, expr) => Instruction::JpI16(flag, expr.canonical()),
            Instruction::Jr(flag, expr) => Instruction::Jr(flag, expr.canonical()),
            Instruction::LdR16I16(reg, expr) => Instruction::LdR16I16(reg, expr.canonical()),
            Instruction::LdR8I8(reg, expr) => Instruction::LdR8I8(reg, expr.canonical()),
            Instruction::BitBitR8(expr, reg) => Instruction::BitBitR8(expr.canonical(), reg),
            Instruction::ResBitR8(expr, reg) => Instruction::ResBitR8(expr.canonical(), reg),
            Instruction::SetBitR8(expr, reg) => Instruction::SetBitR8(expr.canonical(), reg),
            _ => self,
        }
    }
}

} // verus!
