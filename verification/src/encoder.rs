//! The byte encoding of every instruction.
//!
//! The encoding is stated by the formulas of the opcode map: a register
//! or `[HL]` fills a three-bit slot, an operation picks a row, a
//! condition picks a column. The executable encoder is written as the
//! opcode tables themselves and is proved to agree with the formulas.

use crate::ast::{Expr, ExprRunError, Flag, Instruction, Reg16, Reg16Push, Reg8};
use crate::constants::in_bank;
use crate::symbols::SymbolTable;
use vstd::prelude::*;

verus! {

/// Why an instruction could not be encoded.
#[derive(Clone, PartialEq, Debug)]
pub enum WriteError {
    /// An operand has no value, or none of the width it needs.
    Expr(ExprRunError),
    /// The target of a `jr` is further than a signed byte reaches, that is
    /// outside -0x80..=0x7F counted from the end of the instruction.
    JrOutOfRange { target: i64, position: usize },
    /// An `AdvanceAddress` to an address that lies behind the position
    /// within the bank.
    BackwardAdvance { address: u16, in_bank: u16 },
}

/// The slot of `[HL]` where an opcode takes a register.
pub open spec fn hl_slot() -> int {
    6
}

impl Reg8 {
    /// The register's number in an opcode.
    pub open spec fn slot(self) -> int {
        match self {
            Reg8::B => 0,
            Reg8::C => 1,
            Reg8::D => 2,
            Reg8::E => 3,
            Reg8::H => 4,
            Reg8::L => 5,
            Reg8::A => 7,
        }
    }
}

impl Reg16 {
    /// The register pair's number in an opcode.
    pub open spec fn slot(self) -> int {
        match self {
            Reg16::BC => 0,
            Reg16::DE => 1,
            Reg16::HL => 2,
            Reg16::SP => 3,
        }
    }
}

impl Reg16Push {
    /// The register pair's number in `push` and `pop`.
    pub open spec fn slot(self) -> int {
        match self {
            Reg16Push::BC => 0,
            Reg16Push::DE => 1,
            Reg16Push::HL => 2,
            Reg16Push::AF => 3,
        }
    }
}

impl Flag {
    /// The condition's number in an opcode; `Always` has none.
    pub open spec fn condition(self) -> int {
        match self {
            Flag::NZ => 0,
            Flag::Z => 1,
            Flag::NC => 2,
            Flag::C => 3,
            Flag::Always => -1,
        }
    }

    /// The opcode of `ret`. `ret c` shares the opcode of the
    /// unconditional `ret`.
    pub open spec fn ret_opcode(self) -> int {
        if self == Flag::Always || self == Flag::C {
            0xC9
        } else {
            0xC0 + 8 * self.condition()
        }
    }

    pub open spec fn call_opcode(self) -> int {
        if self == Flag::Always {
            0xCD
        } else {
            0xC4 + 8 * self.condition()
        }
    }

    pub open spec fn jp_opcode(self) -> int {
        if self == Flag::Always {
            0xC3
        } else {
            0xC2 + 8 * self.condition()
        }
    }

    pub open spec fn jr_opcode(self) -> int {
        if self == Flag::Always {
            0x18
        } else {
            0x20 + 8 * self.condition()
        }
    }
}

/// How the bytes of an instruction are laid out.
#[derive(Clone, Copy, PartialEq, Debug)]
pub enum Form {
    /// No byte at all.
    Nothing,
    /// The operand as one byte.
    Byte,
    /// The operand as two bytes, low byte first.
    Word,
    /// One opcode byte.
    Opcode,
    /// One opcode byte and a zero byte behind it.
    Padded,
    /// The prefix 0xCB, then the opcode.
    Prefixed,
    /// The opcode, then the operand as one byte.
    OpcodeByte,
    /// The opcode, then the operand as two bytes, low byte first.
    OpcodeWord,
    /// The prefix 0xCB, then the opcode to which eight times the operand,
    /// a bit index, is added (modulo 0x100).
    Bit,
    /// The opcode, then the signed distance from the end of the
    /// instruction to the operand, an address.
    Jump,
}

/// The opcode of an instruction and the layout of its bytes.
#[derive(Clone, Copy, PartialEq, Debug)]
pub struct Template {
    pub form: Form,
    pub opcode: u8,
}

impl Template {
    pub open spec fn nothing() -> Template {
        Template { form: Form::Nothing, opcode: 0 }
    }

    pub open spec fn of(form: Form, opcode: int) -> Template {
        Template { form, opcode: opcode as u8 }
    }

    fn new(form: Form, opcode: u8) -> (template: Template)
        ensures
            template == Template::of(form, opcode as int),
    {
        Template { form, opcode }
    }

    fn bare(form: Form) -> (template: Template)
        ensures
            template == (Template { form, opcode: 0 }),
    {
        Template { form, opcode: 0 }
    }
}

impl Form {
    /// The number of bytes that the layout takes.
    pub open spec fn length(self) -> int {
        match self {
            Form::Nothing => 0,
            Form::Byte | Form::Opcode => 1,
            Form::Word | Form::Padded | Form::Prefixed | Form::OpcodeByte | Form::Bit
            | Form::Jump => 2,
            Form::OpcodeWord => 3,
        }
    }
}

/// The rows of the 8-bit arithmetic block.
pub open spec fn alu_add() -> int { 0 }

pub open spec fn alu_adc() -> int { 1 }

pub open spec fn alu_sub() -> int { 2 }

pub open spec fn alu_sbc() -> int { 3 }

pub open spec fn alu_and() -> int { 4 }

pub open spec fn alu_xor() -> int { 5 }

pub open spec fn alu_or() -> int { 6 }

pub open spec fn alu_cp() -> int { 7 }

/// The rows of the shifts and rotations behind the 0xCB prefix.
pub open spec fn shift_rlc() -> int { 0 }

pub open spec fn shift_rrc() -> int { 1 }

pub open spec fn shift_rl() -> int { 2 }

pub open spec fn shift_rr() -> int { 3 }

pub open spec fn shift_sla() -> int { 4 }

pub open spec fn shift_sra() -> int { 5 }

pub open spec fn shift_swap() -> int { 6 }

pub open spec fn shift_srl() -> int { 7 }

/// The opcode of an 8-bit operation on the accumulator and a register or
/// `[HL]`.
pub open spec fn alu(row: int, slot: int) -> int {
    0x80 + 8 * row + slot
}

/// The opcode of an 8-bit operation on the accumulator and an immediate
/// byte.
pub open spec fn alu_immediate(row: int) -> int {
    0xC6 + 8 * row
}

/// The opcode, behind the prefix, of a shift or rotation of a register or
/// `[HL]`.
pub open spec fn shift(row: int, slot: int) -> int {
    8 * row + slot
}

/// The byte for a signed offset in -0x80..=0x7F, in two's complement.
pub open spec fn offset_byte(offset: int) -> u8 {
    if offset >= 0 {
        offset as u8
    } else {
        (offset + 0x100) as u8
    }
}

/// The signed value of a byte read in two's complement.
pub open spec fn sign_extend(byte: u8) -> int {
    if byte < 0x80 {
        byte as int
    } else {
        byte - 0x100
    }
}

/// The offset byte of a relative jump to `target` that is emitted at
/// `position`: the distance counts from the end of the two-byte
/// instruction.
pub open spec fn jump_distance(target: Expr, position: int, symbols: Map<Seq<char>, i64>) -> Result<
    u8,
    WriteError,
> {
    match target.value(symbols) {
        Err(e) => Err(WriteError::Expr(e)),
        Ok(address) => if -0x80 <= address - (position + 2) <= 0x7F {
            Ok(offset_byte(address - (position + 2)))
        } else {
            Err(WriteError::JrOutOfRange { target: address, position: position as usize })
        },
    }
}

/// The bytes that a template and its operand stand for at `position`.
pub open spec fn assemble(
    template: Template,
    operand: Expr,
    position: int,
    symbols: Map<Seq<char>, i64>,
) -> Result<Seq<u8>, WriteError> {
    match template.form {
        Form::Nothing => Ok(Seq::empty()),
        Form::Opcode => Ok(seq![template.opcode]),
        Form::Padded => Ok(seq![template.opcode, 0u8]),
        Form::Prefixed => Ok(seq![0xCBu8, template.opcode]),
        Form::Byte => match operand.byte(symbols) {
            Ok(byte) => Ok(seq![byte]),
            Err(e) => Err(WriteError::Expr(e)),
        },
        Form::Word => match operand.word(symbols) {
            Ok(bytes) => Ok(seq![bytes[0], bytes[1]]),
            Err(e) => Err(WriteError::Expr(e)),
        },
        Form::OpcodeByte => match operand.byte(symbols) {
            Ok(byte) => Ok(seq![template.opcode, byte]),
            Err(e) => Err(WriteError::Expr(e)),
        },
        Form::OpcodeWord => match operand.word(symbols) {
            Ok(bytes) => Ok(seq![template.opcode, bytes[0], bytes[1]]),
            Err(e) => Err(WriteError::Expr(e)),
        },
        Form::Bit => match operand.bit_index(symbols) {
            Ok(bit) => Ok(seq![0xCBu8, ((template.opcode + 8 * bit) % 0x100) as u8]),
            Err(e) => Err(WriteError::Expr(e)),
        },
        Form::Jump => match jump_distance(operand, position, symbols) {
            Ok(offset) => Ok(seq![template.opcode, offset]),
            Err(e) => Err(e),
        },
    }
}

/// `count` zero bytes.
pub open spec fn zeroes(count: int) -> Seq<u8> {
    Seq::new(count as nat, |i: int| 0u8)
}

impl Instruction {
    /// Whether the instruction is a load, a `push` or a `pop`.
    pub open spec fn is_load(self) -> bool {
        match self {
            Instruction::LdR16I16(_, _) | Instruction::LdMI16Rsp(_) | Instruction::LdMRbcRa
            | Instruction::LdMRdeRa | Instruction::LdRaMRbc | Instruction::LdRaMRde
            | Instruction::LdR8R8(_, _) | Instruction::LdR8I8(_, _) | Instruction::LdR8MRhl(_)
            | Instruction::LdMRhlR8(_) | Instruction::LdMRhlI8(_) | Instruction::LdMI16Ra(_)
            | Instruction::LdRaMI16(_) | Instruction::LdhRaMI8(_) | Instruction::LdhMI8Ra(_)
            | Instruction::LdhRaMRc | Instruction::LdhMRcRa | Instruction::LdiMRhlRa
            | Instruction::LddMRhlRa | Instruction::LdiRaMRhl | Instruction::LddRaMRhl
            | Instruction::LdRhlRspI8(_) | Instruction::LdRspRhl | Instruction::Push(_)
            | Instruction::Pop(_) => true,
            _ => false,
        }
    }

    /// Whether the instruction is an increment, a decrement or arithmetic.
    pub open spec fn is_arithmetic(self) -> bool {
        match self {
            Instruction::IncR16(_) | Instruction::IncR8(_) | Instruction::IncMRhl
            | Instruction::DecR16(_) | Instruction::DecR8(_) | Instruction::DecMRhl
            | Instruction::AddR8(_) | Instruction::AddMRhl | Instruction::AddI8(_)
            | Instruction::AddRhlR16(_) | Instruction::AddRspI8(_) | Instruction::SubR8(_)
            | Instruction::SubMRhl | Instruction::SubI8(_) | Instruction::AndR8(_)
            | Instruction::AndMRhl | Instruction::AndI8(_) | Instruction::OrR8(_)
            | Instruction::OrMRhl | Instruction::OrI8(_) | Instruction::AdcR8(_)
            | Instruction::AdcMRhl | Instruction::AdcI8(_) | Instruction::SbcR8(_)
            | Instruction::SbcMRhl | Instruction::SbcI8(_) | Instruction::XorR8(_)
            | Instruction::XorMRhl | Instruction::XorI8(_) | Instruction::CpR8(_)
            | Instruction::CpMRhl | Instruction::CpI8(_) => true,
            _ => false,
        }
    }

    /// The templates of directives, control flow and the instructions without operands.
    pub open spec fn control_template(self) -> Template {
        match self {
            Instruction::EmptyLine | Instruction::Equ(_, _) | Instruction::Label(_)
            | Instruction::AdvanceAddress(_) | Instruction::Db(_) => Template::nothing(),
            Instruction::DbExpr8(_) => Template::of(Form::Byte, 0),
            Instruction::DbExpr16(_) => Template::of(Form::Word, 0),
            Instruction::Nop => Template::of(Form::Opcode, 0x00),
            Instruction::Stop => Template::of(Form::Opcode, 0x10),
            Instruction::Halt => Template::of(Form::Padded, 0x76),
            Instruction::Di => Template::of(Form::Opcode, 0xF3),
            Instruction::Ei => Template::of(Form::Opcode, 0xFB),
            Instruction::Rrca => Template::of(Form::Opcode, 0x0F),
            Instruction::Rra => Template::of(Form::Opcode, 0x1F),
            Instruction::Cpl => Template::of(Form::Opcode, 0x2F),
            Instruction::Ccf => Template::of(Form::Opcode, 0x3F),
            Instruction::Rlca => Template::of(Form::Opcode, 0x07),
            Instruction::Rla => Template::of(Form::Opcode, 0x17),
            Instruction::Daa => Template::of(Form::Opcode, 0x27),
            Instruction::Scf => Template::of(Form::Opcode, 0x37),
            Instruction::Reti => Template::of(Form::Opcode, 0xD9),
            Instruction::Ret(flag) => Template::of(Form::Opcode, flag.ret_opcode()),
            Instruction::Call(flag, _) => Template::of(Form::OpcodeWord, flag.call_opcode()),
            Instruction::JpI16(flag, _) => Template::of(Form::OpcodeWord, flag.jp_opcode()),
            Instruction::JpRhl => Template::of(Form::Opcode, 0xE9),
            Instruction::Jr(flag, _) => Template::of(Form::Jump, flag.jr_opcode()),
            _ => Template::nothing(),
        }
    }

    /// The templates of increments, decrements and arithmetic.
    pub open spec fn arithmetic_template(self) -> Template {
        match self {
            Instruction::IncR16(reg) => Template::of(Form::Opcode, 0x03 + 0x10 * reg.slot()),
            Instruction::IncR8(reg) => Template::of(Form::Opcode, 0x04 + 8 * reg.slot()),
            Instruction::IncMRhl => Template::of(Form::Opcode, 0x04 + 8 * hl_slot()),
            Instruction::DecR16(reg) => Template::of(Form::Opcode, 0x0B + 0x10 * reg.slot()),
            Instruction::DecR8(reg) => Template::of(Form::Opcode, 0x05 + 8 * reg.slot()),
            Instruction::DecMRhl => Template::of(Form::Opcode, 0x05 + 8 * hl_slot()),
            Instruction::AddR8(reg) => Template::of(Form::Opcode, alu(alu_add(), reg.slot())),
            Instruction::AddMRhl => Template::of(Form::Opcode, alu(alu_add(), hl_slot())),
            Instruction::AddI8(_) => Template::of(Form::OpcodeByte, alu_immediate(alu_add())),
            Instruction::AddRhlR16(reg) => Template::of(Form::Opcode, 0x09 + 0x10 * reg.slot()),
            Instruction::AddRspI8(_) => Template::of(Form::OpcodeByte, 0xE8),
            Instruction::SubR8(reg) => Template::of(Form::Opcode, alu(alu_sub(), reg.slot())),
            Instruction::SubMRhl => Template::of(Form::Opcode, alu(alu_sub(), hl_slot())),
            Instruction::SubI8(_) => Template::of(Form::OpcodeByte, alu_immediate(alu_sub())),
            Instruction::AndR8(reg) => Template::of(Form::Opcode, alu(alu_and(), reg.slot())),
            Instruction::AndMRhl => Template::of(Form::Opcode, alu(alu_and(), hl_slot())),
            Instruction::AndI8(_) => Template::of(Form::OpcodeByte, alu_immediate(alu_and())),
            Instruction::OrR8(reg) => Template::of(Form::Opcode, alu(alu_or(), reg.slot())),
            Instruction::OrMRhl => Template::of(Form::Opcode, alu(alu_or(), hl_slot())),
            Instruction::OrI8(_) => Template::of(Form::OpcodeByte, alu_immediate(alu_or())),
            Instruction::AdcR8(reg) => Template::of(Form::Opcode, alu(alu_adc(), reg.slot())),
            Instruction::AdcMRhl => Template::of(Form::Opcode, alu(alu_adc(), hl_slot())),
            Instruction::AdcI8(_) => Template::of(Form::OpcodeByte, alu_immediate(alu_adc())),
            Instruction::SbcR8(reg) => Template::of(Form::Opcode, alu(alu_sbc(), reg.slot())),
            Instruction::SbcMRhl => Template::of(Form::Opcode, alu(alu_sbc(), hl_slot())),
            Instruction::SbcI8(_) => Template::of(Form::OpcodeByte, alu_immediate(alu_sbc())),
            Instruction::XorR8(reg) => Template::of(Form::Opcode, alu(alu_xor(), reg.slot())),
            Instruction::XorMRhl => Template::of(Form::Opcode, alu(alu_xor(), hl_slot())),
            Instruction::XorI8(_) => Template::of(Form::OpcodeByte, alu_immediate(alu_xor())),
            Instruction::CpR8(reg) => Template::of(Form::Opcode, alu(alu_cp(), reg.slot())),
            Instruction::CpMRhl => Template::of(Form::Opcode, alu(alu_cp(), hl_slot())),
            Instruction::CpI8(_) => Template::of(Form::OpcodeByte, alu_immediate(alu_cp())),
            _ => Template::nothing(),
        }
    }

    /// The templates of loads and the stack.
    pub open spec fn load_template(self) -> Template {
        match self {
            Instruction::LdR16I16(reg, _) => Template::of(Form::OpcodeWord, 0x01 + 0x10 * reg.slot()),
            Instruction::LdMI16Rsp(_) => Template::of(Form::OpcodeWord, 0x08),
            Instruction::LdR8I8(reg, _) => Template::of(Form::OpcodeByte, 0x06 + 8 * reg.slot()),
            Instruction::LdR8R8(to, from) => Template::of(Form::Opcode, 0x40 + 8 * to.slot() + from.slot()),
            Instruction::LdMRbcRa => Template::of(Form::Opcode, 0x02),
            Instruction::LdMRdeRa => Template::of(Form::Opcode, 0x12),
            Instruction::LdRaMRbc => Template::of(Form::Opcode, 0x0A),
            Instruction::LdRaMRde => Template::of(Form::Opcode, 0x1A),
            Instruction::LdR8MRhl(reg) => Template::of(Form::Opcode, 0x40 + 8 * reg.slot() + hl_slot()),
            Instruction::LdMRhlR8(reg) => Template::of(Form::Opcode, 0x40 + 8 * hl_slot() + reg.slot()),
            Instruction::LdMRhlI8(_) => Template::of(Form::OpcodeByte, 0x06 + 8 * hl_slot()),
            Instruction::LdMI16Ra(_) => Template::of(Form::OpcodeWord, 0xEA),
            Instruction::LdRaMI16(_) => Template::of(Form::OpcodeWord, 0xFA),
            Instruction::LdhRaMI8(_) => Template::of(Form::OpcodeByte, 0xF0),
            Instruction::LdhMI8Ra(_) => Template::of(Form::OpcodeByte, 0xE0),
            Instruction::LdhRaMRc => Template::of(Form::Opcode, 0xF2),
            Instruction::LdhMRcRa => Template::of(Form::Opcode, 0xE2),
            Instruction::LdiMRhlRa => Template::of(Form::Opcode, 0x22),
            Instruction::LddMRhlRa => Template::of(Form::Opcode, 0x32),
            Instruction::LdiRaMRhl => Template::of(Form::Opcode, 0x2A),
            Instruction::LddRaMRhl => Template::of(Form::Opcode, 0x3A),
            Instruction::LdRspRhl => Template::of(Form::Opcode, 0xF9),
            Instruction::LdRhlRspI8(_) => Template::of(Form::OpcodeByte, 0xF8),
            Instruction::Push(reg) => Template::of(Form::Opcode, 0xC5 + 0x10 * reg.slot()),
            Instruction::Pop(reg) => Template::of(Form::Opcode, 0xC1 + 0x10 * reg.slot()),
            _ => Template::nothing(),
        }
    }

    /// The templates of the page behind the 0xCB prefix.
    pub open spec fn prefixed_template(self) -> Template {
        match self {
            Instruction::RlcR8(reg) => Template::of(Form::Prefixed, shift(shift_rlc(), reg.slot())),
            Instruction::RlcMRhl => Template::of(Form::Prefixed, shift(shift_rlc(), hl_slot())),
            Instruction::RrcR8(reg) => Template::of(Form::Prefixed, shift(shift_rrc(), reg.slot())),
            Instruction::RrcMRhl => Template::of(Form::Prefixed, shift(shift_rrc(), hl_slot())),
            Instruction::RlR8(reg) => Template::of(Form::Prefixed, shift(shift_rl(), reg.slot())),
            Instruction::RlMRhl => Template::of(Form::Prefixed, shift(shift_rl(), hl_slot())),
            Instruction::RrR8(reg) => Template::of(Form::Prefixed, shift(shift_rr(), reg.slot())),
            Instruction::RrMRhl => Template::of(Form::Prefixed, shift(shift_rr(), hl_slot())),
            Instruction::SlaR8(reg) => Template::of(Form::Prefixed, shift(shift_sla(), reg.slot())),
            Instruction::SlaMRhl => Template::of(Form::Prefixed, shift(shift_sla(), hl_slot())),
            Instruction::SraR8(reg) => Template::of(Form::Prefixed, shift(shift_sra(), reg.slot())),
            Instruction::SraMRhl => Template::of(Form::Prefixed, shift(shift_sra(), hl_slot())),
            Instruction::SwapR8(reg) => Template::of(Form::Prefixed, shift(shift_swap(), reg.slot())),
            Instruction::SwapMRhl => Template::of(Form::Prefixed, shift(shift_swap(), hl_slot())),
            Instruction::SrlR8(reg) => Template::of(Form::Prefixed, shift(shift_srl(), reg.slot())),
            Instruction::SrlMRhl => Template::of(Form::Prefixed, shift(shift_srl(), hl_slot())),
            Instruction::BitBitR8(_, reg) => Template::of(Form::Bit, 0x40 * 1 + reg.slot()),
            Instruction::BitBitMRhl(_) => Template::of(Form::Bit, 0x40 * 1 + hl_slot()),
            Instruction::ResBitR8(_, reg) => Template::of(Form::Bit, 0x40 * 2 + reg.slot()),
            Instruction::ResBitMRhl(_) => Template::of(Form::Bit, 0x40 * 2 + hl_slot()),
            Instruction::SetBitR8(_, reg) => Template::of(Form::Bit, 0x40 * 3 + reg.slot()),
            Instruction::SetBitMRhl(_) => Template::of(Form::Bit, 0x40 * 3 + hl_slot()),
            _ => Template::nothing(),
        }
    }

    /// The opcode of the instruction and the layout of its bytes, by the
    /// formulas of the opcode map. Blocks of data and `AdvanceAddress`,
    /// whose lengths are not fixed, have no template.
    pub open spec fn template(self) -> Template {
        if self.is_prefixed() {
            self.prefixed_template()
        } else if self.is_load() {
            self.load_template()
        } else if self.is_arithmetic() {
            self.arithmetic_template()
        } else {
            self.control_template()
        }
    }

    /// The expression among the operands, or a constant zero where there
    /// is none.
    pub open spec fn operand(self) -> Expr {
        match self {
            Instruction::DbExpr8(expr) | Instruction::DbExpr16(expr)
            | Instruction::Call(_, expr) | Instruction::JpI16(_, expr)
            | Instruction::Jr(_, expr) | Instruction::AddI8(expr) | Instruction::AddRspI8(expr)
            | Instruction::SubI8(expr) | Instruction::AndI8(expr) | Instruction::OrI8(expr)
            | Instruction::AdcI8(expr) | Instruction::SbcI8(expr) | Instruction::XorI8(expr)
            | Instruction::CpI8(expr) | Instruction::LdR16I16(_, expr)
            | Instruction::LdMI16Rsp(expr) | Instruction::LdR8I8(_, expr)
            | Instruction::LdMRhlI8(expr) | Instruction::LdMI16Ra(expr)
            | Instruction::LdRaMI16(expr) | Instruction::LdhRaMI8(expr)
            | Instruction::LdhMI8Ra(expr) | Instruction::LdRhlRspI8(expr)
            | Instruction::BitBitR8(expr, _) | Instruction::BitBitMRhl(expr)
            | Instruction::ResBitR8(expr, _) | Instruction::ResBitMRhl(expr)
            | Instruction::SetBitR8(expr, _) | Instruction::SetBitMRhl(expr) => expr,
            _ => Expr::Const(0),
        }
    }

    /// The bytes of the instruction when it is emitted at the absolute
    /// address `position`, or the reason why it has none.
    pub open spec fn encoding(self, position: int, symbols: Map<Seq<char>, i64>) -> Result<
        Seq<u8>,
        WriteError,
    > {
        match self {
            Instruction::AdvanceAddress(target) => {
                let in_bank = in_bank(position);
                if target >= in_bank {
                    Ok(zeroes(target - in_bank))
                } else {
                    Err(WriteError::BackwardAdvance { address: target, in_bank: in_bank as u16 })
                }
            },
            Instruction::Db(bytes) => Ok(bytes@),
            _ => assemble(self.template(), self.operand(), position, symbols),
        }
    }
}

/// The bytes of a template take as many bytes as its form says.
pub proof fn lemma_assemble_length(
    template: Template,
    operand: Expr,
    position: int,
    symbols: Map<Seq<char>, i64>,
)
    requires
        assemble(template, operand, position, symbols) is Ok,
    ensures
        assemble(template, operand, position, symbols)->Ok_0.len() == template.form.length(),
{
}

/// The form of every instruction takes as many bytes as its length says.
pub proof fn lemma_form_length(instruction: Instruction, start: int)
    requires
        !(instruction is Db),
        !(instruction is AdvanceAddress),
    ensures
        instruction.template().form.length() == instruction.byte_length(start),
{
}

/// An instruction that is encoded at `position` takes exactly as many
/// bytes as its length at that position within the bank says.
pub proof fn lemma_length_is_bytes_written(
    instruction: Instruction,
    position: int,
    symbols: Map<Seq<char>, i64>,
)
    requires
        position >= 0,
        instruction.encoding(position, symbols) is Ok,
    ensures
        instruction.encoding(position, symbols)->Ok_0.len() == instruction.byte_length(
            in_bank(position),
        ),
        !(instruction is Db) ==> instruction.has_length(in_bank(position)),
{
    match instruction {
        Instruction::AdvanceAddress(_) => {},
        Instruction::Db(_) => {},
        _ => {
            lemma_assemble_length(
                instruction.template(),
                instruction.operand(),
                position,
                symbols,
            );
            lemma_form_length(instruction, in_bank(position));
        },
    }
}

/// The offset byte of a relative jump, read as a signed number and
/// counted from the end of the instruction, leads back to the address
/// that the operand names.
pub proof fn lemma_jr_offset_leads_back(
    flag: Flag,
    target: Expr,
    position: int,
    symbols: Map<Seq<char>, i64>,
)
    requires
        Instruction::Jr(flag, target).encoding(position, symbols) is Ok,
    ensures
        target.value(symbols) is Ok,
        Instruction::Jr(flag, target).encoding(position, symbols)->Ok_0.len() == 2,
        target.value(symbols)->Ok_0 == position + 2 + sign_extend(
            Instruction::Jr(flag, target).encoding(position, symbols)->Ok_0[1],
        ),
{
}

/// The entry of an opcode table row for `reg`. The row is given in the
/// order A, B, C, D, E, H, L and must be the one that starts at `base`
/// and goes up by `step` from one register's slot to the next.
fn select_r8(
    reg: &Reg8,
    a: u8,
    b: u8,
    c: u8,
    d: u8,
    e: u8,
    h: u8,
    l: u8,
    Ghost(base): Ghost<int>,
    Ghost(step): Ghost<int>,
) -> (opcode: u8)
    requires
        b == base,
        c == base + step,
        d == base + 2 * step,
        e == base + 3 * step,
        h == base + 4 * step,
        l == base + 5 * step,
        a == base + 7 * step,
    ensures
        opcode == base + step * reg.slot(),
{
    match reg {
        Reg8::A => a,
        Reg8::B => b,
        Reg8::C => c,
        Reg8::D => d,
        Reg8::E => e,
        Reg8::H => h,
        Reg8::L => l,
    }
}

/// The entry of an opcode table row for `reg`. The row is given in the
/// order BC, DE, HL, SP and must be the one that starts at `base` and
/// goes up by 0x10.
fn select_r16(reg: &Reg16, bc: u8, de: u8, hl: u8, sp: u8, Ghost(base): Ghost<int>) -> (opcode: u8)
    requires
        bc == base,
        de == base + 0x10,
        hl == base + 0x20,
        sp == base + 0x30,
    ensures
        opcode == base + 0x10 * reg.slot(),
{
    match reg {
        Reg16::BC => bc,
        Reg16::DE => de,
        Reg16::HL => hl,
        Reg16::SP => sp,
    }
}

/// The entry of an opcode table row for `reg`. The row is given in the
/// order BC, DE, HL, AF and must be the one that starts at `base` and
/// goes up by 0x10.
fn select_r16_push(
    reg: &Reg16Push,
    bc: u8,
    de: u8,
    hl: u8,
    af: u8,
    Ghost(base): Ghost<int>,
) -> (opcode: u8)
    requires
        bc == base,
        de == base + 0x10,
        hl == base + 0x20,
        af == base + 0x30,
    ensures
        opcode == base + 0x10 * reg.slot(),
{
    match reg {
        Reg16Push::BC => bc,
        Reg16Push::DE => de,
        Reg16Push::HL => hl,
        Reg16Push::AF => af,
    }
}

/// The entry of an opcode table row for `flag`; the row is given in the
/// order Always, Z, C, NZ, NC.
fn select_flag(flag: &Flag, always: u8, z: u8, c: u8, nz: u8, nc: u8) -> (opcode: u8)
    ensures
        opcode == match *flag {
            Flag::Always => always,
            Flag::Z => z,
            Flag::C => c,
            Flag::NZ => nz,
            Flag::NC => nc,
        },
{
    match flag {
        Flag::Always => always,
        Flag::Z => z,
        Flag::C => c,
        Flag::NZ => nz,
        Flag::NC => nc,
    }
}

/// The offset byte of a relative jump that is emitted at `position`.
fn jump_offset(expr: &Expr, position: usize, constants: &SymbolTable) -> (result: Result<
    u8,
    WriteError,
>)
    ensures
        result == jump_distance(*expr, position as int, constants@),
{
    let abs_dest = match expr.run(constants) {
        Ok(value) => value,
        Err(e) => { return Err(WriteError::Expr(e)); },
    };
    // 2 accounts for the 2 bytes that make up the jr instruction
    let rel_dest: i128 = abs_dest as i128 - position as i128 - 2;
    if rel_dest > 0x7F || rel_dest < -0x80 {
        Err(WriteError::JrOutOfRange { target: abs_dest, position })
    } else if rel_dest >= 0 {
        Ok(rel_dest as u8)
    } else {
        Ok((rel_dest + 0x100) as u8)
    }
}

impl Instruction {
    /// The three bits that name a register in an opcode.
    pub fn reg8_to_bits(reg: &Reg8) -> (bits: u8)
        ensures
            bits == reg.slot(),
    {
        match reg {
            Reg8::A => 0x07,
            Reg8::B => 0x00,
            Reg8::C => 0x01,
            Reg8::D => 0x02,
            Reg8::E => 0x03,
            Reg8::H => 0x04,
            Reg8::L => 0x05,
        }
    }

    /// The opcode table of directives, control flow and the instructions without operands.
    fn control_opcode(&self) -> (template: Template)
        ensures
            template == self.control_template(),
    {
        match self {
            Instruction::EmptyLine | Instruction::Equ(_, _) | Instruction::Label(_)
            | Instruction::AdvanceAddress(_) | Instruction::Db(_) => Template::bare(Form::Nothing),
            Instruction::DbExpr8(_) => Template::bare(Form::Byte),
            Instruction::DbExpr16(_) => Template::bare(Form::Word),
            Instruction::Nop => Template::new(Form::Opcode, 0x00),
            Instruction::Stop => Template::new(Form::Opcode, 0x10),
            Instruction::Halt => Template::new(Form::Padded, 0x76),
            Instruction::Di => Template::new(Form::Opcode, 0xF3),
            Instruction::Ei => Template::new(Form::Opcode, 0xFB),
            Instruction::Rrca => Template::new(Form::Opcode, 0x0F),
            Instruction::Rra => Template::new(Form::Opcode, 0x1F),
            Instruction::Cpl => Template::new(Form::Opcode, 0x2F),
            Instruction::Ccf => Template::new(Form::Opcode, 0x3F),
            Instruction::Rlca => Template::new(Form::Opcode, 0x07),
            Instruction::Rla => Template::new(Form::Opcode, 0x17),
            Instruction::Daa => Template::new(Form::Opcode, 0x27),
            Instruction::Scf => Template::new(Form::Opcode, 0x37),
            Instruction::Reti => Template::new(Form::Opcode, 0xD9),
            Instruction::Ret(flag) => Template::new(
                Form::Opcode,
                select_flag(flag, 0xC9, 0xC8, 0xC9, 0xC0, 0xD0),
            ),
            Instruction::Call(flag, _) => Template::new(
                Form::OpcodeWord,
                select_flag(flag, 0xCD, 0xCC, 0xDC, 0xC4, 0xD4),
            ),
            Instruction::JpI16(flag, _) => Template::new(
                Form::OpcodeWord,
                select_flag(flag, 0xC3, 0xCA, 0xDA, 0xC2, 0xD2),
            ),
            Instruction::JpRhl => Template::new(Form::Opcode, 0xE9),
            Instruction::Jr(flag, _) => Template::new(
                Form::Jump,
                select_flag(flag, 0x18, 0x28, 0x38, 0x20, 0x30),
            ),
            _ => Template::bare(Form::Nothing),
        }
    }

    /// The opcode table of increments, decrements and arithmetic.
    fn arithmetic_opcode(&self) -> (template: Template)
        ensures
            template == self.arithmetic_template(),
    {
        match self {
            Instruction::IncR16(reg) => Template::new(
                Form::Opcode,
                select_r16(reg, 0x03, 0x13, 0x23, 0x33, Ghost(0x03)),
            ),
            Instruction::IncR8(reg) => Template::new(
                Form::Opcode,
                select_r8(reg, 0x3C, 0x04, 0x0C, 0x14, 0x1C, 0x24, 0x2C, Ghost(0x04), Ghost(8)),
            ),
            Instruction::IncMRhl => Template::new(Form::Opcode, 0x34),
            Instruction::DecR16(reg) => Template::new(
                Form::Opcode,
                select_r16(reg, 0x0B, 0x1B, 0x2B, 0x3B, Ghost(0x0B)),
            ),
            Instruction::DecR8(reg) => Template::new(
                Form::Opcode,
                select_r8(reg, 0x3D, 0x05, 0x0D, 0x15, 0x1D, 0x25, 0x2D, Ghost(0x05), Ghost(8)),
            ),
            Instruction::DecMRhl => Template::new(Form::Opcode, 0x35),
            Instruction::AddR8(reg) => Template::new(
                Form::Opcode,
                select_r8(reg, 0x87, 0x80, 0x81, 0x82, 0x83, 0x84, 0x85, Ghost(0x80), Ghost(1)),
            ),
            Instruction::AddMRhl => Template::new(Form::Opcode, 0x86),
            Instruction::AddI8(_) => Template::new(Form::OpcodeByte, 0xC6),
            Instruction::AddRhlR16(reg) => Template::new(
                Form::Opcode,
                select_r16(reg, 0x09, 0x19, 0x29, 0x39, Ghost(0x09)),
            ),
            Instruction::AddRspI8(_) => Template::new(Form::OpcodeByte, 0xE8),
            Instruction::SubR8(reg) => Template::new(
                Form::Opcode,
                select_r8(reg, 0x97, 0x90, 0x91, 0x92, 0x93, 0x94, 0x95, Ghost(0x90), Ghost(1)),
            ),
            Instruction::SubMRhl => Template::new(Form::Opcode, 0x96),
            Instruction::SubI8(_) => Template::new(Form::OpcodeByte, 0xD6),
            Instruction::AndR8(reg) => Template::new(
                Form::Opcode,
                select_r8(reg, 0xA7, 0xA0, 0xA1, 0xA2, 0xA3, 0xA4, 0xA5, Ghost(0xA0), Ghost(1)),
            ),
            Instruction::AndMRhl => Template::new(Form::Opcode, 0xA6),
            Instruction::AndI8(_) => Template::new(Form::OpcodeByte, 0xE6),
            Instruction::OrR8(reg) => Template::new(
                Form::Opcode,
                select_r8(reg, 0xB7, 0xB0, 0xB1, 0xB2, 0xB3, 0xB4, 0xB5, Ghost(0xB0), Ghost(1)),
            ),
            Instruction::OrMRhl => Template::new(Form::Opcode, 0xB6),
            Instruction::OrI8(_) => Template::new(Form::OpcodeByte, 0xF6),
            Instruction::AdcR8(reg) => Template::new(
                Form::Opcode,
                select_r8(reg, 0x8F, 0x88, 0x89, 0x8A, 0x8B, 0x8C, 0x8D, Ghost(0x88), Ghost(1)),
            ),
            Instruction::AdcMRhl => Template::new(Form::Opcode, 0x8E),
            Instruction::AdcI8(_) => Template::new(Form::OpcodeByte, 0xCE),
            Instruction::SbcR8(reg) => Template::new(
                Form::Opcode,
                select_r8(reg, 0x9F, 0x98, 0x99, 0x9A, 0x9B, 0x9C, 0x9D, Ghost(0x98), Ghost(1)),
            ),
            Instruction::SbcMRhl => Template::new(Form::Opcode, 0x9E),
            Instruction::SbcI8(_) => Template::new(Form::OpcodeByte, 0xDE),
            Instruction::XorR8(reg) => Template::new(
                Form::Opcode,
                select_r8(reg, 0xAF, 0xA8, 0xA9, 0xAA, 0xAB, 0xAC, 0xAD, Ghost(0xA8), Ghost(1)),
            ),
            Instruction::XorMRhl => Template::new(Form::Opcode, 0xAE),
            Instruction::XorI8(_) => Template::new(Form::OpcodeByte, 0xEE),
            Instruction::CpR8(reg) => Template::new(
                Form::Opcode,
                select_r8(reg, 0xBF, 0xB8, 0xB9, 0xBA, 0xBB, 0xBC, 0xBD, Ghost(0xB8), Ghost(1)),
            ),
            Instruction::CpMRhl => Template::new(Form::Opcode, 0xBE),
            Instruction::CpI8(_) => Template::new(Form::OpcodeByte, 0xFE),
            _ => Template::bare(Form::Nothing),
        }
    }

    /// The opcode table of loads and the stack.
    fn load_opcode(&self) -> (template: Template)
        ensures
            template == self.load_template(),
    {
        match self {
            Instruction::LdR16I16(reg, _) => Template::new(
                Form::OpcodeWord,
                select_r16(reg, 0x01, 0x11, 0x21, 0x31, Ghost(0x01)),
            ),
            Instruction::LdMI16Rsp(_) => Template::new(Form::OpcodeWord, 0x08),
            Instruction::LdR8I8(reg, _) => Template::new(
                Form::OpcodeByte,
                select_r8(reg, 0x3E, 0x06, 0x0E, 0x16, 0x1E, 0x26, 0x2E, Ghost(0x06), Ghost(8)),
            ),
            Instruction::LdR8R8(reg_in, reg_out) => Template::new(
                Form::Opcode,
                // the first five bits, then the last three
                select_r8(reg_in, 0x78, 0x40, 0x48, 0x50, 0x58, 0x60, 0x68, Ghost(0x40), Ghost(8))
                    + Instruction::reg8_to_bits(reg_out),
            ),
            Instruction::LdMRbcRa => Template::new(Form::Opcode, 0x02),
            Instruction::LdMRdeRa => Template::new(Form::Opcode, 0x12),
            Instruction::LdRaMRbc => Template::new(Form::Opcode, 0x0A),
            Instruction::LdRaMRde => Template::new(Form::Opcode, 0x1A),
            Instruction::LdR8MRhl(reg) => Template::new(
                Form::Opcode,
                select_r8(reg, 0x7E, 0x46, 0x4E, 0x56, 0x5E, 0x66, 0x6E, Ghost(0x46), Ghost(8)),
            ),
            Instruction::LdMRhlR8(reg) => Template::new(
                Form::Opcode,
                select_r8(reg, 0x77, 0x70, 0x71, 0x72, 0x73, 0x74, 0x75, Ghost(0x70), Ghost(1)),
            ),
            Instruction::LdMRhlI8(_) => Template::new(Form::OpcodeByte, 0x36),
            Instruction::LdMI16Ra(_) => Template::new(Form::OpcodeWord, 0xEA),
            Instruction::LdRaMI16(_) => Template::new(Form::OpcodeWord, 0xFA),
            Instruction::LdhRaMI8(_) => Template::new(Form::OpcodeByte, 0xF0),
            Instruction::LdhMI8Ra(_) => Template::new(Form::OpcodeByte, 0xE0),
            Instruction::LdhRaMRc => Template::new(Form::Opcode, 0xF2),
            Instruction::LdhMRcRa => Template::new(Form::Opcode, 0xE2),
            Instruction::LdiMRhlRa => Template::new(Form::Opcode, 0x22),
            Instruction::LddMRhlRa => Template::new(Form::Opcode, 0x32),
            Instruction::LdiRaMRhl => Template::new(Form::Opcode, 0x2A),
            Instruction::LddRaMRhl => Template::new(Form::Opcode, 0x3A),
            Instruction::LdRspRhl => Template::new(Form::Opcode, 0xF9),
            Instruction::LdRhlRspI8(_) => Template::new(Form::OpcodeByte, 0xF8),
            Instruction::Push(reg) => Template::new(
                Form::Opcode,
                select_r16_push(reg, 0xC5, 0xD5, 0xE5, 0xF5, Ghost(0xC5)),
            ),
            Instruction::Pop(reg) => Template::new(
                Form::Opcode,
                select_r16_push(reg, 0xC1, 0xD1, 0xE1, 0xF1, Ghost(0xC1)),
            ),
            _ => Template::bare(Form::Nothing),
        }
    }

    /// The opcode table of the page behind the 0xCB prefix.
    fn prefixed_opcode(&self) -> (template: Template)
        ensures
            template == self.prefixed_template(),
    {
        match self {
            Instruction::RlcR8(reg) => Template::new(
                Form::Prefixed,
                select_r8(reg, 0x07, 0x00, 0x01, 0x02, 0x03, 0x04, 0x05, Ghost(0x00), Ghost(1)),
            ),
            Instruction::RlcMRhl => Template::new(Form::Prefixed, 0x06),
            Instruction::RrcR8(reg) => Template::new(
                Form::Prefixed,
                select_r8(reg, 0x0F, 0x08, 0x09, 0x0A, 0x0B, 0x0C, 0x0D, Ghost(0x08), Ghost(1)),
            ),
            Instruction::RrcMRhl => Template::new(Form::Prefixed, 0x0E),
            Instruction::RlR8(reg) => Template::new(
                Form::Prefixed,
                select_r8(reg, 0x17, 0x10, 0x11, 0x12, 0x13, 0x14, 0x15, Ghost(0x10), Ghost(1)),
            ),
            Instruction::RlMRhl => Template::new(Form::Prefixed, 0x16),
            Instruction::RrR8(reg) => Template::new(
                Form::Prefixed,
                select_r8(reg, 0x1F, 0x18, 0x19, 0x1A, 0x1B, 0x1C, 0x1D, Ghost(0x18), Ghost(1)),
            ),
            Instruction::RrMRhl => Template::new(Form::Prefixed, 0x1E),
            Instruction::SlaR8(reg) => Template::new(
                Form::Prefixed,
                select_r8(reg, 0x27, 0x20, 0x21, 0x22, 0x23, 0x24, 0x25, Ghost(0x20), Ghost(1)),
            ),
            Instruction::SlaMRhl => Template::new(Form::Prefixed, 0x26),
            Instruction::SraR8(reg) => Template::new(
                Form::Prefixed,
                select_r8(reg, 0x2F, 0x28, 0x29, 0x2A, 0x2B, 0x2C, 0x2D, Ghost(0x28), Ghost(1)),
            ),
            Instruction::SraMRhl => Template::new(Form::Prefixed, 0x2E),
            Instruction::SwapR8(reg) => Template::new(
                Form::Prefixed,
                select_r8(reg, 0x37, 0x30, 0x31, 0x32, 0x33, 0x34, 0x35, Ghost(0x30), Ghost(1)),
            ),
            Instruction::SwapMRhl => Template::new(Form::Prefixed, 0x36),
            Instruction::SrlR8(reg) => Template::new(
                Form::Prefixed,
                select_r8(reg, 0x3F, 0x38, 0x39, 0x3A, 0x3B, 0x3C, 0x3D, Ghost(0x38), Ghost(1)),
            ),
            Instruction::SrlMRhl => Template::new(Form::Prefixed, 0x3E),
            Instruction::BitBitR8(_, reg) => Template::new(
                Form::Bit,
                0x40 + Instruction::reg8_to_bits(reg),
            ),
            Instruction::BitBitMRhl(_) => Template::new(Form::Bit, 0x46),
            Instruction::ResBitR8(_, reg) => Template::new(
                Form::Bit,
                0x80 + Instruction::reg8_to_bits(reg),
            ),
            Instruction::ResBitMRhl(_) => Template::new(Form::Bit, 0x86),
            Instruction::SetBitR8(_, reg) => Template::new(
                Form::Bit,
                0xC0 + Instruction::reg8_to_bits(reg),
            ),
            Instruction::SetBitMRhl(_) => Template::new(Form::Bit, 0xC6),
            _ => Template::bare(Form::Nothing),
        }
    }

    /// The opcode tables: for every instruction its opcode and the layout
    /// of its bytes.
    fn opcode_template(&self) -> (template: Template)
        ensures
            template == self.template(),
    {
        match self {
            Instruction::RlcR8(_) | Instruction::RlcMRhl | Instruction::RrcR8(_)
            | Instruction::RrcMRhl | Instruction::RlR8(_) | Instruction::RlMRhl
            | Instruction::RrR8(_) | Instruction::RrMRhl | Instruction::SlaR8(_)
            | Instruction::SlaMRhl | Instruction::SraR8(_) | Instruction::SraMRhl
            | Instruction::SwapR8(_) | Instruction::SwapMRhl | Instruction::SrlR8(_)
            | Instruction::SrlMRhl | Instruction::BitBitR8(_, _) | Instruction::BitBitMRhl(_)
            | Instruction::ResBitR8(_, _) | Instruction::ResBitMRhl(_)
            | Instruction::SetBitR8(_, _) | Instruction::SetBitMRhl(_) => self.prefixed_opcode(),
            Instruction::LdR16I16(_, _) | Instruction::LdMI16Rsp(_) | Instruction::LdMRbcRa
            | Instruction::LdMRdeRa | Instruction::LdRaMRbc | Instruction::LdRaMRde
            | Instruction::LdR8R8(_, _) | Instruction::LdR8I8(_, _) | Instruction::LdR8MRhl(_)
            | Instruction::LdMRhlR8(_) | Instruction::LdMRhlI8(_) | Instruction::LdMI16Ra(_)
            | Instruction::LdRaMI16(_) | Instruction::LdhRaMI8(_) | Instruction::LdhMI8Ra(_)
            | Instruction::LdhRaMRc | Instruction::LdhMRcRa | Instruction::LdiMRhlRa
            | Instruction::LddMRhlRa | Instruction::LdiRaMRhl | Instruction::LddRaMRhl
            | Instruction::LdRhlRspI8(_) | Instruction::LdRspRhl | Instruction::Push(_)
            | Instruction::Pop(_) => self.load_opcode(),
            Instruction::IncR16(_) | Instruction::IncR8(_) | Instruction::IncMRhl
            | Instruction::DecR16(_) | Instruction::DecR8(_) | Instruction::DecMRhl
            | Instruction::AddR8(_) | Instruction::AddMRhl | Instruction::AddI8(_)
            | Instruction::AddRhlR16(_) | Instruction::AddRspI8(_) | Instruction::SubR8(_)
            | Instruction::SubMRhl | Instruction::SubI8(_) | Instruction::AndR8(_)
            | Instruction::AndMRhl | Instruction::AndI8(_) | Instruction::OrR8(_)
            | Instruction::OrMRhl | Instruction::OrI8(_) | Instruction::AdcR8(_)
            | Instruction::AdcMRhl | Instruction::AdcI8(_) | Instruction::SbcR8(_)
            | Instruction::SbcMRhl | Instruction::SbcI8(_) | Instruction::XorR8(_)
            | Instruction::XorMRhl | Instruction::XorI8(_) | Instruction::CpR8(_)
            | Instruction::CpMRhl | Instruction::CpI8(_) => self.arithmetic_opcode(),
            _ => self.control_opcode(),
        }
    }

    /// The expression among the operands, if there is one.
    fn operand_expr(&self) -> (operand: Option<&Expr>)
        ensures
            match operand {
                Some(expr) => *expr == self.operand(),
                None => match self.template().form {
                    Form::Nothing | Form::Opcode | Form::Padded | Form::Prefixed => true,
                    _ => false,
                },
            },
    {
        match self {
            Instruction::DbExpr8(expr) | Instruction::DbExpr16(expr)
            | Instruction::Call(_, expr) | Instruction::JpI16(_, expr)
            | Instruction::Jr(_, expr) | Instruction::AddI8(expr) | Instruction::AddRspI8(expr)
            | Instruction::SubI8(expr) | Instruction::AndI8(expr) | Instruction::OrI8(expr)
            | Instruction::AdcI8(expr) | Instruction::SbcI8(expr) | Instruction::XorI8(expr)
            | Instruction::CpI8(expr) | Instruction::LdR16I16(_, expr)
            | Instruction::LdMI16Rsp(expr) | Instruction::LdR8I8(_, expr)
            | Instruction::LdMRhlI8(expr) | Instruction::LdMI16Ra(expr)
            | Instruction::LdRaMI16(expr) | Instruction::LdhRaMI8(expr)
            | Instruction::LdhMI8Ra(expr) | Instruction::LdRhlRspI8(expr)
            | Instruction::BitBitR8(expr, _) | Instruction::BitBitMRhl(expr)
            | Instruction::ResBitR8(expr, _) | Instruction::ResBitMRhl(expr)
            | Instruction::SetBitR8(expr, _) | Instruction::SetBitMRhl(expr) => Some(expr),
            _ => None,
        }
    }

    /// Appends the bytes of the instruction to `rom`; the instruction is
    /// emitted at the address that is the length of `rom`. Identifiers in
    /// its operands are looked up in `constants`. Where the instruction
    /// cannot be encoded, `rom` is left as it was.
    pub fn write_to_rom(&self, rom: &mut Vec<u8>, constants: &SymbolTable) -> (result: Result<
        (),
        WriteError,
    >)
        ensures
            match self.encoding(old(rom)@.len() as int, constants@) {
                Ok(bytes) => result is Ok && final(rom)@ == old(rom)@ + bytes,
                Err(e) => result == Err::<(), WriteError>(e) && final(rom)@ == old(rom)@,
            },
    {
        let ghost before = rom@;
        match self {
            Instruction::AdvanceAddress(advance_address) => {
                let address_bank = (rom.len() % 0x4000) as u16;
                if *advance_address < address_bank {
                    return Err(
                        WriteError::BackwardAdvance {
                            address: *advance_address,
                            in_bank: address_bank,
                        },
                    );
                }
                let count = *advance_address - address_bank;
                let mut written: u16 = 0;
                while written < count
                    invariant
                        written <= count,
                        rom@ == before + zeroes(written as int),
                    decreases count - written,
                {
                    rom.push(0x00);
                    written += 1;
                }
                Ok(())
            },
            Instruction::Db(bytes) => {
                let mut copied: usize = 0;
                while copied < bytes.len()
                    invariant
                        copied <= bytes.len(),
                        rom@ == before + bytes@.subrange(0, copied as int),
                    decreases bytes.len() - copied,
                {
                    rom.push(bytes[copied]);
                    copied += 1;
                }
                assert(bytes@.subrange(0, copied as int) == bytes@);
                Ok(())
            },
            _ => {
                let template = self.opcode_template();
                let operand = self.operand_expr();
                write_template(template, operand, Ghost(self.operand()), rom, constants)
            },
        }
    }
}

/// Appends the bytes that a template and its operand stand for. `given`
/// is the operand where the layout needs one.
fn write_template(
    template: Template,
    given: Option<&Expr>,
    Ghost(operand): Ghost<Expr>,
    rom: &mut Vec<u8>,
    constants: &SymbolTable,
) -> (result: Result<(), WriteError>)
    requires
        match given {
            Some(expr) => *expr == operand,
            None => match template.form {
                Form::Nothing | Form::Opcode | Form::Padded | Form::Prefixed => true,
                _ => false,
            },
        },
    ensures
        match assemble(template, operand, old(rom)@.len() as int, constants@) {
            Ok(bytes) => result is Ok && final(rom)@ == old(rom)@ + bytes,
            Err(e) => result == Err::<(), WriteError>(e) && final(rom)@ == old(rom)@,
        },
{
    match (template.form, given) {
        (Form::Opcode, _) => {
            rom.push(template.opcode);
        },
        (Form::Padded, _) => {
            rom.push(template.opcode);
            rom.push(0x00);
        },
        (Form::Prefixed, _) => {
            rom.push(0xCB);
            rom.push(template.opcode);
        },
        (Form::Byte, Some(expr)) => {
            let byte = match expr.get_byte(constants) {
                Ok(byte) => byte,
                Err(e) => { return Err(WriteError::Expr(e)); },
            };
            rom.push(byte);
        },
        (Form::Word, Some(expr)) => {
            let word = match expr.get_2bytes(constants) {
                Ok(word) => word,
                Err(e) => { return Err(WriteError::Expr(e)); },
            };
            rom.push(word[0]);
            rom.push(word[1]);
        },
        (Form::OpcodeByte, Some(expr)) => {
            let byte = match expr.get_byte(constants) {
                Ok(byte) => byte,
                Err(e) => { return Err(WriteError::Expr(e)); },
            };
            rom.push(template.opcode);
            rom.push(byte);
        },
        (Form::OpcodeWord, Some(expr)) => {
            let word = match expr.get_2bytes(constants) {
                Ok(word) => word,
                Err(e) => { return Err(WriteError::Expr(e)); },
            };
            rom.push(template.opcode);
            rom.push(word[0]);
            rom.push(word[1]);
        },
        (Form::Bit, Some(expr)) => {
            let bit = match expr.get_bit_index(constants) {
                Ok(bit) => bit,
                Err(e) => { return Err(WriteError::Expr(e)); },
            };
            rom.push(0xCB);
            rom.push(template.opcode.wrapping_add(bit * 0x08));
        },
        (Form::Jump, Some(expr)) => {
            let offset = jump_offset(expr, rom.len(), constants)?;
            rom.push(template.opcode);
            rom.push(offset);
        },
        _ => {},
    }
    Ok(())
}

} // verus!
