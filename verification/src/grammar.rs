//! The grammar of a line: its patterns, in the order in which they are
//! tried, and the instruction that each of them builds.

use crate::ast::{canonical_bytes, little_endian_u16, Flag, Instruction};
use crate::syntax::Captures;
use vstd::prelude::*;
use vstd::string::StringSliceAdditionalSpecFns;

verus! {

/// The number of patterns.
pub const RULES: usize = 108;

/// The patterns of a line. The signs that they are written in are those
/// of [`crate::syntax::sign`]. The first pattern that fits a line says
/// what the line is.
pub open spec fn pattern(rule: int) -> Seq<u8> {
    if rule == 0 {
        "I:$".spec_bytes()
    } else if rule == 1 {
        "I equ E$".spec_bytes()
    } else if rule == 2 {
        "db B$".spec_bytes()
    } else if rule == 3 {
        "dw W$".spec_bytes()
    } else if rule == 4 {
        "advance_address W$".spec_bytes()
    } else if rule == 5 {
        "stop$".spec_bytes()
    } else if rule == 6 {
        "nop$".spec_bytes()
    } else if rule == 7 {
        "halt$".spec_bytes()
    } else if rule == 8 {
        "di$".spec_bytes()
    } else if rule == 9 {
        "ei$".spec_bytes()
    } else if rule == 10 {
        "reti$".spec_bytes()
    } else if rule == 11 {
        "rrca$".spec_bytes()
    } else if rule == 12 {
        "rra$".spec_bytes()
    } else if rule == 13 {
        "cpl$".spec_bytes()
    } else if rule == 14 {
        "ccf$".spec_bytes()
    } else if rule == 15 {
        "rlca$".spec_bytes()
    } else if rule == 16 {
        "rla$".spec_bytes()
    } else if rule == 17 {
        "daa$".spec_bytes()
    } else if rule == 18 {
        "scf$".spec_bytes()
    } else if rule == 19 {
        "ret$".spec_bytes()
    } else if rule == 20 {
        "ret F$".spec_bytes()
    } else if rule == 21 {
        "call F,E$".spec_bytes()
    } else if rule == 22 {
        "call E$".spec_bytes()
    } else if rule == 23 {
        "jp hl$".spec_bytes()
    } else if rule == 24 {
        "jp E$".spec_bytes()
    } else if rule == 25 {
        "jp F,E$".spec_bytes()
    } else if rule == 26 {
        "jr E$".spec_bytes()
    } else if rule == 27 {
        "jr F,E$".spec_bytes()
    } else if rule == 28 {
        "inc X$".spec_bytes()
    } else if rule == 29 {
        "inc R$".spec_bytes()
    } else if rule == 30 {
        "inc [~hl~]$".spec_bytes()
    } else if rule == 31 {
        "dec X$".spec_bytes()
    } else if rule == 32 {
        "dec R$".spec_bytes()
    } else if rule == 33 {
        "dec [~hl~]$".spec_bytes()
    } else if rule == 34 {
        "add U$".spec_bytes()
    } else if rule == 35 {
        "add A[~hl~]$".spec_bytes()
    } else if rule == 36 {
        "add AE$".spec_bytes()
    } else if rule == 37 {
        "add hl,X$".spec_bytes()
    } else if rule == 38 {
        "add sp,E$".spec_bytes()
    } else if rule == 39 {
        "sub U$".spec_bytes()
    } else if rule == 40 {
        "sub A[~hl~]$".spec_bytes()
    } else if rule == 41 {
        "sub AE$".spec_bytes()
    } else if rule == 42 {
        "and U$".spec_bytes()
    } else if rule == 43 {
        "and A[~hl~]$".spec_bytes()
    } else if rule == 44 {
        "and AE$".spec_bytes()
    } else if rule == 45 {
        "or U$".spec_bytes()
    } else if rule == 46 {
        "or A[~hl~]$".spec_bytes()
    } else if rule == 47 {
        "or AE$".spec_bytes()
    } else if rule == 48 {
        "adc U$".spec_bytes()
    } else if rule == 49 {
        "adc A[~hl~]$".spec_bytes()
    } else if rule == 50 {
        "adc AE$".spec_bytes()
    } else if rule == 51 {
        "sbc U$".spec_bytes()
    } else if rule == 52 {
        "sbc A[~hl~]$".spec_bytes()
    } else if rule == 53 {
        "sbc AE$".spec_bytes()
    } else if rule == 54 {
        "xor U$".spec_bytes()
    } else if rule == 55 {
        "xor A[~hl~]$".spec_bytes()
    } else if rule == 56 {
        "xor AE$".spec_bytes()
    } else if rule == 57 {
        "cp U$".spec_bytes()
    } else if rule == 58 {
        "cp A[~hl~]$".spec_bytes()
    } else if rule == 59 {
        "cp AE$".spec_bytes()
    } else if rule == 60 {
        "ld R,R$".spec_bytes()
    } else if rule == 61 {
        "ld R,E$".spec_bytes()
    } else if rule == 62 {
        "ld sp,hl$".spec_bytes()
    } else if rule == 63 {
        "ld [~E~],sp$".spec_bytes()
    } else if rule == 64 {
        "ld [bc],a$".spec_bytes()
    } else if rule == 65 {
        "ld [de],a$".spec_bytes()
    } else if rule == 66 {
        "ld a,[bc]$".spec_bytes()
    } else if rule == 67 {
        "ld a,[de]$".spec_bytes()
    } else if rule == 68 {
        "ldi [~hl~],a$".spec_bytes()
    } else if rule == 69 {
        "ldd [~hl~],a$".spec_bytes()
    } else if rule == 70 {
        "ldi a,[~hl~]$".spec_bytes()
    } else if rule == 71 {
        "ldd a,[~hl~]$".spec_bytes()
    } else if rule == 72 {
        "ld [~hl~],R$".spec_bytes()
    } else if rule == 73 {
        "ld [~hl~],E$".spec_bytes()
    } else if rule == 74 {
        "ld R,[~hl~]$".spec_bytes()
    } else if rule == 75 {
        "ld a,[~0xff00~+~c~]$".spec_bytes()
    } else if rule == 76 {
        "ld [~0xff00~+~c~],a$".spec_bytes()
    } else if rule == 77 {
        "ld [~0xff00~+~E~],a$".spec_bytes()
    } else if rule == 78 {
        "ld a,[~0xff00~+~E~]$".spec_bytes()
    } else if rule == 79 {
        "ld hl,sp~+~E$".spec_bytes()
    } else if rule == 80 {
        "ld [~E~],a$".spec_bytes()
    } else if rule == 81 {
        "ld a,[~E~]$".spec_bytes()
    } else if rule == 82 {
        "ld X,E$".spec_bytes()
    } else if rule == 83 {
        "push P$".spec_bytes()
    } else if rule == 84 {
        "pop P$".spec_bytes()
    } else if rule == 85 {
        "rlc R$".spec_bytes()
    } else if rule == 86 {
        "rlc [~hl~]$".spec_bytes()
    } else if rule == 87 {
        "rrc R$".spec_bytes()
    } else if rule == 88 {
        "rrc [~hl~]$".spec_bytes()
    } else if rule == 89 {
        "rl R$".spec_bytes()
    } else if rule == 90 {
        "rl [~hl~]$".spec_bytes()
    } else if rule == 91 {
        "rr R$".spec_bytes()
    } else if rule == 92 {
        "rr [~hl~]$".spec_bytes()
    } else if rule == 93 {
        "sla R$".spec_bytes()
    } else if rule == 94 {
        "sla [~hl~]$".spec_bytes()
    } else if rule == 95 {
        "sra R$".spec_bytes()
    } else if rule == 96 {
        "sra [~hl~]$".spec_bytes()
    } else if rule == 97 {
        "swap R$".spec_bytes()
    } else if rule == 98 {
        "swap [~hl~]$".spec_bytes()
    } else if rule == 99 {
        "srl R$".spec_bytes()
    } else if rule == 100 {
        "srl [~hl~]$".spec_bytes()
    } else if rule == 101 {
        "bit E,R$".spec_bytes()
    } else if rule == 102 {
        "bit E,[~hl~]$".spec_bytes()
    } else if rule == 103 {
        "res E,R$".spec_bytes()
    } else if rule == 104 {
        "res E,[~hl~]$".spec_bytes()
    } else if rule == 105 {
        "set E,R$".spec_bytes()
    } else if rule == 106 {
        "set E,[~hl~]$".spec_bytes()
    } else if rule == 107 {
        "$".spec_bytes()
    } else {
        "".spec_bytes()
    }
}

/// The pattern with the number `rule`.
pub(crate) fn pattern_of(rule: usize) -> (text: &'static str)
    ensures
        text.spec_bytes() == pattern(rule as int),
{
    if rule == 0 {
        "I:$"
    } else if rule == 1 {
        "I equ E$"
    } else if rule == 2 {
        "db B$"
    } else if rule == 3 {
        "dw W$"
    } else if rule == 4 {
        "advance_address W$"
    } else if rule == 5 {
        "stop$"
    } else if rule == 6 {
        "nop$"
    } else if rule == 7 {
        "halt$"
    } else if rule == 8 {
        "di$"
    } else if rule == 9 {
        "ei$"
    } else if rule == 10 {
        "reti$"
    } else if rule == 11 {
        "rrca$"
    } else if rule == 12 {
        "rra$"
    } else if rule == 13 {
        "cpl$"
    } else if rule == 14 {
        "ccf$"
    } else if rule == 15 {
        "rlca$"
    } else if rule == 16 {
        "rla$"
    } else if rule == 17 {
        "daa$"
    } else if rule == 18 {
        "scf$"
    } else if rule == 19 {
        "ret$"
    } else if rule == 20 {
        "ret F$"
    } else if rule == 21 {
        "call F,E$"
    } else if rule == 22 {
        "call E$"
    } else if rule == 23 {
        "jp hl$"
    } else if rule == 24 {
        "jp E$"
    } else if rule == 25 {
        "jp F,E$"
    } else if rule == 26 {
        "jr E$"
    } else if rule == 27 {
        "jr F,E$"
    } else if rule == 28 {
        "inc X$"
    } else if rule == 29 {
        "inc R$"
    } else if rule == 30 {
        "inc [~hl~]$"
    } else if rule == 31 {
        "dec X$"
    } else if rule == 32 {
        "dec R$"
    } else if rule == 33 {
        "dec [~hl~]$"
    } else if rule == 34 {
        "add U$"
    } else if rule == 35 {
        "add A[~hl~]$"
    } else if rule == 36 {
        "add AE$"
    } else if rule == 37 {
        "add hl,X$"
    } else if rule == 38 {
        "add sp,E$"
    } else if rule == 39 {
        "sub U$"
    } else if rule == 40 {
        "sub A[~hl~]$"
    } else if rule == 41 {
        "sub AE$"
    } else if rule == 42 {
        "and U$"
    } else if rule == 43 {
        "and A[~hl~]$"
    } else if rule == 44 {
        "and AE$"
    } else if rule == 45 {
        "or U$"
    } else if rule == 46 {
        "or A[~hl~]$"
    } else if rule == 47 {
        "or AE$"
    } else if rule == 48 {
        "adc U$"
    } else if rule == 49 {
        "adc A[~hl~]$"
    } else if rule == 50 {
        "adc AE$"
    } else if rule == 51 {
        "sbc U$"
    } else if rule == 52 {
        "sbc A[~hl~]$"
    } else if rule == 53 {
        "sbc AE$"
    } else if rule == 54 {
        "xor U$"
    } else if rule == 55 {
        "xor A[~hl~]$"
    } else if rule == 56 {
        "xor AE$"
    } else if rule == 57 {
        "cp U$"
    } else if rule == 58 {
        "cp A[~hl~]$"
    } else if rule == 59 {
        "cp AE$"
    } else if rule == 60 {
        "ld R,R$"
    } else if rule == 61 {
        "ld R,E$"
    } else if rule == 62 {
        "ld sp,hl$"
    } else if rule == 63 {
        "ld [~E~],sp$"
    } else if rule == 64 {
        "ld [bc],a$"
    } else if rule == 65 {
        "ld [de],a$"
    } else if rule == 66 {
        "ld a,[bc]$"
    } else if rule == 67 {
        "ld a,[de]$"
    } else if rule == 68 {
        "ldi [~hl~],a$"
    } else if rule == 69 {
        "ldd [~hl~],a$"
    } else if rule == 70 {
        "ldi a,[~hl~]$"
    } else if rule == 71 {
        "ldd a,[~hl~]$"
    } else if rule == 72 {
        "ld [~hl~],R$"
    } else if rule == 73 {
        "ld [~hl~],E$"
    } else if rule == 74 {
        "ld R,[~hl~]$"
    } else if rule == 75 {
        "ld a,[~0xff00~+~c~]$"
    } else if rule == 76 {
        "ld [~0xff00~+~c~],a$"
    } else if rule == 77 {
        "ld [~0xff00~+~E~],a$"
    } else if rule == 78 {
        "ld a,[~0xff00~+~E~]$"
    } else if rule == 79 {
        "ld hl,sp~+~E$"
    } else if rule == 80 {
        "ld [~E~],a$"
    } else if rule == 81 {
        "ld a,[~E~]$"
    } else if rule == 82 {
        "ld X,E$"
    } else if rule == 83 {
        "push P$"
    } else if rule == 84 {
        "pop P$"
    } else if rule == 85 {
        "rlc R$"
    } else if rule == 86 {
        "rlc [~hl~]$"
    } else if rule == 87 {
        "rrc R$"
    } else if rule == 88 {
        "rrc [~hl~]$"
    } else if rule == 89 {
        "rl R$"
    } else if rule == 90 {
        "rl [~hl~]$"
    } else if rule == 91 {
        "rr R$"
    } else if rule == 92 {
        "rr [~hl~]$"
    } else if rule == 93 {
        "sla R$"
    } else if rule == 94 {
        "sla [~hl~]$"
    } else if rule == 95 {
        "sra R$"
    } else if rule == 96 {
        "sra [~hl~]$"
    } else if rule == 97 {
        "swap R$"
    } else if rule == 98 {
        "swap [~hl~]$"
    } else if rule == 99 {
        "srl R$"
    } else if rule == 100 {
        "srl [~hl~]$"
    } else if rule == 101 {
        "bit E,R$"
    } else if rule == 102 {
        "bit E,[~hl~]$"
    } else if rule == 103 {
        "res E,R$"
    } else if rule == 104 {
        "res E,[~hl~]$"
    } else if rule == 105 {
        "set E,R$"
    } else if rule == 106 {
        "set E,[~hl~]$"
    } else if rule == 107 {
        "$"
    } else {
        ""
    }
}

/// The two bytes of a word of `dw`, low byte first.
pub open spec fn word_of_data(word: u16) -> Seq<u8> {
    seq![(word % 256) as u8, (word / 256) as u8]
}

/// The two bytes of a word of `dw`, low byte first.
fn word_bytes(word: u16) -> (bytes: Vec<u8>)
    ensures
        bytes@ == word_of_data(word),
{
    let pair = little_endian_u16(word);
    let mut bytes = Vec::new();
    bytes.push(pair[0]);
    bytes.push(pair[1]);
    bytes
}

/// What the patterns 0 to 4 build: the directives.
pub open spec fn directive(rule: int, taken: Captures) -> Option<Instruction> {
    if rule == 0 {
        // I:$
        match taken.name {
            Some(name) => Some(Instruction::Label(name)),
            None => None,
        }
    } else if rule == 1 {
        // I equ E$
        match (taken.name, taken.expr) {
            (Some(name), Some(expr)) => Some(Instruction::Equ(name, expr)),
            _ => None,
        }
    } else if rule == 2 {
        // db B$
        match taken.bytes {
            Some(bytes) => Some(Instruction::Db(bytes)),
            None => None,
        }
    } else if rule == 3 {
        // dw W$
        match taken.word {
            Some(word) => Some(Instruction::Db(canonical_bytes(word_of_data(word)))),
            None => None,
        }
    } else if rule == 4 {
        // advance_address W$
        match taken.word {
            Some(word) => Some(Instruction::AdvanceAddress(word)),
            None => None,
        }
    } else {
        None
    }
}

fn build_directive(rule: usize, taken: Captures) -> (result: Option<Instruction>)
    ensures
        match directive(rule as int, taken.canonical()) {
            Some(instruction) => result matches Some(built) && built.canonical() == instruction,
            None => result is None,
        },
{
    if rule == 0 {
        // I:$
        match taken.name {
            Some(name) => Some(Instruction::Label(name)),
            None => None,
        }
    } else if rule == 1 {
        // I equ E$
        match (taken.name, taken.expr) {
            (Some(name), Some(expr)) => Some(Instruction::Equ(name, expr)),
            _ => None,
        }
    } else if rule == 2 {
        // db B$
        match taken.bytes {
            Some(bytes) => Some(Instruction::Db(bytes)),
            None => None,
        }
    } else if rule == 3 {
        // dw W$
        match taken.word {
            Some(word) => Some(Instruction::Db(word_bytes(word))),
            None => None,
        }
    } else if rule == 4 {
        // advance_address W$
        match taken.word {
            Some(word) => Some(Instruction::AdvanceAddress(word)),
            None => None,
        }
    } else {
        None
    }
}

/// What the patterns 5 to 19 build: the instructions without operands.
pub open spec fn plain(rule: int, taken: Captures) -> Option<Instruction> {
    if rule == 5 {
        // stop$
        Some(Instruction::Stop)
    } else if rule == 6 {
        // nop$
        Some(Instruction::Nop)
    } else if rule == 7 {
        // halt$
        Some(Instruction::Halt)
    } else if rule == 8 {
        // di$
        Some(Instruction::Di)
    } else if rule == 9 {
        // ei$
        Some(Instruction::Ei)
    } else if rule == 10 {
        // reti$
        Some(Instruction::Reti)
    } else if rule == 11 {
        // rrca$
        Some(Instruction::Rrca)
    } else if rule == 12 {
        // rra$
        Some(Instruction::Rra)
    } else if rule == 13 {
        // cpl$
        Some(Instruction::Cpl)
    } else if rule == 14 {
        // ccf$
        Some(Instruction::Ccf)
    } else if rule == 15 {
        // rlca$
        Some(Instruction::Rlca)
    } else if rule == 16 {
        // rla$
        Some(Instruction::Rla)
    } else if rule == 17 {
        // daa$
        Some(Instruction::Daa)
    } else if rule == 18 {
        // scf$
        Some(Instruction::Scf)
    } else if rule == 19 {
        // ret$
        Some(Instruction::Ret(Flag::Always))
    } else {
        None
    }
}

fn build_plain(rule: usize, taken: Captures) -> (result: Option<Instruction>)
    ensures
        match plain(rule as int, taken.canonical()) {
            Some(instruction) => result matches Some(built) && built.canonical() == instruction,
            None => result is None,
        },
{
    if rule == 5 {
        // stop$
        Some(Instruction::Stop)
    } else if rule == 6 {
        // nop$
        Some(Instruction::Nop)
    } else if rule == 7 {
        // halt$
        Some(Instruction::Halt)
    } else if rule == 8 {
        // di$
        Some(Instruction::Di)
    } else if rule == 9 {
        // ei$
        Some(Instruction::Ei)
    } else if rule == 10 {
        // reti$
        Some(Instruction::Reti)
    } else if rule == 11 {
        // rrca$
        Some(Instruction::Rrca)
    } else if rule == 12 {
        // rra$
        Some(Instruction::Rra)
    } else if rule == 13 {
        // cpl$
        Some(Instruction::Cpl)
    } else if rule == 14 {
        // ccf$
        Some(Instruction::Ccf)
    } else if rule == 15 {
        // rlca$
        Some(Instruction::Rlca)
    } else if rule == 16 {
        // rla$
        Some(Instruction::Rla)
    } else if rule == 17 {
        // daa$
        Some(Instruction::Daa)
    } else if rule == 18 {
        // scf$
        Some(Instruction::Scf)
    } else if rule == 19 {
        // ret$
        Some(Instruction::Ret(Flag::Always))
    } else {
        None
    }
}

/// What the patterns 20 to 27 build: returns, calls and jumps.
pub open spec fn control(rule: int, taken: Captures) -> Option<Instruction> {
    if rule == 20 {
        // ret F$
        match taken.flag {
            Some(flag) => Some(Instruction::Ret(flag)),
            None => None,
        }
    } else if rule == 21 {
        // call F,E$
        match (taken.flag, taken.expr) {
            (Some(flag), Some(expr)) => Some(Instruction::Call(flag, expr)),
            _ => None,
        }
    } else if rule == 22 {
        // call E$
        match taken.expr {
            Some(expr) => Some(Instruction::Call(Flag::Always, expr)),
            None => None,
        }
    } else if rule == 23 {
        // jp hl$
        Some(Instruction::JpRhl)
    } else if rule == 24 {
        // jp E$
        match taken.expr {
            Some(expr) => Some(Instruction::JpI16(Flag::Always, expr)),
            None => None,
        }
    } else if rule == 25 {
        // jp F,E$
        match (taken.flag, taken.expr) {
            (Some(flag), Some(expr)) => Some(Instruction::JpI16(flag, expr)),
            _ => None,
        }
    } else if rule == 26 {
        // jr E$
        match taken.expr {
            Some(expr) => Some(Instruction::Jr(Flag::Always, expr)),
            None => None,
        }
    } else if rule == 27 {
        // jr F,E$
        match (taken.flag, taken.expr) {
            (Some(flag), Some(expr)) => Some(Instruction::Jr(flag, expr)),
            _ => None,
        }
    } else {
        None
    }
}

fn build_control(rule: usize, taken: Captures) -> (result: Option<Instruction>)
    ensures
        match control(rule as int, taken.canonical()) {
            Some(instruction) => result matches Some(built) && built.canonical() == instruction,
            None => result is None,
        },
{
    if rule == 20 {
        // ret F$
        match taken.flag {
            Some(flag) => Some(Instruction::Ret(flag)),
            None => None,
        }
    } else if rule == 21 {
        // call F,E$
        match (taken.flag, taken.expr) {
            (Some(flag), Some(expr)) => Some(Instruction::Call(flag, expr)),
            _ => None,
        }
    } else if rule == 22 {
        // call E$
        match taken.expr {
            Some(expr) => Some(Instruction::Call(Flag::Always, expr)),
            None => None,
        }
    } else if rule == 23 {
        // jp hl$
        Some(Instruction::JpRhl)
    } else if rule == 24 {
        // jp E$
        match taken.expr {
            Some(expr) => Some(Instruction::JpI16(Flag::Always, expr)),
            None => None,
        }
    } else if rule == 25 {
        // jp F,E$
        match (taken.flag, taken.expr) {
            (Some(flag), Some(expr)) => Some(Instruction::JpI16(flag, expr)),
            _ => None,
        }
    } else if rule == 26 {
        // jr E$
        match taken.expr {
            Some(expr) => Some(Instruction::Jr(Flag::Always, expr)),
            None => None,
        }
    } else if rule == 27 {
        // jr F,E$
        match (taken.flag, taken.expr) {
            (Some(flag), Some(expr)) => Some(Instruction::Jr(flag, expr)),
            _ => None,
        }
    } else {
        None
    }
}

/// What the patterns 28 to 59 build: increments, decrements and arithmetic.
pub open spec fn arithmetic(rule: int, taken: Captures) -> Option<Instruction> {
    if rule == 28 {
        // inc X$
        match taken.pair {
            Some(pair) => Some(Instruction::IncR16(pair)),
            None => None,
        }
    } else if rule == 29 {
        // inc R$
        match taken.first {
            Some(first) => Some(Instruction::IncR8(first)),
            None => None,
        }
    } else if rule == 30 {
        // inc [~hl~]$
        Some(Instruction::IncMRhl)
    } else if rule == 31 {
        // dec X$
        match taken.pair {
            Some(pair) => Some(Instruction::DecR16(pair)),
            None => None,
        }
    } else if rule == 32 {
        // dec R$
        match taken.first {
            Some(first) => Some(Instruction::DecR8(first)),
            None => None,
        }
    } else if rule == 33 {
        // dec [~hl~]$
        Some(Instruction::DecMRhl)
    } else if rule == 34 {
        // add U$
        match taken.first {
            Some(first) => Some(Instruction::AddR8(first)),
            None => None,
        }
    } else if rule == 35 {
        // add A[~hl~]$
        Some(Instruction::AddMRhl)
    } else if rule == 36 {
        // add AE$
        match taken.expr {
            Some(expr) => Some(Instruction::AddI8(expr)),
            None => None,
        }
    } else if rule == 37 {
        // add hl,X$
        match taken.pair {
            Some(pair) => Some(Instruction::AddRhlR16(pair)),
            None => None,
        }
    } else if rule == 38 {
        // add sp,E$
        match taken.expr {
            Some(expr) => Some(Instruction::AddRspI8(expr)),
            None => None,
        }
    } else if rule == 39 {
        // sub U$
        match taken.first {
            Some(first) => Some(Instruction::SubR8(first)),
            None => None,
        }
    } else if rule == 40 {
        // sub A[~hl~]$
        Some(Instruction::SubMRhl)
    } else if rule == 41 {
        // sub AE$
        match taken.expr {
            Some(expr) => Some(Instruction::SubI8(expr)),
            None => None,
        }
    } else if rule == 42 {
        // and U$
        match taken.first {
            Some(first) => Some(Instruction::AndR8(first)),
            None => None,
        }
    } else if rule == 43 {
        // and A[~hl~]$
        Some(Instruction::AndMRhl)
    } else if rule == 44 {
        // and AE$
        match taken.expr {
            Some(expr) => Some(Instruction::AndI8(expr)),
            None => None,
        }
    } else if rule == 45 {
        // or U$
        match taken.first {
            Some(first) => Some(Instruction::OrR8(first)),
            None => None,
        }
    } else if rule == 46 {
        // or A[~hl~]$
        Some(Instruction::OrMRhl)
    } else if rule == 47 {
        // or AE$
        match taken.expr {
            Some(expr) => Some(Instruction::OrI8(expr)),
            None => None,
        }
    } else if rule == 48 {
        // adc U$
        match taken.first {
            Some(first) => Some(Instruction::AdcR8(first)),
            None => None,
        }
    } else if rule == 49 {
        // adc A[~hl~]$
        Some(Instruction::AdcMRhl)
    } else if rule == 50 {
        // adc AE$
        match taken.expr {
            Some(expr) => Some(Instruction::AdcI8(expr)),
            None => None,
        }
    } else if rule == 51 {
        // sbc U$
        match taken.first {
            Some(first) => Some(Instruction::SbcR8(first)),
            None => None,
        }
    } else if rule == 52 {
        // sbc A[~hl~]$
        Some(Instruction::SbcMRhl)
    } else if rule == 53 {
        // sbc AE$
        match taken.expr {
            Some(expr) => Some(Instruction::SbcI8(expr)),
            None => None,
        }
    } else if rule == 54 {
        // xor U$
        match taken.first {
            Some(first) => Some(Instruction::XorR8(first)),
            None => None,
        }
    } else if rule == 55 {
        // xor A[~hl~]$
        Some(Instruction::XorMRhl)
    } else if rule == 56 {
        // xor AE$
        match taken.expr {
            Some(expr) => Some(Instruction::XorI8(expr)),
            None => None,
        }
    } else if rule == 57 {
        // cp U$
        match taken.first {
            Some(first) => Some(Instruction::CpR8(first)),
            None => None,
        }
    } else if rule == 58 {
        // cp A[~hl~]$
        Some(Instruction::CpMRhl)
    } else if rule == 59 {
        // cp AE$
        match taken.expr {
            Some(expr) => Some(Instruction::CpI8(expr)),
            None => None,
        }
    } else {
        None
    }
}

fn build_arithmetic(rule: usize, taken: Captures) -> (result: Option<Instruction>)
    ensures
        match arithmetic(rule as int, taken.canonical()) {
            Some(instruction) => result matches Some(built) && built.canonical() == instruction,
            None => result is None,
        },
{
    if rule == 28 {
        // inc X$
        match taken.pair {
            Some(pair) => Some(Instruction::IncR16(pair)),
            None => None,
        }
    } else if rule == 29 {
        // inc R$
        match taken.first {
            Some(first) => Some(Instruction::IncR8(first)),
            None => None,
        }
    } else if rule == 30 {
        // inc [~hl~]$
        Some(Instruction::IncMRhl)
    } else if rule == 31 {
        // dec X$
        match taken.pair {
            Some(pair) => Some(Instruction::DecR16(pair)),
            None => None,
        }
    } else if rule == 32 {
        // dec R$
        match taken.first {
            Some(first) => Some(Instruction::DecR8(first)),
            None => None,
        }
    } else if rule == 33 {
        // dec [~hl~]$
        Some(Instruction::DecMRhl)
    } else if rule == 34 {
        // add U$
        match taken.first {
            Some(first) => Some(Instruction::AddR8(first)),
            None => None,
        }
    } else if rule == 35 {
        // add A[~hl~]$
        Some(Instruction::AddMRhl)
    } else if rule == 36 {
        // add AE$
        match taken.expr {
            Some(expr) => Some(Instruction::AddI8(expr)),
            None => None,
        }
    } else if rule == 37 {
        // add hl,X$
        match taken.pair {
            Some(pair) => Some(Instruction::AddRhlR16(pair)),
            None => None,
        }
    } else if rule == 38 {
        // add sp,E$
        match taken.expr {
            Some(expr) => Some(Instruction::AddRspI8(expr)),
            None => None,
        }
    } else if rule == 39 {
        // sub U$
        match taken.first {
            Some(first) => Some(Instruction::SubR8(first)),
            None => None,
        }
    } else if rule == 40 {
        // sub A[~hl~]$
        Some(Instruction::SubMRhl)
    } else if rule == 41 {
        // sub AE$
        match taken.expr {
            Some(expr) => Some(Instruction::SubI8(expr)),
            None => None,
        }
    } else if rule == 42 {
        // and U$
        match taken.first {
            Some(first) => Some(Instruction::AndR8(first)),
            None => None,
        }
    } else if rule == 43 {
        // and A[~hl~]$
        Some(Instruction::AndMRhl)
    } else if rule == 44 {
        // and AE$
        match taken.expr {
            Some(expr) => Some(Instruction::AndI8(expr)),
            None => None,
        }
    } else if rule == 45 {
        // or U$
        match taken.first {
            Some(first) => Some(Instruction::OrR8(first)),
            None => None,
        }
    } else if rule == 46 {
        // or A[~hl~]$
        Some(Instruction::OrMRhl)
    } else if rule == 47 {
        // or AE$
        match taken.expr {
            Some(expr) => Some(Instruction::OrI8(expr)),
            None => None,
        }
    } else if rule == 48 {
        // adc U$
        match taken.first {
            Some(first) => Some(Instruction::AdcR8(first)),
            None => None,
        }
    } else if rule == 49 {
        // adc A[~hl~]$
        Some(Instruction::AdcMRhl)
    } else if rule == 50 {
        // adc AE$
        match taken.expr {
            Some(expr) => Some(Instruction::AdcI8(expr)),
            None => None,
        }
    } else if rule == 51 {
        // sbc U$
        match taken.first {
            Some(first) => Some(Instruction::SbcR8(first)),
            None => None,
        }
    } else if rule == 52 {
        // sbc A[~hl~]$
        Some(Instruction::SbcMRhl)
    } else if rule == 53 {
        // sbc AE$
        match taken.expr {
            Some(expr) => Some(Instruction::SbcI8(expr)),
            None => None,
        }
    } else if rule == 54 {
        // xor U$
        match taken.first {
            Some(first) => Some(Instruction::XorR8(first)),
            None => None,
        }
    } else if rule == 55 {
        // xor A[~hl~]$
        Some(Instruction::XorMRhl)
    } else if rule == 56 {
        // xor AE$
        match taken.expr {
            Some(expr) => Some(Instruction::XorI8(expr)),
            None => None,
        }
    } else if rule == 57 {
        // cp U$
        match taken.first {
            Some(first) => Some(Instruction::CpR8(first)),
            None => None,
        }
    } else if rule == 58 {
        // cp A[~hl~]$
        Some(Instruction::CpMRhl)
    } else if rule == 59 {
        // cp AE$
        match taken.expr {
            Some(expr) => Some(Instruction::CpI8(expr)),
            None => None,
        }
    } else {
        None
    }
}

/// What the patterns 60 to 84 build: loads and the stack.
pub open spec fn load(rule: int, taken: Captures) -> Option<Instruction> {
    if rule == 60 {
        // ld R,R$
        match (taken.first, taken.second) {
            (Some(first), Some(second)) => Some(Instruction::LdR8R8(first, second)),
            _ => None,
        }
    } else if rule == 61 {
        // ld R,E$
        match (taken.first, taken.expr) {
            (Some(first), Some(expr)) => Some(Instruction::LdR8I8(first, expr)),
            _ => None,
        }
    } else if rule == 62 {
        // ld sp,hl$
        Some(Instruction::LdRspRhl)
    } else if rule == 63 {
        // ld [~E~],sp$
        match taken.expr {
            Some(expr) => Some(Instruction::LdMI16Rsp(expr)),
            None => None,
        }
    } else if rule == 64 {
        // ld [bc],a$
        Some(Instruction::LdMRbcRa)
    } else if rule == 65 {
        // ld [de],a$
        Some(Instruction::LdMRdeRa)
    } else if rule == 66 {
        // ld a,[bc]$
        Some(Instruction::LdRaMRbc)
    } else if rule == 67 {
        // ld a,[de]$
        Some(Instruction::LdRaMRde)
    } else if rule == 68 {
        // ldi [~hl~],a$
        Some(Instruction::LdiMRhlRa)
    } else if rule == 69 {
        // ldd [~hl~],a$
        Some(Instruction::LddMRhlRa)
    } else if rule == 70 {
        // ldi a,[~hl~]$
        Some(Instruction::LdiRaMRhl)
    } else if rule == 71 {
        // ldd a,[~hl~]$
        Some(Instruction::LddRaMRhl)
    } else if rule == 72 {
        // ld [~hl~],R$
        match taken.first {
            Some(first) => Some(Instruction::LdMRhlR8(first)),
            None => None,
        }
    } else if rule == 73 {
        // ld [~hl~],E$
        match taken.expr {
            Some(expr) => Some(Instruction::LdMRhlI8(expr)),
            None => None,
        }
    } else if rule == 74 {
        // ld R,[~hl~]$
        match taken.first {
            Some(first) => Some(Instruction::LdR8MRhl(first)),
            None => None,
        }
    } else if rule == 75 {
        // ld a,[~0xff00~+~c~]$
        Some(Instruction::LdhRaMRc)
    } else if rule == 76 {
        // ld [~0xff00~+~c~],a$
        Some(Instruction::LdhMRcRa)
    } else if rule == 77 {
        // ld [~0xff00~+~E~],a$
        match taken.expr {
            Some(expr) => Some(Instruction::LdhMI8Ra(expr)),
            None => None,
        }
    } else if rule == 78 {
        // ld a,[~0xff00~+~E~]$
        match taken.expr {
            Some(expr) => Some(Instruction::LdhRaMI8(expr)),
            None => None,
        }
    } else if rule == 79 {
        // ld hl,sp~+~E$
        match taken.expr {
            Some(expr) => Some(Instruction::LdRhlRspI8(expr)),
            None => None,
        }
    } else if rule == 80 {
        // ld [~E~],a$
        match taken.expr {
            Some(expr) => Some(Instruction::LdMI16Ra(expr)),
            None => None,
        }
    } else if rule == 81 {
        // ld a,[~E~]$
        match taken.expr {
            Some(expr) => Some(Instruction::LdRaMI16(expr)),
            None => None,
        }
    } else if rule == 82 {
        // ld X,E$
        match (taken.pair, taken.expr) {
            (Some(pair), Some(expr)) => Some(Instruction::LdR16I16(pair, expr)),
            _ => None,
        }
    } else if rule == 83 {
        // push P$
        match taken.stack {
            Some(stack) => Some(Instruction::Push(stack)),
            None => None,
        }
    } else if rule == 84 {
        // pop P$
        match taken.stack {
            Some(stack) => Some(Instruction::Pop(stack)),
            None => None,
        }
    } else {
        None
    }
}

fn build_load(rule: usize, taken: Captures) -> (result: Option<Instruction>)
    ensures
        match load(rule as int, taken.canonical()) {
            Some(instruction) => result matches Some(built) && built.canonical() == instruction,
            None => result is None,
        },
{
    if rule == 60 {
        // ld R,R$
        match (taken.first, taken.second) {
            (Some(first), Some(second)) => Some(Instruction::LdR8R8(first, second)),
            _ => None,
        }
    } else if rule == 61 {
        // ld R,E$
        match (taken.first, taken.expr) {
            (Some(first), Some(expr)) => Some(Instruction::LdR8I8(first, expr)),
            _ => None,
        }
    } else if rule == 62 {
        // ld sp,hl$
        Some(Instruction::LdRspRhl)
    } else if rule == 63 {
        // ld [~E~],sp$
        match taken.expr {
            Some(expr) => Some(Instruction::LdMI16Rsp(expr)),
            None => None,
        }
    } else if rule == 64 {
        // ld [bc],a$
        Some(Instruction::LdMRbcRa)
    } else if rule == 65 {
        // ld [de],a$
        Some(Instruction::LdMRdeRa)
    } else if rule == 66 {
        // ld a,[bc]$
        Some(Instruction::LdRaMRbc)
    } else if rule == 67 {
        // ld a,[de]$
        Some(Instruction::LdRaMRde)
    } else if rule == 68 {
        // ldi [~hl~],a$
        Some(Instruction::LdiMRhlRa)
    } else if rule == 69 {
        // ldd [~hl~],a$
        Some(Instruction::LddMRhlRa)
    } else if rule == 70 {
        // ldi a,[~hl~]$
        Some(Instruction::LdiRaMRhl)
    } else if rule == 71 {
        // ldd a,[~hl~]$
        Some(Instruction::LddRaMRhl)
    } else if rule == 72 {
        // ld [~hl~],R$
        match taken.first {
            Some(first) => Some(Instruction::LdMRhlR8(first)),
            None => None,
        }
    } else if rule == 73 {
        // ld [~hl~],E$
        match taken.expr {
            Some(expr) => Some(Instruction::LdMRhlI8(expr)),
            None => None,
        }
    } else if rule == 74 {
        // ld R,[~hl~]$
        match taken.first {
            Some(first) => Some(Instruction::LdR8MRhl(first)),
            None => None,
        }
    } else if rule == 75 {
        // ld a,[~0xff00~+~c~]$
        Some(Instruction::LdhRaMRc)
    } else if rule == 76 {
        // ld [~0xff00~+~c~],a$
        Some(Instruction::LdhMRcRa)
    } else if rule == 77 {
        // ld [~0xff00~+~E~],a$
        match taken.expr {
            Some(expr) => Some(Instruction::LdhMI8Ra(expr)),
            None => None,
        }
    } else if rule == 78 {
        // ld a,[~0xff00~+~E~]$
        match taken.expr {
            Some(expr) => Some(Instruction::LdhRaMI8(expr)),
            None => None,
        }
    } else if rule == 79 {
        // ld hl,sp~+~E$
        match taken.expr {
            Some(expr) => Some(Instruction::LdRhlRspI8(expr)),
            None => None,
        }
    } else if rule == 80 {
        // ld [~E~],a$
        match taken.expr {
            Some(expr) => Some(Instruction::LdMI16Ra(expr)),
            None => None,
        }
    } else if rule == 81 {
        // ld a,[~E~]$
        match taken.expr {
            Some(expr) => Some(Instruction::LdRaMI16(expr)),
            None => None,
        }
    } else if rule == 82 {
        // ld X,E$
        match (taken.pair, taken.expr) {
            (Some(pair), Some(expr)) => Some(Instruction::LdR16I16(pair, expr)),
            _ => None,
        }
    } else if rule == 83 {
        // push P$
        match taken.stack {
            Some(stack) => Some(Instruction::Push(stack)),
            None => None,
        }
    } else if rule == 84 {
        // pop P$
        match taken.stack {
            Some(stack) => Some(Instruction::Pop(stack)),
            None => None,
        }
    } else {
        None
    }
}

/// What the patterns 85 to 107 build: the page behind the 0xCB prefix, and the empty line.
pub open spec fn prefixed(rule: int, taken: Captures) -> Option<Instruction> {
    if rule == 85 {
        // rlc R$
        match taken.first {
            Some(first) => Some(Instruction::RlcR8(first)),
            None => None,
        }
    } else if rule == 86 {
        // rlc [~hl~]$
        Some(Instruction::RlcMRhl)
    } else if rule == 87 {
        // rrc R$
        match taken.first {
            Some(first) => Some(Instruction::RrcR8(first)),
            None => None,
        }
    } else if rule == 88 {
        // rrc [~hl~]$
        Some(Instruction::RrcMRhl)
    } else if rule == 89 {
        // rl R$
        match taken.first {
            Some(first) => Some(Instruction::RlR8(first)),
            None => None,
        }
    } else if rule == 90 {
        // rl [~hl~]$
        Some(Instruction::RlMRhl)
    } else if rule == 91 {
        // rr R$
        match taken.first {
            Some(first) => Some(Instruction::RrR8(first)),
            None => None,
        }
    } else if rule == 92 {
        // rr [~hl~]$
        Some(Instruction::RrMRhl)
    } else if rule == 93 {
        // sla R$
        match taken.first {
            Some(first) => Some(Instruction::SlaR8(first)),
            None => None,
        }
    } else if rule == 94 {
        // sla [~hl~]$
        Some(Instruction::SlaMRhl)
    } else if rule == 95 {
        // sra R$
        match taken.first {
            Some(first) => Some(Instruction::SraR8(first)),
            None => None,
        }
    } else if rule == 96 {
        // sra [~hl~]$
        Some(Instruction::SraMRhl)
    } else if rule == 97 {
        // swap R$
        match taken.first {
            Some(first) => Some(Instruction::SwapR8(first)),
            None => None,
        }
    } else if rule == 98 {
        // swap [~hl~]$
        Some(Instruction::SwapMRhl)
    } else if rule == 99 {
        // srl R$
        match taken.first {
            Some(first) => Some(Instruction::SrlR8(first)),
            None => None,
        }
    } else if rule == 100 {
        // srl [~hl~]$
        Some(Instruction::SrlMRhl)
    } else if rule == 101 {
        // bit E,R$
        match (taken.expr, taken.first) {
            (Some(expr), Some(first)) => Some(Instruction::BitBitR8(expr, first)),
            _ => None,
        }
    } else if rule == 102 {
        // bit E,[~hl~]$
        match taken.expr {
            Some(expr) => Some(Instruction::BitBitMRhl(expr)),
            None => None,
        }
    } else if rule == 103 {
        // res E,R$
        match (taken.expr, taken.first) {
            (Some(expr), Some(first)) => Some(Instruction::ResBitR8(expr, first)),
            _ => None,
        }
    } else if rule == 104 {
        // res E,[~hl~]$
        match taken.expr {
            Some(expr) => Some(Instruction::ResBitMRhl(expr)),
            None => None,
        }
    } else if rule == 105 {
        // set E,R$
        match (taken.expr, taken.first) {
            (Some(expr), Some(first)) => Some(Instruction::SetBitR8(expr, first)),
            _ => None,
        }
    } else if rule == 106 {
        // set E,[~hl~]$
        match taken.expr {
            Some(expr) => Some(Instruction::SetBitMRhl(expr)),
            None => None,
        }
    } else if rule == 107 {
        // $
        Some(Instruction::EmptyLine)
    } else {
        None
    }
}

fn build_prefixed(rule: usize, taken: Captures) -> (result: Option<Instruction>)
    ensures
        match prefixed(rule as int, taken.canonical()) {
            Some(instruction) => result matches Some(built) && built.canonical() == instruction,
            None => result is None,
        },
{
    if rule == 85 {
        // rlc R$
        match taken.first {
            Some(first) => Some(Instruction::RlcR8(first)),
            None => None,
        }
    } else if rule == 86 {
        // rlc [~hl~]$
        Some(Instruction::RlcMRhl)
    } else if rule == 87 {
        // rrc R$
        match taken.first {
            Some(first) => Some(Instruction::RrcR8(first)),
            None => None,
        }
    } else if rule == 88 {
        // rrc [~hl~]$
        Some(Instruction::RrcMRhl)
    } else if rule == 89 {
        // rl R$
        match taken.first {
            Some(first) => Some(Instruction::RlR8(first)),
            None => None,
        }
    } else if rule == 90 {
        // rl [~hl~]$
        Some(Instruction::RlMRhl)
    } else if rule == 91 {
        // rr R$
        match taken.first {
            Some(first) => Some(Instruction::RrR8(first)),
            None => None,
        }
    } else if rule == 92 {
        // rr [~hl~]$
        Some(Instruction::RrMRhl)
    } else if rule == 93 {
        // sla R$
        match taken.first {
            Some(first) => Some(Instruction::SlaR8(first)),
            None => None,
        }
    } else if rule == 94 {
        // sla [~hl~]$
        Some(Instruction::SlaMRhl)
    } else if rule == 95 {
        // sra R$
        match taken.first {
            Some(first) => Some(Instruction::SraR8(first)),
            None => None,
        }
    } else if rule == 96 {
        // sra [~hl~]$
        Some(Instruction::SraMRhl)
    } else if rule == 97 {
        // swap R$
        match taken.first {
            Some(first) => Some(Instruction::SwapR8(first)),
            None => None,
        }
    } else if rule == 98 {
        // swap [~hl~]$
        Some(Instruction::SwapMRhl)
    } else if rule == 99 {
        // srl R$
        match taken.first {
            Some(first) => Some(Instruction::SrlR8(first)),
            None => None,
        }
    } else if rule == 100 {
        // srl [~hl~]$
        Some(Instruction::SrlMRhl)
    } else if rule == 101 {
        // bit E,R$
        match (taken.expr, taken.first) {
            (Some(expr), Some(first)) => Some(Instruction::BitBitR8(expr, first)),
            _ => None,
        }
    } else if rule == 102 {
        // bit E,[~hl~]$
        match taken.expr {
            Some(expr) => Some(Instruction::BitBitMRhl(expr)),
            None => None,
        }
    } else if rule == 103 {
        // res E,R$
        match (taken.expr, taken.first) {
            (Some(expr), Some(first)) => Some(Instruction::ResBitR8(expr, first)),
            _ => None,
        }
    } else if rule == 104 {
        // res E,[~hl~]$
        match taken.expr {
            Some(expr) => Some(Instruction::ResBitMRhl(expr)),
            None => None,
        }
    } else if rule == 105 {
        // set E,R$
        match (taken.expr, taken.first) {
            (Some(expr), Some(first)) => Some(Instruction::SetBitR8(expr, first)),
            _ => None,
        }
    } else if rule == 106 {
        // set E,[~hl~]$
        match taken.expr {
            Some(expr) => Some(Instruction::SetBitMRhl(expr)),
            None => None,
        }
    } else if rule == 107 {
        // $
        Some(Instruction::EmptyLine)
    } else {
        None
    }
}

/// The instruction that a pattern builds from what it has taken.
pub open spec fn build(rule: int, taken: Captures) -> Option<Instruction> {
    if rule < 5 {
        directive(rule, taken)
    } else if rule < 20 {
        plain(rule, taken)
    } else if rule < 28 {
        control(rule, taken)
    } else if rule < 60 {
        arithmetic(rule, taken)
    } else if rule < 85 {
        load(rule, taken)
    } else if rule < 108 {
        prefixed(rule, taken)
    } else {
        None
    }
}

/// Builds the instruction of a pattern.
pub(crate) fn build_instruction(rule: usize, taken: Captures) -> (result: Option<Instruction>)
    ensures
        match build(rule as int, taken.canonical()) {
            Some(instruction) => result matches Some(built) && built.canonical() == instruction,
            None => result is None,
        },
{
    if rule < 5 {
        build_directive(rule, taken)
    } else if rule < 20 {
        build_plain(rule, taken)
    } else if rule < 28 {
        build_control(rule, taken)
    } else if rule < 60 {
        build_arithmetic(rule, taken)
    } else if rule < 85 {
        build_load(rule, taken)
    } else if rule < 108 {
        build_prefixed(rule, taken)
    } else {
        None
    }
}

} // verus!
