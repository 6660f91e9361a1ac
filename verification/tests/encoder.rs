use ggbasm::ast::{
    ArithmeticFault, BinaryOperator, Expr, ExprRunError, Flag, Instruction, Reg16, Reg16Push,
    Reg8, UnaryOperator,
};
use ggbasm::encoder::WriteError;
use ggbasm::SymbolTable;

fn encode_at(instruction: &Instruction, position: usize, symbols: &SymbolTable) -> Vec<u8> {
    let mut rom = vec![0xAA; position];
    instruction.write_to_rom(&mut rom, symbols).unwrap();
    rom.split_off(position)
}

fn encode(instruction: Instruction) -> Vec<u8> {
    encode_at(&instruction, 0, &SymbolTable::new())
}

fn symbols(entries: &[(&str, i64)]) -> SymbolTable {
    let mut table = SymbolTable::new();
    for (name, value) in entries {
        assert_eq!(table.insert(name.to_string(), *value), None);
    }
    table
}

#[test]
fn symbol_table_returns_previous_value() {
    let mut table = SymbolTable::new();
    assert_eq!(table.get("foo"), None);
    assert!(!table.contains("foo"));
    assert_eq!(table.insert("foo".to_string(), 7), None);
    assert_eq!(table.get("foo"), Some(7));
    assert_eq!(table.insert("foo".to_string(), 9), Some(7));
    assert_eq!(table.get("foo"), Some(9));
    let mut other = SymbolTable::new();
    other.insert("foo".to_string(), 11);
    other.insert("bar".to_string(), 13);
    table.absorb(other);
    assert_eq!(table.get("foo"), Some(11));
    assert_eq!(table.get("bar"), Some(13));
}

#[test]
fn bit_3_a_is_cb_5f() {
    assert_eq!(encode(Instruction::BitBitR8(Expr::Const(3), Reg8::A)), vec![0xCB, 0x5F]);
}

#[test]
fn jr_back_edge_at_0x150() {
    // loop: nop
    //       jr loop
    let table = symbols(&[("loop", 0x0150)]);
    let mut rom = vec![0; 0x0150];
    Instruction::Nop.write_to_rom(&mut rom, &table).unwrap();
    Instruction::Jr(Flag::Always, Expr::Ident("loop".to_string()))
        .write_to_rom(&mut rom, &table)
        .unwrap();
    assert_eq!(&rom[0x0150..], &[0x00, 0x18, 0xFD]);
}

#[test]
fn jr_forward_six_bytes() {
    let jr = Instruction::Jr(Flag::Z, Expr::Const(0x206));
    assert_eq!(encode_at(&jr, 0x200, &SymbolTable::new()), vec![0x28, 0x04]);
}

#[test]
fn jr_offsets_lead_back_to_their_targets() {
    for position in [0usize, 1, 0x7F, 0x80, 0x150, 0x3FFE] {
        for offset in [-0x80i64, -3, -1, 0, 1, 0x7F] {
            let target = position as i64 + 2 + offset;
            let jr = Instruction::Jr(Flag::NC, Expr::Const(target));
            let bytes = encode_at(&jr, position, &SymbolTable::new());
            assert_eq!(bytes.len(), 2);
            assert_eq!(bytes[0], 0x30);
            assert_eq!(position as i64 + 2 + (bytes[1] as i8) as i64, target);
        }
    }
}

#[test]
fn jr_out_of_range_names_target_and_position() {
    let mut rom = vec![0; 0x100];
    let too_far = Instruction::Jr(Flag::Always, Expr::Const(0x100 + 2 + 0x80));
    assert_eq!(
        too_far.write_to_rom(&mut rom, &SymbolTable::new()),
        Err(WriteError::JrOutOfRange { target: 0x182, position: 0x100 })
    );
    let too_far_back = Instruction::Jr(Flag::Always, Expr::Const(0x100 + 2 - 0x81));
    assert_eq!(
        too_far_back.write_to_rom(&mut rom, &SymbolTable::new()),
        Err(WriteError::JrOutOfRange { target: 0x81, position: 0x100 })
    );
    let far_below = Instruction::Jr(Flag::Always, Expr::Const(i64::MIN));
    assert_eq!(
        far_below.write_to_rom(&mut rom, &SymbolTable::new()),
        Err(WriteError::JrOutOfRange { target: i64::MIN, position: 0x100 })
    );
    assert_eq!(rom.len(), 0x100);
}

#[test]
fn jr_opcodes_by_flag() {
    let at = |flag| encode(Instruction::Jr(flag, Expr::Const(2)));
    assert_eq!(at(Flag::Always), vec![0x18, 0x00]);
    assert_eq!(at(Flag::Z), vec![0x28, 0x00]);
    assert_eq!(at(Flag::C), vec![0x38, 0x00]);
    assert_eq!(at(Flag::NZ), vec![0x20, 0x00]);
    assert_eq!(at(Flag::NC), vec![0x30, 0x00]);
}

#[test]
fn ret_opcodes_with_ret_c_as_plain_ret() {
    assert_eq!(encode(Instruction::Ret(Flag::Always)), vec![0xC9]);
    assert_eq!(encode(Instruction::Ret(Flag::Z)), vec![0xC8]);
    assert_eq!(encode(Instruction::Ret(Flag::C)), vec![0xC9]);
    assert_eq!(encode(Instruction::Ret(Flag::NZ)), vec![0xC0]);
    assert_eq!(encode(Instruction::Ret(Flag::NC)), vec![0xD0]);
    assert_eq!(encode(Instruction::Reti), vec![0xD9]);
}

#[test]
fn call_and_jp_take_a_little_endian_word() {
    assert_eq!(encode(Instruction::Call(Flag::Always, Expr::Const(0x1234))), vec![0xCD, 0x34, 0x12]);
    assert_eq!(encode(Instruction::Call(Flag::Z, Expr::Const(0x1234))), vec![0xCC, 0x34, 0x12]);
    assert_eq!(encode(Instruction::Call(Flag::C, Expr::Const(0x1234))), vec![0xDC, 0x34, 0x12]);
    assert_eq!(encode(Instruction::Call(Flag::NZ, Expr::Const(0x1234))), vec![0xC4, 0x34, 0x12]);
    assert_eq!(encode(Instruction::Call(Flag::NC, Expr::Const(0x1234))), vec![0xD4, 0x34, 0x12]);
    assert_eq!(encode(Instruction::JpI16(Flag::Always, Expr::Const(0x0150))), vec![0xC3, 0x50, 0x01]);
    assert_eq!(encode(Instruction::JpI16(Flag::Z, Expr::Const(0x0150))), vec![0xCA, 0x50, 0x01]);
    assert_eq!(encode(Instruction::JpI16(Flag::C, Expr::Const(0x0150))), vec![0xDA, 0x50, 0x01]);
    assert_eq!(encode(Instruction::JpI16(Flag::NZ, Expr::Const(0x0150))), vec![0xC2, 0x50, 0x01]);
    assert_eq!(encode(Instruction::JpI16(Flag::NC, Expr::Const(0x0150))), vec![0xD2, 0x50, 0x01]);
    assert_eq!(encode(Instruction::JpRhl), vec![0xE9]);
}

#[test]
fn get_2bytes_is_little_endian() {
    let table = SymbolTable::new();
    assert_eq!(Expr::Const(0x1234).get_2bytes(&table), Ok([0x34, 0x12]));
    assert_eq!(Expr::Const(0x00FF).get_2bytes(&table), Ok([0xFF, 0x00]));
    assert_eq!(Expr::Const(0xFF00).get_2bytes(&table), Ok([0x00, 0xFF]));
    assert_eq!(Expr::Const(0xFFFF).get_2bytes(&table), Ok([0xFF, 0xFF]));
    assert_eq!(
        Expr::Const(0x10000).get_2bytes(&table),
        Err(ExprRunError::ResultDoesntFit(0x10000))
    );
    assert_eq!(Expr::Const(-1).get_2bytes(&table), Err(ExprRunError::ResultDoesntFit(-1)));
}

#[test]
fn get_byte_and_bit_index_narrow() {
    let table = SymbolTable::new();
    assert_eq!(Expr::Const(0).get_byte(&table), Ok(0));
    assert_eq!(Expr::Const(0xFF).get_byte(&table), Ok(0xFF));
    assert_eq!(Expr::Const(0x100).get_byte(&table), Err(ExprRunError::ResultDoesntFit(0x100)));
    assert_eq!(Expr::Const(-1).get_byte(&table), Err(ExprRunError::ResultDoesntFit(-1)));
    assert_eq!(Expr::Const(7).get_bit_index(&table), Ok(7));
    assert_eq!(Expr::Const(8).get_bit_index(&table), Err(ExprRunError::ResultDoesntFit(8)));
    assert_eq!(Expr::Const(-1).get_bit_index(&table), Err(ExprRunError::ResultDoesntFit(-1)));
    assert_eq!(
        Expr::Ident("nothing".to_string()).get_byte(&table),
        Err(ExprRunError::MissingIdentifier("nothing".to_string()))
    );
}

#[test]
fn expressions_evaluate_in_checked_arithmetic() {
    let table = symbols(&[("foo", 10), ("bar", -3)]);
    let foo = || Expr::Ident("foo".to_string());
    let bar = || Expr::Ident("bar".to_string());
    let run = |op, l: Expr, r: Expr| Expr::binary(l, op, r).run(&table);
    assert_eq!(run(BinaryOperator::Add, foo(), bar()), Ok(7));
    assert_eq!(run(BinaryOperator::Sub, foo(), bar()), Ok(13));
    assert_eq!(run(BinaryOperator::Mul, foo(), bar()), Ok(-30));
    assert_eq!(run(BinaryOperator::Div, foo(), bar()), Ok(-3));
    assert_eq!(run(BinaryOperator::Rem, foo(), bar()), Ok(1));
    assert_eq!(run(BinaryOperator::Div, bar(), Expr::Const(2)), Ok(-1));
    assert_eq!(run(BinaryOperator::Rem, bar(), Expr::Const(2)), Ok(-1));
    assert_eq!(run(BinaryOperator::Div, Expr::Const(-7), Expr::Const(-2)), Ok(3));
    assert_eq!(run(BinaryOperator::Rem, Expr::Const(-7), Expr::Const(-2)), Ok(-1));
    assert_eq!(run(BinaryOperator::And, Expr::Const(0b1100), Expr::Const(0b1010)), Ok(0b1000));
    assert_eq!(run(BinaryOperator::Or, Expr::Const(0b1100), Expr::Const(0b1010)), Ok(0b1110));
    assert_eq!(run(BinaryOperator::Xor, Expr::Const(0b1100), Expr::Const(0b1010)), Ok(0b0110));
    assert_eq!(Expr::unary(foo(), UnaryOperator::Minus).run(&table), Ok(-10));
    assert_eq!(Expr::Const(42).run(&table), Ok(42));
}

#[test]
fn expressions_report_each_arithmetic_fault() {
    let table = SymbolTable::new();
    let run = |op, l: i64, r: i64| Expr::binary(Expr::Const(l), op, Expr::Const(r)).run(&table);
    let fault = |f| Err(ExprRunError::ArithmeticError(f));
    assert_eq!(run(BinaryOperator::Add, i64::MAX, 1), fault(ArithmeticFault::AddOverflow));
    assert_eq!(run(BinaryOperator::Sub, i64::MIN, 1), fault(ArithmeticFault::SubUnderflow));
    assert_eq!(run(BinaryOperator::Mul, i64::MAX, 2), fault(ArithmeticFault::MulOverflow));
    assert_eq!(run(BinaryOperator::Div, 1, 0), fault(ArithmeticFault::DivByZero));
    assert_eq!(run(BinaryOperator::Div, i64::MIN, -1), fault(ArithmeticFault::DivOverflow));
    assert_eq!(run(BinaryOperator::Rem, 1, 0), fault(ArithmeticFault::RemByZero));
    assert_eq!(run(BinaryOperator::Rem, i64::MIN, -1), fault(ArithmeticFault::RemOverflow));
    assert_eq!(
        Expr::unary(Expr::Const(i64::MIN), UnaryOperator::Minus).run(&table),
        fault(ArithmeticFault::NegOverflow)
    );
}

#[test]
fn the_left_operand_fails_first() {
    let table = SymbolTable::new();
    let expr = Expr::binary(
        Expr::Ident("left".to_string()),
        BinaryOperator::Add,
        Expr::Ident("right".to_string()),
    );
    assert_eq!(expr.run(&table), Err(ExprRunError::MissingIdentifier("left".to_string())));
}

#[test]
fn expressions_clone_equal() {
    let expr = Expr::binary(
        Expr::unary(Expr::Ident("a".to_string()), UnaryOperator::Minus),
        BinaryOperator::Mul,
        Expr::Const(3),
    );
    assert_eq!(expr.clone(), expr);
    let error = ExprRunError::MissingIdentifier("a".to_string());
    assert_eq!(error.clone(), error);
}

#[test]
fn directives_emit_what_they_hold() {
    let table = symbols(&[("word", 0x0413), ("byte", 0x42)]);
    assert_eq!(encode(Instruction::EmptyLine), Vec::<u8>::new());
    assert_eq!(encode(Instruction::Label("here".to_string())), Vec::<u8>::new());
    assert_eq!(encode(Instruction::Equ("x".to_string(), Expr::Const(1))), Vec::<u8>::new());
    assert_eq!(encode(Instruction::Db(vec![1, 2, 3])), vec![1, 2, 3]);
    assert_eq!(
        encode_at(&Instruction::DbExpr8(Expr::Ident("byte".to_string())), 0, &table),
        vec![0x42]
    );
    assert_eq!(
        encode_at(&Instruction::DbExpr16(Expr::Ident("word".to_string())), 0, &table),
        vec![0x13, 0x04]
    );
}

#[test]
fn advance_address_pads_within_the_bank() {
    let advance = Instruction::AdvanceAddress(0x10);
    assert_eq!(encode_at(&advance, 0x4, &SymbolTable::new()), vec![0; 0xC]);
    assert_eq!(encode_at(&advance, 0x4000 + 0x10, &SymbolTable::new()), Vec::<u8>::new());
    assert_eq!(encode_at(&advance, 0x8000 + 0xF, &SymbolTable::new()), vec![0]);
    let mut rom = vec![0; 0x4011];
    assert_eq!(
        advance.write_to_rom(&mut rom, &SymbolTable::new()),
        Err(WriteError::BackwardAdvance { address: 0x10, in_bank: 0x11 })
    );
    assert_eq!(rom.len(), 0x4011);
}

#[test]
fn a_failing_operand_leaves_the_rom_as_it_was() {
    let mut rom = vec![1, 2, 3];
    let result = Instruction::LdR8I8(Reg8::B, Expr::Ident("missing".to_string()))
        .write_to_rom(&mut rom, &SymbolTable::new());
    assert_eq!(
        result,
        Err(WriteError::Expr(ExprRunError::MissingIdentifier("missing".to_string())))
    );
    assert_eq!(rom, vec![1, 2, 3]);
    let result = Instruction::Call(Flag::Always, Expr::Const(0x10000))
        .write_to_rom(&mut rom, &SymbolTable::new());
    assert_eq!(result, Err(WriteError::Expr(ExprRunError::ResultDoesntFit(0x10000))));
    let result = Instruction::SetBitMRhl(Expr::Const(8)).write_to_rom(&mut rom, &SymbolTable::new());
    assert_eq!(result, Err(WriteError::Expr(ExprRunError::ResultDoesntFit(8))));
    assert_eq!(rom, vec![1, 2, 3]);
}

#[test]
fn plain_opcodes() {
    assert_eq!(encode(Instruction::Nop), vec![0x00]);
    assert_eq!(encode(Instruction::Stop), vec![0x10]);
    assert_eq!(encode(Instruction::Halt), vec![0x76, 0x00]);
    assert_eq!(encode(Instruction::Di), vec![0xF3]);
    assert_eq!(encode(Instruction::Ei), vec![0xFB]);
    assert_eq!(encode(Instruction::Rrca), vec![0x0F]);
    assert_eq!(encode(Instruction::Rra), vec![0x1F]);
    assert_eq!(encode(Instruction::Cpl), vec![0x2F]);
    assert_eq!(encode(Instruction::Ccf), vec![0x3F]);
    assert_eq!(encode(Instruction::Rlca), vec![0x07]);
    assert_eq!(encode(Instruction::Rla), vec![0x17]);
    assert_eq!(encode(Instruction::Daa), vec![0x27]);
    assert_eq!(encode(Instruction::Scf), vec![0x37]);
}

const REG8: [(Reg8, u8); 7] = [
    (Reg8::B, 0),
    (Reg8::C, 1),
    (Reg8::D, 2),
    (Reg8::E, 3),
    (Reg8::H, 4),
    (Reg8::L, 5),
    (Reg8::A, 7),
];

#[test]
fn reg8_to_bits_numbers_the_registers() {
    for (reg, slot) in REG8 {
        assert_eq!(Instruction::reg8_to_bits(&reg), slot);
    }
}

#[test]
fn increments_and_decrements() {
    for (reg, slot) in REG8 {
        assert_eq!(encode(Instruction::IncR8(reg)), vec![0x04 + 8 * slot]);
        assert_eq!(encode(Instruction::DecR8(reg)), vec![0x05 + 8 * slot]);
    }
    assert_eq!(encode(Instruction::IncR8(Reg8::A)), vec![0x3C]);
    assert_eq!(encode(Instruction::DecR8(Reg8::L)), vec![0x2D]);
    assert_eq!(encode(Instruction::IncMRhl), vec![0x34]);
    assert_eq!(encode(Instruction::DecMRhl), vec![0x35]);
    let pairs = [(Reg16::BC, 0u8), (Reg16::DE, 1), (Reg16::HL, 2), (Reg16::SP, 3)];
    for (reg, slot) in pairs {
        assert_eq!(encode(Instruction::IncR16(reg)), vec![0x03 + 0x10 * slot]);
        assert_eq!(encode(Instruction::DecR16(reg)), vec![0x0B + 0x10 * slot]);
        assert_eq!(encode(Instruction::AddRhlR16(reg)), vec![0x09 + 0x10 * slot]);
        assert_eq!(
            encode(Instruction::LdR16I16(reg, Expr::Const(0x0413))),
            vec![0x01 + 0x10 * slot, 0x13, 0x04]
        );
    }
}

#[test]
fn arithmetic_on_registers_memory_and_immediates() {
    for (reg, slot) in REG8 {
        assert_eq!(encode(Instruction::AddR8(reg)), vec![0x80 + slot]);
        assert_eq!(encode(Instruction::AdcR8(reg)), vec![0x88 + slot]);
        assert_eq!(encode(Instruction::SubR8(reg)), vec![0x90 + slot]);
        assert_eq!(encode(Instruction::SbcR8(reg)), vec![0x98 + slot]);
        assert_eq!(encode(Instruction::AndR8(reg)), vec![0xA0 + slot]);
        assert_eq!(encode(Instruction::XorR8(reg)), vec![0xA8 + slot]);
        assert_eq!(encode(Instruction::OrR8(reg)), vec![0xB0 + slot]);
        assert_eq!(encode(Instruction::CpR8(reg)), vec![0xB8 + slot]);
    }
    assert_eq!(encode(Instruction::AddMRhl), vec![0x86]);
    assert_eq!(encode(Instruction::AdcMRhl), vec![0x8E]);
    assert_eq!(encode(Instruction::SubMRhl), vec![0x96]);
    assert_eq!(encode(Instruction::SbcMRhl), vec![0x9E]);
    assert_eq!(encode(Instruction::AndMRhl), vec![0xA6]);
    assert_eq!(encode(Instruction::XorMRhl), vec![0xAE]);
    assert_eq!(encode(Instruction::OrMRhl), vec![0xB6]);
    assert_eq!(encode(Instruction::CpMRhl), vec![0xBE]);
    assert_eq!(encode(Instruction::AddI8(Expr::Const(0x12))), vec![0xC6, 0x12]);
    assert_eq!(encode(Instruction::AdcI8(Expr::Const(0x12))), vec![0xCE, 0x12]);
    assert_eq!(encode(Instruction::SubI8(Expr::Const(0x12))), vec![0xD6, 0x12]);
    assert_eq!(encode(Instruction::SbcI8(Expr::Const(0x12))), vec![0xDE, 0x12]);
    assert_eq!(encode(Instruction::AndI8(Expr::Const(0x12))), vec![0xE6, 0x12]);
    assert_eq!(encode(Instruction::XorI8(Expr::Const(0x12))), vec![0xEE, 0x12]);
    assert_eq!(encode(Instruction::OrI8(Expr::Const(0x12))), vec![0xF6, 0x12]);
    assert_eq!(encode(Instruction::CpI8(Expr::Const(0x12))), vec![0xFE, 0x12]);
    assert_eq!(encode(Instruction::AddRspI8(Expr::Const(2))), vec![0xE8, 0x02]);
}

#[test]
fn loads() {
    for (to, to_slot) in REG8 {
        for (from, from_slot) in REG8 {
            assert_eq!(
                encode(Instruction::LdR8R8(to, from)),
                vec![0x40 + 8 * to_slot + from_slot]
            );
        }
        assert_eq!(encode(Instruction::LdR8I8(to, Expr::Const(0x99))), vec![0x06 + 8 * to_slot, 0x99]);
        assert_eq!(encode(Instruction::LdR8MRhl(to)), vec![0x46 + 8 * to_slot]);
        assert_eq!(encode(Instruction::LdMRhlR8(to)), vec![0x70 + to_slot]);
    }
    assert_eq!(encode(Instruction::LdR8R8(Reg8::A, Reg8::B)), vec![0x78]);
    assert_eq!(encode(Instruction::LdR8MRhl(Reg8::A)), vec![0x7E]);
    assert_eq!(encode(Instruction::LdMRhlR8(Reg8::A)), vec![0x77]);
    assert_eq!(encode(Instruction::LdMRhlI8(Expr::Const(42))), vec![0x36, 42]);
    assert_eq!(encode(Instruction::LdMI16Rsp(Expr::Const(0x3535))), vec![0x08, 0x35, 0x35]);
    assert_eq!(encode(Instruction::LdMRbcRa), vec![0x02]);
    assert_eq!(encode(Instruction::LdMRdeRa), vec![0x12]);
    assert_eq!(encode(Instruction::LdRaMRbc), vec![0x0A]);
    assert_eq!(encode(Instruction::LdRaMRde), vec![0x1A]);
    assert_eq!(encode(Instruction::LdMI16Ra(Expr::Const(0xC020))), vec![0xEA, 0x20, 0xC0]);
    assert_eq!(encode(Instruction::LdRaMI16(Expr::Const(0xC020))), vec![0xFA, 0x20, 0xC0]);
    assert_eq!(encode(Instruction::LdhRaMI8(Expr::Const(0x44))), vec![0xF0, 0x44]);
    assert_eq!(encode(Instruction::LdhMI8Ra(Expr::Const(0x44))), vec![0xE0, 0x44]);
    assert_eq!(encode(Instruction::LdhRaMRc), vec![0xF2]);
    assert_eq!(encode(Instruction::LdhMRcRa), vec![0xE2]);
    assert_eq!(encode(Instruction::LdiMRhlRa), vec![0x22]);
    assert_eq!(encode(Instruction::LddMRhlRa), vec![0x32]);
    assert_eq!(encode(Instruction::LdiRaMRhl), vec![0x2A]);
    assert_eq!(encode(Instruction::LddRaMRhl), vec![0x3A]);
    assert_eq!(encode(Instruction::LdRhlRspI8(Expr::Const(13))), vec![0xF8, 13]);
    assert_eq!(encode(Instruction::LdRspRhl), vec![0xF9]);
}

#[test]
fn push_and_pop() {
    let pairs = [
        (Reg16Push::BC, 0u8),
        (Reg16Push::DE, 1),
        (Reg16Push::HL, 2),
        (Reg16Push::AF, 3),
    ];
    for (reg, slot) in pairs {
        assert_eq!(encode(Instruction::Push(reg)), vec![0xC5 + 0x10 * slot]);
        assert_eq!(encode(Instruction::Pop(reg)), vec![0xC1 + 0x10 * slot]);
    }
}

#[test]
fn shifts_and_rotations_behind_the_prefix() {
    for (reg, slot) in REG8 {
        assert_eq!(encode(Instruction::RlcR8(reg)), vec![0xCB, 0x00 + slot]);
        assert_eq!(encode(Instruction::RrcR8(reg)), vec![0xCB, 0x08 + slot]);
        assert_eq!(encode(Instruction::RlR8(reg)), vec![0xCB, 0x10 + slot]);
        assert_eq!(encode(Instruction::RrR8(reg)), vec![0xCB, 0x18 + slot]);
        assert_eq!(encode(Instruction::SlaR8(reg)), vec![0xCB, 0x20 + slot]);
        assert_eq!(encode(Instruction::SraR8(reg)), vec![0xCB, 0x28 + slot]);
        assert_eq!(encode(Instruction::SwapR8(reg)), vec![0xCB, 0x30 + slot]);
        assert_eq!(encode(Instruction::SrlR8(reg)), vec![0xCB, 0x38 + slot]);
    }
    assert_eq!(encode(Instruction::RlcMRhl), vec![0xCB, 0x06]);
    assert_eq!(encode(Instruction::RrcMRhl), vec![0xCB, 0x0E]);
    assert_eq!(encode(Instruction::RlMRhl), vec![0xCB, 0x16]);
    assert_eq!(encode(Instruction::RrMRhl), vec![0xCB, 0x1E]);
    assert_eq!(encode(Instruction::SlaMRhl), vec![0xCB, 0x26]);
    assert_eq!(encode(Instruction::SraMRhl), vec![0xCB, 0x2E]);
    assert_eq!(encode(Instruction::SwapMRhl), vec![0xCB, 0x36]);
    assert_eq!(encode(Instruction::SrlMRhl), vec![0xCB, 0x3E]);
}

#[test]
fn bit_operations() {
    for bit in 0..8u8 {
        for (reg, slot) in REG8 {
            let index = || Expr::Const(bit as i64);
            assert_eq!(encode(Instruction::BitBitR8(index(), reg)), vec![0xCB, 0x40 + 8 * bit + slot]);
            assert_eq!(encode(Instruction::ResBitR8(index(), reg)), vec![0xCB, 0x80 + 8 * bit + slot]);
            assert_eq!(encode(Instruction::SetBitR8(index(), reg)), vec![0xCB, 0xC0 + 8 * bit + slot]);
        }
        let index = || Expr::Const(bit as i64);
        assert_eq!(encode(Instruction::BitBitMRhl(index())), vec![0xCB, 0x46 + 8 * bit]);
        assert_eq!(encode(Instruction::ResBitMRhl(index())), vec![0xCB, 0x86 + 8 * bit]);
        assert_eq!(encode(Instruction::SetBitMRhl(index())), vec![0xCB, 0xC6 + 8 * bit]);
    }
}

fn samples() -> Vec<Instruction> {
    let e = || Expr::Const(1);
    vec![
        Instruction::EmptyLine,
        Instruction::Equ("a".to_string(), e()),
        Instruction::Label("l".to_string()),
        Instruction::Db(vec![]),
        Instruction::Db(vec![1, 2, 3, 4, 5]),
        Instruction::DbExpr8(e()),
        Instruction::DbExpr16(e()),
        Instruction::Nop,
        Instruction::Stop,
        Instruction::Halt,
        Instruction::Di,
        Instruction::Ei,
        Instruction::Rrca,
        Instruction::Rra,
        Instruction::Cpl,
        Instruction::Ccf,
        Instruction::Rlca,
        Instruction::Rla,
        Instruction::Daa,
        Instruction::Scf,
        Instruction::Ret(Flag::NZ),
        Instruction::Reti,
        Instruction::Call(Flag::Z, e()),
        Instruction::JpI16(Flag::C, e()),
        Instruction::JpRhl,
        Instruction::Jr(Flag::Always, Expr::Const(0x4010)),
        Instruction::IncR16(Reg16::SP),
        Instruction::IncR8(Reg8::H),
        Instruction::IncMRhl,
        Instruction::DecR16(Reg16::BC),
        Instruction::DecR8(Reg8::E),
        Instruction::DecMRhl,
        Instruction::AddR8(Reg8::A),
        Instruction::AddMRhl,
        Instruction::AddI8(e()),
        Instruction::AddRhlR16(Reg16::DE),
        Instruction::AddRspI8(e()),
        Instruction::SubR8(Reg8::B),
        Instruction::SubMRhl,
        Instruction::SubI8(e()),
        Instruction::AndR8(Reg8::C),
        Instruction::AndMRhl,
        Instruction::AndI8(e()),
        Instruction::OrR8(Reg8::D),
        Instruction::OrMRhl,
        Instruction::OrI8(e()),
        Instruction::AdcR8(Reg8::E),
        Instruction::AdcMRhl,
        Instruction::AdcI8(e()),
        Instruction::SbcR8(Reg8::H),
        Instruction::SbcMRhl,
        Instruction::SbcI8(e()),
        Instruction::XorR8(Reg8::L),
        Instruction::XorMRhl,
        Instruction::XorI8(e()),
        Instruction::CpR8(Reg8::A),
        Instruction::CpMRhl,
        Instruction::CpI8(e()),
        Instruction::LdR16I16(Reg16::HL, e()),
        Instruction::LdMI16Rsp(e()),
        Instruction::LdMRbcRa,
        Instruction::LdMRdeRa,
        Instruction::LdRaMRbc,
        Instruction::LdRaMRde,
        Instruction::LdR8R8(Reg8::A, Reg8::B),
        Instruction::LdR8I8(Reg8::C, e()),
        Instruction::LdR8MRhl(Reg8::D),
        Instruction::LdMRhlR8(Reg8::E),
        Instruction::LdMRhlI8(e()),
        Instruction::LdMI16Ra(e()),
        Instruction::LdRaMI16(e()),
        Instruction::LdhRaMI8(e()),
        Instruction::LdhMI8Ra(e()),
        Instruction::LdhRaMRc,
        Instruction::LdhMRcRa,
        Instruction::LdiMRhlRa,
        Instruction::LddMRhlRa,
        Instruction::LdiRaMRhl,
        Instruction::LddRaMRhl,
        Instruction::LdRhlRspI8(e()),
        Instruction::LdRspRhl,
        Instruction::Push(Reg16Push::AF),
        Instruction::Pop(Reg16Push::HL),
        Instruction::RlcR8(Reg8::A),
        Instruction::RlcMRhl,
        Instruction::RrcR8(Reg8::B),
        Instruction::RrcMRhl,
        Instruction::RlR8(Reg8::C),
        Instruction::RlMRhl,
        Instruction::RrR8(Reg8::D),
        Instruction::RrMRhl,
        Instruction::SlaR8(Reg8::E),
        Instruction::SlaMRhl,
        Instruction::SraR8(Reg8::H),
        Instruction::SraMRhl,
        Instruction::SwapR8(Reg8::L),
        Instruction::SwapMRhl,
        Instruction::SrlR8(Reg8::A),
        Instruction::SrlMRhl,
        Instruction::BitBitR8(e(), Reg8::A),
        Instruction::BitBitMRhl(e()),
        Instruction::ResBitR8(e(), Reg8::B),
        Instruction::ResBitMRhl(e()),
        Instruction::SetBitR8(e(), Reg8::C),
        Instruction::SetBitMRhl(e()),
    ]
}

#[test]
fn the_length_is_the_number_of_bytes_written() {
    let position = 0x4000 + 0x20;
    for instruction in samples() {
        let bytes = encode_at(&instruction, position, &SymbolTable::new());
        assert_eq!(instruction.len(0x20) as usize, bytes.len(), "{:?}", instruction);
        assert_eq!(instruction.checked_len(0x20), Some(bytes.len() as u16));
    }
    let advance = Instruction::AdvanceAddress(0x25);
    assert_eq!(advance.len(0x20), 5);
    assert_eq!(encode_at(&advance, position, &SymbolTable::new()).len(), 5);
}

#[test]
fn checked_len_knows_what_has_no_length() {
    assert_eq!(Instruction::AdvanceAddress(0x20).checked_len(0x21), None);
    assert_eq!(Instruction::AdvanceAddress(0x20).checked_len(0x20), Some(0));
    assert_eq!(Instruction::AdvanceAddress(0xFFFF).checked_len(0), Some(0xFFFF));
    assert_eq!(Instruction::Db(vec![0; 0xFFFF]).checked_len(0), Some(0xFFFF));
    assert_eq!(Instruction::Db(vec![0; 0x10000]).checked_len(0), None);
}
