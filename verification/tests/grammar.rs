use ggbasm::ast::{BinaryOperator, Expr, Flag, Instruction, Reg16, Reg8, UnaryOperator};
use ggbasm::parser::{instructions_of, parse_asm};

fn parse(text: &str) -> Vec<Option<Instruction>> {
    parse_asm(text).unwrap()
}

fn one(line: &str) -> Option<Instruction> {
    let mut parsed = parse(line);
    assert_eq!(parsed.len(), 1, "{:?}", line);
    parsed.pop().unwrap()
}

fn ident(name: &str) -> Expr {
    Expr::Ident(name.to_string())
}

fn jp(expr: Expr) -> Option<Instruction> {
    Some(Instruction::JpI16(Flag::Always, expr))
}

#[test]
fn operators_of_one_level_associate_to_the_left() {
    assert_eq!(
        one("jp a - b - c"),
        jp(Expr::binary(
            Expr::binary(ident("a"), BinaryOperator::Sub, ident("b")),
            BinaryOperator::Sub,
            ident("c")
        ))
    );
    assert_eq!(
        one("jp a * b / c % d"),
        jp(Expr::binary(
            Expr::binary(
                Expr::binary(ident("a"), BinaryOperator::Mul, ident("b")),
                BinaryOperator::Div,
                ident("c")
            ),
            BinaryOperator::Rem,
            ident("d")
        ))
    );
    assert_eq!(
        one("jp 1 - 2 + 3"),
        jp(Expr::binary(
            Expr::binary(Expr::Const(1), BinaryOperator::Sub, Expr::Const(2)),
            BinaryOperator::Add,
            Expr::Const(3)
        ))
    );
}

#[test]
fn precedence_from_or_down_to_unary_minus() {
    // a | b ^ c & d + e * -f
    let product = Expr::binary(
        ident("e"),
        BinaryOperator::Mul,
        Expr::unary(ident("f"), UnaryOperator::Minus),
    );
    let sum = Expr::binary(ident("d"), BinaryOperator::Add, product);
    let and = Expr::binary(ident("c"), BinaryOperator::And, sum);
    let xor = Expr::binary(ident("b"), BinaryOperator::Xor, and);
    let or = Expr::binary(ident("a"), BinaryOperator::Or, xor);
    assert_eq!(one("jp a | b ^ c & d + e * -f"), jp(or));
    assert_eq!(
        one("jp a*b|c"),
        jp(Expr::binary(
            Expr::binary(ident("a"), BinaryOperator::Mul, ident("b")),
            BinaryOperator::Or,
            ident("c")
        ))
    );
}

#[test]
fn unary_minus_and_parentheses() {
    assert_eq!(one("jp -5"), jp(Expr::unary(Expr::Const(5), UnaryOperator::Minus)));
    assert_eq!(
        one("jp --5"),
        jp(Expr::unary(Expr::unary(Expr::Const(5), UnaryOperator::Minus), UnaryOperator::Minus))
    );
    assert_eq!(one("jp ((7))"), jp(Expr::Const(7)));
    assert_eq!(
        one("jp -(a+1)"),
        jp(Expr::unary(
            Expr::binary(ident("a"), BinaryOperator::Add, Expr::Const(1)),
            UnaryOperator::Minus
        ))
    );
    // spaces may stand around binary operators only
    assert_eq!(one("jp - 5"), None);
    assert_eq!(one("jp ( 7 )"), None);
    assert_eq!(one("jp (7"), None);
    assert_eq!(one("jp 7)"), None);
}

#[test]
fn an_operator_without_operand_spoils_the_line() {
    assert_eq!(one("jp foo +"), None);
    assert_eq!(one("jp foo+"), None);
    assert_eq!(one("xor 1 *"), None);
    assert_eq!(one("jp foo bar"), None);
}

#[test]
fn numbers_and_their_limits() {
    assert_eq!(one("jp 0x7FFFFFFFFFFFFFFF"), jp(Expr::Const(i64::MAX)));
    assert_eq!(one("jp 9223372036854775807"), jp(Expr::Const(i64::MAX)));
    assert_eq!(one("jp 00000000000000000042"), jp(Expr::Const(42)));
    assert_eq!(one("jp 0xabCDef"), jp(Expr::Const(0xABCDEF)));
    // a number that does not fit is read as an identifier
    assert_eq!(one("jp 9223372036854775808"), jp(ident("9223372036854775808")));
    // behind a decimal 0 nothing but an operator may follow
    assert_eq!(one("jp 0xFFFFFFFFFFFFFFFF"), None);
    assert_eq!(one("jp 0x"), None);
    assert_eq!(one("jp 0xG"), None);
    assert_eq!(one("jp 0X10"), None);
    assert_eq!(one("jp 12ab"), None);
}

#[test]
fn bytes_and_words_have_their_ranges() {
    assert_eq!(one("db 255"), Some(Instruction::Db(vec![255])));
    assert_eq!(one("db 256"), None);
    assert_eq!(one("db 999"), None);
    assert_eq!(one("db 0xFF"), Some(Instruction::Db(vec![0xFF])));
    assert_eq!(one("db 0x100"), None);
    assert_eq!(one("db 0001"), None);
    assert_eq!(one("db -1"), None);
    assert_eq!(one("dw 65535"), Some(Instruction::Db(vec![0xFF, 0xFF])));
    assert_eq!(one("dw 65536"), None);
    assert_eq!(one("dw 0x1234"), Some(Instruction::Db(vec![0x34, 0x12])));
    assert_eq!(one("dw 0x12345"), None);
    assert_eq!(one("dw 1, 2"), None);
    assert_eq!(one("advance_address 65536"), None);
    assert_eq!(one("ADVANCE_ADDRESS 0x150"), Some(Instruction::AdvanceAddress(0x150)));
}

#[test]
fn strings_are_taken_byte_by_byte() {
    assert_eq!(one("db \"a;b\" ; comment"), Some(Instruction::Db(vec![b'a', b';', b'b'])));
    assert_eq!(one("db \"\u{e4}\""), Some(Instruction::Db(vec![0xC3, 0xA4])));
    assert_eq!(one("db \"a\" , \"b\",1"), Some(Instruction::Db(vec![b'a', b'b', 1])));
    assert_eq!(one("db \"\""), None);
    assert_eq!(one("db \"open"), None);
    assert_eq!(one("db \"a\"b"), None);
    assert_eq!(one("db 1,"), None);
    assert_eq!(one("db ,1"), None);
    assert_eq!(one("db"), None);
}

#[test]
fn mnemonics_and_registers_in_any_case() {
    assert_eq!(one("LD A, B"), Some(Instruction::LdR8R8(Reg8::A, Reg8::B)));
    assert_eq!(one("Ld [HL], a"), Some(Instruction::LdMRhlR8(Reg8::A)));
    assert_eq!(one("ADD Hl, Sp"), Some(Instruction::AddRhlR16(Reg16::SP)));
    assert_eq!(one("RET nz"), Some(Instruction::Ret(Flag::NZ)));
    assert_eq!(one("ld a, [0xff00 + C]"), Some(Instruction::LdhRaMRc));
    assert_eq!(one("ld a, [0XFF00+c]"), Some(Instruction::LdhRaMRc));
    assert_eq!(one("Foo: ; label"), Some(Instruction::Label("Foo".to_string())));
    assert_eq!(one("foo EqU Foo"), Some(Instruction::Equ("foo".to_string(), ident("Foo"))));
}

#[test]
fn the_first_pattern_that_fits_decides() {
    // a mnemonic before a colon is a label, before `equ` a constant
    assert_eq!(one("nop:"), Some(Instruction::Label("nop".to_string())));
    assert_eq!(one("ld equ 5"), Some(Instruction::Equ("ld".to_string(), Expr::Const(5))));
    // a register name is a register where one fits, else an identifier
    assert_eq!(one("call c, 5"), Some(Instruction::Call(Flag::C, Expr::Const(5))));
    assert_eq!(one("call count"), Some(Instruction::Call(Flag::Always, ident("count"))));
    assert_eq!(one("jp hl"), Some(Instruction::JpRhl));
    assert_eq!(one("jp hlx"), jp(ident("hlx")));
    assert_eq!(one("jr nz"), Some(Instruction::Jr(Flag::Always, ident("nz"))));
    assert_eq!(one("add a"), Some(Instruction::AddR8(Reg8::A)));
    assert_eq!(one("add a, a"), Some(Instruction::AddR8(Reg8::A)));
    assert_eq!(one("add bar"), Some(Instruction::AddI8(ident("bar"))));
    assert_eq!(one("add a, bar"), Some(Instruction::AddI8(ident("bar"))));
    assert_eq!(one("ld b, bar"), Some(Instruction::LdR8I8(Reg8::B, ident("bar"))));
    assert_eq!(one("ld a, [0xFF00 + count]"), Some(Instruction::LdhRaMI8(ident("count"))));
    assert_eq!(
        one("ld a, [0xFF01 + c]"),
        Some(Instruction::LdRaMI16(Expr::binary(
            Expr::Const(0xFF01),
            BinaryOperator::Add,
            ident("c")
        )))
    );
    assert_eq!(one("inc h"), Some(Instruction::IncR8(Reg8::H)));
    assert_eq!(one("inc hl"), Some(Instruction::IncR16(Reg16::HL)));
    assert_eq!(one("inc hlx"), None);
    assert_eq!(one("inc [ hl ]"), Some(Instruction::IncMRhl));
    assert_eq!(one("ld [bc], a"), Some(Instruction::LdMRbcRa));
    assert_eq!(one("ld [ bc ], a"), Some(Instruction::LdMI16Ra(ident("bc"))));
}

#[test]
fn lines_end_in_a_line_feed_with_or_without_carriage_return() {
    assert_eq!(
        parse("nop\r\nhalt ; comment\r\n\r\nstop"),
        vec![
            Some(Instruction::Nop),
            Some(Instruction::Halt),
            Some(Instruction::EmptyLine),
            Some(Instruction::Stop),
        ]
    );
    assert_eq!(parse("\tnop\t;\ttabs\n"), vec![Some(Instruction::Nop)]);
    // a carriage return that no line feed follows ends nothing: the list stops there
    assert_eq!(parse("nop\nhalt\rstop\nnop\n"), vec![Some(Instruction::Nop)]);
    assert_eq!(parse("nop\r"), vec![Some(Instruction::Nop)]);
    assert_eq!(parse("nop\r\r\n"), vec![]);
}

#[test]
fn text_beyond_ascii_is_passed_over() {
    assert_eq!(
        parse("nop ; \u{2603} a snowman\n\u{2603}\nl\u{e4}bel:\nlabel\u{e4}:\nstop"),
        vec![
            Some(Instruction::Nop),
            None,
            None,
            None,
            Some(Instruction::Stop),
        ]
    );
    assert_eq!(one("jp foo\u{e4}"), None);
}

#[test]
fn instructions_of_wants_every_line() {
    assert_eq!(
        instructions_of(parse("nop\n\nhalt\n")),
        Ok(vec![Instruction::Nop, Instruction::EmptyLine, Instruction::Halt])
    );
    assert_eq!(instructions_of(parse("nop\nwhat\nhalt\nwho\n")), Err(1));
    assert_eq!(instructions_of(vec![]), Ok(vec![]));
}
