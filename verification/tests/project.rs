use ggbasm::ast::{Expr, Instruction};
use ggbasm::rom_builder::{label_names, BuildError};
use ggbasm::sgbasm_lib::{source_to_rom, SourceFile};
use ggbasm::RomBuilder;

#[test]
fn a_project_needs_a_main_file_of_assembly() {
    assert_eq!(source_to_rom(None), Err(BuildError::NoMainFile));
    assert_eq!(
        source_to_rom(Some(&SourceFile::Binary(vec![1, 2, 3]))),
        Err(BuildError::NoMainFile)
    );
}

#[test]
fn the_rom_of_a_project() {
    let rom = source_to_rom(Some(&SourceFile::Asm(String::from("nop")))).unwrap();
    assert_eq!(rom.len(), 0x8000);
    assert!(rom[..0x101].iter().all(|b| *b == 0));
    assert_eq!(&rom[0x101..0x104], &[0xC3, 0x00, 0x00]);
    assert_eq!(&rom[0x104..0x108], &[0xCE, 0xED, 0x66, 0x66]);
    assert_eq!(&rom[0x130..0x134], &[0xBB, 0xB9, 0x33, 0x3E]);
    assert_eq!(&rom[0x134..0x13D], b"Heartache");
    assert!(rom[0x13D..].iter().all(|b| *b == 0));
}

#[test]
fn the_builder_tells_what_is_bound() {
    let builder = RomBuilder::new()
        .advance_address(2, 0x10)
        .unwrap()
        .add_bytes(vec![1, 2], "Data")
        .unwrap()
        .add_instructions(vec![
            Instruction::Nop,
            Instruction::Label("here".to_string()),
            Instruction::Equ("later".to_string(), Expr::Const(5)),
        ])
        .unwrap();
    assert_eq!(builder.get_constant("Data"), Some(0x8010));
    assert_eq!(builder.get_constant("here"), Some(0x8013));
    // the constants of `equ` are bound when the ROM is compiled
    assert_eq!(builder.get_constant("later"), None);
    assert_eq!(builder.get_constant("nothing"), None);
}

#[test]
fn the_labels_among_instructions() {
    let instructions = vec![
        Instruction::Label("a".to_string()),
        Instruction::Nop,
        Instruction::Equ("not_a_label".to_string(), Expr::Const(1)),
        Instruction::Label("b".to_string()),
        Instruction::Label("a".to_string()),
    ];
    assert_eq!(label_names(&instructions), vec!["a", "b", "a"]);
    assert_eq!(label_names(&vec![]), Vec::<String>::new());
}
