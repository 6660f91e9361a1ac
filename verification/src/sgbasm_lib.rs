//! The sources of a project as the command line tool finds them, and
//! the ROM that it makes of them.

use crate::assembly::resize;
use crate::header::{extend, logo, push_zeroes};
use crate::rom_builder::BuildError;
use vstd::prelude::*;
use vstd::string::StringSliceAdditionalSpecFns;

verus! {

/// A source file of a project: assembly text, or bytes that are taken as
/// they are.
#[derive(Clone, PartialEq, Debug)]
pub enum SourceFile {
    Asm(String),
    Binary(Vec<u8>),
}

/// The ROM of a project: 32 KiB that hold, behind 0x0100 zero bytes, a
/// `nop` and a jump to the address 0, the logo at 0x0104 and the title
/// "Heartache" at 0x0134.
pub open spec fn project_rom() -> Seq<u8> {
    crate::assembly::resized(
        Seq::new(0x0100, |i: int| 0u8) + seq![0x00u8, 0xC3u8, 0x00u8, 0x00u8] + logo()
            + "Heartache".spec_bytes() + seq![0x00u8],
        0x8000,
    )
}

/// Makes the ROM of a project, whose main file must be assembly text.
/// `main` is the source file with the name `main`, if there is one.
pub fn source_to_rom(main: Option<&SourceFile>) -> (result: Result<Vec<u8>, BuildError>)
    ensures
        match main {
            Some(SourceFile::Asm(_)) => result matches Ok(rom) && rom@ == project_rom(),
            _ => result matches Err(error) && error == BuildError::NoMainFile,
        },
{
    if let Some(SourceFile::Asm(_)) = main {
        let name = "Heartache";

        let mut rom: Vec<u8> = Vec::new();
        push_zeroes(&mut rom, 256);
        rom.push(0x0);

        // jump to 0x0 because why not
        rom.push(0xc3);
        rom.push(0x00);
        rom.push(0x00);

        crate::header::push_logo(&mut rom);

        extend(&mut rom, name.as_bytes());
        rom.push(0x00);

        // fill up 32 KB remaining
        resize(&mut rom, 0x8000);
        Ok(rom)
    } else {
        Err(BuildError::NoMainFile)
    }
}

} // verus!
