//! A two-pass assembler and ROM builder for the Game Boy.
//!
//! [`RomBuilder`] collects assembly, graphics, audio, raw bytes and the
//! cartridge header, binds every label to its address, resolves the
//! constants of `equ`, and emits the padded ROM image:
//!
//! ```text
//! let rom = RomBuilder::new()
//!     // a ROM starts with the interrupts and jumps and with the header
//!     .add_basic_interrupts_and_jumps()?
//!     .add_header(header)?
//!     // code follows behind the header, at 0x0150
//!     .add_asm(main_asm, DataSource::AsmFile(String::from("main.asm")))?
//!     // the way into another bank is to advance the address
//!     .advance_address(1, 0)?
//!     .add_image(&tiles, "Tileset", &color_map)?
//!     .compile()?;
//! ```
//!
//! The [`parser`] and [`ast`] modules can be used on their own: the
//! parser turns source text into instructions, and every instruction
//! knows its length and its exact encoding. What holds of every ROM that
//! a builder assembles is stated and proved in [`laws`]; that the ROM
//! does not depend on the order of the `equ`s, in [`equ_order`].
//!
//! Every function of the library is verified against its contract. The
//! one thing that is taken on trust is the order in which `byteorder`
//! writes the two bytes of a word.

pub mod assembly;
pub mod ast;
pub mod audio;
pub mod constants;
pub mod encoder;
pub mod equ_order;
pub mod grammar;
pub mod header;
pub mod laws;
pub mod lexer;
pub mod parser;
pub mod rom_builder;
pub mod sgbasm_lib;
pub mod symbols;
pub mod syntax;
pub mod tiles;

pub use crate::rom_builder::{Color, RomBuilder};
pub use crate::symbols::SymbolTable;
