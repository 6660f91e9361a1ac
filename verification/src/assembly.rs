//! The second pass: the constants of `equ` are resolved, every region is
//! turned into bytes, and the image is checked and padded.

use crate::ast::{Expr, ExprRunError, Instruction};
use crate::encoder::WriteError;
use crate::header::{extend, push_zeroes, CartridgeType, HEADER_END};
use crate::rom_builder::{BuildError, Data, DataHolder, DataSource};
use crate::symbols::SymbolTable;
use vstd::prelude::*;

verus! {

/// Why the ROM could not be assembled: an error, or the constants that
/// depend on each other in a circle.
pub enum Failure {
    Error(BuildError),
    Cyclic(Seq<String>),
}

impl BuildError {
    /// Whether the error is the one that reports the failure.
    pub open spec fn is_failure(self, failure: Failure) -> bool {
        match failure {
            Failure::Error(error) => self == error,
            Failure::Cyclic(names) => self matches BuildError::CyclicDependency { identifiers }
                && identifiers@ == names,
        }
    }
}

/// The number of bytes of a ROM with the size factor `factor`: 32 KiB,
/// doubled `factor` times.
pub open spec fn rom_size(factor: int) -> int
    decreases factor,
{
    if factor <= 0 {
        0x8000
    } else {
        2 * rom_size(factor - 1)
    }
}

/// The least size factor of a ROM that holds `end` bytes, if a ROM of 8
/// MiB holds them.
pub open spec fn size_factor(end: int) -> Option<u8> {
    if end <= 0x8000 {
        Some(0u8)
    } else if end <= 0x1_0000 {
        Some(1u8)
    } else if end <= 0x2_0000 {
        Some(2u8)
    } else if end <= 0x4_0000 {
        Some(3u8)
    } else if end <= 0x8_0000 {
        Some(4u8)
    } else if end <= 0x10_0000 {
        Some(5u8)
    } else if end <= 0x20_0000 {
        Some(6u8)
    } else if end <= 0x40_0000 {
        Some(7u8)
    } else if end <= 0x80_0000 {
        Some(8u8)
    } else {
        None
    }
}

/// The size factor is the least one whose ROM holds `end` bytes, and
/// there is none only where even 8 MiB do not hold them.
pub proof fn lemma_size_factor_least(end: int)
    ensures
        match size_factor(end) {
            Some(factor) => factor <= 8 && end <= rom_size(factor as int) && (factor > 0 ==> end
                > rom_size(factor - 1)),
            None => end > rom_size(8),
        },
{
    reveal_with_fuel(rom_size, 10);
}

/// `rom` cut or padded with zeroes to `length` bytes.
pub open spec fn resized(rom: Seq<u8>, length: int) -> Seq<u8> {
    if length <= rom.len() {
        rom.subrange(0, length)
    } else {
        rom + Seq::new((length - rom.len()) as nat, |i: int| 0u8)
    }
}

/// One byte of the block that stands in for interrupts and jumps: eight
/// slots of eight bytes that jump to 0x0100, five slots of eight bytes
/// that return from the interrupt, zeroes, and at 0x0100 a `nop` and a
/// jump to 0x0150.
pub open spec fn preamble_byte(i: int) -> u8 {
    if i < 0x40 {
        if i % 8 == 0 {
            0xC3
        } else if i % 8 == 2 {
            0x01
        } else {
            0x00
        }
    } else if i < 0x68 {
        if i % 8 == 0 {
            0xD9
        } else {
            0x00
        }
    } else if i == 0x0101 {
        0xC3
    } else if i == 0x0102 {
        0x50
    } else if i == 0x0103 {
        0x01
    } else {
        0x00
    }
}

/// The first `length` bytes of the block that stands in for interrupts
/// and jumps.
pub open spec fn preamble(length: int) -> Seq<u8> {
    Seq::new(length as nat, |i: int| preamble_byte(i))
}

/// The `equ` at a place, given as the index of a region and the index of
/// an instruction in it.
pub open spec fn is_equ(regions: Seq<DataHolder>, at: (usize, usize)) -> bool {
    &&& at.0 < regions.len()
    &&& regions[at.0 as int].data matches Data::Instructions(instructions)
    &&& at.1 < instructions@.len()
    &&& instructions@[at.1 as int] is Equ
}

/// The name that the `equ` at a place declares.
pub open spec fn equ_name(regions: Seq<DataHolder>, at: (usize, usize)) -> String {
    regions[at.0 as int].data->Instructions_0@[at.1 as int]->Equ_0
}

/// The expression of the `equ` at a place.
pub open spec fn equ_expr(regions: Seq<DataHolder>, at: (usize, usize)) -> Expr {
    regions[at.0 as int].data->Instructions_0@[at.1 as int]->Equ_1
}

/// The places of the `equ`s among the first `count` instructions of the
/// region `region`, in their order.
pub open spec fn equs_in(instructions: Seq<Instruction>, count: int, region: usize) -> Seq<
    (usize, usize),
>
    decreases count,
{
    if count <= 0 {
        Seq::empty()
    } else if instructions[count - 1] is Equ {
        equs_in(instructions, count - 1, region).push((region, (count - 1) as usize))
    } else {
        equs_in(instructions, count - 1, region)
    }
}

/// The places of the `equ`s in the first `count` regions, in their order.
pub open spec fn all_equs(regions: Seq<DataHolder>, count: int) -> Seq<(usize, usize)>
    decreases count,
{
    if count <= 0 {
        Seq::empty()
    } else {
        match regions[count - 1].data {
            Data::Instructions(instructions) => all_equs(regions, count - 1) + equs_in(
                instructions@,
                instructions@.len() as int,
                (count - 1) as usize,
            ),
            _ => all_equs(regions, count - 1),
        }
    }
}

/// One walk over the first `count` of the pending `equ`s, in their
/// order, from the table `symbols` on: the table, the places that are
/// kept for the next round, and the error of the walk, if there is one.
/// An `equ` whose expression has a value is bound; where its name is
/// bound already, that is an error, and the name is bound anew for the
/// rest of the walk. An `equ` that lacks an identifier is kept. Any
/// other failure of an expression is an error. The walk goes on behind
/// an error, so the error of the walk is the last one.
pub open spec fn equ_walk(
    regions: Seq<DataHolder>,
    pending: Seq<(usize, usize)>,
    count: int,
    symbols: Map<Seq<char>, i64>,
) -> (Map<Seq<char>, i64>, Seq<(usize, usize)>, Option<BuildError>)
    decreases count,
{
    if count <= 0 {
        (symbols, Seq::empty(), None)
    } else {
        let (table, kept, fault) = equ_walk(regions, pending, count - 1, symbols);
        let at = pending[count - 1];
        match equ_expr(regions, at).value(table) {
            Ok(value) => (
                table.insert(equ_name(regions, at)@, value),
                kept,
                if table.contains_key(equ_name(regions, at)@) {
                    Some(
                        BuildError::DeclaredTwice {
                            identifier: equ_name(regions, at),
                            source: regions[at.0 as int].source,
                            line: (at.1 + 1) as usize,
                        },
                    )
                } else {
                    fault
                },
            ),
            Err(ExprRunError::MissingIdentifier(_)) => (table, kept.push(at), fault),
            Err(error) => (
                table,
                kept.push(at),
                Some(
                    BuildError::Equ {
                        source: regions[at.0 as int].source,
                        line: (at.1 + 1) as usize,
                        error,
                    },
                ),
            ),
        }
    }
}

/// One round over the first `count` of the pending `equ`s: the table
/// with the `equ`s that have a value, and the places of those that lack
/// an identifier and are kept for the next round. The round fails where
/// an `equ` declares a name that is bound already, or where an
/// expression fails otherwise; every `equ` of the round is looked at
/// before the round fails, and the error is that of the last `equ` at
/// fault.
pub open spec fn equ_round(
    regions: Seq<DataHolder>,
    pending: Seq<(usize, usize)>,
    count: int,
    symbols: Map<Seq<char>, i64>,
) -> Result<(Map<Seq<char>, i64>, Seq<(usize, usize)>), BuildError> {
    let (table, kept, fault) = equ_walk(regions, pending, count, symbols);
    match fault {
        Some(error) => Err(error),
        None => Ok((table, kept)),
    }
}

/// Whether one of the `equ`s declares `name`.
pub open spec fn declares(regions: Seq<DataHolder>, equs: Seq<(usize, usize)>, name: Seq<char>) -> bool {
    exists|j: int| 0 <= j < equs.len() && (#[trigger] equ_name(regions, equs[j]))@ == name
}

/// The first among the first `count` of the `equ`s that lacks an
/// identifier which none of the `equ`s declares, as an error.
pub open spec fn first_undeclared(
    regions: Seq<DataHolder>,
    equs: Seq<(usize, usize)>,
    count: int,
    symbols: Map<Seq<char>, i64>,
) -> Option<BuildError>
    decreases count,
{
    if count <= 0 {
        None
    } else {
        match first_undeclared(regions, equs, count - 1, symbols) {
            Some(error) => Some(error),
            None => {
                let at = equs[count - 1];
                match equ_expr(regions, at).value(symbols) {
                    Err(ExprRunError::MissingIdentifier(missing)) => if declares(
                        regions,
                        equs,
                        missing@,
                    ) {
                        None
                    } else {
                        Some(
                            BuildError::Undeclared {
                                identifier: missing,
                                source: regions[at.0 as int].source,
                                line: (at.1 + 1) as usize,
                            },
                        )
                    },
                    _ => None,
                }
            },
        }
    }
}

/// The names that the first `count` of the `equ`s declare.
pub open spec fn names_of(regions: Seq<DataHolder>, equs: Seq<(usize, usize)>, count: int) -> Seq<
    String,
>
    decreases count,
{
    if count <= 0 {
        Seq::empty()
    } else {
        names_of(regions, equs, count - 1).push(equ_name(regions, equs[count - 1]))
    }
}

/// Why the `equ`s that a round made no progress on cannot be resolved:
/// one of them uses an identifier that nothing declares, or they depend
/// on each other in a circle.
pub open spec fn stuck(
    regions: Seq<DataHolder>,
    equs: Seq<(usize, usize)>,
    symbols: Map<Seq<char>, i64>,
) -> Failure {
    match first_undeclared(regions, equs, equs.len() as int, symbols) {
        Some(error) => Failure::Error(error),
        None => Failure::Cyclic(names_of(regions, equs, equs.len() as int)),
    }
}

/// The table after the pending `equ`s are resolved: rounds are made
/// until none is pending, or until a round binds none.
pub open spec fn resolve(
    regions: Seq<DataHolder>,
    pending: Seq<(usize, usize)>,
    symbols: Map<Seq<char>, i64>,
) -> Result<Map<Seq<char>, i64>, Failure>
    decreases pending.len(),
{
    if pending.len() == 0 {
        Ok(symbols)
    } else {
        match equ_round(regions, pending, pending.len() as int, symbols) {
            Err(error) => Err(Failure::Error(error)),
            Ok((table, kept)) => if kept.len() < pending.len() {
                resolve(regions, kept, table)
            } else {
                Err(stuck(regions, kept, table))
            },
        }
    }
}

/// The image after the first `count` instructions are appended to `rom`,
/// each encoded at the address at which it comes to stand; or the index
/// of the first instruction that cannot be encoded, and why.
pub open spec fn emit_instructions(
    instructions: Seq<Instruction>,
    count: int,
    rom: Seq<u8>,
    symbols: Map<Seq<char>, i64>,
) -> Result<Seq<u8>, (int, WriteError)>
    decreases count,
{
    if count <= 0 {
        Ok(rom)
    } else {
        match emit_instructions(instructions, count - 1, rom, symbols) {
            Err(fault) => Err(fault),
            Ok(bytes) => match instructions[count - 1].encoding(bytes.len() as int, symbols) {
                Ok(code) => Ok(bytes + code),
                Err(error) => Err((count - 1, error)),
            },
        }
    }
}

/// The image after the first `count` regions: before each region the
/// image is padded with zeroes up to the address of the region, then the
/// bytes of the region follow.
pub open spec fn emit_regions(
    regions: Seq<DataHolder>,
    count: int,
    symbols: Map<Seq<char>, i64>,
    factor: u8,
) -> Result<Seq<u8>, BuildError>
    decreases count,
{
    if count <= 0 {
        Ok(Seq::empty())
    } else {
        match emit_regions(regions, count - 1, symbols, factor) {
            Err(error) => Err(error),
            Ok(rom) => {
                let region = regions[count - 1];
                let padded = resized(rom, region.address as int);
                match region.data {
                    Data::DummyInterruptsAndJumps => Ok(padded + preamble(0x0104)),
                    Data::Header(header) => Ok(padded + header.bytes(factor)),
                    Data::Binary(bytes) => Ok(padded + bytes@),
                    Data::Instructions(instructions) => match emit_instructions(
                        instructions@,
                        instructions@.len() as int,
                        padded,
                        symbols,
                    ) {
                        Ok(bytes) => Ok(bytes),
                        Err((index, error)) => Err(
                            BuildError::Write {
                                source: region.source,
                                line: (index + 1) as usize,
                                error,
                            },
                        ),
                    },
                }
            },
        }
    }
}

/// The finished image: the image must hold the whole header, the size
/// factor at 0x0148 must not stand for more than 8 MiB nor for more than
/// the cartridge type at 0x0147 can address, and the image is cut or
/// padded with zeroes to the size that the factor stands for.
pub open spec fn finished(rom: Seq<u8>) -> Result<Seq<u8>, BuildError> {
    if rom.len() < HEADER_END {
        Err(BuildError::RomTooSmall { size: rom.len() as usize })
    } else {
        let cartridge = CartridgeType::of_code(rom[0x0147]);
        let factor = rom[0x0148];
        if factor > 8 {
            Err(BuildError::SizeFactorTooBig { factor })
        } else if cartridge.max_size_factor() matches Some(most) && factor > most {
            Err(BuildError::CartridgeTooSmall { cartridge, factor })
        } else {
            Ok(resized(rom, rom_size(factor as int)))
        }
    }
}

/// The ROM that the regions, the address behind them and the table of
/// labels stand for.
pub open spec fn assembled(regions: Seq<DataHolder>, end: u32, symbols: Map<Seq<char>, i64>) -> Result<
    Seq<u8>,
    Failure,
> {
    if regions.len() == 0 {
        Err(Failure::Error(BuildError::Empty))
    } else {
        match size_factor(end as int) {
            None => Err(Failure::Error(BuildError::RomTooBig { size: end })),
            Some(factor) => match resolve(
                regions,
                all_equs(regions, regions.len() as int),
                symbols,
            ) {
                Err(failure) => Err(failure),
                Ok(table) => match emit_regions(regions, regions.len() as int, table, factor) {
                    Err(error) => Err(Failure::Error(error)),
                    Ok(rom) => match finished(rom) {
                        Err(error) => Err(Failure::Error(error)),
                        Ok(image) => Ok(image),
                    },
                },
            },
        }
    }
}


/// Chooses the least size factor for a ROM that ends at `address`.
pub(crate) fn choose_size_factor(address: u32) -> (factor: Option<u8>)
    ensures
        factor == size_factor(address as int),
{
    if address <= 0x4000 * 2 {
        Some(0)
    } else if address <= 0x4000 * 4 {
        Some(1)
    } else if address <= 0x4000 * 8 {
        Some(2)
    } else if address <= 0x4000 * 16 {
        Some(3)
    } else if address <= 0x4000 * 32 {
        Some(4)
    } else if address <= 0x4000 * 64 {
        Some(5)
    } else if address <= 0x4000 * 128 {
        Some(6)
    } else if address <= 0x4000 * 256 {
        Some(7)
    } else if address <= 0x4000 * 512 {
        Some(8)
    } else {
        None
    }
}

/// Cuts `rom` or pads it with zeroes to `length` bytes.
pub(crate) fn resize(rom: &mut Vec<u8>, length: usize)
    ensures
        final(rom)@ == resized(old(rom)@, length as int),
{
    if length <= rom.len() {
        rom.truncate(length);
    } else {
        let missing = length - rom.len();
        push_zeroes(rom, missing);
    }
}

/// Appends the block that stands in for interrupts and jumps.
fn push_preamble(rom: &mut Vec<u8>)
    ensures
        final(rom)@ == old(rom)@ + preamble(0x0104),
{
    let ghost before = rom@;
    // jumps
    let mut slot: usize = 0;
    while slot < 8
        invariant
            slot <= 8,
            rom@ == before + preamble(8 * slot),
        decreases 8 - slot,
    {
        rom.push(0xc3);
        rom.push(0x00);
        rom.push(0x01);
        rom.push(0x00);

        rom.push(0x00);
        rom.push(0x00);
        rom.push(0x00);
        rom.push(0x00);
        slot += 1;
    }
    // interrupts
    while slot < 13
        invariant
            8 <= slot <= 13,
            rom@ == before + preamble(8 * slot),
        decreases 13 - slot,
    {
        rom.push(0xd9);
        rom.push(0x00);
        rom.push(0x00);
        rom.push(0x00);

        rom.push(0x00);
        rom.push(0x00);
        rom.push(0x00);
        rom.push(0x00);
        slot += 1;
    }
    // padding
    push_zeroes(rom, 0x98);
    assert(rom@ == before + preamble(0x0100));

    // jump to 0x0150
    rom.push(0x00);
    rom.push(0xc3);
    rom.push(0x50);
    rom.push(0x01);
}

/// Checks the image and brings it to the size that its header declares.
pub(crate) fn finish(rom: Vec<u8>) -> (result: Result<Vec<u8>, BuildError>)
    ensures
        match finished(rom@) {
            Ok(image) => result matches Ok(bytes) && bytes@ == image,
            Err(error) => result matches Err(e) && e == error,
        },
{
    let mut rom = rom;
    if rom.len() < 0x0150 {
        return Err(BuildError::RomTooSmall { size: rom.len() });
    }
    // the cartridge type and the size factor must go together
    let cartridge = CartridgeType::variant(rom[0x0147]);
    let factor = rom[0x0148];
    if factor > 8 {
        return Err(BuildError::SizeFactorTooBig { factor });
    }
    let most: Option<u8> = match cartridge {
        CartridgeType::RomOnly | CartridgeType::RomRam | CartridgeType::RomRamBattery => Some(0),
        CartridgeType::Mbc1 | CartridgeType::Mbc1Ram | CartridgeType::Mbc1RamBattery => Some(6),
        CartridgeType::Mbc2 | CartridgeType::Mbc2Battery => Some(3),
        CartridgeType::Mmm01 | CartridgeType::Mmm01Ram | CartridgeType::Mmm01RamBattery => None,
        CartridgeType::Mbc3TimerBattery
        | CartridgeType::Mbc3TimerRamBattery
        | CartridgeType::Mbc3
        | CartridgeType::Mbc3Ram
        | CartridgeType::Mbc3RamBattery => Some(6),
        CartridgeType::Mbc5
        | CartridgeType::Mbc5Ram
        | CartridgeType::Mbc5RamBattery
        | CartridgeType::Mbc5Rumble
        | CartridgeType::Mbc5RumbleRam
        | CartridgeType::Mbc5RumbleRamBattery => Some(8),
        CartridgeType::PocketCamera => Some(8),
        CartridgeType::HuC3 => None,
        CartridgeType::HuC1RamBattery => Some(6),
        CartridgeType::Unknown(_) => None,
    };
    match most {
        Some(most) => {
            if factor > most {
                return Err(BuildError::CartridgeTooSmall { cartridge, factor });
            }
        },
        None => {},
    }
    proof {
        reveal_with_fuel(rom_size, 10);
    }
    let final_size: usize = 0x8000usize << (factor as usize);
    assert(final_size == rom_size(factor as int)) by {
        reveal_with_fuel(rom_size, 10);
        assert(0x8000usize << 0usize == 0x8000) by (bit_vector);
        assert(0x8000usize << 1usize == 0x1_0000) by (bit_vector);
        assert(0x8000usize << 2usize == 0x2_0000) by (bit_vector);
        assert(0x8000usize << 3usize == 0x4_0000) by (bit_vector);
        assert(0x8000usize << 4usize == 0x8_0000) by (bit_vector);
        assert(0x8000usize << 5usize == 0x10_0000) by (bit_vector);
        assert(0x8000usize << 6usize == 0x20_0000) by (bit_vector);
        assert(0x8000usize << 7usize == 0x40_0000) by (bit_vector);
        assert(0x8000usize << 8usize == 0x80_0000) by (bit_vector);
    }
    // pad the remainder of the rom with zeroes
    resize(&mut rom, final_size);
    Ok(rom)
}


/// Appends the bytes of the instructions to `rom`. `source` says where
/// the instructions came from.
fn write_instructions(
    instructions: &Vec<Instruction>,
    source: &DataSource,
    rom: &mut Vec<u8>,
    constants: &SymbolTable,
) -> (result: Result<(), BuildError>)
    ensures
        match emit_instructions(
            instructions@,
            instructions@.len() as int,
            old(rom)@,
            constants@,
        ) {
            Ok(bytes) => result is Ok && final(rom)@ == bytes,
            Err((index, error)) => result matches Err(e) && e == (BuildError::Write {
                source: *source,
                line: (index + 1) as usize,
                error,
            }),
        },
{
    let ghost before = rom@;
    let mut i: usize = 0;
    while i < instructions.len()
        invariant
            i <= instructions@.len(),
            before == old(rom)@,
            emit_instructions(instructions@, i as int, before, constants@) == Ok::<
                Seq<u8>,
                (int, WriteError),
            >(rom@),
        decreases instructions@.len() - i,
    {
        match instructions[i].write_to_rom(rom, constants) {
            Ok(_) => {},
            Err(error) => {
                proof {
                    lemma_emit_fault_stays(
                        instructions@,
                        i + 1,
                        instructions@.len() as int,
                        before,
                        constants@,
                    );
                }
                return Err(BuildError::Write { source: source.clone(), line: i + 1, error });
            },
        }
        i += 1;
    }
    Ok(())
}

/// Instructions that cannot all be encoded fail in the same way when
/// more instructions follow.
pub proof fn lemma_emit_fault_stays(
    instructions: Seq<Instruction>,
    count: int,
    more: int,
    rom: Seq<u8>,
    symbols: Map<Seq<char>, i64>,
)
    requires
        count <= more,
        emit_instructions(instructions, count, rom, symbols) is Err,
    ensures
        emit_instructions(instructions, more, rom, symbols) == emit_instructions(
            instructions,
            count,
            rom,
            symbols,
        ),
    decreases more - count,
{
    if count < more {
        lemma_emit_fault_stays(instructions, count, more - 1, rom, symbols);
    }
}

/// Regions that cannot all be turned into bytes fail in the same way
/// when more regions follow.
pub proof fn lemma_regions_fault_stays(
    regions: Seq<DataHolder>,
    count: int,
    more: int,
    symbols: Map<Seq<char>, i64>,
    factor: u8,
)
    requires
        count <= more,
        emit_regions(regions, count, symbols, factor) is Err,
    ensures
        emit_regions(regions, more, symbols, factor) == emit_regions(
            regions,
            count,
            symbols,
            factor,
        ),
    decreases more - count,
{
    if count < more {
        lemma_regions_fault_stays(regions, count, more - 1, symbols, factor);
    }
}

/// Turns the regions into the bytes of the image.
pub(crate) fn write_regions(data: &Vec<DataHolder>, constants: &SymbolTable, factor: u8) -> (result:
    Result<Vec<u8>, BuildError>)
    requires
        forall|i: int| 0 <= i < data@.len() ==> (#[trigger] data@[i]).valid(),
    ensures
        match emit_regions(data@, data@.len() as int, constants@, factor) {
            Ok(bytes) => result matches Ok(rom) && rom@ == bytes,
            Err(error) => result matches Err(e) && e == error,
        },
{
    let mut rom: Vec<u8> = Vec::new();
    let mut i: usize = 0;
    while i < data.len()
        invariant
            i <= data@.len(),
            forall|i: int| 0 <= i < data@.len() ==> (#[trigger] data@[i]).valid(),
            emit_regions(data@, i as int, constants@, factor) == Ok::<Seq<u8>, BuildError>(rom@),
        decreases data@.len() - i,
    {
        let region = &data[i];
        assert(region.valid());
        // pad to address
        resize(&mut rom, region.address as usize);
        match &region.data {
            Data::DummyInterruptsAndJumps => {
                push_preamble(&mut rom);
            },
            Data::Header(header) => {
                header.write(&mut rom, factor);
            },
            Data::Binary(bytes) => {
                extend(&mut rom, bytes.as_slice());
            },
            Data::Instructions(instructions) => {
                match write_instructions(instructions, &region.source, &mut rom, constants) {
                    Ok(_) => {},
                    Err(error) => {
                        proof {
                            lemma_regions_fault_stays(
                                data@,
                                i + 1,
                                data@.len() as int,
                                constants@,
                                factor,
                            );
                        }
                        return Err(error);
                    },
                }
            },
        }
        i += 1;
    }
    Ok(rom)
}


/// Whether every place is that of an `equ`.
pub open spec fn are_equs(regions: Seq<DataHolder>, places: Seq<(usize, usize)>) -> bool {
    forall|j: int| 0 <= j < places.len() ==> is_equ(regions, #[trigger] places[j])
}

/// Collects the places of all `equ`s, region by region and line by line.
pub(crate) fn collect_equs(data: &Vec<DataHolder>) -> (equs: Vec<(usize, usize)>)
    ensures
        equs@ == all_equs(data@, data@.len() as int),
        are_equs(data@, equs@),
{
    let mut equs: Vec<(usize, usize)> = Vec::new();
    let mut i: usize = 0;
    while i < data.len()
        invariant
            i <= data@.len(),
            equs@ == all_equs(data@, i as int),
            are_equs(data@, equs@),
        decreases data@.len() - i,
    {
        match &data[i].data {
            Data::DummyInterruptsAndJumps => {},
            Data::Header(_) => {},
            Data::Binary(_) => {},
            Data::Instructions(instructions) => {
                let ghost before = equs@;
                let mut k: usize = 0;
                while k < instructions.len()
                    invariant
                        i < data@.len(),
                        data@[i as int].data == Data::Instructions(*instructions),
                        k <= instructions@.len(),
                        equs@ == before + equs_in(instructions@, k as int, i),
                        are_equs(data@, equs@),
                    decreases instructions@.len() - k,
                {
                    if let Instruction::Equ(_, _) = &instructions[k] {
                        equs.push((i, k));
                    }
                    k += 1;
                }
            },
        }
        i += 1;
    }
    equs
}

/// A walk keeps no more `equ`s than it is given, and only `equ`s.
pub proof fn lemma_round_keeps_equs(
    regions: Seq<DataHolder>,
    pending: Seq<(usize, usize)>,
    count: int,
    symbols: Map<Seq<char>, i64>,
)
    requires
        0 <= count <= pending.len(),
        are_equs(regions, pending),
    ensures
        equ_walk(regions, pending, count, symbols).1.len() <= count,
        are_equs(regions, equ_walk(regions, pending, count, symbols).1),
    decreases count,
{
    if count > 0 {
        lemma_round_keeps_equs(regions, pending, count - 1, symbols);
    }
}

/// Makes one round over the pending `equ`s.
fn run_round(data: &Vec<DataHolder>, pending: &Vec<(usize, usize)>, constants: &mut SymbolTable) -> (result:
    Result<Vec<(usize, usize)>, BuildError>)
    requires
        are_equs(data@, pending@),
    ensures
        match equ_round(data@, pending@, pending@.len() as int, old(constants)@) {
            Ok((table, kept)) => result matches Ok(left) && left@ == kept && final(constants)@
                == table,
            Err(error) => result matches Err(e) && e == error,
        },
{
    let ghost known = constants@;
    let mut kept: Vec<(usize, usize)> = Vec::new();
    let mut fault: Option<BuildError> = None;
    let mut j: usize = 0;
    while j < pending.len()
        invariant
            j <= pending@.len(),
            are_equs(data@, pending@),
            known == old(constants)@,
            equ_walk(data@, pending@, j as int, known) == (constants@, kept@, fault),
        decreases pending@.len() - j,
    {
        let at = pending[j];
        assert(is_equ(data@, at));
        let region = &data[at.0];
        if let Data::Instructions(instructions) = &region.data {
            let count = instructions.len();
            assert(at.1 < count);
            if let Instruction::Equ(ident, expr) = &instructions[at.1] {
                match expr.run(constants) {
                    Ok(value) => {
                        if constants.contains(ident.as_str()) {
                            fault = Some(
                                BuildError::DeclaredTwice {
                                    identifier: ident.clone(),
                                    source: region.source.clone(),
                                    line: at.1 + 1,
                                },
                            );
                        }
                        constants.insert(ident.clone(), value);
                    },
                    Err(ExprRunError::MissingIdentifier(_)) => {
                        // The identifier may be declared by an equ that is
                        // resolved later in this round or in the next.
                        kept.push(at);
                    },
                    Err(error) => {
                        kept.push(at);
                        fault = Some(
                            BuildError::Equ {
                                source: region.source.clone(),
                                line: at.1 + 1,
                                error,
                            },
                        );
                    },
                }
            }
        }
        j += 1;
    }
    match fault {
        Some(error) => Err(error),
        None => Ok(kept),
    }
}

/// Whether one of the `equ`s declares `name`.
fn is_declared(data: &Vec<DataHolder>, equs: &Vec<(usize, usize)>, name: &String) -> (found: bool)
    requires
        are_equs(data@, equs@),
    ensures
        found == declares(data@, equs@, name@),
{
    let mut j: usize = 0;
    while j < equs.len()
        invariant
            j <= equs@.len(),
            are_equs(data@, equs@),
            forall|k: int| 0 <= k < j ==> (#[trigger] equ_name(data@, equs@[k]))@ != name@,
        decreases equs@.len() - j,
    {
        let at = equs[j];
        assert(is_equ(data@, at));
        if let Data::Instructions(instructions) = &data[at.0].data {
            if let Instruction::Equ(ident, _) = &instructions[at.1] {
                if *ident == *name {
                    assert(equ_name(data@, equs@[j as int])@ == name@);
                    return true;
                }
            }
        }
        j += 1;
    }
    false
}

/// Says why the `equ`s that a round made no progress on cannot be
/// resolved.
fn explain_stuck(data: &Vec<DataHolder>, equs: &Vec<(usize, usize)>, constants: &SymbolTable) -> (error:
    BuildError)
    requires
        are_equs(data@, equs@),
    ensures
        error.is_failure(stuck(data@, equs@, constants@)),
{
    // Is an identifier missing because nothing declares it?
    let mut j: usize = 0;
    while j < equs.len()
        invariant
            j <= equs@.len(),
            are_equs(data@, equs@),
            first_undeclared(data@, equs@, j as int, constants@) is None,
        decreases equs@.len() - j,
    {
        let at = equs[j];
        assert(is_equ(data@, at));
        let region = &data[at.0];
        if let Data::Instructions(instructions) = &region.data {
            let count = instructions.len();
            assert(at.1 < count);
            if let Instruction::Equ(_, expr) = &instructions[at.1] {
                if let Err(ExprRunError::MissingIdentifier(missing)) = expr.run(constants) {
                    if !is_declared(data, equs, &missing) {
                        proof {
                            lemma_undeclared_stays(
                                data@,
                                equs@,
                                j + 1,
                                equs@.len() as int,
                                constants@,
                            );
                        }
                        return BuildError::Undeclared {
                            identifier: missing,
                            source: region.source.clone(),
                            line: at.1 + 1,
                        };
                    }
                }
            }
        }
        j += 1;
    }
    // Else the constants depend on each other in a circle.
    let mut identifiers: Vec<String> = Vec::new();
    let mut j: usize = 0;
    while j < equs.len()
        invariant
            j <= equs@.len(),
            are_equs(data@, equs@),
            identifiers@ == names_of(data@, equs@, j as int),
        decreases equs@.len() - j,
    {
        let at = equs[j];
        assert(is_equ(data@, at));
        if let Data::Instructions(instructions) = &data[at.0].data {
            if let Instruction::Equ(ident, _) = &instructions[at.1] {
                identifiers.push(ident.clone());
            }
        }
        j += 1;
    }
    BuildError::CyclicDependency { identifiers }
}

/// The first `equ` that uses an undeclared identifier is the first one
/// also when more `equ`s follow.
pub proof fn lemma_undeclared_stays(
    regions: Seq<DataHolder>,
    equs: Seq<(usize, usize)>,
    count: int,
    more: int,
    symbols: Map<Seq<char>, i64>,
)
    requires
        count <= more,
        first_undeclared(regions, equs, count, symbols) is Some,
    ensures
        first_undeclared(regions, equs, more, symbols) == first_undeclared(
            regions,
            equs,
            count,
            symbols,
        ),
    decreases more - count,
{
    if count < more {
        lemma_undeclared_stays(regions, equs, count, more - 1, symbols);
    }
}

/// Resolves the pending `equ`s and binds them in `constants`.
pub(crate) fn resolve_equs(
    data: &Vec<DataHolder>,
    pending: Vec<(usize, usize)>,
    constants: &mut SymbolTable,
) -> (result: Result<(), BuildError>)
    requires
        are_equs(data@, pending@),
    ensures
        match resolve(data@, pending@, old(constants)@) {
            Ok(table) => result is Ok && final(constants)@ == table,
            Err(failure) => result matches Err(error) && error.is_failure(failure),
        },
{
    let ghost outcome = resolve(data@, pending@, constants@);
    let mut left = pending;
    while left.len() > 0
        invariant
            are_equs(data@, left@),
            resolve(data@, left@, constants@) == outcome,
            outcome == resolve(data@, pending@, old(constants)@),
        decreases left@.len(),
    {
        proof {
            lemma_round_keeps_equs(data@, left@, left@.len() as int, constants@);
        }
        let kept = match run_round(data, &left, constants) {
            Ok(kept) => kept,
            Err(error) => {
                return Err(error);
            },
        };
        if kept.len() == left.len() {
            return Err(explain_stuck(data, &kept, constants));
        }
        left = kept;
    }
    Ok(())
}

} // verus!
