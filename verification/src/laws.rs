//! What holds of every ROM that a builder assembles.

use crate::assembly::{
    all_equs, assembled, emit_instructions, emit_regions, equ_round, finished,
    lemma_emit_fault_stays, lemma_regions_fault_stays, lemma_size_factor_least, preamble, resized,
    resolve, rom_size, size_factor,
};
use crate::ast::Instruction;
use crate::constants::in_bank;
use crate::encoder::lemma_length_is_bytes_written;
use crate::header::{byte_sum, logo, Header};
use crate::rom_builder::{end_of, Data, DataHolder, RomBuilder};
use vstd::prelude::*;

verus! {

/// Instructions that are emitted behind `rom` leave `rom` as it is and
/// end where their lengths say: each instruction comes to stand at the
/// address that the lengths of the instructions before it give.
pub proof fn lemma_emit_positions(
    instructions: Seq<Instruction>,
    count: int,
    rom: Seq<u8>,
    symbols: Map<Seq<char>, i64>,
)
    requires
        0 <= count <= instructions.len(),
        emit_instructions(instructions, count, rom, symbols) is Ok,
    ensures
        emit_instructions(instructions, count, rom, symbols)->Ok_0.len() == end_of(
            instructions,
            count,
            rom.len() as int,
        ),
        rom.len() <= emit_instructions(instructions, count, rom, symbols)->Ok_0.len(),
        emit_instructions(instructions, count, rom, symbols)->Ok_0.subrange(0, rom.len() as int)
            == rom,
    decreases count,
{
    if count > 0 {
        lemma_emit_positions(instructions, count - 1, rom, symbols);
        let before = emit_instructions(instructions, count - 1, rom, symbols)->Ok_0;
        lemma_length_is_bytes_written(instructions[count - 1], before.len() as int, symbols);
        let after = emit_instructions(instructions, count, rom, symbols)->Ok_0;
        assert(after.subrange(0, rom.len() as int) == before.subrange(0, rom.len() as int));
    }
}

/// Where all instructions can be emitted, so can the first of them.
pub proof fn lemma_emit_prefix(
    instructions: Seq<Instruction>,
    count: int,
    all: int,
    rom: Seq<u8>,
    symbols: Map<Seq<char>, i64>,
)
    requires
        count <= all,
        emit_instructions(instructions, all, rom, symbols) is Ok,
    ensures
        emit_instructions(instructions, count, rom, symbols) is Ok,
{
    if emit_instructions(instructions, count, rom, symbols) is Err {
        lemma_emit_fault_stays(instructions, count, all, rom, symbols);
    }
}

/// Where all regions can be emitted, so can the first of them.
pub proof fn lemma_regions_prefix(
    regions: Seq<DataHolder>,
    count: int,
    all: int,
    symbols: Map<Seq<char>, i64>,
    factor: u8,
)
    requires
        count <= all,
        emit_regions(regions, all, symbols, factor) is Ok,
    ensures
        emit_regions(regions, count, symbols, factor) is Ok,
{
    if emit_regions(regions, count, symbols, factor) is Err {
        lemma_regions_fault_stays(regions, count, all, symbols, factor);
    }
}

/// What stands in the image at the place of a region, where that does
/// not depend on the symbols: the block of the preamble, the bytes of a
/// header with the size factor, or the bytes of a block of data.
pub open spec fn fixed_bytes(region: DataHolder, factor: u8) -> Option<Seq<u8>> {
    match region.data {
        Data::DummyInterruptsAndJumps => Some(preamble(0x0104)),
        Data::Header(header) => Some(header.bytes(factor)),
        Data::Binary(bytes) => Some(bytes@),
        Data::Instructions(_) => None,
    }
}

/// The end of the image after the first `count` regions: the end of the
/// last of them.
pub open spec fn end_after(regions: Seq<DataHolder>, count: int) -> int {
    if count <= 0 {
        0
    } else {
        regions[count - 1].end()
    }
}

/// The image after the first `count` regions of a builder ends where the
/// last of them ends, which is at or before the address of the next
/// region or of the builder.
pub proof fn lemma_regions_end(
    builder: RomBuilder,
    count: int,
    symbols: Map<Seq<char>, i64>,
    factor: u8,
)
    requires
        builder.wf(),
        0 <= count <= builder.regions().len(),
        emit_regions(builder.regions(), count, symbols, factor) is Ok,
    ensures
        emit_regions(builder.regions(), count, symbols, factor)->Ok_0.len() == end_after(
            builder.regions(),
            count,
        ),
        count > 0 ==> builder.regions()[count - 1].address <= end_after(builder.regions(), count),
        count < builder.regions().len() ==> end_after(builder.regions(), count)
            <= builder.regions()[count].address,
        count == builder.regions().len() ==> end_after(builder.regions(), count)
            <= builder.cursor(),
    decreases count,
{
    reveal(RomBuilder::wf);
    let regions = builder.regions();
    if count > 0 {
        lemma_regions_prefix(regions, count - 1, count, symbols, factor);
        lemma_regions_end(builder, count - 1, symbols, factor);
        let before = emit_regions(regions, count - 1, symbols, factor)->Ok_0;
        let region = regions[count - 1];
        assert(region.valid());
        let padded = resized(before, region.address as int);
        match region.data {
            Data::Header(header) => {
                header.lemma_bytes_shape(factor);
            },
            Data::Instructions(instructions) => {
                lemma_emit_positions(
                    instructions@,
                    instructions@.len() as int,
                    padded,
                    symbols,
                );
            },
            _ => {},
        }
        if count < regions.len() {
            assert(regions[count - 1].end() <= regions[count - 1 + 1].address);
        }
    }
}

/// The next region leaves the image before it as it is, fills the gap
/// before it with zeroes, and stands at its address.
pub proof fn lemma_region_added(
    builder: RomBuilder,
    count: int,
    symbols: Map<Seq<char>, i64>,
    factor: u8,
)
    requires
        builder.wf(),
        0 <= count < builder.regions().len(),
        emit_regions(builder.regions(), count + 1, symbols, factor) is Ok,
    ensures
        emit_regions(builder.regions(), count, symbols, factor) is Ok,
        end_after(builder.regions(), count) <= builder.regions()[count].address <= end_after(
            builder.regions(),
            count + 1,
        ),
        emit_regions(builder.regions(), count + 1, symbols, factor)->Ok_0.len() == end_after(
            builder.regions(),
            count + 1,
        ),
        emit_regions(builder.regions(), count + 1, symbols, factor)->Ok_0.subrange(
            0,
            end_after(builder.regions(), count),
        ) == emit_regions(builder.regions(), count, symbols, factor)->Ok_0,
        forall|j: int|
            end_after(builder.regions(), count) <= j < builder.regions()[count].address
                ==> #[trigger] emit_regions(
                builder.regions(),
                count + 1,
                symbols,
                factor,
            )->Ok_0[j] == 0,
        fixed_bytes(builder.regions()[count], factor) is Some ==> emit_regions(
            builder.regions(),
            count + 1,
            symbols,
            factor,
        )->Ok_0.subrange(
            builder.regions()[count].address as int,
            end_after(builder.regions(), count + 1),
        ) == fixed_bytes(builder.regions()[count], factor)->Some_0,
{
    let regions = builder.regions();
    lemma_regions_prefix(regions, count, count + 1, symbols, factor);
    lemma_regions_end(builder, count, symbols, factor);
    lemma_regions_end(builder, count + 1, symbols, factor);
    let before = emit_regions(regions, count, symbols, factor)->Ok_0;
    let after = emit_regions(regions, count + 1, symbols, factor)->Ok_0;
    let region = regions[count];
    let padded = resized(before, region.address as int);
    assert(padded.len() == region.address);
    assert(padded.subrange(0, before.len() as int) == before);
    if let Data::Instructions(instructions) = region.data {
        lemma_emit_positions(instructions@, instructions@.len() as int, padded, symbols);
    }
    assert(after.subrange(0, region.address as int) == padded);
    assert(after.subrange(0, before.len() as int) == before);
    assert forall|j: int| before.len() <= j < region.address implies #[trigger] after[j] == 0 by {
        assert(after[j] == padded[j]);
    }
    if fixed_bytes(region, factor) is Some {
        assert(after.subrange(region.address as int, after.len() as int) == fixed_bytes(
            region,
            factor,
        )->Some_0);
    }
}

/// Regions that are written later leave the image as it is: the image
/// after the first `count` regions is the start of the image after
/// `more` regions.
pub proof fn lemma_image_kept(
    builder: RomBuilder,
    count: int,
    more: int,
    symbols: Map<Seq<char>, i64>,
    factor: u8,
)
    requires
        builder.wf(),
        0 <= count <= more <= builder.regions().len(),
        emit_regions(builder.regions(), more, symbols, factor) is Ok,
    ensures
        emit_regions(builder.regions(), count, symbols, factor) is Ok,
        end_after(builder.regions(), count) <= end_after(builder.regions(), more),
        emit_regions(builder.regions(), more, symbols, factor)->Ok_0.len() == end_after(
            builder.regions(),
            more,
        ),
        emit_regions(builder.regions(), more, symbols, factor)->Ok_0.subrange(
            0,
            end_after(builder.regions(), count),
        ) == emit_regions(builder.regions(), count, symbols, factor)->Ok_0,
    decreases more - count,
{
    let regions = builder.regions();
    lemma_regions_end(builder, more, symbols, factor);
    if count < more {
        lemma_region_added(builder, more - 1, symbols, factor);
        lemma_image_kept(builder, count, more - 1, symbols, factor);
        lemma_regions_end(builder, count, symbols, factor);
        let last = emit_regions(regions, more, symbols, factor)->Ok_0;
        let before = emit_regions(regions, more - 1, symbols, factor)->Ok_0;
        assert(0 <= end_after(regions, count) <= before.len() <= last.len());
        assert(last.subrange(0, end_after(regions, count)) == last.subrange(
            0,
            before.len() as int,
        ).subrange(0, end_after(regions, count)));
    } else {
        let last = emit_regions(regions, more, symbols, factor)->Ok_0;
        assert(last.subrange(0, last.len() as int) == last);
    }
}

/// The regions in the image after all regions are written: the
/// preamble, the header and every block of data stand in it at their
/// addresses.
pub proof fn lemma_region_placed(
    builder: RomBuilder,
    region: int,
    symbols: Map<Seq<char>, i64>,
    factor: u8,
)
    requires
        builder.wf(),
        0 <= region < builder.regions().len(),
        emit_regions(builder.regions(), builder.regions().len() as int, symbols, factor) is Ok,
        fixed_bytes(builder.regions()[region], factor) is Some,
    ensures
        0 <= builder.regions()[region].address <= builder.regions()[region].end()
            <= emit_regions(
            builder.regions(),
            builder.regions().len() as int,
            symbols,
            factor,
        )->Ok_0.len(),
        emit_regions(
            builder.regions(),
            builder.regions().len() as int,
            symbols,
            factor,
        )->Ok_0.subrange(
            builder.regions()[region].address as int,
            builder.regions()[region].end(),
        ) == fixed_bytes(builder.regions()[region], factor)->Some_0,
{
    let regions = builder.regions();
    let all = regions.len() as int;
    lemma_image_kept(builder, region + 1, all, symbols, factor);
    lemma_region_added(builder, region, symbols, factor);
    let image = emit_regions(regions, all, symbols, factor)->Ok_0;
    let early = emit_regions(regions, region + 1, symbols, factor)->Ok_0;
    assert(image.subrange(regions[region].address as int, regions[region].end())
        == early.subrange(regions[region].address as int, regions[region].end()));
}

/// The gaps in the image after all regions are written: the bytes
/// before the first region and between one region and the next are
/// zero.
pub proof fn lemma_gap_is_zero(
    builder: RomBuilder,
    region: int,
    j: int,
    symbols: Map<Seq<char>, i64>,
    factor: u8,
)
    requires
        builder.wf(),
        0 <= region < builder.regions().len(),
        emit_regions(builder.regions(), builder.regions().len() as int, symbols, factor) is Ok,
        end_after(builder.regions(), region) <= j < builder.regions()[region].address,
    ensures
        0 <= j < emit_regions(
            builder.regions(),
            builder.regions().len() as int,
            symbols,
            factor,
        )->Ok_0.len(),
        emit_regions(builder.regions(), builder.regions().len() as int, symbols, factor)->Ok_0[j]
            == 0,
{
    let regions = builder.regions();
    let all = regions.len() as int;
    lemma_image_kept(builder, region + 1, all, symbols, factor);
    lemma_region_added(builder, region, symbols, factor);
    let image = emit_regions(regions, all, symbols, factor)->Ok_0;
    let early = emit_regions(regions, region + 1, symbols, factor)->Ok_0;
    lemma_regions_end(builder, region, symbols, factor);
    assert(image.subrange(0, early.len() as int)[j] == early[j]);
}

/// A round of `equ`s binds new names and leaves every binding as it was.
pub proof fn lemma_round_extends(
    regions: Seq<DataHolder>,
    pending: Seq<(usize, usize)>,
    count: int,
    symbols: Map<Seq<char>, i64>,
)
    requires
        equ_round(regions, pending, count, symbols) is Ok,
    ensures
        forall|name: Seq<char>|
            #![trigger symbols.contains_key(name)]
            symbols.contains_key(name) ==> equ_round(
                regions,
                pending,
                count,
                symbols,
            )->Ok_0.0.contains_key(name) && equ_round(regions, pending, count, symbols)->Ok_0.0[name]
                == symbols[name],
    decreases count,
{
    if count > 0 {
        assert(equ_round(regions, pending, count - 1, symbols) is Ok);
        lemma_round_extends(regions, pending, count - 1, symbols);
        let before = equ_round(regions, pending, count - 1, symbols)->Ok_0.0;
        let after = equ_round(regions, pending, count, symbols)->Ok_0.0;
        assert forall|name: Seq<char>| #[trigger]
            symbols.contains_key(name) implies after.contains_key(name) && after[name]
            == symbols[name] by {
            assert(before.contains_key(name) && before[name] == symbols[name]);
        }
    }
}

/// Resolving the `equ`s binds new names and leaves every binding as it
/// was: no `equ` takes the place of a label.
pub proof fn lemma_resolve_extends(
    regions: Seq<DataHolder>,
    pending: Seq<(usize, usize)>,
    symbols: Map<Seq<char>, i64>,
)
    requires
        resolve(regions, pending, symbols) is Ok,
    ensures
        forall|name: Seq<char>|
            #![trigger symbols.contains_key(name)]
            symbols.contains_key(name) ==> resolve(regions, pending, symbols)->Ok_0.contains_key(
                name,
            ) && resolve(regions, pending, symbols)->Ok_0[name] == symbols[name],
    decreases pending.len(),
{
    if pending.len() > 0 {
        let round = equ_round(regions, pending, pending.len() as int, symbols)->Ok_0;
        lemma_round_extends(regions, pending, pending.len() as int, symbols);
        lemma_resolve_extends(regions, round.1, round.0);
        let table = resolve(regions, pending, symbols)->Ok_0;
        assert forall|name: Seq<char>| #[trigger]
            symbols.contains_key(name) implies table.contains_key(name) && table[name]
            == symbols[name] by {
            assert(round.0.contains_key(name) && round.0[name] == symbols[name]);
            assert(table.contains_key(name) && table[name] == round.0[name]);
        }
    }
}

/// In the table that the ROM is assembled with, every label is bound
/// to the length of the image at the moment at which the instruction
/// behind the label is emitted, that is to the address of the next byte.
pub proof fn lemma_label_positions(
    builder: RomBuilder,
    region: int,
    line: int,
    table: Map<Seq<char>, i64>,
    factor: u8,
)
    requires
        builder.wf(),
        0 <= region < builder.regions().len(),
        builder.regions()[region].data is Instructions,
        0 <= line < builder.regions()[region].data->Instructions_0@.len(),
        builder.regions()[region].data->Instructions_0@[line] is Label,
        resolve(
            builder.regions(),
            all_equs(builder.regions(), builder.regions().len() as int),
            builder.symbols(),
        ) == Ok::<Map<Seq<char>, i64>, crate::assembly::Failure>(table),
        emit_regions(builder.regions(), builder.regions().len() as int, table, factor) is Ok,
    ensures
        table.contains_key(builder.regions()[region].data->Instructions_0@[line]->Label_0@),
        emit_regions(builder.regions(), region, table, factor) is Ok,
        emit_instructions(
            builder.regions()[region].data->Instructions_0@,
            line,
            resized(
                emit_regions(builder.regions(), region, table, factor)->Ok_0,
                builder.regions()[region].address as int,
            ),
            table,
        ) is Ok,
        emit_instructions(
            builder.regions()[region].data->Instructions_0@,
            line,
            resized(
                emit_regions(builder.regions(), region, table, factor)->Ok_0,
                builder.regions()[region].address as int,
            ),
            table,
        )->Ok_0.len() == table[builder.regions()[region].data->Instructions_0@[line]->Label_0@],
{
    let regions = builder.regions();
    let instructions = regions[region].data->Instructions_0@;
    let name = instructions[line]->Label_0;
    // the label is bound to its address, and stays so
    assert(regions[region].labels_bound(builder.symbols())) by {
        reveal(RomBuilder::wf);
    }
    assert(builder.symbols().contains_key(name@));
    lemma_resolve_extends(regions, all_equs(regions, regions.len() as int), builder.symbols());
    // the image grows up to the instruction by the lengths before it
    lemma_regions_prefix(regions, region, regions.len() as int, table, factor);
    lemma_regions_prefix(regions, region + 1, regions.len() as int, table, factor);
    let before = emit_regions(regions, region, table, factor)->Ok_0;
    let padded = resized(before, regions[region].address as int);
    lemma_emit_prefix(instructions, line, instructions.len() as int, padded, table);
    lemma_emit_positions(instructions, line, padded, table);
}

/// The regions in the ROM: the preamble, the header and every block of
/// data stand in the ROM that a builder assembles at their addresses,
/// the header with the size factor that the builder chose. (A region
/// lies within the ROM unless a size factor that was given as data cuts
/// the ROM short.)
pub proof fn lemma_regions_in_image(builder: RomBuilder, image: Seq<u8>, region: int)
    requires
        builder.wf(),
        builder.compiled() == Ok::<Seq<u8>, crate::assembly::Failure>(image),
        0 <= region < builder.regions().len(),
        builder.regions()[region].end() <= image.len(),
        fixed_bytes(
            builder.regions()[region],
            size_factor(builder.cursor() as int)->Some_0,
        ) is Some,
    ensures
        size_factor(builder.cursor() as int) is Some,
        image.subrange(
            builder.regions()[region].address as int,
            builder.regions()[region].end(),
        ) == fixed_bytes(
            builder.regions()[region],
            size_factor(builder.cursor() as int)->Some_0,
        )->Some_0,
{
    let regions = builder.regions();
    let factor = size_factor(builder.cursor() as int)->Some_0;
    let table = resolve(regions, all_equs(regions, regions.len() as int), builder.symbols())->Ok_0;
    let emitted = emit_regions(regions, regions.len() as int, table, factor)->Ok_0;
    lemma_region_placed(builder, region, table, factor);
    let size = rom_size(emitted[0x0148] as int);
    reveal_with_fuel(rom_size, 10);
    assert(image == resized(emitted, size));
    let from = regions[region].address as int;
    let to = regions[region].end();
    assert(0 <= from <= to <= emitted.len() && to <= image.len());
    assert forall|k: int| 0 <= k < to implies image[k] == emitted[k] by {
        if size <= emitted.len() {
            assert(image == emitted.subrange(0, size));
        }
    }
    assert(image.subrange(from, to) =~= emitted.subrange(from, to));
}

/// The header in the image: where a builder holds a header, the ROM
/// that it assembles holds the bytes of that header from 0x0104 on, with
/// the size factor that the builder chose. The logo stands from 0x0104
/// to 0x0133, and the sum of the bytes from 0x0134 to 0x014C, the
/// checksum at 0x014D and 0x19 is a multiple of 256.
pub proof fn lemma_header_in_image(builder: RomBuilder, image: Seq<u8>, header: int)
    requires
        builder.wf(),
        builder.compiled() == Ok::<Seq<u8>, crate::assembly::Failure>(image),
        0 <= header < builder.regions().len(),
        builder.regions()[header].data is Header,
    ensures
        size_factor(builder.cursor() as int) is Some,
        image.len() >= 0x0150,
        image.subrange(0x0104, 0x0150) == builder.regions()[header].data->Header_0.bytes(
            size_factor(builder.cursor() as int)->Some_0,
        ),
        image.subrange(0x0104, 0x0134) == logo(),
        (byte_sum(image.subrange(0x0134, 0x014D)) + image[0x014D] + 0x19) % 256 == 0,
{
    let regions = builder.regions();
    let factor = size_factor(builder.cursor() as int)->Some_0;
    let table = resolve(regions, all_equs(regions, regions.len() as int), builder.symbols())->Ok_0;
    let emitted = emit_regions(regions, regions.len() as int, table, factor)->Ok_0;
    let bytes = regions[header].data->Header_0.bytes(factor);
    assert(regions[header].valid()) by {
        reveal(RomBuilder::wf);
    }
    regions[header].data->Header_0.lemma_bytes_shape(factor);
    assert(fixed_bytes(regions[header], factor) == Some(bytes));
    assert(regions[header].end() == 0x0150);
    lemma_region_placed(builder, header, table, factor);
    assert(emitted.subrange(0x0104, 0x0150) == bytes);
    assert(emitted[0x0148] == bytes[0x44]);
    reveal_with_fuel(rom_size, 10);
    assert(image.subrange(0x0104, 0x0150) == emitted.subrange(0x0104, 0x0150));
    assert(image.subrange(0x0104, 0x0134) == bytes.subrange(0, 0x30));
    assert(image.subrange(0x0134, 0x014D) == bytes.subrange(0x30, 0x49));
    assert(image[0x014D] == bytes[0x49]);
}

/// Where a builder holds a header, the length of the ROM that it
/// assembles is 32 KiB doubled `k` times, where `k` is the
/// least factor from 0 to 8 whose ROM holds everything up to the address
/// of the builder; and every byte behind the last region is zero.
pub proof fn lemma_padding(builder: RomBuilder, image: Seq<u8>, header: int)
    requires
        builder.wf(),
        builder.compiled() == Ok::<Seq<u8>, crate::assembly::Failure>(image),
        0 <= header < builder.regions().len(),
        builder.regions()[header].data is Header,
    ensures
        size_factor(builder.cursor() as int) is Some,
        image.len() == rom_size(size_factor(builder.cursor() as int)->Some_0 as int),
        builder.cursor() <= image.len(),
        size_factor(builder.cursor() as int)->Some_0 > 0 ==> builder.cursor() > rom_size(
            size_factor(builder.cursor() as int)->Some_0 - 1,
        ),
        builder.regions().last().end() <= builder.cursor(),
        forall|i: int| builder.regions().last().end() <= i < image.len() ==> image[i] == 0,
{
    let regions = builder.regions();
    let factor = size_factor(builder.cursor() as int)->Some_0;
    let table = resolve(regions, all_equs(regions, regions.len() as int), builder.symbols())->Ok_0;
    let emitted = emit_regions(regions, regions.len() as int, table, factor)->Ok_0;
    let bytes = regions[header].data->Header_0.bytes(factor);
    lemma_size_factor_least(builder.cursor() as int);
    lemma_regions_end(builder, regions.len() as int, table, factor);
    assert(regions[header].valid()) by {
        reveal(RomBuilder::wf);
    }
    regions[header].data->Header_0.lemma_bytes_shape(factor);
    assert(fixed_bytes(regions[header], factor) == Some(bytes));
    assert(regions[header].end() == 0x0150);
    lemma_region_placed(builder, header, table, factor);
    assert(emitted.subrange(0x0104, 0x0150) == bytes);
    assert(emitted[0x0148] == bytes[0x44]);
}

} // verus!
