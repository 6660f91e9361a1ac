//! The builder that lays out a ROM and assembles it.

use crate::assembly::{
    assembled, choose_size_factor, collect_equs, finish, resolve_equs, write_regions, Failure,
};
use crate::ast::{ExprRunError, Instruction};
use crate::audio::{
    audio_data, audio_text, canonical_audio_lines, canonical_instructions, generate_audio_data,
    parse_audio_text, AudioError, AudioLine,
};
use crate::constants::{bank_of, in_bank};
use crate::encoder::WriteError;
use crate::header::{CartridgeType, Header, HEADER_END, HEADER_START};
use crate::parser::{canonical_line, instructions_of, lines, parse_lines, terminated};
use crate::symbols::SymbolTable;
use crate::tiles::{image_to_tiles, tiles_of, Image};
use vstd::prelude::*;
use vstd::string::{StringExecFns, StringSliceAdditionalSpecFns};

verus! {

/// A color of a modern image, which a color map sends to one of the four
/// shades of the Game Boy.
#[derive(Debug, Clone, Copy, Eq, PartialEq, Hash)]
pub struct Color {
    pub red: u8,
    pub green: u8,
    pub blue: u8,
}

impl Color {
    pub fn new(red: u8, green: u8, blue: u8) -> (color: Color)
        ensures
            color == (Color { red, green, blue }),
    {
        Color { red, green, blue }
    }
}

/// What a region of the ROM holds.
#[derive(Clone, PartialEq, Debug)]
pub enum Data {
    Instructions(Vec<Instruction>),
    Binary(Vec<u8>),
    Header(Header),
    DummyInterruptsAndJumps,
}

/// Where the data of a region came from; error messages name it.
#[derive(PartialEq, Debug)]
pub enum DataSource {
    AsmFile(String),
    AudioFile(String),
    AudioPlayer,
    Code,
}

impl Clone for DataSource {
    fn clone(&self) -> (copy: DataSource)
        ensures
            copy == *self,
    {
        match self {
            DataSource::AsmFile(name) => DataSource::AsmFile(name.clone()),
            DataSource::AudioFile(name) => DataSource::AudioFile(name.clone()),
            DataSource::AudioPlayer => DataSource::AudioPlayer,
            DataSource::Code => DataSource::Code,
        }
    }
}

impl DataSource {
    /// The words that describe the source.
    pub open spec fn describes(self) -> Seq<char> {
        match self {
            DataSource::Code => "data generated by rust code"@,
            DataSource::AudioPlayer => "instructions generated by the built-in ggbasm audio player"@,
            DataSource::AudioFile(name) => "instructions generated by audio file: "@ + name@,
            DataSource::AsmFile(name) => "instructions generated by asm file "@ + name@,
        }
    }

    pub fn description(&self) -> (text: String)
        ensures
            text@ == self.describes(),
    {
        match self {
            DataSource::Code => String::from_str("data generated by rust code"),
            DataSource::AudioPlayer => String::from_str(
                "instructions generated by the built-in ggbasm audio player",
            ),
            DataSource::AudioFile(name) => String::from_str(
                "instructions generated by audio file: ",
            ).concat(name.as_str()),
            DataSource::AsmFile(name) => String::from_str(
                "instructions generated by asm file ",
            ).concat(name.as_str()),
        }
    }
}

/// A region of the ROM: its data, and the address within the whole ROM at
/// which the data starts.
#[derive(Clone, PartialEq, Debug)]
pub struct DataHolder {
    pub data: Data,
    pub source: DataSource,
    pub address: u32,
}

/// Why the ROM could not be built.
#[derive(Clone, PartialEq, Debug)]
pub enum BuildError {
    /// Data that belongs at `expected` was added when the builder stood at
    /// `actual`.
    WrongAddress { expected: u32, actual: u32 },
    /// The title of the header has more than 16 bytes.
    TitleTooLong,
    /// The title of the header has 16 bytes, which leaves no room for the
    /// color support that the header declares.
    TitleTooLongForColor,
    /// The licence of the header has more than 2 bytes.
    LicenceTooLong,
    /// The identifier of a block of data is bound already.
    IdentifierAlreadyUsed { identifier: String },
    /// The label on this line is bound already.
    IdentifierUsedTwice { identifier: String, source: DataSource, line: usize },
    /// The data would end in a later bank than it starts in.
    CrossesBank,
    /// The address lies behind the address of the builder.
    BackwardAdvance,
    /// The instruction on this line has no length where it stands: it is a
    /// block of more than 0xFFFF bytes, or advances to an address that
    /// lies behind.
    NoLength { source: DataSource, line: usize },
    /// The line did not parse.
    InvalidInstruction { source: DataSource, line: usize },
    /// The audio text or the audio lines are not in order.
    Audio { source: DataSource, error: AudioError },
    /// Nothing was added to the builder.
    Empty,
    /// The ROM is larger than 8 MiB, the most that any cartridge holds.
    RomTooBig { size: u32 },
    /// The ROM ends before the header does.
    RomTooSmall { size: usize },
    /// The ROM size factor at 0x0148 stands for more than 8 MiB.
    SizeFactorTooBig { factor: u8 },
    /// The cartridge type at 0x0147 cannot address a ROM of the size that
    /// the factor at 0x0148 stands for.
    CartridgeTooSmall { cartridge: CartridgeType, factor: u8 },
    /// The `equ` on this line is declared twice, or its name is a label.
    DeclaredTwice { identifier: String, source: DataSource, line: usize },
    /// The expression of the `equ` on this line has no value.
    Equ { source: DataSource, line: usize, error: ExprRunError },
    /// The `equ` on this line uses an identifier that nothing declares.
    Undeclared { identifier: String, source: DataSource, line: usize },
    /// The constants that are left depend on each other in a circle.
    CyclicDependency { identifiers: Vec<String> },
    /// The instruction on this line could not be encoded.
    Write { source: DataSource, line: usize, error: WriteError },
    /// The address does not fit 32 bits.
    AddressOutOfRange,
    /// The project has no main file of assembly text.
    NoMainFile,
    /// A pixel of an image has a color that the color map does not hold.
    UnmappedColor { color: Color },
    /// The image does not hold as many pixels as its width and height
    /// say.
    BadImage,
}

/// The number of bytes of the block that `add_basic_interrupts_and_jumps`
/// installs.
pub const PREAMBLE_SIZE: u32 = 0x0104;

/// The address after the first `count` of the instructions, when the first
/// one starts at `start`.
pub open spec fn end_of(instructions: Seq<Instruction>, count: int, start: int) -> int
    decreases count,
{
    if count <= 0 {
        start
    } else {
        let position = end_of(instructions, count - 1, start);
        position + instructions[count - 1].byte_length(in_bank(position))
    }
}

impl Data {
    /// The number of bytes that the data takes when it starts at
    /// `address`.
    pub open spec fn size(self, address: int) -> int {
        match self {
            Data::Instructions(instructions) => end_of(
                instructions@,
                instructions@.len() as int,
                address,
            ) - address,
            Data::Binary(bytes) => bytes@.len() as int,
            Data::Header(_) => HEADER_END - HEADER_START,
            Data::DummyInterruptsAndJumps => PREAMBLE_SIZE as int,
        }
    }
}

impl DataHolder {
    /// The address of the first byte behind the region.
    pub open spec fn end(self) -> int {
        self.address + self.data.size(self.address as int)
    }

    /// Whether the region is one that the builder accepts: a header fits
    /// its fields and stands at 0x0104, the preamble stands at 0, and the
    /// lengths of instructions are defined.
    pub open spec fn valid(self) -> bool {
        match self.data {
            Data::Header(header) => self.address == HEADER_START && header.fits(),
            Data::DummyInterruptsAndJumps => self.address == 0,
            Data::Binary(_) => true,
            Data::Instructions(instructions) => forall|k: int|
                0 <= k < instructions@.len() ==> (#[trigger] instructions@[k]).has_length(
                    in_bank(end_of(instructions@, k, self.address as int)),
                ),
        }
    }

    /// Whether `symbols` binds every label of the region to the address
    /// at which the instruction behind the label starts.
    pub open spec fn labels_bound(self, symbols: Map<Seq<char>, i64>) -> bool {
        match self.data {
            Data::Instructions(instructions) => forall|k: int|
                0 <= k < instructions@.len() ==> ((#[trigger] instructions@[k]) matches Instruction::Label(
                    name,
                ) ==> symbols.contains_key(name@) && symbols[name@] == end_of(
                    instructions@,
                    k,
                    self.address as int,
                )),
            _ => true,
        }
    }
}

/// The names of the labels among the first `count` instructions, in
/// their order.
pub open spec fn labels_among(instructions: Seq<Instruction>, count: int) -> Seq<Seq<char>>
    decreases count,
{
    if count <= 0 {
        Seq::empty()
    } else {
        match instructions[count - 1] {
            Instruction::Label(name) => labels_among(instructions, count - 1).push(name@),
            _ => labels_among(instructions, count - 1),
        }
    }
}

/// The names of the labels among the instructions, in their order.
pub fn label_names(instructions: &Vec<Instruction>) -> (names: Vec<String>)
    ensures
        names@.len() == labels_among(instructions@, instructions@.len() as int).len(),
        forall|k: int|
            0 <= k < names@.len() ==> (#[trigger] names@[k])@ == labels_among(
                instructions@,
                instructions@.len() as int,
            )[k],
{
    let mut names: Vec<String> = Vec::new();
    let mut i: usize = 0;
    while i < instructions.len()
        invariant
            i <= instructions@.len(),
            names@.len() == labels_among(instructions@, i as int).len(),
            forall|k: int|
                0 <= k < names@.len() ==> (#[trigger] names@[k])@ == labels_among(
                    instructions@,
                    i as int,
                )[k],
        decreases instructions@.len() - i,
    {
        if let Instruction::Label(name) = &instructions[i] {
            names.push(name.clone());
        }
        i += 1;
    }
    names
}

/// Why a list of instructions cannot be laid out.
pub enum LayoutFault {
    /// The label at this index is bound already.
    UsedTwice(int),
    /// The instruction at this index has no length where it stands.
    NoLength(int),
    /// The instructions do not end in the bank in which they start.
    CrossesBank,
}

/// The labels among the first `count` instructions, each with the
/// address at which it stands when the first instruction starts at
/// `start`.
pub open spec fn labels_of(instructions: Seq<Instruction>, count: int, start: int) -> Map<
    Seq<char>,
    i64,
>
    decreases count,
{
    if count <= 0 {
        Map::empty()
    } else {
        match instructions[count - 1] {
            Instruction::Label(name) => labels_of(instructions, count - 1, start).insert(
                name@,
                end_of(instructions, count - 1, start) as i64,
            ),
            _ => labels_of(instructions, count - 1, start),
        }
    }
}

/// Whether the instruction with the index `index` is a label that is
/// bound already: in `known`, or as a label before it.
pub open spec fn used_twice(
    instructions: Seq<Instruction>,
    index: int,
    known: Map<Seq<char>, i64>,
) -> bool {
    instructions[index] matches Instruction::Label(name) && (known.contains_key(name@)
        || labels_of(instructions, index, 0).contains_key(name@))
}

/// The index of the first label among the first `count` instructions
/// that is bound already, wherever it stands.
pub open spec fn first_used_twice(
    instructions: Seq<Instruction>,
    count: int,
    known: Map<Seq<char>, i64>,
) -> Option<int>
    decreases count,
{
    if count <= 0 {
        None
    } else {
        match first_used_twice(instructions, count - 1, known) {
            Some(index) => Some(index),
            None => if used_twice(instructions, count - 1, known) {
                Some(count - 1)
            } else {
                None
            },
        }
    }
}

/// The index of the first among the first `count` instructions that has
/// no length where it stands.
pub open spec fn first_without_length(
    instructions: Seq<Instruction>,
    count: int,
    start: int,
) -> Option<int>
    decreases count,
{
    if count <= 0 {
        None
    } else {
        match first_without_length(instructions, count - 1, start) {
            Some(index) => Some(index),
            None => if !instructions[count - 1].has_length(
                in_bank(end_of(instructions, count - 1, start)),
            ) {
                Some(count - 1)
            } else {
                None
            },
        }
    }
}

/// Lays out the first `count` instructions from `start` on and gives the
/// labels among them with their addresses; or says why they cannot be
/// laid out. The whole list is walked before anything is refused: the
/// first label that is bound already is reported, wherever it stands;
/// where there is none, the first instruction that has no length where
/// it stands; and where there is none, it is an error if the
/// instructions do not end in the bank in which they start.
pub open spec fn layout(
    instructions: Seq<Instruction>,
    count: int,
    start: int,
    known: Map<Seq<char>, i64>,
) -> Result<Map<Seq<char>, i64>, LayoutFault> {
    match first_used_twice(instructions, count, known) {
        Some(index) => Err(LayoutFault::UsedTwice(index)),
        None => match first_without_length(instructions, count, start) {
            Some(index) => Err(LayoutFault::NoLength(index)),
            None => if bank_of(end_of(instructions, count, start)) != bank_of(start) {
                Err(LayoutFault::CrossesBank)
            } else {
                Ok(labels_of(instructions, count, start))
            },
        },
    }
}

impl BuildError {
    /// Whether the error is the one that reports `fault` for instructions
    /// that came from `source`. Lines are counted from 1.
    pub open spec fn reports(
        self,
        fault: LayoutFault,
        instructions: Seq<Instruction>,
        source: DataSource,
    ) -> bool {
        match fault {
            LayoutFault::UsedTwice(index) => instructions[index] matches Instruction::Label(name)
                && self == (BuildError::IdentifierUsedTwice {
                identifier: name,
                source,
                line: (index + 1) as usize,
            }),
            LayoutFault::NoLength(index) => self == (BuildError::NoLength {
                source,
                line: (index + 1) as usize,
            }),
            LayoutFault::CrossesBank => self == BuildError::CrossesBank,
        }
    }
}

/// The address within the whole ROM of `address` within the bank
/// `rom_bank`.
pub open spec fn absolute_address(rom_bank: u32, address: u32) -> int {
    address + rom_bank * 0x4000
}

/// Keeps track of a ROM as it is put together.
///
/// Data is added at the address at which the builder stands, and the
/// address moves on behind it. The address can also be moved on by hand,
/// never back; the gap is filled with zeroes.
pub struct RomBuilder {
    data: Vec<DataHolder>,
    address: u32,
    constants: SymbolTable,
}

impl RomBuilder {
    /// The regions that were added, in the order in which they were added.
    pub closed spec fn regions(self) -> Seq<DataHolder> {
        self.data@
    }

    /// The address at which the builder stands.
    pub closed spec fn cursor(self) -> u32 {
        self.address
    }

    /// The identifiers that are bound so far.
    pub closed spec fn symbols(self) -> Map<Seq<char>, i64> {
        self.constants@
    }

    /// The invariant of the builder: the regions are valid, they follow
    /// each other in ascending order without overlap, the last one ends at
    /// or before the address of the builder, and every label is bound to
    /// its address.
    #[verifier::opaque]
    pub open spec fn wf(self) -> bool {
        &&& forall|i: int|
            0 <= i < self.regions().len() ==> (#[trigger] self.regions()[i]).valid()
        &&& forall|i: int|
            0 <= i < self.regions().len() ==> (#[trigger] self.regions()[i]).labels_bound(
                self.symbols(),
            )
        &&& forall|i: int|
            0 <= i < self.regions().len() - 1 ==> (#[trigger] self.regions()[i]).end()
                <= self.regions()[i + 1].address
        &&& self.regions().len() > 0 ==> self.regions().last().end() <= self.cursor()
    }

    /// Creates a builder that stands at address 0 and holds nothing.
    pub fn new() -> (builder: RomBuilder)
        ensures
            builder.wf(),
            builder.cursor() == 0,
            builder.regions() == Seq::<DataHolder>::empty(),
            builder.symbols() == Map::<Seq<char>, i64>::empty(),
    {
        reveal(RomBuilder::wf);
        RomBuilder { data: Vec::new(), address: 0, constants: SymbolTable::new() }
    }

    /// The value that an identifier is bound to, if it is bound. The
    /// constants of `equ` are bound only when the ROM is compiled.
    pub fn get_constant(&self, identifier: &str) -> (value: Option<i64>)
        ensures
            value == (if self.symbols().contains_key(identifier@) {
                Some(self.symbols()[identifier@])
            } else {
                None
            }),
    {
        self.constants.get(identifier)
    }

    /// Gets the current address within the entire rom.
    pub fn get_address_global(&self) -> (address: u32)
        ensures
            address == self.cursor(),
    {
        self.address
    }

    /// Gets the current address within the current bank.
    pub fn get_address_bank(&self) -> (address: u16)
        ensures
            address == in_bank(self.cursor() as int),
    {
        (self.address % 0x4000) as u16
    }

    /// Gets the current bank.
    pub fn get_bank(&self) -> (bank: u32)
        ensures
            bank == bank_of(self.cursor() as int),
    {
        self.address / 0x4000
    }

    /// The builder `after` is this one with `region` added behind its
    /// regions.
    pub open spec fn extended_by(
        self,
        after: RomBuilder,
        region: DataHolder,
        cursor: int,
        symbols: Map<Seq<char>, i64>,
    ) -> bool {
        &&& after.regions() == self.regions().push(region)
        &&& after.cursor() == cursor
        &&& after.symbols() == symbols
    }

    /// Adds a region and moves the address on. The caller has checked
    /// that the region may stand where the builder is.
    fn push_region(&mut self, data: Data, source: DataSource, end: u32)
        requires
            old(self).wf(),
            (DataHolder { data, source, address: old(self).cursor() }).valid(),
            (DataHolder { data, source, address: old(self).cursor() }).labels_bound(
                old(self).symbols(),
            ),
            (DataHolder { data, source, address: old(self).cursor() }).end() <= end,
        ensures
            final(self).wf(),
            old(self).extended_by(
                *final(self),
                DataHolder { data, source, address: old(self).cursor() },
                end as int,
                old(self).symbols(),
            ),
    {
        reveal(RomBuilder::wf);
        let ghost before = self.data@;
        let region = DataHolder { data, source, address: self.address };
        self.data.push(region);
        self.address = end;
        assert forall|i: int| 0 <= i < self.data@.len() implies (#[trigger] self.data@[i]).valid()
            && self.data@[i].labels_bound(self.constants@) by {
            if i < before.len() {
                assert(self.data@[i] == before[i]);
            }
        }
        assert forall|i: int| 0 <= i < self.data@.len() - 1 implies (#[trigger] self.data@[i]).end()
            <= self.data@[i + 1].address by {
            assert(self.data@[i] == before[i]);
            if i + 1 < before.len() {
                assert(self.data@[i + 1] == before[i + 1]);
            }
        }
    }

    /// Adds basic interrupt and jump data from 0x0000 to 0x0103, if the
    /// builder stands at 0x0000; else the builder is left as it was.
    ///
    /// The entry point jumps to 0x0150, the interrupts return at once, and
    /// the RST commands jump to the entry point.
    pub fn try_add_basic_interrupts_and_jumps(&mut self) -> (result: Result<(), BuildError>)
        requires
            old(self).wf(),
        ensures
            final(self).wf(),
            match result {
                Ok(_) => old(self).cursor() == 0 && old(self).extended_by(
                    *final(self),
                    DataHolder {
                        data: Data::DummyInterruptsAndJumps,
                        source: DataSource::Code,
                        address: 0,
                    },
                    PREAMBLE_SIZE as int,
                    old(self).symbols(),
                ),
                Err(error) => old(self).cursor() != 0 && error == (BuildError::WrongAddress {
                    expected: 0,
                    actual: old(self).cursor(),
                }) && *final(self) == *old(self),
            },
    {
        if self.address != 0x0000 {
            return Err(BuildError::WrongAddress { expected: 0, actual: self.address });
        }
        self.push_region(Data::DummyInterruptsAndJumps, DataSource::Code, PREAMBLE_SIZE);
        Ok(())
    }

    /// Adds basic interrupt and jump data from 0x0000 to 0x0103.
    ///
    /// Returns an error if the builder does not stand at 0x0000.
    pub fn add_basic_interrupts_and_jumps(self) -> (result: Result<RomBuilder, BuildError>)
        requires
            self.wf(),
        ensures
            match result {
                Ok(after) => after.wf() && self.cursor() == 0 && self.extended_by(
                    after,
                    DataHolder {
                        data: Data::DummyInterruptsAndJumps,
                        source: DataSource::Code,
                        address: 0,
                    },
                    PREAMBLE_SIZE as int,
                    self.symbols(),
                ),
                Err(error) => self.cursor() != 0 && error == (BuildError::WrongAddress {
                    expected: 0,
                    actual: self.cursor(),
                }),
            },
    {
        let mut builder = self;
        match builder.try_add_basic_interrupts_and_jumps() {
            Ok(_) => Ok(builder),
            Err(error) => Err(error),
        }
    }

    /// Why the header cannot be added to a builder that stands at
    /// `cursor`, if it cannot.
    pub open spec fn header_fault(cursor: u32, header: Header) -> Option<BuildError> {
        if cursor != HEADER_START {
            Some(BuildError::WrongAddress { expected: HEADER_START as u32, actual: cursor })
        } else if header.title_bytes().len() > 16 {
            Some(BuildError::TitleTooLong)
        } else if header.title_bytes().len() == 16 && !(header.color_support is Unsupported) {
            Some(BuildError::TitleTooLongForColor)
        } else if header.licence_bytes().len() > 2 {
            Some(BuildError::LicenceTooLong)
        } else {
            None
        }
    }

    /// Adds the header from 0x0104 to 0x014F, if the builder stands at
    /// 0x0104 and title and licence fit their fields; else the builder is
    /// left as it was.
    pub fn try_add_header(&mut self, header: Header) -> (result: Result<(), BuildError>)
        requires
            old(self).wf(),
        ensures
            final(self).wf(),
            match RomBuilder::header_fault(old(self).cursor(), header) {
                None => result is Ok && old(self).extended_by(
                    *final(self),
                    DataHolder {
                        data: Data::Header(header),
                        source: DataSource::Code,
                        address: HEADER_START as u32,
                    },
                    HEADER_END as int,
                    old(self).symbols(),
                ),
                Some(fault) => result == Err::<(), BuildError>(fault) && *final(self) == *old(
                    self,
                ),
            },
    {
        if self.address != 0x0104 {
            return Err(BuildError::WrongAddress { expected: 0x0104, actual: self.address });
        }
        if header.title.as_str().as_bytes().len() > 0x10 {
            return Err(BuildError::TitleTooLong);
        }
        if header.title.as_str().as_bytes().len() == 0x10 && header.color_support.is_supported() {
            return Err(BuildError::TitleTooLongForColor);
        }
        if header.licence.as_str().as_bytes().len() > 2 {
            return Err(BuildError::LicenceTooLong);
        }
        self.push_region(Data::Header(header), DataSource::Code, 0x0150);
        Ok(())
    }

    /// Adds provided header data at 0x0104 to 0x014F.
    ///
    /// Returns an error if the builder does not stand at 0x0104, or if
    /// title or licence do not fit their fields.
    pub fn add_header(self, header: Header) -> (result: Result<RomBuilder, BuildError>)
        requires
            self.wf(),
        ensures
            match RomBuilder::header_fault(self.cursor(), header) {
                None => result matches Ok(after) && after.wf() && self.extended_by(
                    after,
                    DataHolder {
                        data: Data::Header(header),
                        source: DataSource::Code,
                        address: HEADER_START as u32,
                    },
                    HEADER_END as int,
                    self.symbols(),
                ),
                Some(fault) => result matches Err(error) && error == fault,
            },
    {
        let mut builder = self;
        match builder.try_add_header(header) {
            Ok(_) => Ok(builder),
            Err(error) => Err(error),
        }
    }

    /// Whether the bytes can be added under the identifier: the
    /// identifier is free, and the bytes end in the bank in which the
    /// builder stands.
    pub open spec fn accepts_bytes(self, length: int, identifier: Seq<char>) -> bool {
        &&& !self.symbols().contains_key(identifier)
        &&& bank_of(self.cursor() + length) == bank_of(self.cursor() as int)
    }

    /// Includes raw bytes in the rom and binds `identifier` to their
    /// address, so that assembly can refer to them. Where the identifier
    /// is bound already, or the bytes would cross into the next bank, the
    /// builder is left as it was.
    pub fn try_add_bytes(&mut self, bytes: Vec<u8>, identifier: &str) -> (result: Result<
        (),
        BuildError,
    >)
        requires
            old(self).wf(),
        ensures
            final(self).wf(),
            result is Ok <==> old(self).accepts_bytes(bytes@.len() as int, identifier@),
            match result {
                Ok(_) => old(self).extended_by(
                    *final(self),
                    DataHolder {
                        data: Data::Binary(bytes),
                        source: DataSource::Code,
                        address: old(self).cursor(),
                    },
                    old(self).cursor() + bytes@.len(),
                    old(self).symbols().insert(identifier@, old(self).cursor() as i64),
                ),
                Err(error) => *final(self) == *old(self) && (if old(self).symbols().contains_key(
                    identifier@,
                ) {
                    error matches BuildError::IdentifierAlreadyUsed { identifier: name } && name@
                        == identifier@
                } else {
                    error == BuildError::CrossesBank
                }),
            },
    {
        if self.constants.contains(identifier) {
            return Err(
                BuildError::IdentifierAlreadyUsed { identifier: String::from_str(identifier) },
            );
        }
        if bytes.len() >= 0x4000 {
            return Err(BuildError::CrossesBank);
        }
        let end = self.address as u64 + bytes.len() as u64;
        if end / 0x4000 != (self.address / 0x4000) as u64 {
            return Err(BuildError::CrossesBank);
        }
        let ghost before = *self;
        self.constants.insert(String::from_str(identifier), self.address as i64);
        proof {
            lemma_wf_with_more_symbols(before, *self);
        }
        self.push_region(Data::Binary(bytes), DataSource::Code, end as u32);
        Ok(())
    }

    /// Includes raw bytes in the rom. The identifier is bound to the
    /// address of the bytes, so that assembly can refer to them.
    ///
    /// Returns an error if the identifier is bound already or if the
    /// bytes cross into the next ROM bank.
    pub fn add_bytes(self, bytes: Vec<u8>, identifier: &str) -> (result: Result<
        RomBuilder,
        BuildError,
    >)
        requires
            self.wf(),
        ensures
            result is Ok <==> self.accepts_bytes(bytes@.len() as int, identifier@),
            match result {
                Ok(after) => after.wf() && self.extended_by(
                    after,
                    DataHolder {
                        data: Data::Binary(bytes),
                        source: DataSource::Code,
                        address: self.cursor(),
                    },
                    self.cursor() + bytes@.len(),
                    self.symbols().insert(identifier@, self.cursor() as i64),
                ),
                Err(error) => if self.symbols().contains_key(identifier@) {
                    error matches BuildError::IdentifierAlreadyUsed { identifier: name } && name@
                        == identifier@
                } else {
                    error == BuildError::CrossesBank
                },
            },
    {
        let mut builder = self;
        match builder.try_add_bytes(bytes, identifier) {
            Ok(_) => Ok(builder),
            Err(error) => Err(error),
        }
    }

    /// Moves the builder on to `address` within the bank `rom_bank`. This
    /// is the one way into another bank. Where the address lies behind
    /// the builder, or does not fit 32 bits, the builder is left as it
    /// was.
    pub fn try_advance_address(&mut self, rom_bank: u32, address: u32) -> (result: Result<
        (),
        BuildError,
    >)
        requires
            old(self).wf(),
        ensures
            final(self).wf(),
            final(self).regions() == old(self).regions(),
            final(self).symbols() == old(self).symbols(),
            match result {
                Ok(_) => final(self).cursor() == absolute_address(rom_bank, address)
                    && old(self).cursor() <= final(self).cursor(),
                Err(error) => *final(self) == *old(self) && (if absolute_address(rom_bank, address)
                    < old(self).cursor() {
                    error == BuildError::BackwardAdvance
                } else {
                    absolute_address(rom_bank, address) > u32::MAX && error
                        == BuildError::AddressOutOfRange
                }),
            },
    {
        reveal(RomBuilder::wf);
        let new_address = address as u64 + rom_bank as u64 * 0x4000;
        if new_address < self.address as u64 {
            Err(BuildError::BackwardAdvance)
        } else if new_address > 0xFFFF_FFFF {
            Err(BuildError::AddressOutOfRange)
        } else {
            self.address = new_address as u32;
            Ok(())
        }
    }

    /// Sets the current address and bank as specified.
    /// Returns an error if attempts to go backwards.
    /// To cross bank boundaries you need to use this function.
    pub fn advance_address(self, rom_bank: u32, address: u32) -> (result: Result<
        RomBuilder,
        BuildError,
    >)
        requires
            self.wf(),
        ensures
            match result {
                Ok(after) => after.wf() && after.regions() == self.regions() && after.symbols()
                    == self.symbols() && after.cursor() == absolute_address(rom_bank, address)
                    && self.cursor() <= after.cursor(),
                Err(error) => if absolute_address(rom_bank, address) < self.cursor() {
                    error == BuildError::BackwardAdvance
                } else {
                    absolute_address(rom_bank, address) > u32::MAX && error
                        == BuildError::AddressOutOfRange
                },
            },
    {
        let mut builder = self;
        match builder.try_advance_address(rom_bank, address) {
            Ok(_) => Ok(builder),
            Err(error) => Err(error),
        }
    }

    /// The builder `after` is this one with the instructions added as a
    /// region, where they can be laid out; `outcome` is then `None`. Where
    /// they cannot, `outcome` is the error that reports why.
    pub open spec fn instructions_added(
        self,
        after: Option<RomBuilder>,
        outcome: Option<BuildError>,
        instructions: Vec<Instruction>,
        source: DataSource,
    ) -> bool {
        match layout(
            instructions@,
            instructions@.len() as int,
            self.cursor() as int,
            self.symbols(),
        ) {
            Ok(labels) => after matches Some(builder) && outcome is None && self.extended_by(
                builder,
                DataHolder {
                    data: Data::Instructions(instructions),
                    source,
                    address: self.cursor(),
                },
                end_of(instructions@, instructions@.len() as int, self.cursor() as int),
                self.symbols().union_prefer_right(labels),
            ) && bank_of(builder.cursor() as int) == bank_of(self.cursor() as int),
            Err(fault) => outcome matches Some(error) && after is None && error.reports(
                fault,
                instructions@,
                source,
            ),
        }
    }

    /// Includes instructions in the rom: every label is bound to the
    /// address behind the instructions before it, and the address of the
    /// builder moves on by the lengths of the instructions. Where a label
    /// is bound already, an instruction has no length, or the
    /// instructions would cross into the next bank, the builder is left as
    /// it was. A label that is bound already is reported before anything
    /// else, wherever it stands among the instructions.
    pub fn try_add_instructions(
        &mut self,
        instructions: Vec<Instruction>,
        source: DataSource,
    ) -> (result: Result<(), BuildError>)
        requires
            old(self).wf(),
        ensures
            final(self).wf(),
            match result {
                Ok(_) => old(self).instructions_added(
                    Some(*final(self)),
                    None,
                    instructions,
                    source,
                ),
                Err(error) => *final(self) == *old(self) && old(self).instructions_added(
                    None,
                    Some(error),
                    instructions,
                    source,
                ),
            },
    {
        let start = self.address;
        let count = instructions.len();
        // Every instruction is looked at before anything is refused. The
        // address may run on past the end of the bank, so it is kept in a
        // type that is wide enough for every list.
        let mut cur_address: u128 = start as u128;
        let mut without_length: Option<usize> = None;
        let mut labels = SymbolTable::new();
        let mut i: usize = 0;
        while i < count
            invariant
                count == instructions@.len(),
                i <= count,
                *self == *old(self),
                self.wf(),
                start == self.cursor(),
                first_used_twice(instructions@, i as int, self.symbols()) is None,
                labels@.dom() =~= labels_of(instructions@, i as int, 0).dom(),
                match without_length {
                    Some(index) => index < i && first_without_length(
                        instructions@,
                        i as int,
                        start as int,
                    ) == Some(index as int),
                    None => first_without_length(instructions@, i as int, start as int) is None
                        && cur_address == end_of(instructions@, i as int, start as int) && start
                        <= cur_address <= start + i * 0xFFFF,
                },
                without_length is None && bank_of(cur_address as int) == bank_of(start as int)
                    ==> labels@ == labels_of(instructions@, i as int, start as int),
            decreases count - i,
        {
            proof {
                lemma_labels_anywhere(instructions@, i as int, start as int);
            }
            match &instructions[i] {
                Instruction::Label(label) => {
                    if self.constants.contains(label.as_str()) || labels.contains(label.as_str()) {
                        proof {
                            lemma_used_twice_stays(
                                instructions@,
                                i + 1,
                                count as int,
                                self.symbols(),
                            );
                        }
                        return Err(
                            BuildError::IdentifierUsedTwice {
                                identifier: label.clone(),
                                source,
                                line: i + 1,
                            },
                        );
                    }
                    // Behind the end of the address space the list is
                    // refused after the walk, and the table with it.
                    let address: i64 = if cur_address <= 0xFFFF_FFFF {
                        cur_address as i64
                    } else {
                        0
                    };
                    labels.insert(label.clone(), address);
                },
                other => {
                    if without_length.is_none() {
                        match other.checked_len((cur_address % 0x4000) as u16) {
                            Some(length) => {
                                cur_address = cur_address + length as u128;
                            },
                            None => {
                                without_length = Some(i);
                            },
                        }
                    }
                },
            }
            proof {
                lemma_labels_anywhere(instructions@, i + 1, start as int);
            }
            i += 1;
        }
        if let Some(index) = without_length {
            return Err(BuildError::NoLength { source, line: index + 1 });
        }
        if cur_address / 0x4000 != (start / 0x4000) as u128 {
            return Err(BuildError::CrossesBank);
        }
        let cur_address = cur_address as u32;
        let ghost before = *self;
        let ghost region = DataHolder { data: Data::Instructions(instructions), source, address: start };
        self.constants.absorb(labels);
        proof {
            let all = instructions@.len() as int;
            assert forall|name: Seq<char>| before.symbols().contains_key(name) implies
                self.symbols().contains_key(name) && self.symbols()[name]
                == before.symbols()[name] by {
                if labels@.contains_key(name) {
                    lemma_layout_fresh(instructions@, all, start as int, before.symbols(), name);
                }
            }
            lemma_wf_with_more_symbols(before, *self);
            assert forall|k: int| 0 <= k < all implies (#[trigger] instructions@[k]).has_length(
                in_bank(end_of(instructions@, k, start as int)),
            ) by {
                lemma_layout_length(instructions@, all, start as int, before.symbols(), k);
            }
            assert(region.valid());
            assert forall|k: int| 0 <= k < all implies ((
            #[trigger] instructions@[k]) matches Instruction::Label(name)
                ==> self.symbols().contains_key(name@) && self.symbols()[name@] == end_of(
                instructions@,
                k,
                start as int,
            )) by {
                if instructions@[k] is Label {
                    lemma_layout_label(instructions@, all, all, start as int, before.symbols(), k);
                }
            }
            assert(region.labels_bound(self.symbols()));
        }
        self.push_region(Data::Instructions(instructions), source, cur_address);
        Ok(())
    }

    /// Includes instructions that came from `source` in the rom.
    ///
    /// Returns an error if a label is bound already, if an instruction
    /// has no length where it stands, or if the instructions cross into
    /// the next ROM bank.
    pub fn add_instructions_inner(
        self,
        instructions: Vec<Instruction>,
        source: DataSource,
    ) -> (result: Result<RomBuilder, BuildError>)
        requires
            self.wf(),
        ensures
            match result {
                Ok(after) => after.wf() && self.instructions_added(
                    Some(after),
                    None,
                    instructions,
                    source,
                ),
                Err(error) => self.instructions_added(None, Some(error), instructions, source),
            },
    {
        let mut builder = self;
        match builder.try_add_instructions(instructions, source) {
            Ok(_) => Ok(builder),
            Err(error) => Err(error),
        }
    }

    /// This function is used to include instructions in the rom.
    /// Returns an error if crosses rom bank boundaries.
    pub fn add_instructions(self, instructions: Vec<Instruction>) -> (result: Result<
        RomBuilder,
        BuildError,
    >)
        requires
            self.wf(),
        ensures
            match result {
                Ok(after) => after.wf() && self.instructions_added(
                    Some(after),
                    None,
                    instructions,
                    DataSource::Code,
                ),
                Err(error) => self.instructions_added(
                    None,
                    Some(error),
                    instructions,
                    DataSource::Code,
                ),
            },
    {
        self.add_instructions_inner(instructions, DataSource::Code)
    }

    /// Includes the tiles of an image in the rom and binds `identifier`
    /// to their address. The color map says which of the four shades
    /// each color of the image becomes.
    ///
    /// Returns an error if the identifier is bound already, if the image
    /// does not hold as many pixels as its width and height say, if it
    /// holds a color that the color map does not hold, or if the tiles
    /// cross into the next ROM bank.
    pub fn add_image(
        self,
        image: &Image,
        identifier: &str,
        color_map: &Vec<(Color, u8)>,
    ) -> (result: Result<RomBuilder, BuildError>)
        requires
            self.wf(),
        ensures
            result is Ok <==> image.complete() && tiles_of(*image, color_map@) is Ok
                && self.accepts_bytes(
                tiles_of(*image, color_map@)->Ok_0.len() as int,
                identifier@,
            ),
            match result {
                Ok(after) => after.wf() && after.regions().len() == self.regions().len() + 1
                    && after.regions().last().data is Binary && after.regions().last().data->Binary_0@
                    == tiles_of(*image, color_map@)->Ok_0 && self.extended_by(
                    after,
                    after.regions().last(),
                    self.cursor() + tiles_of(*image, color_map@)->Ok_0.len(),
                    self.symbols().insert(identifier@, self.cursor() as i64),
                ) && after.regions().last().address == self.cursor(),
                Err(error) => if self.symbols().contains_key(identifier@) {
                    error matches BuildError::IdentifierAlreadyUsed { identifier: name } && name@
                        == identifier@
                } else if !image.complete() {
                    error == BuildError::BadImage
                } else if tiles_of(*image, color_map@) is Err {
                    error == (BuildError::UnmappedColor {
                        color: tiles_of(*image, color_map@)->Err_0,
                    })
                } else {
                    error == BuildError::CrossesBank
                },
            },
    {
        if self.constants.contains(identifier) {
            return Err(
                BuildError::IdentifierAlreadyUsed { identifier: String::from_str(identifier) },
            );
        }
        let pixels = image.pixels.len();
        assert(0 <= image.width * image.height <= 0xFFFF_FFFF * 0xFFFF_FFFF) by (nonlinear_arith)
            requires
                0 <= image.width <= 0xFFFF_FFFF,
                0 <= image.height <= 0xFFFF_FFFF,
        ;
        if pixels as u64 != image.width as u64 * image.height as u64 {
            return Err(BuildError::BadImage);
        }
        let bytes = match image_to_tiles(image, color_map) {
            Ok(bytes) => bytes,
            Err(color) => {
                return Err(BuildError::UnmappedColor { color });
            },
        };
        self.add_bytes(bytes, identifier)
    }

    /// The instructions are what the lines of the assembly text hold.
    pub open spec fn holds_lines(instructions: Seq<Instruction>, text: &str) -> bool {
        let parsed = lines(terminated(text.spec_bytes()), 0);
        &&& parsed.len() == instructions.len()
        &&& forall|k: int|
            0 <= k < parsed.len() ==> #[trigger] parsed[k] == Some(instructions[k].canonical())
    }

    /// The line with the index `line` is the first line of the assembly
    /// text that does not parse.
    pub open spec fn first_invalid(text: &str, line: int) -> bool {
        let parsed = lines(terminated(text.spec_bytes()), 0);
        &&& 0 <= line < parsed.len()
        &&& parsed[line] is None
        &&& forall|k: int| 0 <= k < line ==> (#[trigger] parsed[k]) is Some
    }

    /// Includes the instructions of assembly text in the rom. `source`
    /// says where the text came from.
    ///
    /// Returns an error if a line does not parse, and the errors of
    /// [`RomBuilder::add_instructions`].
    pub fn add_asm(self, text: &str, source: DataSource) -> (result: Result<
        RomBuilder,
        BuildError,
    >)
        requires
            self.wf(),
        ensures
            match result {
                Ok(after) => after.wf() && exists|instructions: Vec<Instruction>|
                    RomBuilder::holds_lines(instructions@, text) && self.instructions_added(
                        Some(after),
                        None,
                        instructions,
                        source,
                    ),
                Err(error) => (exists|line: int|
                    RomBuilder::first_invalid(text, line) && error
                        == (BuildError::InvalidInstruction { source, line: (line + 1) as usize }))
                    || (exists|instructions: Vec<Instruction>|
                    RomBuilder::holds_lines(instructions@, text) && self.instructions_added(
                        None,
                        Some(error),
                        instructions,
                        source,
                    )),
            },
    {
        let parsed = parse_lines(text);
        let ghost all = lines(terminated(text.spec_bytes()), 0);
        let ghost given = parsed@;
        let count = parsed.len();
        let instructions = match instructions_of(parsed) {
            Ok(instructions) => instructions,
            Err(index) => {
                assert(RomBuilder::first_invalid(text, index as int)) by {
                    assert forall|k: int| 0 <= k <= index implies #[trigger] all[k]
                        == canonical_line(given[k]) by {}
                }
                return Err(BuildError::InvalidInstruction { source, line: index + 1 });
            },
        };
        assert(RomBuilder::holds_lines(instructions@, text)) by {
            assert forall|j: int| 0 <= j < all.len() implies #[trigger] all[j] == Some(
                instructions@[j].canonical(),
            ) by {
                assert(all[j] == canonical_line(given[j]));
            }
        }
        self.add_instructions_inner(instructions, source)
    }

    /// Includes the audio player in the rom: the assembly text of the
    /// player is added like any other assembly text, and errors name the
    /// player as their source.
    ///
    /// The player offers `GGBASMInitAudio`, to be called once at the
    /// start, and `GGBASMStepAudio`, to be called once per frame. It
    /// expects the identifiers `GGBASMAudioEnable`, `GGBASMAudioBank`,
    /// `GGBASMAudioPointerLo`, `GGBASMAudioPointerHi` and
    /// `GGBASMAudioRest` to be declared as addresses of unused RAM.
    pub fn add_audio_player(self, player: &str) -> (result: Result<RomBuilder, BuildError>)
        requires
            self.wf(),
        ensures
            match result {
                Ok(after) => after.wf() && exists|instructions: Vec<Instruction>|
                    RomBuilder::holds_lines(instructions@, player) && self.instructions_added(
                        Some(after),
                        None,
                        instructions,
                        DataSource::AudioPlayer,
                    ),
                Err(error) => (exists|line: int|
                    RomBuilder::first_invalid(player, line) && error
                        == (BuildError::InvalidInstruction {
                        source: DataSource::AudioPlayer,
                        line: (line + 1) as usize,
                    })) || (exists|instructions: Vec<Instruction>|
                    RomBuilder::holds_lines(instructions@, player) && self.instructions_added(
                        None,
                        Some(error),
                        instructions,
                        DataSource::AudioPlayer,
                    )),
            },
    {
        self.add_asm(player, DataSource::AudioPlayer)
    }

    /// Includes audio data in the rom: the audio text is parsed, turned
    /// into the data that the audio player plays, and added as
    /// instructions. `source` says where the text came from.
    ///
    /// Returns an error if the text is no audio text, if its lines
    /// cannot be played, and the errors of
    /// [`RomBuilder::add_instructions`].
    pub fn add_audio(self, text: &str, source: DataSource) -> (result: Result<
        RomBuilder,
        BuildError,
    >)
        requires
            self.wf(),
        ensures
            match result {
                Ok(after) => after.wf() && audio_text(text.spec_bytes(), 0, 1) is Ok
                    && exists|lines: Vec<AudioLine>, instructions: Vec<Instruction>|
                    canonical_audio_lines(lines@) == audio_text(text.spec_bytes(), 0, 1)->Ok_0
                        && audio_data(lines@) == Ok::<Seq<Instruction>, AudioError>(
                        canonical_instructions(instructions@),
                    ) && self.instructions_added(Some(after), None, instructions, source),
                Err(error) => match audio_text(text.spec_bytes(), 0, 1) {
                    Err(fault) => error == (BuildError::Audio { source, error: fault }),
                    Ok(parsed) => exists|lines: Vec<AudioLine>|
                        canonical_audio_lines(lines@) == parsed && (match audio_data(lines@) {
                            Err(fault) => error == (BuildError::Audio { source, error: fault }),
                            Ok(data) => exists|instructions: Vec<Instruction>|
                                canonical_instructions(instructions@) == data
                                    && self.instructions_added(
                                    None,
                                    Some(error),
                                    instructions,
                                    source,
                                ),
                        }),
                },
            },
    {
        let lines = match parse_audio_text(text) {
            Ok(lines) => lines,
            Err(error) => {
                return Err(BuildError::Audio { source, error });
            },
        };
        let ghost parsed = lines;
        let data = match generate_audio_data(lines) {
            Ok(data) => data,
            Err(error) => {
                return Err(BuildError::Audio { source, error });
            },
        };
        self.add_instructions_inner(data, source)
    }

    /// The ROM that the builder stands for, or why there is none.
    pub open spec fn compiled(self) -> Result<Seq<u8>, Failure> {
        assembled(self.regions(), self.cursor(), self.symbols())
    }

    /// Compiles assembly and binary data into binary rom data: the
    /// constants of `equ` are resolved, every region is written at its
    /// address with zeroes in the gaps, and the image is checked against
    /// its header and padded to the size that the header declares.
    pub fn compile(self) -> (result: Result<Vec<u8>, BuildError>)
        requires
            self.wf(),
        ensures
            match self.compiled() {
                Ok(image) => result matches Ok(rom) && rom@ == image,
                Err(failure) => result matches Err(error) && error.is_failure(failure),
            },
    {
        reveal(RomBuilder::wf);
        let RomBuilder { data, address, constants } = self;
        if data.len() == 0 {
            return Err(BuildError::Empty);
        }
        let rom_size_factor = match choose_size_factor(address) {
            Some(factor) => factor,
            None => {
                return Err(BuildError::RomTooBig { size: address });
            },
        };
        let equs = collect_equs(&data);
        let mut constants = constants;
        match resolve_equs(&data, equs, &mut constants) {
            Ok(_) => {},
            Err(error) => {
                return Err(error);
            },
        }
        // generate rom
        let rom = match write_regions(&data, &constants, rom_size_factor) {
            Ok(rom) => rom,
            Err(error) => {
                return Err(error);
            },
        };
        finish(rom)
    }
}

/// Which names are labels among the instructions does not depend on
/// where the instructions start.
pub proof fn lemma_labels_anywhere(instructions: Seq<Instruction>, count: int, start: int)
    ensures
        labels_of(instructions, count, start).dom() =~= labels_of(instructions, count, 0).dom(),
    decreases count,
{
    if count > 0 {
        lemma_labels_anywhere(instructions, count - 1, start);
    }
}

/// The first label that is bound already is the first one also when
/// more instructions follow.
pub proof fn lemma_used_twice_stays(
    instructions: Seq<Instruction>,
    count: int,
    more: int,
    known: Map<Seq<char>, i64>,
)
    requires
        count <= more,
        first_used_twice(instructions, count, known) is Some,
    ensures
        first_used_twice(instructions, more, known) == first_used_twice(
            instructions,
            count,
            known,
        ),
    decreases more - count,
{
    if count < more {
        lemma_used_twice_stays(instructions, count, more - 1, known);
    }
}

/// The first instruction without a length is the first one also when
/// more instructions follow.
pub proof fn lemma_without_length_stays(
    instructions: Seq<Instruction>,
    count: int,
    more: int,
    start: int,
)
    requires
        count <= more,
        first_without_length(instructions, count, start) is Some,
    ensures
        first_without_length(instructions, more, start) == first_without_length(
            instructions,
            count,
            start,
        ),
    decreases more - count,
{
    if count < more {
        lemma_without_length_stays(instructions, count, more - 1, start);
    }
}

/// Where every instruction has a length, the address does not go back.
pub proof fn lemma_end_of_grows(instructions: Seq<Instruction>, count: int, all: int, start: int)
    requires
        0 <= count <= all,
        first_without_length(instructions, all, start) is None,
    ensures
        start <= end_of(instructions, count, start) <= end_of(instructions, all, start),
    decreases all,
{
    if count < all {
        lemma_end_of_grows(instructions, count, all - 1, start);
        instructions[all - 1].lemma_length_in_range(
            in_bank(end_of(instructions, all - 1, start)),
        );
    } else if all > 0 {
        lemma_end_of_grows(instructions, all - 1, all - 1, start);
        instructions[all - 1].lemma_length_in_range(
            in_bank(end_of(instructions, all - 1, start)),
        );
    }
}

/// Instructions that can be laid out end in the bank in which they
/// start, at or behind their start: instructions that would end in a
/// later bank are refused.
pub proof fn lemma_layout_stays_in_bank(
    instructions: Seq<Instruction>,
    count: int,
    start: int,
    known: Map<Seq<char>, i64>,
)
    requires
        0 <= count,
        0 <= start,
        layout(instructions, count, start, known) is Ok,
    ensures
        start <= end_of(instructions, count, start),
        bank_of(end_of(instructions, count, start)) == bank_of(start),
{
    lemma_end_of_grows(instructions, count, count, start);
}

/// In a layout, the instruction `k` has a length where it stands.
pub proof fn lemma_layout_length(
    instructions: Seq<Instruction>,
    count: int,
    start: int,
    known: Map<Seq<char>, i64>,
    k: int,
)
    requires
        0 <= k < count,
        layout(instructions, count, start, known) is Ok,
    ensures
        instructions[k].has_length(in_bank(end_of(instructions, k, start))),
{
    if first_without_length(instructions, k + 1, start) is Some {
        lemma_without_length_stays(instructions, k + 1, count, start);
    }
}

/// In a layout, the labels are names that were not known before.
pub proof fn lemma_layout_fresh(
    instructions: Seq<Instruction>,
    count: int,
    start: int,
    known: Map<Seq<char>, i64>,
    name: Seq<char>,
)
    requires
        first_used_twice(instructions, count, known) is None,
        labels_of(instructions, count, start).contains_key(name),
    ensures
        !known.contains_key(name),
    decreases count,
{
    if count > 0 {
        if labels_of(instructions, count - 1, start).contains_key(name) {
            lemma_layout_fresh(instructions, count - 1, start, known, name);
        }
    }
}

/// In a layout, the label `k` is bound to the address at which it
/// stands.
pub proof fn lemma_layout_label(
    instructions: Seq<Instruction>,
    count: int,
    all: int,
    start: int,
    known: Map<Seq<char>, i64>,
    k: int,
)
    requires
        0 <= k < count <= all,
        0 <= start <= u32::MAX,
        layout(instructions, all, start, known) is Ok,
        instructions[k] is Label,
    ensures
        labels_of(instructions, count, start).contains_key(instructions[k]->Label_0@),
        labels_of(instructions, count, start)[instructions[k]->Label_0@] == end_of(
            instructions,
            k,
            start,
        ),
    decreases count,
{
    if first_used_twice(instructions, count, known) is Some {
        lemma_used_twice_stays(instructions, count, all, known);
    }
    if k < count - 1 {
        lemma_layout_label(instructions, count - 1, all, start, known, k);
        lemma_labels_anywhere(instructions, count - 1, start);
    } else {
        lemma_end_of_grows(instructions, k, all, start);
        assert(bank_of(end_of(instructions, all, start)) * 0x4000 <= end_of(
            instructions,
            all,
            start,
        ) < (bank_of(start) + 1) * 0x4000);
    }
}

/// Binding more names keeps the builder well formed: every label stays
/// bound as it was.
proof fn lemma_wf_with_more_symbols(before: RomBuilder, after: RomBuilder)
    requires
        before.wf(),
        after.regions() == before.regions(),
        after.cursor() == before.cursor(),
        forall|name: Seq<char>|
            before.symbols().contains_key(name) ==> after.symbols().contains_key(name)
                && after.symbols()[name] == before.symbols()[name],
    ensures
        after.wf(),
{
    reveal(RomBuilder::wf);
    assert forall|i: int| 0 <= i < after.regions().len() implies (
    #[trigger] after.regions()[i]).labels_bound(after.symbols()) by {
        assert(before.regions()[i].labels_bound(before.symbols()));
    }
}

} // verus!
