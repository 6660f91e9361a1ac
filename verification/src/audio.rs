//! Audio data for the audio player: the text format is parsed into
//! lines, and the lines are turned into the bytes that the player reads.
//!
//! Data for each channel is written on one line, in columns of fixed
//! width behind the two hexadecimal digits of the rest:
//!
//! ```text
//! RST CHANNEL1             CHANNEL2
//! 0F  D6:2:10:7:4Y:NY:Y00  D6:2:10:7:4Y:NY
//! ```
//!
//! The fields of a channel are `AB:C:DD:E:FG:HI`: the note `A` (A-G
//! natural, a-g sharp), the octave `B`, the duty `C` (0-3), the length
//! `DD` (0-3F), the initial volume of the envelope `E` (0-F), the
//! argument of the envelope `F` (0-7), whether the envelope increases
//! `G` (Y/N), whether the length is enabled `H` (Y/N) and whether the
//! sound starts anew `I` (Y/N). The other lines are the commands `label
//! NAME`, `playfrom NAME`, `rest HH` and `disable`.

use crate::ast::{canonical_bytes, canonical_string, Expr, Instruction};
use crate::lexer::{
    lemma_boundary_behind_ascii, lemma_number_bounds, lemma_span_bounds, lemma_span_stops,
    number, read_number, skip, span, spelled, substring, Class,
};
use crate::syntax::{fit, holds_text, read_pattern, Captures};
use vstd::prelude::*;
use vstd::string::StringSliceAdditionalSpecFns;

verus! {

/// Represents a note to be played by a channel.
#[derive(Debug, Clone, Copy, PartialEq)]
pub enum Note {
    A,
    B,
    C,
    D,
    E,
    F,
    G,
}

/// Represents the state of channel 1.
#[derive(Debug, Clone, Copy, PartialEq)]
pub struct Channel1State {
    pub note: Note,
    pub sharp: bool,
    pub octave: u8,
    pub duty: u8,
    pub length: u8,
    pub envelope_initial_volume: u8,
    pub envelope_argument: u8,
    pub envelope_increase: bool,
    pub enable_length: bool,
    pub initial: bool,
    pub sweep_time: u8,
    pub sweep_increase: bool,
    pub sweep_number: u8,
}

/// Represents the state of channel 2.
#[derive(Debug, Clone, Copy, PartialEq)]
pub struct Channel2State {
    pub note: Note,
    pub sharp: bool,
    pub octave: u8,
    pub duty: u8,
    pub length: u8,
    pub envelope_initial_volume: u8,
    pub envelope_argument: u8,
    pub envelope_increase: bool,
    pub enable_length: bool,
    pub initial: bool,
}

/// Represents the state of channel 3.
#[derive(Debug, Clone, Copy, PartialEq)]
pub struct Channel3State {}

/// Represents the state of channel 4.
#[derive(Debug, Clone, Copy, PartialEq)]
pub struct Channel4State {}

/// Represents a line from the audio file.
#[derive(Debug, Clone, PartialEq)]
pub enum AudioLine {
    SetRegisters {
        rest: u8,
        ch1: Option<Channel1State>,
        ch2: Option<Channel2State>,
        ch3: Option<Channel3State>,
        ch4: Option<Channel4State>,
    },
    Label(String),
    PlayFrom(String),
    Rest(u8),
    Disable,
}

/// What is wrong with a line of audio text.
#[derive(Debug, Clone, Copy, PartialEq)]
pub enum LineFault {
    /// `rest` has no argument.
    RestNeedsArgument,
    /// The argument of `rest` is no hexadecimal number of one byte.
    RestNotHex,
    /// `label` or `playfrom` does not have one argument; the count is
    /// that of the words on the line.
    WrongArgumentCount { count: usize },
    /// The line does not start with the two hexadecimal digits of the
    /// rest.
    BadRest,
    BadNote,
    BadOctave,
    BadDuty,
    DutyTooBig { duty: u8 },
    BadLength,
    LengthTooBig { length: u8 },
    BadVolume,
    BadEnvelopeArgument,
    EnvelopeArgumentTooBig { argument: u8 },
    BadEnvelopeIncrease,
    BadEnableLength,
    BadInitial,
    /// The line holds columns for channel 3 or 4, which are not
    /// supported.
    UnsupportedChannel,
}

/// Why audio text or audio lines cannot be turned into audio data.
#[derive(Debug, Clone, PartialEq)]
pub enum AudioError {
    /// Neither `disable` nor `playfrom` follows the last label, so that
    /// the player would run on behind the data.
    NoCleanExit { label: String },
    /// There is no label and no `disable` or `playfrom`, so the data
    /// cannot be used.
    NoLabels,
    LengthTooBig { length: u8 },
    DutyTooBig { duty: u8 },
    VolumeTooBig { volume: u8 },
    EnvelopeArgumentTooBig { argument: u8 },
    /// The note does not exist in the octave: the octaves go from 3 to
    /// 8, and E and B have no sharp.
    InvalidNote { note: Note, sharp: bool, octave: u8 },
    /// The line with this number, counted from 1, is no line of audio
    /// text.
    InvalidLine { line: usize, fault: LineFault },
}

/// The frequency values of the notes C, C sharp, D, ..., B of the
/// octaves 3 to 8, as the sound registers take them.
pub open spec fn frequencies() -> Seq<u16> {
    seq![
        44u16, 156, 262, 363, 457, 547, 631, 710, 786, 854, 923, 986,
        1046, 1102, 1155, 1205, 1253, 1297, 1339, 1379, 1417, 1452, 1486, 1517,
        1546, 1575, 1602, 1627, 1650, 1673, 1694, 1714, 1732, 1750, 1767, 1783,
        1798, 1812, 1825, 1837, 1849, 1860, 1871, 1881, 1890, 1899, 1907, 1915,
        1923, 1930, 1936, 1943, 1949, 1954, 1959, 1964, 1969, 1974, 1978, 1982,
        1985, 1988, 1992, 1995, 1998, 2001, 2004, 2006, 2009, 2011, 2013, 2015,
    ]
}

/// The place of a note among the twelve semitones of its octave, which
/// starts at C; E and B have no sharp.
pub open spec fn semitone(note: Note, sharp: bool) -> Option<int> {
    match (note, sharp) {
        (Note::C, false) => Some(0int),
        (Note::C, true) => Some(1int),
        (Note::D, false) => Some(2int),
        (Note::D, true) => Some(3int),
        (Note::E, false) => Some(4int),
        (Note::F, false) => Some(5int),
        (Note::F, true) => Some(6int),
        (Note::G, false) => Some(7int),
        (Note::G, true) => Some(8int),
        (Note::A, false) => Some(9int),
        (Note::A, true) => Some(10int),
        (Note::B, false) => Some(11int),
        _ => None,
    }
}

/// The frequency value of a note, where the note exists.
pub open spec fn frequency(octave: u8, note: Note, sharp: bool) -> Option<u16> {
    if 3 <= octave <= 8 && semitone(note, sharp) is Some {
        Some(frequencies()[(octave - 3) * 12 + semitone(note, sharp)->Some_0])
    } else {
        None
    }
}

/// Every frequency value fits the eleven bits of the sound registers.
pub proof fn lemma_frequency_fits(octave: u8, note: Note, sharp: bool)
    requires
        frequency(octave, note, sharp) is Some,
    ensures
        frequency(octave, note, sharp)->Some_0 < 2048,
{
}

/// The frequency values of one octave, in the order C, C sharp, D, D
/// sharp, E, F, F sharp, G, G sharp, A, A sharp, B.
fn octave_frequency(
    note: &Note,
    sharp: bool,
    c: u16,
    c_sharp: u16,
    d: u16,
    d_sharp: u16,
    e: u16,
    f: u16,
    f_sharp: u16,
    g: u16,
    g_sharp: u16,
    a: u16,
    a_sharp: u16,
    b: u16,
) -> (value: Option<u16>)
    ensures
        value == (match semitone(*note, sharp) {
            Some(place) => Some(seq![c, c_sharp, d, d_sharp, e, f, f_sharp, g, g_sharp, a, a_sharp, b][place]),
            None => None,
        }),
{
    match (note, sharp) {
        (Note::C, false) => Some(c),
        (Note::C, true) => Some(c_sharp),
        (Note::D, false) => Some(d),
        (Note::D, true) => Some(d_sharp),
        (Note::E, false) => Some(e),
        (Note::F, false) => Some(f),
        (Note::F, true) => Some(f_sharp),
        (Note::G, false) => Some(g),
        (Note::G, true) => Some(g_sharp),
        (Note::A, false) => Some(a),
        (Note::A, true) => Some(a_sharp),
        (Note::B, false) => Some(b),
        _ => None,
    }
}

/// Converts an octave, note and sharp into the value that the Game Boy
/// uses for the frequency.
pub fn note_to_frequency(octave: u8, note: &Note, sharp: bool) -> (result: Result<u16, AudioError>)
    ensures
        match frequency(octave, *note, sharp) {
            Some(value) => result == Ok::<u16, AudioError>(value),
            None => result == Err::<u16, AudioError>(
                AudioError::InvalidNote { note: *note, sharp, octave },
            ),
        },
{
    let value = if octave == 3 {
        octave_frequency(note, sharp, 44, 156, 262, 363, 457, 547, 631, 710, 786, 854, 923, 986)
    } else if octave == 4 {
        octave_frequency(
            note,
            sharp,
            1046,
            1102,
            1155,
            1205,
            1253,
            1297,
            1339,
            1379,
            1417,
            1452,
            1486,
            1517,
        )
    } else if octave == 5 {
        octave_frequency(
            note,
            sharp,
            1546,
            1575,
            1602,
            1627,
            1650,
            1673,
            1694,
            1714,
            1732,
            1750,
            1767,
            1783,
        )
    } else if octave == 6 {
        octave_frequency(
            note,
            sharp,
            1798,
            1812,
            1825,
            1837,
            1849,
            1860,
            1871,
            1881,
            1890,
            1899,
            1907,
            1915,
        )
    } else if octave == 7 {
        octave_frequency(
            note,
            sharp,
            1923,
            1930,
            1936,
            1943,
            1949,
            1954,
            1959,
            1964,
            1969,
            1974,
            1978,
            1982,
        )
    } else if octave == 8 {
        octave_frequency(
            note,
            sharp,
            1985,
            1988,
            1992,
            1995,
            1998,
            2001,
            2004,
            2006,
            2009,
            2011,
            2013,
            2015,
        )
    } else {
        None
    };
    match value {
        Some(value) => Ok(value),
        None => Err(AudioError::InvalidNote { note: *note, sharp, octave }),
    }
}

/// The settings of a tone that channel 1 and channel 2 have in common.
pub struct Tone {
    pub note: Note,
    pub sharp: bool,
    pub octave: u8,
    pub duty: u8,
    pub length: u8,
    pub envelope_initial_volume: u8,
    pub envelope_argument: u8,
    pub envelope_increase: bool,
    pub enable_length: bool,
    pub initial: bool,
}

impl Channel1State {
    pub open spec fn tone(self) -> Tone {
        Tone {
            note: self.note,
            sharp: self.sharp,
            octave: self.octave,
            duty: self.duty,
            length: self.length,
            envelope_initial_volume: self.envelope_initial_volume,
            envelope_argument: self.envelope_argument,
            envelope_increase: self.envelope_increase,
            enable_length: self.enable_length,
            initial: self.initial,
        }
    }
}

impl Channel2State {
    pub open spec fn tone(self) -> Tone {
        Tone {
            note: self.note,
            sharp: self.sharp,
            octave: self.octave,
            duty: self.duty,
            length: self.length,
            envelope_initial_volume: self.envelope_initial_volume,
            envelope_argument: self.envelope_argument,
            envelope_increase: self.envelope_increase,
            enable_length: self.enable_length,
            initial: self.initial,
        }
    }
}

/// 1 for true and 0 for false.
pub open spec fn flag_bit(flag: bool) -> int {
    if flag {
        1
    } else {
        0
    }
}

impl Tone {
    /// Why the tone cannot be played, if it cannot.
    pub open spec fn fault(self) -> Option<AudioError> {
        if self.length > 0x3F {
            Some(AudioError::LengthTooBig { length: self.length })
        } else if self.duty > 3 {
            Some(AudioError::DutyTooBig { duty: self.duty })
        } else if self.envelope_initial_volume > 0x0F {
            Some(AudioError::VolumeTooBig { volume: self.envelope_initial_volume })
        } else if self.envelope_argument > 7 {
            Some(AudioError::EnvelopeArgumentTooBig { argument: self.envelope_argument })
        } else if frequency(self.octave, self.note, self.sharp) is None {
            Some(
                AudioError::InvalidNote { note: self.note, sharp: self.sharp, octave: self.octave },
            )
        } else {
            None
        }
    }

    /// The four pairs of a sound register and its value that play the
    /// tone, for the channel whose registers start at `first`: the duty
    /// in the two high bits over the length, counted down from 0x3F; the
    /// initial volume in the four high bits over the direction and the
    /// argument of the envelope; the low eight bits of the frequency;
    /// and the high three bits of the frequency under the bits for
    /// "length enabled" and "initial".
    pub open spec fn registers(self, first: u8) -> Seq<u8> {
        let value = frequency(self.octave, self.note, self.sharp)->Some_0;
        seq![
            first,
            (self.duty * 64 + (0x3F - self.length)) as u8,
            (first + 1) as u8,
            (self.envelope_initial_volume * 16 + flag_bit(self.envelope_increase) * 8
                + self.envelope_argument) as u8,
            (first + 2) as u8,
            (value % 256) as u8,
            (first + 3) as u8,
            (value / 256 + flag_bit(self.enable_length) * 64 + flag_bit(self.initial) * 128) as u8,
        ]
    }
}

/// Appends the register pairs of a tone.
fn push_tone(bytes: &mut Vec<u8>, first: u8, tone: &Tone) -> (result: Result<(), AudioError>)
    requires
        first <= 0xF0,
    ensures
        match tone.fault() {
            Some(error) => result == Err::<(), AudioError>(error) && final(bytes)@ == old(bytes)@,
            None => result is Ok && final(bytes)@ == old(bytes)@ + tone.registers(first),
        },
{
    // validate values
    if tone.length > 0x3f {
        return Err(AudioError::LengthTooBig { length: tone.length });
    }
    if tone.duty > 3 {
        return Err(AudioError::DutyTooBig { duty: tone.duty });
    }
    if tone.envelope_initial_volume > 0x0F {
        return Err(AudioError::VolumeTooBig { volume: tone.envelope_initial_volume });
    }
    if tone.envelope_argument > 7 {
        return Err(AudioError::EnvelopeArgumentTooBig { argument: tone.envelope_argument });
    }
    // generate register values
    let frequency = note_to_frequency(tone.octave, &tone.note, tone.sharp)?;
    proof {
        lemma_frequency_fits(tone.octave, tone.note, tone.sharp);
    }
    // make length start at 0 and higher values mean longer length
    let length = 0x3f - tone.length;
    let duty = tone.duty;
    let volume = tone.envelope_initial_volume;
    let argument = tone.envelope_argument;
    let increase: u8 = if tone.envelope_increase { 1 } else { 0 };
    let enable: u8 = if tone.enable_length { 1 } else { 0 };
    let initial: u8 = if tone.initial { 1 } else { 0 };
    let high = (frequency >> 8) as u8;

    let duty_length = (duty << 6 & 0b11000000) | length & 0b00111111;
    let envelope = (volume << 4) | (increase << 3) | (argument & 0b00000111);
    let low = (frequency & 0xFF) as u8;
    let high_flags = (high & 0b00000111) | enable << 6 | initial << 7;
    proof {
        assert(duty_length == duty * 64 + length) by (bit_vector)
            requires
                duty <= 3,
                length <= 0x3f,
                duty_length == (duty << 6 & 0b11000000u8) | length & 0b00111111u8,
        ;
        assert(envelope == volume * 16 + increase * 8 + argument) by (bit_vector)
            requires
                volume <= 0x0F,
                increase <= 1,
                argument <= 7,
                envelope == (volume << 4) | (increase << 3) | (argument & 0b00000111u8),
        ;
        assert(low == frequency % 256 && high == frequency / 256) by (bit_vector)
            requires
                frequency < 2048,
                low == (frequency & 0xFF) as u8,
                high == (frequency >> 8) as u8,
        ;
        assert(high_flags == high + enable * 64 + initial * 128) by (bit_vector)
            requires
                high < 8,
                enable <= 1,
                initial <= 1,
                high_flags == (high & 0b00000111u8) | enable << 6 | initial << 7,
        ;
    }
    // insert command/argument pairs
    bytes.push(first);
    bytes.push(duty_length);

    bytes.push(first + 1);
    bytes.push(envelope);

    bytes.push(first + 2);
    bytes.push(low);

    bytes.push(first + 3);
    bytes.push(high_flags);
    Ok(())
}

/// Whether the player can leave the first `count` lines cleanly: a
/// `disable` or a `playfrom` makes the exit clean, a label behind it
/// makes it unclean again. The label is the last one so far.
pub open spec fn exit_state(lines: Seq<AudioLine>, count: int) -> (bool, Option<String>)
    decreases count,
{
    if count <= 0 {
        (false, None)
    } else {
        let before = exit_state(lines, count - 1);
        match lines[count - 1] {
            AudioLine::Disable => (true, before.1),
            AudioLine::PlayFrom(_) => (true, before.1),
            AudioLine::Label(label) => (false, Some(label)),
            _ => before,
        }
    }
}

/// The bytes that set the registers of a line: the pairs of channel 1,
/// whose sweep register 0x10 is set to zero, the pairs of channel 2, and
/// the mark 0xFF with the rest.
pub open spec fn register_bytes(
    rest: u8,
    ch1: Option<Channel1State>,
    ch2: Option<Channel2State>,
) -> Result<Seq<u8>, AudioError> {
    let first = match ch1 {
        Some(state) => match state.tone().fault() {
            Some(error) => Err(error),
            None => Ok(seq![0x10u8, 0u8] + state.tone().registers(0x11)),
        },
        None => Ok(Seq::empty()),
    };
    match first {
        Err(error) => Err(error),
        Ok(bytes1) => match ch2 {
            Some(state) => match state.tone().fault() {
                Some(error) => Err(error),
                None => Ok(bytes1 + state.tone().registers(0x16) + seq![0xFFu8, rest]),
            },
            None => Ok(bytes1 + seq![0xFFu8, rest]),
        },
    }
}

/// The instructions of one line, in canonical form.
pub open spec fn line_instructions(line: AudioLine) -> Result<Seq<Instruction>, AudioError> {
    match line {
        AudioLine::SetRegisters { rest, ch1, ch2, ch3, ch4 } => match register_bytes(
            rest,
            ch1,
            ch2,
        ) {
            Ok(bytes) => Ok(seq![Instruction::Db(canonical_bytes(bytes))]),
            Err(error) => Err(error),
        },
        AudioLine::Rest(rest) => Ok(seq![Instruction::Db(canonical_bytes(seq![0xFFu8, rest]))]),
        AudioLine::Disable => Ok(seq![Instruction::Db(canonical_bytes(seq![0xFCu8]))]),
        AudioLine::PlayFrom(label) => Ok(
            seq![
                Instruction::Db(canonical_bytes(seq![0xFEu8])),
                Instruction::DbExpr16(Expr::Ident(canonical_string(label@))),
            ],
        ),
        AudioLine::Label(label) => Ok(seq![Instruction::Label(canonical_string(label@))]),
    }
}

/// The instructions of the first `count` lines, in canonical form.
pub open spec fn audio_instructions(lines: Seq<AudioLine>, count: int) -> Result<
    Seq<Instruction>,
    AudioError,
>
    decreases count,
{
    if count <= 0 {
        Ok(Seq::empty())
    } else {
        match audio_instructions(lines, count - 1) {
            Err(error) => Err(error),
            Ok(before) => match line_instructions(lines[count - 1]) {
                Err(error) => Err(error),
                Ok(more) => Ok(before + more),
            },
        }
    }
}

/// The audio data of the lines: they must allow a clean exit, and every
/// tone must be one that can be played.
pub open spec fn audio_data(lines: Seq<AudioLine>) -> Result<Seq<Instruction>, AudioError> {
    let (clean, label) = exit_state(lines, lines.len() as int);
    if !clean {
        match label {
            Some(label) => Err(AudioError::NoCleanExit { label }),
            None => Err(AudioError::NoLabels),
        }
    } else {
        audio_instructions(lines, lines.len() as int)
    }
}

/// The canonical forms of the instructions.
pub open spec fn canonical_instructions(instructions: Seq<Instruction>) -> Seq<Instruction> {
    Seq::new(instructions.len(), |k: int| instructions[k].canonical())
}

/// The failure of the first lines is the failure of all lines.
pub proof fn lemma_audio_fault_stays(lines: Seq<AudioLine>, count: int, more: int)
    requires
        count <= more,
        audio_instructions(lines, count) is Err,
    ensures
        audio_instructions(lines, more) == audio_instructions(lines, count),
    decreases more - count,
{
    if count < more {
        lemma_audio_fault_stays(lines, count, more - 1);
    }
}

/// Builds the bytes that set the registers of a line.
fn set_registers(rest: u8, ch1: &Option<Channel1State>, ch2: &Option<Channel2State>) -> (result:
    Result<Vec<u8>, AudioError>)
    ensures
        match register_bytes(rest, *ch1, *ch2) {
            Ok(bytes) => result matches Ok(built) && built@ == bytes,
            Err(error) => result matches Err(e) && e == error,
        },
{
    let mut bytes: Vec<u8> = Vec::new();
    if let Some(state) = ch1 {
        let tone = Tone {
            note: state.note,
            sharp: state.sharp,
            octave: state.octave,
            duty: state.duty,
            length: state.length,
            envelope_initial_volume: state.envelope_initial_volume,
            envelope_argument: state.envelope_argument,
            envelope_increase: state.envelope_increase,
            enable_length: state.enable_length,
            initial: state.initial,
        };
        if let Some(error) = check_tone(&tone) {
            return Err(error);
        }
        bytes.push(0x10);
        bytes.push(0);
        push_tone(&mut bytes, 0x11, &tone)?;
    }
    if let Some(state) = ch2 {
        let tone = Tone {
            note: state.note,
            sharp: state.sharp,
            octave: state.octave,
            duty: state.duty,
            length: state.length,
            envelope_initial_volume: state.envelope_initial_volume,
            envelope_argument: state.envelope_argument,
            envelope_increase: state.envelope_increase,
            enable_length: state.enable_length,
            initial: state.initial,
        };
        push_tone(&mut bytes, 0x16, &tone)?;
    }
    bytes.push(0xFF);
    bytes.push(rest);
    Ok(bytes)
}

/// Why the tone cannot be played, if it cannot.
fn check_tone(tone: &Tone) -> (fault: Option<AudioError>)
    ensures
        fault == tone.fault(),
{
    let mut scratch: Vec<u8> = Vec::new();
    match push_tone(&mut scratch, 0, tone) {
        Ok(_) => None,
        Err(error) => Some(error),
    }
}

/// Processes the lines into the instructions that the audio player
/// plays. Of the instructions only `Db`, `DbExpr16` and `Label` are
/// used.
pub fn generate_audio_data(lines: Vec<AudioLine>) -> (result: Result<Vec<Instruction>, AudioError>)
    ensures
        match audio_data(lines@) {
            Ok(instructions) => result matches Ok(built) && canonical_instructions(built@)
                == instructions,
            Err(error) => result matches Err(e) && e == error,
        },
{
    // Fail if a clean exit is impossible
    let mut bad_label: Option<String> = None;
    let mut clean_exit = false;
    let mut i: usize = 0;
    while i < lines.len()
        invariant
            i <= lines@.len(),
            (clean_exit, bad_label) == exit_state(lines@, i as int),
        decreases lines@.len() - i,
    {
        match &lines[i] {
            AudioLine::Disable => {
                clean_exit = true;
            },
            AudioLine::PlayFrom(_) => {
                clean_exit = true;
            },
            AudioLine::Label(label) => {
                clean_exit = false;
                bad_label = Some(label.clone());
            },
            _ => {},
        }
        i += 1;
    }
    if !clean_exit {
        return match bad_label {
            Some(label) => Err(AudioError::NoCleanExit { label }),
            None => Err(AudioError::NoLabels),
        };
    }
    let mut result: Vec<Instruction> = Vec::new();
    let mut i: usize = 0;
    assert(canonical_instructions(result@) =~= Seq::empty());
    while i < lines.len()
        invariant
            i <= lines@.len(),
            exit_state(lines@, lines@.len() as int).0,
            audio_instructions(lines@, i as int) == Ok::<Seq<Instruction>, AudioError>(
                canonical_instructions(result@),
            ),
        decreases lines@.len() - i,
    {
        let ghost before = result@;
        match &lines[i] {
            AudioLine::SetRegisters { rest, ch1, ch2, .. } => {
                match set_registers(*rest, ch1, ch2) {
                    Ok(bytes) => {
                        result.push(Instruction::Db(bytes));
                        assert(canonical_instructions(result@) =~= canonical_instructions(before)
                            + seq![Instruction::Db(canonical_bytes(bytes@))]);
                    },
                    Err(error) => {
                        proof {
                            lemma_audio_fault_stays(lines@, i + 1, lines@.len() as int);
                        }
                        return Err(error);
                    },
                }
            },
            AudioLine::Rest(rest) => {
                let mut bytes = Vec::new();
                bytes.push(0xFF);
                bytes.push(*rest);
                assert(bytes@ =~= seq![0xFFu8, *rest]);
                result.push(Instruction::Db(bytes));
                assert(canonical_instructions(result@) =~= canonical_instructions(before)
                    + seq![Instruction::Db(canonical_bytes(bytes@))]);
            },
            AudioLine::Disable => {
                let mut bytes = Vec::new();
                bytes.push(0xFC);
                assert(bytes@ =~= seq![0xFCu8]);
                result.push(Instruction::Db(bytes));
                assert(canonical_instructions(result@) =~= canonical_instructions(before)
                    + seq![Instruction::Db(canonical_bytes(bytes@))]);
            },
            AudioLine::PlayFrom(label) => {
                let mut bytes = Vec::new();
                bytes.push(0xFE);
                assert(bytes@ =~= seq![0xFEu8]);
                result.push(Instruction::Db(bytes));
                result.push(Instruction::DbExpr16(Expr::Ident(label.clone())));
                assert(canonical_instructions(result@) =~= canonical_instructions(before) + seq![
                    Instruction::Db(canonical_bytes(bytes@)),
                    Instruction::DbExpr16(Expr::Ident(canonical_string(label@))),
                ]);
            },
            AudioLine::Label(label) => {
                result.push(Instruction::Label(label.clone()));
                assert(canonical_instructions(result@) =~= canonical_instructions(before)
                    + seq![Instruction::Label(canonical_string(label@))]);
            },
        }
        assert(line_instructions(lines@[i as int]) is Ok);
        assert(canonical_instructions(result@) =~= canonical_instructions(before)
            + line_instructions(lines@[i as int])->Ok_0);
        i += 1;
    }
    Ok(result)
}


impl AudioLine {
    /// The line with its name replaced by the canonical string of the
    /// same characters.
    pub open spec fn canonical(self) -> AudioLine {
        match self {
            AudioLine::Label(name) => AudioLine::Label(canonical_string(name@)),
            AudioLine::PlayFrom(name) => AudioLine::PlayFrom(canonical_string(name@)),
            _ => self,
        }
    }
}

/// The canonical forms of the lines.
pub open spec fn canonical_audio_lines(lines: Seq<AudioLine>) -> Seq<AudioLine> {
    Seq::new(lines.len(), |k: int| lines[k].canonical())
}

/// The number of one byte that the bytes from `from` up to `to` spell
/// in hexadecimal digits, before which a plus sign may stand.
pub open spec fn hex_byte(s: Seq<u8>, from: int, to: int) -> Option<u8> {
    let digits = if 0 <= from < to && from < s.len() && s[from] == 0x2B {
        from + 1
    } else {
        from
    };
    if 0 <= digits < to <= s.len() && span(s, digits, Class::Hex, to - digits) == to && number(
        s,
        digits,
        to,
        16,
    ) <= 0xFF {
        Some(number(s, digits, to, 16) as u8)
    } else {
        None
    }
}

fn read_hex_byte(s: &Vec<u8>, from: usize, to: usize) -> (value: Option<u8>)
    requires
        from <= to <= s@.len(),
    ensures
        value == hex_byte(s@, from as int, to as int),
{
    let length = s.len();
    let digits = if from < to && s[from] == 0x2B {
        from + 1
    } else {
        from
    };
    if digits >= to {
        return None;
    }
    let end = skip(s, digits, Class::Hex, to - digits);
    proof {
        lemma_span_bounds(s@, digits as int, Class::Hex, to - digits);
    }
    if end != to {
        return None;
    }
    proof {
        lemma_number_bounds(s@, digits as int, to as int, 16);
    }
    match read_number(s, digits, to, 16, 0xFF) {
        Some(value) => Some(value as u8),
        None => None,
    }
}

/// The value of a decimal digit.
pub open spec fn decimal_digit(byte: u8) -> Option<u8> {
    if 0x30 <= byte <= 0x39 {
        Some((byte - 0x30) as u8)
    } else {
        None
    }
}

fn read_decimal_digit(byte: u8) -> (value: Option<u8>)
    ensures
        value == decimal_digit(byte),
{
    if 0x30 <= byte && byte <= 0x39 {
        Some(byte - 0x30)
    } else {
        None
    }
}

/// The value of a hexadecimal digit.
pub open spec fn hex_digit(byte: u8) -> Option<u8> {
    if 0x30 <= byte <= 0x39 {
        Some((byte - 0x30) as u8)
    } else if 0x41 <= byte <= 0x46 {
        Some((byte - 0x41 + 10) as u8)
    } else if 0x61 <= byte <= 0x66 {
        Some((byte - 0x61 + 10) as u8)
    } else {
        None
    }
}

fn read_hex_digit(byte: u8) -> (value: Option<u8>)
    ensures
        value == hex_digit(byte),
{
    if 0x30 <= byte && byte <= 0x39 {
        Some(byte - 0x30)
    } else if 0x41 <= byte && byte <= 0x46 {
        Some(byte - 0x41 + 10)
    } else if 0x61 <= byte && byte <= 0x66 {
        Some(byte - 0x61 + 10)
    } else {
        None
    }
}

/// `Y` for yes and `N` for no.
pub open spec fn switch(byte: u8) -> Option<bool> {
    if byte == 0x59 {
        Some(true)
    } else if byte == 0x4E {
        Some(false)
    } else {
        None
    }
}

fn read_switch(byte: u8) -> (value: Option<bool>)
    ensures
        value == switch(byte),
{
    if byte == 0x59 {
        Some(true)
    } else if byte == 0x4E {
        Some(false)
    } else {
        None
    }
}

/// The note that a letter names; a small letter names the sharp note.
pub open spec fn note_of(byte: u8) -> Option<(Note, bool)> {
    if byte == 0x41 {
        Some((Note::A, false))
    } else if byte == 0x42 {
        Some((Note::B, false))
    } else if byte == 0x43 {
        Some((Note::C, false))
    } else if byte == 0x44 {
        Some((Note::D, false))
    } else if byte == 0x45 {
        Some((Note::E, false))
    } else if byte == 0x46 {
        Some((Note::F, false))
    } else if byte == 0x47 {
        Some((Note::G, false))
    } else if byte == 0x61 {
        Some((Note::A, true))
    } else if byte == 0x62 {
        Some((Note::B, true))
    } else if byte == 0x63 {
        Some((Note::C, true))
    } else if byte == 0x64 {
        Some((Note::D, true))
    } else if byte == 0x65 {
        Some((Note::E, true))
    } else if byte == 0x66 {
        Some((Note::F, true))
    } else if byte == 0x67 {
        Some((Note::G, true))
    } else {
        None
    }
}

/// The note and the octave at the start of the columns of a channel.
pub open spec fn note_and_octave(s: Seq<u8>, column: int) -> Result<(Note, bool, u8), LineFault> {
    if note_of(s[column]) is None {
        Err(LineFault::BadNote)
    } else if decimal_digit(s[column + 1]) is None {
        Err(LineFault::BadOctave)
    } else {
        Ok(
            (
                note_of(s[column])->Some_0.0,
                note_of(s[column])->Some_0.1,
                decimal_digit(s[column + 1])->Some_0,
            ),
        )
    }
}

/// Reads the note, whether it is sharp, and the octave.
pub(crate) fn read_note(s: &Vec<u8>, column: usize) -> (result: Result<(Note, bool, u8), LineFault>)
    requires
        column + 2 <= s@.len(),
    ensures
        result == note_and_octave(s@, column as int),
{
    let length = s.len();
    let letter = s[column];
    let note = if letter == 0x61 || letter == 0x41 {
        Note::A
    } else if letter == 0x62 || letter == 0x42 {
        Note::B
    } else if letter == 0x63 || letter == 0x43 {
        Note::C
    } else if letter == 0x64 || letter == 0x44 {
        Note::D
    } else if letter == 0x65 || letter == 0x45 {
        Note::E
    } else if letter == 0x66 || letter == 0x46 {
        Note::F
    } else if letter == 0x67 || letter == 0x47 {
        Note::G
    } else {
        return Err(LineFault::BadNote);
    };
    let sharp = 0x61 <= letter && letter <= 0x7A;
    let octave = match read_decimal_digit(s[column + 1]) {
        Some(value) => value,
        None => {
            return Err(LineFault::BadOctave);
        },
    };
    Ok((note, sharp, octave))
}

/// The settings in the fifteen columns of a channel, which start at
/// `column`.
pub open spec fn channel(s: Seq<u8>, column: int) -> Result<Channel2State, LineFault> {
    if note_and_octave(s, column) is Err {
        Err(note_and_octave(s, column)->Err_0)
    } else if decimal_digit(s[column + 3]) is None {
        Err(LineFault::BadDuty)
    } else if decimal_digit(s[column + 3])->Some_0 > 3 {
        Err(LineFault::DutyTooBig { duty: decimal_digit(s[column + 3])->Some_0 })
    } else if hex_byte(s, column + 5, column + 7) is None {
        Err(LineFault::BadLength)
    } else if hex_byte(s, column + 5, column + 7)->Some_0 > 0x3F {
        Err(LineFault::LengthTooBig { length: hex_byte(s, column + 5, column + 7)->Some_0 })
    } else if hex_digit(s[column + 8]) is None {
        Err(LineFault::BadVolume)
    } else if decimal_digit(s[column + 10]) is None {
        Err(LineFault::BadEnvelopeArgument)
    } else if decimal_digit(s[column + 10])->Some_0 > 7 {
        Err(
            LineFault::EnvelopeArgumentTooBig { argument: decimal_digit(s[column + 10])->Some_0 },
        )
    } else if switch(s[column + 11]) is None {
        Err(LineFault::BadEnvelopeIncrease)
    } else if switch(s[column + 13]) is None {
        Err(LineFault::BadEnableLength)
    } else if switch(s[column + 14]) is None {
        Err(LineFault::BadInitial)
    } else {
        Ok(
            Channel2State {
                note: note_and_octave(s, column)->Ok_0.0,
                sharp: note_and_octave(s, column)->Ok_0.1,
                octave: note_and_octave(s, column)->Ok_0.2,
                duty: decimal_digit(s[column + 3])->Some_0,
                length: hex_byte(s, column + 5, column + 7)->Some_0,
                envelope_initial_volume: hex_digit(s[column + 8])->Some_0,
                envelope_argument: decimal_digit(s[column + 10])->Some_0,
                envelope_increase: switch(s[column + 11])->Some_0,
                enable_length: switch(s[column + 13])->Some_0,
                initial: switch(s[column + 14])->Some_0,
            },
        )
    }
}

/// Reads the settings of a channel.
pub(crate) fn read_channel2(s: &Vec<u8>, column: usize) -> (result: Result<Channel2State, LineFault>)
    requires
        column + 15 <= s@.len(),
    ensures
        result == channel(s@, column as int),
{
    let length = s.len();
    let (note, sharp, octave) = read_note(s, column)?;

    let duty = match read_decimal_digit(s[column + 3]) {
        Some(value) => value,
        None => {
            return Err(LineFault::BadDuty);
        },
    };
    if duty > 3 {
        return Err(LineFault::DutyTooBig { duty });
    }
    let length = match read_hex_byte(s, column + 5, column + 7) {
        Some(value) => value,
        None => {
            return Err(LineFault::BadLength);
        },
    };
    if length > 0x3f {
        return Err(LineFault::LengthTooBig { length });
    }
    let envelope_initial_volume = match read_hex_digit(s[column + 8]) {
        Some(value) => value,
        None => {
            return Err(LineFault::BadVolume);
        },
    };
    let envelope_argument = match read_decimal_digit(s[column + 10]) {
        Some(value) => value,
        None => {
            return Err(LineFault::BadEnvelopeArgument);
        },
    };
    if envelope_argument > 7 {
        return Err(LineFault::EnvelopeArgumentTooBig { argument: envelope_argument });
    }
    let envelope_increase = match read_switch(s[column + 11]) {
        Some(value) => value,
        None => {
            return Err(LineFault::BadEnvelopeIncrease);
        },
    };
    let enable_length = match read_switch(s[column + 13]) {
        Some(value) => value,
        None => {
            return Err(LineFault::BadEnableLength);
        },
    };
    let initial = match read_switch(s[column + 14]) {
        Some(value) => value,
        None => {
            return Err(LineFault::BadInitial);
        },
    };
    Ok(
        Channel2State {
            note,
            sharp,
            octave,
            duty,
            length,
            envelope_initial_volume,
            envelope_argument,
            envelope_increase,
            enable_length,
            initial,
        },
    )
}

/// The position of the next word from `i` on, before the end `to` of
/// the line; `to` where there is none.
pub open spec fn word_start(s: Seq<u8>, i: int, to: int) -> int {
    span(s, i, Class::Blank, to - i)
}

/// The position behind the word that starts at `i`.
pub open spec fn word_end(s: Seq<u8>, i: int, to: int) -> int {
    span(s, i, Class::NotBlank, to - i)
}

/// The number of words from `i` up to `to`.
pub open spec fn words(s: Seq<u8>, i: int, to: int) -> nat
    decreases to - i,
{
    let start = word_start(s, i, to);
    let end = word_end(s, start, to);
    if i <= start < end <= to {
        1 + words(s, end, to)
    } else {
        0
    }
}

fn count_words(s: &Vec<u8>, from: usize, to: usize) -> (count: usize)
    requires
        from <= to <= s@.len(),
    ensures
        count == words(s@, from as int, to as int),
{
    let length = s.len();
    let mut count: usize = 0;
    let mut i = from;
    loop
        invariant
            from <= i <= to <= s@.len(),
            count <= i - from,
            count + words(s@, i as int, to as int) == words(s@, from as int, to as int),
        ensures
            count == words(s@, from as int, to as int),
        decreases to - i,
    {
        let start = skip(s, i, Class::Blank, to - i);
        proof {
            lemma_span_bounds(s@, i as int, Class::Blank, to - i);
        }
        let end = skip(s, start, Class::NotBlank, to - start);
        proof {
            lemma_span_bounds(s@, start as int, Class::NotBlank, to - start);
        }
        if start < end {
            count += 1;
            i = end;
        } else {
            break ;
        }
    }
    count
}

/// Whether the word from `from` up to `to` is the command, in whatever
/// case.
pub open spec fn is_command(s: Seq<u8>, from: int, to: int, command: Seq<u8>) -> bool {
    fit(command, 0, s, from, Captures::nothing()) matches Some((_, end)) && end == to
}

fn has_command(text: &str, s: &Vec<u8>, from: usize, to: usize, command: &str) -> (found: bool)
    requires
        holds_text(s@, text),
        from <= s@.len(),
    ensures
        found == is_command(s@, from as int, to as int, command.spec_bytes()),
{
    let length = s.len();
    match read_pattern(command.as_bytes(), text, s, from) {
        Some((_, end)) => end == to,
        None => false,
    }
}

/// A line that sets registers: the rest in the first two columns, the
/// columns of channel 1 from the fifth on and those of channel 2 from
/// the 26th on. A channel whose columns are missing or blank is left as
/// it is.
pub open spec fn register_line(s: Seq<u8>, from: int, to: int) -> Result<AudioLine, LineFault> {
    let ch1 = if to - from < 23 || span(s, from + 4, Class::Blank, 19) == from + 23 {
        None
    } else {
        Some(channel(s, from + 4))
    };
    let ch2 = if to - from < 40 || span(s, from + 25, Class::Blank, 15) == from + 40 {
        None
    } else {
        Some(channel(s, from + 25))
    };
    if to - from < 2 || hex_byte(s, from, from + 2) is None {
        Err(LineFault::BadRest)
    } else if ch1 is Some && ch1->Some_0 is Err {
        Err(ch1->Some_0->Err_0)
    } else if ch2 is Some && ch2->Some_0 is Err {
        Err(ch2->Some_0->Err_0)
    } else if to - from >= 41 {
        Err(LineFault::UnsupportedChannel)
    } else {
        Ok(
            AudioLine::SetRegisters {
                rest: hex_byte(s, from, from + 2)->Some_0,
                ch1: match ch1 {
                    Some(Ok(state)) => Some(
                        Channel1State {
                            note: state.note,
                            sharp: state.sharp,
                            octave: state.octave,
                            duty: state.duty,
                            length: state.length,
                            envelope_initial_volume: state.envelope_initial_volume,
                            envelope_argument: state.envelope_argument,
                            envelope_increase: state.envelope_increase,
                            enable_length: state.enable_length,
                            initial: state.initial,
                            sweep_time: 0,
                            sweep_increase: true,
                            sweep_number: 0,
                        },
                    ),
                    _ => None,
                },
                ch2: match ch2 {
                    Some(Ok(state)) => Some(state),
                    _ => None,
                },
                ch3: None,
                ch4: None,
            },
        )
    }
}

fn read_register_line(s: &Vec<u8>, from: usize, to: usize) -> (result: Result<AudioLine, LineFault>)
    requires
        from <= to <= s@.len(),
    ensures
        result == register_line(s@, from as int, to as int),
{
    let length = s.len();
    if to - from < 2 {
        return Err(LineFault::BadRest);
    }
    let rest = match read_hex_byte(s, from, from + 2) {
        Some(value) => value,
        None => {
            return Err(LineFault::BadRest);
        },
    };
    let ch1 = if to - from < 23 || skip(s, from + 4, Class::Blank, 19) == from + 23 {
        None
    } else {
        // these are the only values unique to channel 1
        let sweep_time: u8 = 0;
        let sweep_increase = true;
        let sweep_number: u8 = 0;

        // use channel 2 logic as a base for channel 1
        let channel2 = read_channel2(s, from + 4)?;
        Some(
            Channel1State {
                note: channel2.note,
                sharp: channel2.sharp,
                octave: channel2.octave,
                duty: channel2.duty,
                length: channel2.length,
                envelope_initial_volume: channel2.envelope_initial_volume,
                envelope_argument: channel2.envelope_argument,
                envelope_increase: channel2.envelope_increase,
                enable_length: channel2.enable_length,
                initial: channel2.initial,
                sweep_time,
                sweep_increase,
                sweep_number,
            },
        )
    };
    let ch2 = if to - from < 40 || skip(s, from + 25, Class::Blank, 15) == from + 40 {
        None
    } else {
        Some(read_channel2(s, from + 25)?)
    };
    if to - from >= 41 {
        return Err(LineFault::UnsupportedChannel);
    }
    Ok(AudioLine::SetRegisters { rest, ch1, ch2, ch3: None, ch4: None })
}

/// A line of audio text from `from` up to `to`, which holds a word:
/// one of the commands `rest`, `playfrom`, `label` and `disable`, or
/// else a line that sets registers. The name of `label` and `playfrom`
/// is given in canonical form.
#[verifier::opaque]
pub open spec fn audio_line(s: Seq<u8>, from: int, to: int) -> Result<AudioLine, LineFault> {
    let command = word_start(s, from, to);
    let command_end = word_end(s, command, to);
    let argument = word_start(s, command_end, to);
    let argument_end = word_end(s, argument, to);
    if is_command(s, command, command_end, "rest".spec_bytes()) {
        if argument >= to {
            Err(LineFault::RestNeedsArgument)
        } else {
            match hex_byte(s, argument, argument_end) {
                Some(value) => Ok(AudioLine::Rest(value)),
                None => Err(LineFault::RestNotHex),
            }
        }
    } else if is_command(s, command, command_end, "playfrom".spec_bytes()) {
        match argument_name(s, from, to) {
            Ok(name) => Ok(AudioLine::PlayFrom(canonical_string(name))),
            Err(fault) => Err(fault),
        }
    } else if is_command(s, command, command_end, "label".spec_bytes()) {
        match argument_name(s, from, to) {
            Ok(name) => Ok(AudioLine::Label(canonical_string(name))),
            Err(fault) => Err(fault),
        }
    } else if is_command(s, command, command_end, "disable".spec_bytes()) {
        Ok(AudioLine::Disable)
    } else {
        register_line(s, from, to)
    }
}

/// Parses one line of audio text, which holds a word.
pub(crate) fn parse_audio_line(text: &str, s: &Vec<u8>, from: usize, to: usize) -> (result: Result<
    AudioLine,
    LineFault,
>)
    requires
        holds_text(s@, text),
        from <= to <= s@.len(),
        to < s@.len() ==> Class::Blank.has(s@[to as int]),
    ensures
        match audio_line(s@, from as int, to as int) {
            Ok(line) => result matches Ok(parsed) && parsed.canonical() == line,
            Err(fault) => result == Err::<AudioLine, LineFault>(fault),
        },
{
    reveal(audio_line);
    let length = s.len();
    let command = skip(s, from, Class::Blank, to - from);
    proof {
        lemma_span_bounds(s@, from as int, Class::Blank, to - from);
    }
    let command_end = skip(s, command, Class::NotBlank, to - command);
    proof {
        lemma_span_bounds(s@, command as int, Class::NotBlank, to - command);
    }
    let argument = skip(s, command_end, Class::Blank, to - command_end);
    proof {
        lemma_span_bounds(s@, command_end as int, Class::Blank, to - command_end);
    }
    let argument_end = skip(s, argument, Class::NotBlank, to - argument);
    proof {
        lemma_span_bounds(s@, argument as int, Class::NotBlank, to - argument);
    }
    if has_command(text, s, command, command_end, "rest") {
        if argument >= to {
            Err(LineFault::RestNeedsArgument)
        } else {
            match read_hex_byte(s, argument, argument_end) {
                Some(value) => Ok(AudioLine::Rest(value)),
                None => Err(LineFault::RestNotHex),
            }
        }
    } else if has_command(text, s, command, command_end, "playfrom") {
        match read_argument(text, s, from, to) {
            Ok(name) => Ok(AudioLine::PlayFrom(name)),
            Err(fault) => Err(fault),
        }
    } else if has_command(text, s, command, command_end, "label") {
        match read_argument(text, s, from, to) {
            Ok(name) => Ok(AudioLine::Label(name)),
            Err(fault) => Err(fault),
        }
    } else if has_command(text, s, command, command_end, "disable") {
        Ok(AudioLine::Disable)
    } else {
        read_register_line(s, from, to)
    }
}

/// The name that `label` or `playfrom` takes: the second of the two
/// words of the line.
pub open spec fn argument_name(s: Seq<u8>, from: int, to: int) -> Result<Seq<char>, LineFault> {
    let command_end = word_end(s, word_start(s, from, to), to);
    let argument = word_start(s, command_end, to);
    if words(s, from, to) != 2 {
        Err(LineFault::WrongArgumentCount { count: words(s, from, to) as usize })
    } else {
        Ok(spelled(s, argument, word_end(s, argument, to)))
    }
}

/// Reads the one argument of `label` or `playfrom`.
fn read_argument(text: &str, s: &Vec<u8>, from: usize, to: usize) -> (result: Result<
    String,
    LineFault,
>)
    requires
        holds_text(s@, text),
        from <= to <= s@.len(),
        to < s@.len() ==> Class::Blank.has(s@[to as int]),
    ensures
        match argument_name(s@, from as int, to as int) {
            Ok(name) => result matches Ok(read) && read@ == name,
            Err(fault) => result == Err::<String, LineFault>(fault),
        },
{
    let length = s.len();
    let count = count_words(s, from, to);
    if count != 2 {
        return Err(LineFault::WrongArgumentCount { count });
    }
    let command = skip(s, from, Class::Blank, to - from);
    proof {
        lemma_span_bounds(s@, from as int, Class::Blank, to - from);
    }
    let command_end = skip(s, command, Class::NotBlank, to - command);
    proof {
        lemma_span_bounds(s@, command as int, Class::NotBlank, to - command);
    }
    let argument = skip(s, command_end, Class::Blank, to - command_end);
    proof {
        lemma_span_bounds(s@, command_end as int, Class::Blank, to - command_end);
        lemma_span_stops(s@, command as int, Class::NotBlank, to - command);
    }
    let argument_end = skip(s, argument, Class::NotBlank, to - argument);
    let ghost bytes = text.spec_bytes();
    proof {
        broadcast use vstd::utf8::encode_utf8_valid_utf8;

        lemma_span_bounds(s@, argument as int, Class::NotBlank, to - argument);
        lemma_span_stops(s@, argument as int, Class::NotBlank, to - argument);
        lemma_two_words(s@, from as int, to as int);
        assert(Class::NotBlank.has(s@[argument_end - 1]));
        if s@ != bytes {
            assert(s@[bytes.len() as int] == 0x0Au8);
        }
        assert(argument_end <= bytes.len());
        assert(s@.subrange(argument as int, argument_end as int) =~= bytes.subrange(
            argument as int,
            argument_end as int,
        ));
        // a blank stands before the name, and a blank or nothing behind it
        assert(command_end < argument);
        assert(Class::Blank.has(s@[argument - 1]));
        assert(bytes[argument - 1] == s@[argument - 1]);
        lemma_boundary_behind_ascii(bytes, argument - 1);
        if argument_end < bytes.len() {
            assert(bytes[argument_end as int] == s@[argument_end as int]);
            assert(!Class::NotBlank.has(s@[argument_end as int]));
            vstd::utf8::is_char_boundary_iff_not_is_continuation_byte(
                bytes,
                argument_end as int,
            );
        } else {
            vstd::utf8::is_char_boundary_start_end_of_seq(bytes);
        }
    }
    Ok(substring(text, argument, argument_end))
}

/// Where a line holds two words, the second word is not empty.
proof fn lemma_two_words(s: Seq<u8>, from: int, to: int)
    requires
        0 <= from <= to <= s.len(),
        words(s, from, to) == 2,
    ensures
        word_start(s, word_end(s, word_start(s, from, to), to), to) < word_end(
            s,
            word_start(s, word_end(s, word_start(s, from, to), to), to),
            to,
        ),
{
    let start = word_start(s, from, to);
    let end = word_end(s, start, to);
    assert(words(s, end, to) == 1);
}


/// The lines `first`, and behind them the lines in `rest` or the
/// failure in `rest`.
pub open spec fn followed_by(first: Seq<AudioLine>, rest: Result<Seq<AudioLine>, AudioError>) -> Result<
    Seq<AudioLine>,
    AudioError,
> {
    match rest {
        Ok(lines) => Ok(first + lines),
        Err(error) => Err(error),
    }
}

/// The lines of the audio text from the position `i` on, where the line
/// with the number `number` starts. A line ends before a line feed, or
/// before a carriage return and a line feed, or at the end of the text.
/// Lines that hold no word are passed over. The first line that is no
/// line of audio text is the failure of the whole.
pub open spec fn audio_text(s: Seq<u8>, i: int, number: int) -> Result<Seq<AudioLine>, AudioError>
    decreases s.len() - i,
{
    if i < 0 || i >= s.len() {
        Ok(Seq::empty())
    } else {
        let end = span(s, i, Class::NotLf, s.len() - i);
        let to = if i < end < s.len() && s[end - 1] == 0x0D {
            end - 1
        } else {
            end
        };
        let rest = if i <= end < s.len() {
            audio_text(s, end + 1, number + 1)
        } else {
            Ok(Seq::empty())
        };
        if word_start(s, i, to) >= to {
            rest
        } else {
            match audio_line(s, i, to) {
                Err(fault) => Err(AudioError::InvalidLine { line: number as usize, fault }),
                Ok(line) => followed_by(seq![line], rest),
            }
        }
    }
}

/// Parses audio text into its lines. Empty lines are skipped. Returns
/// `Err` if the text does not conform to the audio text format.
pub fn parse_audio_text(text: &str) -> (result: Result<Vec<AudioLine>, AudioError>)
    ensures
        match audio_text(text.spec_bytes(), 0, 1) {
            Ok(lines) => result matches Ok(parsed) && canonical_audio_lines(parsed@) == lines,
            Err(error) => result == Err::<Vec<AudioLine>, AudioError>(error),
        },
{
    let mut s: Vec<u8> = Vec::new();
    crate::header::extend(&mut s, text.as_bytes());
    let length = s.len();
    let mut parsed: Vec<AudioLine> = Vec::new();
    let mut i: usize = 0;
    let mut passed: usize = 0;
    assert(canonical_audio_lines(parsed@) =~= Seq::empty());
    proof {
        lemma_followed_by(Seq::empty(), Seq::empty(), audio_text(s@, 0, 1));
    }
    while i < length
        invariant
            s@ == text.spec_bytes(),
            length == s@.len(),
            i <= length,
            passed <= i,
            followed_by(canonical_audio_lines(parsed@), audio_text(s@, i as int, passed + 1))
                == audio_text(s@, 0, 1),
        decreases length - i,
    {
        let end = skip(&s, i, Class::NotLf, length - i);
        proof {
            lemma_span_bounds(s@, i as int, Class::NotLf, length - i);
            lemma_span_stops(s@, i as int, Class::NotLf, length - i);
        }
        let to = if i < end && end < length && s[end - 1] == 0x0D {
            end - 1
        } else {
            end
        };
        let word = skip(&s, i, Class::Blank, to - i);
        let ghost rest = if end < length {
            audio_text(s@, end + 1, passed + 2)
        } else {
            Ok(Seq::empty())
        };
        if word < to {
            let ghost before = parsed@;
            match parse_audio_line(text, &s, i, to) {
                Ok(line) => {
                    parsed.push(line);
                    proof {
                        let line = audio_line(s@, i as int, to as int)->Ok_0;
                        assert(canonical_audio_lines(parsed@) =~= canonical_audio_lines(before)
                            + seq![line]);
                        lemma_followed_by(canonical_audio_lines(before), seq![line], rest);
                    }
                },
                Err(fault) => {
                    return Err(AudioError::InvalidLine { line: passed + 1, fault });
                },
            }
        }
        if end >= length {
            proof {
                lemma_followed_by(canonical_audio_lines(parsed@), Seq::empty(), rest);
            }
            return Ok(parsed);
        }
        i = end + 1;
        passed += 1;
    }
    proof {
        lemma_followed_by(
            canonical_audio_lines(parsed@),
            Seq::empty(),
            audio_text(s@, i as int, passed + 1),
        );
    }
    Ok(parsed)
}

/// Lines before lines before a rest are the lines together before the
/// rest.
proof fn lemma_followed_by(
    first: Seq<AudioLine>,
    second: Seq<AudioLine>,
    rest: Result<Seq<AudioLine>, AudioError>,
)
    ensures
        followed_by(first, followed_by(second, rest)) == followed_by(first + second, rest),
        followed_by(Seq::empty(), rest) == rest,
        rest == Ok::<Seq<AudioLine>, AudioError>(Seq::empty()) ==> followed_by(first, rest) == Ok::<
            Seq<AudioLine>,
            AudioError,
        >(first),
{
    if let Ok(lines) = rest {
        assert(first + (second + lines) =~= (first + second) + lines);
        assert(Seq::<AudioLine>::empty() + lines =~= lines);
        assert(first + Seq::<AudioLine>::empty() =~= first);
    }
}

} // verus!
