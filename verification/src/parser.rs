//! Parse assembly text into instructions, one for each line.

use crate::ast::Instruction;
use crate::grammar::{build, build_instruction, pattern, pattern_of, RULES};
use crate::lexer::{skip, spaces, span, Class};
use crate::syntax::{fit, holds_text, read_pattern, Captures};
use vstd::prelude::*;
use vstd::string::StringSliceAdditionalSpecFns;

verus! {

/// The failure of the parser as a whole. There is none: a line that
/// does not parse is reported in its place among the lines, and
/// [`parse_asm`] always returns `Ok`.
#[derive(Debug)]
pub struct ParseError {}

/// The instruction at `i` by the first of the patterns from `rule` on
/// that fits, and the position behind it.
pub open spec fn instruction_from(s: Seq<u8>, i: int, rule: int) -> Option<(Instruction, int)>
    decreases RULES - rule,
{
    if rule < 0 || rule >= RULES {
        None
    } else {
        match fit(pattern(rule), 0, s, i, Captures::nothing()) {
            Some((taken, end)) => match build(rule, taken) {
                Some(instruction) => Some((instruction, end)),
                None => instruction_from(s, i, rule + 1),
            },
            None => instruction_from(s, i, rule + 1),
        }
    }
}

/// The line that starts at `i`: the instruction on it, or nothing where
/// the line does not parse, and the position of the end of the line.
/// Spaces and tabs before the instruction are passed over.
pub open spec fn line(s: Seq<u8>, i: int) -> (Option<Instruction>, int) {
    let start = spaces(s, i);
    match instruction_from(s, start, 0) {
        Some((instruction, end)) => (Some(instruction), span(s, end, Class::NotEol, s.len() as int)),
        None => (None, span(s, start, Class::NotEol, s.len() as int)),
    }
}

/// The position behind the line break at `i`, which is a line feed or
/// a carriage return and a line feed.
pub open spec fn line_break(s: Seq<u8>, i: int) -> Option<int> {
    if 0 <= i < s.len() && s[i] == 0x0A {
        Some(i + 1)
    } else if 0 <= i && i + 1 < s.len() && s[i] == 0x0D && s[i + 1] == 0x0A {
        Some(i + 2)
    } else {
        None
    }
}

/// The lines from `i` on, as far as each of them ends in a line break.
pub open spec fn lines(s: Seq<u8>, i: int) -> Seq<Option<Instruction>>
    decreases s.len() - i,
{
    match line_break(s, line(s, i).1) {
        Some(next) => if i < next <= s.len() {
            seq![line(s, i).0] + lines(s, next)
        } else {
            Seq::empty()
        },
        None => Seq::empty(),
    }
}

/// The text with a line feed behind it, unless it is empty or ends in
/// one.
pub open spec fn terminated(text: Seq<u8>) -> Seq<u8> {
    if text.len() > 0 && text.last() != 0x0A {
        text.push(0x0Au8)
    } else {
        text
    }
}

/// The canonical form of what a line holds.
pub open spec fn canonical_line(line: Option<Instruction>) -> Option<Instruction> {
    match line {
        Some(instruction) => Some(instruction.canonical()),
        None => None,
    }
}

/// The canonical forms of what the lines hold.
pub open spec fn canonical_lines(lines: Seq<Option<Instruction>>) -> Seq<Option<Instruction>> {
    Seq::new(lines.len(), |k: int| canonical_line(lines[k]))
}

/// Reads the instruction at `i`.
fn read_instruction(text: &str, s: &Vec<u8>, i: usize) -> (result: Option<(Instruction, usize)>)
    requires
        holds_text(s@, text),
        i <= s@.len(),
    ensures
        match instruction_from(s@, i as int, 0) {
            Some((instruction, end)) => result matches Some((read, stop)) && read.canonical()
                == instruction && stop == end && i <= end <= s@.len(),
            None => result is None,
        },
{
    let mut rule: usize = 0;
    while rule < RULES
        invariant
            holds_text(s@, text),
            i <= s@.len(),
            rule <= RULES,
            instruction_from(s@, i as int, 0) == instruction_from(s@, i as int, rule as int),
        decreases RULES - rule,
    {
        match read_pattern(pattern_of(rule).as_bytes(), text, s, i) {
            Some((taken, end)) => match build_instruction(rule, taken) {
                Some(instruction) => {
                    return Some((instruction, end));
                },
                None => {},
            },
            None => {},
        }
        rule += 1;
    }
    None
}

/// Parses the text into one entry for each line: the instruction on the
/// line, or `None` where the line fails to parse. A last line without a
/// line break counts as a line.
pub fn parse_asm(text: &str) -> (result: Result<Vec<Option<Instruction>>, ParseError>)
    ensures
        result matches Ok(parsed) && canonical_lines(parsed@) == lines(
            terminated(text.spec_bytes()),
            0,
        ),
{
    Ok(parse_lines(text))
}

/// Parses the text into one entry for each line, as [`parse_asm`] does.
pub fn parse_lines(text: &str) -> (parsed: Vec<Option<Instruction>>)
    ensures
        canonical_lines(parsed@) == lines(terminated(text.spec_bytes()), 0),
{
    // Make sure that the last line ends in a line feed
    let bytes = text.as_bytes();
    let mut s: Vec<u8> = Vec::new();
    crate::header::extend(&mut s, bytes);
    if s.len() > 0 && s[s.len() - 1] != 0x0A {
        s.push(0x0A);
    }
    assert(s@ == terminated(text.spec_bytes()));

    let mut parsed: Vec<Option<Instruction>> = Vec::new();
    let mut i: usize = 0;
    let length = s.len();
    loop
        invariant
            holds_text(s@, text),
            length == s@.len(),
            i <= s@.len(),
            canonical_lines(parsed@) + lines(s@, i as int) == lines(s@, 0),
        ensures
            canonical_lines(parsed@) == lines(s@, 0),
        decreases s@.len() - i,
    {
        // ignore preceding whitespace
        let start = skip(&s, i, Class::Space, length);
        // a line that fails to parse becomes a None, and the rest of it
        // is passed over
        let (instruction, after) = match read_instruction(text, &s, start) {
            Some((instruction, end)) => (Some(instruction), end),
            None => (None, start),
        };
        let end = skip(&s, after, Class::NotEol, length);
        let next = if end < length && s[end] == 0x0A {
            end + 1
        } else if end < length && length - end >= 2 && s[end] == 0x0D && s[end + 1] == 0x0A {
            end + 2
        } else {
            break ;
        };
        let ghost before = parsed@;
        parsed.push(instruction);
        assert(canonical_lines(parsed@) == canonical_lines(before) + seq![
            canonical_line(instruction),
        ]);
        i = next;
    }
    parsed
}


/// The instructions of the lines, where every line has parsed; else
/// the index of the first line that has not.
pub fn instructions_of(lines: Vec<Option<Instruction>>) -> (result: Result<Vec<Instruction>, usize>)
    ensures
        match result {
            Ok(instructions) => instructions@.len() == lines@.len() && forall|k: int|
                0 <= k < lines@.len() ==> lines@[k] == Some(#[trigger] instructions@[k]),
            Err(index) => index < lines@.len() && lines@[index as int] is None && forall|k: int|
                0 <= k < index ==> (#[trigger] lines@[k]) is Some,
        },
{
    let count = lines.len();
    let mut i: usize = 0;
    while i < count
        invariant
            count == lines@.len(),
            i <= count,
            forall|k: int| 0 <= k < i ==> (#[trigger] lines@[k]) is Some,
        decreases count - i,
    {
        if lines[i].is_none() {
            return Err(i);
        }
        i += 1;
    }
    // the lines are moved out from the end, and put in order again
    let ghost given = lines@;
    let mut lines = lines;
    let mut reversed: Vec<Instruction> = Vec::new();
    let mut i: usize = 0;
    while i < count
        invariant
            count == given.len(),
            i <= count,
            forall|k: int| 0 <= k < count ==> (#[trigger] given[k]) is Some,
            lines@ == given.subrange(0, count - i),
            reversed@.len() == i,
            forall|k: int| 0 <= k < i ==> given[count - 1 - k] == Some(#[trigger] reversed@[k]),
        decreases count - i,
    {
        assert(given[count - 1 - i] is Some);
        assert(lines@.last() == given[count - 1 - i]);
        match lines.pop() {
            Some(Some(instruction)) => {
                reversed.push(instruction);
            },
            _ => {},
        }
        i += 1;
    }
    let mut instructions: Vec<Instruction> = Vec::new();
    let ghost backwards = reversed@;
    let mut k: usize = 0;
    while k < count
        invariant
            count == given.len(),
            backwards.len() == count,
            k <= count,
            reversed@ == backwards.subrange(0, count - k),
            instructions@.len() == k,
            forall|j: int| 0 <= j < count ==> given[count - 1 - j] == Some(#[trigger] backwards[j]),
            forall|j: int| 0 <= j < k ==> given[j] == Some(#[trigger] instructions@[j]),
        decreases count - k,
    {
        assert(reversed@.last() == backwards[count - 1 - k]);
        match reversed.pop() {
            Some(instruction) => {
                instructions.push(instruction);
            },
            None => {},
        }
        k += 1;
    }
    Ok(instructions)
}

} // verus!
