use ggbasm::ast::{Expr, Instruction};
use ggbasm::audio::{
    generate_audio_data, note_to_frequency, parse_audio_text, AudioError, AudioLine,
    Channel1State, Channel2State, LineFault, Note,
};

fn channel2(note: Note, sharp: bool, octave: u8) -> Channel2State {
    Channel2State {
        note,
        sharp,
        octave,
        duty: 2,
        length: 0x10,
        envelope_initial_volume: 7,
        envelope_argument: 4,
        envelope_increase: true,
        enable_length: false,
        initial: true,
    }
}

fn channel1(note: Note, sharp: bool, octave: u8) -> Channel1State {
    Channel1State {
        note,
        sharp,
        octave,
        duty: 2,
        length: 0x10,
        envelope_initial_volume: 7,
        envelope_argument: 4,
        envelope_increase: true,
        enable_length: false,
        initial: true,
        sweep_time: 0,
        sweep_increase: true,
        sweep_number: 0,
    }
}

fn registers(rest: u8, ch1: Option<Channel1State>, ch2: Option<Channel2State>) -> AudioLine {
    AudioLine::SetRegisters { rest, ch1, ch2, ch3: None, ch4: None }
}

#[test]
fn frequencies_of_the_notes() {
    assert_eq!(note_to_frequency(3, &Note::C, false), Ok(44));
    assert_eq!(note_to_frequency(3, &Note::C, true), Ok(156));
    assert_eq!(note_to_frequency(3, &Note::B, false), Ok(986));
    assert_eq!(note_to_frequency(4, &Note::C, false), Ok(1046));
    assert_eq!(note_to_frequency(4, &Note::A, false), Ok(1452));
    assert_eq!(note_to_frequency(5, &Note::E, false), Ok(1650));
    assert_eq!(note_to_frequency(6, &Note::D, true), Ok(1837));
    assert_eq!(note_to_frequency(6, &Note::F, true), Ok(1871));
    assert_eq!(note_to_frequency(7, &Note::G, true), Ok(1969));
    assert_eq!(note_to_frequency(8, &Note::A, true), Ok(2013));
    assert_eq!(note_to_frequency(8, &Note::B, false), Ok(2015));
    let octave5 = [
        (Note::C, false, 1546),
        (Note::C, true, 1575),
        (Note::D, false, 1602),
        (Note::D, true, 1627),
        (Note::E, false, 1650),
        (Note::F, false, 1673),
        (Note::F, true, 1694),
        (Note::G, false, 1714),
        (Note::G, true, 1732),
        (Note::A, false, 1750),
        (Note::A, true, 1767),
        (Note::B, false, 1783),
    ];
    for (note, sharp, value) in octave5 {
        assert_eq!(note_to_frequency(5, &note, sharp), Ok(value));
    }
}

#[test]
fn notes_that_do_not_exist() {
    let invalid = |octave, note, sharp| Err(AudioError::InvalidNote { note, sharp, octave });
    assert_eq!(note_to_frequency(2, &Note::C, false), invalid(2, Note::C, false));
    assert_eq!(note_to_frequency(9, &Note::C, false), invalid(9, Note::C, false));
    assert_eq!(note_to_frequency(4, &Note::E, true), invalid(4, Note::E, true));
    assert_eq!(note_to_frequency(4, &Note::B, true), invalid(4, Note::B, true));
}

#[test]
fn lines_become_data() {
    let lines = vec![
        AudioLine::Label("song".to_string()),
        registers(0x07, Some(channel1(Note::C, false, 4)), Some(channel2(Note::A, true, 8))),
        registers(0x01, None, None),
        AudioLine::Rest(0x20),
        AudioLine::PlayFrom("song".to_string()),
        AudioLine::Disable,
    ];
    assert_eq!(
        generate_audio_data(lines),
        Ok(vec![
            Instruction::Label("song".to_string()),
            // C4 is 1046 = 0x416, A sharp 8 is 2013 = 0x7DD
            Instruction::Db(vec![
                0x10, 0x00, 0x11, 0xAF, 0x12, 0x7C, 0x13, 0x16, 0x14, 0x84, 0x16, 0xAF, 0x17,
                0x7C, 0x18, 0xDD, 0x19, 0x87, 0xFF, 0x07,
            ]),
            Instruction::Db(vec![0xFF, 0x01]),
            Instruction::Db(vec![0xFF, 0x20]),
            Instruction::Db(vec![0xFE]),
            Instruction::DbExpr16(Expr::Ident("song".to_string())),
            Instruction::Db(vec![0xFC]),
        ])
    );
}

#[test]
fn the_flags_of_a_tone_have_their_bits() {
    let mut state = channel2(Note::C, false, 3);
    state.duty = 3;
    state.length = 0;
    state.envelope_initial_volume = 0xF;
    state.envelope_argument = 7;
    state.envelope_increase = false;
    state.enable_length = true;
    state.initial = false;
    let data = generate_audio_data(vec![registers(0, None, Some(state)), AudioLine::Disable]);
    assert_eq!(
        data,
        Ok(vec![
            // 44 = 0x02C
            Instruction::Db(vec![0x16, 0xFF, 0x17, 0xF7, 0x18, 0x2C, 0x19, 0x40, 0xFF, 0x00]),
            Instruction::Db(vec![0xFC]),
        ])
    );
}

#[test]
fn the_player_must_be_able_to_leave() {
    assert_eq!(generate_audio_data(vec![]), Err(AudioError::NoLabels));
    assert_eq!(generate_audio_data(vec![AudioLine::Rest(1)]), Err(AudioError::NoLabels));
    assert_eq!(
        generate_audio_data(vec![
            AudioLine::Label("a".to_string()),
            AudioLine::Disable,
            AudioLine::Label("b".to_string()),
            AudioLine::Rest(1),
        ]),
        Err(AudioError::NoCleanExit { label: "b".to_string() })
    );
    assert_eq!(
        generate_audio_data(vec![AudioLine::Disable]),
        Ok(vec![Instruction::Db(vec![0xFC])])
    );
}

#[test]
fn tones_are_checked() {
    let check = |change: fn(&mut Channel2State)| {
        let mut state = channel2(Note::C, false, 4);
        change(&mut state);
        generate_audio_data(vec![registers(0, None, Some(state)), AudioLine::Disable])
    };
    assert_eq!(check(|s| s.length = 0x40), Err(AudioError::LengthTooBig { length: 0x40 }));
    assert_eq!(check(|s| s.duty = 4), Err(AudioError::DutyTooBig { duty: 4 }));
    assert_eq!(
        check(|s| s.envelope_initial_volume = 0x10),
        Err(AudioError::VolumeTooBig { volume: 0x10 })
    );
    assert_eq!(
        check(|s| s.envelope_argument = 8),
        Err(AudioError::EnvelopeArgumentTooBig { argument: 8 })
    );
    assert_eq!(
        check(|s| s.octave = 2),
        Err(AudioError::InvalidNote { note: Note::C, sharp: false, octave: 2 })
    );
    let mut first = channel1(Note::C, false, 4);
    first.duty = 9;
    let mut second = channel2(Note::C, false, 4);
    second.length = 0x50;
    assert_eq!(
        generate_audio_data(vec![registers(0, Some(first), Some(second)), AudioLine::Disable]),
        Err(AudioError::DutyTooBig { duty: 9 })
    );
}

#[test]
fn audio_text_is_parsed_line_by_line() {
    let text = "label my_cool_song\n\
                07                       D6:2:10:7:4Y:NY\n\
                \n\
                0F  d6:2:10:7:4Y:NY:Y00  \n\
                1f  G3:0:3F:F:0N:YN:Y00  a8:3:00:0:7Y:NN\r\n\
                REST 0A\n\
                \t  \n\
                PlayFrom my_cool_song\n\
                disable";
    let lines = parse_audio_text(text).unwrap();
    assert_eq!(
        lines,
        vec![
            AudioLine::Label("my_cool_song".to_string()),
            registers(0x07, None, Some(channel2(Note::D, false, 6))),
            registers(0x0F, Some(channel1(Note::D, true, 6)), None),
            registers(
                0x1F,
                Some(Channel1State {
                    note: Note::G,
                    sharp: false,
                    octave: 3,
                    duty: 0,
                    length: 0x3F,
                    envelope_initial_volume: 0xF,
                    envelope_argument: 0,
                    envelope_increase: false,
                    enable_length: true,
                    initial: false,
                    sweep_time: 0,
                    sweep_increase: true,
                    sweep_number: 0,
                }),
                Some(Channel2State {
                    note: Note::A,
                    sharp: true,
                    octave: 8,
                    duty: 3,
                    length: 0,
                    envelope_initial_volume: 0,
                    envelope_argument: 7,
                    envelope_increase: true,
                    enable_length: false,
                    initial: false,
                })
            ),
            AudioLine::Rest(0x0A),
            AudioLine::PlayFrom("my_cool_song".to_string()),
            AudioLine::Disable,
        ]
    );
    assert_eq!(parse_audio_text(""), Ok(vec![]));
    assert_eq!(parse_audio_text("\n\n  \n"), Ok(vec![]));
}

fn fault_on_line(text: &str) -> (usize, LineFault) {
    match parse_audio_text(text) {
        Err(AudioError::InvalidLine { line, fault }) => (line, fault),
        other => panic!("{:?}", other),
    }
}

#[test]
fn faults_of_the_commands() {
    assert_eq!(fault_on_line("rest"), (1, LineFault::RestNeedsArgument));
    assert_eq!(fault_on_line("disable\nrest xx"), (2, LineFault::RestNotHex));
    assert_eq!(fault_on_line("rest 100"), (1, LineFault::RestNotHex));
    assert_eq!(fault_on_line("\n\nlabel"), (3, LineFault::WrongArgumentCount { count: 1 }));
    assert_eq!(fault_on_line("label a b"), (1, LineFault::WrongArgumentCount { count: 3 }));
    assert_eq!(fault_on_line("playfrom"), (1, LineFault::WrongArgumentCount { count: 1 }));
    assert_eq!(parse_audio_text("rest +F"), Ok(vec![AudioLine::Rest(0x0F)]));
    assert_eq!(parse_audio_text("rest 007 or so"), Ok(vec![AudioLine::Rest(7)]));
    assert_eq!(parse_audio_text("DISABLE now"), Ok(vec![AudioLine::Disable]));
    assert_eq!(
        parse_audio_text("  label  n\u{e4}me  "),
        Ok(vec![AudioLine::Label("n\u{e4}me".to_string())])
    );
}

#[test]
fn faults_of_the_columns() {
    assert_eq!(fault_on_line("x"), (1, LineFault::BadRest));
    assert_eq!(fault_on_line("0G"), (1, LineFault::BadRest));
    assert_eq!(parse_audio_text("0F"), Ok(vec![registers(0x0F, None, None)]));
    let with_channel1 = |columns: &str| format!("07  {}", columns);
    let fault = |columns: &str| fault_on_line(&with_channel1(columns)).1;
    assert_eq!(fault("H6:2:10:7:4Y:NY:Y00"), LineFault::BadNote);
    assert_eq!(fault("Dx:2:10:7:4Y:NY:Y00"), LineFault::BadOctave);
    assert_eq!(fault("D6:x:10:7:4Y:NY:Y00"), LineFault::BadDuty);
    assert_eq!(fault("D6:4:10:7:4Y:NY:Y00"), LineFault::DutyTooBig { duty: 4 });
    assert_eq!(fault("D6:2:1x:7:4Y:NY:Y00"), LineFault::BadLength);
    assert_eq!(fault("D6:2:40:7:4Y:NY:Y00"), LineFault::LengthTooBig { length: 0x40 });
    assert_eq!(fault("D6:2:10:x:4Y:NY:Y00"), LineFault::BadVolume);
    assert_eq!(fault("D6:2:10:7:xY:NY:Y00"), LineFault::BadEnvelopeArgument);
    assert_eq!(
        fault("D6:2:10:7:8Y:NY:Y00"),
        LineFault::EnvelopeArgumentTooBig { argument: 8 }
    );
    assert_eq!(fault("D6:2:10:7:4y:NY:Y00"), LineFault::BadEnvelopeIncrease);
    assert_eq!(fault("D6:2:10:7:4Y:xY:Y00"), LineFault::BadEnableLength);
    assert_eq!(fault("D6:2:10:7:4Y:Nx:Y00"), LineFault::BadInitial);
    assert_eq!(
        fault_on_line("07  D6:2:10:7:4Y:NY:Y00  D6:2:10:7:4Y:NY  x"),
        (1, LineFault::UnsupportedChannel)
    );
    assert_eq!(
        fault_on_line("07                       D6:2:10:7:4Y:Nx"),
        (1, LineFault::BadInitial)
    );
}
