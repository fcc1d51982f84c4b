use yaml_scan::error::{Context, Error, ErrorKind};
use yaml_scan::event::{Event, EventKind};
use yaml_scan::machine::{take, StateMachine};
use yaml_scan::node::NodeKind;
use yaml_scan::scanner::Scan;
use yaml_scan::source::Source;
use yaml_scan::states::{
    is_letter, is_whitespace, AmbiguousColon, AmbiguousScalar, Failure, LineEnd, LineStart,
    MapStart, MapValue, MapVerifyKey, MapWhiteSpace, Marker, ScalarLiteral, Start,
};
use yaml_scan::State;

fn scan(document: &str) -> Scan {
    Scan::new(Source::new(document.as_bytes().to_vec()))
}

fn failing(document: &str) -> Scan {
    Scan::new(Source::failing(document.as_bytes().to_vec(), String::from("lost")))
}

fn lost() -> Error {
    Error::from(ErrorKind::Io(String::from("lost")))
}

fn bad_char(kind: ErrorKind, ch: u8) -> Error {
    Error::from(kind.with_context(ch))
}

fn rest(scan: &mut Scan) -> Vec<u8> {
    let mut bytes = Vec::new();
    while let Ok(Some(b)) = scan.next() {
        bytes.push(b);
    }
    bytes
}

#[test]
fn byte_classes() {
    for b in 0..=255u8 {
        assert_eq!(is_whitespace(&b), b == b' ' || b == b'\t');
        assert_eq!(is_letter(b), b.is_ascii_alphabetic());
    }
}

#[test]
fn start_finds_a_line_or_the_end() {
    assert_eq!(Start.find_next(&mut scan("x")), Ok(Marker::LineStart));
    assert_eq!(Start.find_next(&mut scan("\n")), Ok(Marker::LineStart));
    assert_eq!(Start.find_next(&mut scan("")), Ok(Marker::Done));
    assert_eq!(Start.find_next(&mut failing("")), Err(lost()));
}

#[test]
fn line_start_counts_spaces_and_tabs() {
    let mut s = scan(" \t  key").activate();
    assert_eq!(LineStart.count_indent(&mut s), Ok(4));
    assert_eq!(s.peak(), Ok(Some(b'k')));
    assert!(s.history().is_empty());
    let mut s = scan("key").activate();
    assert_eq!(LineStart.count_indent(&mut s), Ok(0));
    let mut s = scan("   ").activate();
    assert_eq!(LineStart.count_indent(&mut s), Ok(3));
    assert_eq!(s.peak(), Ok(None));
}

#[test]
fn line_start_records_the_indentation() {
    let mut s = scan("  a").activate();
    assert_eq!(LineStart.update_indent(&mut s), Ok(()));
    assert_eq!(s.history(), &[2]);
    assert_eq!(s.current(), 2);
    assert_eq!(s.floor(), 2);
    assert_eq!(LineStart.find_next(&mut s), Ok(Marker::AmbiguousScalar));
}

#[test]
fn line_start_records_nothing_when_the_source_fails() {
    let mut s = Scan::new(Source::failing(b"  ".to_vec(), String::from("lost"))).activate();
    assert_eq!(LineStart.update_indent(&mut s), Err(lost()));
    assert!(s.history().is_empty());
}

#[test]
fn line_start_finds_what_the_line_holds() {
    assert_eq!(LineStart.find_next(&mut scan("\n").activate()), Ok(Marker::LineEnd));
    assert_eq!(LineStart.find_next(&mut scan("\r").activate()), Ok(Marker::LineEnd));
    assert_eq!(LineStart.find_next(&mut scan("a").activate()), Ok(Marker::AmbiguousScalar));
    assert_eq!(LineStart.find_next(&mut scan("9").activate()), Ok(Marker::AmbiguousScalar));
    assert_eq!(LineStart.find_next(&mut scan("").activate()), Ok(Marker::Done));
    assert_eq!(LineStart.find_next(&mut failing("").activate()), Err(lost()));
}

#[test]
fn line_end_consumes_one_terminator() {
    let mut s = scan("\n\nx");
    assert_eq!(LineEnd.close_line(&mut s), Ok(()));
    assert_eq!(rest(&mut s), b"\nx");
    let mut s = scan("\r\n\r\nx");
    assert_eq!(LineEnd.close_line(&mut s), Ok(()));
    assert_eq!(rest(&mut s), b"\r\nx");
}

#[test]
fn line_end_skips_to_the_terminator() {
    let mut s = scan("junk 12\nnext");
    assert_eq!(LineEnd.close_line(&mut s), Ok(()));
    assert_eq!(rest(&mut s), b"next");
}

#[test]
fn line_end_rejects_a_solo_carriage_return() {
    let solo = Error::from(ErrorKind::SoloCarriageReturn);
    assert_eq!(LineEnd.close_line(&mut scan("\r")), Err(solo.clone()));
    let mut s = scan("\rx\n");
    assert_eq!(LineEnd.close_line(&mut s), Err(solo.clone()));
    assert_eq!(rest(&mut s), b"x\n");
    assert_eq!(LineEnd.close_line(&mut scan("\r\r\n")), Err(solo));
    assert_eq!(LineEnd.close_line(&mut failing("\r")), Err(lost()));
}

#[test]
fn line_end_needs_a_terminator() {
    let missing = bad_char(ErrorKind::InvalidEOL, b'\n');
    assert_eq!(LineEnd.close_line(&mut scan("")), Err(missing.clone()));
    assert_eq!(LineEnd.close_line(&mut scan("abc")), Err(missing));
    assert_eq!(LineEnd.close_line(&mut failing("abc")), Err(lost()));
}

#[test]
fn line_end_finds_the_next_line_or_the_end() {
    assert_eq!(LineEnd.find_next(&mut scan("a")), Ok(Marker::LineStart));
    assert_eq!(LineEnd.find_next(&mut scan("Z")), Ok(Marker::LineStart));
    assert_eq!(LineEnd.find_next(&mut scan(" ")), Ok(Marker::LineStart));
    assert_eq!(LineEnd.find_next(&mut scan("\t")), Ok(Marker::LineStart));
    assert_eq!(LineEnd.find_next(&mut scan("")), Ok(Marker::Done));
    assert_eq!(
        LineEnd.find_next(&mut scan("\n")),
        Err(bad_char(ErrorKind::InvalidChar, b'\n'))
    );
    assert_eq!(LineEnd.find_next(&mut scan("-")), Err(bad_char(ErrorKind::InvalidChar, b'-')));
    assert_eq!(LineEnd.find_next(&mut failing("")), Err(lost()));
}

#[test]
fn ambiguous_scalar_gathers_up_to_a_colon() {
    let mut phase = AmbiguousScalar { scratch: b"so ".to_vec() };
    let mut s = scan("far so\tGood: x");
    assert_eq!(phase.find_next(&mut s), Ok(Marker::AmbiguousColon));
    assert_eq!(phase.scratch, b"so far so\tGood");
    assert_eq!(rest(&mut s), b": x");
}

#[test]
fn ambiguous_scalar_gathers_up_to_the_end() {
    let mut phase = AmbiguousScalar::default();
    let mut s = scan("plain text ");
    assert_eq!(phase.find_next(&mut s), Ok(Marker::ScalarLiteral));
    assert_eq!(phase.scratch, b"plain text ");
    assert_eq!(s.peak(), Ok(None));
}

#[test]
fn ambiguous_scalar_rejects_other_bytes() {
    let mut phase = AmbiguousScalar::default();
    let mut s = scan("ab1c");
    assert_eq!(phase.find_next(&mut s), Err(bad_char(ErrorKind::InvalidChar, b'1')));
    assert_eq!(phase.scratch, b"ab");
    assert_eq!(rest(&mut s), b"1c");
    let mut phase = AmbiguousScalar::default();
    assert_eq!(phase.find_next(&mut failing("ab")), Err(lost()));
    assert_eq!(phase.scratch, b"ab");
}

#[test]
fn ambiguous_colon_before_a_blank_starts_a_mapping() {
    let mut phase = AmbiguousColon { scratch: b"key".to_vec() };
    let mut s = scan(": value");
    assert_eq!(phase.find_next(&mut s), Ok(Marker::MapStart));
    assert_eq!(phase.scratch, b"key");
    assert_eq!(rest(&mut s), b"value");
    let mut s = scan(":\tvalue");
    assert_eq!(phase.find_next(&mut s), Ok(Marker::MapStart));
    assert_eq!(rest(&mut s), b"value");
}

#[test]
fn ambiguous_colon_before_a_letter_goes_on_with_the_text() {
    let mut phase = AmbiguousColon { scratch: b"key".to_vec() };
    let mut s = scan(":value");
    assert_eq!(phase.find_next(&mut s), Ok(Marker::AmbiguousScalar));
    assert_eq!(phase.scratch, b"key");
    assert_eq!(rest(&mut s), b"value");
}

#[test]
fn ambiguous_colon_rejects_the_rest() {
    let mut phase = AmbiguousColon { scratch: Vec::new() };
    let mut s = scan(":9");
    assert_eq!(phase.find_next(&mut s), Err(bad_char(ErrorKind::InvalidChar, b'9')));
    assert_eq!(rest(&mut s), b"9");
    assert_eq!(phase.find_next(&mut scan(":")), Err(Error::from(ErrorKind::InvalidEOF)));
    assert_eq!(phase.find_next(&mut scan("")), Err(Error::from(ErrorKind::InvalidEOF)));
    let mut s = scan("x:");
    assert_eq!(
        phase.find_next(&mut s),
        Err(Error::from(ErrorKind::InvalidChar.with_context((vec![b':'], b'x'))))
    );
    assert_eq!(rest(&mut s), b"x:");
    assert_eq!(phase.find_next(&mut failing(":")), Err(lost()));
    assert_eq!(phase.find_next(&mut failing("")), Err(lost()));
}

#[test]
fn scalar_literal_is_followed_by_the_end_only() {
    let phase = ScalarLiteral { scalar: b"text".to_vec() };
    assert_eq!(phase.find_next(&mut scan("")), Ok(Marker::Done));
    assert_eq!(
        phase.find_next(&mut scan("x")),
        Err(bad_char(ErrorKind::StateViolation, b'x'))
    );
    assert_eq!(phase.find_next(&mut failing("")), Err(lost()));
}

#[test]
fn map_start_holds_floor_and_key() {
    let phase = MapStart::new(3);
    assert_eq!(phase.indent_floor, 3);
    assert!(phase.scratch.is_empty());
    let phase = MapStart::extend_from(5, b"key".to_vec());
    assert_eq!(phase.indent_floor, 5);
    assert_eq!(phase.scratch, b"key");
    assert_eq!(phase.find_next(&mut scan("v")), Ok(Marker::MapVerifyKey));
    assert_eq!(phase.find_next(&mut scan("")), Err(Error::from(ErrorKind::EOFMapping)));
    assert_eq!(phase.find_next(&mut failing("")), Err(lost()));
}

#[test]
fn map_verify_key_trims_the_key() {
    let mut phase = MapVerifyKey { indent_floor: 0, key: b" my key \t ".to_vec() };
    assert_eq!(phase.parse_key(&mut scan("x")), Ok(()));
    assert_eq!(phase.key, b" my key");
    let mut phase = MapVerifyKey { indent_floor: 0, key: b" \t".to_vec() };
    assert_eq!(phase.parse_key(&mut scan("x")), Ok(()));
    assert_eq!(phase.key, b"");
}

#[test]
fn map_verify_key_rejects_a_foreign_byte() {
    let mut phase = MapVerifyKey { indent_floor: 0, key: b"ke9y: ".to_vec() };
    assert_eq!(phase.parse_key(&mut scan("x")), Err(bad_char(ErrorKind::InvalidChar, b'9')));
    assert_eq!(phase.key, b"ke9y: ");
}

#[test]
fn map_verify_key_finds_the_blanks() {
    let phase = MapVerifyKey { indent_floor: 0, key: Vec::new() };
    assert_eq!(phase.find_next(&mut scan(" ")), Ok(Marker::MapWhiteSpace));
    assert_eq!(phase.find_next(&mut scan("v")), Ok(Marker::MapWhiteSpace));
    assert_eq!(phase.find_next(&mut scan("")), Err(Error::from(ErrorKind::EOFMapping)));
    assert_eq!(phase.find_next(&mut failing("")), Err(lost()));
}

#[test]
fn map_white_space_skips_blanks() {
    let phase = MapWhiteSpace { indent_floor: 0 };
    let mut s = scan(" \t value");
    assert_eq!(phase.parse_whitespace(&mut s), Ok(()));
    assert_eq!(phase.find_next(&mut s), Ok(Marker::MapValue));
    assert_eq!(rest(&mut s), b"value");
}

#[test]
fn map_white_space_stops_at_what_cannot_start_a_value() {
    let phase = MapWhiteSpace { indent_floor: 0 };
    let unclear = Error::from(ErrorKind::Message(String::from("Unclear fail state")));
    let mut s = scan("  9");
    assert_eq!(phase.parse_whitespace(&mut s), Err(bad_char(ErrorKind::InvalidChar, b'9')));
    assert_eq!(phase.find_next(&mut s), Err(unclear.clone()));
    assert_eq!(rest(&mut s), b"9");
    let mut s = scan("  ");
    assert_eq!(phase.parse_whitespace(&mut s), Ok(()));
    assert_eq!(phase.find_next(&mut s), Err(unclear));
    let mut s = failing(" ");
    assert_eq!(phase.parse_whitespace(&mut s), Err(lost()));
    assert_eq!(phase.find_next(&mut s), Err(lost()));
}

#[test]
fn map_value_gathers_up_to_the_line_end() {
    let mut phase = MapValue { indent_floor: 0, value: Vec::new() };
    let mut s = scan("some Value \r\nnext");
    assert_eq!(phase.parse_value(&mut s), Ok(()));
    assert_eq!(phase.value, b"some Value ");
    assert_eq!(phase.find_next(&mut s), Ok(Marker::LineEnd));
    assert_eq!(rest(&mut s), b"\r\nnext");
    let mut phase = MapValue { indent_floor: 0, value: Vec::new() };
    let mut s = scan("last");
    assert_eq!(phase.parse_value(&mut s), Ok(()));
    assert_eq!(phase.value, b"last");
    assert_eq!(phase.find_next(&mut s), Ok(Marker::Done));
}

#[test]
fn map_value_rejects_other_bytes() {
    let mut phase = MapValue { indent_floor: 0, value: Vec::new() };
    let mut s = scan("va_lue");
    assert_eq!(phase.parse_value(&mut s), Err(bad_char(ErrorKind::ScalarInvalid, b'_')));
    assert_eq!(phase.value, b"va");
    assert_eq!(
        phase.find_next(&mut s),
        Err(Error::from(ErrorKind::InvalidChar.with_context((vec![b'\n', b'\r'], b'_'))))
    );
    let mut phase = MapValue { indent_floor: 0, value: Vec::new() };
    assert_eq!(phase.parse_value(&mut failing("v")), Err(lost()));
}

#[test]
fn failure_hands_out_its_error_once() {
    let err = bad_char(ErrorKind::InvalidChar, b'1');
    let mut phase = Failure::from(err.clone());
    assert_eq!(phase.error(), err);
    assert_eq!(phase.error(), Error::from(ErrorKind::RepeatFailure));
    assert_eq!(phase.error(), Error::from(ErrorKind::RepeatFailure));
}

#[test]
fn phases_hand_their_text_on() {
    let colon = AmbiguousColon::from(AmbiguousScalar { scratch: b"abc".to_vec() });
    assert_eq!(colon.scratch, b"abc");
    let scalar = AmbiguousScalar::from(colon);
    assert_eq!(scalar.scratch, b"abc");
    let literal = ScalarLiteral::from(scalar);
    assert_eq!(literal.scalar, b"abc");
    let key = MapVerifyKey::from(MapStart::extend_from(2, b"key".to_vec()));
    assert_eq!((key.indent_floor, key.key.clone()), (2, b"key".to_vec()));
    let blanks = MapWhiteSpace::from(key);
    assert_eq!(blanks.indent_floor, 2);
    let value = MapValue::from(blanks);
    assert_eq!((value.indent_floor, value.value), (2, Vec::new()));
}

#[test]
fn take_empties_the_buffer() {
    let mut buffer = b"text".to_vec();
    assert_eq!(take(&mut buffer), b"text");
    assert!(buffer.is_empty());
}

#[test]
fn drive_of_a_scalar_hands_out_the_scalar() {
    let mut machine = StateMachine {
        state: ScalarLiteral { scalar: b"text".to_vec() },
        scan: scan(""),
    };
    let mut output: Event = None;
    assert_eq!(machine.drive(&mut output), Ok(Marker::Done));
    assert_eq!(output, Some(EventKind::Node(NodeKind::ScalarPlain(b"text".to_vec()))));
    assert!(machine.state.scalar.is_empty());
}

#[test]
fn drive_of_a_key_hands_out_the_key_even_if_nothing_follows() {
    let mut machine = StateMachine {
        state: MapVerifyKey { indent_floor: 0, key: b"key ".to_vec() },
        scan: scan(""),
    };
    let mut output: Event = None;
    assert_eq!(machine.drive(&mut output), Err(Error::from(ErrorKind::EOFMapping)));
    assert_eq!(output, Some(EventKind::Node(NodeKind::Key(b"key".to_vec()))));
}

#[test]
fn drive_without_an_event_leaves_the_slot_alone() {
    let mut machine = StateMachine::new(Source::new(b"x".to_vec()));
    let mut output: Event = Some(EventKind::Done);
    assert_eq!(machine.drive(&mut output), Ok(Marker::LineStart));
    assert_eq!(output, Some(EventKind::Done));
}

#[test]
fn finished_machine_says_so_at_every_step() {
    let mut state = State::new(Source::new(Vec::new()));
    let mut output: Event = None;
    state = state.step(&mut output);
    assert!(matches!(state, State::Done(_)));
    assert_eq!(output, None);
    for _ in 0..3 {
        let mut output: Event = None;
        state = state.step(&mut output);
        assert!(matches!(state, State::Done(_)));
        assert_eq!(output, Some(EventKind::Done));
    }
}

#[test]
fn failed_machine_repeats_a_failure_after_its_error() {
    let mut state = State::new(Source::new(b"?".to_vec()));
    let mut output: Event = None;
    for _ in 0..3 {
        state = state.step(&mut output);
        assert_eq!(output, None);
    }
    assert!(matches!(state, State::Failure(_)));
    state = state.step(&mut output);
    assert_eq!(output, Some(EventKind::Failure(bad_char(ErrorKind::InvalidChar, b'?'))));
    for _ in 0..3 {
        let mut output: Event = None;
        state = state.step(&mut output);
        assert!(matches!(state, State::Failure(_)));
        assert_eq!(output, Some(EventKind::Failure(Error::from(ErrorKind::RepeatFailure))));
    }
}

#[test]
fn steps_of_a_mapping_entry() {
    let mut state = State::new(Source::new(b" k: v\n".to_vec()));
    let mut output: Event = None;
    state = state.step(&mut output);
    assert!(matches!(state, State::LineStart(_)));
    state = state.step(&mut output);
    assert!(matches!(state, State::AmbiguousScalar(_)));
    assert_eq!(state.history(), &[1]);
    state = state.step(&mut output);
    assert!(matches!(state, State::AmbiguousColon(_)));
    state = state.step(&mut output);
    assert!(matches!(state, State::MapStart(_)));
    state = state.step(&mut output);
    assert!(matches!(state, State::MapVerifyKey(_)));
    assert_eq!(output, None);
    state = state.step(&mut output);
    assert!(matches!(state, State::MapWhiteSpace(_)));
    assert_eq!(output, Some(EventKind::Node(NodeKind::Key(b"k".to_vec()))));
    let mut output: Event = None;
    state = state.step(&mut output);
    assert!(matches!(state, State::MapValue(_)));
    assert_eq!(output, None);
    state = state.step(&mut output);
    assert!(matches!(state, State::LineEnd(_)));
    assert_eq!(output, Some(EventKind::Node(NodeKind::ScalarPlain(b"v".to_vec()))));
    let mut output: Event = None;
    state = state.step(&mut output);
    assert!(matches!(state, State::Done(_)));
    assert_eq!(output, None);
    if let State::Done(machine) = &state {
        assert_eq!(machine.done(), "Finished! Indent history: [1]");
    }
}

#[test]
fn mapping_start_captures_the_floor() {
    let mut s = scan(": v").activate();
    s.update_indent(6);
    s.update_indent(4);
    let machine = StateMachine {
        state: AmbiguousColon { scratch: b"k".to_vec() },
        scan: s.deactivate(),
    };
    let mut machine = StateMachine::<MapStart>::from(machine);
    assert_eq!(machine.state.indent_floor, 6);
    assert_eq!(machine.state.scratch, b"k");
    assert_eq!(machine.scan.peak(), Ok(Some(b':')));
}

#[test]
fn finished_machine_lists_the_indentation_of_its_lines() {
    let mut state = State::new(Source::new(b"a: b\n            c: d\n   e: f\n".to_vec()));
    let mut output: Event = None;
    for _ in 0..100 {
        state = state.step(&mut output);
    }
    match &state {
        State::Done(machine) => {
            assert_eq!(machine.done(), "Finished! Indent history: [0, 12, 3]")
        }
        _ => panic!("the document was not read to its end"),
    }
    let state = State::new(Source::new(Vec::new())).step(&mut output);
    match &state {
        State::Done(machine) => assert_eq!(machine.done(), "Finished! Indent history: []"),
        _ => panic!("the document was not read to its end"),
    }
}

#[test]
fn mapping_entry_holds_the_highest_indentation_so_far() {
    let mut state = State::new(Source::new(b"a: b\n   c: d\n e: f".to_vec()));
    let mut output: Event = None;
    let mut floors = Vec::new();
    for _ in 0..100 {
        state = state.step(&mut output);
        if let State::MapStart(machine) = &state {
            floors.push(machine.state.indent_floor);
        }
    }
    assert_eq!(floors, vec![0, 3, 3]);
}
