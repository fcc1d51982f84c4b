use yaml_scan::error::ErrorKind;
use yaml_scan::scanner::{IndentTrack, Scan};
use yaml_scan::source::Source;

fn scan(document: &str) -> Scan {
    Scan::new(Source::new(document.as_bytes().to_vec()))
}

#[test]
fn source_yields_its_bytes_and_then_the_end() {
    let mut source = Source::new(vec![1, 2]);
    assert_eq!(source.next_byte(), Ok(Some(1)));
    assert_eq!(source.next_byte(), Ok(Some(2)));
    assert_eq!(source.next_byte(), Ok(None));
    assert_eq!(source.next_byte(), Ok(None));
}

#[test]
fn failing_source_yields_its_bytes_and_then_the_failure() {
    let mut source = Source::failing(vec![7], String::from("gone"));
    assert_eq!(source.next_byte(), Ok(Some(7)));
    assert_eq!(source.next_byte(), Err(String::from("gone")));
    assert_eq!(source.next_byte(), Err(String::from("gone")));
}

#[test]
fn peak_yields_the_same_byte_until_it_is_discarded() {
    let mut s = scan("ab");
    assert_eq!(s.peak(), Ok(Some(b'a')));
    assert_eq!(s.peak(), Ok(Some(b'a')));
    assert_eq!(s.peak(), Ok(Some(b'a')));
    s.discard();
    assert_eq!(s.peak(), Ok(Some(b'b')));
    s.discard();
    assert_eq!(s.peak(), Ok(None));
    assert_eq!(s.peak(), Ok(None));
}

#[test]
fn discard_without_a_peak_consumes_nothing() {
    let mut s = scan("ab");
    s.discard();
    s.discard();
    assert_eq!(s.peak(), Ok(Some(b'a')));
}

#[test]
fn next_takes_the_byte_that_was_peaked() {
    let mut s = scan("abc");
    assert_eq!(s.peak(), Ok(Some(b'a')));
    assert_eq!(s.next(), Ok(Some(b'a')));
    assert_eq!(s.next(), Ok(Some(b'b')));
    assert_eq!(s.peak(), Ok(Some(b'c')));
    assert_eq!(s.next(), Ok(Some(b'c')));
    assert_eq!(s.next(), Ok(None));
}

#[test]
fn cursor_reports_the_failure_of_its_source() {
    let mut s = Scan::new(Source::failing(vec![b'a'], String::from("bad sector")));
    assert_eq!(s.next(), Ok(Some(b'a')));
    let err = s.peak().unwrap_err();
    assert_eq!(err.kind(), &ErrorKind::Io(String::from("bad sector")));
    assert_eq!(err.context(), None);
    let err = s.next().unwrap_err();
    assert_eq!(err.kind(), &ErrorKind::Io(String::from("bad sector")));
}

#[test]
fn tracker_starts_at_zero() {
    let track = IndentTrack::default();
    assert_eq!(track.floor(), 0);
    assert_eq!(track.previous(), 0);
    assert_eq!(track.current(), 0);
    assert!(track.history().is_empty());
}

#[test]
fn update_shifts_current_to_previous_and_joins_the_history() {
    let mut track = IndentTrack::default().activate();
    track.update(4);
    assert_eq!((track.previous(), track.current()), (0, 4));
    track.update(2);
    assert_eq!((track.previous(), track.current()), (4, 2));
    track.update(6);
    assert_eq!((track.previous(), track.current()), (2, 6));
    assert_eq!(track.history(), &[4, 2, 6]);
}

#[test]
fn floor_stays_while_clamped() {
    let mut track = IndentTrack::default().activate();
    track.clamp();
    track.update(4);
    track.update(8);
    assert_eq!(track.floor(), 0);
}

#[test]
fn floor_rises_and_never_falls_while_unclamped() {
    let mut track = IndentTrack::default().activate();
    track.update(4);
    assert_eq!(track.floor(), 4);
    track.update(2);
    assert_eq!(track.floor(), 4);
    track.update(9);
    assert_eq!(track.floor(), 9);
    track.clamp();
    track.update(12);
    assert_eq!(track.floor(), 9);
    track.unclamp();
    track.update(10);
    assert_eq!(track.floor(), 10);
    assert_eq!(track.history(), &[4, 2, 9, 12, 10]);
}

#[test]
fn deactivating_keeps_what_was_recorded() {
    let mut track = IndentTrack::default().activate();
    track.update(3);
    track.update(5);
    let track = track.deactivate();
    assert_eq!(track.floor(), 5);
    assert_eq!((track.previous(), track.current()), (3, 5));
    assert_eq!(track.history(), &[3, 5]);
    let mut track = track.activate();
    track.update(1);
    assert_eq!(track.floor(), 5);
    assert_eq!(track.history(), &[3, 5, 1]);
}

#[test]
fn cursor_hands_on_to_its_tracker() {
    let mut s = scan("ab").activate();
    assert_eq!(s.peak(), Ok(Some(b'a')));
    s.update_indent(2);
    s.update_indent(7);
    s.clamp();
    s.update_indent(9);
    assert_eq!(s.floor(), 7);
    s.unclamp();
    s.update_indent(8);
    s.clamp();
    s.update_indent(9);
    assert_eq!(s.floor(), 8);
    assert_eq!((s.previous(), s.current()), (8, 9));
    assert_eq!(s.history(), &[2, 7, 9, 8, 9]);
    let mut s = s.deactivate();
    assert_eq!(s.history(), &[2, 7, 9, 8, 9]);
    assert_eq!(s.peak(), Ok(Some(b'a')));
}
