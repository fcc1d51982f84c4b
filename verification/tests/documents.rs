use yaml_scan::error::{Category, Context, Error, ErrorKind};
use yaml_scan::node::NodeKind;
use yaml_scan::source::Source;
use yaml_scan::Handle;

fn handle(document: &str) -> Handle {
    Handle::new(Source::new(document.as_bytes().to_vec()))
}

fn drive(document: &str) -> Vec<Result<NodeKind, Error>> {
    handle(document).collect()
}

fn key(text: &str) -> Result<NodeKind, Error> {
    Ok(NodeKind::Key(text.as_bytes().to_vec()))
}

fn scalar(text: &str) -> Result<NodeKind, Error> {
    Ok(NodeKind::ScalarPlain(text.as_bytes().to_vec()))
}

fn plain(kind: ErrorKind) -> Result<NodeKind, Error> {
    Err(Error::from(kind))
}

fn bad_char(kind: ErrorKind, ch: u8) -> Result<NodeKind, Error> {
    Err(Error::from(kind.with_context(ch)))
}

#[test]
fn empty_document_gives_nothing() {
    let mut h = handle("");
    assert_eq!(h.next(), None);
    assert_eq!(h.next(), None);
    assert!(h.history().is_empty());
}

#[test]
fn bare_scalar_is_handed_out_without_its_indentation() {
    assert_eq!(drive("hello"), vec![scalar("hello")]);
    assert_eq!(drive("  \thello world"), vec![scalar("hello world")]);
}

#[test]
fn bare_scalar_keeps_the_blanks_at_its_end() {
    assert_eq!(drive("abc \t"), vec![scalar("abc \t")]);
}

#[test]
fn line_of_blanks_gives_no_node() {
    let mut h = handle("   ");
    assert_eq!(h.collect(), vec![]);
    assert_eq!(h.history(), &[3]);
}

#[test]
fn mapping_entry_gives_key_then_value() {
    let mut h = handle("key: value\n");
    assert_eq!(h.next(), Some(key("key")));
    assert_eq!(h.next(), Some(scalar("value")));
    assert_eq!(h.next(), None);
    assert_eq!(h.next(), None);
}

#[test]
fn mapping_entry_without_line_end() {
    assert_eq!(drive("key: value"), vec![key("key"), scalar("value")]);
}

#[test]
fn mapping_entry_with_carriage_return_and_line_feed() {
    assert_eq!(
        drive("a: b\r\nc: d\r\n"),
        vec![key("a"), scalar("b"), key("c"), scalar("d")]
    );
}

#[test]
fn key_loses_the_blanks_at_its_end_and_value_keeps_them() {
    assert_eq!(drive("my key \t: \t some value \n"), vec![key("my key"), scalar("some value ")]);
}

#[test]
fn colon_before_a_letter_is_dropped_from_the_text() {
    assert_eq!(drive("a:b"), vec![scalar("ab")]);
    assert_eq!(drive("a:b: c\n"), vec![key("ab"), scalar("c")]);
}

#[test]
fn digit_in_scalar_is_invalid_char() {
    let mut h = handle("ab1cd");
    let err = h.next().unwrap().unwrap_err();
    assert_eq!(err.kind(), &ErrorKind::InvalidChar);
    assert_eq!(err.context(), Some(&Context::BadChar(b'1')));
    assert_eq!(err.categorize(), Category::Data);
    assert_eq!(h.next(), None);
}

#[test]
fn foreign_byte_at_the_start_of_a_document() {
    assert_eq!(drive("#"), vec![bad_char(ErrorKind::InvalidChar, b'#')]);
    assert_eq!(drive("  7 x"), vec![bad_char(ErrorKind::InvalidChar, b'7')]);
}

#[test]
fn line_feed_after_a_bare_scalar_is_invalid_char() {
    assert_eq!(drive("abc\n"), vec![bad_char(ErrorKind::InvalidChar, b'\n')]);
}

#[test]
fn lone_carriage_return_is_an_error() {
    assert_eq!(
        drive("key: value\r"),
        vec![key("key"), scalar("value"), plain(ErrorKind::SoloCarriageReturn)]
    );
    assert_eq!(
        drive("key: value\rnext: line\n"),
        vec![key("key"), scalar("value"), plain(ErrorKind::SoloCarriageReturn)]
    );
}

#[test]
fn failed_handle_gives_its_error_once() {
    let mut h = handle("key: value\r");
    assert_eq!(h.next(), Some(key("key")));
    assert_eq!(h.next(), Some(scalar("value")));
    assert_eq!(h.next(), Some(plain(ErrorKind::SoloCarriageReturn)));
    for _ in 0..5 {
        assert_eq!(h.next(), None);
        assert_eq!(h.next_node(), None);
    }
    assert_eq!(h.collect(), vec![]);
}

#[test]
fn finished_handle_stays_finished() {
    let mut h = handle("key: value\n");
    assert_eq!(h.collect().len(), 2);
    for _ in 0..5 {
        assert_eq!(h.next(), None);
    }
}

#[test]
fn history_holds_the_indentation_of_each_line() {
    let mut h = handle("a: b\n  c: d\n\t \te: f\n");
    assert_eq!(h.collect().len(), 6);
    assert_eq!(h.history(), &[0, 2, 3]);
}

#[test]
fn history_counts_a_last_line_without_line_end() {
    let mut h = handle("a: b\n    tail");
    assert_eq!(h.collect(), vec![key("a"), scalar("b"), scalar("tail")]);
    assert_eq!(h.history(), &[0, 4]);
}

#[test]
fn history_counts_a_line_of_blanks() {
    let mut h = handle("a: b\n   \nc: d\n");
    assert_eq!(h.collect(), vec![key("a"), scalar("b"), key("c"), scalar("d")]);
    assert_eq!(h.history(), &[0, 3, 0]);
}

#[test]
fn history_grows_as_lines_are_begun() {
    let mut h = handle("a: b\n  c: d\n");
    assert!(h.history().is_empty());
    assert_eq!(h.next(), Some(key("a")));
    assert_eq!(h.history(), &[0]);
    assert_eq!(h.next(), Some(scalar("b")));
    assert_eq!(h.next(), Some(key("c")));
    assert_eq!(h.history(), &[0, 2]);
}

#[test]
fn history_of_a_failed_document_holds_the_lines_begun() {
    let mut h = handle("a: b\n  c: 9\nd: e\n");
    assert_eq!(
        h.collect(),
        vec![key("a"), scalar("b"), key("c"), bad_char(ErrorKind::InvalidChar, b'9')]
    );
    assert_eq!(h.history(), &[0, 2]);
}

#[test]
fn empty_line_is_not_accepted() {
    assert_eq!(
        drive("a: b\n\nc: d\n"),
        vec![key("a"), scalar("b"), bad_char(ErrorKind::InvalidChar, b'\n')]
    );
}

#[test]
fn end_of_input_after_the_colon() {
    assert_eq!(drive("key:"), vec![plain(ErrorKind::InvalidEOF)]);
}

#[test]
fn foreign_byte_after_the_colon() {
    assert_eq!(drive("key:9"), vec![bad_char(ErrorKind::InvalidChar, b'9')]);
    assert_eq!(drive("key:\n"), vec![bad_char(ErrorKind::InvalidChar, b'\n')]);
}

#[test]
fn end_of_input_at_the_start_of_a_mapping() {
    let items = drive("key: ");
    assert_eq!(items, vec![plain(ErrorKind::EOFMapping)]);
    assert_eq!(items[0].clone().unwrap_err().categorize(), Category::State);
}

#[test]
fn end_of_input_where_a_value_should_start() {
    assert_eq!(
        drive("key:  "),
        vec![key("key"), plain(ErrorKind::Message(String::from("Unclear fail state")))]
    );
}

#[test]
fn value_must_start_with_a_letter() {
    assert_eq!(drive("key: 1"), vec![key("key"), bad_char(ErrorKind::InvalidChar, b'1')]);
    assert_eq!(drive("key: |\n"), vec![key("key"), bad_char(ErrorKind::InvalidChar, b'|')]);
    assert_eq!(drive("key: >\n"), vec![key("key"), bad_char(ErrorKind::InvalidChar, b'>')]);
    assert_eq!(drive("key: \n"), vec![key("key"), bad_char(ErrorKind::InvalidChar, b'\n')]);
    assert_eq!(drive("key: \r\n"), vec![key("key"), bad_char(ErrorKind::InvalidChar, b'\r')]);
}

#[test]
fn foreign_byte_in_a_value_is_an_invalid_scalar() {
    assert_eq!(
        drive("key: val7ue\n"),
        vec![key("key"), bad_char(ErrorKind::ScalarInvalid, b'7')]
    );
    assert_eq!(
        drive("key: value: more\n"),
        vec![key("key"), bad_char(ErrorKind::ScalarInvalid, b':')]
    );
}

#[test]
fn failure_of_the_source_is_reported_as_io() {
    let source = Source::failing(b"key: val".to_vec(), String::from("connection reset"));
    let mut h = Handle::new(source);
    assert_eq!(h.next(), Some(key("key")));
    let err = h.next().unwrap().unwrap_err();
    assert_eq!(err.kind(), &ErrorKind::Io(String::from("connection reset")));
    assert_eq!(err.context(), None);
    assert_eq!(err.categorize(), Category::Io);
    assert_eq!(h.next(), None);
}

#[test]
fn failure_of_the_source_before_the_first_byte() {
    let mut h = Handle::new(Source::failing(Vec::new(), String::from("no such device")));
    assert_eq!(
        h.collect(),
        vec![plain(ErrorKind::Io(String::from("no such device")))]
    );
    assert_eq!(h.next(), None);
}

#[test]
fn every_error_is_the_last_item() {
    for document in ["ab1", "key: value\r", "a: b\n\n", "key: ", "a: b\nc: 9\n", "x\ny"] {
        let items = drive(document);
        let errors = items.iter().filter(|item| item.is_err()).count();
        assert_eq!(errors, 1, "{:?}", document);
        assert!(items.last().unwrap().is_err(), "{:?}", document);
    }
}

#[test]
fn node_text_is_letters_and_blanks() {
    for document in ["a b\tc: D e\n f:g: h\n", "some  Words\t"] {
        for item in drive(document) {
            let node = item.unwrap();
            assert!(node
                .text()
                .iter()
                .all(|b| b.is_ascii_alphabetic() || *b == b' ' || *b == b'\t'));
        }
    }
}
