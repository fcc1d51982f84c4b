use yaml_scan::error::{Category, Context, ErrData, Error, ErrorKind};
use yaml_scan::event::EventKind;
use yaml_scan::node::NodeKind;

fn all_kinds() -> Vec<(ErrorKind, Category, &'static str)> {
    vec![
        (ErrorKind::Message(String::from("custom")), Category::Data, "custom"),
        (ErrorKind::Io(String::from("broken pipe")), Category::Io, "IO error: broken pipe"),
        (
            ErrorKind::RepeatFailure,
            Category::State,
            "Attempted to drive an already failed parser",
        ),
        (
            ErrorKind::IllegalTransition,
            Category::State,
            "Parser attempted an illegal state transition... this is a bug",
        ),
        (
            ErrorKind::StateViolation,
            Category::State,
            "Parser encountered an unexpected or invalid state",
        ),
        (ErrorKind::InvalidChar, Category::Data, "Parser encountered an invalid character"),
        (ErrorKind::ScalarInvalid, Category::Data, "Parser encountered an invalid scalar"),
        (
            ErrorKind::EOFMapping,
            Category::State,
            "Parser encountered an unexpected EOF while parsing a mapping",
        ),
        (ErrorKind::InvalidEOL, Category::Data, "Parser encountered an invalid EOL"),
        (ErrorKind::InvalidEOF, Category::Data, "Parser encountered an invalid EOF"),
        (
            ErrorKind::SoloCarriageReturn,
            Category::Data,
            "Parser encountered a solo carriage return",
        ),
    ]
}

#[test]
fn every_kind_has_its_category() {
    for (kind, category, _) in all_kinds() {
        assert_eq!(Error::from(kind.clone()).categorize(), category, "{:?}", kind);
    }
}

#[test]
fn every_kind_has_its_text() {
    for (kind, _, text) in all_kinds() {
        assert_eq!(kind.to_string(), text);
        assert_eq!(Error::from(kind).to_string(), text);
    }
}

#[test]
fn error_from_kind_has_no_context() {
    let err = Error::from(ErrorKind::InvalidEOF);
    assert_eq!(err.kind(), &ErrorKind::InvalidEOF);
    assert_eq!(err.context(), None);
}

#[test]
fn with_context_attaches_the_byte() {
    let err = Error::from(ErrorKind::InvalidChar.with_context(b'7'));
    assert_eq!(err.kind(), &ErrorKind::InvalidChar);
    assert_eq!(err.context(), Some(&Context::BadChar(b'7')));
}

#[test]
fn with_context_attaches_the_expected_bytes() {
    let err = Error::from(ErrorKind::InvalidChar.with_context((vec![b':'], b'x')));
    assert_eq!(err.context(), Some(&Context::ExpectedMultipleChar(vec![b':'], b'x')));
}

#[test]
fn with_context_replaces_an_earlier_context() {
    let data = ErrData::new(ErrorKind::InvalidEOL, Some(Context::BadChar(b'a')));
    let err = Error::from(data.with_context(b'b'));
    assert_eq!(err.kind(), &ErrorKind::InvalidEOL);
    assert_eq!(err.context(), Some(&Context::BadChar(b'b')));
}

#[test]
fn err_data_without_context() {
    let err = Error::from(ErrData::new(ErrorKind::ScalarInvalid, None));
    assert_eq!(err.kind(), &ErrorKind::ScalarInvalid);
    assert_eq!(err.context(), None);
}

#[test]
fn io_report_becomes_an_io_error() {
    let err = Error::from(ErrData::from_io(String::from("timed out")));
    assert_eq!(err.kind(), &ErrorKind::Io(String::from("timed out")));
    assert_eq!(err.context(), None);
    assert_eq!(err.categorize(), Category::Io);
    assert_eq!(err.to_string(), "IO error: timed out");
}

#[test]
fn only_the_repeat_failure_is_a_repeat() {
    for (kind, _, _) in all_kinds() {
        let repeat = kind == ErrorKind::RepeatFailure;
        assert_eq!(Error::from(kind).is_repeat(), repeat);
    }
}

#[test]
fn context_of_free_text() {
    let cxt = Context::generic("while reading the key");
    assert_eq!(cxt, Context::Generic(String::from("while reading the key")));
    assert_eq!(cxt.to_string(), "while reading the key");
}

#[test]
fn context_from_a_byte() {
    assert_eq!(Context::from(b'q'), Context::BadChar(b'q'));
    assert_eq!(Context::from((vec![1u8, 2], 3u8)), Context::ExpectedMultipleChar(vec![1, 2], 3));
}

#[test]
fn context_text_of_a_bad_byte() {
    assert_eq!(Context::BadChar(b'1').to_string(), "Bad char: '1'");
    assert_eq!(Context::ExpectedMultipleChar(vec![], b'1').to_string(), "Bad char: '1'");
}

#[test]
fn context_text_of_one_expected_byte() {
    assert_eq!(
        Context::ExpectedMultipleChar(vec![b':'], b'x').to_string(),
        "Expected: ':' got: 'x'"
    );
}

#[test]
fn context_text_of_several_expected_bytes() {
    assert_eq!(
        Context::ExpectedMultipleChar(vec![b'a', b'b', b'c'], b'x').to_string(),
        "Expected one of: ['a', 'b', 'c', ] got: x"
    );
}

#[test]
fn error_text_joins_kind_and_context() {
    let err = Error::from(ErrorKind::InvalidChar.with_context(b'1'));
    assert_eq!(err.to_string(), "Parser encountered an invalid character Bad char: '1'");
    let err = Error::from(ErrorKind::InvalidChar.with_context((vec![b'\n', b'\r'], b'x')));
    assert_eq!(
        err.to_string(),
        "Parser encountered an invalid character Expected one of: ['\n', '\r', ] got: x"
    );
}

#[test]
fn transpose_hands_on_a_node() {
    let node = NodeKind::Key(b"k".to_vec());
    assert_eq!(EventKind::Node(node.clone()).transpose(), Some(Ok(node)));
}

#[test]
fn transpose_hands_on_an_error() {
    let err = Error::from(ErrorKind::InvalidChar.with_context(b'1'));
    assert_eq!(EventKind::Failure(err.clone()).transpose(), Some(Err(err)));
}

#[test]
fn transpose_drops_the_repeat_of_a_failure() {
    assert_eq!(EventKind::Failure(Error::from(ErrorKind::RepeatFailure)).transpose(), None);
}

#[test]
fn transpose_ends_at_done() {
    assert_eq!(EventKind::Done.transpose(), None);
}

#[test]
fn events_from_their_parts() {
    let node = NodeKind::ScalarPlain(b"v".to_vec());
    assert_eq!(EventKind::from(node.clone()), EventKind::Node(node));
    let err = Error::from(ErrorKind::InvalidEOL);
    assert_eq!(EventKind::from(err.clone()), EventKind::Failure(err));
    assert_eq!(EventKind::from(()), EventKind::Done);
}

#[test]
fn node_text() {
    assert_eq!(NodeKind::Key(b"k".to_vec()).text(), &b"k".to_vec());
    assert_eq!(NodeKind::ScalarPlain(b"some text".to_vec()).text(), &b"some text".to_vec());
}
