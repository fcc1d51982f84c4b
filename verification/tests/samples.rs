use std::str::from_utf8;

use yaml_scan::error::{Category, Context, Error, ErrorKind};
use yaml_scan::node::NodeKind;
use yaml_scan::source::Source;
use yaml_scan::Handle;

const KEY_PLAIN: &str = "key: value\n";

const KEY_SQUOTE: &str = "'key': value\n";

const KEY_DQUOTE: &str = "\"key\": value\n";

const MAP_PLAIN: &str = "first: one\nsecond: two\nthird: three\n";

const SEQUENCE_PLAIN: &str = "- one\n- two\n";

/// Pulls at most 100 nodes, printing each, and stops at the first error.
fn print_nodes(document: &str) -> Result<Vec<NodeKind>, Error> {
    let mut handle = Handle::new(Source::new(document.as_bytes().to_vec()));
    let mut nodes = Vec::new();
    for _ in 0..100 {
        match handle.next() {
            Some(node) => {
                let node = node?;
                match &node {
                    NodeKind::Key(v) | NodeKind::ScalarPlain(v) => {
                        println!("Value: {:?}", from_utf8(v))
                    }
                }
                nodes.push(node);
            }
            None => break,
        }
    }
    Ok(nodes)
}

/// The one error that a document with an unsupported byte gives.
fn rejected_byte(document: &str) -> u8 {
    let err = print_nodes(document).unwrap_err();
    assert_eq!(err.kind(), &ErrorKind::InvalidChar);
    assert_eq!(err.categorize(), Category::Data);
    match err.context() {
        Some(Context::BadChar(ch)) => *ch,
        other => panic!("unexpected context {:?}", other),
    }
}

#[test]
fn key_plain() -> Result<(), Error> {
    let nodes = print_nodes(KEY_PLAIN)?;
    assert_eq!(
        nodes,
        vec![
            NodeKind::Key(b"key".to_vec()),
            NodeKind::ScalarPlain(b"value".to_vec()),
        ]
    );
    Ok(())
}

#[test]
fn key_squote() {
    assert_eq!(rejected_byte(KEY_SQUOTE), b'\'');
}

#[test]
fn key_dquote() {
    assert_eq!(rejected_byte(KEY_DQUOTE), b'"');
}

#[test]
fn map_plain() -> Result<(), Error> {
    let nodes = print_nodes(MAP_PLAIN)?;
    assert_eq!(
        nodes,
        vec![
            NodeKind::Key(b"first".to_vec()),
            NodeKind::ScalarPlain(b"one".to_vec()),
            NodeKind::Key(b"second".to_vec()),
            NodeKind::ScalarPlain(b"two".to_vec()),
            NodeKind::Key(b"third".to_vec()),
            NodeKind::ScalarPlain(b"three".to_vec()),
        ]
    );
    Ok(())
}

#[test]
fn sequence_plain() {
    assert_eq!(rejected_byte(SEQUENCE_PLAIN), b'-');
}
