use std::collections::HashMap;

use flat_json_map::decoder::read_document;
use flat_json_map::document::{Document, Member};
use flat_json_map::error::ParseError;
use flat_json_map::parsing::flatten;

fn text(key: &str, text: &str) -> Member {
    Member { key: key.to_string(), text: Some(text.to_string()) }
}

fn other(key: &str) -> Member {
    Member { key: key.to_string(), text: None }
}

fn expected(entries: &[(&str, &str)]) -> HashMap<String, String> {
    let mut map = HashMap::new();
    for (key, text) in entries {
        map.insert(key.to_string(), text.to_string());
    }
    map
}

#[test]
fn flatten_collects_every_member() {
    let document = Document::Object(vec![text("keya", "valuea"), text("keyb", "valueb")]);
    assert_eq!(flatten(document), Ok(expected(&[("keya", "valuea"), ("keyb", "valueb")])));
}

#[test]
fn flatten_of_no_members_is_empty() {
    assert_eq!(flatten(Document::Object(vec![])), Ok(HashMap::new()));
}

#[test]
fn flatten_refuses_what_is_no_object() {
    assert_eq!(flatten(Document::Other), Err(ParseError::NotAnObject));
}

#[test]
fn flatten_lets_the_last_member_win() {
    let document = Document::Object(vec![
        text("a", "first"),
        text("b", "kept"),
        text("a", "second"),
        text("a", "third"),
    ]);
    assert_eq!(flatten(document), Ok(expected(&[("a", "third"), ("b", "kept")])));
}

#[test]
fn flatten_fails_on_a_first_member_without_text() {
    let document = Document::Object(vec![other("a"), text("b", "x")]);
    assert_eq!(flatten(document), Err(ParseError::InvalidValueType));
}

#[test]
fn flatten_fails_on_a_last_member_without_text() {
    let document = Document::Object(vec![text("a", "x"), text("b", "y"), other("c")]);
    assert_eq!(flatten(document), Err(ParseError::InvalidValueType));
}

#[test]
fn flatten_fails_though_a_later_member_repeats_the_key() {
    let document = Document::Object(vec![other("a"), text("a", "x")]);
    assert_eq!(flatten(document), Err(ParseError::InvalidValueType));
}

#[test]
fn read_document_keeps_keys_and_texts() {
    let document = read_document(r#"{"a":"x","b":"y"}"#).unwrap();
    assert_eq!(document, Document::Object(vec![text("a", "x"), text("b", "y")]));
}

#[test]
fn read_document_marks_values_that_are_no_strings() {
    let document = read_document(r#"{"a":1,"b":"y","c":null,"d":[],"e":{},"f":true}"#).unwrap();
    assert_eq!(
        document,
        Document::Object(vec![
            other("a"),
            text("b", "y"),
            other("c"),
            other("d"),
            other("e"),
            other("f"),
        ])
    );
}

#[test]
fn read_document_of_empty_object_has_no_members() {
    assert_eq!(read_document("{}"), Ok(Document::Object(vec![])));
}

#[test]
fn read_document_sees_only_whether_it_is_an_object() {
    assert_eq!(read_document("[1,2,3]"), Ok(Document::Other));
    assert_eq!(read_document(r#""text""#), Ok(Document::Other));
    assert_eq!(read_document("7"), Ok(Document::Other));
    assert_eq!(read_document("true"), Ok(Document::Other));
    assert_eq!(read_document("null"), Ok(Document::Other));
}

#[test]
fn read_document_fails_on_what_is_no_json() {
    assert_eq!(read_document(r#"{"a":"b","#), Err(ParseError::MalformedJson));
    assert_eq!(read_document("nil"), Err(ParseError::MalformedJson));
}

#[test]
fn read_document_unescapes_texts() {
    let document = read_document(r#"{"a\"":"x\\y"}"#).unwrap();
    assert_eq!(document, Document::Object(vec![text("a\"", "x\\y")]));
}
