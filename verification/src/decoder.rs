//! The decoder: `serde_json`, and what this library takes on trust of it.
//!
//! Three functions here are not verified: `decode`, `members_of` and
//! `text_of` call into `serde_json`, and their contracts are stated over two
//! names without a definition, [`decoded`] and [`tree_of`]. What is built on
//! them, [`read_document`], is verified against those contracts.

use crate::document::{Document, DocumentView, Member, MemberView};
use crate::error::ParseError;
use serde_json::Value;
use vstd::prelude::*;

verus! {

/// A JSON value as a tree. Strings and objects are kept whole; of the other
/// kinds only the kind is kept, since nothing here reads more.
pub enum JsonTree {
    Null,
    Bool,
    Number,
    Text(Seq<char>),
    Array,
    /// The members in the decoder's order, each with its key and its value.
    Object(Seq<(Seq<char>, JsonTree)>),
}

/// `serde_json::Value`, a decoded JSON value. Its inside is not read here
/// but through `members_of` and `text_of`.
#[verifier::external_type_specification]
#[verifier::external_body]
pub struct ExValue(serde_json::Value);

/// `serde_json::Error`, the decoder's report of a failure. Nothing is read
/// from it.
#[verifier::external_type_specification]
#[verifier::external_body]
pub struct ExError(serde_json::Error);

/// What `serde_json::from_str` makes of a text: the tree of the value that
/// it decodes, or `None` where it reports an error. Which texts it accepts
/// is not stated here; only that the outcome depends on the text alone.
pub uninterp spec fn decoded(text: Seq<char>) -> Option<JsonTree>;

/// The tree that a `serde_json::Value` holds. The members of an object stand
/// in the order in which its map hands them out.
pub uninterp spec fn tree_of(value: Value) -> JsonTree;

/// `serde_json::from_str`, asked for a `serde_json::Value`. Claimed: it
/// returns a value exactly where `decoded` gives a tree for the text, and
/// the value then holds that tree.
#[verifier::external_body]
fn decode(input: &str) -> (result: Result<Value, serde_json::Error>)
    ensures
        match result {
            Ok(value) => decoded(input@) == Some(tree_of(value)),
            Err(_) => decoded(input@) is None,
        },
{
    serde_json::from_str::<Value>(input)
}

/// Opens a `serde_json::Value::Object` and walks its map with
/// `serde_json::Map::into_iter`. Claimed: an object hands out its members,
/// keys and values as its tree has them and in the tree's order; a value of
/// another kind hands out nothing, and its tree is not an object.
#[verifier::external_body]
fn members_of(value: Value) -> (result: Option<Vec<(String, Value)>>)
    ensures
        match result {
            Some(members) => tree_of(value) == JsonTree::Object(
                Seq::new(members@.len(), |i: int| (members@[i].0@, tree_of(members@[i].1))),
            ),
            None => !(tree_of(value) is Object),
        },
{
    match value {
        Value::Object(map) => Some(map.into_iter().collect()),
        Value::Null
        | Value::Bool(_)
        | Value::Number(_)
        | Value::String(_)
        | Value::Array(_) => None,
    }
}

/// Opens a `serde_json::Value::String`. Claimed: a string hands out its
/// text, which is the text of its tree; a value of another kind hands out
/// nothing, and its tree is not a string.
#[verifier::external_body]
fn text_of(value: Value) -> (result: Option<String>)
    ensures
        match result {
            Some(text) => tree_of(value) == JsonTree::Text(text@),
            None => !(tree_of(value) is Text),
        },
{
    match value {
        Value::String(text) => Some(text),
        Value::Null
        | Value::Bool(_)
        | Value::Number(_)
        | Value::Array(_)
        | Value::Object(_) => None,
    }
}

/// The text of a tree that is a string, and `None` for any other tree.
pub open spec fn text_in(tree: JsonTree) -> Option<Seq<char>> {
    match tree {
        JsonTree::Text(text) => Some(text),
        _ => None,
    }
}

/// A member of an object tree, as a flat reading sees it: its key, and its
/// text where its value is a string.
pub open spec fn member_outline(member: (Seq<char>, JsonTree)) -> MemberView {
    MemberView { key: member.0, text: text_in(member.1) }
}

/// The members of an object tree in their order, each as a flat reading
/// sees it.
pub open spec fn outlines(members: Seq<(Seq<char>, JsonTree)>) -> Seq<MemberView> {
    Seq::new(members.len(), |i: int| member_outline(members[i]))
}

/// A tree as a flat reading sees it: an object with its members, or
/// something else.
pub open spec fn outline(tree: JsonTree) -> DocumentView {
    match tree {
        JsonTree::Object(members) => DocumentView::Object(outlines(members)),
        _ => DocumentView::Other,
    }
}

/// Decodes `input` and keeps of the decoded value what a flat reading needs.
/// Fails, with `MalformedJson`, exactly where the decoder rejects the text.
pub fn read_document(input: &str) -> (result: Result<Document, ParseError>)
    ensures
        match decoded(input@) {
            Some(tree) => result matches Ok(document) && document@ == outline(tree),
            None => result matches Err(error) && error == ParseError::MalformedJson,
        },
{
    match decode(input) {
        Err(_) => Err(ParseError::MalformedJson),
        Ok(value) => Ok(outline_of(value)),
    }
}

/// Keeps of a decoded value what a flat reading needs.
fn outline_of(value: Value) -> (document: Document)
    ensures
        document@ == outline(tree_of(value)),
{
    match members_of(value) {
        None => Document::Other,
        Some(entries) => {
            let ghost pairs = Seq::new(
                entries@.len(),
                |i: int| (entries@[i].0@, tree_of(entries@[i].1)),
            );
            let mut members: Vec<Member> = Vec::new();
            for entry in iter: entries
                invariant
                    iter.seq().len() == pairs.len(),
                    forall|i: int|
                        0 <= i < pairs.len() ==> pairs[i] == (
                            (#[trigger] iter.seq()[i]).0@,
                            tree_of(iter.seq()[i].1),
                        ),
                    members@.len() == iter.index(),
                    forall|i: int|
                        0 <= i < members@.len() ==> (#[trigger] members@[i])@ == member_outline(
                            pairs[i],
                        ),
            {
                let (key, value) = entry;
                members.push(Member { key, text: text_of(value) });
            }
            assert(Seq::new(members@.len(), |i: int| members@[i]@) =~= outlines(pairs));
            Document::Object(members)
        },
    }
}

} // verus!
