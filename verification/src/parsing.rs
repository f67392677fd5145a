//! Reading a flat map: from a decoded document, and from JSON text.

use crate::decoder::{decoded, outline, read_document};
use crate::document::{Document, DocumentView, MemberView};
use crate::error::ParseError;
use std::collections::HashMap;
use vstd::prelude::*;

verus! {

/// Every member's value is a string.
pub open spec fn all_text(members: Seq<MemberView>) -> bool {
    forall|i: int| 0 <= i < members.len() ==> (#[trigger] members[i]).text is Some
}

/// The map that the members give when they are entered one after the other,
/// a later member taking the place of an earlier one with the same key.
pub open spec fn flat_map(members: Seq<MemberView>) -> Map<Seq<char>, Seq<char>>
    decreases members.len(),
{
    if members.len() == 0 {
        Map::empty()
    } else {
        flat_map(members.drop_last()).insert(members.last().key, members.last().text->0)
    }
}

/// What reading a document as a flat map comes to.
///
/// An object whose values are all strings gives the map of its members. An
/// object with any other value among its members gives `InvalidValueType`,
/// wherever that member stands. Anything but an object gives `NotAnObject`.
pub open spec fn flat_reading(document: DocumentView) -> Result<
    Map<Seq<char>, Seq<char>>,
    ParseError,
> {
    match document {
        DocumentView::Other => Err(ParseError::NotAnObject),
        DocumentView::Object(members) => if all_text(members) {
            Ok(flat_map(members))
        } else {
            Err(ParseError::InvalidValueType)
        },
    }
}

/// What parsing a text comes to: `MalformedJson` where the decoder rejects
/// the text, and else the flat reading of the value that it decodes.
pub open spec fn parsed(text: Seq<char>) -> Result<Map<Seq<char>, Seq<char>>, ParseError> {
    match decoded(text) {
        None => Err(ParseError::MalformedJson),
        Some(tree) => flat_reading(outline(tree)),
    }
}

/// A returned value is the one `expected`: the same error, or a map that
/// holds the expected entries, text for text, and no others.
pub open spec fn agrees(
    result: Result<HashMap<String, String>, ParseError>,
    expected: Result<Map<Seq<char>, Seq<char>>, ParseError>,
) -> bool {
    match expected {
        Ok(map) => result matches Ok(found) && found.deep_view() == map,
        Err(error) => result matches Err(found) && found == error,
    }
}

/// `std::collections::HashMap::insert` on a map from text to text: the map
/// then holds `text` under `key`, in place of what it held under an equal
/// key, and is otherwise unchanged. vstd states this of `insert` only for key
/// types whose hashing it knows, and `String` is not among them.
#[verifier::external_body]
fn insert_text(map: &mut HashMap<String, String>, key: String, text: String)
    ensures
        final(map).deep_view() == old(map).deep_view().insert(key@, text@),
{
    map.insert(key, text);
}

/// Reads a decoded document as a flat map.
pub fn flatten(document: Document) -> (result: Result<HashMap<String, String>, ParseError>)
    ensures
        agrees(result, flat_reading(document@)),
{
    match document {
        Document::Other => Err(ParseError::NotAnObject),
        Document::Object(members) => {
            let ghost all = Seq::new(members@.len(), |i: int| members@[i]@);
            let mut map: HashMap<String, String> = HashMap::new();
            proof {
                vstd::std_specs::hash::lemma_hashmap_deepview_dom(map);
                assert(map.deep_view() =~= Map::empty());
            }
            for member in iter: members
                invariant
                    document@ == DocumentView::Object(all),
                    iter.seq().len() == all.len(),
                    forall|i: int| 0 <= i < all.len() ==> (#[trigger] iter.seq()[i])@ == all[i],
                    all_text(all.take(iter.index())),
                    map.deep_view() == flat_map(all.take(iter.index())),
            {
                let ghost at = iter.index();
                assert(member@ == all[at]);
                match member.text {
                    None => {
                        assert(all[at].text is None);
                        return Err(ParseError::InvalidValueType);
                    },
                    Some(text) => {
                        insert_text(&mut map, member.key, text);
                    },
                }
                proof {
                    assert(all.take(at + 1).drop_last() =~= all.take(at));
                    assert(all.take(at + 1).last() == all[at]);
                }
            }
            assert(all.take(all.len() as int) =~= all);
            Ok(map)
        },
    }
}

/// Parses JSON text into a flat map from text to text.
///
/// Succeeds exactly on a JSON object whose values are all strings, with the
/// map of its members; a key that the decoder hands out more than once maps
/// to the text of its last member. Fails with `MalformedJson` where the
/// decoder rejects the text, with `NotAnObject` where the decoded value is
/// not an object, and with `InvalidValueType` where a member's value is not
/// a string.
pub fn parse_to_hashmap(input: &str) -> (result: Result<HashMap<String, String>, ParseError>)
    ensures
        agrees(result, parsed(input@)),
{
    match read_document(input) {
        Err(error) => Err(error),
        Ok(document) => flatten(document),
    }
}

} // verus!
