//! What holds of flat maps and of parsing, whatever the input.

use crate::decoder::{decoded, outline, outlines, JsonTree};
use crate::document::{DocumentView, MemberView};
use crate::error::ParseError;
use crate::parsing::{agrees, all_text, flat_map, parsed};
use std::collections::HashMap;
use vstd::prelude::*;

verus! {

/// Some member carries `key`.
pub open spec fn has_key(members: Seq<MemberView>, key: Seq<char>) -> bool {
    exists|i: int| 0 <= i < members.len() && (#[trigger] members[i]).key == key
}

/// The member at `i` is the last one with its key.
pub open spec fn is_last_of_its_key(members: Seq<MemberView>, i: int) -> bool {
    &&& 0 <= i < members.len()
    &&& forall|j: int| i < j < members.len() ==> (#[trigger] members[j]).key != members[i].key
}

/// The flat map of some members holds a key exactly when a member carries it.
pub proof fn lemma_flat_map_keys(members: Seq<MemberView>, key: Seq<char>)
    ensures
        flat_map(members).contains_key(key) <==> has_key(members, key),
    decreases members.len(),
{
    if members.len() > 0 {
        let front = members.drop_last();
        lemma_flat_map_keys(front, key);
        if has_key(front, key) {
            let i = choose|i: int| 0 <= i < front.len() && (#[trigger] front[i]).key == key;
            assert(members[i].key == key);
        }
        if has_key(members, key) {
            let i = choose|i: int| 0 <= i < members.len() && (#[trigger] members[i]).key == key;
            if i < members.len() - 1 {
                assert(front[i].key == key);
            }
        }
    }
}

/// The flat map of some members maps a key to the text of the last member
/// that carries it.
pub proof fn lemma_flat_map_last_wins(members: Seq<MemberView>, i: int)
    requires
        is_last_of_its_key(members, i),
    ensures
        flat_map(members).contains_key(members[i].key),
        flat_map(members)[members[i].key] == members[i].text->0,
    decreases members.len(),
{
    if i < members.len() - 1 {
        let front = members.drop_last();
        assert(members.last() == members[members.len() - 1]);
        assert forall|j: int| i < j < front.len() implies (#[trigger] front[j]).key
            != front[i].key by {
            assert(members[j].key != members[i].key);
        }
        lemma_flat_map_last_wins(front, i);
    }
}

/// The flat map of finitely many members is finite.
pub proof fn lemma_flat_map_finite(members: Seq<MemberView>)
    ensures
        flat_map(members).dom().finite(),
    decreases members.len(),
{
    if members.len() > 0 {
        lemma_flat_map_finite(members.drop_last());
    }
}

/// A text that decodes to an object whose values are all strings parses to
/// a map. The map holds a key exactly when a member carries it, and maps
/// each key to the string of the last member that carries it.
pub proof fn lemma_object_of_strings_parses(text: Seq<char>, members: Seq<(Seq<char>, JsonTree)>)
    requires
        decoded(text) == Some(JsonTree::Object(members)),
        forall|i: int| 0 <= i < members.len() ==> (#[trigger] members[i]).1 is Text,
    ensures
        parsed(text) is Ok,
        forall|key: Seq<char>| #[trigger]
            parsed(text)->Ok_0.contains_key(key) <==> exists|i: int|
                0 <= i < members.len() && (#[trigger] members[i]).0 == key,
        forall|i: int|
            0 <= i < members.len() && (forall|j: int|
                i < j < members.len() ==> (#[trigger] members[j]).0 != members[i].0) ==> {
                &&& parsed(text)->Ok_0.contains_key((#[trigger] members[i]).0)
                &&& parsed(text)->Ok_0[members[i].0] == members[i].1->Text_0
            },
{
    let seen = outlines(members);
    let map = flat_map(seen);
    assert(outline(JsonTree::Object(members)) == DocumentView::Object(seen));
    assert(all_text(seen));
    assert(parsed(text) == Ok::<Map<Seq<char>, Seq<char>>, ParseError>(map));
    assert forall|key: Seq<char>| #[trigger]
        map.contains_key(key) <==> exists|i: int|
            0 <= i < members.len() && (#[trigger] members[i]).0 == key by {
        lemma_flat_map_keys(seen, key);
        if has_key(seen, key) {
            let i = choose|i: int| 0 <= i < seen.len() && (#[trigger] seen[i]).key == key;
            assert(members[i].0 == key);
        }
        if exists|i: int| 0 <= i < members.len() && (#[trigger] members[i]).0 == key {
            let i = choose|i: int| 0 <= i < members.len() && (#[trigger] members[i]).0 == key;
            assert(seen[i].key == key);
        }
    }
    assert forall|i: int|
        0 <= i < members.len() && (forall|j: int|
            i < j < members.len() ==> (#[trigger] members[j]).0 != members[i].0) implies {
        &&& map.contains_key((#[trigger] members[i]).0)
        &&& map[members[i].0] == members[i].1->Text_0
    } by {
        assert forall|j: int| i < j < seen.len() implies (#[trigger] seen[j]).key
            != seen[i].key by {
            assert(members[j].0 != members[i].0);
        }
        lemma_flat_map_last_wins(seen, i);
    }
}

/// A text that decodes to an object with a value that is not a string fails
/// with `InvalidValueType`, wherever that value stands among the members and
/// whatever the other values are.
pub proof fn lemma_other_value_fails(
    text: Seq<char>,
    members: Seq<(Seq<char>, JsonTree)>,
    i: int,
)
    requires
        decoded(text) == Some(JsonTree::Object(members)),
        0 <= i < members.len(),
        !(members[i].1 is Text),
    ensures
        parsed(text) == Err::<Map<Seq<char>, Seq<char>>, ParseError>(ParseError::InvalidValueType),
{
    let seen = outlines(members);
    assert(outline(JsonTree::Object(members)) == DocumentView::Object(seen));
    assert(seen[i].text is None);
}

/// A text that the decoder rejects fails with `MalformedJson`.
pub proof fn lemma_rejected_text_is_malformed(text: Seq<char>)
    requires
        decoded(text) is None,
    ensures
        parsed(text) == Err::<Map<Seq<char>, Seq<char>>, ParseError>(ParseError::MalformedJson),
{
}

/// A text that decodes to null, a boolean, a number, a string or an array
/// fails with `NotAnObject`.
pub proof fn lemma_other_kind_is_no_object(text: Seq<char>, tree: JsonTree)
    requires
        decoded(text) == Some(tree),
        !(tree is Object),
    ensures
        parsed(text) == Err::<Map<Seq<char>, Seq<char>>, ParseError>(ParseError::NotAnObject),
{
}

/// Parsing is a function of the text: two outcomes for one text fail alike,
/// or succeed with maps that hold the same entries.
pub proof fn lemma_same_text_same_outcome(
    text: Seq<char>,
    first: Result<HashMap<String, String>, ParseError>,
    second: Result<HashMap<String, String>, ParseError>,
)
    requires
        agrees(first, parsed(text)),
        agrees(second, parsed(text)),
    ensures
        first is Ok <==> second is Ok,
        first is Ok ==> first->Ok_0.deep_view() == second->Ok_0.deep_view(),
        first is Err ==> first->Err_0 == second->Err_0,
{
}

/// The members are the entries of `mapping`, as strings: each member is an
/// entry, and each entry is a member.
pub open spec fn lists(
    members: Seq<(Seq<char>, JsonTree)>,
    mapping: Map<Seq<char>, Seq<char>>,
) -> bool {
    &&& forall|i: int|
        0 <= i < members.len() ==> {
            &&& mapping.contains_key((#[trigger] members[i]).0)
            &&& members[i].1 == JsonTree::Text(mapping[members[i].0])
        }
    &&& forall|key: Seq<char>| #[trigger]
        mapping.contains_key(key) ==> exists|i: int|
            0 <= i < members.len() && (#[trigger] members[i]).0 == key
}

/// Encoding and parsing gives the map back: a text that decodes to an object
/// whose members are the entries of a map parses to that map.
pub proof fn lemma_encoded_map_parses_back(
    text: Seq<char>,
    members: Seq<(Seq<char>, JsonTree)>,
    mapping: Map<Seq<char>, Seq<char>>,
)
    requires
        decoded(text) == Some(JsonTree::Object(members)),
        lists(members, mapping),
    ensures
        parsed(text) == Ok::<Map<Seq<char>, Seq<char>>, ParseError>(mapping),
{
    let seen = outlines(members);
    assert(outline(JsonTree::Object(members)) == DocumentView::Object(seen));
    assert(all_text(seen));
    assert forall|key: Seq<char>| #[trigger] mapping.contains_key(key) implies has_key(
        seen,
        key,
    ) by {
        let i = choose|i: int| 0 <= i < members.len() && (#[trigger] members[i]).0 == key;
        assert(seen[i].key == key);
    }
    lemma_same_entries(seen, mapping);
}

/// Members that agree with a map on every entry collect to that map.
proof fn lemma_same_entries(members: Seq<MemberView>, mapping: Map<Seq<char>, Seq<char>>)
    requires
        forall|i: int|
            0 <= i < members.len() ==> mapping.contains_key((#[trigger] members[i]).key)
                && members[i].text == Some(mapping[members[i].key]),
        forall|key: Seq<char>| #[trigger] mapping.contains_key(key) ==> has_key(members, key),
    ensures
        flat_map(members) == mapping,
{
    assert forall|key: Seq<char>| #[trigger]
        flat_map(members).contains_key(key) == mapping.contains_key(key) by {
        lemma_flat_map_keys(members, key);
        if has_key(members, key) {
            let i = choose|i: int| 0 <= i < members.len() && (#[trigger] members[i]).key == key;
            assert(mapping.contains_key(members[i].key));
        }
    }
    assert forall|key: Seq<char>| #[trigger] mapping.contains_key(key) implies flat_map(
        members,
    )[key] == mapping[key] by {
        lemma_flat_map_value(members, key);
        let i = choose|i: int|
            0 <= i < members.len() && (#[trigger] members[i]).key == key && flat_map(members)[key]
                == members[i].text->0;
        assert(members[i].text == Some(mapping[members[i].key]));
    }
    assert(flat_map(members) =~= mapping);
}

/// What the flat map holds under a key is the text of a member with that key.
proof fn lemma_flat_map_value(members: Seq<MemberView>, key: Seq<char>)
    requires
        has_key(members, key),
    ensures
        exists|i: int|
            0 <= i < members.len() && (#[trigger] members[i]).key == key && flat_map(members)[key]
                == members[i].text->0,
    decreases members.len(),
{
    let last = members.len() - 1;
    if members[last].key == key {
        assert(flat_map(members)[key] == members[last].text->0);
    } else {
        let front = members.drop_last();
        let i = choose|i: int| 0 <= i < members.len() && (#[trigger] members[i]).key == key;
        assert(front[i].key == key);
        lemma_flat_map_value(front, key);
        let j = choose|j: int|
            0 <= j < front.len() && (#[trigger] front[j]).key == key && flat_map(front)[key]
                == front[j].text->0;
        assert(members[j].key == key);
    }
}

} // verus!
