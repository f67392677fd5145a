//! What a flat map is read from: a decoded JSON document, kept as far as the
//! reading looks into it.

use vstd::prelude::*;

verus! {

/// One member of a JSON object.
#[derive(Debug, PartialEq, Eq)]
pub struct Member {
    /// The member's key.
    pub key: String,
    /// The member's value where it is a JSON string; `None` where it is
    /// null, a boolean, a number, an array or an object.
    pub text: Option<String>,
}

/// The mathematical value of a [`Member`].
pub struct MemberView {
    pub key: Seq<char>,
    pub text: Option<Seq<char>>,
}

impl View for Member {
    type V = MemberView;

    open spec fn view(&self) -> MemberView {
        MemberView {
            key: self.key@,
            text: match self.text {
                Some(text) => Some(text@),
                None => None,
            },
        }
    }
}

/// A decoded JSON document.
#[derive(Debug, PartialEq, Eq)]
pub enum Document {
    /// An object, with its members in the order in which the decoder holds
    /// them. A key may occur more than once.
    Object(Vec<Member>),
    /// Any other value: null, a boolean, a number, a string or an array.
    Other,
}

/// The mathematical value of a [`Document`].
pub enum DocumentView {
    Object(Seq<MemberView>),
    Other,
}

impl View for Document {
    type V = DocumentView;

    open spec fn view(&self) -> DocumentView {
        match self {
            Document::Object(members) => DocumentView::Object(
                Seq::new(members@.len(), |i: int| members@[i]@),
            ),
            Document::Other => DocumentView::Other,
        }
    }
}

} // verus!
