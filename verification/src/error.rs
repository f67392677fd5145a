//! Why a text could not be read as a flat map.

use vstd::prelude::*;

verus! {

/// The three ways in which reading a flat map fails. Each input fails in
/// at most one of them.
#[derive(Clone, Copy, Debug, PartialEq, Eq, Structural)]
pub enum ParseError {
    /// The text is not JSON.
    MalformedJson,
    /// The text is JSON, but its top-level value is not an object.
    NotAnObject,
    /// The text is a JSON object, and one of its values is not a string.
    InvalidValueType,
}

impl ParseError {
    /// The sentence that describes this failure.
    pub open spec fn message_text(self) -> Seq<char> {
        match self {
            ParseError::MalformedJson => "Failed to parse JSON"@,
            ParseError::NotAnObject => "Input is not a JSON object"@,
            ParseError::InvalidValueType => "Invalid value type"@,
        }
    }

    /// The sentence that describes this failure, for a caller that reports it.
    pub fn message(&self) -> (text: &'static str)
        ensures
            text@ == self.message_text(),
    {
        match self {
            ParseError::MalformedJson => "Failed to parse JSON",
            ParseError::NotAnObject => "Input is not a JSON object",
            ParseError::InvalidValueType => "Invalid value type",
        }
    }
}

/// Each failure has a sentence of its own: the sentence tells the failure.
pub proof fn lemma_message_tells_the_error(first: ParseError, second: ParseError)
    requires
        first.message_text() == second.message_text(),
    ensures
        first == second,
{
    reveal_strlit("Failed to parse JSON");
    reveal_strlit("Input is not a JSON object");
    reveal_strlit("Invalid value type");
    assert("Failed to parse JSON"@.len() == 20);
    assert("Input is not a JSON object"@.len() == 26);
    assert("Invalid value type"@.len() == 18);
}

} // verus!
