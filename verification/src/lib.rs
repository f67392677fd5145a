//! Reading a JSON object as a flat map from text keys to text values.
//!
//! [`parse_to_hashmap`] takes JSON text and returns the map, or says in a
//! [`ParseError`] why there is none: the text is not JSON, it is not an
//! object, or one of its values is not a string.
//!
//! The text is decoded by `serde_json`. What is taken on trust of it stands
//! in [`decoder`]; everything that is decided about the decoded value is
//! decided in verified code, in [`parsing`], and [`laws`] proves what follows.

pub mod decoder;
pub mod document;
pub mod error;
pub mod laws;
pub mod parsing;

pub use crate::error::ParseError;
pub use crate::parsing::{flatten, parse_to_hashmap};
