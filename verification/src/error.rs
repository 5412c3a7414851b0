//! The ways in which an annotation can be rejected.

use vstd::prelude::*;
use vstd::string::*;

verus! {

/// Why one annotation was rejected. Positions count the items of the
/// annotation's list from zero.
#[derive(Clone, Copy, Debug, PartialEq, Eq, Structural)]
pub enum ParseError {
    /// Fewer than two type references; `found` is how many there were.
    TooFewTypes { found: usize },
    /// A type reference at `index` follows an `error = ..` item.
    MisplacedErrorArg { index: usize },
    /// The item at `index` is a second `error = ..` item.
    DuplicateErrorArg { index: usize },
    /// The item at `index` is neither a type reference nor an admissible
    /// `error = ..` item.
    InvalidItem { index: usize },
    /// The keyword in front of the list is none of the four directions.
    UnknownDirection,
    /// The annotation is not a keyword followed by a parenthesized list.
    UnsupportedShape,
    /// A forward chain whose first and last type references are the same.
    SameEndpoints,
}

impl ParseError {
    /// The text shown to the user for this error.
    pub open spec fn message_text(self) -> Seq<char> {
        match self {
            ParseError::TooFewTypes { .. } => "at least two types required"@,
            ParseError::MisplacedErrorArg { .. } => "types not allowed after 'error'"@,
            ParseError::DuplicateErrorArg { .. } => "'error' not allowed multiple times"@,
            ParseError::InvalidItem { .. } => "expected a type or 'error = <type>'"@,
            ParseError::UnknownDirection => "unknown parameter"@,
            ParseError::UnsupportedShape => "expected a direction followed by a list of types"@,
            ParseError::SameEndpoints => "first and last types are equal"@,
        }
    }

    /// The position of the offending item, for the errors that have one.
    pub open spec fn item_index(self) -> Option<usize> {
        match self {
            ParseError::MisplacedErrorArg { index } => Some(index),
            ParseError::DuplicateErrorArg { index } => Some(index),
            ParseError::InvalidItem { index } => Some(index),
            _ => None,
        }
    }

    pub fn message(&self) -> (text: String)
        ensures
            text@ == self.message_text(),
    {
        match self {
            ParseError::TooFewTypes { .. } => String::from_str("at least two types required"),
            ParseError::MisplacedErrorArg { .. } => String::from_str(
                "types not allowed after 'error'",
            ),
            ParseError::DuplicateErrorArg { .. } => String::from_str(
                "'error' not allowed multiple times",
            ),
            ParseError::InvalidItem { .. } => String::from_str(
                "expected a type or 'error = <type>'",
            ),
            ParseError::UnknownDirection => String::from_str("unknown parameter"),
            ParseError::UnsupportedShape => String::from_str(
                "expected a direction followed by a list of types",
            ),
            ParseError::SameEndpoints => String::from_str("first and last types are equal"),
        }
    }

    pub fn position(&self) -> (index: Option<usize>)
        ensures
            index == self.item_index(),
    {
        match self {
            ParseError::MisplacedErrorArg { index } => Some(*index),
            ParseError::DuplicateErrorArg { index } => Some(*index),
            ParseError::InvalidItem { index } => Some(*index),
            _ => None,
        }
    }
}

} // verus!
