//! The four directions of a conversion path and the keywords that name them.

use vstd::prelude::*;
use crate::text::same_text;

verus! {

/// The direction of a conversion path, as its keyword says.
#[derive(Clone, Copy, Debug, PartialEq, Eq, Structural)]
pub enum Direction {
    /// `into`: from the annotated type to the last type of the list.
    Into,
    /// `from`: from the first type of the list to the annotated type.
    From,
    /// `try_into`: as `into`, each step may fail.
    TryInto,
    /// `try_from`: as `from`, each step may fail.
    TryFrom,
}

/// One of the two kinds of conversion, with the keywords of its directions.
pub trait DirectionKind {
    /// The keyword of this kind's backward direction.
    spec fn from_word() -> Seq<char>;

    /// The keyword of this kind's forward direction.
    spec fn into_word() -> Seq<char>;

    fn arg_from() -> (word: &'static str)
        ensures
            word@ == Self::from_word(),
    ;

    fn arg_into() -> (word: &'static str)
        ensures
            word@ == Self::into_word(),
    ;
}

/// Conversions that always succeed.
#[derive(Clone, Copy, Debug, PartialEq, Eq, Structural)]
pub struct Infallible;

/// Conversions that may fail.
#[derive(Clone, Copy, Debug, PartialEq, Eq, Structural)]
pub struct Fallible;

impl DirectionKind for Infallible {
    open spec fn from_word() -> Seq<char> {
        "from"@
    }

    open spec fn into_word() -> Seq<char> {
        "into"@
    }

    fn arg_from() -> (word: &'static str) {
        "from"
    }

    fn arg_into() -> (word: &'static str) {
        "into"
    }
}

impl DirectionKind for Fallible {
    open spec fn from_word() -> Seq<char> {
        "try_from"@
    }

    open spec fn into_word() -> Seq<char> {
        "try_into"@
    }

    fn arg_from() -> (word: &'static str) {
        "try_from"
    }

    fn arg_into() -> (word: &'static str) {
        "try_into"
    }
}

/// The direction that a keyword names, if it names one.
pub open spec fn direction_of(word: Seq<char>) -> Option<Direction> {
    if word == Infallible::into_word() {
        Some(Direction::Into)
    } else if word == Infallible::from_word() {
        Some(Direction::From)
    } else if word == Fallible::into_word() {
        Some(Direction::TryInto)
    } else if word == Fallible::from_word() {
        Some(Direction::TryFrom)
    } else {
        None
    }
}

impl Direction {
    /// Each step of the chain may fail.
    pub open spec fn is_fallible(self) -> bool {
        self == Direction::TryInto || self == Direction::TryFrom
    }

    /// The chain starts at the annotated type.
    pub open spec fn is_forward(self) -> bool {
        self == Direction::Into || self == Direction::TryInto
    }

    /// The keyword that names this direction.
    pub open spec fn word(self) -> Seq<char> {
        match self {
            Direction::Into => Infallible::into_word(),
            Direction::From => Infallible::from_word(),
            Direction::TryInto => Fallible::into_word(),
            Direction::TryFrom => Fallible::from_word(),
        }
    }

    pub fn fallible(&self) -> (b: bool)
        ensures
            b == self.is_fallible(),
    {
        match self {
            Direction::TryInto | Direction::TryFrom => true,
            _ => false,
        }
    }

    pub fn forward(&self) -> (b: bool)
        ensures
            b == self.is_forward(),
    {
        match self {
            Direction::Into | Direction::TryInto => true,
            _ => false,
        }
    }

    pub fn keyword(&self) -> (word: &'static str)
        ensures
            word@ == self.word(),
    {
        match self {
            Direction::Into => Infallible::arg_into(),
            Direction::From => Infallible::arg_from(),
            Direction::TryInto => Fallible::arg_into(),
            Direction::TryFrom => Fallible::arg_from(),
        }
    }

    /// Recognizes a direction keyword.
    pub fn from_keyword(word: &str) -> (direction: Option<Direction>)
        ensures
            direction == direction_of(word@),
    {
        if same_text(word, Infallible::arg_into()) {
            Some(Direction::Into)
        } else if same_text(word, Infallible::arg_from()) {
            Some(Direction::From)
        } else if same_text(word, Fallible::arg_into()) {
            Some(Direction::TryInto)
        } else if same_text(word, Fallible::arg_from()) {
            Some(Direction::TryFrom)
        } else {
            None
        }
    }
}

} // verus!
