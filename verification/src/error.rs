//! The error that a failed parse returns.

use crate::number::{digits_of, write_number};
use crate::rule::Rule;
use vstd::prelude::*;
use vstd::string::*;

verus! {

/// Why a text was rejected.
#[derive(Clone, Copy, Debug, PartialEq, Eq, Structural)]
pub enum ErrorKind {
    /// A character that begins no token.
    UnexpectedCharacter,
    /// A string literal whose closing quote is missing.
    UnterminatedString,
    /// An integer literal beyond the range of its place.
    NumberTooLarge,
    /// The grammar asked for this rule and the text held something else.
    Expected(Rule),
}

/// A rejected text: where the parser gave up, and why.
#[derive(Clone, Copy, Debug, PartialEq, Eq, Structural)]
pub struct ParseError {
    /// The offset, in characters, of the place where parsing stopped. Inside
    /// the grammar, before offsets are known, it counts tokens instead.
    pub position: usize,
    pub kind: ErrorKind,
}

/// The mathematical form of a [`ParseError`].
pub ghost struct Failure {
    pub position: int,
    pub kind: ErrorKind,
}

impl View for ParseError {
    type V = Failure;

    open spec fn view(&self) -> Failure {
        Failure { position: self.position as int, kind: self.kind }
    }
}

impl ErrorKind {
    /// What went wrong, in words.
    pub open spec fn description(self) -> Seq<char> {
        match self {
            ErrorKind::UnexpectedCharacter => "unexpected character"@,
            ErrorKind::UnterminatedString => "string literal without its closing quote"@,
            ErrorKind::NumberTooLarge => "number too large"@,
            ErrorKind::Expected(rule) => "expected "@ + rule.description(),
        }
    }

    /// Computes [`ErrorKind::description`].
    pub fn describe(self) -> (text: String)
        ensures
            text@ == self.description(),
    {
        match self {
            ErrorKind::UnexpectedCharacter => String::from_str("unexpected character"),
            ErrorKind::UnterminatedString => String::from_str(
                "string literal without its closing quote",
            ),
            ErrorKind::NumberTooLarge => String::from_str("number too large"),
            ErrorKind::Expected(rule) => {
                let mut text = String::from_str("expected ");
                text.append(rule.describe());
                text
            },
        }
    }
}

impl Failure {
    /// The message of the failure: what went wrong, and the offset at which
    /// it did.
    pub open spec fn message(self) -> Seq<char>
        recommends
            self.position >= 0,
    {
        self.kind.description() + " at offset "@ + digits_of(self.position as nat)
    }
}

impl ParseError {
    /// A message for a reader: what went wrong, and the offset at which it
    /// did.
    pub fn message(&self) -> (text: String)
        ensures
            text@ == self@.message(),
    {
        let mut text = self.kind.describe();
        text.append(" at offset ");
        text.append(write_number(self.position).as_str());
        text
    }
}

} // verus!
