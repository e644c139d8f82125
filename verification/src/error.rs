//! The ways in which scanning can fail.

use vstd::prelude::*;

verus! {

/// A lexing failure. Each kind carries the position, counted in characters
/// from the start of the text, at which the scan came to a halt.
#[derive(Debug, Clone, Copy, PartialEq, Eq, Structural)]
pub enum LexError {
    /// The character at this position starts no token.
    UnknownCharacter(usize),
    /// The text ended at this position, or held the NUL character there,
    /// inside a string literal.
    UnterminatedString(usize),
    /// A backslash inside a quoted string literal is followed by this
    /// character, at this position, which names no escape.
    InvalidEscapeSequence(char, usize),
}

impl LexError {
    /// The position that the failure reports.
    pub open spec fn spec_position(&self) -> usize {
        match *self {
            LexError::UnknownCharacter(position) => position,
            LexError::UnterminatedString(position) => position,
            LexError::InvalidEscapeSequence(_, position) => position,
        }
    }

    /// The position that the failure reports.
    #[verifier::when_used_as_spec(spec_position)]
    pub fn position(&self) -> (position: usize)
        ensures
            position == self.spec_position(),
    {
        match *self {
            LexError::UnknownCharacter(position) => position,
            LexError::UnterminatedString(position) => position,
            LexError::InvalidEscapeSequence(_, position) => position,
        }
    }
}

} // verus!
