//! What can go wrong while a range expression is read.

use vstd::prelude::*;

verus! {

/// Why a range expression could not be read.
#[derive(Debug, Clone, Copy, PartialEq, Eq, PartialOrd, Structural)]
pub enum ParseError {
    /// The character found where the grammar allows none like it.
    InvalidToken(char),
    /// The input ended where the grammar asks for another character.
    EndOfLine,
}

impl ParseError {
    /// The error as a line for the user.
    pub open spec fn message(self) -> Seq<char> {
        match self {
            ParseError::InvalidToken(c) => "Unexpected token: "@.push(c),
            ParseError::EndOfLine => "Unexpected end of line"@,
        }
    }

    /// This error as text: its message.
    pub fn to_string(&self) -> (text: String)
        ensures
            text@ == self.message(),
    {
        match self {
            ParseError::InvalidToken(c) => {
                let mut text = String::from_str("Unexpected token: ");
                text.push(*c);
                text
            },
            ParseError::EndOfLine => String::from_str("Unexpected end of line"),
        }
    }
}

/// A failure told by its place in the input.
#[derive(Debug, Clone, Copy, PartialEq, Eq, Structural)]
pub enum Error {
    /// The index of the character that was not expected.
    Character(usize),
    /// The input ended too early.
    EndOfLine,
}

} // verus!
