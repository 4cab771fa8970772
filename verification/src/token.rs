//! The tokens that values are read from, and the errors of reading.
//!
//! Splitting text into tokens is not done here: a caller hands in the tokens
//! of a value, white space and comments left out. A reader takes the tokens
//! and a position, and returns what it read with the position after it. A
//! reader that fails has consumed nothing, so trying another reader at the
//! same position is all that rolling back takes.

use crate::number::Number;
use vstd::prelude::*;

verus! {

/// One token of a value.
#[derive(Debug, PartialEq, Eq)]
pub enum Token {
    /// A number without a unit.
    Number(Number),
    /// A number with the name of a unit directly after it.
    Dimension(Number, String),
    /// A number with a percent sign after it. The number held is the ratio:
    /// one for `100%`.
    Percentage(Number),
    /// A name.
    Ident(String),
    /// A name with `(` directly after it.
    Function(String),
    /// A `)`.
    CloseParenthesis,
    /// A single character that stands for itself, such as `+`.
    Delim(char),
    /// Any other token.
    Other,
}

/// Why reading failed.
#[derive(Clone, Copy, Debug, PartialEq, Eq)]
pub enum ParseErrorKind {
    /// The token at the position does not fit.
    UnexpectedToken,
    /// A token was needed at the position and there is none.
    EndOfInput,
}

/// A failure to read a value, with the position of the token it failed at.
#[derive(Clone, Copy, Debug, PartialEq, Eq)]
pub struct ParseError {
    pub kind: ParseErrorKind,
    pub position: usize,
}

/// The error of finding no fit for the token at `pos`.
pub open spec fn error_at(tokens: Seq<Token>, pos: usize) -> ParseError {
    if pos < tokens.len() {
        ParseError { kind: ParseErrorKind::UnexpectedToken, position: pos }
    } else {
        ParseError { kind: ParseErrorKind::EndOfInput, position: pos }
    }
}

/// The error of finding no fit for the token at `pos`.
pub fn new_error_for_next_token(tokens: &[Token], pos: usize) -> (r: ParseError)
    ensures
        r == error_at(tokens@, pos),
{
    if pos < tokens.len() {
        ParseError { kind: ParseErrorKind::UnexpectedToken, position: pos }
    } else {
        ParseError { kind: ParseErrorKind::EndOfInput, position: pos }
    }
}

impl Token {
    /// Whether the token is the delimiter `c`.
    pub open spec fn is_delim(self, c: char) -> bool {
        self matches Token::Delim(d) && d == c
    }
}

} // verus!
