//! Errors of the lexer. Each carries the position, counted in characters
//! from the start of the text, at which it was met.

use crate::text::{decimal, push_digits};
use vstd::prelude::*;
use vstd::string::StringExecFns;

verus! {

/// Why a text does not lex.
#[derive(Debug, Clone, Copy, PartialEq, Eq, Structural)]
pub enum LexerError {
    /// A character that starts no token, or the first digit of a number
    /// that does not fit 64 bits with a sign.
    InvalidCharacter { character: char, position: usize },
    /// A string literal that the text ends in.
    UnterminatedString { position: usize },
    /// A comment that the text ends in.
    UnterminatedComment { position: usize },
}

impl View for LexerError {
    type V = LexerError;

    open spec fn view(&self) -> LexerError {
        *self
    }
}

/// The message of an error.
pub open spec fn error_message(e: LexerError) -> Seq<char> {
    match e {
        LexerError::InvalidCharacter { character, position } => "Invalid character '"@.push(
            character,
        ) + "' at position "@ + decimal(position as int),
        LexerError::UnterminatedString { position } => "Unterminated string starting at position "@
            + decimal(position as int),
        LexerError::UnterminatedComment { position } => "Unterminated comment starting at position "@
            + decimal(position as int),
    }
}

impl LexerError {
    /// The message of the error: see [`error_message`].
    pub fn message(&self) -> (r: String)
        ensures
            r@ == error_message(*self),
    {
        match self {
            LexerError::InvalidCharacter { character, position } => {
                let mut s = String::from_str("Invalid character '");
                s.push(*character);
                s.append("' at position ");
                push_digits(&mut s, *position as u64);
                s
            },
            LexerError::UnterminatedString { position } => {
                let mut s = String::from_str("Unterminated string starting at position ");
                push_digits(&mut s, *position as u64);
                s
            },
            LexerError::UnterminatedComment { position } => {
                let mut s = String::from_str("Unterminated comment starting at position ");
                push_digits(&mut s, *position as u64);
                s
            },
        }
    }
}

} // verus!
