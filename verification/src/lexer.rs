//! The lexer: text to tokens.

pub mod error;
pub mod lexer;
pub mod token;

pub use error::LexerError;
pub use lexer::Lexer;
pub use token::{SpannedToken, SpecToken, Token};
