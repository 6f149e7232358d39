//! The parser: tokens to a syntax tree.

pub mod error;
pub mod grammar;
pub mod parser;
pub mod syntax;

pub use error::ParseError;
pub use grammar::rules;
pub use parser::{Parser, TokenStream};
pub use syntax::Precedence;
