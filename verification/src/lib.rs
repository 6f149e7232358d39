//! Front half of a small C++-like compiler: text to tokens, tokens to a tree,
//! name and type checks on the tree, and lowering to basic blocks.

pub mod ast;
pub mod ir;
pub mod lexer;
pub mod model;
pub mod parser;
pub mod semantic;
pub mod text;
pub mod types;
