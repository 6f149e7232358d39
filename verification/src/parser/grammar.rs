//! The grammar of the language as data.

pub mod rules;
