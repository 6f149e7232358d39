//! Tokens.

use vstd::prelude::*;

verus! {

/// A token of the language.
#[derive(Debug, Clone, PartialEq)]
pub enum Token {
    /// A name: a letter or `_`, then letters, digits and `_`.
    Identifier(String),
    /// An integer literal.
    Number(i64),
    /// A string literal: the text between its quotes, escapes as written.
    String(String),
    /// An operator, of one or two characters.
    Operator(String),
    /// A bracket or a separator.
    Punctuation(String),
    /// A comment. The lexer gives none.
    Comment(String),
    /// White space. The lexer skips it and gives none.
    Whitespace(String),
    /// The end of the text.
    Eof,
}

/// Model of [`Token`].
pub enum SpecToken {
    Identifier(Seq<char>),
    Number(i64),
    String(Seq<char>),
    Operator(Seq<char>),
    Punctuation(Seq<char>),
    Comment(Seq<char>),
    Whitespace(Seq<char>),
    Eof,
}

impl View for Token {
    type V = SpecToken;

    open spec fn view(&self) -> SpecToken {
        match self {
            Token::Identifier(s) => SpecToken::Identifier(s@),
            Token::Number(n) => SpecToken::Number(*n),
            Token::String(s) => SpecToken::String(s@),
            Token::Operator(s) => SpecToken::Operator(s@),
            Token::Punctuation(s) => SpecToken::Punctuation(s@),
            Token::Comment(s) => SpecToken::Comment(s@),
            Token::Whitespace(s) => SpecToken::Whitespace(s@),
            Token::Eof => SpecToken::Eof,
        }
    }
}

/// The models of a list of tokens.
pub open spec fn tokens_model(list: Seq<Token>) -> Seq<SpecToken> {
    list.map_values(|t: Token| t@)
}

impl Token {
    /// An identifier token.
    pub fn new_identifier(name: String) -> (r: Self)
        ensures
            r@ == SpecToken::Identifier(name@),
    {
        Token::Identifier(name)
    }

    /// A number token.
    pub fn new_number(value: i64) -> (r: Self)
        ensures
            r@ == SpecToken::Number(value),
    {
        Token::Number(value)
    }

    /// A string literal token.
    pub fn new_string(value: String) -> (r: Self)
        ensures
            r@ == SpecToken::String(value@),
    {
        Token::String(value)
    }

    /// A copy of the token.
    pub fn duplicate(&self) -> (r: Self)
        ensures
            r@ == self@,
    {
        match self {
            Token::Identifier(s) => Token::Identifier(s.clone()),
            Token::Number(n) => Token::Number(*n),
            Token::String(s) => Token::String(s.clone()),
            Token::Operator(s) => Token::Operator(s.clone()),
            Token::Punctuation(s) => Token::Punctuation(s.clone()),
            Token::Comment(s) => Token::Comment(s.clone()),
            Token::Whitespace(s) => Token::Whitespace(s.clone()),
            Token::Eof => Token::Eof,
        }
    }
}

/// A token with the position, counted in characters from the start of the
/// text, of its first character. The end of the text stands at the length
/// of the text.
#[derive(Debug, Clone, PartialEq)]
pub struct SpannedToken {
    pub token: Token,
    pub position: usize,
}

} // verus!
