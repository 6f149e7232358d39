//! Errors of the parser.

use vstd::prelude::*;
use vstd::string::StringExecFns;

verus! {

/// Why a text does not parse.
#[derive(Debug, Clone, PartialEq)]
pub enum ParseError {
    /// Another token was expected than the one that was found.
    UnexpectedToken { expected: String, found: String },
    /// An expression was expected.
    ExpectedExpression,
    /// An identifier was expected.
    ExpectedIdentifier,
    /// An expression could not be parsed.
    ExpressionParseError(String),
}

/// Model of [`ParseError`].
pub enum SpecParseError {
    UnexpectedToken { expected: Seq<char>, found: Seq<char> },
    ExpectedExpression,
    ExpectedIdentifier,
    ExpressionParseError(Seq<char>),
}

impl View for ParseError {
    type V = SpecParseError;

    open spec fn view(&self) -> SpecParseError {
        match self {
            ParseError::UnexpectedToken { expected, found } => SpecParseError::UnexpectedToken {
                expected: expected@,
                found: found@,
            },
            ParseError::ExpectedExpression => SpecParseError::ExpectedExpression,
            ParseError::ExpectedIdentifier => SpecParseError::ExpectedIdentifier,
            ParseError::ExpressionParseError(m) => SpecParseError::ExpressionParseError(m@),
        }
    }
}

/// The message of an error.
pub open spec fn error_message(e: SpecParseError) -> Seq<char> {
    match e {
        SpecParseError::UnexpectedToken { expected, found } => "Unexpected token: expected "@
            + expected + ", found "@ + found,
        SpecParseError::ExpectedExpression => "Expected expression"@,
        SpecParseError::ExpectedIdentifier => "Expected identifier"@,
        SpecParseError::ExpressionParseError(m) => "Expression parse error: "@ + m,
    }
}

impl ParseError {
    /// The message of the error: see [`error_message`].
    pub fn message(&self) -> (r: String)
        ensures
            r@ == error_message(self@),
    {
        match self {
            ParseError::UnexpectedToken { expected, found } => {
                let mut s = String::from_str("Unexpected token: expected ");
                s.append(expected.as_str());
                s.append(", found ");
                s.append(found.as_str());
                s
            },
            ParseError::ExpectedExpression => String::from_str("Expected expression"),
            ParseError::ExpectedIdentifier => String::from_str("Expected identifier"),
            ParseError::ExpressionParseError(m) => {
                let mut s = String::from_str("Expression parse error: ");
                s.append(m.as_str());
                s
            },
        }
    }
}

} // verus!
