//! The grammar, as functions from a list of tokens and a position to a tree
//! and the position after it.
//!
//! ```text
//! program    := { item } end
//! item       := type name "(" parameters ")" block
//!             | name "(" parameters ")" [ "->" type ] block
//!             | type name [ "=" expression ] ";"
//!             | name ":" type [ "=" expression ] ";"
//!             | name "=" expression ";"
//!             | statement
//!             | expression end
//! parameter  := type name | name ":" type
//! type       := name { "*" }
//! statement  := block | "if" "(" expression ")" block [ "else" block ]
//!             | "while" "(" expression ")" block
//!             | "return" [ expression ] ";" | expression ";"
//! block      := "{" { statement } "}"
//! ```
//!
//! A type that leads a declaration is one of the words `int`, `char`,
//! `float`, `double`, `bool`, `void` and `auto`. The words `if`, `while`
//! and `return` lead statements and name nothing. Expressions are parsed by
//! precedence climbing: see [`parse_expression`]. The first token that does
//! not fit ends the parse with an error.

use crate::ast::node::{
    BinaryOperator, SpecExpr, SpecNode, SpecParameter, SpecStatement, SpecType, UnaryOperator,
};
use crate::lexer::token::SpecToken;
use crate::parser::error::SpecParseError;
use crate::text::decimal;
use vstd::prelude::*;

verus! {

/// How tightly an operator binds; later levels bind tighter.
#[derive(Debug, Clone, Copy, PartialEq, Eq, Structural)]
pub enum Precedence {
    Lowest,
    LogicalOr,
    LogicalAnd,
    Equals,
    LessGreater,
    Sum,
    Product,
    Prefix,
    Call,
    Index,
}

/// The place of a level in the order of the levels.
pub open spec fn rank(p: Precedence) -> nat {
    match p {
        Precedence::Lowest => 0,
        Precedence::LogicalOr => 1,
        Precedence::LogicalAnd => 2,
        Precedence::Equals => 3,
        Precedence::LessGreater => 4,
        Precedence::Sum => 5,
        Precedence::Product => 6,
        Precedence::Prefix => 7,
        Precedence::Call => 8,
        Precedence::Index => 9,
    }
}

/// The level of a binary operator.
pub open spec fn binary_precedence(op: BinaryOperator) -> Precedence {
    match op {
        BinaryOperator::Or => Precedence::LogicalOr,
        BinaryOperator::And => Precedence::LogicalAnd,
        BinaryOperator::Eq | BinaryOperator::Ne => Precedence::Equals,
        BinaryOperator::Lt | BinaryOperator::Le | BinaryOperator::Gt | BinaryOperator::Ge => {
            Precedence::LessGreater
        },
        BinaryOperator::Add | BinaryOperator::Sub => Precedence::Sum,
        BinaryOperator::Mul | BinaryOperator::Div | BinaryOperator::Mod => Precedence::Product,
    }
}

/// The token at a position; the end of the text outside the list.
pub open spec fn at(ts: Seq<SpecToken>, pos: int) -> SpecToken {
    if 0 <= pos < ts.len() {
        ts[pos]
    } else {
        SpecToken::Eof
    }
}

/// Whether a token is the punctuation `text`.
pub open spec fn is_punct(t: SpecToken, text: Seq<char>) -> bool {
    t == SpecToken::Punctuation(text)
}

/// Whether a token is the operator `text`.
pub open spec fn is_op(t: SpecToken, text: Seq<char>) -> bool {
    t == SpecToken::Operator(text)
}

/// Whether a token is the identifier `text`.
pub open spec fn is_word(t: SpecToken, text: Seq<char>) -> bool {
    t == SpecToken::Identifier(text)
}

/// A token as an error shows it.
pub open spec fn token_text(t: SpecToken) -> Seq<char> {
    match t {
        SpecToken::Identifier(s) => s,
        SpecToken::Number(n) => decimal(n as int),
        SpecToken::String(s) => "\""@ + s + "\""@,
        SpecToken::Operator(s) => s,
        SpecToken::Punctuation(s) => s,
        SpecToken::Comment(s) => s,
        SpecToken::Whitespace(s) => s,
        SpecToken::Eof => "end of input"@,
    }
}

/// The error for a token that was found where `expected` should stand.
pub open spec fn unexpected(expected: Seq<char>, found: SpecToken) -> SpecParseError {
    SpecParseError::UnexpectedToken { expected, found: token_text(found) }
}

/// The position `p` after something that was parsed from `pos` on. Every
/// parse takes at least one token and stays within the list (see
/// [`lemma_expression_forward`], [`lemma_statement_forward`] and
/// [`lemma_item_forward`]), so this is `p`.
pub open spec fn forward(ts: Seq<SpecToken>, p: int, pos: int) -> int {
    if pos < p <= ts.len() {
        p
    } else {
        pos + 1
    }
}

/// The binary operator that a text writes.
pub open spec fn binary_operator(text: Seq<char>) -> Option<BinaryOperator> {
    if text == "+"@ {
        Some(BinaryOperator::Add)
    } else if text == "-"@ {
        Some(BinaryOperator::Sub)
    } else if text == "*"@ {
        Some(BinaryOperator::Mul)
    } else if text == "/"@ {
        Some(BinaryOperator::Div)
    } else if text == "%"@ {
        Some(BinaryOperator::Mod)
    } else if text == "=="@ {
        Some(BinaryOperator::Eq)
    } else if text == "!="@ {
        Some(BinaryOperator::Ne)
    } else if text == "<"@ {
        Some(BinaryOperator::Lt)
    } else if text == "<="@ {
        Some(BinaryOperator::Le)
    } else if text == ">"@ {
        Some(BinaryOperator::Gt)
    } else if text == ">="@ {
        Some(BinaryOperator::Ge)
    } else if text == "&&"@ {
        Some(BinaryOperator::And)
    } else if text == "||"@ {
        Some(BinaryOperator::Or)
    } else {
        None
    }
}

/// The prefix operator that a text writes.
pub open spec fn unary_operator(text: Seq<char>) -> Option<UnaryOperator> {
    if text == "-"@ {
        Some(UnaryOperator::Neg)
    } else if text == "!"@ {
        Some(UnaryOperator::Not)
    } else if text == "&"@ {
        Some(UnaryOperator::AddrOf)
    } else if text == "*"@ {
        Some(UnaryOperator::Deref)
    } else {
        None
    }
}

/// The binary operator that a token is, if it is one.
pub open spec fn binary_operator_at(ts: Seq<SpecToken>, pos: int) -> Option<BinaryOperator> {
    match at(ts, pos) {
        SpecToken::Operator(text) => binary_operator(text),
        _ => None,
    }
}

/// An expression from `pos` on, made of a prefix and the binary operations
/// that bind tighter than `min`. Operators of one level group to the left;
/// prefix operators bind tighter than every binary operator, and calls
/// tighter still.
pub open spec fn parse_expression(ts: Seq<SpecToken>, pos: int, min: nat) -> Result<
    (SpecExpr, int),
    SpecParseError,
>
    decreases ts.len() - pos, 2int,
{
    if pos < 0 || pos >= ts.len() {
        Err(SpecParseError::ExpectedExpression)
    } else {
        match parse_prefix(ts, pos) {
            Err(error) => Err(error),
            Ok((left, p)) => parse_infix(ts, left, forward(ts, p, pos), min),
        }
    }
}

/// The binary operations that follow `left` and bind tighter than `min`.
pub open spec fn parse_infix(ts: Seq<SpecToken>, left: SpecExpr, pos: int, min: nat) -> Result<
    (SpecExpr, int),
    SpecParseError,
>
    decreases ts.len() - pos, 1int,
{
    match binary_operator_at(ts, pos) {
        Some(op) => if rank(binary_precedence(op)) > min && 0 <= pos < ts.len() {
            match parse_expression(ts, pos + 1, rank(binary_precedence(op))) {
                Err(error) => Err(error),
                Ok((right, p)) => parse_infix(
                    ts,
                    SpecExpr::BinaryOp {
                        left: Box::new(left),
                        operator: op,
                        right: Box::new(right),
                    },
                    forward(ts, p, pos),
                    min,
                ),
            }
        } else {
            Ok((left, pos))
        },
        None => Ok((left, pos)),
    }
}

/// A literal, a name, a call, a prefix operation or an expression in
/// parentheses.
pub open spec fn parse_prefix(ts: Seq<SpecToken>, pos: int) -> Result<
    (SpecExpr, int),
    SpecParseError,
>
    decreases ts.len() - pos, 1int,
{
    if pos < 0 || pos >= ts.len() {
        Err(SpecParseError::ExpectedExpression)
    } else {
        match ts[pos] {
            SpecToken::Number(n) => Ok((SpecExpr::IntegerLiteral(n), pos + 1)),
            SpecToken::String(s) => Ok((SpecExpr::StringLiteral(s), pos + 1)),
            SpecToken::Identifier(name) => if is_punct(at(ts, pos + 1), "("@) {
                match parse_arguments(ts, pos + 2) {
                    Err(error) => Err(error),
                    Ok((arguments, p)) => Ok((SpecExpr::FunctionCall { name, arguments }, p)),
                }
            } else {
                Ok((SpecExpr::Identifier(name), pos + 1))
            },
            SpecToken::Operator(text) => match unary_operator(text) {
                Some(op) => match parse_expression(ts, pos + 1, rank(Precedence::Prefix)) {
                    Err(error) => Err(error),
                    Ok((operand, p)) => Ok(
                        (SpecExpr::UnaryOp { operator: op, operand: Box::new(operand) }, p),
                    ),
                },
                None => Err(SpecParseError::ExpectedExpression),
            },
            SpecToken::Punctuation(text) => if text == "("@ {
                match parse_expression(ts, pos + 1, 0) {
                    Err(error) => Err(error),
                    Ok((inner, p)) => if is_punct(at(ts, p), ")"@) {
                        Ok((inner, p + 1))
                    } else {
                        Err(unexpected(")"@, at(ts, p)))
                    },
                }
            } else {
                Err(SpecParseError::ExpectedExpression)
            },
            _ => Err(SpecParseError::ExpectedExpression),
        }
    }
}

/// The arguments of a call, from the token after its opening parenthesis
/// up to the closing one.
pub open spec fn parse_arguments(ts: Seq<SpecToken>, pos: int) -> Result<
    (Seq<SpecExpr>, int),
    SpecParseError,
>
    decreases ts.len() - pos, 4int,
{
    if is_punct(at(ts, pos), ")"@) {
        Ok((Seq::empty(), pos + 1))
    } else {
        parse_argument_list(ts, pos)
    }
}

/// One argument and those after it, up to the closing parenthesis.
pub open spec fn parse_argument_list(ts: Seq<SpecToken>, pos: int) -> Result<
    (Seq<SpecExpr>, int),
    SpecParseError,
>
    decreases ts.len() - pos, 3int,
{
    match parse_expression(ts, pos, 0) {
        Err(error) => Err(error),
        Ok((argument, p)) => {
            let p = forward(ts, p, pos);
            if is_punct(at(ts, p), ","@) {
                match parse_argument_list(ts, p + 1) {
                    Err(error) => Err(error),
                    Ok((rest, end)) => Ok((seq![argument] + rest, end)),
                }
            } else if is_punct(at(ts, p), ")"@) {
                Ok((seq![argument], p + 1))
            } else {
                Err(unexpected(")"@, at(ts, p)))
            }
        },
    }
}

/// The type that a word names: one of the built-in types, or a type of the
/// user's.
pub open spec fn type_of_word(word: Seq<char>) -> SpecType {
    if word == "int"@ {
        SpecType::Int
    } else if word == "char"@ {
        SpecType::Char
    } else if word == "float"@ {
        SpecType::Float
    } else if word == "double"@ {
        SpecType::Double
    } else if word == "bool"@ {
        SpecType::Bool
    } else if word == "void"@ {
        SpecType::Void
    } else if word == "auto"@ {
        SpecType::Auto
    } else {
        SpecType::Custom(word)
    }
}

/// The words that name a built-in type, and so may lead a declaration.
pub open spec fn is_type_word(word: Seq<char>) -> bool {
    word == "int"@ || word == "char"@ || word == "float"@ || word == "double"@ || word == "bool"@
        || word == "void"@ || word == "auto"@
}

/// The stars after a type: each makes a pointer of what stands before it.
pub open spec fn parse_pointers(ts: Seq<SpecToken>, base: SpecType, pos: int) -> (SpecType, int)
    decreases ts.len() - pos,
{
    if 0 <= pos < ts.len() && is_op(ts[pos], "*"@) {
        parse_pointers(ts, SpecType::Pointer(Box::new(base)), pos + 1)
    } else {
        (base, pos)
    }
}

/// A type: a name and the stars after it.
pub open spec fn parse_type(ts: Seq<SpecToken>, pos: int) -> Result<(SpecType, int), SpecParseError> {
    match at(ts, pos) {
        SpecToken::Identifier(word) => Ok(parse_pointers(ts, type_of_word(word), pos + 1)),
        other => Err(unexpected("type"@, other)),
    }
}

/// A block: the statements between braces.
pub open spec fn parse_block(ts: Seq<SpecToken>, pos: int) -> Result<
    (Seq<SpecStatement>, int),
    SpecParseError,
>
    decreases ts.len() - pos, 3int,
{
    if is_punct(at(ts, pos), "{"@) {
        parse_block_items(ts, pos + 1)
    } else {
        Err(unexpected("{"@, at(ts, pos)))
    }
}

/// The statements of a block from `pos` on, up to its closing brace.
pub open spec fn parse_block_items(ts: Seq<SpecToken>, pos: int) -> Result<
    (Seq<SpecStatement>, int),
    SpecParseError,
>
    decreases ts.len() - pos, 5int,
{
    if pos < 0 || pos >= ts.len() || ts[pos] is Eof {
        Err(unexpected("}"@, SpecToken::Eof))
    } else if is_punct(ts[pos], "}"@) {
        Ok((Seq::empty(), pos + 1))
    } else {
        match parse_statement(ts, pos) {
            Err(error) => Err(error),
            Ok((statement, p)) => match parse_block_items(ts, forward(ts, p, pos)) {
                Err(error) => Err(error),
                Ok((rest, end)) => Ok((seq![statement] + rest, end)),
            },
        }
    }
}

/// A condition in parentheses and the block after it, from the token after
/// the word that leads them.
pub open spec fn parse_condition_and_block(ts: Seq<SpecToken>, pos: int) -> Result<
    (SpecExpr, Seq<SpecStatement>, int),
    SpecParseError,
>
    decreases ts.len() - pos, 3int,
{
    if !is_punct(at(ts, pos), "("@) {
        Err(unexpected("("@, at(ts, pos)))
    } else {
        match parse_expression(ts, pos + 1, 0) {
            Err(error) => Err(error),
            Ok((condition, p)) => {
                let p = forward(ts, p, pos);
                if !is_punct(at(ts, p), ")"@) {
                    Err(unexpected(")"@, at(ts, p)))
                } else {
                    match parse_block(ts, p + 1) {
                        Err(error) => Err(error),
                        Ok((body, q)) => Ok((condition, body, q)),
                    }
                }
            },
        }
    }
}

/// A statement.
pub open spec fn parse_statement(ts: Seq<SpecToken>, pos: int) -> Result<
    (SpecStatement, int),
    SpecParseError,
>
    decreases ts.len() - pos, 4int,
{
    let t = at(ts, pos);
    if pos < 0 || pos >= ts.len() {
        Err(SpecParseError::ExpectedExpression)
    } else if is_punct(t, "{"@) {
        match parse_block(ts, pos) {
            Err(error) => Err(error),
            Ok((list, p)) => Ok((SpecStatement::Block(list), p)),
        }
    } else if is_word(t, "if"@) {
        match parse_condition_and_block(ts, pos + 1) {
            Err(error) => Err(error),
            Ok((condition, then_branch, p)) => {
                let p = forward(ts, p, pos);
                if is_word(at(ts, p), "else"@) {
                    match parse_block(ts, p + 1) {
                        Err(error) => Err(error),
                        Ok((list, q)) => Ok(
                            (
                                SpecStatement::If {
                                    condition,
                                    then_branch,
                                    else_branch: Some(list),
                                },
                                q,
                            ),
                        ),
                    }
                } else {
                    Ok((SpecStatement::If { condition, then_branch, else_branch: None }, p))
                }
            },
        }
    } else if is_word(t, "while"@) {
        match parse_condition_and_block(ts, pos + 1) {
            Err(error) => Err(error),
            Ok((condition, body, p)) => Ok((SpecStatement::While { condition, body }, p)),
        }
    } else if is_word(t, "return"@) {
        if is_punct(at(ts, pos + 1), ";"@) {
            Ok((SpecStatement::Return(None), pos + 2))
        } else {
            match parse_expression(ts, pos + 1, 0) {
                Err(error) => Err(error),
                Ok((value, p)) => if is_punct(at(ts, p), ";"@) {
                    Ok((SpecStatement::Return(Some(value)), p + 1))
                } else {
                    Err(unexpected(";"@, at(ts, p)))
                },
            }
        }
    } else {
        match parse_expression(ts, pos, 0) {
            Err(error) => Err(error),
            Ok((value, p)) => if is_punct(at(ts, p), ";"@) {
                Ok((SpecStatement::Expression(value), p + 1))
            } else {
                Err(unexpected(";"@, at(ts, p)))
            },
        }
    }
}

/// A parameter: a type and a name, or a name, a colon and a type.
pub open spec fn parse_parameter(ts: Seq<SpecToken>, pos: int) -> Result<
    (SpecParameter, int),
    SpecParseError,
> {
    match at(ts, pos) {
        SpecToken::Identifier(word) => if is_punct(at(ts, pos + 1), ":"@) {
            match parse_type(ts, pos + 2) {
                Err(error) => Err(error),
                Ok((param_type, p)) => Ok((SpecParameter { name: word, param_type }, p)),
            }
        } else {
            match parse_type(ts, pos) {
                Err(error) => Err(error),
                Ok((param_type, p)) => match at(ts, p) {
                    SpecToken::Identifier(name) => Ok((SpecParameter { name, param_type }, p + 1)),
                    _ => Err(SpecParseError::ExpectedIdentifier),
                },
            }
        },
        other => Err(unexpected("type"@, other)),
    }
}

/// The parameters of a function, from the token after its opening
/// parenthesis up to the closing one.
pub open spec fn parse_parameters(ts: Seq<SpecToken>, pos: int) -> Result<
    (Seq<SpecParameter>, int),
    SpecParseError,
>
    decreases ts.len() - pos, 1int,
{
    if is_punct(at(ts, pos), ")"@) {
        Ok((Seq::empty(), pos + 1))
    } else {
        parse_parameter_list(ts, pos)
    }
}

/// One parameter and those after it, up to the closing parenthesis.
pub open spec fn parse_parameter_list(ts: Seq<SpecToken>, pos: int) -> Result<
    (Seq<SpecParameter>, int),
    SpecParseError,
>
    decreases ts.len() - pos, 0int,
{
    if pos < 0 || pos >= ts.len() {
        Err(unexpected("type"@, SpecToken::Eof))
    } else {
        match parse_parameter(ts, pos) {
            Err(error) => Err(error),
            Ok((parameter, p)) => {
                let p = forward(ts, p, pos);
                if is_punct(at(ts, p), ","@) {
                    match parse_parameter_list(ts, p + 1) {
                        Err(error) => Err(error),
                        Ok((rest, end)) => Ok((seq![parameter] + rest, end)),
                    }
                } else if is_punct(at(ts, p), ")"@) {
                    Ok((seq![parameter], p + 1))
                } else {
                    Err(unexpected(")"@, at(ts, p)))
                }
            },
        }
    }
}

/// The position of the parenthesis that closes the one opened before
/// `pos`, `depth` more being open.
pub open spec fn closing_parenthesis(ts: Seq<SpecToken>, pos: int, depth: nat) -> Option<int>
    decreases ts.len() - pos,
{
    if pos < 0 || pos >= ts.len() {
        None
    } else if is_punct(ts[pos], "("@) {
        closing_parenthesis(ts, pos + 1, depth + 1)
    } else if is_punct(ts[pos], ")"@) {
        if depth == 0 {
            Some(pos)
        } else {
            closing_parenthesis(ts, pos + 1, (depth - 1) as nat)
        }
    } else {
        closing_parenthesis(ts, pos + 1, depth)
    }
}

/// Whether the parentheses opened before `pos` are those of a function
/// declaration: a block or a return type follows them.
pub open spec fn declares_function(ts: Seq<SpecToken>, pos: int) -> bool {
    match closing_parenthesis(ts, pos, 0) {
        Some(close) => is_punct(at(ts, close + 1), "{"@) || is_op(at(ts, close + 1), "->"@),
        None => false,
    }
}

/// What follows the name of a declared variable: an initializer or
/// nothing, and a semicolon.
pub open spec fn parse_variable_rest(
    ts: Seq<SpecToken>,
    name: Seq<char>,
    data_type: SpecType,
    pos: int,
) -> Result<(SpecNode, int), SpecParseError> {
    if is_op(at(ts, pos), "="@) {
        match parse_expression(ts, pos + 1, 0) {
            Err(error) => Err(error),
            Ok((value, p)) => if is_punct(at(ts, p), ";"@) {
                Ok(
                    (
                        SpecNode::VariableDeclaration {
                            name,
                            data_type,
                            initializer: Some(value),
                        },
                        p + 1,
                    ),
                )
            } else {
                Err(unexpected(";"@, at(ts, p)))
            },
        }
    } else if is_punct(at(ts, pos), ";"@) {
        Ok((SpecNode::VariableDeclaration { name, data_type, initializer: None }, pos + 1))
    } else {
        Err(unexpected(";"@, at(ts, pos)))
    }
}

/// What follows the opening parenthesis of a declared function: the
/// parameters, a return type unless one led the declaration, and the body.
/// A function without a return type returns `void`.
pub open spec fn parse_function_rest(
    ts: Seq<SpecToken>,
    name: Seq<char>,
    leading: Option<SpecType>,
    pos: int,
) -> Result<(SpecNode, int), SpecParseError> {
    match parse_parameters(ts, pos) {
        Err(error) => Err(error),
        Ok((parameters, p)) => {
            let returned = match leading {
                Some(t) => Ok((t, p)),
                None => if is_op(at(ts, p), "->"@) {
                    parse_type(ts, p + 1)
                } else {
                    Ok((SpecType::Void, p))
                },
            };
            match returned {
                Err(error) => Err(error),
                Ok((return_type, q)) => match parse_block(ts, q) {
                    Err(error) => Err(error),
                    Ok((body, end)) => Ok(
                        (SpecNode::FunctionDeclaration { name, parameters, return_type, body }, end),
                    ),
                },
            }
        },
    }
}

/// Whether a token starts a statement that is no expression statement.
pub open spec fn starts_statement(t: SpecToken) -> bool {
    is_punct(t, "{"@) || is_word(t, "if"@) || is_word(t, "while"@) || is_word(t, "return"@)
}

/// A declaration that a built-in type leads.
pub open spec fn parse_typed_item(ts: Seq<SpecToken>, pos: int) -> Result<
    (SpecNode, int),
    SpecParseError,
> {
    match parse_type(ts, pos) {
        Err(error) => Err(error),
        Ok((leading, p)) => match at(ts, p) {
            SpecToken::Identifier(name) => if is_punct(at(ts, p + 1), "("@) {
                parse_function_rest(ts, name, Some(leading), p + 2)
            } else {
                parse_variable_rest(ts, name, leading, p + 1)
            },
            _ => Err(SpecParseError::ExpectedIdentifier),
        },
    }
}

/// A statement or an expression at the top of a program. An expression
/// that the text ends after stands by itself; any other is a statement and
/// needs its semicolon.
pub open spec fn parse_plain_item(ts: Seq<SpecToken>, pos: int) -> Result<
    (SpecNode, int),
    SpecParseError,
> {
    if starts_statement(at(ts, pos)) {
        match parse_statement(ts, pos) {
            Err(error) => Err(error),
            Ok((statement, p)) => Ok((SpecNode::Statement(statement), p)),
        }
    } else {
        match parse_expression(ts, pos, 0) {
            Err(error) => Err(error),
            Ok((value, p)) => if at(ts, p) is Eof {
                Ok((SpecNode::Expression(value), p))
            } else if is_punct(at(ts, p), ";"@) {
                Ok((SpecNode::Statement(SpecStatement::Expression(value)), p + 1))
            } else {
                Err(unexpected(";"@, at(ts, p)))
            },
        }
    }
}

/// An item of a program: a declaration, a statement or an expression.
pub open spec fn parse_item(ts: Seq<SpecToken>, pos: int) -> Result<(SpecNode, int), SpecParseError> {
    match at(ts, pos) {
        SpecToken::Identifier(word) => if starts_statement(at(ts, pos)) {
            parse_plain_item(ts, pos)
        } else if is_type_word(word) {
            parse_typed_item(ts, pos)
        } else if is_punct(at(ts, pos + 1), ":"@) {
            match parse_type(ts, pos + 2) {
                Err(error) => Err(error),
                Ok((data_type, p)) => parse_variable_rest(ts, word, data_type, p),
            }
        } else if is_op(at(ts, pos + 1), "="@) {
            parse_variable_rest(ts, word, SpecType::Auto, pos + 1)
        } else if is_punct(at(ts, pos + 1), "("@) && declares_function(ts, pos + 2) {
            parse_function_rest(ts, word, None, pos + 2)
        } else {
            parse_plain_item(ts, pos)
        },
        _ => parse_plain_item(ts, pos),
    }
}

/// The items from `pos` on, up to the end of the text.
pub open spec fn parse_items(ts: Seq<SpecToken>, pos: int) -> Result<Seq<SpecNode>, SpecParseError>
    decreases ts.len() - pos,
{
    if pos < 0 || pos >= ts.len() || ts[pos] is Eof {
        Ok(Seq::empty())
    } else {
        match parse_item(ts, pos) {
            Err(error) => Err(error),
            Ok((item, p)) => match parse_items(ts, forward(ts, p, pos)) {
                Err(error) => Err(error),
                Ok(rest) => Ok(seq![item] + rest),
            },
        }
    }
}

/// The program that a list of tokens writes, or the first error.
pub open spec fn parse_program(ts: Seq<SpecToken>) -> Result<SpecNode, SpecParseError> {
    match parse_items(ts, 0) {
        Err(error) => Err(error),
        Ok(items) => Ok(SpecNode::Program(items)),
    }
}

/// An expression takes at least one token and ends within the list.
pub proof fn lemma_expression_forward(ts: Seq<SpecToken>, pos: int, min: nat)
    ensures
        parse_expression(ts, pos, min) matches Ok((_, p)) ==> pos < p <= ts.len(),
    decreases ts.len() - pos, 2int,
{
    if 0 <= pos < ts.len() {
        lemma_prefix_forward(ts, pos);
        match parse_prefix(ts, pos) {
            Ok((left, p)) => {
                lemma_infix_forward(ts, left, p, min);
            },
            Err(_) => {},
        }
    }
}

/// The binary operations after an operand end within the list.
pub proof fn lemma_infix_forward(ts: Seq<SpecToken>, left: SpecExpr, pos: int, min: nat)
    requires
        0 <= pos <= ts.len(),
    ensures
        parse_infix(ts, left, pos, min) matches Ok((_, p)) ==> pos <= p <= ts.len(),
    decreases ts.len() - pos, 1int,
{
    match binary_operator_at(ts, pos) {
        Some(op) => {
            if rank(binary_precedence(op)) > min && pos < ts.len() {
                lemma_expression_forward(ts, pos + 1, rank(binary_precedence(op)));
                match parse_expression(ts, pos + 1, rank(binary_precedence(op))) {
                    Ok((right, p)) => {
                        lemma_infix_forward(
                            ts,
                            SpecExpr::BinaryOp {
                                left: Box::new(left),
                                operator: op,
                                right: Box::new(right),
                            },
                            p,
                            min,
                        );
                    },
                    Err(_) => {},
                }
            }
        },
        None => {},
    }
}

/// A prefix takes at least one token and ends within the list.
pub proof fn lemma_prefix_forward(ts: Seq<SpecToken>, pos: int)
    requires
        0 <= pos < ts.len(),
    ensures
        parse_prefix(ts, pos) matches Ok((_, p)) ==> pos < p <= ts.len(),
    decreases ts.len() - pos, 1int,
{
    match ts[pos] {
        SpecToken::Identifier(name) => {
            if is_punct(at(ts, pos + 1), "("@) {
                lemma_arguments_forward(ts, pos + 2);
            }
        },
        SpecToken::Operator(text) => {
            if unary_operator(text) is Some {
                lemma_expression_forward(ts, pos + 1, rank(Precedence::Prefix));
            }
        },
        SpecToken::Punctuation(text) => {
            if text == "("@ {
                lemma_expression_forward(ts, pos + 1, 0);
            }
        },
        _ => {},
    }
}

/// The arguments of a call take at least one token and end within the
/// list.
pub proof fn lemma_arguments_forward(ts: Seq<SpecToken>, pos: int)
    requires
        0 <= pos <= ts.len(),
    ensures
        parse_arguments(ts, pos) matches Ok((_, p)) ==> pos < p <= ts.len(),
    decreases ts.len() - pos, 4int,
{
    if !is_punct(at(ts, pos), ")"@) {
        lemma_argument_list_forward(ts, pos);
    }
}

/// A list of arguments takes at least one token and ends within the list.
pub proof fn lemma_argument_list_forward(ts: Seq<SpecToken>, pos: int)
    requires
        0 <= pos <= ts.len(),
    ensures
        parse_argument_list(ts, pos) matches Ok((_, p)) ==> pos < p <= ts.len(),
    decreases ts.len() - pos, 3int,
{
    lemma_expression_forward(ts, pos, 0);
    match parse_expression(ts, pos, 0) {
        Ok((argument, p)) => {
            if is_punct(at(ts, p), ","@) {
                lemma_argument_list_forward(ts, p + 1);
            }
        },
        Err(_) => {},
    }
}

/// A block takes at least one token and ends within the list.
pub proof fn lemma_block_forward(ts: Seq<SpecToken>, pos: int)
    ensures
        parse_block(ts, pos) matches Ok((_, p)) ==> pos < p <= ts.len(),
    decreases ts.len() - pos, 3int,
{
    if is_punct(at(ts, pos), "{"@) {
        lemma_block_items_forward(ts, pos + 1);
    }
}

/// The statements of a block, with its closing brace, take at least one
/// token and end within the list.
pub proof fn lemma_block_items_forward(ts: Seq<SpecToken>, pos: int)
    ensures
        parse_block_items(ts, pos) matches Ok((_, p)) ==> pos < p <= ts.len(),
    decreases ts.len() - pos, 5int,
{
    if 0 <= pos < ts.len() && !(ts[pos] is Eof) && !is_punct(ts[pos], "}"@) {
        lemma_statement_forward(ts, pos);
        match parse_statement(ts, pos) {
            Ok((statement, p)) => {
                lemma_block_items_forward(ts, p);
            },
            Err(_) => {},
        }
    }
}

/// A condition and its block take at least one token and end within the
/// list.
pub proof fn lemma_condition_forward(ts: Seq<SpecToken>, pos: int)
    ensures
        parse_condition_and_block(ts, pos) matches Ok((_, _, p)) ==> pos < p <= ts.len(),
    decreases ts.len() - pos, 3int,
{
    if is_punct(at(ts, pos), "("@) {
        lemma_expression_forward(ts, pos + 1, 0);
        match parse_expression(ts, pos + 1, 0) {
            Ok((condition, p)) => {
                if is_punct(at(ts, p), ")"@) {
                    lemma_block_forward(ts, p + 1);
                }
            },
            Err(_) => {},
        }
    }
}

/// A statement takes at least one token and ends within the list.
pub proof fn lemma_statement_forward(ts: Seq<SpecToken>, pos: int)
    ensures
        parse_statement(ts, pos) matches Ok((_, p)) ==> pos < p <= ts.len(),
    decreases ts.len() - pos, 4int,
{
    let t = at(ts, pos);
    if 0 <= pos < ts.len() {
        if is_punct(t, "{"@) {
            lemma_block_forward(ts, pos);
        } else if is_word(t, "if"@) {
            lemma_condition_forward(ts, pos + 1);
            match parse_condition_and_block(ts, pos + 1) {
                Ok((condition, then_branch, p)) => {
                    if is_word(at(ts, p), "else"@) {
                        lemma_block_forward(ts, p + 1);
                    }
                },
                Err(_) => {},
            }
        } else if is_word(t, "while"@) {
            lemma_condition_forward(ts, pos + 1);
        } else if is_word(t, "return"@) {
            if !is_punct(at(ts, pos + 1), ";"@) {
                lemma_expression_forward(ts, pos + 1, 0);
            }
        } else {
            lemma_expression_forward(ts, pos, 0);
        }
    }
}

/// The stars after a type end within the list.
pub proof fn lemma_pointers_forward(ts: Seq<SpecToken>, base: SpecType, pos: int)
    requires
        0 <= pos <= ts.len(),
    ensures
        pos <= parse_pointers(ts, base, pos).1 <= ts.len(),
    decreases ts.len() - pos,
{
    if pos < ts.len() && is_op(ts[pos], "*"@) {
        lemma_pointers_forward(ts, SpecType::Pointer(Box::new(base)), pos + 1);
    }
}

/// A type takes at least one token and ends within the list.
pub proof fn lemma_type_forward(ts: Seq<SpecToken>, pos: int)
    ensures
        parse_type(ts, pos) matches Ok((_, p)) ==> pos < p <= ts.len(),
{
    match at(ts, pos) {
        SpecToken::Identifier(word) => {
            lemma_pointers_forward(ts, type_of_word(word), pos + 1);
        },
        _ => {},
    }
}

/// A parameter takes at least one token and ends within the list.
pub proof fn lemma_parameter_forward(ts: Seq<SpecToken>, pos: int)
    ensures
        parse_parameter(ts, pos) matches Ok((_, p)) ==> pos < p <= ts.len(),
{
    lemma_type_forward(ts, pos);
    lemma_type_forward(ts, pos + 2);
}

/// The parameters of a function take at least one token and end within
/// the list.
pub proof fn lemma_parameters_forward(ts: Seq<SpecToken>, pos: int)
    requires
        0 <= pos,
    ensures
        parse_parameters(ts, pos) matches Ok((_, p)) ==> pos < p <= ts.len(),
    decreases ts.len() - pos, 1int,
{
    if !is_punct(at(ts, pos), ")"@) {
        lemma_parameter_list_forward(ts, pos);
    }
}

/// A list of parameters takes at least one token and ends within the
/// list.
pub proof fn lemma_parameter_list_forward(ts: Seq<SpecToken>, pos: int)
    requires
        0 <= pos,
    ensures
        parse_parameter_list(ts, pos) matches Ok((_, p)) ==> pos < p <= ts.len(),
    decreases ts.len() - pos, 0int,
{
    if pos < ts.len() {
        lemma_parameter_forward(ts, pos);
        match parse_parameter(ts, pos) {
            Ok((parameter, p)) => {
                if is_punct(at(ts, p), ","@) {
                    lemma_parameter_list_forward(ts, p + 1);
                }
            },
            Err(_) => {},
        }
    }
}

/// An item of a program takes at least one token and ends within the
/// list.
pub proof fn lemma_item_forward(ts: Seq<SpecToken>, pos: int)
    requires
        0 <= pos,
    ensures
        parse_item(ts, pos) matches Ok((_, p)) ==> pos < p <= ts.len(),
{
    lemma_statement_forward(ts, pos);
    lemma_expression_forward(ts, pos, 0);
    lemma_expression_forward(ts, pos + 2, 0);
    lemma_type_forward(ts, pos);
    lemma_type_forward(ts, pos + 2);
    lemma_parameters_forward(ts, pos + 2);
    match parse_parameters(ts, pos + 2) {
        Ok((parameters, p)) => {
            lemma_type_forward(ts, p + 1);
            lemma_block_forward(ts, p);
            match parse_type(ts, p + 1) {
                Ok((t, q)) => {
                    lemma_block_forward(ts, q);
                },
                Err(_) => {},
            }
        },
        Err(_) => {},
    }
    match parse_type(ts, pos) {
        Ok((leading, p)) => {
            lemma_expression_forward(ts, p + 2, 0);
            lemma_parameters_forward(ts, p + 2);
            match parse_parameters(ts, p + 2) {
                Ok((parameters, q)) => {
                    lemma_block_forward(ts, q);
                },
                Err(_) => {},
            }
        },
        Err(_) => {},
    }
    match parse_type(ts, pos + 2) {
        Ok((data_type, p)) => {
            lemma_expression_forward(ts, p + 1, 0);
        },
        Err(_) => {},
    }
}

/// Multiplication binds tighter than addition: whatever the names `a`,
/// `b` and `c`, the tokens `a + b * c` are the sum of `a` and the product
/// of `b` and `c`.
pub proof fn lemma_product_binds_tighter(a: Seq<char>, b: Seq<char>, c: Seq<char>)
    ensures
        parse_expression(
            seq![
                SpecToken::Identifier(a),
                SpecToken::Operator("+"@),
                SpecToken::Identifier(b),
                SpecToken::Operator("*"@),
                SpecToken::Identifier(c),
                SpecToken::Eof,
            ],
            0,
            0,
        ) == Ok::<(SpecExpr, int), SpecParseError>(
            (
                SpecExpr::BinaryOp {
                    left: Box::new(SpecExpr::Identifier(a)),
                    operator: BinaryOperator::Add,
                    right: Box::new(
                        SpecExpr::BinaryOp {
                            left: Box::new(SpecExpr::Identifier(b)),
                            operator: BinaryOperator::Mul,
                            right: Box::new(SpecExpr::Identifier(c)),
                        },
                    ),
                },
                5,
            ),
        ),
{
    let ts = seq![
        SpecToken::Identifier(a),
        SpecToken::Operator("+"@),
        SpecToken::Identifier(b),
        SpecToken::Operator("*"@),
        SpecToken::Identifier(c),
        SpecToken::Eof,
    ];
    reveal_strlit("+");
    reveal_strlit("-");
    reveal_strlit("*");
    assert("*"@ != "+"@) by {
        assert("*"@[0] != "+"@[0]);
    }
    assert("*"@ != "-"@) by {
        assert("*"@[0] != "-"@[0]);
    }
    assert(binary_operator("+"@) == Some(BinaryOperator::Add));
    assert(binary_operator("*"@) == Some(BinaryOperator::Mul));
    let ia = SpecExpr::Identifier(a);
    let ib = SpecExpr::Identifier(b);
    let ic = SpecExpr::Identifier(c);
    let product = SpecExpr::BinaryOp {
        left: Box::new(ib),
        operator: BinaryOperator::Mul,
        right: Box::new(ic),
    };
    let sum = SpecExpr::BinaryOp {
        left: Box::new(ia),
        operator: BinaryOperator::Add,
        right: Box::new(product),
    };
    assert(parse_prefix(ts, 4) == Ok::<(SpecExpr, int), SpecParseError>((ic, 5)));
    assert(parse_infix(ts, ic, 5, 6) == Ok::<(SpecExpr, int), SpecParseError>((ic, 5)));
    assert(parse_expression(ts, 4, 6) == Ok::<(SpecExpr, int), SpecParseError>((ic, 5)));
    assert(parse_infix(ts, product, 5, 5) == Ok::<(SpecExpr, int), SpecParseError>((product, 5)));
    assert(parse_infix(ts, ib, 3, 5) == Ok::<(SpecExpr, int), SpecParseError>((product, 5)));
    assert(parse_prefix(ts, 2) == Ok::<(SpecExpr, int), SpecParseError>((ib, 3)));
    assert(parse_expression(ts, 2, 5) == Ok::<(SpecExpr, int), SpecParseError>((product, 5)));
    assert(parse_infix(ts, sum, 5, 0) == Ok::<(SpecExpr, int), SpecParseError>((sum, 5)));
    assert(parse_infix(ts, ia, 1, 0) == Ok::<(SpecExpr, int), SpecParseError>((sum, 5)));
    assert(parse_prefix(ts, 0) == Ok::<(SpecExpr, int), SpecParseError>((ia, 1)));
}

} // verus!
