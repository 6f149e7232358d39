//! The parser proper: recursive descent over a list of tokens, with
//! precedence climbing for expressions. What it gives is stated by the
//! functions of the grammar in `syntax`.

use crate::ast::node::{
    statements_model, ASTNode, BinaryOperator, Expr, Parameter, SpecExpr, SpecNode,
    SpecParameter, SpecStatement, Statement, Type, UnaryOperator,
};
use crate::lexer::token::{tokens_model, SpecToken, Token};
use crate::parser::error::{ParseError, SpecParseError};
use crate::parser::syntax::{
    at, binary_operator, binary_operator_at, binary_precedence, closing_parenthesis,
    declares_function, is_op, is_punct, is_type_word, is_word, parse_argument_list,
    parse_arguments, parse_block, parse_block_items, parse_condition_and_block,
    parse_expression, parse_function_rest, parse_infix, parse_item, parse_items,
    parse_parameter, parse_parameter_list, parse_parameters, parse_plain_item, parse_pointers,
    parse_prefix, parse_program, parse_statement, parse_type, parse_variable_rest, rank,
    type_of_word, unary_operator, unexpected, Precedence,
};
use crate::text::{decimal_string, same_text};
use vstd::prelude::*;
use vstd::string::StringExecFns;

verus! {

impl Precedence {
    /// The place of the level in the order of the levels: see [`rank`].
    pub fn rank(&self) -> (r: u8)
        ensures
            r == rank(*self),
    {
        match self {
            Precedence::Lowest => 0,
            Precedence::LogicalOr => 1,
            Precedence::LogicalAnd => 2,
            Precedence::Equals => 3,
            Precedence::LessGreater => 4,
            Precedence::Sum => 5,
            Precedence::Product => 6,
            Precedence::Prefix => 7,
            Precedence::Call => 8,
            Precedence::Index => 9,
        }
    }

    /// The level of a binary operator: see [`binary_precedence`].
    pub fn of_binary(op: BinaryOperator) -> (r: Precedence)
        ensures
            r == binary_precedence(op),
    {
        match op {
            BinaryOperator::Or => Precedence::LogicalOr,
            BinaryOperator::And => Precedence::LogicalAnd,
            BinaryOperator::Eq | BinaryOperator::Ne => Precedence::Equals,
            BinaryOperator::Lt | BinaryOperator::Le | BinaryOperator::Gt | BinaryOperator::Ge => {
                Precedence::LessGreater
            },
            BinaryOperator::Add | BinaryOperator::Sub => Precedence::Sum,
            BinaryOperator::Mul | BinaryOperator::Div | BinaryOperator::Mod => Precedence::Product,
        }
    }
}

/// A result of the parser is what the grammar says: the same tree and the
/// same position, which lies after `pos` and within the list; or the same
/// error.
pub open spec fn parsed<T: View>(
    r: Result<(T, usize), ParseError>,
    m: Result<(T::V, int), SpecParseError>,
    pos: int,
    len: int,
) -> bool {
    match m {
        Ok((value, next)) => r matches Ok((x, q)) && x@ == value && q == next && pos < q <= len,
        Err(error) => r matches Err(x) && x@ == error,
    }
}

/// The models of a list of expressions.
pub open spec fn expressions_model(list: Seq<Expr>) -> Seq<SpecExpr> {
    list.map_values(|e: Expr| e@)
}

/// The models of a list of parameters.
pub open spec fn parameters_model(list: Seq<Parameter>) -> Seq<SpecParameter> {
    list.map_values(|p: Parameter| p@)
}

/// The models of a list of nodes.
pub open spec fn nodes_model(list: Seq<ASTNode>) -> Seq<SpecNode> {
    list.map_values(|n: ASTNode| n@)
}

/// Whether the token at `pos` is the punctuation `text`.
fn punct_at(tokens: &Vec<Token>, pos: usize, text: &str) -> (r: bool)
    ensures
        r == is_punct(at(tokens_model(tokens@), pos as int), text@),
{
    if pos < tokens.len() {
        match &tokens[pos] {
            Token::Punctuation(s) => same_text(s.as_str(), text),
            _ => false,
        }
    } else {
        false
    }
}

/// Whether the token at `pos` is the operator `text`.
fn op_at(tokens: &Vec<Token>, pos: usize, text: &str) -> (r: bool)
    ensures
        r == is_op(at(tokens_model(tokens@), pos as int), text@),
{
    if pos < tokens.len() {
        match &tokens[pos] {
            Token::Operator(s) => same_text(s.as_str(), text),
            _ => false,
        }
    } else {
        false
    }
}

/// Whether the token at `pos` is the word `text`.
fn word_at(tokens: &Vec<Token>, pos: usize, text: &str) -> (r: bool)
    ensures
        r == is_word(at(tokens_model(tokens@), pos as int), text@),
{
    if pos < tokens.len() {
        match &tokens[pos] {
            Token::Identifier(s) => same_text(s.as_str(), text),
            _ => false,
        }
    } else {
        false
    }
}

/// Whether the text ends at `pos`.
fn end_at(tokens: &Vec<Token>, pos: usize) -> (r: bool)
    ensures
        r == (at(tokens_model(tokens@), pos as int) is Eof),
{
    if pos < tokens.len() {
        match &tokens[pos] {
            Token::Eof => true,
            _ => false,
        }
    } else {
        true
    }
}

/// The error for the token at `pos`, found where `expected` should stand.
fn unexpected_at(tokens: &Vec<Token>, pos: usize, expected: &str) -> (r: ParseError)
    ensures
        r@ == unexpected(expected@, at(tokens_model(tokens@), pos as int)),
{
    let found = if pos < tokens.len() {
        match &tokens[pos] {
            Token::Identifier(s) => s.clone(),
            Token::Number(n) => decimal_string(*n),
            Token::String(s) => {
                let mut text = String::from_str("\"");
                text.append(s.as_str());
                text.append("\"");
                text
            },
            Token::Operator(s) => s.clone(),
            Token::Punctuation(s) => s.clone(),
            Token::Comment(s) => s.clone(),
            Token::Whitespace(s) => s.clone(),
            Token::Eof => String::from_str("end of input"),
        }
    } else {
        String::from_str("end of input")
    };
    ParseError::UnexpectedToken { expected: String::from_str(expected), found }
}

/// The binary operator that a text writes: see [`binary_operator`].
fn binary_of(text: &str) -> (r: Option<BinaryOperator>)
    ensures
        r == binary_operator(text@),
{
    if same_text(text, "+") {
        Some(BinaryOperator::Add)
    } else if same_text(text, "-") {
        Some(BinaryOperator::Sub)
    } else if same_text(text, "*") {
        Some(BinaryOperator::Mul)
    } else if same_text(text, "/") {
        Some(BinaryOperator::Div)
    } else if same_text(text, "%") {
        Some(BinaryOperator::Mod)
    } else if same_text(text, "==") {
        Some(BinaryOperator::Eq)
    } else if same_text(text, "!=") {
        Some(BinaryOperator::Ne)
    } else if same_text(text, "<") {
        Some(BinaryOperator::Lt)
    } else if same_text(text, "<=") {
        Some(BinaryOperator::Le)
    } else if same_text(text, ">") {
        Some(BinaryOperator::Gt)
    } else if same_text(text, ">=") {
        Some(BinaryOperator::Ge)
    } else if same_text(text, "&&") {
        Some(BinaryOperator::And)
    } else if same_text(text, "||") {
        Some(BinaryOperator::Or)
    } else {
        None
    }
}

/// The prefix operator that a text writes: see [`unary_operator`].
fn unary_of(text: &str) -> (r: Option<UnaryOperator>)
    ensures
        r == unary_operator(text@),
{
    if same_text(text, "-") {
        Some(UnaryOperator::Neg)
    } else if same_text(text, "!") {
        Some(UnaryOperator::Not)
    } else if same_text(text, "&") {
        Some(UnaryOperator::AddrOf)
    } else if same_text(text, "*") {
        Some(UnaryOperator::Deref)
    } else {
        None
    }
}

/// The binary operator at `pos`, if a token stands there that is one.
fn binary_at(tokens: &Vec<Token>, pos: usize) -> (r: Option<BinaryOperator>)
    ensures
        r == binary_operator_at(tokens_model(tokens@), pos as int),
{
    if pos < tokens.len() {
        match &tokens[pos] {
            Token::Operator(text) => binary_of(text.as_str()),
            _ => None,
        }
    } else {
        None
    }
}

/// An expression: see [`parse_expression`].
pub fn expression(tokens: &Vec<Token>, pos: usize, min: u8) -> (r: Result<(Expr, usize), ParseError>)
    ensures
        parsed(
            r,
            parse_expression(tokens_model(tokens@), pos as int, min as nat),
            pos as int,
            tokens.len() as int,
        ),
    decreases tokens.len() - pos, 2int,
{
    if pos >= tokens.len() {
        return Err(ParseError::ExpectedExpression);
    }
    match prefix(tokens, pos) {
        Err(error) => Err(error),
        Ok((left, p)) => infix(tokens, left, p, min, pos),
    }
}

/// The binary operations after `left`: see [`parse_infix`]. `start` is
/// where `left` began.
fn infix(tokens: &Vec<Token>, left: Expr, pos: usize, min: u8, start: usize) -> (r: Result<
    (Expr, usize),
    ParseError,
>)
    requires
        start < pos <= tokens.len(),
    ensures
        parsed(
            r,
            parse_infix(tokens_model(tokens@), left@, pos as int, min as nat),
            start as int,
            tokens.len() as int,
        ),
    decreases tokens.len() - pos, 1int,
{
    match binary_at(tokens, pos) {
        Some(op) => {
            let level = Precedence::of_binary(op).rank();
            if level > min && pos < tokens.len() {
                match expression(tokens, pos + 1, level) {
                    Err(error) => Err(error),
                    Ok((right, p)) => {
                        let combined = Expr::BinaryOp {
                            left: Box::new(left),
                            operator: op,
                            right: Box::new(right),
                        };
                        infix(tokens, combined, p, min, start)
                    },
                }
            } else {
                Ok((left, pos))
            }
        },
        None => Ok((left, pos)),
    }
}

/// A prefix: see [`parse_prefix`].
fn prefix(tokens: &Vec<Token>, pos: usize) -> (r: Result<(Expr, usize), ParseError>)
    requires
        pos < tokens.len(),
    ensures
        parsed(r, parse_prefix(tokens_model(tokens@), pos as int), pos as int, tokens.len() as int),
    decreases tokens.len() - pos, 1int,
{
    match &tokens[pos] {
        Token::Number(n) => Ok((Expr::IntegerLiteral(*n), pos + 1)),
        Token::String(s) => Ok((Expr::StringLiteral(s.clone()), pos + 1)),
        Token::Identifier(name) => {
            if punct_at(tokens, pos + 1, "(") {
                match arguments(tokens, pos + 2) {
                    Err(error) => Err(error),
                    Ok((list, p)) => {
                        let call = Expr::FunctionCall { name: name.clone(), arguments: list };
                        proof {
                            assert(call@->arguments =~= expressions_model(list@));
                        }
                        Ok((call, p))
                    },
                }
            } else {
                Ok((Expr::Identifier(name.clone()), pos + 1))
            }
        },
        Token::Operator(text) => match unary_of(text.as_str()) {
            Some(op) => match expression(tokens, pos + 1, Precedence::Prefix.rank()) {
                Err(error) => Err(error),
                Ok((operand, p)) => Ok(
                    (Expr::UnaryOp { operator: op, operand: Box::new(operand) }, p),
                ),
            },
            None => Err(ParseError::ExpectedExpression),
        },
        Token::Punctuation(text) => {
            if same_text(text.as_str(), "(") {
                match expression(tokens, pos + 1, 0) {
                    Err(error) => Err(error),
                    Ok((inner, p)) => {
                        if punct_at(tokens, p, ")") {
                            Ok((inner, p + 1))
                        } else {
                            Err(unexpected_at(tokens, p, ")"))
                        }
                    },
                }
            } else {
                Err(ParseError::ExpectedExpression)
            }
        },
        _ => Err(ParseError::ExpectedExpression),
    }
}

/// The arguments of a call: see [`parse_arguments`].
fn arguments(tokens: &Vec<Token>, pos: usize) -> (r: Result<(Vec<Expr>, usize), ParseError>)
    requires
        pos <= tokens.len(),
    ensures
        match parse_arguments(tokens_model(tokens@), pos as int) {
            Ok((list, next)) => r matches Ok((v, q)) && expressions_model(v@) == list && q == next
                && pos < q <= tokens.len(),
            Err(error) => r matches Err(x) && x@ == error,
        },
    decreases tokens.len() - pos, 4int,
{
    let ghost ts = tokens_model(tokens@);
    if punct_at(tokens, pos, ")") {
        let list: Vec<Expr> = Vec::new();
        proof {
            assert(expressions_model(list@) =~= Seq::<SpecExpr>::empty());
        }
        return Ok((list, pos + 1));
    }
    let mut list: Vec<Expr> = Vec::new();
    let mut cur: usize = pos;
    proof {
        assert(expressions_model(list@) =~= Seq::<SpecExpr>::empty());
        match parse_argument_list(ts, pos as int) {
            Ok((rest, end)) => {
                assert(Seq::<SpecExpr>::empty() + rest =~= rest);
            },
            Err(_) => {},
        }
    }
    loop
        invariant
            pos <= cur <= tokens.len(),
            ts == tokens_model(tokens@),
            parse_arguments(ts, pos as int) == parse_argument_list(ts, pos as int),
            match parse_argument_list(ts, cur as int) {
                Ok((rest, end)) => parse_argument_list(ts, pos as int) == Ok::<
                    (Seq<SpecExpr>, int),
                    SpecParseError,
                >((expressions_model(list@) + rest, end)),
                Err(error) => parse_argument_list(ts, pos as int) == Err::<
                    (Seq<SpecExpr>, int),
                    SpecParseError,
                >(error),
            },
        decreases tokens.len() - cur,
    {
        let ghost before = expressions_model(list@);
        let (argument, p) = match expression(tokens, cur, 0) {
            Ok(found) => found,
            Err(error) => {
                return Err(error);
            },
        };
        let ghost model = argument@;
        list.push(argument);
        proof {
            assert(expressions_model(list@) =~= before.push(model));
        }
        if punct_at(tokens, p, ",") {
            proof {
                match parse_argument_list(ts, p + 1) {
                    Ok((rest, end)) => {
                        assert(before.push(model) + rest =~= before + (seq![model] + rest));
                    },
                    Err(_) => {},
                }
            }
            cur = p + 1;
        } else if punct_at(tokens, p, ")") {
            proof {
                assert(before.push(model) =~= before + seq![model]);
            }
            return Ok((list, p + 1));
        } else {
            return Err(unexpected_at(tokens, p, ")"));
        }
    }
}

/// A block: see [`parse_block`].
fn block(tokens: &Vec<Token>, pos: usize) -> (r: Result<(Vec<Statement>, usize), ParseError>)
    ensures
        match parse_block(tokens_model(tokens@), pos as int) {
            Ok((list, next)) => r matches Ok((v, q)) && statements_model(v@) == list && q == next
                && pos < q <= tokens.len(),
            Err(error) => r matches Err(x) && x@ == error,
        },
    decreases tokens.len() - pos, 3int,
{
    if !punct_at(tokens, pos, "{") {
        return Err(unexpected_at(tokens, pos, "{"));
    }
    let ghost ts = tokens_model(tokens@);
    let mut list: Vec<Statement> = Vec::new();
    let mut cur: usize = pos + 1;
    proof {
        assert(statements_model(list@) =~= Seq::<SpecStatement>::empty());
        match parse_block_items(ts, pos + 1) {
            Ok((rest, end)) => {
                assert(Seq::<SpecStatement>::empty() + rest =~= rest);
            },
            Err(_) => {},
        }
    }
    loop
        invariant
            pos < cur <= tokens.len(),
            ts == tokens_model(tokens@),
            parse_block(ts, pos as int) == parse_block_items(ts, pos + 1),
            match parse_block_items(ts, cur as int) {
                Ok((rest, end)) => parse_block_items(ts, pos + 1) == Ok::<
                    (Seq<SpecStatement>, int),
                    SpecParseError,
                >((statements_model(list@) + rest, end)),
                Err(error) => parse_block_items(ts, pos + 1) == Err::<
                    (Seq<SpecStatement>, int),
                    SpecParseError,
                >(error),
            },
        decreases tokens.len() - cur,
    {
        if end_at(tokens, cur) {
            return Err(
                ParseError::UnexpectedToken {
                    expected: String::from_str("}"),
                    found: String::from_str("end of input"),
                },
            );
        }
        if punct_at(tokens, cur, "}") {
            proof {
                assert(statements_model(list@) + Seq::<SpecStatement>::empty()
                    =~= statements_model(list@));
            }
            return Ok((list, cur + 1));
        }
        let ghost before = statements_model(list@);
        let (item, p) = match statement(tokens, cur) {
            Ok(found) => found,
            Err(error) => {
                return Err(error);
            },
        };
        let ghost model = item@;
        list.push(item);
        proof {
            assert(statements_model(list@) =~= before.push(model));
            match parse_block_items(ts, p as int) {
                Ok((rest, end)) => {
                    assert(before.push(model) + rest =~= before + (seq![model] + rest));
                },
                Err(_) => {},
            }
        }
        cur = p;
    }
}

/// A condition in parentheses and a block: see
/// [`parse_condition_and_block`].
fn condition_and_block(tokens: &Vec<Token>, pos: usize) -> (r: Result<
    (Expr, Vec<Statement>, usize),
    ParseError,
>)
    requires
        pos <= tokens.len(),
    ensures
        match parse_condition_and_block(tokens_model(tokens@), pos as int) {
            Ok((condition, body, next)) => r matches Ok((c, b, q)) && c@ == condition
                && statements_model(b@) == body && q == next && pos < q <= tokens.len(),
            Err(error) => r matches Err(x) && x@ == error,
        },
    decreases tokens.len() - pos, 3int,
{
    if !punct_at(tokens, pos, "(") {
        return Err(unexpected_at(tokens, pos, "("));
    }
    let (condition, p) = match expression(tokens, pos + 1, 0) {
        Ok(found) => found,
        Err(error) => {
            return Err(error);
        },
    };
    if !punct_at(tokens, p, ")") {
        return Err(unexpected_at(tokens, p, ")"));
    }
    match block(tokens, p + 1) {
        Err(error) => Err(error),
        Ok((body, q)) => Ok((condition, body, q)),
    }
}

/// A statement: see [`parse_statement`].
pub fn statement(tokens: &Vec<Token>, pos: usize) -> (r: Result<(Statement, usize), ParseError>)
    ensures
        parsed(
            r,
            parse_statement(tokens_model(tokens@), pos as int),
            pos as int,
            tokens.len() as int,
        ),
    decreases tokens.len() - pos, 4int,
{
    if pos >= tokens.len() {
        return Err(ParseError::ExpectedExpression);
    }
    if punct_at(tokens, pos, "{") {
        match block(tokens, pos) {
            Err(error) => Err(error),
            Ok((list, p)) => Ok((Statement::Block(list), p)),
        }
    } else if word_at(tokens, pos, "if") {
        let (condition, then_branch, p) = match condition_and_block(tokens, pos + 1) {
            Ok(found) => found,
            Err(error) => {
                return Err(error);
            },
        };
        if word_at(tokens, p, "else") {
            match block(tokens, p + 1) {
                Err(error) => Err(error),
                Ok((list, q)) => Ok(
                    (Statement::If { condition, then_branch, else_branch: Some(list) }, q),
                ),
            }
        } else {
            Ok((Statement::If { condition, then_branch, else_branch: None }, p))
        }
    } else if word_at(tokens, pos, "while") {
        match condition_and_block(tokens, pos + 1) {
            Err(error) => Err(error),
            Ok((condition, body, p)) => Ok((Statement::While { condition, body }, p)),
        }
    } else if word_at(tokens, pos, "return") {
        if punct_at(tokens, pos + 1, ";") {
            Ok((Statement::Return(None), pos + 2))
        } else {
            match expression(tokens, pos + 1, 0) {
                Err(error) => Err(error),
                Ok((value, p)) => {
                    if punct_at(tokens, p, ";") {
                        Ok((Statement::Return(Some(value)), p + 1))
                    } else {
                        Err(unexpected_at(tokens, p, ";"))
                    }
                },
            }
        }
    } else {
        match expression(tokens, pos, 0) {
            Err(error) => Err(error),
            Ok((value, p)) => {
                if punct_at(tokens, p, ";") {
                    Ok((Statement::Expression(value), p + 1))
                } else {
                    Err(unexpected_at(tokens, p, ";"))
                }
            },
        }
    }
}

/// The type that a word names: see [`type_of_word`].
fn type_named(word: &String) -> (r: Type)
    ensures
        r@ == type_of_word(word@),
{
    if same_text(word.as_str(), "int") {
        Type::Int
    } else if same_text(word.as_str(), "char") {
        Type::Char
    } else if same_text(word.as_str(), "float") {
        Type::Float
    } else if same_text(word.as_str(), "double") {
        Type::Double
    } else if same_text(word.as_str(), "bool") {
        Type::Bool
    } else if same_text(word.as_str(), "void") {
        Type::Void
    } else if same_text(word.as_str(), "auto") {
        Type::Auto
    } else {
        Type::Custom(word.clone())
    }
}

/// Whether a word names a built-in type: see [`is_type_word`].
fn type_word(word: &String) -> (r: bool)
    ensures
        r == is_type_word(word@),
{
    same_text(word.as_str(), "int") || same_text(word.as_str(), "char") || same_text(
        word.as_str(),
        "float",
    ) || same_text(word.as_str(), "double") || same_text(word.as_str(), "bool") || same_text(
        word.as_str(),
        "void",
    ) || same_text(word.as_str(), "auto")
}

/// A type: see [`parse_type`].
fn type_at(tokens: &Vec<Token>, pos: usize) -> (r: Result<(Type, usize), ParseError>)
    ensures
        parsed(r, parse_type(tokens_model(tokens@), pos as int), pos as int, tokens.len() as int),
{
    let ghost ts = tokens_model(tokens@);
    if pos >= tokens.len() {
        return Err(unexpected_at(tokens, pos, "type"));
    }
    let mut result = match &tokens[pos] {
        Token::Identifier(word) => type_named(word),
        _ => {
            return Err(unexpected_at(tokens, pos, "type"));
        },
    };
    let ghost base = result@;
    let mut cur: usize = pos + 1;
    while op_at(tokens, cur, "*")
        invariant
            pos < cur <= tokens.len(),
            ts == tokens_model(tokens@),
            parse_pointers(ts, result@, cur as int) == parse_pointers(ts, base, pos + 1),
        decreases tokens.len() - cur,
    {
        result = Type::Pointer(Box::new(result));
        cur += 1;
    }
    Ok((result, cur))
}

/// A parameter: see [`parse_parameter`].
fn parameter(tokens: &Vec<Token>, pos: usize) -> (r: Result<(Parameter, usize), ParseError>)
    ensures
        parsed(
            r,
            parse_parameter(tokens_model(tokens@), pos as int),
            pos as int,
            tokens.len() as int,
        ),
{
    if pos >= tokens.len() {
        return Err(unexpected_at(tokens, pos, "type"));
    }
    match &tokens[pos] {
        Token::Identifier(word) => {
            if punct_at(tokens, pos + 1, ":") {
                match type_at(tokens, pos + 2) {
                    Err(error) => Err(error),
                    Ok((param_type, p)) => Ok((Parameter { name: word.clone(), param_type }, p)),
                }
            } else {
                let (param_type, p) = match type_at(tokens, pos) {
                    Ok(found) => found,
                    Err(error) => {
                        return Err(error);
                    },
                };
                if p < tokens.len() {
                    match &tokens[p] {
                        Token::Identifier(name) => Ok(
                            (Parameter { name: name.clone(), param_type }, p + 1),
                        ),
                        _ => Err(ParseError::ExpectedIdentifier),
                    }
                } else {
                    Err(ParseError::ExpectedIdentifier)
                }
            }
        },
        _ => Err(unexpected_at(tokens, pos, "type")),
    }
}

/// The parameters of a function: see [`parse_parameters`].
fn parameters(tokens: &Vec<Token>, pos: usize) -> (r: Result<(Vec<Parameter>, usize), ParseError>)
    requires
        pos <= tokens.len(),
    ensures
        match parse_parameters(tokens_model(tokens@), pos as int) {
            Ok((list, next)) => r matches Ok((v, q)) && parameters_model(v@) == list && q == next
                && pos < q <= tokens.len(),
            Err(error) => r matches Err(x) && x@ == error,
        },
{
    let ghost ts = tokens_model(tokens@);
    if punct_at(tokens, pos, ")") {
        let list: Vec<Parameter> = Vec::new();
        proof {
            assert(parameters_model(list@) =~= Seq::<SpecParameter>::empty());
        }
        return Ok((list, pos + 1));
    }
    let mut list: Vec<Parameter> = Vec::new();
    let mut cur: usize = pos;
    proof {
        assert(parameters_model(list@) =~= Seq::<SpecParameter>::empty());
        match parse_parameter_list(ts, pos as int) {
            Ok((rest, end)) => {
                assert(Seq::<SpecParameter>::empty() + rest =~= rest);
            },
            Err(_) => {},
        }
    }
    loop
        invariant
            pos <= cur <= tokens.len(),
            ts == tokens_model(tokens@),
            parse_parameters(ts, pos as int) == parse_parameter_list(ts, pos as int),
            match parse_parameter_list(ts, cur as int) {
                Ok((rest, end)) => parse_parameter_list(ts, pos as int) == Ok::<
                    (Seq<SpecParameter>, int),
                    SpecParseError,
                >((parameters_model(list@) + rest, end)),
                Err(error) => parse_parameter_list(ts, pos as int) == Err::<
                    (Seq<SpecParameter>, int),
                    SpecParseError,
                >(error),
            },
        decreases tokens.len() - cur,
    {
        if cur >= tokens.len() {
            return Err(unexpected_at(tokens, cur, "type"));
        }
        let ghost before = parameters_model(list@);
        let (item, p) = match parameter(tokens, cur) {
            Ok(found) => found,
            Err(error) => {
                return Err(error);
            },
        };
        let ghost model = item@;
        list.push(item);
        proof {
            assert(parameters_model(list@) =~= before.push(model));
        }
        if punct_at(tokens, p, ",") {
            proof {
                match parse_parameter_list(ts, p + 1) {
                    Ok((rest, end)) => {
                        assert(before.push(model) + rest =~= before + (seq![model] + rest));
                    },
                    Err(_) => {},
                }
            }
            cur = p + 1;
        } else if punct_at(tokens, p, ")") {
            proof {
                assert(before.push(model) =~= before + seq![model]);
            }
            return Ok((list, p + 1));
        } else {
            return Err(unexpected_at(tokens, p, ")"));
        }
    }
}

/// Whether the parentheses opened before `pos` are those of a function
/// declaration: see [`declares_function`].
fn function_ahead(tokens: &Vec<Token>, pos: usize) -> (r: bool)
    requires
        pos <= tokens.len(),
    ensures
        r == declares_function(tokens_model(tokens@), pos as int),
{
    let ghost ts = tokens_model(tokens@);
    let mut cur: usize = pos;
    let mut depth: usize = 0;
    while cur < tokens.len()
        invariant
            pos <= cur <= tokens.len(),
            depth <= cur - pos,
            ts == tokens_model(tokens@),
            closing_parenthesis(ts, cur as int, depth as nat) == closing_parenthesis(
                ts,
                pos as int,
                0,
            ),
        decreases tokens.len() - cur,
    {
        if punct_at(tokens, cur, "(") {
            depth += 1;
        } else if punct_at(tokens, cur, ")") {
            if depth == 0 {
                return punct_at(tokens, cur + 1, "{") || op_at(tokens, cur + 1, "->");
            }
            depth -= 1;
        }
        cur += 1;
    }
    false
}

/// What follows the name of a declared variable: see
/// [`parse_variable_rest`].
fn variable_rest(tokens: &Vec<Token>, name: String, data_type: Type, pos: usize, start: usize) -> (r:
    Result<(ASTNode, usize), ParseError>)
    requires
        start < pos <= tokens.len(),
    ensures
        parsed(
            r,
            parse_variable_rest(tokens_model(tokens@), name@, data_type@, pos as int),
            start as int,
            tokens.len() as int,
        ),
{
    if op_at(tokens, pos, "=") {
        match expression(tokens, pos + 1, 0) {
            Err(error) => Err(error),
            Ok((value, p)) => {
                if punct_at(tokens, p, ";") {
                    Ok(
                        (
                            ASTNode::VariableDeclaration {
                                name,
                                data_type,
                                initializer: Some(Box::new(value)),
                            },
                            p + 1,
                        ),
                    )
                } else {
                    Err(unexpected_at(tokens, p, ";"))
                }
            },
        }
    } else if punct_at(tokens, pos, ";") {
        Ok((ASTNode::VariableDeclaration { name, data_type, initializer: None }, pos + 1))
    } else {
        Err(unexpected_at(tokens, pos, ";"))
    }
}

/// What follows the opening parenthesis of a declared function: see
/// [`parse_function_rest`].
fn function_rest(tokens: &Vec<Token>, name: String, leading: Option<Type>, pos: usize) -> (r:
    Result<(ASTNode, usize), ParseError>)
    requires
        pos <= tokens.len(),
    ensures
        parsed(
            r,
            parse_function_rest(
                tokens_model(tokens@),
                name@,
                match leading {
                    Some(t) => Some(t@),
                    None => None,
                },
                pos as int,
            ),
            pos as int,
            tokens.len() as int,
        ),
{
    let (list, p) = match parameters(tokens, pos) {
        Ok(found) => found,
        Err(error) => {
            return Err(error);
        },
    };
    let (return_type, q) = match leading {
        Some(t) => (t, p),
        None => {
            if op_at(tokens, p, "->") {
                match type_at(tokens, p + 1) {
                    Ok(found) => found,
                    Err(error) => {
                        return Err(error);
                    },
                }
            } else {
                (Type::Void, p)
            }
        },
    };
    match block(tokens, q) {
        Err(error) => Err(error),
        Ok((body, end)) => Ok(
            (ASTNode::FunctionDeclaration { name, parameters: list, return_type, body }, end),
        ),
    }
}

/// A statement or an expression at the top of a program: see
/// [`parse_plain_item`].
fn plain_item(tokens: &Vec<Token>, pos: usize) -> (r: Result<(ASTNode, usize), ParseError>)
    ensures
        parsed(
            r,
            parse_plain_item(tokens_model(tokens@), pos as int),
            pos as int,
            tokens.len() as int,
        ),
{
    if punct_at(tokens, pos, "{") || word_at(tokens, pos, "if") || word_at(tokens, pos, "while")
        || word_at(tokens, pos, "return") {
        match statement(tokens, pos) {
            Err(error) => Err(error),
            Ok((found, p)) => Ok((ASTNode::Statement(found), p)),
        }
    } else {
        match expression(tokens, pos, 0) {
            Err(error) => Err(error),
            Ok((value, p)) => {
                if end_at(tokens, p) {
                    Ok((ASTNode::Expression(value), p))
                } else if punct_at(tokens, p, ";") {
                    Ok((ASTNode::Statement(Statement::Expression(value)), p + 1))
                } else {
                    Err(unexpected_at(tokens, p, ";"))
                }
            },
        }
    }
}

/// An item of a program: see [`parse_item`].
pub fn item(tokens: &Vec<Token>, pos: usize) -> (r: Result<(ASTNode, usize), ParseError>)
    ensures
        parsed(r, parse_item(tokens_model(tokens@), pos as int), pos as int, tokens.len() as int),
{
    if pos >= tokens.len() {
        return plain_item(tokens, pos);
    }
    match &tokens[pos] {
        Token::Identifier(word) => {
            if word_at(tokens, pos, "if") || word_at(tokens, pos, "while") || word_at(
                tokens,
                pos,
                "return",
            ) {
                plain_item(tokens, pos)
            } else if type_word(word) {
                let (leading, p) = match type_at(tokens, pos) {
                    Ok(found) => found,
                    Err(error) => {
                        return Err(error);
                    },
                };
                if p < tokens.len() {
                    match &tokens[p] {
                        Token::Identifier(name) => {
                            if punct_at(tokens, p + 1, "(") {
                                function_rest(tokens, name.clone(), Some(leading), p + 2)
                            } else {
                                variable_rest(tokens, name.clone(), leading, p + 1, pos)
                            }
                        },
                        _ => Err(ParseError::ExpectedIdentifier),
                    }
                } else {
                    Err(ParseError::ExpectedIdentifier)
                }
            } else if punct_at(tokens, pos + 1, ":") {
                match type_at(tokens, pos + 2) {
                    Err(error) => Err(error),
                    Ok((data_type, p)) => variable_rest(tokens, word.clone(), data_type, p, pos),
                }
            } else if op_at(tokens, pos + 1, "=") {
                variable_rest(tokens, word.clone(), Type::Auto, pos + 1, pos)
            } else if punct_at(tokens, pos + 1, "(") && function_ahead(tokens, pos + 2) {
                function_rest(tokens, word.clone(), None, pos + 2)
            } else {
                plain_item(tokens, pos)
            }
        },
        _ => plain_item(tokens, pos),
    }
}

/// The program that the tokens write: see [`parse_program`].
pub fn program(tokens: &Vec<Token>) -> (r: Result<ASTNode, ParseError>)
    ensures
        match parse_program(tokens_model(tokens@)) {
            Ok(tree) => r matches Ok(x) && x@ == tree,
            Err(error) => r matches Err(x) && x@ == error,
        },
{
    let ghost ts = tokens_model(tokens@);
    let mut list: Vec<ASTNode> = Vec::new();
    let mut cur: usize = 0;
    proof {
        assert(nodes_model(list@) =~= Seq::<SpecNode>::empty());
        match parse_items(ts, 0) {
            Ok(rest) => {
                assert(Seq::<SpecNode>::empty() + rest =~= rest);
            },
            Err(_) => {},
        }
    }
    loop
        invariant
            cur <= tokens.len(),
            ts == tokens_model(tokens@),
            match parse_items(ts, cur as int) {
                Ok(rest) => parse_items(ts, 0) == Ok::<Seq<SpecNode>, SpecParseError>(
                    nodes_model(list@) + rest,
                ),
                Err(error) => parse_items(ts, 0) == Err::<Seq<SpecNode>, SpecParseError>(error),
            },
        decreases tokens.len() - cur,
    {
        if end_at(tokens, cur) {
            let tree = ASTNode::Program(list);
            proof {
                assert(nodes_model(list@) + Seq::<SpecNode>::empty() =~= nodes_model(list@));
                assert(tree@->Program_0 =~= nodes_model(list@));
            }
            return Ok(tree);
        }
        let ghost before = nodes_model(list@);
        let (found, p) = match item(tokens, cur) {
            Ok(found) => found,
            Err(error) => {
                return Err(error);
            },
        };
        let ghost model = found@;
        list.push(found);
        proof {
            assert(nodes_model(list@) =~= before.push(model));
            match parse_items(ts, p as int) {
                Ok(rest) => {
                    assert(before.push(model) + rest =~= before + (seq![model] + rest));
                },
                Err(_) => {},
            }
        }
        cur = p;
    }
}

/// Whether a token is a word, an operator or a punctuation of the given
/// text.
pub open spec fn has_text(t: SpecToken, text: Seq<char>) -> bool {
    is_word(t, text) || is_op(t, text) || is_punct(t, text)
}

/// The tokens of a text, read one after another.
pub struct TokenStream {
    tokens: Vec<Token>,
    pos: usize,
}

impl TokenStream {
    /// All the tokens of the stream.
    pub closed spec fn tokens(&self) -> Seq<SpecToken> {
        tokens_model(self.tokens@)
    }

    /// The position of the stream: the tokens before it were read.
    pub closed spec fn position(&self) -> int {
        self.pos as int
    }

    /// The position lies within the list.
    pub closed spec fn wf(&self) -> bool {
        self.pos <= self.tokens.len()
    }

    /// A stream at the first of `tokens`.
    pub fn new(tokens: Vec<Token>) -> (r: Self)
        ensures
            r.wf(),
            r.tokens() == tokens_model(tokens@),
            r.position() == 0,
    {
        TokenStream { tokens, pos: 0 }
    }

    /// The current token, if the stream has not ended.
    pub fn peek(&self) -> (r: Option<&Token>)
        requires
            self.wf(),
        ensures
            match r {
                Some(t) => self.position() < self.tokens().len() && t@
                    == self.tokens()[self.position()],
                None => self.position() == self.tokens().len(),
            },
    {
        if self.pos < self.tokens.len() {
            Some(&self.tokens[self.pos])
        } else {
            None
        }
    }

    /// Gives the current token and goes on to the next; gives nothing where
    /// the stream has ended.
    pub fn advance(&mut self) -> (r: Option<Token>)
        requires
            old(self).wf(),
        ensures
            final(self).wf(),
            final(self).tokens() == old(self).tokens(),
            match r {
                Some(t) => old(self).position() < old(self).tokens().len()
                    && t@ == old(self).tokens()[old(self).position()]
                    && final(self).position() == old(self).position()
                    + 1,
                None => old(self).position() == old(self).tokens().len() && final(self).position()
                    == old(self).position(),
            },
    {
        if self.pos < self.tokens.len() {
            let token = self.tokens[self.pos].duplicate();
            self.pos += 1;
            Some(token)
        } else {
            None
        }
    }

    /// Gives the current token and goes on, if it is a word, an operator or
    /// a punctuation that reads `expected`; otherwise the stream stays and
    /// the token, or the end of the input, is an error.
    pub fn expect(&mut self, expected: &str) -> (r: Result<Token, ParseError>)
        requires
            old(self).wf(),
        ensures
            final(self).wf(),
            final(self).tokens() == old(self).tokens(),
            ({
                let t = at(old(self).tokens(), old(self).position());
                if has_text(t, expected@) {
                    r matches Ok(x) && x@ == t && final(self).position() == old(self).position() + 1
                } else {
                    r matches Err(e) && e@ == unexpected(expected@, t) && final(self).position()
                        == old(self).position()
                }
            }),
    {
        if word_at(&self.tokens, self.pos, expected) || op_at(&self.tokens, self.pos, expected)
            || punct_at(&self.tokens, self.pos, expected) {
            let token = self.tokens[self.pos].duplicate();
            self.pos += 1;
            Ok(token)
        } else {
            Err(unexpected_at(&self.tokens, self.pos, expected))
        }
    }
}

/// A parser over the tokens of a text.
pub struct Parser {
    token_stream: TokenStream,
}

impl Parser {
    /// The tokens of the parser.
    pub closed spec fn tokens(&self) -> Seq<SpecToken> {
        self.token_stream.tokens()
    }

    /// The position of the parser: the tokens before it were parsed.
    pub closed spec fn position(&self) -> int {
        self.token_stream.position()
    }

    /// The position lies within the list.
    pub closed spec fn wf(&self) -> bool {
        self.token_stream.wf()
    }

    /// A parser at the first of `tokens`.
    pub fn new(tokens: Vec<Token>) -> (r: Self)
        ensures
            r.wf(),
            r.tokens() == tokens_model(tokens@),
            r.position() == 0,
    {
        Parser { token_stream: TokenStream::new(tokens) }
    }

    /// The program that the tokens write, whatever was parsed before: see
    /// [`parse_program`]. Afterwards the parser stands at the end.
    pub fn parse(&mut self) -> (r: Result<ASTNode, ParseError>)
        ensures
            final(self).wf(),
            final(self).tokens() == old(self).tokens(),
            final(self).position() == old(self).tokens().len(),
            match parse_program(old(self).tokens()) {
                Ok(tree) => r matches Ok(x) && x@ == tree,
                Err(error) => r matches Err(x) && x@ == error,
            },
    {
        self.parse_program()
    }

    /// The program that the tokens write: see [`Parser::parse`].
    pub fn parse_program(&mut self) -> (r: Result<ASTNode, ParseError>)
        ensures
            final(self).wf(),
            final(self).tokens() == old(self).tokens(),
            final(self).position() == old(self).tokens().len(),
            match parse_program(old(self).tokens()) {
                Ok(tree) => r matches Ok(x) && x@ == tree,
                Err(error) => r matches Err(x) && x@ == error,
            },
    {
        let r = program(&self.token_stream.tokens);
        self.token_stream.pos = self.token_stream.tokens.len();
        r
    }

    /// Puts the parser after what was parsed, or leaves it where an error
    /// was met.
    fn settle<T>(&mut self, found: Result<(T, usize), ParseError>) -> (r: Result<T, ParseError>)
        requires
            old(self).wf(),
            found matches Ok((_, next)) ==> next <= old(self).tokens().len(),
        ensures
            final(self).wf(),
            final(self).tokens() == old(self).tokens(),
            match found {
                Ok((value, next)) => r == Ok::<T, ParseError>(value) && final(self).position()
                    == next,
                Err(error) => r == Err::<T, ParseError>(error) && final(self).position() == old(self).position(),
            },
    {
        match found {
            Ok((value, next)) => {
                self.token_stream.pos = next;
                Ok(value)
            },
            Err(error) => Err(error),
        }
    }

    /// Parses the expression at the position, with the binary operations
    /// that bind tighter than `level`: see [`parse_expression`].
    pub fn parse_expression(&mut self, level: Precedence) -> (r: Result<Expr, ParseError>)
        requires
            old(self).wf(),
        ensures
            final(self).wf(),
            final(self).tokens() == old(self).tokens(),
            match parse_expression(old(self).tokens(), old(self).position(), rank(level)) {
                Ok((tree, next)) => r matches Ok(x) && x@ == tree && final(self).position() == next,
                Err(error) => r matches Err(x) && x@ == error && final(self).position() == old(self).position(),
            },
    {
        let found = expression(&self.token_stream.tokens, self.token_stream.pos, level.rank());
        self.settle(found)
    }

    /// Parses the statement at the position: see [`parse_statement`].
    pub fn parse_statement(&mut self) -> (r: Result<Statement, ParseError>)
        requires
            old(self).wf(),
        ensures
            final(self).wf(),
            final(self).tokens() == old(self).tokens(),
            match parse_statement(old(self).tokens(), old(self).position()) {
                Ok((tree, next)) => r matches Ok(x) && x@ == tree && final(self).position() == next,
                Err(error) => r matches Err(x) && x@ == error && final(self).position() == old(self).position(),
            },
    {
        let found = statement(&self.token_stream.tokens, self.token_stream.pos);
        self.settle(found)
    }

    /// Parses the expression statement at the position: an expression and
    /// its semicolon, or another statement where one stands.
    pub fn parse_expression_statement(&mut self) -> (r: Result<Statement, ParseError>)
        requires
            old(self).wf(),
        ensures
            final(self).wf(),
            final(self).tokens() == old(self).tokens(),
            match parse_statement(old(self).tokens(), old(self).position()) {
                Ok((tree, next)) => r matches Ok(x) && x@ == tree && final(self).position() == next,
                Err(error) => r matches Err(x) && x@ == error && final(self).position() == old(self).position(),
            },
    {
        self.parse_statement()
    }

    /// Parses the block at the position: see [`parse_block`].
    pub fn parse_block(&mut self) -> (r: Result<Vec<Statement>, ParseError>)
        requires
            old(self).wf(),
        ensures
            final(self).wf(),
            final(self).tokens() == old(self).tokens(),
            match parse_block(old(self).tokens(), old(self).position()) {
                Ok((list, next)) => r matches Ok(v) && statements_model(v@) == list && final(self).position() == next,
                Err(error) => r matches Err(x) && x@ == error && final(self).position() == old(self).position(),
            },
    {
        let found = block(&self.token_stream.tokens, self.token_stream.pos);
        self.settle(found)
    }

    /// Parses the item at the position, a declaration where one stands:
    /// see [`parse_item`].
    pub fn parse_declaration(&mut self) -> (r: Result<ASTNode, ParseError>)
        requires
            old(self).wf(),
        ensures
            final(self).wf(),
            final(self).tokens() == old(self).tokens(),
            match parse_item(old(self).tokens(), old(self).position()) {
                Ok((tree, next)) => r matches Ok(x) && x@ == tree && final(self).position() == next,
                Err(error) => r matches Err(x) && x@ == error && final(self).position() == old(self).position(),
            },
    {
        let found = item(&self.token_stream.tokens, self.token_stream.pos);
        self.settle(found)
    }
}

} // verus!
