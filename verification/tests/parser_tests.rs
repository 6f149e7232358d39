use cpp_frontend::ast::{ASTNode, BinaryOperator, Expr, Parameter, Statement, Type, UnaryOperator};
use cpp_frontend::lexer::{Lexer, Token};
use cpp_frontend::parser::rules::{Grammar, GrammarRule};
use cpp_frontend::parser::{ParseError, Parser, Precedence, TokenStream};

fn ident(name: &str) -> Expr {
    Expr::Identifier(name.to_string())
}

fn binary(left: Expr, operator: BinaryOperator, right: Expr) -> Expr {
    Expr::BinaryOp { left: Box::new(left), operator, right: Box::new(right) }
}

fn parse(text: &str) -> Result<ASTNode, ParseError> {
    let mut lexer = Lexer::new(text);
    let tokens = lexer.tokenize().expect("the text lexes");
    Parser::new(tokens).parse()
}

fn parse_one(text: &str) -> ASTNode {
    match parse(text).expect("the text parses") {
        ASTNode::Program(mut nodes) => {
            assert_eq!(nodes.len(), 1);
            nodes.remove(0)
        }
        other => panic!("no program: {:?}", other),
    }
}

fn unexpected(expected: &str, found: &str) -> ParseError {
    ParseError::UnexpectedToken { expected: expected.to_string(), found: found.to_string() }
}

#[test]
fn test_grammar_creation() {
    let mut grammar = Grammar::new();
    let rule = GrammarRule::new("Statement", vec!["Expression", ";"]);

    grammar.add_rule(rule);
    assert_eq!(grammar.rules.len(), 1);
    assert_eq!(grammar.start_symbol, "Program");
}

#[test]
fn test_parser_creation() {
    let tokens = vec![Token::Identifier("int".to_string()), Token::Eof];
    let _parser = Parser::new(tokens);
    assert!(true); // Basic creation test
}

#[test]
fn test_token_stream() {
    let tokens = vec![
        Token::Identifier("int".to_string()),
        Token::Identifier("x".to_string()),
        Token::Eof,
    ];
    let mut stream = TokenStream::new(tokens);

    assert!(matches!(stream.peek(), Some(Token::Identifier(id)) if id == "int"));
    let token = stream.advance().unwrap();
    assert_eq!(token, Token::Identifier("int".to_string()));
    assert!(matches!(stream.peek(), Some(Token::Identifier(id)) if id == "x"));
}

#[test]
fn basic_test_basic_parsing() {
    let tokens = vec![Token::new_identifier("test".to_string()), Token::Eof];

    let mut parser = Parser::new(tokens);
    let result = parser.parse();

    assert!(result.is_ok());
}

#[test]
fn integration_test_test_basic_parsing() {
    let input = "int main() { return 0; }";
    let mut lexer = Lexer::new(input);

    let mut tokens = Vec::new();
    loop {
        let token = lexer.next_token().expect("Failed to get token");
        tokens.push(token.clone());
        if matches!(token, Token::Eof) {
            break;
        }
    }

    let mut parser = Parser::new(tokens);
    let result = parser.parse();

    assert!(result.is_ok());

    println!("Basic parsing test passed!");
}

#[test]
fn multiplication_binds_tighter_than_addition() {
    assert_eq!(
        parse("a + b * c"),
        Ok(ASTNode::Program(vec![ASTNode::Expression(binary(
            ident("a"),
            BinaryOperator::Add,
            binary(ident("b"), BinaryOperator::Mul, ident("c"))
        ))]))
    );
    assert_eq!(
        parse_one("a * b + c"),
        ASTNode::Expression(binary(
            binary(ident("a"), BinaryOperator::Mul, ident("b")),
            BinaryOperator::Add,
            ident("c")
        ))
    );
}

#[test]
fn binary_operators_group_to_the_left() {
    assert_eq!(
        parse_one("a - b - c"),
        ASTNode::Expression(binary(
            binary(ident("a"), BinaryOperator::Sub, ident("b")),
            BinaryOperator::Sub,
            ident("c")
        ))
    );
    assert_eq!(
        parse_one("a / b % c"),
        ASTNode::Expression(binary(
            binary(ident("a"), BinaryOperator::Div, ident("b")),
            BinaryOperator::Mod,
            ident("c")
        ))
    );
}

#[test]
fn precedence_levels_ascend() {
    // a || b && c == d < e + f * -g
    let expected = binary(
        ident("a"),
        BinaryOperator::Or,
        binary(
            ident("b"),
            BinaryOperator::And,
            binary(
                ident("c"),
                BinaryOperator::Eq,
                binary(
                    ident("d"),
                    BinaryOperator::Lt,
                    binary(
                        ident("e"),
                        BinaryOperator::Add,
                        binary(
                            ident("f"),
                            BinaryOperator::Mul,
                            Expr::UnaryOp {
                                operator: UnaryOperator::Neg,
                                operand: Box::new(ident("g")),
                            },
                        ),
                    ),
                ),
            ),
        ),
    );
    assert_eq!(parse_one("a || b && c == d < e + f * -g"), ASTNode::Expression(expected));
    let levels = [
        Precedence::Lowest,
        Precedence::LogicalOr,
        Precedence::LogicalAnd,
        Precedence::Equals,
        Precedence::LessGreater,
        Precedence::Sum,
        Precedence::Product,
        Precedence::Prefix,
        Precedence::Call,
        Precedence::Index,
    ];
    for pair in levels.windows(2) {
        assert!(pair[0].rank() < pair[1].rank());
    }
    assert_eq!(Precedence::of_binary(BinaryOperator::Ge), Precedence::LessGreater);
    assert_eq!(Precedence::of_binary(BinaryOperator::Ne), Precedence::Equals);
}

#[test]
fn prefix_operators_bind_tighter_than_binary_ones() {
    let negated = Expr::UnaryOp { operator: UnaryOperator::Neg, operand: Box::new(ident("a")) };
    assert_eq!(
        parse_one("-a * b"),
        ASTNode::Expression(binary(negated, BinaryOperator::Mul, ident("b")))
    );
    let nested = Expr::UnaryOp {
        operator: UnaryOperator::Not,
        operand: Box::new(Expr::UnaryOp {
            operator: UnaryOperator::Deref,
            operand: Box::new(Expr::UnaryOp {
                operator: UnaryOperator::AddrOf,
                operand: Box::new(ident("p")),
            }),
        }),
    };
    assert_eq!(parse_one("!*&p"), ASTNode::Expression(nested));
}

#[test]
fn parentheses_and_calls() {
    assert_eq!(
        parse_one("(a + b) * c"),
        ASTNode::Expression(binary(
            binary(ident("a"), BinaryOperator::Add, ident("b")),
            BinaryOperator::Mul,
            ident("c")
        ))
    );
    assert_eq!(
        parse_one("f(a, g(), 1 + 2) + 3;"),
        ASTNode::Statement(Statement::Expression(binary(
            Expr::FunctionCall {
                name: "f".to_string(),
                arguments: vec![
                    ident("a"),
                    Expr::FunctionCall { name: "g".to_string(), arguments: vec![] },
                    binary(Expr::IntegerLiteral(1), BinaryOperator::Add, Expr::IntegerLiteral(2)),
                ],
            },
            BinaryOperator::Add,
            Expr::IntegerLiteral(3)
        )))
    );
    assert_eq!(
        parse_one("\"text\""),
        ASTNode::Expression(Expr::StringLiteral("text".to_string()))
    );
}

#[test]
fn declarations_led_by_a_type() {
    assert_eq!(
        parse_one("int x = 5;"),
        ASTNode::VariableDeclaration {
            name: "x".to_string(),
            data_type: Type::Int,
            initializer: Some(Box::new(Expr::IntegerLiteral(5))),
        }
    );
    assert_eq!(
        parse_one("char** p;"),
        ASTNode::VariableDeclaration {
            name: "p".to_string(),
            data_type: Type::Pointer(Box::new(Type::Pointer(Box::new(Type::Char)))),
            initializer: None,
        }
    );
    assert_eq!(
        parse_one("int main() { return 0; }"),
        ASTNode::FunctionDeclaration {
            name: "main".to_string(),
            parameters: vec![],
            return_type: Type::Int,
            body: vec![Statement::Return(Some(Expr::IntegerLiteral(0)))],
        }
    );
    assert_eq!(
        parse_one("double f(int a, p: Point*) { }"),
        ASTNode::FunctionDeclaration {
            name: "f".to_string(),
            parameters: vec![
                Parameter { name: "a".to_string(), param_type: Type::Int },
                Parameter {
                    name: "p".to_string(),
                    param_type: Type::Pointer(Box::new(Type::Custom("Point".to_string()))),
                },
            ],
            return_type: Type::Double,
            body: vec![],
        }
    );
}

#[test]
fn declarations_led_by_a_name() {
    assert_eq!(
        parse_one("x : bool = y;"),
        ASTNode::VariableDeclaration {
            name: "x".to_string(),
            data_type: Type::Bool,
            initializer: Some(Box::new(ident("y"))),
        }
    );
    assert_eq!(
        parse_one("x : Point;"),
        ASTNode::VariableDeclaration {
            name: "x".to_string(),
            data_type: Type::Custom("Point".to_string()),
            initializer: None,
        }
    );
    assert_eq!(
        parse_one("x = 1 + 2;"),
        ASTNode::VariableDeclaration {
            name: "x".to_string(),
            data_type: Type::Auto,
            initializer: Some(Box::new(binary(
                Expr::IntegerLiteral(1),
                BinaryOperator::Add,
                Expr::IntegerLiteral(2)
            ))),
        }
    );
    assert_eq!(
        parse_one("f(a: int) -> float { return a; }"),
        ASTNode::FunctionDeclaration {
            name: "f".to_string(),
            parameters: vec![Parameter { name: "a".to_string(), param_type: Type::Int }],
            return_type: Type::Float,
            body: vec![Statement::Return(Some(ident("a")))],
        }
    );
    assert_eq!(
        parse_one("g() { }"),
        ASTNode::FunctionDeclaration {
            name: "g".to_string(),
            parameters: vec![],
            return_type: Type::Void,
            body: vec![],
        }
    );
    assert_eq!(
        parse_one("g((a));"),
        ASTNode::Statement(Statement::Expression(Expr::FunctionCall {
            name: "g".to_string(),
            arguments: vec![ident("a")],
        }))
    );
}

#[test]
fn statements() {
    assert_eq!(
        parse_one("if (a) { return; } else { b; }"),
        ASTNode::Statement(Statement::If {
            condition: ident("a"),
            then_branch: vec![Statement::Return(None)],
            else_branch: Some(vec![Statement::Expression(ident("b"))]),
        })
    );
    assert_eq!(
        parse_one("while (a < 3) { { } if (b) { } }"),
        ASTNode::Statement(Statement::While {
            condition: binary(ident("a"), BinaryOperator::Lt, Expr::IntegerLiteral(3)),
            body: vec![
                Statement::Block(vec![]),
                Statement::If { condition: ident("b"), then_branch: vec![], else_branch: None },
            ],
        })
    );
    assert_eq!(
        parse("a; b"),
        Ok(ASTNode::Program(vec![
            ASTNode::Statement(Statement::Expression(ident("a"))),
            ASTNode::Expression(ident("b")),
        ]))
    );
    assert_eq!(parse(""), Ok(ASTNode::Program(vec![])));
    assert_eq!(Parser::new(vec![]).parse(), Ok(ASTNode::Program(vec![])));
}

#[test]
fn the_first_unexpected_token_is_the_error() {
    assert_eq!(parse("a b"), Err(unexpected(";", "b")));
    assert_eq!(parse("(a + b"), Err(unexpected(")", "end of input")));
    assert_eq!(parse("f(a b)"), Err(unexpected(")", "b")));
    assert_eq!(parse("return 1 2;"), Err(unexpected(";", "2")));
    assert_eq!(parse("if a { }"), Err(unexpected("(", "a")));
    assert_eq!(parse("while (a) b;"), Err(unexpected("{", "b")));
    assert_eq!(parse("{ a; "), Err(unexpected("}", "end of input")));
    assert_eq!(parse("int x = 1 \"s\""), Err(unexpected(";", "\"s\"")));
    assert_eq!(parse("int x 7"), Err(unexpected(";", "7")));
    assert_eq!(parse("x : 5;"), Err(unexpected("type", "5")));
    assert_eq!(parse("int f(3) { }"), Err(unexpected("type", "3")));
    assert_eq!(parse("a +"), Err(ParseError::ExpectedExpression));
    assert_eq!(parse(";"), Err(ParseError::ExpectedExpression));
    assert_eq!(parse("a + )"), Err(ParseError::ExpectedExpression));
    assert_eq!(parse("int 5;"), Err(ParseError::ExpectedIdentifier));
    assert_eq!(parse("int"), Err(ParseError::ExpectedIdentifier));
    assert_eq!(parse("int f(int) { }"), Err(ParseError::ExpectedIdentifier));
    assert_eq!(parse("a[1];"), Err(unexpected(";", "[")));
}

#[test]
fn parser_methods_move_the_position() {
    let mut lexer = Lexer::new("a + b ; { c; } int x; d * e");
    let mut parser = Parser::new(lexer.tokenize().unwrap());
    assert_eq!(
        parser.parse_expression(Precedence::Lowest),
        Ok(binary(ident("a"), BinaryOperator::Add, ident("b")))
    );
    assert_eq!(parser.parse_statement(), Err(ParseError::ExpectedExpression));
    let mut lexer = Lexer::new("a + b ; { c; } int x; d * e + f");
    let mut parser = Parser::new(lexer.tokenize().unwrap());
    assert_eq!(
        parser.parse_expression_statement(),
        Ok(Statement::Expression(binary(ident("a"), BinaryOperator::Add, ident("b"))))
    );
    assert_eq!(parser.parse_block(), Ok(vec![Statement::Expression(ident("c"))]));
    assert_eq!(
        parser.parse_declaration(),
        Ok(ASTNode::VariableDeclaration {
            name: "x".to_string(),
            data_type: Type::Int,
            initializer: None
        })
    );
    assert_eq!(
        parser.parse_expression(Precedence::Sum),
        Ok(binary(ident("d"), BinaryOperator::Mul, ident("e")))
    );
}

#[test]
fn token_stream_expects_by_text() {
    let mut stream = TokenStream::new(vec![
        Token::Punctuation("(".to_string()),
        Token::Identifier("x".to_string()),
        Token::Number(3),
    ]);
    assert_eq!(stream.expect("("), Ok(Token::Punctuation("(".to_string())));
    assert_eq!(stream.expect(")"), Err(unexpected(")", "x")));
    assert_eq!(stream.expect("x"), Ok(Token::Identifier("x".to_string())));
    assert_eq!(stream.expect("3"), Err(unexpected("3", "3")));
    assert_eq!(stream.advance(), Some(Token::Number(3)));
    assert_eq!(stream.advance(), None);
    assert!(stream.peek().is_none());
    assert_eq!(stream.expect(";"), Err(unexpected(";", "end of input")));
}

#[test]
fn parse_error_messages() {
    assert_eq!(unexpected(";", "b").message(), "Unexpected token: expected ;, found b");
    assert_eq!(ParseError::ExpectedExpression.message(), "Expected expression");
    assert_eq!(ParseError::ExpectedIdentifier.message(), "Expected identifier");
    assert_eq!(
        ParseError::ExpressionParseError("bad".to_string()).message(),
        "Expression parse error: bad"
    );
}

#[test]
fn grammar_rules_by_left_side() {
    let mut grammar = Grammar::new();
    grammar.add_rule(GrammarRule::new("S", vec!["a", "S"]));
    grammar.add_rule(GrammarRule::new("T", vec![]));
    grammar.add_rule(GrammarRule::new("S", vec!["b"]));
    let found = grammar.get_rules_for_non_terminal("S");
    assert_eq!(found.len(), 2);
    assert_eq!(found[0].right_side, vec!["a".to_string(), "S".to_string()]);
    assert_eq!(found[1].right_side, vec!["b".to_string()]);
    assert_eq!(found[0].semantic_action, None);
    assert!(grammar.get_rules_for_non_terminal("U").is_empty());
}
