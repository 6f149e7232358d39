use cpp_frontend::ast::{
    ASTNode, ASTSerializer, ASTVisitor, BinaryOperator, Expr, JSONSerializer, Parameter,
    PrintVisitor, Statement, TextSerializer, Type, UnaryOperator,
};

fn ident(name: &str) -> Expr {
    Expr::Identifier(name.to_string())
}

fn binary(left: Expr, operator: BinaryOperator, right: Expr) -> Expr {
    Expr::BinaryOp { left: Box::new(left), operator, right: Box::new(right) }
}

#[test]
fn test_ast_node_creation() {
    let var_decl = ASTNode::new_variable_declaration(
        "x".to_string(),
        Type::Int,
        Some(Expr::IntegerLiteral(42)),
    );

    assert!(matches!(var_decl, ASTNode::VariableDeclaration { .. }));
}

#[test]
fn test_expr_creation() {
    let expr = Expr::BinaryOp {
        left: Box::new(Expr::Identifier("a".to_string())),
        operator: BinaryOperator::Add,
        right: Box::new(Expr::Identifier("b".to_string())),
    };

    match expr {
        Expr::BinaryOp { left, operator, right } => {
            assert!(matches!(*left, Expr::Identifier(ref name) if name == "a"));
            assert_eq!(operator, BinaryOperator::Add);
            assert!(matches!(*right, Expr::Identifier(ref name) if name == "b"));
        }
        _ => panic!("Expected BinaryOp"),
    }
}

#[test]
fn test_json_serialization() {
    let expr = Expr::BinaryOp {
        left: Box::new(Expr::Identifier("a".to_string())),
        operator: BinaryOperator::Add,
        right: Box::new(Expr::Identifier("b".to_string())),
    };

    let node = ASTNode::Expression(expr);
    let mut serializer = JSONSerializer::new();
    let result = serializer.serialize(&node);

    assert!(result.contains("BinaryOp"));
    assert!(result.contains("Add"));
}

#[test]
fn test_text_serialization() {
    let expr = Expr::BinaryOp {
        left: Box::new(Expr::Identifier("a".to_string())),
        operator: BinaryOperator::Add,
        right: Box::new(Expr::Identifier("b".to_string())),
    };

    let node = ASTNode::Expression(expr);
    let mut serializer = TextSerializer::new();
    let result = serializer.serialize(&node);

    assert!(result.contains("(a + b)"));
}

#[test]
fn test_print_visitor() {
    let expr = Expr::BinaryOp {
        left: Box::new(Expr::Identifier("a".to_string())),
        operator: BinaryOperator::Add,
        right: Box::new(Expr::Identifier("b".to_string())),
    };

    let node = ASTNode::Expression(expr);
    let mut visitor = PrintVisitor::new();
    let result = visitor.visit_node(&node);

    assert!(result.contains("BinaryOp"));
    assert!(result.contains("a"));
    assert!(result.contains("b"));
    assert!(result.contains("+"));
}

#[test]
fn integration_test_test_ast_serialization() {
    let expr = Expr::BinaryOp {
        left: Box::new(Expr::Identifier("x".to_string())),
        operator: BinaryOperator::Add,
        right: Box::new(Expr::IntegerLiteral(42)),
    };

    let node = ASTNode::Expression(expr);

    let mut json_serializer = JSONSerializer::new();
    let json_result = json_serializer.serialize(&node);
    assert!(json_result.contains("BinaryOp"));
    assert!(json_result.contains("Add"));

    let mut text_serializer = TextSerializer::new();
    let text_result = text_serializer.serialize(&node);
    assert!(text_result.contains("(x + 42)"));

    println!("AST serialization test passed!");
}

#[test]
fn test_ast_visitor_pattern() {
    let expr = Expr::BinaryOp {
        left: Box::new(Expr::Identifier("a".to_string())),
        operator: BinaryOperator::Mul,
        right: Box::new(Expr::Identifier("b".to_string())),
    };

    let node = ASTNode::Expression(expr);

    let mut visitor = PrintVisitor::new();
    let result = visitor.visit_node(&node);

    assert!(result.contains("BinaryOp"));
    assert!(result.contains("*"));

    println!("AST visitor pattern test passed!");
}

#[test]
fn json_of_expression_is_exact() {
    let node = ASTNode::Expression(binary(ident("x"), BinaryOperator::Add, Expr::IntegerLiteral(42)));
    let mut serializer = JSONSerializer::new();
    assert_eq!(
        serializer.serialize_to_json(&node),
        "{\"type\":\"BinaryOp\",\"operator\":\"Add\",\"left\":{\"type\":\"Identifier\",\"name\":\"x\"},\"right\":{\"type\":\"IntegerLiteral\",\"value\":42}}"
    );
}

#[test]
fn json_of_declarations_is_exact() {
    let mut serializer = JSONSerializer::new();
    let variable = ASTNode::new_variable_declaration("x".to_string(), Type::Int, None);
    assert_eq!(
        serializer.serialize_to_json(&variable),
        "{\"type\":\"VariableDeclaration\",\"name\":\"x\",\"dataType\":\"Int\",\"initializer\":null }"
    );
    let function = ASTNode::new_function_declaration(
        "f".to_string(),
        vec![
            Parameter { name: "a".to_string(), param_type: Type::Pointer(Box::new(Type::Char)) },
            Parameter { name: "b".to_string(), param_type: Type::Array(Box::new(Type::Int), 3) },
        ],
        Type::Custom("T".to_string()),
        vec![Statement::Return(None), Statement::Return(Some(Expr::IntegerLiteral(-7)))],
    );
    assert_eq!(
        serializer.serialize_to_json(&function),
        "{\"type\":\"FunctionDeclaration\",\"name\":\"f\",\"parameters\":[{\"name\":\"a\",\"type\":{\"type\":\"Pointer\",\"inner\":\"Char\"}},{\"name\":\"b\",\"type\":{\"type\":\"Array\",\"inner\":\"Int\",\"size\":3}}],\"returnType\":{\"type\":\"Custom\",\"name\":\"T\"},\"body\":[{\"type\":\"Return\",\"expression\":null},{\"type\":\"Return\",\"expression\":{\"type\":\"IntegerLiteral\",\"value\":-7}}]}"
    );
    let program = ASTNode::Program(vec![
        ASTNode::Expression(ident("a")),
        ASTNode::Statement(Statement::Block(vec![])),
    ]);
    assert_eq!(
        serializer.serialize_to_json(&program),
        "{\"type\":\"Program\",\"children\":[{\"type\":\"Identifier\",\"name\":\"a\"},{\"type\":\"Block\",\"statements\":[]}]}"
    );
}

#[test]
fn json_of_statements_is_exact() {
    let serializer = JSONSerializer::new();
    let with_else = Statement::If {
        condition: ident("c"),
        then_branch: vec![Statement::Expression(ident("a"))],
        else_branch: Some(vec![]),
    };
    assert_eq!(
        serializer.stmt_to_json(&with_else),
        "{\"type\":\"If\",\"condition\":{\"type\":\"Identifier\",\"name\":\"c\"},\"thenBranch\":[{\"type\":\"ExpressionStatement\",\"expression\":{\"type\":\"Identifier\",\"name\":\"a\"}}],\"elseBranch\":[]}"
    );
    let without_else =
        Statement::If { condition: ident("c"), then_branch: vec![], else_branch: None };
    assert_eq!(
        serializer.stmt_to_json(&without_else),
        "{\"type\":\"If\",\"condition\":{\"type\":\"Identifier\",\"name\":\"c\"},\"thenBranch\":[]}"
    );
    let looping = Statement::While {
        condition: Expr::UnaryOp { operator: UnaryOperator::Not, operand: Box::new(ident("d")) },
        body: vec![Statement::Return(None)],
    };
    assert_eq!(
        serializer.stmt_to_json(&looping),
        "{\"type\":\"While\",\"condition\":{\"type\":\"UnaryOp\",\"operator\":\"Not\",\"operand\":{\"type\":\"Identifier\",\"name\":\"d\"}},\"body\":[{\"type\":\"Return\",\"expression\":null}]}"
    );
    let call = Expr::FunctionCall {
        name: "f".to_string(),
        arguments: vec![Expr::StringLiteral("s".to_string()), Expr::IntegerLiteral(0)],
    };
    assert_eq!(
        serializer.expr_to_json(&call),
        "{\"type\":\"FunctionCall\",\"name\":\"f\",\"arguments\":[{\"type\":\"StringLiteral\",\"value\":\"s\"},{\"type\":\"IntegerLiteral\",\"value\":0}]}"
    );
}

#[test]
fn text_of_nodes_is_exact() {
    let mut serializer = TextSerializer::new();
    let expression = ASTNode::Expression(binary(ident("x"), BinaryOperator::Add, Expr::IntegerLiteral(42)));
    assert_eq!(serializer.serialize_to_text(&expression), "EXPR: (x + 42)\n");
    let variable = ASTNode::new_variable_declaration(
        "x".to_string(),
        Type::Pointer(Box::new(Type::Int)),
        Some(Expr::UnaryOp { operator: UnaryOperator::AddrOf, operand: Box::new(ident("y")) }),
    );
    assert_eq!(serializer.serialize_to_text(&variable), "VAR_DECL: x : ptr(int) = (&y)\n");
    let function = ASTNode::new_function_declaration(
        "main".to_string(),
        vec![Parameter { name: "n".to_string(), param_type: Type::Int }],
        Type::Int,
        vec![
            Statement::While {
                condition: ident("n"),
                body: vec![Statement::Expression(Expr::FunctionCall {
                    name: "f".to_string(),
                    arguments: vec![ident("n"), Expr::IntegerLiteral(1)],
                })],
            },
            Statement::Return(Some(Expr::IntegerLiteral(0))),
        ],
    );
    assert_eq!(
        serializer.serialize_to_text(&function),
        "FUNC_DECL: main(n: int) -> int\n{\n  WHILE (n) {\n    EXPR_STMT: f(n, 1)\n  }\n  \n  RETURN: 0\n  \n}\n"
    );
    let program = ASTNode::Program(vec![ASTNode::Statement(Statement::Return(None))]);
    assert_eq!(
        serializer.serialize_to_text(&program),
        "=== PROGRAM ===\nRETURN\n\n=== END PROGRAM ===\n"
    );
}

#[test]
fn text_of_branches_is_exact() {
    let serializer = TextSerializer::new();
    let statement = Statement::If {
        condition: ident("c"),
        then_branch: vec![Statement::Block(vec![Statement::Return(None)])],
        else_branch: Some(vec![Statement::Expression(Expr::StringLiteral("no".to_string()))]),
    };
    assert_eq!(
        serializer.stmt_to_text(&statement),
        "IF (c) {\n  {\n    RETURN\n    \n  }\n} ELSE {\n  EXPR_STMT: \"no\"\n}\n"
    );
    assert_eq!(serializer.type_to_text(&Type::Array(Box::new(Type::Bool), 10)), "array(bool, 10)");
    assert_eq!(serializer.type_to_text(&Type::Void), "void");
    assert_eq!(serializer.type_to_text(&Type::Auto), "auto");
}

#[test]
fn text_keeps_integer_extremes() {
    let serializer = TextSerializer::new();
    assert_eq!(serializer.expr_to_text(&Expr::IntegerLiteral(i64::MIN)), "-9223372036854775808");
    assert_eq!(serializer.expr_to_text(&Expr::IntegerLiteral(i64::MAX)), "9223372036854775807");
    assert_eq!(serializer.expr_to_text(&Expr::IntegerLiteral(0)), "0");
    assert_eq!(serializer.expr_to_text(&Expr::IntegerLiteral(-10)), "-10");
}

#[test]
fn print_visitor_is_exact() {
    let mut visitor = PrintVisitor::new();
    let expression = binary(ident("a"), BinaryOperator::Le, Expr::IntegerLiteral(2));
    assert_eq!(visitor.visit_expression(&expression), "BinaryOp(Identifier(a) <= IntegerLiteral(2))");
    assert_eq!(
        visitor.visit_binary_op(&ident("a"), &BinaryOperator::Mod, &ident("b")),
        "BinaryOp(Identifier(a) % Identifier(b))"
    );
    assert_eq!(visitor.visit_unary_op(&UnaryOperator::Deref, &ident("p")), "UnaryOp(*Identifier(p))");
    let block = Statement::Block(vec![
        Statement::Return(None),
        Statement::Expression(Expr::FunctionCall { name: "f".to_string(), arguments: vec![] }),
    ]);
    assert_eq!(
        visitor.visit_statement(&block),
        "Block {\nReturn\nExpressionStmt(FunctionCall(f()))\n}"
    );
    let branch = Statement::If {
        condition: ident("c"),
        then_branch: vec![Statement::Return(Some(ident("x")))],
        else_branch: Some(vec![]),
    };
    assert_eq!(visitor.visit_statement(&branch), "If(Identifier(c)) {\nReturn(Identifier(x))\n} Else {\n\n}");
    assert_eq!(
        visitor.visit_variable_declaration("x", &Type::Int, &Some(Box::new(Expr::IntegerLiteral(5)))),
        "VariableDeclaration: x int = IntegerLiteral(5)"
    );
    assert_eq!(
        visitor.visit_function_declaration(
            "f",
            &vec![
                Parameter { name: "a".to_string(), param_type: Type::Int },
                Parameter { name: "b".to_string(), param_type: Type::Custom("T".to_string()) },
            ],
            &Type::Double,
            &vec![],
        ),
        "FunctionDeclaration: f(a: int, b: T) -> double { ... }"
    );
    assert_eq!(
        visitor.visit_program(&vec![ASTNode::Expression(ident("a")), ASTNode::Expression(ident("b"))]),
        "Program:\nIdentifier(a)\nIdentifier(b)\n"
    );
    assert_eq!(visitor.indent(), "");
    assert_eq!(visitor.visit_type(&Type::Pointer(Box::new(Type::Char))), "ptr(char)");
}

#[test]
fn operator_names_and_symbols() {
    assert_eq!(BinaryOperator::Ge.name(), "Ge");
    assert_eq!(BinaryOperator::Ge.symbol(), ">=");
    assert_eq!(BinaryOperator::And.symbol(), "&&");
    assert_eq!(BinaryOperator::Or.symbol(), "||");
    assert_eq!(UnaryOperator::Neg.name(), "Neg");
    assert_eq!(UnaryOperator::AddrOf.symbol(), "&");
    assert_eq!(Type::Custom("point".to_string()).name(), "point");
}

#[test]
fn copies_are_equal_to_what_was_copied() {
    let function = ASTNode::new_function_declaration(
        "f".to_string(),
        vec![Parameter { name: "a".to_string(), param_type: Type::Array(Box::new(Type::Int), 2) }],
        Type::Pointer(Box::new(Type::Custom("T".to_string()))),
        vec![
            Statement::If {
                condition: binary(ident("a"), BinaryOperator::Ne, Expr::IntegerLiteral(0)),
                then_branch: vec![Statement::Return(None)],
                else_branch: Some(vec![Statement::Block(vec![])]),
            },
            Statement::While {
                condition: Expr::FunctionCall { name: "g".to_string(), arguments: vec![ident("a")] },
                body: vec![Statement::Expression(Expr::StringLiteral("s".to_string()))],
            },
        ],
    );
    let program = ASTNode::Program(vec![
        function,
        ASTNode::new_variable_declaration("x".to_string(), Type::Auto, Some(ident("y"))),
    ]);
    assert_eq!(program.clone(), program);
}
