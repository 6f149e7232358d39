use cpp_frontend::ast::{ASTNode, BinaryOperator, Expr, Parameter, Statement, Type, UnaryOperator};
use cpp_frontend::semantic::{
    FunctionSignature, NameResolutionError, NameResolver, SymbolError, SymbolTable, SymbolType,
    TypeChecker, TypeError,
};

fn ident(name: &str) -> Expr {
    Expr::Identifier(name.to_string())
}

fn binary(left: Expr, operator: BinaryOperator, right: Expr) -> Expr {
    Expr::BinaryOp { left: Box::new(left), operator, right: Box::new(right) }
}

fn variable(name: &str, data_type: Type, initializer: Option<Expr>) -> ASTNode {
    ASTNode::new_variable_declaration(name.to_string(), data_type, initializer)
}

fn mismatch(expected: &str, actual: &str) -> TypeError {
    TypeError::TypeMismatch { expected: expected.to_string(), actual: actual.to_string() }
}

fn invalid(operation: &str, left: &str, right: &str) -> TypeError {
    TypeError::InvalidOperation {
        operation: operation.to_string(),
        left: left.to_string(),
        right: right.to_string(),
    }
}

#[test]
fn test_name_resolver_basic() {
    let mut resolver = NameResolver::new();

    let decl = ASTNode::VariableDeclaration {
        name: "x".to_string(),
        data_type: Type::Int,
        initializer: Some(Box::new(Expr::IntegerLiteral(5))),
    };

    let program = ASTNode::Program(vec![decl]);
    let result = resolver.resolve_program(&program);

    assert!(result.is_ok());
}

#[test]
fn name_resolution_test_undefined_variable() {
    let mut resolver = NameResolver::new();

    let expr = ASTNode::Expression(Expr::BinaryOp {
        left: Box::new(Expr::Identifier("x".to_string())),
        operator: BinaryOperator::Add,
        right: Box::new(Expr::Identifier("y".to_string())),
    });

    let x_decl = ASTNode::VariableDeclaration {
        name: "x".to_string(),
        data_type: Type::Int,
        initializer: Some(Box::new(Expr::IntegerLiteral(5))),
    };

    let program = ASTNode::Program(vec![x_decl, expr]);
    let result = resolver.resolve_program(&program);

    assert!(result.is_err());
    let errors = result.unwrap_err();
    assert!(errors
        .iter()
        .any(|e| matches!(e, NameResolutionError::UndefinedVariable(var) if var == "y")));
}

#[test]
fn test_symbol_table_basics() {
    let mut table = SymbolTable::new();

    table.define_variable("x".to_string(), "int".to_string(), true).unwrap();

    let sym = table.lookup("x").unwrap();
    assert_eq!(sym.name, "x");
    assert!(sym.mutable);
    assert!(matches!(sym.symbol_type, SymbolType::Variable(ref t) if t == "int"));

    table.enter_scope();
    table.define_variable("y".to_string(), "string".to_string(), false).unwrap();

    let sym_y = table.lookup("y").unwrap();
    assert_eq!(sym_y.name, "y");
    assert_eq!(sym_y.scope_level, 1);

    table.exit_scope();

    assert!(table.lookup("y").is_none());
    assert!(table.lookup("x").is_some());
}

#[test]
fn test_function_definition() {
    let mut table = SymbolTable::new();

    let signature = FunctionSignature {
        return_type: "void".to_string(),
        parameters: vec![("x".to_string(), "int".to_string())],
    };

    table.define_function("my_func".to_string(), signature).unwrap();

    let sym = table.lookup("my_func").unwrap();
    assert!(matches!(sym.symbol_type, SymbolType::Function(_)));
}

#[test]
fn test_type_checker_basic() {
    let mut checker = TypeChecker::new();

    let expr = Expr::BinaryOp {
        left: Box::new(Expr::Identifier("x".to_string())),
        operator: BinaryOperator::Add,
        right: Box::new(Expr::Identifier("y".to_string())),
    };

    checker.symbol_table.define_variable("x".to_string(), "int".to_string(), true).unwrap();
    checker.symbol_table.define_variable("y".to_string(), "int".to_string(), true).unwrap();

    let result = checker.infer_expression_type(&expr);
    assert!(result.is_ok());
    assert_eq!(result.unwrap(), "int");
}

#[test]
fn type_checker_test_undefined_variable() {
    let checker = TypeChecker::new();

    let expr = Expr::Identifier("undefined_var".to_string());
    let result = checker.infer_expression_type(&expr);

    assert!(matches!(result, Err(TypeError::UndefinedVariable(_))));
}

#[test]
fn test_symbol_table_creation() {
    let table = SymbolTable::new();
    assert_eq!(table.get_all_symbols().len(), 0);
}

#[test]
fn test_type_checker_creation() {
    let _checker = TypeChecker::new();
    assert!(true);
}

#[test]
fn test_name_resolver_creation() {
    let _resolver = NameResolver::new();
    assert!(true);
}

#[test]
fn test_semantic_analysis_pipeline() {
    let x_decl = ASTNode::VariableDeclaration {
        name: "x".to_string(),
        data_type: Type::Int,
        initializer: Some(Box::new(Expr::IntegerLiteral(10))),
    };

    let y_decl = ASTNode::VariableDeclaration {
        name: "y".to_string(),
        data_type: Type::Int,
        initializer: Some(Box::new(Expr::IntegerLiteral(20))),
    };

    let sum_expr = ASTNode::Expression(Expr::BinaryOp {
        left: Box::new(Expr::Identifier("x".to_string())),
        operator: BinaryOperator::Add,
        right: Box::new(Expr::Identifier("y".to_string())),
    });

    let program = ASTNode::Program(vec![x_decl, y_decl, sum_expr]);

    let mut type_checker = TypeChecker::new();
    let type_check_result = type_checker.check_program(&program);
    assert!(type_check_result.is_ok(), "Type checking should pass for valid program");

    let mut name_resolver = NameResolver::new();
    let name_resolve_result = name_resolver.resolve_program(&program);
    assert!(name_resolve_result.is_ok(), "Name resolution should pass for valid program");

    println!("Semantic analysis pipeline test passed!");
}

#[test]
fn test_type_mismatch_detection() {
    let int_var = ASTNode::VariableDeclaration {
        name: "num".to_string(),
        data_type: Type::Int,
        initializer: Some(Box::new(Expr::IntegerLiteral(42))),
    };

    let str_var = ASTNode::VariableDeclaration {
        name: "text".to_string(),
        data_type: Type::Custom("string".to_string()),
        initializer: Some(Box::new(Expr::StringLiteral("hello".to_string()))),
    };

    let invalid_expr = ASTNode::Expression(Expr::BinaryOp {
        left: Box::new(Expr::Identifier("num".to_string())),
        operator: BinaryOperator::Add,
        right: Box::new(Expr::Identifier("text".to_string())),
    });

    let program = ASTNode::Program(vec![int_var, str_var, invalid_expr]);

    let mut type_checker = TypeChecker::new();
    let type_check_result = type_checker.check_program(&program);

    assert!(type_check_result.is_err(), "Type checking should fail for incompatible types");
    assert_eq!(type_check_result, Err(invalid("Add", "int", "string")));

    println!("Type mismatch detection test passed!");
}

#[test]
fn symbols_of_a_closed_scope_are_gone() {
    let mut table = SymbolTable::new();
    table.define_variable("x".to_string(), "int".to_string(), true).unwrap();
    table.enter_scope();
    table.define_variable("y".to_string(), "int".to_string(), true).unwrap();
    table.exit_scope();
    assert!(table.lookup("y").is_none());
    assert_eq!(table.lookup("x").unwrap().scope_level, 0);
    assert_eq!(table.current_scope(), 0);
    assert_eq!(table.get_all_symbols().len(), 1);
}

#[test]
fn inner_symbols_shadow_outer_ones() {
    let mut table = SymbolTable::new();
    table.define_variable("x".to_string(), "int".to_string(), true).unwrap();
    table.enter_scope();
    assert_eq!(table.current_scope(), 1);
    assert!(table.lookup_in_current_scope("x").is_none());
    table.define_variable("x".to_string(), "bool".to_string(), false).unwrap();
    let inner = table.lookup("x").unwrap();
    assert_eq!(inner.scope_level, 1);
    assert!(!inner.mutable);
    assert!(matches!(inner.symbol_type, SymbolType::Variable(ref t) if t == "bool"));
    assert_eq!(table.lookup_in_current_scope("x").unwrap().scope_level, 1);
    let all = table.lookup_all_scopes("x").unwrap();
    assert_eq!(all.len(), 2);
    assert_eq!(all[0].scope_level, 0);
    assert_eq!(all[1].scope_level, 1);
    assert!(table.lookup_all_scopes("z").is_none());
    table.exit_scope();
    let outer = table.lookup("x").unwrap();
    assert_eq!(outer.scope_level, 0);
    assert!(matches!(outer.symbol_type, SymbolType::Variable(ref t) if t == "int"));
}

#[test]
fn a_name_is_defined_once_in_a_scope() {
    let mut table = SymbolTable::new();
    table.define_variable("x".to_string(), "int".to_string(), true).unwrap();
    assert_eq!(
        table.define_variable("x".to_string(), "bool".to_string(), true),
        Err(SymbolError::AlreadyDefined("x".to_string()))
    );
    let signature = FunctionSignature { return_type: "int".to_string(), parameters: vec![] };
    assert_eq!(
        table.define_function("x".to_string(), signature),
        Err(SymbolError::AlreadyDefined("x".to_string()))
    );
    assert!(matches!(table.lookup("x").unwrap().symbol_type, SymbolType::Variable(ref t) if t == "int"));
    assert_eq!(table.get_all_symbols().len(), 1);
}

#[test]
fn leaving_the_outermost_scope_clears_it() {
    let mut table = SymbolTable::default();
    table.define_variable("x".to_string(), "int".to_string(), true).unwrap();
    table.exit_scope();
    assert_eq!(table.current_scope(), 0);
    assert!(table.lookup("x").is_none());
    table.define_variable("x".to_string(), "int".to_string(), true).unwrap();
    assert!(table.lookup("x").is_some());
}

#[test]
fn initializer_must_have_the_declared_type() {
    let program = ASTNode::Program(vec![
        variable("x", Type::Int, Some(Expr::IntegerLiteral(5))),
        variable("y", Type::Bool, Some(ident("x"))),
    ]);
    let mut checker = TypeChecker::new();
    assert_eq!(checker.check_program(&program), Err(mismatch("bool", "int")));
    assert!(checker.symbol_table.lookup("y").is_some());
}

#[test]
fn arithmetic_and_comparison_types() {
    let mut checker = TypeChecker::new();
    let program = ASTNode::Program(vec![
        variable("a", Type::Int, None),
        variable("b", Type::Int, None),
        ASTNode::Expression(binary(ident("a"), BinaryOperator::Add, ident("b"))),
    ]);
    assert_eq!(checker.check_program(&program), Ok(()));
    for op in [
        BinaryOperator::Add,
        BinaryOperator::Sub,
        BinaryOperator::Mul,
        BinaryOperator::Div,
        BinaryOperator::Mod,
    ] {
        assert_eq!(
            checker.infer_expression_type(&binary(ident("a"), op, ident("b"))),
            Ok("int".to_string())
        );
    }
    for op in [
        BinaryOperator::Eq,
        BinaryOperator::Ne,
        BinaryOperator::Lt,
        BinaryOperator::Le,
        BinaryOperator::Gt,
        BinaryOperator::Ge,
    ] {
        assert_eq!(
            checker.infer_expression_type(&binary(ident("a"), op, ident("b"))),
            Ok("bool".to_string())
        );
    }
    assert_eq!(
        checker.infer_expression_type(&binary(ident("a"), BinaryOperator::And, ident("b"))),
        Err(invalid("And", "int", "int"))
    );
    let both = binary(
        binary(ident("a"), BinaryOperator::Lt, ident("b")),
        BinaryOperator::Or,
        binary(ident("a"), BinaryOperator::Eq, ident("b")),
    );
    assert_eq!(checker.infer_expression_type(&both), Ok("bool".to_string()));
    assert_eq!(
        checker.infer_expression_type(&binary(
            ident("a"),
            BinaryOperator::Lt,
            Expr::StringLiteral("s".to_string())
        )),
        Err(invalid("Lt", "int", "string"))
    );
}

#[test]
fn prefix_operator_types() {
    let mut checker = TypeChecker::new();
    checker.symbol_table.define_variable("i".to_string(), "int".to_string(), true).unwrap();
    checker.symbol_table.define_variable("d".to_string(), "double".to_string(), true).unwrap();
    checker.symbol_table.define_variable("b".to_string(), "bool".to_string(), true).unwrap();
    let unary = |operator, name: &str| Expr::UnaryOp { operator, operand: Box::new(ident(name)) };
    assert_eq!(checker.infer_expression_type(&unary(UnaryOperator::Neg, "i")), Ok("int".to_string()));
    assert_eq!(
        checker.infer_expression_type(&unary(UnaryOperator::Neg, "d")),
        Ok("double".to_string())
    );
    assert_eq!(
        checker.infer_expression_type(&unary(UnaryOperator::Neg, "b")),
        Err(invalid("Neg", "bool", "numeric type"))
    );
    assert_eq!(checker.infer_expression_type(&unary(UnaryOperator::Not, "b")), Ok("bool".to_string()));
    assert_eq!(
        checker.infer_expression_type(&unary(UnaryOperator::Not, "i")),
        Err(invalid("Not", "int", "bool"))
    );
    assert_eq!(
        checker.infer_expression_type(&unary(UnaryOperator::AddrOf, "b")),
        Ok("bool".to_string())
    );
    assert_eq!(checker.infer_expression_type(&unary(UnaryOperator::Deref, "i")), Ok("int".to_string()));
}

#[test]
fn calls_are_checked_against_the_signature() {
    let function = ASTNode::new_function_declaration(
        "f".to_string(),
        vec![
            Parameter { name: "a".to_string(), param_type: Type::Int },
            Parameter { name: "b".to_string(), param_type: Type::Bool },
        ],
        Type::Double,
        vec![Statement::Return(Some(ident("a")))],
    );
    let mut checker = TypeChecker::new();
    assert_eq!(checker.check_node(&function), Ok(()));
    assert_eq!(checker.check_node(&variable("v", Type::Int, None)), Ok(()));
    let call = |arguments: Vec<Expr>| Expr::FunctionCall { name: "f".to_string(), arguments };
    assert_eq!(
        checker.infer_expression_type(&call(vec![
            Expr::IntegerLiteral(1),
            binary(ident("v"), BinaryOperator::Eq, ident("v"))
        ])),
        Ok("double".to_string())
    );
    assert_eq!(
        checker.infer_expression_type(&call(vec![Expr::IntegerLiteral(1)])),
        Err(TypeError::ArgumentCountMismatch { expected: 2, actual: 1 })
    );
    assert_eq!(
        checker.infer_expression_type(&call(vec![Expr::IntegerLiteral(1), Expr::IntegerLiteral(2)])),
        Err(TypeError::ArgumentTypeMismatch {
            index: 1,
            expected: "bool".to_string(),
            actual: "int".to_string()
        })
    );
    assert_eq!(
        checker.infer_expression_type(&Expr::FunctionCall { name: "v".to_string(), arguments: vec![] }),
        Err(mismatch("function", "non-function"))
    );
    assert_eq!(
        checker.infer_expression_type(&Expr::FunctionCall { name: "g".to_string(), arguments: vec![] }),
        Err(TypeError::UndefinedVariable("g".to_string()))
    );
    assert_eq!(checker.infer_expression_type(&ident("f")), Ok("function".to_string()));
    assert!(checker.symbol_table.lookup("a").is_none());
    assert_eq!(checker.symbol_table.current_scope(), 0);
}

#[test]
fn type_checking_stops_at_the_first_error() {
    let program = ASTNode::Program(vec![
        ASTNode::Expression(ident("missing")),
        variable("x", Type::Bool, Some(Expr::IntegerLiteral(1))),
    ]);
    let mut checker = TypeChecker::new();
    assert_eq!(
        checker.check_program(&program),
        Err(TypeError::UndefinedVariable("missing".to_string()))
    );
    assert!(checker.symbol_table.lookup("x").is_none());
    let mut other = TypeChecker::new();
    assert_eq!(other.check_program(&ASTNode::Expression(ident("x"))), Err(mismatch("Program", "non-program node")));
}

#[test]
fn declarations_and_conditions() {
    let mut checker = TypeChecker::new();
    assert_eq!(checker.check_node(&variable("x", Type::Int, None)), Ok(()));
    assert_eq!(
        checker.check_node(&variable("x", Type::Int, None)),
        Err(mismatch("valid variable name", "x"))
    );
    assert_eq!(
        checker.check_node(&variable("a", Type::Auto, Some(Expr::StringLiteral("s".to_string())))),
        Ok(())
    );
    assert_eq!(checker.infer_expression_type(&ident("a")), Ok("string".to_string()));
    assert_eq!(
        checker.check_node(&ASTNode::new_function_declaration(
            "x".to_string(),
            vec![],
            Type::Void,
            vec![]
        )),
        Err(mismatch("valid function name", "x"))
    );
    assert_eq!(
        checker.check_node(&ASTNode::new_function_declaration(
            "g".to_string(),
            vec![
                Parameter { name: "p".to_string(), param_type: Type::Int },
                Parameter { name: "p".to_string(), param_type: Type::Int },
            ],
            Type::Void,
            vec![]
        )),
        Err(mismatch("valid parameter name", "p"))
    );
    assert_eq!(checker.symbol_table.current_scope(), 0);
    let condition = |c: Expr| Statement::While { condition: c, body: vec![Statement::Expression(ident("x"))] };
    assert_eq!(checker.check_statement(&condition(ident("x"))), Ok(()));
    assert_eq!(checker.check_statement(&condition(ident("a"))), Err(mismatch("bool", "string")));
    let branch = Statement::If {
        condition: Expr::IntegerLiteral(1),
        then_branch: vec![Statement::Block(vec![Statement::Return(Some(ident("x")))])],
        else_branch: Some(vec![Statement::Expression(ident("nowhere"))]),
    };
    assert_eq!(
        checker.check_statement(&branch),
        Err(TypeError::UndefinedVariable("nowhere".to_string()))
    );
    assert_eq!(checker.symbol_table.current_scope(), 0);
}

#[test]
fn resolution_collects_every_error() {
    let program = ASTNode::Program(vec![
        ASTNode::Expression(binary(ident("a"), BinaryOperator::Add, ident("b"))),
        variable("x", Type::Int, Some(ident("x"))),
        variable("x", Type::Int, Some(ident("c"))),
        ASTNode::new_function_declaration(
            "f".to_string(),
            vec![
                Parameter { name: "p".to_string(), param_type: Type::Int },
                Parameter { name: "p".to_string(), param_type: Type::Int },
            ],
            Type::Int,
            vec![
                Statement::Block(vec![Statement::Expression(ident("d"))]),
                Statement::If {
                    condition: ident("p"),
                    then_branch: vec![Statement::Return(Some(Expr::FunctionCall {
                        name: "f".to_string(),
                        arguments: vec![ident("e")],
                    }))],
                    else_branch: Some(vec![Statement::Expression(Expr::FunctionCall {
                        name: "g".to_string(),
                        arguments: vec![ident("skipped")],
                    })]),
                },
                Statement::While { condition: ident("h"), body: vec![Statement::Return(None)] },
            ],
        ),
        ASTNode::new_function_declaration("x".to_string(), vec![], Type::Int, vec![]),
        ASTNode::Statement(Statement::Expression(ident("p"))),
    ]);
    let mut resolver = NameResolver::new();
    let undefined = |name: &str| NameResolutionError::UndefinedVariable(name.to_string());
    assert_eq!(
        resolver.resolve_program(&program),
        Err(vec![
            undefined("a"),
            undefined("b"),
            NameResolutionError::VariableAlreadyDefined("x".to_string()),
            NameResolutionError::VariableAlreadyDefined("p".to_string()),
            undefined("d"),
            undefined("e"),
            undefined("g"),
            undefined("h"),
            NameResolutionError::FunctionAlreadyDefined("x".to_string()),
            undefined("p"),
        ])
    );
    assert!(resolver.get_errors().is_empty());
}

#[test]
fn resolver_keeps_errors_until_they_are_handed_out() {
    let mut resolver = NameResolver::new();
    assert!(!resolver.resolve_expression(&ident("a")));
    assert!(resolver.resolve_statement(&Statement::Return(Some(ident("b")))));
    assert!(resolver.resolve_node(&variable("c", Type::Int, None)));
    assert!(!resolver.resolve_node(&variable("c", Type::Int, None)));
    assert_eq!(resolver.get_errors().len(), 3);
    assert_eq!(
        resolver.resolve_program(&ASTNode::Program(vec![])),
        Err(vec![
            NameResolutionError::UndefinedVariable("a".to_string()),
            NameResolutionError::UndefinedVariable("b".to_string()),
            NameResolutionError::VariableAlreadyDefined("c".to_string()),
        ])
    );
    assert_eq!(resolver.resolve_program(&ASTNode::Program(vec![])), Ok(()));
    assert!(!resolver.resolve_expression(&ident("a")));
    resolver.reset_errors();
    assert!(resolver.get_errors().is_empty());
    assert_eq!(
        resolver.resolve_program(&ASTNode::Expression(ident("c"))),
        Err(vec![NameResolutionError::UndefinedVariable("Program node expected".to_string())])
    );
}
