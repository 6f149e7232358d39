use cpp_frontend::ast::{ASTNode, BinaryOperator as AstOperator, Expr, Statement, UnaryOperator};
use cpp_frontend::ir::builder::{build_module, lower_function, lower_operator, lower_type};
use cpp_frontend::ir::{
    BasicBlock, BinaryOperator, Constant, ControlFlowGraph, Function, IRError, Instruction, Module,
    Operand, Parameter, Type,
};
use cpp_frontend::lexer::Lexer;
use cpp_frontend::parser::Parser;

fn ident(name: &str) -> Expr {
    Expr::Identifier(name.to_string())
}

fn var(name: &str) -> Operand {
    Operand::Variable(name.to_string())
}

fn number(value: i64) -> Operand {
    Operand::Constant(Constant::Integer(value))
}

fn jump(target: &str) -> Instruction {
    Instruction::Jump { target: target.to_string() }
}

fn branch(condition: Operand, yes: &str, no: &str) -> Instruction {
    Instruction::Branch { condition, true_target: yes.to_string(), false_target: no.to_string() }
}

fn block(name: &str, instructions: Vec<Instruction>, terminator: Option<Instruction>) -> BasicBlock {
    BasicBlock { name: name.to_string(), instructions, terminator }
}

fn lower(text: &str) -> Result<Module, IRError> {
    let mut lexer = Lexer::new(text);
    let tree = Parser::new(lexer.tokenize().unwrap()).parse().unwrap();
    build_module("m", &tree)
}

#[test]
fn test_function_creation() {
    let func = Function::new("main".to_string(), Type::Int)
        .add_parameter(Parameter { name: "x".to_string(), param_type: Type::Int });

    assert_eq!(func.name, "main");
    assert_eq!(func.parameters.len(), 1);
}

#[test]
fn test_basic_block_creation() {
    let mut block = BasicBlock::new("entry".to_string());
    block
        .add_instruction(Instruction::new_const("temp".to_string(), Constant::Integer(42)))
        .unwrap();

    assert_eq!(block.len(), 1);
}

#[test]
fn a_terminated_block_takes_no_more_instructions() {
    let mut block = BasicBlock::new("b".to_string());
    assert!(block.is_empty());
    assert_eq!(
        block.add_instruction(Instruction::new_const("t".to_string(), Constant::Boolean(true))),
        Ok(())
    );
    assert!(!block.is_terminated());
    assert_eq!(block.add_instruction(Instruction::new_return(None)), Ok(()));
    assert!(block.is_terminated());
    assert_eq!(block.len(), 2);
    let refused = Err(IRError::TerminatedBlock { block: "b".to_string() });
    assert_eq!(
        block.add_instruction(Instruction::new_const("u".to_string(), Constant::Null)),
        refused
    );
    assert_eq!(block.add_instruction(jump("x")), refused);
    assert_eq!(block.add_instruction(Instruction::new_return(Some(number(1)))), refused);
    assert_eq!(block.len(), 2);
    assert_eq!(block.instructions.len(), 1);
    assert_eq!(block.terminator, Some(Instruction::new_return(None)));
}

#[test]
fn instructions_are_added_up_to_the_first_refused() {
    let mut block = BasicBlock::new("b".to_string());
    let list = vec![
        Instruction::new_const("a".to_string(), Constant::Integer(1)),
        Instruction::new_binary_op("c".to_string(), BinaryOperator::Xor, var("a"), number(2)),
        jump("next"),
        Instruction::new_const("d".to_string(), Constant::Integer(3)),
        jump("other"),
    ];
    assert_eq!(
        block.add_instructions(list),
        Err(IRError::TerminatedBlock { block: "b".to_string() })
    );
    assert_eq!(block.instructions.len(), 2);
    assert_eq!(block.terminator, Some(jump("next")));
    let mut open = BasicBlock::new("o".to_string());
    assert_eq!(open.add_instructions(vec![]), Ok(()));
    assert!(open.is_empty());
    assert!(jump("x").is_terminator());
    assert!(branch(number(1), "a", "b").is_terminator());
    assert!(!Instruction::Load { dest: "a".to_string(), source: var("b") }.is_terminator());
}

#[test]
fn main_returning_zero() {
    let module = lower("int main() { return 0; }").unwrap();
    assert_eq!(module.name, "m");
    assert_eq!(module.functions.len(), 1);
    let function = &module.functions[0];
    assert_eq!(function.name, "main");
    assert_eq!(function.return_type, Type::Int);
    assert_eq!(function.len(), 1);
    assert_eq!(
        function.basic_blocks,
        vec![block("entry", vec![], Some(Instruction::Return { value: Some(number(0)) }))]
    );
    assert_eq!(function.basic_blocks[0].len(), 1);
    assert_eq!(function.entry_block, "entry");
    assert_eq!(function.get_basic_block("entry"), Some(&function.basic_blocks[0]));
    assert_eq!(function.validate(), Ok(()));
    assert!(module.get_function("main").is_some());
    assert!(module.get_function("other").is_none());
}

#[test]
fn expressions_go_to_temporaries() {
    let module = lower("int f(int a, int* p) { return -a + g(a * 2, \"s\") - *p; }").unwrap();
    let function = &module.functions[0];
    assert_eq!(function.parameters.len(), 2);
    assert_eq!(function.parameters[1].param_type, Type::Pointer(Box::new(Type::Int)));
    assert_eq!(function.local_variables.get("a"), Some(&Type::Int));
    assert_eq!(function.local_variables.get("p"), Some(&Type::Pointer(Box::new(Type::Int))));
    let expected = block(
        "entry",
        vec![
            Instruction::new_binary_op("entry.t0".to_string(), BinaryOperator::Sub, number(0), var("a")),
            Instruction::new_binary_op("entry.t1".to_string(), BinaryOperator::Mul, var("a"), number(2)),
            Instruction::Call {
                dest: Some("entry.t2".to_string()),
                function: "g".to_string(),
                args: vec![var("entry.t1"), var("\"s\"")],
            },
            Instruction::new_binary_op(
                "entry.t3".to_string(),
                BinaryOperator::Add,
                var("entry.t0"),
                var("entry.t2"),
            ),
            Instruction::Load { dest: "entry.t4".to_string(), source: var("p") },
            Instruction::new_binary_op(
                "entry.t5".to_string(),
                BinaryOperator::Sub,
                var("entry.t3"),
                var("entry.t4"),
            ),
        ],
        Some(Instruction::Return { value: Some(var("entry.t5")) }),
    );
    assert_eq!(function.basic_blocks, vec![expected]);
}

#[test]
fn not_and_address_of() {
    let body = vec![Statement::Return(Some(Expr::UnaryOp {
        operator: UnaryOperator::Not,
        operand: Box::new(Expr::UnaryOp {
            operator: UnaryOperator::AddrOf,
            operand: Box::new(ident("x")),
        }),
    }))];
    let function = lower_function(&"f".to_string(), &vec![], &cpp_frontend::ast::Type::Bool, &body).unwrap();
    let expected = block(
        "entry",
        vec![
            Instruction::Alloca { dest: "entry.t0".to_string(), element_type: Type::Auto },
            Instruction::Store { dest: var("entry.t0"), source: var("x") },
            Instruction::new_binary_op(
                "entry.t2".to_string(),
                BinaryOperator::Eq,
                var("entry.t0"),
                Operand::Constant(Constant::Boolean(false)),
            ),
        ],
        Some(Instruction::Return { value: Some(var("entry.t2")) }),
    );
    assert_eq!(function.basic_blocks, vec![expected]);
    assert_eq!(function.local_variables.get("entry.t0"), Some(&Type::Auto));
    assert_eq!(function.local_variables.len(), 1);
}

#[test]
fn branches_and_loops_add_blocks() {
    let module = lower(
        "int f(int n) { while (n) { if (n < 3) { return 1; } else { g(); } } if (n) { h(); } return 0; }",
    )
    .unwrap();
    let function = &module.functions[0];
    let call = |dest: &str, name: &str| Instruction::Call {
        dest: Some(dest.to_string()),
        function: name.to_string(),
        args: vec![],
    };
    let expected = vec![
        block("entry", vec![], Some(jump("loop1"))),
        block("loop1", vec![], Some(branch(var("n"), "body2", "exit3"))),
        block(
            "body2",
            vec![Instruction::new_binary_op(
                "body2.t0".to_string(),
                BinaryOperator::Lt,
                var("n"),
                number(3),
            )],
            Some(branch(var("body2.t0"), "then4", "else5")),
        ),
        block("exit3", vec![], Some(branch(var("n"), "then7", "merge8"))),
        block("then4", vec![], Some(Instruction::Return { value: Some(number(1)) })),
        block("else5", vec![call("else5.t0", "g")], Some(jump("merge6"))),
        block("merge6", vec![], Some(jump("loop1"))),
        block("then7", vec![call("then7.t0", "h")], Some(jump("merge8"))),
        block("merge8", vec![], Some(Instruction::Return { value: Some(number(0)) })),
    ];
    assert_eq!(function.basic_blocks, expected);
}

#[test]
fn an_instruction_after_a_terminator_is_an_error() {
    assert_eq!(
        lower("int f() { return 0; g(); }").err(),
        Some(IRError::TerminatedBlock { block: "entry".to_string() })
    );
    assert_eq!(
        lower("int f() { return 0; return 1; }").err(),
        Some(IRError::TerminatedBlock { block: "entry".to_string() })
    );
    assert_eq!(
        lower("int f() { return 0; while (a) { } }").err(),
        Some(IRError::TerminatedBlock { block: "entry".to_string() })
    );
}

#[test]
fn a_reachable_block_must_be_terminated() {
    assert_eq!(
        lower("void f() { g(); }").err(),
        Some(IRError::UnterminatedBlock { block: "entry".to_string() })
    );
    assert_eq!(
        lower("void f(int a) { if (a) { return; } }").err(),
        Some(IRError::UnterminatedBlock { block: "merge2".to_string() })
    );
    let both = lower("int f(int a) { if (a) { return 1; } else { return 2; } }").unwrap();
    let blocks = &both.functions[0].basic_blocks;
    assert_eq!(blocks.len(), 4);
    assert_eq!(blocks[3], block("merge3", vec![], None));
    assert_eq!(
        both.functions[0].validate(),
        Ok(())
    );
}

#[test]
fn graphs_are_checked_from_their_entry() {
    let mut graph = ControlFlowGraph::new("start".to_string());
    assert_eq!(graph.validate(), Err(IRError::MissingEntryBlock { name: "start".to_string() }));
    graph.add_block(block("other", vec![], None));
    assert_eq!(graph.validate(), Err(IRError::MissingEntryBlock { name: "start".to_string() }));
    graph.add_block(block("start", vec![], Some(branch(number(1), "a", "nowhere"))));
    graph.add_block(block("a", vec![], Some(jump("b"))));
    graph.add_block(block("b", vec![], Some(jump("a"))));
    graph.add_block(block("c", vec![], Some(jump("other"))));
    assert_eq!(graph.reachable_blocks(), vec![false, true, true, true, false]);
    assert_eq!(graph.validate(), Ok(()));
    graph.get_block_mut("b").unwrap().terminator = Some(jump("other"));
    assert_eq!(graph.reachable_blocks(), vec![true, true, true, true, false]);
    assert_eq!(graph.validate(), Err(IRError::UnterminatedBlock { block: "other".to_string() }));
    assert_eq!(graph.get_block("a").unwrap().terminator, Some(jump("b")));
    assert!(graph.get_block("z").is_none());
    assert!(graph.get_block_mut("z").is_none());
    graph.add_block(block("a", vec![], None));
    assert_eq!(graph.get_block("a").unwrap().terminator, Some(jump("b")));
}

#[test]
fn reachability_follows_long_chains() {
    let mut graph = ControlFlowGraph::new("b0".to_string());
    let count = 6;
    for i in (0..count).rev() {
        let terminator = if i + 1 < count { Some(jump(&format!("b{}", i + 1))) } else { None };
        graph.add_block(block(&format!("b{}", i), vec![], terminator));
    }
    assert_eq!(graph.reachable_blocks(), vec![true; count]);
    assert_eq!(graph.validate(), Err(IRError::UnterminatedBlock { block: "b5".to_string() }));
}

#[test]
fn globals_and_other_nodes() {
    let module = lower("int g = 1; p : char*; v : Vec; x + 1; int main() { return g; }").unwrap();
    assert_eq!(module.global_variables.get("g"), Some(&Type::Int));
    assert_eq!(module.global_variables.get("p"), Some(&Type::Pointer(Box::new(Type::Char))));
    assert_eq!(
        module.global_variables.get("v"),
        Some(&Type::Struct { name: "Vec".to_string(), fields: vec![] })
    );
    assert_eq!(module.global_variables.len(), 3);
    assert_eq!(module.functions.len(), 1);
    let alone = ASTNode::new_function_declaration(
        "k".to_string(),
        vec![],
        cpp_frontend::ast::Type::Void,
        vec![Statement::Return(None)],
    );
    let single = build_module("one", &alone).unwrap();
    assert_eq!(single.functions.len(), 1);
    assert_eq!(single.functions[0].basic_blocks[0].terminator, Some(Instruction::Return { value: None }));
    let nothing = build_module("none", &ASTNode::Expression(ident("a"))).unwrap();
    assert!(nothing.functions.is_empty());
}

#[test]
fn modules_and_functions_by_name() {
    let mut module = Module::new("m".to_string());
    module.add_function(Function::new("f".to_string(), Type::Void));
    module.add_function(Function::new("g".to_string(), Type::Int));
    module.add_global_variable("x".to_string(), Type::Int);
    module.add_global_variable("x".to_string(), Type::Bool);
    assert_eq!(module.global_variables.get("x"), Some(&Type::Bool));
    assert_eq!(module.get_function("g").unwrap().return_type, Type::Int);
    let g = module.get_function_mut("g").unwrap();
    assert!(g.is_empty());
    g.add_basic_block(BasicBlock::new("entry".to_string()));
    g.add_local_variable("v".to_string(), Type::Char);
    g.get_basic_block_mut("entry").unwrap().add_instruction(jump("entry")).unwrap();
    assert!(g.get_basic_block_mut("none").is_none());
    assert_eq!(module.functions[1].len(), 1);
    assert!(module.functions[1].basic_blocks[0].is_terminated());
    assert!(module.get_function_mut("h").is_none());
    let graph = module.functions.remove(1).into_graph();
    assert_eq!(graph.entry_block, "entry");
    assert_eq!(graph.validate(), Ok(()));
}

#[test]
fn types_and_operators_are_lowered_one_to_one() {
    assert_eq!(lower_type(&cpp_frontend::ast::Type::Void), Type::Void);
    assert_eq!(lower_type(&cpp_frontend::ast::Type::Auto), Type::Auto);
    assert_eq!(
        lower_type(&cpp_frontend::ast::Type::Array(Box::new(cpp_frontend::ast::Type::Pointer(Box::new(cpp_frontend::ast::Type::Double))), 4)),
        Type::Array(Box::new(Type::Pointer(Box::new(Type::Double))), 4)
    );
    assert_eq!(lower_operator(AstOperator::Mod), BinaryOperator::Mod);
    assert_eq!(lower_operator(AstOperator::Or), BinaryOperator::Or);
    assert_eq!(lower_operator(AstOperator::Ge), BinaryOperator::Ge);
}
