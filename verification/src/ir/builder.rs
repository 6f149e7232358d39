//! Lowering of a tree to the intermediate representation.
//!
//! A function of the tree becomes a function of the representation. Its
//! first block is called `entry`; `if` and `while` add blocks, each named
//! after its part and the number of blocks that the function had before
//! it. The value of an operation goes to a temporary, named after the
//! block and the number of instructions that the block had before it. A
//! string literal is the variable whose name is the literal in its quotes.
//!
//! An instruction for a block that has its terminator is an error, and so
//! is a function in which control can reach a block without a terminator.

use crate::ast::node::{
    statements_model, ASTNode, Expr, SpecExpr, SpecNode, SpecStatement, Statement,
};
use crate::ir::basic_block::{block_add, graph_error, BasicBlock, SpecBlock};
use crate::ir::error::{IRError, SpecIRError};
use crate::ir::function::{
    function_graph, Function, Module, Parameter, SpecFunction, SpecModule, SpecParameter,
};
use crate::ir::instruction::{
    BinaryOperator, Constant, Instruction, Operand, SpecInstruction, SpecOperand,
};
use crate::text::{decimal, size_string};
use crate::types::type_::{SpecType, Type};
use vstd::prelude::*;
use vstd::string::StringExecFns;

verus! {

/// The type of the representation for a type of the tree. A type of the
/// user's is a struct of its name, of which no field is known.
pub open spec fn lowered_type(t: crate::ast::node::SpecType) -> SpecType
    decreases t,
{
    match t {
        crate::ast::node::SpecType::Int => SpecType::Int,
        crate::ast::node::SpecType::Char => SpecType::Char,
        crate::ast::node::SpecType::Float => SpecType::Float,
        crate::ast::node::SpecType::Double => SpecType::Double,
        crate::ast::node::SpecType::Bool => SpecType::Bool,
        crate::ast::node::SpecType::Void => SpecType::Void,
        crate::ast::node::SpecType::Auto => SpecType::Auto,
        crate::ast::node::SpecType::Pointer(inner) => SpecType::Pointer(
            Box::new(lowered_type(*inner)),
        ),
        crate::ast::node::SpecType::Array(inner, count) => SpecType::Array(
            Box::new(lowered_type(*inner)),
            count,
        ),
        crate::ast::node::SpecType::Custom(name) => SpecType::Struct {
            name,
            fields: Seq::empty(),
        },
    }
}

/// The operator of the representation for a binary operator of the tree.
pub open spec fn lowered_operator(op: crate::ast::node::BinaryOperator) -> BinaryOperator {
    match op {
        crate::ast::node::BinaryOperator::Add => BinaryOperator::Add,
        crate::ast::node::BinaryOperator::Sub => BinaryOperator::Sub,
        crate::ast::node::BinaryOperator::Mul => BinaryOperator::Mul,
        crate::ast::node::BinaryOperator::Div => BinaryOperator::Div,
        crate::ast::node::BinaryOperator::Mod => BinaryOperator::Mod,
        crate::ast::node::BinaryOperator::Eq => BinaryOperator::Eq,
        crate::ast::node::BinaryOperator::Ne => BinaryOperator::Ne,
        crate::ast::node::BinaryOperator::Lt => BinaryOperator::Lt,
        crate::ast::node::BinaryOperator::Le => BinaryOperator::Le,
        crate::ast::node::BinaryOperator::Gt => BinaryOperator::Gt,
        crate::ast::node::BinaryOperator::Ge => BinaryOperator::Ge,
        crate::ast::node::BinaryOperator::And => BinaryOperator::And,
        crate::ast::node::BinaryOperator::Or => BinaryOperator::Or,
    }
}

/// A function that is being built, and the index of the block that the
/// next instruction goes to.
pub struct Lowering {
    pub function: SpecFunction,
    pub current: int,
}

/// The current block is one of the blocks.
pub open spec fn lowering_wf(s: Lowering) -> bool {
    0 <= s.current < s.function.blocks.len()
}

/// The current block.
pub open spec fn current_block(s: Lowering) -> SpecBlock {
    s.function.blocks[s.current]
}

/// The state with one more instruction in the current block, or the error
/// if the block has its terminator.
pub open spec fn emit(s: Lowering, i: SpecInstruction) -> Result<Lowering, SpecIRError> {
    match block_add(current_block(s), i) {
        Ok(b) => Ok(
            Lowering {
                function: SpecFunction {
                    blocks: s.function.blocks.update(s.current, b),
                    ..s.function
                },
                ..s
            },
        ),
        Err(error) => Err(error),
    }
}

/// The name of the next temporary: that of the current block, `.t` and the
/// number of instructions that the block has.
pub open spec fn temporary(s: Lowering) -> Seq<char> {
    current_block(s).name + ".t"@ + decimal(current_block(s).instructions.len() as int)
}

/// The name of a new block: its part and the number of blocks that the
/// function has.
pub open spec fn block_name(s: Lowering, part: Seq<char>) -> Seq<char> {
    part + decimal(s.function.blocks.len() as int)
}

/// The state with a new, empty block at the end, named after `part`. The
/// current block stays.
pub open spec fn with_block(s: Lowering, part: Seq<char>) -> Lowering {
    Lowering {
        function: SpecFunction {
            blocks: s.function.blocks.push(
                SpecBlock {
                    name: block_name(s, part),
                    instructions: Seq::empty(),
                    terminator: None,
                },
            ),
            ..s.function
        },
        ..s
    }
}

/// The state with another current block.
pub open spec fn at_block(s: Lowering, index: int) -> Lowering {
    Lowering { current: index, ..s }
}

/// The state with the type of a variable recorded.
pub open spec fn with_variable(s: Lowering, name: Seq<char>, t: SpecType) -> Lowering {
    Lowering {
        function: SpecFunction {
            local_variables: s.function.local_variables.insert(name, t),
            ..s.function
        },
        ..s
    }
}

/// An operation whose value goes to the next temporary: the state after
/// it, and the temporary as an operand.
pub open spec fn emit_to_temporary(
    s: Lowering,
    make: spec_fn(Seq<char>) -> SpecInstruction,
) -> Result<(Lowering, SpecOperand), SpecIRError> {
    let dest = temporary(s);
    match emit(s, make(dest)) {
        Ok(next) => Ok((next, SpecOperand::Variable(dest))),
        Err(error) => Err(error),
    }
}

/// The instructions for an expression, and the operand that holds its
/// value. Operands are lowered from left to right.
pub open spec fn lower_expression(s: Lowering, e: SpecExpr) -> Result<
    (Lowering, SpecOperand),
    SpecIRError,
>
    decreases e, 0int,
{
    match e {
        SpecExpr::Identifier(name) => Ok((s, SpecOperand::Variable(name))),
        SpecExpr::IntegerLiteral(value) => Ok(
            (s, SpecOperand::Constant(Constant::Integer(value))),
        ),
        SpecExpr::StringLiteral(value) => Ok((s, SpecOperand::Variable("\""@ + value + "\""@))),
        SpecExpr::BinaryOp { left, operator, right } => match lower_expression(s, *left) {
            Err(error) => Err(error),
            Ok((s1, a)) => match lower_expression(s1, *right) {
                Err(error) => Err(error),
                Ok((s2, b)) => emit_to_temporary(
                    s2,
                    |dest: Seq<char>|
                        SpecInstruction::BinaryOp {
                            dest,
                            op: lowered_operator(operator),
                            left: a,
                            right: b,
                        },
                ),
            },
        },
        SpecExpr::UnaryOp { operator, operand } => match lower_expression(s, *operand) {
            Err(error) => Err(error),
            Ok((s1, a)) => lower_unary(s1, operator, a),
        },
        SpecExpr::FunctionCall { name, arguments } => match lower_arguments(s, arguments, 0) {
            Err(error) => Err(error),
            Ok((s1, args)) => emit_to_temporary(
                s1,
                |dest: Seq<char>| SpecInstruction::Call { dest: Some(dest), function: name, args },
            ),
        },
    }
}

/// The instructions for a prefix operation on a lowered operand. Negation
/// subtracts from 0; logical not compares with `false`; dereference loads;
/// address-of stores the value in a new variable and gives that variable.
pub open spec fn lower_unary(
    s: Lowering,
    operator: crate::ast::node::UnaryOperator,
    a: SpecOperand,
) -> Result<(Lowering, SpecOperand), SpecIRError> {
    match operator {
        crate::ast::node::UnaryOperator::Neg => emit_to_temporary(
            s,
            |dest: Seq<char>|
                SpecInstruction::BinaryOp {
                    dest,
                    op: BinaryOperator::Sub,
                    left: SpecOperand::Constant(Constant::Integer(0)),
                    right: a,
                },
        ),
        crate::ast::node::UnaryOperator::Not => emit_to_temporary(
            s,
            |dest: Seq<char>|
                SpecInstruction::BinaryOp {
                    dest,
                    op: BinaryOperator::Eq,
                    left: a,
                    right: SpecOperand::Constant(Constant::Boolean(false)),
                },
        ),
        crate::ast::node::UnaryOperator::Deref => emit_to_temporary(
            s,
            |dest: Seq<char>| SpecInstruction::Load { dest, source: a },
        ),
        crate::ast::node::UnaryOperator::AddrOf => {
            let dest = temporary(s);
            match emit(s, SpecInstruction::Alloca { dest, element_type: SpecType::Auto }) {
                Err(error) => Err(error),
                Ok(s1) => match emit(
                    with_variable(s1, dest, SpecType::Auto),
                    SpecInstruction::Store { dest: SpecOperand::Variable(dest), source: a },
                ) {
                    Err(error) => Err(error),
                    Ok(s2) => Ok((s2, SpecOperand::Variable(dest))),
                },
            }
        },
    }
}

/// The instructions for the arguments from index `from` on, and their
/// operands.
pub open spec fn lower_arguments(s: Lowering, arguments: Seq<SpecExpr>, from: int) -> Result<
    (Lowering, Seq<SpecOperand>),
    SpecIRError,
>
    decreases arguments, arguments.len() - from,
{
    if from < 0 || from >= arguments.len() {
        Ok((s, Seq::empty()))
    } else {
        match lower_expression(s, arguments[from]) {
            Err(error) => Err(error),
            Ok((s1, a)) => match lower_arguments(s1, arguments, from + 1) {
                Err(error) => Err(error),
                Ok((s2, rest)) => Ok((s2, seq![a] + rest)),
            },
        }
    }
}

/// The state with a jump to `target` at the end of the current block,
/// unless the block has its terminator.
pub open spec fn close_with_jump(s: Lowering, target: Seq<char>) -> Lowering {
    match emit(s, SpecInstruction::Jump { target }) {
        Ok(next) => next,
        Err(_) => s,
    }
}

/// The instructions for a statement.
///
/// `if` adds a block for each branch and one at which they meet, and
/// branches on the condition; a branch that does not end by itself jumps
/// to the meeting block, where lowering goes on. `while` adds a block for
/// the condition, one for the body and one for the exit.
pub open spec fn lower_statement(s: Lowering, st: SpecStatement) -> Result<Lowering, SpecIRError>
    decreases st, 0int,
{
    match st {
        SpecStatement::Return(None) => emit(s, SpecInstruction::Return { value: None }),
        SpecStatement::Return(Some(e)) => match lower_expression(s, e) {
            Err(error) => Err(error),
            Ok((s1, a)) => emit(s1, SpecInstruction::Return { value: Some(a) }),
        },
        SpecStatement::Expression(e) => match lower_expression(s, e) {
            Err(error) => Err(error),
            Ok((s1, _)) => Ok(s1),
        },
        SpecStatement::Block(list) => lower_statements(s, list, 0),
        SpecStatement::If { condition, then_branch, else_branch } => match lower_expression(
            s,
            condition,
        ) {
            Err(error) => Err(error),
            Ok((s1, a)) => {
                let then_index = s1.function.blocks.len() as int;
                let then_name = block_name(s1, "then"@);
                let s2 = with_block(s1, "then"@);
                match else_branch {
                    Some(other) => {
                        let else_index = s2.function.blocks.len() as int;
                        let else_name = block_name(s2, "else"@);
                        let s3 = with_block(s2, "else"@);
                        let merge_index = s3.function.blocks.len() as int;
                        let merge_name = block_name(s3, "merge"@);
                        let s4 = with_block(s3, "merge"@);
                        match emit(
                            s4,
                            SpecInstruction::Branch {
                                condition: a,
                                true_target: then_name,
                                false_target: else_name,
                            },
                        ) {
                            Err(error) => Err(error),
                            Ok(s5) => match lower_statements(
                                at_block(s5, then_index),
                                then_branch,
                                0,
                            ) {
                                Err(error) => Err(error),
                                Ok(s6) => match lower_statements(
                                    at_block(close_with_jump(s6, merge_name), else_index),
                                    other,
                                    0,
                                ) {
                                    Err(error) => Err(error),
                                    Ok(s7) => Ok(
                                        at_block(close_with_jump(s7, merge_name), merge_index),
                                    ),
                                },
                            },
                        }
                    },
                    None => {
                        let merge_index = s2.function.blocks.len() as int;
                        let merge_name = block_name(s2, "merge"@);
                        let s3 = with_block(s2, "merge"@);
                        match emit(
                            s3,
                            SpecInstruction::Branch {
                                condition: a,
                                true_target: then_name,
                                false_target: merge_name,
                            },
                        ) {
                            Err(error) => Err(error),
                            Ok(s4) => match lower_statements(
                                at_block(s4, then_index),
                                then_branch,
                                0,
                            ) {
                                Err(error) => Err(error),
                                Ok(s5) => Ok(
                                    at_block(close_with_jump(s5, merge_name), merge_index),
                                ),
                            },
                        }
                    },
                }
            },
        },
        SpecStatement::While { condition, body } => {
            let loop_index = s.function.blocks.len() as int;
            let loop_name = block_name(s, "loop"@);
            let s1 = with_block(s, "loop"@);
            let body_index = s1.function.blocks.len() as int;
            let body_name = block_name(s1, "body"@);
            let s2 = with_block(s1, "body"@);
            let exit_index = s2.function.blocks.len() as int;
            let exit_name = block_name(s2, "exit"@);
            let s3 = with_block(s2, "exit"@);
            match emit(s3, SpecInstruction::Jump { target: loop_name }) {
                Err(error) => Err(error),
                Ok(s4) => match lower_expression(at_block(s4, loop_index), condition) {
                    Err(error) => Err(error),
                    Ok((s5, a)) => match emit(
                        s5,
                        SpecInstruction::Branch {
                            condition: a,
                            true_target: body_name,
                            false_target: exit_name,
                        },
                    ) {
                        Err(error) => Err(error),
                        Ok(s6) => match lower_statements(at_block(s6, body_index), body, 0) {
                            Err(error) => Err(error),
                            Ok(s7) => Ok(at_block(close_with_jump(s7, loop_name), exit_index)),
                        },
                    },
                },
            }
        },
    }
}

/// The instructions for the statements from index `from` on.
pub open spec fn lower_statements(s: Lowering, list: Seq<SpecStatement>, from: int) -> Result<
    Lowering,
    SpecIRError,
>
    decreases list, list.len() - from,
{
    if from < 0 || from >= list.len() {
        Ok(s)
    } else {
        match lower_statement(s, list[from]) {
            Err(error) => Err(error),
            Ok(next) => lower_statements(next, list, from + 1),
        }
    }
}

/// The type of the representation for a type of the tree: see
/// [`lowered_type`].
pub fn lower_type(t: &crate::ast::node::Type) -> (r: Type)
    ensures
        r@ == lowered_type(t@),
    decreases t,
{
    match t {
        crate::ast::node::Type::Int => Type::Int,
        crate::ast::node::Type::Char => Type::Char,
        crate::ast::node::Type::Float => Type::Float,
        crate::ast::node::Type::Double => Type::Double,
        crate::ast::node::Type::Bool => Type::Bool,
        crate::ast::node::Type::Void => Type::Void,
        crate::ast::node::Type::Auto => Type::Auto,
        crate::ast::node::Type::Pointer(inner) => Type::Pointer(Box::new(lower_type(inner))),
        crate::ast::node::Type::Array(inner, count) => Type::Array(
            Box::new(lower_type(inner)),
            *count,
        ),
        crate::ast::node::Type::Custom(name) => {
            let fields: Vec<(String, Type)> = Vec::new();
            proof {
                assert(crate::types::type_::fields_model(fields@) =~= Seq::empty());
            }
            Type::Struct { name: name.clone(), fields }
        },
    }
}

/// The operator of the representation for a binary operator of the tree:
/// see [`lowered_operator`].
pub fn lower_operator(op: crate::ast::node::BinaryOperator) -> (r: BinaryOperator)
    ensures
        r == lowered_operator(op),
{
    match op {
        crate::ast::node::BinaryOperator::Add => BinaryOperator::Add,
        crate::ast::node::BinaryOperator::Sub => BinaryOperator::Sub,
        crate::ast::node::BinaryOperator::Mul => BinaryOperator::Mul,
        crate::ast::node::BinaryOperator::Div => BinaryOperator::Div,
        crate::ast::node::BinaryOperator::Mod => BinaryOperator::Mod,
        crate::ast::node::BinaryOperator::Eq => BinaryOperator::Eq,
        crate::ast::node::BinaryOperator::Ne => BinaryOperator::Ne,
        crate::ast::node::BinaryOperator::Lt => BinaryOperator::Lt,
        crate::ast::node::BinaryOperator::Le => BinaryOperator::Le,
        crate::ast::node::BinaryOperator::Gt => BinaryOperator::Gt,
        crate::ast::node::BinaryOperator::Ge => BinaryOperator::Ge,
        crate::ast::node::BinaryOperator::And => BinaryOperator::And,
        crate::ast::node::BinaryOperator::Or => BinaryOperator::Or,
    }
}

/// Builds one function: it holds the function and the index of the block
/// that the next instruction goes to.
struct FunctionBuilder {
    function: Function,
    current: usize,
}

impl View for FunctionBuilder {
    type V = Lowering;

    closed spec fn view(&self) -> Lowering {
        Lowering { function: self.function@, current: self.current as int }
    }
}

/// The empty block at which a function is entered.
pub open spec fn entry_block() -> SpecBlock {
    SpecBlock { name: "entry"@, instructions: Seq::empty(), terminator: None }
}

impl FunctionBuilder {
    /// A builder that goes on with `function` at its first block. A
    /// function without blocks gets the empty block `entry` first.
    fn new(function: Function) -> (r: Self)
        ensures
            lowering_wf(r@),
            r@.current == 0,
            r@.function == if function@.blocks.len() == 0 {
                SpecFunction { blocks: seq![entry_block()], ..function@ }
            } else {
                function@
            },
    {
        let mut function = function;
        if function.is_empty() {
            function.add_basic_block(BasicBlock::new(String::from_str("entry")));
            proof {
                assert(function@.blocks =~= seq![entry_block()]);
            }
        }
        FunctionBuilder { function, current: 0 }
    }

    /// The function as far as it is built.
    fn finish(self) -> (r: Function)
        ensures
            r@ == self@.function,
    {
        self.function
    }

    /// Adds an instruction to the current block: see [`emit`].
    fn emit(&mut self, instr: Instruction) -> (r: Result<(), IRError>)
        requires
            lowering_wf(old(self)@),
        ensures
            match emit(old(self)@, instr@) {
                Ok(s) => r is Ok && final(self)@ == s && lowering_wf(s),
                Err(error) => r matches Err(e) && e@ == error && final(self)@ == old(self)@,
            },
            final(self)@.function.blocks.len() == old(self)@.function.blocks.len(),
            final(self)@.current == old(self)@.current,
    {
        let ghost before = self@;
        let index = self.current;
        let r = self.function.basic_blocks[index].add_instruction(instr);
        proof {
            match block_add(current_block(before), instr@) {
                Ok(b) => {
                    assert(self@.function.blocks =~= before.function.blocks.update(
                        before.current,
                        b,
                    ));
                },
                Err(_) => {
                    assert(self@.function.blocks =~= before.function.blocks);
                },
            }
        }
        r
    }

    /// The name of the next temporary: see [`temporary`].
    fn temporary(&self) -> (r: String)
        requires
            lowering_wf(self@),
        ensures
            r@ == temporary(self@),
    {
        let block = &self.function.basic_blocks[self.current];
        let mut name = block.name.clone();
        name.append(".t");
        let n = size_string(block.instructions.len());
        name.append(n.as_str());
        name
    }

    /// Adds an instruction whose value goes to the temporary `dest`, which
    /// must be the next one.
    fn emit_to(&mut self, dest: String, instr: Instruction) -> (r: Result<Operand, IRError>)
        requires
            lowering_wf(old(self)@),
            dest@ == temporary(old(self)@),
        ensures
            match emit(old(self)@, instr@) {
                Ok(s) => r matches Ok(o) && o@ == SpecOperand::Variable(dest@) && final(self)@ == s
                    && lowering_wf(s),
                Err(error) => r matches Err(e) && e@ == error,
            },
            final(self)@.function.blocks.len() == old(self)@.function.blocks.len(),
    {
        match self.emit(instr) {
            Ok(_) => Ok(Operand::Variable(dest)),
            Err(error) => Err(error),
        }
    }

    /// Adds an empty block named after `part`, and gives its index and its
    /// name: see [`with_block`].
    fn add_block(&mut self, part: &str) -> (r: (usize, String))
        requires
            lowering_wf(old(self)@),
        ensures
            final(self)@ == with_block(old(self)@, part@),
            lowering_wf(final(self)@),
            r.0 == old(self)@.function.blocks.len(),
            r.1@ == block_name(old(self)@, part@),
    {
        let index = self.function.basic_blocks.len();
        let mut name = String::from_str(part);
        let n = size_string(index);
        name.append(n.as_str());
        let block = BasicBlock::new(name.clone());
        self.function.add_basic_block(block);
        (index, name)
    }

    /// Makes the block at `index` the current one.
    fn go_to(&mut self, index: usize)
        requires
            index < old(self)@.function.blocks.len(),
        ensures
            final(self)@ == at_block(old(self)@, index as int),
            lowering_wf(final(self)@),
    {
        self.current = index;
    }

    /// Ends the current block with a jump to `target`, unless it has its
    /// terminator: see [`close_with_jump`].
    fn close(&mut self, target: &String)
        requires
            lowering_wf(old(self)@),
        ensures
            final(self)@ == close_with_jump(old(self)@, target@),
            lowering_wf(final(self)@),
            final(self)@.function.blocks.len() == old(self)@.function.blocks.len(),
    {
        let _ = self.emit(Instruction::Jump { target: target.clone() });
    }

    /// The instructions for a prefix operation: see [`lower_unary`].
    fn lower_unary(&mut self, operator: crate::ast::node::UnaryOperator, a: Operand) -> (r: Result<
        Operand,
        IRError,
    >)
        requires
            lowering_wf(old(self)@),
        ensures
            match lower_unary(old(self)@, operator, a@) {
                Ok((s, o)) => r matches Ok(x) && x@ == o && final(self)@ == s && lowering_wf(s),
                Err(error) => r matches Err(e) && e@ == error,
            },
            final(self)@.function.blocks.len() == old(self)@.function.blocks.len(),
    {
        let dest = self.temporary();
        match operator {
            crate::ast::node::UnaryOperator::Neg => {
                let instr = Instruction::BinaryOp {
                    dest: dest.clone(),
                    op: BinaryOperator::Sub,
                    left: Operand::Constant(Constant::Integer(0)),
                    right: a,
                };
                self.emit_to(dest, instr)
            },
            crate::ast::node::UnaryOperator::Not => {
                let instr = Instruction::BinaryOp {
                    dest: dest.clone(),
                    op: BinaryOperator::Eq,
                    left: a,
                    right: Operand::Constant(Constant::Boolean(false)),
                };
                self.emit_to(dest, instr)
            },
            crate::ast::node::UnaryOperator::Deref => {
                let instr = Instruction::Load { dest: dest.clone(), source: a };
                self.emit_to(dest, instr)
            },
            crate::ast::node::UnaryOperator::AddrOf => {
                match self.emit(Instruction::Alloca { dest: dest.clone(), element_type: Type::Auto }) {
                    Ok(_) => {},
                    Err(error) => {
                        return Err(error);
                    },
                }
                self.function.add_local_variable(dest.clone(), Type::Auto);
                match self.emit(
                    Instruction::Store { dest: Operand::Variable(dest.clone()), source: a },
                ) {
                    Ok(_) => Ok(Operand::Variable(dest)),
                    Err(error) => Err(error),
                }
            },
        }
    }

    /// The instructions for an expression: see [`lower_expression`].
    #[verifier::loop_isolation(false)]
    fn lower_expression(&mut self, e: &Expr) -> (r: Result<Operand, IRError>)
        requires
            lowering_wf(old(self)@),
        ensures
            match lower_expression(old(self)@, e@) {
                Ok((s, o)) => r matches Ok(x) && x@ == o && final(self)@ == s && lowering_wf(s),
                Err(error) => r matches Err(x) && x@ == error,
            },
            final(self)@.function.blocks.len() == old(self)@.function.blocks.len(),
        decreases e,
    {
        match e {
            Expr::Identifier(name) => Ok(Operand::Variable(name.clone())),
            Expr::IntegerLiteral(value) => Ok(Operand::Constant(Constant::Integer(*value))),
            Expr::StringLiteral(value) => {
                let mut name = String::from_str("\"");
                name.append(value.as_str());
                name.append("\"");
                Ok(Operand::Variable(name))
            },
            Expr::BinaryOp { left, operator, right } => {
                let a = match self.lower_expression(left) {
                    Ok(o) => o,
                    Err(error) => {
                        return Err(error);
                    },
                };
                let b = match self.lower_expression(right) {
                    Ok(o) => o,
                    Err(error) => {
                        return Err(error);
                    },
                };
                let dest = self.temporary();
                let instr = Instruction::BinaryOp {
                    dest: dest.clone(),
                    op: lower_operator(*operator),
                    left: a,
                    right: b,
                };
                self.emit_to(dest, instr)
            },
            Expr::UnaryOp { operator, operand } => {
                let a = match self.lower_expression(operand) {
                    Ok(o) => o,
                    Err(error) => {
                        return Err(error);
                    },
                };
                self.lower_unary(*operator, a)
            },
            Expr::FunctionCall { name, arguments } => {
                let ghost start = self@;
                let ghost models = e@->arguments;
                let mut args: Vec<Operand> = Vec::new();
                let mut i: usize = 0;
                proof {
                    assert(args@.map_values(|o: Operand| o@) =~= Seq::<SpecOperand>::empty());
                    match lower_arguments(start, models, 0) {
                        Ok((s, rest)) => {
                            assert(Seq::<SpecOperand>::empty() + rest =~= rest);
                        },
                        Err(_) => {},
                    }
                }
                while i < arguments.len()
                    invariant
                        i <= arguments.len(),
                        lowering_wf(self@),
                        self@.function.blocks.len() == start.function.blocks.len(),
                        match lower_arguments(self@, models, i as int) {
                            Ok((s, rest)) => lower_arguments(start, models, 0) == Ok::<
                                (Lowering, Seq<SpecOperand>),
                                SpecIRError,
                            >((s, args@.map_values(|o: Operand| o@) + rest)),
                            Err(error) => lower_arguments(start, models, 0) == Err::<
                                (Lowering, Seq<SpecOperand>),
                                SpecIRError,
                            >(error),
                        },
                    decreases arguments.len() - i,
                {
                    let ghost before = args@.map_values(|o: Operand| o@);
                    assert(models[i as int] == arguments@[i as int]@);
                    let a = match self.lower_expression(&arguments[i]) {
                        Ok(o) => o,
                        Err(error) => {
                            return Err(error);
                        },
                    };
                    let ghost model = a@;
                    args.push(a);
                    proof {
                        assert(args@.map_values(|o: Operand| o@) =~= before.push(model));
                        match lower_arguments(self@, models, i + 1) {
                            Ok((s, rest)) => {
                                assert(before.push(model) + rest =~= before + (seq![model] + rest));
                            },
                            Err(_) => {},
                        }
                    }
                    i += 1;
                }
                proof {
                    assert(args@.map_values(|o: Operand| o@) + Seq::<SpecOperand>::empty()
                        =~= args@.map_values(|o: Operand| o@));
                }
                let dest = self.temporary();
                let instr = Instruction::Call {
                    dest: Some(dest.clone()),
                    function: name.clone(),
                    args,
                };
                self.emit_to(dest, instr)
            },
        }
    }

    /// The instructions for a list of statements: see [`lower_statements`].
    fn lower_statements(&mut self, list: &Vec<Statement>) -> (r: Result<(), IRError>)
        requires
            lowering_wf(old(self)@),
        ensures
            match lower_statements(old(self)@, statements_model(list@), 0) {
                Ok(s) => r is Ok && final(self)@ == s && lowering_wf(s),
                Err(error) => r matches Err(x) && x@ == error,
            },
            final(self)@.function.blocks.len() >= old(self)@.function.blocks.len(),
        decreases list, 0int,
    {
        let ghost start = self@;
        let ghost models = statements_model(list@);
        let mut i: usize = 0;
        while i < list.len()
            invariant
                i <= list.len(),
                lowering_wf(self@),
                start == old(self)@,
                self@.function.blocks.len() >= start.function.blocks.len(),
                models == statements_model(list@),
                lower_statements(self@, models, i as int) == lower_statements(start, models, 0),
            decreases list.len() - i,
        {
            assert(models[i as int] == list@[i as int]@);
            match self.lower_statement(&list[i]) {
                Ok(_) => {},
                Err(error) => {
                    return Err(error);
                },
            }
            i += 1;
        }
        Ok(())
    }

    /// The instructions for a statement: see [`lower_statement`].
    fn lower_statement(&mut self, st: &Statement) -> (r: Result<(), IRError>)
        requires
            lowering_wf(old(self)@),
        ensures
            match lower_statement(old(self)@, st@) {
                Ok(s) => r is Ok && final(self)@ == s && lowering_wf(s),
                Err(error) => r matches Err(x) && x@ == error,
            },
            final(self)@.function.blocks.len() >= old(self)@.function.blocks.len(),
        decreases st, 1int,
    {
        match st {
            Statement::Return(None) => {
                match self.emit(Instruction::Return { value: None }) {
                    Ok(_) => Ok(()),
                    Err(error) => Err(error),
                }
            },
            Statement::Return(Some(e)) => {
                let a = match self.lower_expression(e) {
                    Ok(o) => o,
                    Err(error) => {
                        return Err(error);
                    },
                };
                match self.emit(Instruction::Return { value: Some(a) }) {
                    Ok(_) => Ok(()),
                    Err(error) => Err(error),
                }
            },
            Statement::Expression(e) => match self.lower_expression(e) {
                Ok(_) => Ok(()),
                Err(error) => Err(error),
            },
            Statement::Block(list) => self.lower_statements(list),
            Statement::If { condition, then_branch, else_branch } => {
                let a = match self.lower_expression(condition) {
                    Ok(o) => o,
                    Err(error) => {
                        return Err(error);
                    },
                };
                let (then_index, then_name) = self.add_block("then");
                match else_branch {
                    Some(other) => {
                        let (else_index, else_name) = self.add_block("else");
                        let (merge_index, merge_name) = self.add_block("merge");
                        match self.emit(
                            Instruction::Branch {
                                condition: a,
                                true_target: then_name,
                                false_target: else_name,
                            },
                        ) {
                            Ok(_) => {},
                            Err(error) => {
                                return Err(error);
                            },
                        }
                        self.go_to(then_index);
                        match self.lower_statements(then_branch) {
                            Ok(_) => {},
                            Err(error) => {
                                return Err(error);
                            },
                        }
                        self.close(&merge_name);
                        self.go_to(else_index);
                        match self.lower_statements(other) {
                            Ok(_) => {},
                            Err(error) => {
                                return Err(error);
                            },
                        }
                        self.close(&merge_name);
                        self.go_to(merge_index);
                        Ok(())
                    },
                    None => {
                        let (merge_index, merge_name) = self.add_block("merge");
                        match self.emit(
                            Instruction::Branch {
                                condition: a,
                                true_target: then_name,
                                false_target: merge_name.clone(),
                            },
                        ) {
                            Ok(_) => {},
                            Err(error) => {
                                return Err(error);
                            },
                        }
                        self.go_to(then_index);
                        match self.lower_statements(then_branch) {
                            Ok(_) => {},
                            Err(error) => {
                                return Err(error);
                            },
                        }
                        self.close(&merge_name);
                        self.go_to(merge_index);
                        Ok(())
                    },
                }
            },
            Statement::While { condition, body } => {
                let (loop_index, loop_name) = self.add_block("loop");
                let (body_index, body_name) = self.add_block("body");
                let (exit_index, exit_name) = self.add_block("exit");
                match self.emit(Instruction::Jump { target: loop_name.clone() }) {
                    Ok(_) => {},
                    Err(error) => {
                        return Err(error);
                    },
                }
                self.go_to(loop_index);
                let a = match self.lower_expression(condition) {
                    Ok(o) => o,
                    Err(error) => {
                        return Err(error);
                    },
                };
                match self.emit(
                    Instruction::Branch {
                        condition: a,
                        true_target: body_name,
                        false_target: exit_name,
                    },
                ) {
                    Ok(_) => {},
                    Err(error) => {
                        return Err(error);
                    },
                }
                self.go_to(body_index);
                match self.lower_statements(body) {
                    Ok(_) => {},
                    Err(error) => {
                        return Err(error);
                    },
                }
                self.close(&loop_name);
                self.go_to(exit_index);
                Ok(())
            },
        }
    }
}

/// The parameter of the representation for a parameter of the tree.
pub open spec fn lowered_parameter(p: crate::ast::node::SpecParameter) -> SpecParameter {
    SpecParameter { name: p.name, param_type: lowered_type(p.param_type) }
}

/// The types of the first `upto` parameters, by name.
pub open spec fn parameters_table(
    parameters: Seq<crate::ast::node::SpecParameter>,
    upto: int,
) -> Map<Seq<char>, SpecType>
    decreases upto,
{
    if upto <= 0 || upto > parameters.len() {
        Map::empty()
    } else {
        parameters_table(parameters, upto - 1).insert(
            parameters[upto - 1].name,
            lowered_type(parameters[upto - 1].param_type),
        )
    }
}

/// A function before its body is lowered: its parameters, their types
/// recorded as those of variables, and the empty block `entry`.
pub open spec fn function_start(
    name: Seq<char>,
    parameters: Seq<crate::ast::node::SpecParameter>,
    return_type: crate::ast::node::SpecType,
) -> Lowering {
    Lowering {
        function: SpecFunction {
            name,
            return_type: lowered_type(return_type),
            parameters: parameters.map_values(
                |p: crate::ast::node::SpecParameter| lowered_parameter(p),
            ),
            blocks: seq![entry_block()],
            entry_block: "entry"@,
            local_variables: parameters_table(parameters, parameters.len() as int),
        },
        current: 0,
    }
}

/// The function of the representation for a function of the tree, or the
/// first error: an instruction for a block that has its terminator, or,
/// when the body is lowered, a block that control can reach and that has
/// no terminator.
pub open spec fn lowered_function(
    name: Seq<char>,
    parameters: Seq<crate::ast::node::SpecParameter>,
    return_type: crate::ast::node::SpecType,
    body: Seq<SpecStatement>,
) -> Result<SpecFunction, SpecIRError> {
    match lower_statements(function_start(name, parameters, return_type), body, 0) {
        Err(error) => Err(error),
        Ok(s) => match graph_error(function_graph(s.function)) {
            Some(error) => Err(error),
            None => Ok(s.function),
        },
    }
}

/// A function that only returns an integer has one block, `entry`, which is
/// its entry block and whose only instruction is the return of the
/// constant.
pub proof fn lemma_return_of_constant(
    name: Seq<char>,
    return_type: crate::ast::node::SpecType,
    value: i64,
)
    ensures
        lowered_function(
            name,
            Seq::empty(),
            return_type,
            seq![SpecStatement::Return(Some(SpecExpr::IntegerLiteral(value)))],
        ) == Ok::<SpecFunction, SpecIRError>(
            SpecFunction {
                name,
                return_type: lowered_type(return_type),
                parameters: Seq::empty(),
                blocks: seq![
                    SpecBlock {
                        name: "entry"@,
                        instructions: Seq::empty(),
                        terminator: Some(
                            SpecInstruction::Return {
                                value: Some(SpecOperand::Constant(Constant::Integer(value))),
                            },
                        ),
                    },
                ],
                entry_block: "entry"@,
                local_variables: Map::empty(),
            },
        ),
{
    let body = seq![SpecStatement::Return(Some(SpecExpr::IntegerLiteral(value)))];
    let start = function_start(name, Seq::empty(), return_type);
    let returning = SpecInstruction::Return {
        value: Some(SpecOperand::Constant(Constant::Integer(value))),
    };
    let block = SpecBlock {
        name: "entry"@,
        instructions: Seq::empty(),
        terminator: Some(returning),
    };
    let done = Lowering {
        function: SpecFunction { blocks: seq![block], ..start.function },
        current: 0,
    };
    assert(start.function.parameters =~= Seq::<SpecParameter>::empty());
    assert(emit(start, returning) == Ok::<Lowering, SpecIRError>(done)) by {
        assert(start.function.blocks.update(0, block) =~= seq![block]);
    }
    assert(lower_statement(start, body[0]) == Ok::<Lowering, SpecIRError>(done));
    assert(lower_statements(done, body, 1) == Ok::<Lowering, SpecIRError>(done));
    assert(lower_statements(start, body, 0) == Ok::<Lowering, SpecIRError>(done));
    let g = function_graph(done.function);
    assert(crate::ir::basic_block::block_index(g.blocks, g.entry_block, 0) == Some(0int));
    assert(crate::ir::basic_block::open_block(
        g.blocks,
        crate::ir::basic_block::reachable(g),
        1,
    ) is None);
    assert(crate::ir::basic_block::open_block(
        g.blocks,
        crate::ir::basic_block::reachable(g),
        0,
    ) is None);
}

/// The module with what a node of a program adds to it: a function for a
/// function declaration, the type of a global variable for a variable
/// declaration, and nothing for any other node.
pub open spec fn lowered_item(m: SpecModule, n: SpecNode) -> Result<SpecModule, SpecIRError> {
    match n {
        SpecNode::FunctionDeclaration { name, parameters, return_type, body } => {
            match lowered_function(name, parameters, return_type, body) {
                Err(error) => Err(error),
                Ok(f) => Ok(SpecModule { functions: m.functions.push(f), ..m }),
            }
        },
        SpecNode::VariableDeclaration { name, data_type, initializer } => Ok(
            SpecModule {
                global_variables: m.global_variables.insert(name, lowered_type(data_type)),
                ..m
            },
        ),
        _ => Ok(m),
    }
}

/// The module with what the nodes from index `from` on add to it.
pub open spec fn lowered_items(m: SpecModule, nodes: Seq<SpecNode>, from: int) -> Result<
    SpecModule,
    SpecIRError,
>
    decreases nodes.len() - from,
{
    if from < 0 || from >= nodes.len() {
        Ok(m)
    } else {
        match lowered_item(m, nodes[from]) {
            Err(error) => Err(error),
            Ok(next) => lowered_items(next, nodes, from + 1),
        }
    }
}

/// The module called `name` for a tree: for the nodes of a program in
/// their order, or for a node that stands alone.
pub open spec fn lowered_module(name: Seq<char>, root: SpecNode) -> Result<SpecModule, SpecIRError> {
    let empty = SpecModule { name, functions: Seq::empty(), global_variables: Map::empty() };
    match root {
        SpecNode::Program(nodes) => lowered_items(empty, nodes, 0),
        other => lowered_item(empty, other),
    }
}

/// The function of the representation for a function of the tree: see
/// [`lowered_function`].
pub fn lower_function(
    name: &String,
    parameters: &Vec<crate::ast::node::Parameter>,
    return_type: &crate::ast::node::Type,
    body: &Vec<Statement>,
) -> (r: Result<Function, IRError>)
    ensures
        match lowered_function(
            name@,
            parameters@.map_values(|p: crate::ast::node::Parameter| p@),
            return_type@,
            statements_model(body@),
        ) {
            Ok(f) => r matches Ok(x) && x@ == f,
            Err(error) => r matches Err(x) && x@ == error,
        },
{
    let ghost models = parameters@.map_values(|p: crate::ast::node::Parameter| p@);
    let ghost wanted = models.map_values(|p: crate::ast::node::SpecParameter| lowered_parameter(p));
    let mut function = Function::new(name.clone(), lower_type(return_type));
    let mut i: usize = 0;
    proof {
        assert(wanted.take(0) =~= Seq::<SpecParameter>::empty());
    }
    while i < parameters.len()
        invariant
            i <= parameters.len(),
            models == parameters@.map_values(|p: crate::ast::node::Parameter| p@),
            wanted == models.map_values(
                |p: crate::ast::node::SpecParameter| lowered_parameter(p),
            ),
            function@ == (SpecFunction {
                name: name@,
                return_type: lowered_type(return_type@),
                parameters: wanted.take(i as int),
                blocks: Seq::empty(),
                entry_block: "entry"@,
                local_variables: parameters_table(models, i as int),
            }),
        decreases parameters.len() - i,
    {
        let parameter = Parameter {
            name: parameters[i].name.clone(),
            param_type: lower_type(&parameters[i].param_type),
        };
        proof {
            assert(models[i as int] == parameters@[i as int]@);
            assert(wanted.take(i + 1) =~= wanted.take(i as int).push(wanted[i as int]));
        }
        function = function.add_parameter(parameter);
        function.add_local_variable(
            parameters[i].name.clone(),
            lower_type(&parameters[i].param_type),
        );
        i += 1;
    }
    proof {
        assert(wanted.take(parameters.len() as int) =~= wanted);
    }
    let mut builder = FunctionBuilder::new(function);
    match builder.lower_statements(body) {
        Ok(_) => {},
        Err(error) => {
            return Err(error);
        },
    }
    let function = builder.finish();
    match function.validate() {
        Ok(_) => Ok(function),
        Err(error) => Err(error),
    }
}

/// Adds to a module what a node of a program adds: see [`lowered_item`].
/// After an error the module is as it was.
pub fn lower_item(module: &mut Module, node: &ASTNode) -> (r: Result<(), IRError>)
    ensures
        match lowered_item(old(module)@, node@) {
            Ok(m) => r is Ok && final(module)@ == m,
            Err(error) => r matches Err(x) && x@ == error && final(module)@ == old(module)@,
        },
{
    match node {
        ASTNode::FunctionDeclaration { name, parameters, return_type, body } => {
            match lower_function(name, parameters, return_type, body) {
                Ok(function) => {
                    module.add_function(function);
                    Ok(())
                },
                Err(error) => Err(error),
            }
        },
        ASTNode::VariableDeclaration { name, data_type, initializer } => {
            module.add_global_variable(name.clone(), lower_type(data_type));
            Ok(())
        },
        _ => Ok(()),
    }
}

/// The module called `name` for a tree: see [`lowered_module`].
pub fn build_module(name: &str, root: &ASTNode) -> (r: Result<Module, IRError>)
    ensures
        match lowered_module(name@, root@) {
            Ok(m) => r matches Ok(x) && x@ == m,
            Err(error) => r matches Err(x) && x@ == error,
        },
{
    let mut module = Module::new(String::from_str(name));
    match root {
        ASTNode::Program(nodes) => {
            let ghost start = module@;
            let ghost models = root@->Program_0;
            let mut i: usize = 0;
            while i < nodes.len()
                invariant
                    i <= nodes.len(),
                    models == root@->Program_0,
                    *root == ASTNode::Program(*nodes),
                    start == (SpecModule {
                        name: name@,
                        functions: Seq::empty(),
                        global_variables: Map::empty(),
                    }),
                    lowered_items(module@, models, i as int) == lowered_items(start, models, 0),
                decreases nodes.len() - i,
            {
                assert(models[i as int] == nodes@[i as int]@);
                match lower_item(&mut module, &nodes[i]) {
                    Ok(_) => {},
                    Err(error) => {
                        return Err(error);
                    },
                }
                i += 1;
            }
            Ok(module)
        },
        other => match lower_item(&mut module, other) {
            Ok(_) => Ok(module),
            Err(error) => Err(error),
        },
    }
}

} // verus!
