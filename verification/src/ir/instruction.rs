//! Instructions and their operands.

use crate::types::type_::{SpecType, Type};
use vstd::prelude::*;

verus! {

/// A constant. A floating-point constant is held as the 64 bits of its
/// IEEE 754 binary64 form.
#[derive(Debug, Clone, Copy, PartialEq, Eq, Structural)]
pub enum Constant {
    Integer(i64),
    Float(u64),
    Boolean(bool),
    Null,
}

/// An operand: a variable by its name, or a constant.
#[derive(Debug, Clone, PartialEq)]
pub enum Operand {
    Variable(String),
    Constant(Constant),
}

/// Model of [`Operand`].
pub enum SpecOperand {
    Variable(Seq<char>),
    Constant(Constant),
}

impl View for Operand {
    type V = SpecOperand;

    open spec fn view(&self) -> SpecOperand {
        match self {
            Operand::Variable(name) => SpecOperand::Variable(name@),
            Operand::Constant(c) => SpecOperand::Constant(*c),
        }
    }
}

/// The view of an operand that may be absent.
pub open spec fn optional_operand(o: Option<Operand>) -> Option<SpecOperand> {
    match o {
        Some(x) => Some(x@),
        None => None,
    }
}

/// The view of a name that may be absent.
pub open spec fn optional_name(o: Option<String>) -> Option<Seq<char>> {
    match o {
        Some(x) => Some(x@),
        None => None,
    }
}

/// A binary operator of the representation.
#[derive(Debug, Clone, Copy, PartialEq, Eq, Structural)]
pub enum BinaryOperator {
    Add,
    Sub,
    Mul,
    Div,
    Mod,
    Eq,
    Ne,
    Lt,
    Le,
    Gt,
    Ge,
    And,
    Or,
    Xor,
    Shl,
    Shr,
}

/// An instruction. `Jump`, `Branch` and `Return` end a block.
#[allow(inconsistent_fields)]
#[derive(Debug, Clone, PartialEq)]
pub enum Instruction {
    Const { dest: String, value: Constant },
    BinaryOp { dest: String, op: BinaryOperator, left: Operand, right: Operand },
    Jump { target: String },
    Branch { condition: Operand, true_target: String, false_target: String },
    Return { value: Option<Operand> },
    Call { dest: Option<String>, function: String, args: Vec<Operand> },
    Load { dest: String, source: Operand },
    Store { dest: Operand, source: Operand },
    Alloca { dest: String, element_type: Type },
}

/// Model of [`Instruction`].
#[allow(inconsistent_fields)]
pub enum SpecInstruction {
    Const { dest: Seq<char>, value: Constant },
    BinaryOp { dest: Seq<char>, op: BinaryOperator, left: SpecOperand, right: SpecOperand },
    Jump { target: Seq<char> },
    Branch { condition: SpecOperand, true_target: Seq<char>, false_target: Seq<char> },
    Return { value: Option<SpecOperand> },
    Call { dest: Option<Seq<char>>, function: Seq<char>, args: Seq<SpecOperand> },
    Load { dest: Seq<char>, source: SpecOperand },
    Store { dest: SpecOperand, source: SpecOperand },
    Alloca { dest: Seq<char>, element_type: SpecType },
}

impl View for Instruction {
    type V = SpecInstruction;

    open spec fn view(&self) -> SpecInstruction {
        match self {
            Instruction::Const { dest, value } => SpecInstruction::Const {
                dest: dest@,
                value: *value,
            },
            Instruction::BinaryOp { dest, op, left, right } => SpecInstruction::BinaryOp {
                dest: dest@,
                op: *op,
                left: left@,
                right: right@,
            },
            Instruction::Jump { target } => SpecInstruction::Jump { target: target@ },
            Instruction::Branch { condition, true_target, false_target } => {
                SpecInstruction::Branch {
                    condition: condition@,
                    true_target: true_target@,
                    false_target: false_target@,
                }
            },
            Instruction::Return { value } => SpecInstruction::Return {
                value: optional_operand(*value),
            },
            Instruction::Call { dest, function, args } => SpecInstruction::Call {
                dest: optional_name(*dest),
                function: function@,
                args: args@.map_values(|o: Operand| o@),
            },
            Instruction::Load { dest, source } => SpecInstruction::Load {
                dest: dest@,
                source: source@,
            },
            Instruction::Store { dest, source } => SpecInstruction::Store {
                dest: dest@,
                source: source@,
            },
            Instruction::Alloca { dest, element_type } => SpecInstruction::Alloca {
                dest: dest@,
                element_type: element_type@,
            },
        }
    }
}

/// The instructions that end a block: jumps, branches and returns.
pub open spec fn is_terminator(i: SpecInstruction) -> bool {
    i is Jump || i is Branch || i is Return
}

impl Instruction {
    /// An instruction that gives `dest` the constant `value`.
    pub fn new_const(dest: String, value: Constant) -> (r: Self)
        ensures
            r@ == (SpecInstruction::Const { dest: dest@, value }),
    {
        Instruction::Const { dest, value }
    }

    /// An instruction that gives `dest` the value of `left op right`.
    pub fn new_binary_op(dest: String, op: BinaryOperator, left: Operand, right: Operand) -> (r:
        Self)
        ensures
            r@ == (SpecInstruction::BinaryOp { dest: dest@, op, left: left@, right: right@ }),
    {
        Instruction::BinaryOp { dest, op, left, right }
    }

    /// An instruction that returns from the function, with `value` if there is one.
    pub fn new_return(value: Option<Operand>) -> (r: Self)
        ensures
            r@ == (SpecInstruction::Return { value: optional_operand(value) }),
    {
        Instruction::Return { value }
    }

    /// Whether the instruction ends a block: see [`is_terminator`].
    pub fn is_terminator(&self) -> (r: bool)
        ensures
            r == is_terminator(self@),
    {
        match self {
            Instruction::Jump { .. } | Instruction::Branch { .. } | Instruction::Return { .. } => {
                true
            },
            _ => false,
        }
    }
}

} // verus!
