//! The intermediate representation: instructions in basic blocks, blocks
//! in functions, functions in a module; and the builder that lowers a tree
//! to it.

pub mod basic_block;
pub mod builder;
pub mod error;
pub mod function;
pub mod instruction;

pub use crate::types::type_::Type;
pub use basic_block::{BasicBlock, ControlFlowGraph};
pub use error::IRError;
pub use function::{Function, Module, Parameter};
pub use instruction::{BinaryOperator, Constant, Instruction, Operand};
