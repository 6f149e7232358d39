//! Checks on the tree: a scoped symbol table, name resolution and type checking.

pub mod name_resolution;
pub mod symbol_table;
pub mod type_checker;

pub use symbol_table::{FunctionSignature, Symbol, SymbolError, SymbolTable, SymbolType};
pub use type_checker::TypeError;
pub use name_resolution::{NameResolutionError, NameResolver};
pub use type_checker::TypeChecker;
