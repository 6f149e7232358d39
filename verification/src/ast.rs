//! The syntax tree: node types, a visitor over them and two serializers.

pub mod node;
pub mod serializer;
pub mod visitor;

pub use node::{
    ASTNode, BinaryOperator, Expr, Parameter, SpecExpr, SpecNode, SpecParameter, SpecStatement,
    SpecType, Statement, Type, UnaryOperator,
};
pub use serializer::{ASTSerializer, JSONSerializer, TextSerializer};
pub use visitor::{ASTVisitor, PrintVisitor};
