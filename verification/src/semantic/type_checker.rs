//! Type checking of the tree.
//!
//! Types are compared by name (see `name_of_type`). Expressions are inferred
//! bottom-up; declarations add symbols to the checker's table. Checking stops
//! at the first error.

use crate::ast::node::{
    binary_operator_name, name_of_type, statements_model, unary_operator_name, ASTNode,
    BinaryOperator, Expr, Parameter, SpecExpr, SpecNode, SpecParameter, SpecStatement, SpecType,
    Statement, Type, UnaryOperator,
};
use crate::model::{same_failure, same_outcome};
use crate::semantic::symbol_table::{
    empty_table, lemma_define_keeps_outer, lemma_enter_exit, table_define, table_enter,
    table_exit, table_lookup, FunctionSignature, SpecSignature, SpecSymbolType, SpecTable,
    SymbolTable, SymbolType,
};
use crate::text::same_text;
use vstd::prelude::*;
use vstd::string::StringExecFns;

verus! {

/// Why a tree does not type-check.
#[allow(inconsistent_fields)]
#[derive(Debug, Clone, PartialEq)]
pub enum TypeError {
    /// A name is used that no scope defines.
    UndefinedVariable(String),
    /// A type was expected and another was found.
    TypeMismatch { expected: String, actual: String },
    /// An operator does not take operands of these types.
    InvalidOperation { operation: String, left: String, right: String },
    /// A function returns a value of another type than it declares.
    ReturnTypeMismatch { expected: String, actual: String },
    /// A call passes another number of arguments than the function takes.
    ArgumentCountMismatch { expected: usize, actual: usize },
    /// The argument at `index` has another type than the parameter.
    ArgumentTypeMismatch { index: usize, expected: String, actual: String },
}

/// Model of [`TypeError`].
#[allow(inconsistent_fields)]
pub enum SpecTypeError {
    UndefinedVariable(Seq<char>),
    TypeMismatch { expected: Seq<char>, actual: Seq<char> },
    InvalidOperation { operation: Seq<char>, left: Seq<char>, right: Seq<char> },
    ReturnTypeMismatch { expected: Seq<char>, actual: Seq<char> },
    ArgumentCountMismatch { expected: usize, actual: usize },
    ArgumentTypeMismatch { index: usize, expected: Seq<char>, actual: Seq<char> },
}

impl View for TypeError {
    type V = SpecTypeError;

    open spec fn view(&self) -> SpecTypeError {
        match self {
            TypeError::UndefinedVariable(name) => SpecTypeError::UndefinedVariable(name@),
            TypeError::TypeMismatch { expected, actual } => SpecTypeError::TypeMismatch {
                expected: expected@,
                actual: actual@,
            },
            TypeError::InvalidOperation { operation, left, right } => {
                SpecTypeError::InvalidOperation {
                    operation: operation@,
                    left: left@,
                    right: right@,
                }
            },
            TypeError::ReturnTypeMismatch { expected, actual } => {
                SpecTypeError::ReturnTypeMismatch { expected: expected@, actual: actual@ }
            },
            TypeError::ArgumentCountMismatch { expected, actual } => {
                SpecTypeError::ArgumentCountMismatch { expected: *expected, actual: *actual }
            },
            TypeError::ArgumentTypeMismatch { index, expected, actual } => {
                SpecTypeError::ArgumentTypeMismatch {
                    index: *index,
                    expected: expected@,
                    actual: actual@,
                }
            },
        }
    }
}

/// The operators `+ - * / %`.
pub open spec fn is_arithmetic(op: BinaryOperator) -> bool {
    op == BinaryOperator::Add || op == BinaryOperator::Sub || op == BinaryOperator::Mul || op
        == BinaryOperator::Div || op == BinaryOperator::Mod
}

/// The operators `&& ||`.
pub open spec fn is_logical(op: BinaryOperator) -> bool {
    op == BinaryOperator::And || op == BinaryOperator::Or
}

/// The types that unary minus accepts.
pub open spec fn is_numeric(t: Seq<char>) -> bool {
    t == "int"@ || t == "float"@ || t == "double"@
}

/// The type of a binary operation on operands of types `left` and `right`.
/// Arithmetic needs two operands of one type and gives that type; the other
/// operators give `bool`: comparison of two operands of one type, and the
/// logical operators of two `bool` operands.
pub open spec fn binary_result(op: BinaryOperator, left: Seq<char>, right: Seq<char>) -> Result<
    Seq<char>,
    SpecTypeError,
> {
    let refused = Err(
        SpecTypeError::InvalidOperation { operation: binary_operator_name(op), left, right },
    );
    if is_arithmetic(op) {
        if left == right {
            Ok(left)
        } else {
            refused
        }
    } else if is_logical(op) {
        if left == "bool"@ && right == "bool"@ {
            Ok("bool"@)
        } else {
            refused
        }
    } else {
        if left == right {
            Ok("bool"@)
        } else {
            refused
        }
    }
}

/// Arithmetic on two operands of one type gives that type, comparison of
/// two operands of one type gives `bool`, and neither takes operands of
/// two types.
pub proof fn lemma_operands_of_one_type(op: BinaryOperator, left: Seq<char>, right: Seq<char>)
    requires
        !is_logical(op),
    ensures
        left == right && is_arithmetic(op) ==> binary_result(op, left, right) == Ok::<
            Seq<char>,
            SpecTypeError,
        >(left),
        left == right && !is_arithmetic(op) ==> binary_result(op, left, right) == Ok::<
            Seq<char>,
            SpecTypeError,
        >("bool"@),
        left != right ==> binary_result(op, left, right) is Err,
{
}

/// The type of a prefix operation on an operand of type `operand`. Negation
/// needs a numeric operand and keeps its type; logical not needs `bool`;
/// address-of and dereference keep the operand's type.
pub open spec fn unary_result(op: UnaryOperator, operand: Seq<char>) -> Result<
    Seq<char>,
    SpecTypeError,
> {
    match op {
        UnaryOperator::Neg => if is_numeric(operand) {
            Ok(operand)
        } else {
            Err(
                SpecTypeError::InvalidOperation {
                    operation: unary_operator_name(op),
                    left: operand,
                    right: "numeric type"@,
                },
            )
        },
        UnaryOperator::Not => if operand == "bool"@ {
            Ok("bool"@)
        } else {
            Err(
                SpecTypeError::InvalidOperation {
                    operation: unary_operator_name(op),
                    left: operand,
                    right: "bool"@,
                },
            )
        },
        _ => Ok(operand),
    }
}

/// The type that a use of a symbol has as an expression.
pub open spec fn symbol_type_name(s: SpecSymbolType) -> Seq<char> {
    match s {
        SpecSymbolType::Variable(t) => t,
        SpecSymbolType::Function(_) => "function"@,
        SpecSymbolType::TypeDefinition(_) => "type"@,
    }
}

/// The type of an expression in the scopes of `t`, or the first error met
/// when its operands are taken left to right.
pub open spec fn infer_type(t: SpecTable, e: SpecExpr) -> Result<Seq<char>, SpecTypeError>
    decreases e, 0int,
{
    match e {
        SpecExpr::Identifier(name) => match table_lookup(t, name) {
            Some(symbol) => Ok(symbol_type_name(symbol.symbol_type)),
            None => Err(SpecTypeError::UndefinedVariable(name)),
        },
        SpecExpr::IntegerLiteral(_) => Ok("int"@),
        SpecExpr::StringLiteral(_) => Ok("string"@),
        SpecExpr::BinaryOp { left, operator, right } => match infer_type(t, *left) {
            Err(error) => Err(error),
            Ok(left_type) => match infer_type(t, *right) {
                Err(error) => Err(error),
                Ok(right_type) => binary_result(operator, left_type, right_type),
            },
        },
        SpecExpr::UnaryOp { operator, operand } => match infer_type(t, *operand) {
            Err(error) => Err(error),
            Ok(operand_type) => unary_result(operator, operand_type),
        },
        SpecExpr::FunctionCall { name, arguments } => match table_lookup(t, name) {
            None => Err(SpecTypeError::UndefinedVariable(name)),
            Some(symbol) => match symbol.symbol_type {
                SpecSymbolType::Function(signature) => if arguments.len()
                    != signature.parameters.len() {
                    Err(
                        SpecTypeError::ArgumentCountMismatch {
                            expected: signature.parameters.len() as usize,
                            actual: arguments.len() as usize,
                        },
                    )
                } else {
                    match arguments_error(t, arguments, signature.parameters, 0) {
                        Some(error) => Err(error),
                        None => Ok(signature.return_type),
                    }
                },
                _ => Err(
                    SpecTypeError::TypeMismatch {
                        expected: "function"@,
                        actual: "non-function"@,
                    },
                ),
            },
        },
    }
}

/// The first error among the arguments from index `from` on: an argument
/// that does not type-check, or whose type is not that of its parameter.
pub open spec fn arguments_error(
    t: SpecTable,
    arguments: Seq<SpecExpr>,
    parameters: Seq<(Seq<char>, Seq<char>)>,
    from: int,
) -> Option<SpecTypeError>
    decreases arguments, arguments.len() - from,
{
    if from < 0 || from >= arguments.len() {
        None
    } else {
        match infer_type(t, arguments[from]) {
            Err(error) => Some(error),
            Ok(argument_type) => if argument_type != parameters[from].1 {
                Some(
                    SpecTypeError::ArgumentTypeMismatch {
                        index: from as usize,
                        expected: parameters[from].1,
                        actual: argument_type,
                    },
                )
            } else {
                arguments_error(t, arguments, parameters, from + 1)
            },
        }
    }
}

/// The error of a condition of type `t`: conditions are `bool` or `int`.
pub open spec fn condition_error(t: Seq<char>) -> Option<SpecTypeError> {
    if t == "bool"@ || t == "int"@ {
        None
    } else {
        Some(SpecTypeError::TypeMismatch { expected: "bool"@, actual: t })
    }
}

/// The first error of a statement, if it has one. The statements of a block
/// or a branch are checked in a scope of their own.
pub open spec fn statement_error(t: SpecTable, s: SpecStatement) -> Option<SpecTypeError>
    decreases s, 0int,
{
    match s {
        SpecStatement::Return(None) => None,
        SpecStatement::Return(Some(e)) => match infer_type(t, e) {
            Err(error) => Some(error),
            Ok(_) => None,
        },
        SpecStatement::Expression(e) => match infer_type(t, e) {
            Err(error) => Some(error),
            Ok(_) => None,
        },
        SpecStatement::Block(list) => statements_error(table_enter(t), list, 0),
        SpecStatement::If { condition, then_branch, else_branch } => match infer_type(
            t,
            condition,
        ) {
            Err(error) => Some(error),
            Ok(condition_type) => if condition_error(condition_type) is Some {
                condition_error(condition_type)
            } else if statements_error(table_enter(t), then_branch, 0) is Some {
                statements_error(table_enter(t), then_branch, 0)
            } else {
                match else_branch {
                    Some(list) => statements_error(table_enter(t), list, 0),
                    None => None,
                }
            },
        },
        SpecStatement::While { condition, body } => match infer_type(t, condition) {
            Err(error) => Some(error),
            Ok(condition_type) => if condition_error(condition_type) is Some {
                condition_error(condition_type)
            } else {
                statements_error(table_enter(t), body, 0)
            },
        },
    }
}

/// The first error among the statements from index `from` on.
pub open spec fn statements_error(t: SpecTable, list: Seq<SpecStatement>, from: int) -> Option<
    SpecTypeError,
>
    decreases list, list.len() - from,
{
    if from < 0 || from >= list.len() {
        None
    } else if statement_error(t, list[from]) is Some {
        statement_error(t, list[from])
    } else {
        statements_error(t, list, from + 1)
    }
}

/// The signature that a function declaration gives its symbol.
pub open spec fn declared_signature(
    parameters: Seq<SpecParameter>,
    return_type: SpecType,
) -> SpecSignature {
    SpecSignature {
        return_type: name_of_type(return_type),
        parameters: parameters.map_values(
            |p: SpecParameter| (p.name, name_of_type(p.param_type)),
        ),
    }
}

/// The table after defining the parameters from index `from` on as mutable
/// variables, or the error of the first one whose name is taken.
pub open spec fn define_parameters(t: SpecTable, parameters: Seq<SpecParameter>, from: int) -> Result<
    SpecTable,
    SpecTypeError,
>
    decreases parameters.len() - from,
{
    if from < 0 || from >= parameters.len() {
        Ok(t)
    } else {
        match table_define(
            t,
            parameters[from].name,
            SpecSymbolType::Variable(name_of_type(parameters[from].param_type)),
            true,
        ) {
            Ok(next) => define_parameters(next, parameters, from + 1),
            Err(_) => Err(
                SpecTypeError::TypeMismatch {
                    expected: "valid parameter name"@,
                    actual: parameters[from].name,
                },
            ),
        }
    }
}

/// Whether the type of a declared variable is left to its initializer.
pub open spec fn is_inferred(data_type: SpecType, initializer: Option<SpecExpr>) -> bool {
    data_type is Auto && initializer is Some
}

/// The first error of a node of a program, if it has one.
///
/// A variable is defined with its declared type before its initializer is
/// looked at, and the initializer must have that type. A variable of type
/// `auto` with an initializer gets the type of the initializer, which is
/// inferred before the variable is defined. A function is defined before its
/// body is checked; its parameters and body live in a scope of their own.
pub open spec fn node_error(t: SpecTable, n: SpecNode) -> Option<SpecTypeError> {
    match n {
        SpecNode::VariableDeclaration { name, data_type, initializer } => {
            let taken = Some(
                SpecTypeError::TypeMismatch { expected: "valid variable name"@, actual: name },
            );
            if is_inferred(data_type, initializer) {
                match infer_type(t, initializer->0) {
                    Err(error) => Some(error),
                    Ok(inferred) => if table_define(
                        t,
                        name,
                        SpecSymbolType::Variable(inferred),
                        true,
                    ) is Err {
                        taken
                    } else {
                        None
                    },
                }
            } else {
                let declared = name_of_type(data_type);
                match table_define(t, name, SpecSymbolType::Variable(declared), true) {
                    Err(_) => taken,
                    Ok(defined) => match initializer {
                        None => None,
                        Some(e) => match infer_type(defined, e) {
                            Err(error) => Some(error),
                            Ok(actual) => if actual == declared {
                                None
                            } else {
                                Some(SpecTypeError::TypeMismatch { expected: declared, actual })
                            },
                        },
                    },
                }
            }
        },
        SpecNode::FunctionDeclaration { name, parameters, return_type, body } => {
            match table_define(
                t,
                name,
                SpecSymbolType::Function(declared_signature(parameters, return_type)),
                false,
            ) {
                Err(_) => Some(
                    SpecTypeError::TypeMismatch { expected: "valid function name"@, actual: name },
                ),
                Ok(defined) => match define_parameters(table_enter(defined), parameters, 0) {
                    Err(error) => Some(error),
                    Ok(inner) => statements_error(inner, body, 0),
                },
            }
        },
        SpecNode::Expression(e) => match infer_type(t, e) {
            Err(error) => Some(error),
            Ok(_) => None,
        },
        SpecNode::Statement(s) => statement_error(t, s),
        SpecNode::Program(_) => None,
    }
}

/// An initializer of another type than the declared one is a mismatch, of
/// which the declared type is the expected and that of the initializer the
/// actual one.
pub proof fn lemma_initializer_mismatch(
    t: SpecTable,
    name: Seq<char>,
    data_type: SpecType,
    initializer: SpecExpr,
)
    requires
        !(data_type is Auto),
        table_define(t, name, SpecSymbolType::Variable(name_of_type(data_type)), true) is Ok,
        infer_type(
            table_define(
                t,
                name,
                SpecSymbolType::Variable(name_of_type(data_type)),
                true,
            )->Ok_0,
            initializer,
        ) is Ok,
    ensures
        ({
            let defined = table_define(
                t,
                name,
                SpecSymbolType::Variable(name_of_type(data_type)),
                true,
            )->Ok_0;
            let actual = infer_type(defined, initializer)->Ok_0;
            let node = SpecNode::VariableDeclaration {
                name,
                data_type,
                initializer: Some(initializer),
            };
            node_error(t, node) == if actual == name_of_type(data_type) {
                None
            } else {
                Some(SpecTypeError::TypeMismatch { expected: name_of_type(data_type), actual })
            }
        }),
{
}

/// The table after a node was checked, whether it had an error or not: the
/// table before, with the symbol of a declaration that could be defined.
pub open spec fn node_table(t: SpecTable, n: SpecNode) -> SpecTable {
    match n {
        SpecNode::VariableDeclaration { name, data_type, initializer } => {
            if is_inferred(data_type, initializer) {
                match infer_type(t, initializer->0) {
                    Err(_) => t,
                    Ok(inferred) => match table_define(
                        t,
                        name,
                        SpecSymbolType::Variable(inferred),
                        true,
                    ) {
                        Ok(defined) => defined,
                        Err(_) => t,
                    },
                }
            } else {
                match table_define(
                    t,
                    name,
                    SpecSymbolType::Variable(name_of_type(data_type)),
                    true,
                ) {
                    Ok(defined) => defined,
                    Err(_) => t,
                }
            }
        },
        SpecNode::FunctionDeclaration { name, parameters, return_type, body } => {
            match table_define(
                t,
                name,
                SpecSymbolType::Function(declared_signature(parameters, return_type)),
                false,
            ) {
                Ok(defined) => defined,
                Err(_) => t,
            }
        },
        _ => t,
    }
}

/// The first error among the nodes from index `from` on, each checked in the
/// table that the nodes before it left.
pub open spec fn nodes_error(t: SpecTable, nodes: Seq<SpecNode>, from: int) -> Option<
    SpecTypeError,
>
    decreases nodes.len() - from,
{
    if from < 0 || from >= nodes.len() {
        None
    } else if node_error(t, nodes[from]) is Some {
        node_error(t, nodes[from])
    } else {
        nodes_error(node_table(t, nodes[from]), nodes, from + 1)
    }
}

/// The table after the nodes from index `from` on were checked, up to and
/// with the first one that has an error.
pub open spec fn nodes_table(t: SpecTable, nodes: Seq<SpecNode>, from: int) -> SpecTable
    decreases nodes.len() - from,
{
    if from < 0 || from >= nodes.len() {
        t
    } else if node_error(t, nodes[from]) is Some {
        node_table(t, nodes[from])
    } else {
        nodes_table(node_table(t, nodes[from]), nodes, from + 1)
    }
}

/// The first error of a program. A root that is no `Program` is an error.
pub open spec fn program_error(t: SpecTable, n: SpecNode) -> Option<SpecTypeError> {
    match n {
        SpecNode::Program(nodes) => nodes_error(t, nodes, 0),
        _ => Some(
            SpecTypeError::TypeMismatch { expected: "Program"@, actual: "non-program node"@ },
        ),
    }
}

/// The table after a program was checked.
pub open spec fn program_table(t: SpecTable, n: SpecNode) -> SpecTable {
    match n {
        SpecNode::Program(nodes) => nodes_table(t, nodes, 0),
        _ => t,
    }
}

fn invalid_operation(operation: &str, left: String, right: String) -> (r: TypeError)
    ensures
        r@ == (SpecTypeError::InvalidOperation { operation: operation@, left: left@, right: right@ }),
{
    TypeError::InvalidOperation { operation: String::from_str(operation), left, right }
}

/// The type of a binary operation: see [`binary_result`].
pub fn check_binary(op: BinaryOperator, left: String, right: String) -> (r: Result<
    String,
    TypeError,
>)
    ensures
        same_outcome(r, binary_result(op, left@, right@)),
{
    match op {
        BinaryOperator::Add
        | BinaryOperator::Sub
        | BinaryOperator::Mul
        | BinaryOperator::Div
        | BinaryOperator::Mod => {
            if left == right {
                Ok(left)
            } else {
                Err(invalid_operation(op.name(), left, right))
            }
        },
        BinaryOperator::And | BinaryOperator::Or => {
            if same_text(left.as_str(), "bool") && same_text(right.as_str(), "bool") {
                Ok(String::from_str("bool"))
            } else {
                Err(invalid_operation(op.name(), left, right))
            }
        },
        _ => {
            if left == right {
                Ok(String::from_str("bool"))
            } else {
                Err(invalid_operation(op.name(), left, right))
            }
        },
    }
}

/// The type of a prefix operation: see [`unary_result`].
pub fn check_unary(op: UnaryOperator, operand: String) -> (r: Result<String, TypeError>)
    ensures
        same_outcome(r, unary_result(op, operand@)),
{
    match op {
        UnaryOperator::Neg => {
            if same_text(operand.as_str(), "int") || same_text(operand.as_str(), "float")
                || same_text(operand.as_str(), "double") {
                Ok(operand)
            } else {
                Err(invalid_operation(op.name(), operand, String::from_str("numeric type")))
            }
        },
        UnaryOperator::Not => {
            if same_text(operand.as_str(), "bool") {
                Ok(String::from_str("bool"))
            } else {
                Err(invalid_operation(op.name(), operand, String::from_str("bool")))
            }
        },
        _ => Ok(operand),
    }
}

/// The checker: it owns the symbol table that declarations fill.
pub struct TypeChecker {
    pub symbol_table: SymbolTable,
}

impl TypeChecker {
    /// A checker with an empty symbol table.
    pub fn new() -> (r: Self)
        ensures
            r.symbol_table@ == empty_table(),
            r.symbol_table.wf(),
    {
        TypeChecker { symbol_table: SymbolTable::new() }
    }

    /// The name of a type of the tree: see [`name_of_type`].
    pub fn ast_type_to_string(&self, ast_type: &Type) -> (r: String)
        ensures
            r@ == name_of_type(ast_type@),
    {
        ast_type.name()
    }

    /// Whether a value of type `actual` may stand where `expected` is asked
    /// for: whether the two are the same type.
    pub fn types_compatible(&self, actual: &str, expected: &str) -> (r: bool)
        ensures
            r == (actual@ == expected@),
    {
        same_text(actual, expected)
    }

    /// The type of `expr` in the current scopes: see [`infer_type`].
    #[verifier::loop_isolation(false)]
    pub fn infer_expression_type(&self, expr: &Expr) -> (r: Result<String, TypeError>)
        requires
            self.symbol_table.wf(),
        ensures
            same_outcome(r, infer_type(self.symbol_table@, expr@)),
        decreases expr,
    {
        match expr {
            Expr::Identifier(name) => match self.symbol_table.lookup(name.as_str()) {
                Some(symbol) => match &symbol.symbol_type {
                    SymbolType::Variable(variable_type) => Ok(variable_type.clone()),
                    SymbolType::Function(_) => Ok(String::from_str("function")),
                    SymbolType::TypeDefinition(_) => Ok(String::from_str("type")),
                },
                None => Err(TypeError::UndefinedVariable(name.clone())),
            },
            Expr::IntegerLiteral(_) => Ok(String::from_str("int")),
            Expr::StringLiteral(_) => Ok(String::from_str("string")),
            Expr::BinaryOp { left, operator, right } => {
                let left_type = match self.infer_expression_type(left) {
                    Ok(t) => t,
                    Err(error) => {
                        return Err(error);
                    },
                };
                let right_type = match self.infer_expression_type(right) {
                    Ok(t) => t,
                    Err(error) => {
                        return Err(error);
                    },
                };
                check_binary(*operator, left_type, right_type)
            },
            Expr::UnaryOp { operator, operand } => {
                let operand_type = match self.infer_expression_type(operand) {
                    Ok(t) => t,
                    Err(error) => {
                        return Err(error);
                    },
                };
                check_unary(*operator, operand_type)
            },
            Expr::FunctionCall { name, arguments } => {
                match self.symbol_table.lookup(name.as_str()) {
                    None => Err(TypeError::UndefinedVariable(name.clone())),
                    Some(symbol) => match &symbol.symbol_type {
                        SymbolType::Function(signature) => {
                            if arguments.len() != signature.parameters.len() {
                                return Err(
                                    TypeError::ArgumentCountMismatch {
                                        expected: signature.parameters.len(),
                                        actual: arguments.len(),
                                    },
                                );
                            }
                            let ghost table = self.symbol_table@;
                            let ghost models = expr@->arguments;
                            let ghost parameters = signature@.parameters;
                            let mut i: usize = 0;
                            while i < arguments.len()
                                invariant
                                    i <= arguments.len(),
                                    arguments_error(table, models, parameters, 0)
                                        == arguments_error(table, models, parameters, i as int),
                                decreases arguments.len() - i,
                            {
                                assert(models[i as int] == arguments@[i as int]@);
                                assert(parameters[i as int].1 == signature.parameters@[i as int].1@);
                                let argument_type = match self.infer_expression_type(
                                    &arguments[i],
                                ) {
                                    Ok(t) => t,
                                    Err(error) => {
                                        return Err(error);
                                    },
                                };
                                if argument_type != signature.parameters[i].1 {
                                    return Err(
                                        TypeError::ArgumentTypeMismatch {
                                            index: i,
                                            expected: signature.parameters[i].1.clone(),
                                            actual: argument_type,
                                        },
                                    );
                                }
                                i += 1;
                            }
                            Ok(signature.return_type.clone())
                        },
                        _ => Err(
                            TypeError::TypeMismatch {
                                expected: String::from_str("function"),
                                actual: String::from_str("non-function"),
                            },
                        ),
                    },
                }
            },
        }
    }

    /// Checks a condition: it must type-check and be `bool` or `int`.
    fn check_condition(&self, condition: &Expr) -> (r: Result<(), TypeError>)
        requires
            self.symbol_table.wf(),
        ensures
            same_failure(
                r,
                match infer_type(self.symbol_table@, condition@) {
                    Err(error) => Some(error),
                    Ok(t) => condition_error(t),
                },
            ),
    {
        let condition_type = match self.infer_expression_type(condition) {
            Ok(t) => t,
            Err(error) => {
                return Err(error);
            },
        };
        if same_text(condition_type.as_str(), "bool") || same_text(condition_type.as_str(), "int") {
            Ok(())
        } else {
            Err(
                TypeError::TypeMismatch {
                    expected: String::from_str("bool"),
                    actual: condition_type,
                },
            )
        }
    }

    /// Checks a list of statements in a scope of their own.
    fn check_scoped(&mut self, list: &Vec<Statement>) -> (r: Result<(), TypeError>)
        requires
            old(self).symbol_table.wf(),
        ensures
            final(self).symbol_table.wf(),
            final(self).symbol_table@ == old(self).symbol_table@,
            same_failure(
                r,
                statements_error(table_enter(old(self).symbol_table@), statements_model(list@), 0),
            ),
        decreases list, 1int,
    {
        proof {
            lemma_enter_exit(self.symbol_table@);
        }
        self.symbol_table.enter_scope();
        let r = self.check_statements(list);
        self.symbol_table.exit_scope();
        r
    }

    /// Checks statements in order, in the current scope: see
    /// [`statements_error`].
    pub fn check_statements(&mut self, list: &Vec<Statement>) -> (r: Result<(), TypeError>)
        requires
            old(self).symbol_table.wf(),
        ensures
            final(self).symbol_table.wf(),
            final(self).symbol_table@ == old(self).symbol_table@,
            same_failure(r, statements_error(old(self).symbol_table@, statements_model(list@), 0)),
        decreases list, 0int,
    {
        let ghost table = self.symbol_table@;
        let ghost models = statements_model(list@);
        let mut i: usize = 0;
        while i < list.len()
            invariant
                i <= list.len(),
                self.symbol_table.wf(),
                self.symbol_table@ == table,
                table == old(self).symbol_table@,
                models == statements_model(list@),
                statements_error(table, models, 0) == statements_error(table, models, i as int),
            decreases list.len() - i,
        {
            assert(models[i as int] == list@[i as int]@);
            match self.check_statement(&list[i]) {
                Ok(_) => {},
                Err(error) => {
                    return Err(error);
                },
            }
            i += 1;
        }
        Ok(())
    }

    /// Checks one statement: see [`statement_error`]. The table is left as it
    /// was found.
    pub fn check_statement(&mut self, stmt: &Statement) -> (r: Result<(), TypeError>)
        requires
            old(self).symbol_table.wf(),
        ensures
            final(self).symbol_table.wf(),
            final(self).symbol_table@ == old(self).symbol_table@,
            same_failure(r, statement_error(old(self).symbol_table@, stmt@)),
        decreases stmt, 2int,
    {
        match stmt {
            Statement::Return(None) => Ok(()),
            Statement::Return(Some(e)) => match self.infer_expression_type(e) {
                Ok(_) => Ok(()),
                Err(error) => Err(error),
            },
            Statement::Expression(e) => match self.infer_expression_type(e) {
                Ok(_) => Ok(()),
                Err(error) => Err(error),
            },
            Statement::Block(list) => self.check_scoped(list),
            Statement::If { condition, then_branch, else_branch } => {
                match self.check_condition(condition) {
                    Ok(_) => {},
                    Err(error) => {
                        return Err(error);
                    },
                }
                match self.check_scoped(then_branch) {
                    Ok(_) => {},
                    Err(error) => {
                        return Err(error);
                    },
                }
                match else_branch {
                    Some(list) => self.check_scoped(list),
                    None => Ok(()),
                }
            },
            Statement::While { condition, body } => {
                match self.check_condition(condition) {
                    Ok(_) => {},
                    Err(error) => {
                        return Err(error);
                    },
                }
                self.check_scoped(body)
            },
        }
    }

    /// The signature of a declared function: see [`declared_signature`].
    fn signature_of(parameters: &Vec<Parameter>, return_type: &Type) -> (r: FunctionSignature)
        ensures
            r@ == declared_signature(parameters@.map_values(|p: Parameter| p@), return_type@),
    {
        let ghost models = parameters@.map_values(|p: Parameter| p@);
        let ghost wanted = declared_signature(models, return_type@).parameters;
        let mut list: Vec<(String, String)> = Vec::new();
        let mut i: usize = 0;
        while i < parameters.len()
            invariant
                i <= parameters.len(),
                models == parameters@.map_values(|p: Parameter| p@),
                wanted == declared_signature(models, return_type@).parameters,
                list@.map_values(|p: (String, String)| (p.0@, p.1@)) == wanted.take(i as int),
            decreases parameters.len() - i,
        {
            let ghost before = list@.map_values(|p: (String, String)| (p.0@, p.1@));
            let entry = (parameters[i].name.clone(), parameters[i].param_type.name());
            list.push(entry);
            proof {
                assert(models[i as int] == parameters@[i as int]@);
                assert(list@.map_values(|p: (String, String)| (p.0@, p.1@)) =~= before.push(
                    wanted[i as int],
                ));
                assert(wanted.take(i + 1) =~= wanted.take(i as int).push(wanted[i as int]));
            }
            i += 1;
        }
        proof {
            assert(wanted.take(parameters.len() as int) =~= wanted);
        }
        FunctionSignature { return_type: return_type.name(), parameters: list }
    }

    /// Checks the parameters and the body of a function in a scope of their
    /// own, and leaves the table as it was found.
    fn check_function_body(&mut self, parameters: &Vec<Parameter>, body: &Vec<Statement>) -> (r:
        Result<(), TypeError>)
        requires
            old(self).symbol_table.wf(),
        ensures
            final(self).symbol_table.wf(),
            final(self).symbol_table@ == old(self).symbol_table@,
            same_failure(
                r,
                match define_parameters(
                    table_enter(old(self).symbol_table@),
                    parameters@.map_values(|p: Parameter| p@),
                    0,
                ) {
                    Err(error) => Some(error),
                    Ok(inner) => statements_error(inner, statements_model(body@), 0),
                },
            ),
    {
        let ghost outer = self.symbol_table@;
        let ghost models = parameters@.map_values(|p: Parameter| p@);
        proof {
            lemma_enter_exit(outer);
        }
        self.symbol_table.enter_scope();
        let ghost entered = self.symbol_table@;
        let mut i: usize = 0;
        while i < parameters.len()
            invariant
                i <= parameters.len(),
                self.symbol_table.wf(),
                models == parameters@.map_values(|p: Parameter| p@),
                self.symbol_table@.len() >= 2,
                outer == old(self).symbol_table@,
                entered == table_enter(outer),
                table_exit(self.symbol_table@) == outer,
                define_parameters(entered, models, 0) == define_parameters(
                    self.symbol_table@,
                    models,
                    i as int,
                ),
            decreases parameters.len() - i,
        {
            let ghost current = self.symbol_table@;
            proof {
                assert(models[i as int] == parameters@[i as int]@);
                let p = models[i as int];
                if table_define(
                    current,
                    p.name,
                    SpecSymbolType::Variable(name_of_type(p.param_type)),
                    true,
                ) is Ok {
                    lemma_define_keeps_outer(
                        current,
                        p.name,
                        SpecSymbolType::Variable(name_of_type(p.param_type)),
                        true,
                    );
                }
            }
            let defined = self.symbol_table.define_variable(
                parameters[i].name.clone(),
                parameters[i].param_type.name(),
                true,
            );
            if defined.is_err() {
                self.symbol_table.exit_scope();
                return Err(
                    TypeError::TypeMismatch {
                        expected: String::from_str("valid parameter name"),
                        actual: parameters[i].name.clone(),
                    },
                );
            }
            i += 1;
        }
        let r = self.check_statements(body);
        self.symbol_table.exit_scope();
        r
    }

    /// Checks one node of a program: see [`node_error`] for the error and
    /// [`node_table`] for the table that is left.
    pub fn check_node(&mut self, node: &ASTNode) -> (r: Result<(), TypeError>)
        requires
            old(self).symbol_table.wf(),
        ensures
            final(self).symbol_table.wf(),
            final(self).symbol_table@ == node_table(old(self).symbol_table@, node@),
            same_failure(r, node_error(old(self).symbol_table@, node@)),
    {
        match node {
            ASTNode::VariableDeclaration { name, data_type, initializer } => {
                match (data_type, initializer) {
                    (Type::Auto, Some(e)) => {
                        let inferred = match self.infer_expression_type(e) {
                            Ok(t) => t,
                            Err(error) => {
                                return Err(error);
                            },
                        };
                        match self.symbol_table.define_variable(name.clone(), inferred, true) {
                            Ok(_) => Ok(()),
                            Err(_) => Err(
                                TypeError::TypeMismatch {
                                    expected: String::from_str("valid variable name"),
                                    actual: name.clone(),
                                },
                            ),
                        }
                    },
                    _ => {
                        let declared = self.ast_type_to_string(data_type);
                        let defined = self.symbol_table.define_variable(
                            name.clone(),
                            declared.clone(),
                            true,
                        );
                        if defined.is_err() {
                            return Err(
                                TypeError::TypeMismatch {
                                    expected: String::from_str("valid variable name"),
                                    actual: name.clone(),
                                },
                            );
                        }
                        match initializer {
                            None => Ok(()),
                            Some(e) => {
                                let actual = match self.infer_expression_type(e) {
                                    Ok(t) => t,
                                    Err(error) => {
                                        return Err(error);
                                    },
                                };
                                if self.types_compatible(actual.as_str(), declared.as_str()) {
                                    Ok(())
                                } else {
                                    Err(TypeError::TypeMismatch { expected: declared, actual })
                                }
                            },
                        }
                    },
                }
            },
            ASTNode::FunctionDeclaration { name, parameters, return_type, body } => {
                let signature = Self::signature_of(parameters, return_type);
                let defined = self.symbol_table.define_function(name.clone(), signature);
                if defined.is_err() {
                    return Err(
                        TypeError::TypeMismatch {
                            expected: String::from_str("valid function name"),
                            actual: name.clone(),
                        },
                    );
                }
                self.check_function_body(parameters, body)
            },
            ASTNode::Expression(e) => match self.infer_expression_type(e) {
                Ok(_) => Ok(()),
                Err(error) => Err(error),
            },
            ASTNode::Statement(s) => self.check_statement(s),
            ASTNode::Program(_) => Ok(()),
        }
    }

    /// Checks a program: see [`program_error`] for the error and
    /// [`program_table`] for the table that is left. The nodes are checked in
    /// order, and checking stops at the first error.
    pub fn check_program(&mut self, ast: &ASTNode) -> (r: Result<(), TypeError>)
        requires
            old(self).symbol_table.wf(),
        ensures
            final(self).symbol_table.wf(),
            final(self).symbol_table@ == program_table(old(self).symbol_table@, ast@),
            same_failure(r, program_error(old(self).symbol_table@, ast@)),
    {
        match ast {
            ASTNode::Program(nodes) => {
                let ghost start = self.symbol_table@;
                let ghost models = ast@->Program_0;
                let mut i: usize = 0;
                while i < nodes.len()
                    invariant
                        i <= nodes.len(),
                        self.symbol_table.wf(),
                        models == ast@->Program_0,
                        *ast == ASTNode::Program(*nodes),
                        start == old(self).symbol_table@,
                        nodes_error(start, models, 0) == nodes_error(
                            self.symbol_table@,
                            models,
                            i as int,
                        ),
                        nodes_table(start, models, 0) == nodes_table(
                            self.symbol_table@,
                            models,
                            i as int,
                        ),
                    decreases nodes.len() - i,
                {
                    assert(models[i as int] == nodes@[i as int]@);
                    match self.check_node(&nodes[i]) {
                        Ok(_) => {},
                        Err(error) => {
                            return Err(error);
                        },
                    }
                    i += 1;
                }
                Ok(())
            },
            _ => Err(
                TypeError::TypeMismatch {
                    expected: String::from_str("Program"),
                    actual: String::from_str("non-program node"),
                },
            ),
        }
    }
}

} // verus!
