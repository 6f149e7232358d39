//! Nodes of the syntax tree and their mathematical models.
//!
//! Every node type has a model in which strings are sequences of characters
//! and vectors are sequences. The view (`@`) of a node is its model; the
//! contracts of all passes are stated over models.

use crate::text::{decimal, size_string};
use vstd::prelude::*;
use vstd::string::StringExecFns;

verus! {

/// A binary operator of the language.
#[derive(Debug, Clone, Copy, PartialEq, Eq, Structural)]
pub enum BinaryOperator {
    Add,
    Sub,
    Mul,
    Div,
    Mod,
    Eq,
    Ne,
    Lt,
    Le,
    Gt,
    Ge,
    And,
    Or,
}

/// A prefix operator of the language.
#[derive(Debug, Clone, Copy, PartialEq, Eq, Structural)]
pub enum UnaryOperator {
    Neg,
    Not,
    AddrOf,
    Deref,
}

/// A type as written in the source.
#[derive(Debug, PartialEq)]
pub enum Type {
    Int,
    Char,
    Float,
    Double,
    Bool,
    /// The type of a function that returns nothing.
    Void,
    /// A type left for the checker to infer from an initializer.
    Auto,
    Pointer(Box<Type>),
    Array(Box<Type>, usize),
    Custom(String),
}

/// Model of [`Type`].
pub enum SpecType {
    Int,
    Char,
    Float,
    Double,
    Bool,
    Void,
    Auto,
    Pointer(Box<SpecType>),
    Array(Box<SpecType>, usize),
    Custom(Seq<char>),
}

/// A parameter of a function declaration.
#[derive(Debug, PartialEq)]
pub struct Parameter {
    pub name: String,
    pub param_type: Type,
}

/// Model of [`Parameter`].
pub struct SpecParameter {
    pub name: Seq<char>,
    pub param_type: SpecType,
}

/// An expression.
#[allow(inconsistent_fields)]
#[derive(Debug, PartialEq)]
pub enum Expr {
    Identifier(String),
    IntegerLiteral(i64),
    StringLiteral(String),
    BinaryOp { left: Box<Expr>, operator: BinaryOperator, right: Box<Expr> },
    UnaryOp { operator: UnaryOperator, operand: Box<Expr> },
    FunctionCall { name: String, arguments: Vec<Expr> },
}

/// Model of [`Expr`].
#[allow(inconsistent_fields)]
pub enum SpecExpr {
    Identifier(Seq<char>),
    IntegerLiteral(i64),
    StringLiteral(Seq<char>),
    BinaryOp { left: Box<SpecExpr>, operator: BinaryOperator, right: Box<SpecExpr> },
    UnaryOp { operator: UnaryOperator, operand: Box<SpecExpr> },
    FunctionCall { name: Seq<char>, arguments: Seq<SpecExpr> },
}

/// A statement.
#[derive(Debug, PartialEq)]
pub enum Statement {
    Return(Option<Expr>),
    Expression(Expr),
    Block(Vec<Statement>),
    If { condition: Expr, then_branch: Vec<Statement>, else_branch: Option<Vec<Statement>> },
    While { condition: Expr, body: Vec<Statement> },
}

/// Model of [`Statement`].
pub enum SpecStatement {
    Return(Option<SpecExpr>),
    Expression(SpecExpr),
    Block(Seq<SpecStatement>),
    If {
        condition: SpecExpr,
        then_branch: Seq<SpecStatement>,
        else_branch: Option<Seq<SpecStatement>>,
    },
    While { condition: SpecExpr, body: Seq<SpecStatement> },
}

/// A node of the tree. The root of a parsed text is a `Program`.
#[derive(Debug, PartialEq)]
pub enum ASTNode {
    Program(Vec<ASTNode>),
    VariableDeclaration { name: String, data_type: Type, initializer: Option<Box<Expr>> },
    FunctionDeclaration {
        name: String,
        parameters: Vec<Parameter>,
        return_type: Type,
        body: Vec<Statement>,
    },
    Expression(Expr),
    Statement(Statement),
}

/// Model of [`ASTNode`].
pub enum SpecNode {
    Program(Seq<SpecNode>),
    VariableDeclaration { name: Seq<char>, data_type: SpecType, initializer: Option<SpecExpr> },
    FunctionDeclaration {
        name: Seq<char>,
        parameters: Seq<SpecParameter>,
        return_type: SpecType,
        body: Seq<SpecStatement>,
    },
    Expression(SpecExpr),
    Statement(SpecStatement),
}

/// The model of a type.
pub open spec fn type_model(t: Type) -> SpecType
    decreases t,
{
    match t {
        Type::Int => SpecType::Int,
        Type::Char => SpecType::Char,
        Type::Float => SpecType::Float,
        Type::Double => SpecType::Double,
        Type::Bool => SpecType::Bool,
        Type::Void => SpecType::Void,
        Type::Auto => SpecType::Auto,
        Type::Pointer(inner) => SpecType::Pointer(Box::new(type_model(*inner))),
        Type::Array(inner, size) => SpecType::Array(Box::new(type_model(*inner)), size),
        Type::Custom(name) => SpecType::Custom(name@),
    }
}

/// The model of an expression.
pub open spec fn expr_model(e: Expr) -> SpecExpr
    decreases e,
{
    match e {
        Expr::Identifier(name) => SpecExpr::Identifier(name@),
        Expr::IntegerLiteral(value) => SpecExpr::IntegerLiteral(value),
        Expr::StringLiteral(value) => SpecExpr::StringLiteral(value@),
        Expr::BinaryOp { left, operator, right } => SpecExpr::BinaryOp {
            left: Box::new(expr_model(*left)),
            operator,
            right: Box::new(expr_model(*right)),
        },
        Expr::UnaryOp { operator, operand } => SpecExpr::UnaryOp {
            operator,
            operand: Box::new(expr_model(*operand)),
        },
        Expr::FunctionCall { name, arguments } => SpecExpr::FunctionCall {
            name: name@,
            arguments: Seq::new(
                arguments@.len(),
                |i: int|
                    if 0 <= i < arguments@.len() {
                        expr_model(arguments@[i])
                    } else {
                        SpecExpr::IntegerLiteral(0)
                    },
            ),
        },
    }
}

/// The models of a list of statements, in order.
pub open spec fn statements_model(list: Seq<Statement>) -> Seq<SpecStatement>
    decreases list, 1int,
{
    Seq::new(
        list.len(),
        |i: int|
            if 0 <= i < list.len() {
                statement_model(list[i])
            } else {
                SpecStatement::Return(None)
            },
    )
}

/// The model of a statement.
pub open spec fn statement_model(s: Statement) -> SpecStatement
    decreases s, 0int,
{
    match s {
        Statement::Return(value) => SpecStatement::Return(
            match value {
                Some(e) => Some(expr_model(e)),
                None => None,
            },
        ),
        Statement::Expression(e) => SpecStatement::Expression(expr_model(e)),
        Statement::Block(list) => SpecStatement::Block(statements_model(list@)),
        Statement::If { condition, then_branch, else_branch } => SpecStatement::If {
            condition: expr_model(condition),
            then_branch: statements_model(then_branch@),
            else_branch: match else_branch {
                Some(list) => Some(statements_model(list@)),
                None => None,
            },
        },
        Statement::While { condition, body } => SpecStatement::While {
            condition: expr_model(condition),
            body: statements_model(body@),
        },
    }
}

/// The model of a node.
pub open spec fn node_model(n: ASTNode) -> SpecNode
    decreases n,
{
    match n {
        ASTNode::Program(nodes) => SpecNode::Program(
            Seq::new(
                nodes@.len(),
                |i: int|
                    if 0 <= i < nodes@.len() {
                        node_model(nodes@[i])
                    } else {
                        SpecNode::Program(Seq::empty())
                    },
            ),
        ),
        ASTNode::VariableDeclaration { name, data_type, initializer } => {
            SpecNode::VariableDeclaration {
                name: name@,
                data_type: data_type@,
                initializer: match initializer {
                    Some(e) => Some(expr_model(*e)),
                    None => None,
                },
            }
        },
        ASTNode::FunctionDeclaration { name, parameters, return_type, body } => {
            SpecNode::FunctionDeclaration {
                name: name@,
                parameters: parameters@.map_values(|p: Parameter| p@),
                return_type: return_type@,
                body: statements_model(body@),
            }
        },
        ASTNode::Expression(e) => SpecNode::Expression(expr_model(e)),
        ASTNode::Statement(s) => SpecNode::Statement(statement_model(s)),
    }
}

impl View for Type {
    type V = SpecType;

    open spec fn view(&self) -> SpecType {
        type_model(*self)
    }
}

impl View for Parameter {
    type V = SpecParameter;

    open spec fn view(&self) -> SpecParameter {
        SpecParameter { name: self.name@, param_type: self.param_type@ }
    }
}

impl View for Expr {
    type V = SpecExpr;

    open spec fn view(&self) -> SpecExpr {
        expr_model(*self)
    }
}

impl View for Statement {
    type V = SpecStatement;

    open spec fn view(&self) -> SpecStatement {
        statement_model(*self)
    }
}

impl View for ASTNode {
    type V = SpecNode;

    open spec fn view(&self) -> SpecNode {
        node_model(*self)
    }
}

impl ASTNode {
    /// A variable declaration node.
    pub fn new_variable_declaration(name: String, data_type: Type, initializer: Option<Expr>) -> (r:
        Self)
        ensures
            r@ == (SpecNode::VariableDeclaration {
                name: name@,
                data_type: data_type@,
                initializer: match initializer {
                    Some(e) => Some(e@),
                    None => None,
                },
            }),
    {
        let boxed = match initializer {
            Some(e) => Some(Box::new(e)),
            None => None,
        };
        ASTNode::VariableDeclaration { name, data_type, initializer: boxed }
    }

    /// A function declaration node.
    pub fn new_function_declaration(
        name: String,
        parameters: Vec<Parameter>,
        return_type: Type,
        body: Vec<Statement>,
    ) -> (r: Self)
        ensures
            r@ == (SpecNode::FunctionDeclaration {
                name: name@,
                parameters: parameters@.map_values(|p: Parameter| p@),
                return_type: return_type@,
                body: statements_model(body@),
            }),
    {
        ASTNode::FunctionDeclaration { name, parameters, return_type, body }
    }
}

/// The name of a type as diagnostics and the symbol table write it.
pub open spec fn name_of_type(t: SpecType) -> Seq<char>
    decreases t,
{
    match t {
        SpecType::Int => "int"@,
        SpecType::Char => "char"@,
        SpecType::Float => "float"@,
        SpecType::Double => "double"@,
        SpecType::Bool => "bool"@,
        SpecType::Void => "void"@,
        SpecType::Auto => "auto"@,
        SpecType::Pointer(inner) => "ptr("@ + name_of_type(*inner) + ")"@,
        SpecType::Array(inner, size) => "array("@ + name_of_type(*inner) + ", "@ + decimal(
            size as int,
        ) + ")"@,
        SpecType::Custom(name) => name,
    }
}

/// The name of a binary operator: that of its variant.
pub open spec fn binary_operator_name(op: BinaryOperator) -> Seq<char> {
    match op {
        BinaryOperator::Add => "Add"@,
        BinaryOperator::Sub => "Sub"@,
        BinaryOperator::Mul => "Mul"@,
        BinaryOperator::Div => "Div"@,
        BinaryOperator::Mod => "Mod"@,
        BinaryOperator::Eq => "Eq"@,
        BinaryOperator::Ne => "Ne"@,
        BinaryOperator::Lt => "Lt"@,
        BinaryOperator::Le => "Le"@,
        BinaryOperator::Gt => "Gt"@,
        BinaryOperator::Ge => "Ge"@,
        BinaryOperator::And => "And"@,
        BinaryOperator::Or => "Or"@,
    }
}

/// A binary operator as the source writes it.
pub open spec fn binary_operator_symbol(op: BinaryOperator) -> Seq<char> {
    match op {
        BinaryOperator::Add => "+"@,
        BinaryOperator::Sub => "-"@,
        BinaryOperator::Mul => "*"@,
        BinaryOperator::Div => "/"@,
        BinaryOperator::Mod => "%"@,
        BinaryOperator::Eq => "=="@,
        BinaryOperator::Ne => "!="@,
        BinaryOperator::Lt => "<"@,
        BinaryOperator::Le => "<="@,
        BinaryOperator::Gt => ">"@,
        BinaryOperator::Ge => ">="@,
        BinaryOperator::And => "&&"@,
        BinaryOperator::Or => "||"@,
    }
}

/// The name of a prefix operator: that of its variant.
pub open spec fn unary_operator_name(op: UnaryOperator) -> Seq<char> {
    match op {
        UnaryOperator::Neg => "Neg"@,
        UnaryOperator::Not => "Not"@,
        UnaryOperator::AddrOf => "AddrOf"@,
        UnaryOperator::Deref => "Deref"@,
    }
}

/// A prefix operator as the source writes it.
pub open spec fn unary_operator_symbol(op: UnaryOperator) -> Seq<char> {
    match op {
        UnaryOperator::Neg => "-"@,
        UnaryOperator::Not => "!"@,
        UnaryOperator::AddrOf => "&"@,
        UnaryOperator::Deref => "*"@,
    }
}

impl BinaryOperator {
    /// The name of the operator: see [`binary_operator_name`].
    pub fn name(&self) -> (r: &'static str)
        ensures
            r@ == binary_operator_name(*self),
    {
        match self {
            BinaryOperator::Add => "Add",
            BinaryOperator::Sub => "Sub",
            BinaryOperator::Mul => "Mul",
            BinaryOperator::Div => "Div",
            BinaryOperator::Mod => "Mod",
            BinaryOperator::Eq => "Eq",
            BinaryOperator::Ne => "Ne",
            BinaryOperator::Lt => "Lt",
            BinaryOperator::Le => "Le",
            BinaryOperator::Gt => "Gt",
            BinaryOperator::Ge => "Ge",
            BinaryOperator::And => "And",
            BinaryOperator::Or => "Or",
        }
    }

    /// The operator as the source writes it: see
    /// [`binary_operator_symbol`].
    pub fn symbol(&self) -> (r: &'static str)
        ensures
            r@ == binary_operator_symbol(*self),
    {
        match self {
            BinaryOperator::Add => "+",
            BinaryOperator::Sub => "-",
            BinaryOperator::Mul => "*",
            BinaryOperator::Div => "/",
            BinaryOperator::Mod => "%",
            BinaryOperator::Eq => "==",
            BinaryOperator::Ne => "!=",
            BinaryOperator::Lt => "<",
            BinaryOperator::Le => "<=",
            BinaryOperator::Gt => ">",
            BinaryOperator::Ge => ">=",
            BinaryOperator::And => "&&",
            BinaryOperator::Or => "||",
        }
    }
}

impl UnaryOperator {
    /// The name of the operator: see [`unary_operator_name`].
    pub fn name(&self) -> (r: &'static str)
        ensures
            r@ == unary_operator_name(*self),
    {
        match self {
            UnaryOperator::Neg => "Neg",
            UnaryOperator::Not => "Not",
            UnaryOperator::AddrOf => "AddrOf",
            UnaryOperator::Deref => "Deref",
        }
    }

    /// The operator as the source writes it: see
    /// [`unary_operator_symbol`].
    pub fn symbol(&self) -> (r: &'static str)
        ensures
            r@ == unary_operator_symbol(*self),
    {
        match self {
            UnaryOperator::Neg => "-",
            UnaryOperator::Not => "!",
            UnaryOperator::AddrOf => "&",
            UnaryOperator::Deref => "*",
        }
    }
}

impl Type {
    /// The name of the type: see [`name_of_type`].
    pub fn name(&self) -> (r: String)
        ensures
            r@ == name_of_type(self@),
        decreases self,
    {
        match self {
            Type::Int => String::from_str("int"),
            Type::Char => String::from_str("char"),
            Type::Float => String::from_str("float"),
            Type::Double => String::from_str("double"),
            Type::Bool => String::from_str("bool"),
            Type::Void => String::from_str("void"),
            Type::Auto => String::from_str("auto"),
            Type::Pointer(inner) => {
                let mut s = String::from_str("ptr(");
                let inner_name = inner.name();
                s.append(inner_name.as_str());
                s.append(")");
                s
            },
            Type::Array(inner, size) => {
                let mut s = String::from_str("array(");
                let inner_name = inner.name();
                s.append(inner_name.as_str());
                s.append(", ");
                let n = size_string(*size);
                s.append(n.as_str());
                s.append(")");
                s
            },
            Type::Custom(name) => name.clone(),
        }
    }
}

impl Clone for Type {
    fn clone(&self) -> (r: Self)
        ensures
            r@ == self@,
        decreases self,
    {
        match self {
            Type::Int => Type::Int,
            Type::Char => Type::Char,
            Type::Float => Type::Float,
            Type::Double => Type::Double,
            Type::Bool => Type::Bool,
            Type::Void => Type::Void,
            Type::Auto => Type::Auto,
            Type::Pointer(inner) => Type::Pointer(Box::new((**inner).clone())),
            Type::Array(inner, size) => Type::Array(Box::new((**inner).clone()), *size),
            Type::Custom(name) => Type::Custom(name.clone()),
        }
    }
}

impl Clone for Parameter {
    fn clone(&self) -> (r: Self)
        ensures
            r@ == self@,
    {
        Parameter { name: self.name.clone(), param_type: self.param_type.clone() }
    }
}

impl Clone for Expr {
    #[verifier::loop_isolation(false)]
    fn clone(&self) -> (r: Self)
        ensures
            r@ == self@,
        decreases self,
    {
        match self {
            Expr::Identifier(name) => Expr::Identifier(name.clone()),
            Expr::IntegerLiteral(value) => Expr::IntegerLiteral(*value),
            Expr::StringLiteral(value) => Expr::StringLiteral(value.clone()),
            Expr::BinaryOp { left, operator, right } => Expr::BinaryOp {
                left: Box::new((**left).clone()),
                operator: *operator,
                right: Box::new((**right).clone()),
            },
            Expr::UnaryOp { operator, operand } => Expr::UnaryOp {
                operator: *operator,
                operand: Box::new((**operand).clone()),
            },
            Expr::FunctionCall { name, arguments } => {
                let mut list: Vec<Expr> = Vec::new();
                let mut i: usize = 0;
                while i < arguments.len()
                    invariant
                        i <= arguments.len(),
                        list@.len() == i,
                        forall|j: int| 0 <= j < i ==> (#[trigger] list@[j])@ == arguments@[j]@,
                    decreases arguments.len() - i,
                {
                    list.push(arguments[i].clone());
                    i += 1;
                }
                let r = Expr::FunctionCall { name: name.clone(), arguments: list };
                proof {
                    assert(r@->arguments =~= self@->arguments);
                }
                r
            },
        }
    }
}

/// A copy of a list of statements.
#[verifier::loop_isolation(false)]
fn clone_statements(list: &Vec<Statement>) -> (r: Vec<Statement>)
    ensures
        statements_model(r@) == statements_model(list@),
    decreases list, 1int,
{
    let mut out: Vec<Statement> = Vec::new();
    let mut i: usize = 0;
    while i < list.len()
        invariant
            i <= list.len(),
            out@.len() == i,
            forall|j: int| 0 <= j < i ==> (#[trigger] out@[j])@ == list@[j]@,
        decreases list.len() - i,
    {
        out.push(list[i].clone());
        i += 1;
    }
    proof {
        assert(statements_model(out@) =~= statements_model(list@));
    }
    out
}

impl Clone for Statement {
    fn clone(&self) -> (r: Self)
        ensures
            r@ == self@,
        decreases self, 0int,
    {
        match self {
            Statement::Return(Some(e)) => Statement::Return(Some(e.clone())),
            Statement::Return(None) => Statement::Return(None),
            Statement::Expression(e) => Statement::Expression(e.clone()),
            Statement::Block(list) => Statement::Block(clone_statements(list)),
            Statement::If { condition, then_branch, else_branch } => Statement::If {
                condition: condition.clone(),
                then_branch: clone_statements(then_branch),
                else_branch: match else_branch {
                    Some(list) => Some(clone_statements(list)),
                    None => None,
                },
            },
            Statement::While { condition, body } => Statement::While {
                condition: condition.clone(),
                body: clone_statements(body),
            },
        }
    }
}

impl Clone for ASTNode {
    #[verifier::loop_isolation(false)]
    fn clone(&self) -> (r: Self)
        ensures
            r@ == self@,
        decreases self,
    {
        match self {
            ASTNode::Program(nodes) => {
                let mut list: Vec<ASTNode> = Vec::new();
                let mut i: usize = 0;
                while i < nodes.len()
                    invariant
                        i <= nodes.len(),
                        list@.len() == i,
                        forall|j: int| 0 <= j < i ==> (#[trigger] list@[j])@ == nodes@[j]@,
                    decreases nodes.len() - i,
                {
                    list.push(nodes[i].clone());
                    i += 1;
                }
                let r = ASTNode::Program(list);
                proof {
                    assert(r@->Program_0 =~= self@->Program_0);
                }
                r
            },
            ASTNode::VariableDeclaration { name, data_type, initializer } => {
                ASTNode::VariableDeclaration {
                    name: name.clone(),
                    data_type: data_type.clone(),
                    initializer: match initializer {
                        Some(e) => Some(Box::new((**e).clone())),
                        None => None,
                    },
                }
            },
            ASTNode::FunctionDeclaration { name, parameters, return_type, body } => {
                let mut list: Vec<Parameter> = Vec::new();
                let mut i: usize = 0;
                while i < parameters.len()
                    invariant
                        i <= parameters.len(),
                        list@.len() == i,
                        forall|j: int| 0 <= j < i ==> (#[trigger] list@[j])@ == parameters@[j]@,
                    decreases parameters.len() - i,
                {
                    list.push(parameters[i].clone());
                    i += 1;
                }
                let r = ASTNode::FunctionDeclaration {
                    name: name.clone(),
                    parameters: list,
                    return_type: return_type.clone(),
                    body: clone_statements(body),
                };
                proof {
                    assert(r@->parameters =~= self@->parameters);
                }
                r
            },
            ASTNode::Expression(e) => ASTNode::Expression(e.clone()),
            ASTNode::Statement(s) => ASTNode::Statement(s.clone()),
        }
    }
}

} // verus!
