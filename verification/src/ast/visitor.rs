//! A visitor over the tree, and one that prints it.
//!
//! The visitor has one method for each kind of node. `PrintVisitor` gives
//! each node a one-line description; the statements of a block, a branch or
//! a loop body stand on lines of their own.

use crate::ast::node::{
    binary_operator_symbol, name_of_type, statements_model, unary_operator_symbol, ASTNode,
    BinaryOperator, Expr, Parameter, SpecExpr, SpecNode, SpecParameter, SpecStatement, SpecType,
    Statement, Type, UnaryOperator,
};
use crate::text::{
    decimal, decimal_string, indentation, indentation_string, join, lemma_join_step, push_joined,
};
use vstd::prelude::*;
use vstd::string::StringExecFns;

verus! {

/// One method for each kind of node.
pub trait ASTVisitor {
    type Output;

    fn visit_program(&mut self, nodes: &[ASTNode]) -> Self::Output;

    fn visit_variable_declaration(
        &mut self,
        name: &str,
        data_type: &Type,
        initializer: &Option<Box<Expr>>,
    ) -> Self::Output;

    fn visit_function_declaration(
        &mut self,
        name: &str,
        parameters: &[Parameter],
        return_type: &Type,
        body: &[Statement],
    ) -> Self::Output;

    fn visit_expression(&mut self, expr: &Expr) -> Self::Output;

    fn visit_statement(&mut self, stmt: &Statement) -> Self::Output;

    fn visit_binary_op(&mut self, left: &Expr, op: &BinaryOperator, right: &Expr) -> Self::Output;

    fn visit_unary_op(&mut self, op: &UnaryOperator, operand: &Expr) -> Self::Output;
}

/// The descriptions of a list of expressions.
pub open spec fn expressions_print(list: Seq<SpecExpr>) -> Seq<Seq<char>>
    decreases list, 1int,
{
    Seq::new(
        list.len(),
        |i: int|
            if 0 <= i < list.len() {
                expression_print(list[i])
            } else {
                Seq::empty()
            },
    )
}

/// The description of a binary operation on two described operands.
pub open spec fn binary_print(left: Seq<char>, op: BinaryOperator, right: Seq<char>) -> Seq<char> {
    "BinaryOp("@ + left + " "@ + binary_operator_symbol(op) + " "@ + right + ")"@
}

/// The description of a prefix operation on a described operand.
pub open spec fn unary_print(op: UnaryOperator, operand: Seq<char>) -> Seq<char> {
    "UnaryOp("@ + unary_operator_symbol(op) + operand + ")"@
}

/// The description of an expression.
pub open spec fn expression_print(e: SpecExpr) -> Seq<char>
    decreases e, 0int,
{
    match e {
        SpecExpr::Identifier(name) => "Identifier("@ + name + ")"@,
        SpecExpr::IntegerLiteral(value) => "IntegerLiteral("@ + decimal(value as int) + ")"@,
        SpecExpr::StringLiteral(value) => "StringLiteral("@ + value + ")"@,
        SpecExpr::BinaryOp { left, operator, right } => binary_print(
            expression_print(*left),
            operator,
            expression_print(*right),
        ),
        SpecExpr::UnaryOp { operator, operand } => unary_print(
            operator,
            expression_print(*operand),
        ),
        SpecExpr::FunctionCall { name, arguments } => "FunctionCall("@ + name + "("@ + join(
            expressions_print(arguments),
            ", "@,
        ) + "))"@,
    }
}

/// The descriptions of a list of statements, each after the indentation.
pub open spec fn statements_print(list: Seq<SpecStatement>, pad: Seq<char>) -> Seq<Seq<char>>
    decreases list, 1int,
{
    Seq::new(
        list.len(),
        |i: int|
            if 0 <= i < list.len() {
                pad + statement_print(list[i], pad)
            } else {
                Seq::empty()
            },
    )
}

/// The statements of a block, a branch or a loop body between braces.
pub open spec fn braces_print(list: Seq<SpecStatement>, pad: Seq<char>) -> Seq<char>
    decreases list, 2int,
{
    "{\n"@ + pad + join(statements_print(list, pad), "\n"@) + "\n"@ + pad + "}"@
}

/// The description of a statement, at the indentation `pad`.
pub open spec fn statement_print(s: SpecStatement, pad: Seq<char>) -> Seq<char>
    decreases s, 0int,
{
    match s {
        SpecStatement::Return(Some(e)) => "Return("@ + expression_print(e) + ")"@,
        SpecStatement::Return(None) => "Return"@,
        SpecStatement::Expression(e) => "ExpressionStmt("@ + expression_print(e) + ")"@,
        SpecStatement::Block(list) => "Block "@ + braces_print(list, pad),
        SpecStatement::If { condition, then_branch, else_branch } => "If("@ + expression_print(
            condition,
        ) + ") "@ + braces_print(then_branch, pad) + match else_branch {
            Some(list) => " Else "@ + braces_print(list, pad),
            None => Seq::empty(),
        },
        SpecStatement::While { condition, body } => "While("@ + expression_print(condition)
            + ") "@ + braces_print(body, pad),
    }
}

/// The description of a parameter: its name, a colon and its type.
pub open spec fn parameter_print(p: SpecParameter) -> Seq<char> {
    p.name + ": "@ + name_of_type(p.param_type)
}

/// The description of a variable declaration.
pub open spec fn variable_print(
    name: Seq<char>,
    data_type: SpecType,
    initializer: Option<SpecExpr>,
) -> Seq<char> {
    "VariableDeclaration: "@ + name + " "@ + name_of_type(data_type) + match initializer {
        Some(e) => " = "@ + expression_print(e),
        None => Seq::empty(),
    }
}

/// The description of a function declaration; the body is not shown.
pub open spec fn function_print(
    name: Seq<char>,
    parameters: Seq<SpecParameter>,
    return_type: SpecType,
) -> Seq<char> {
    "FunctionDeclaration: "@ + name + "("@ + join(
        parameters.map_values(|p: SpecParameter| parameter_print(p)),
        ", "@,
    ) + ") -> "@ + name_of_type(return_type) + " { ... }"@
}

/// The descriptions of the first `upto` nodes of a program, each after the
/// indentation and followed by a line feed.
pub open spec fn program_print(list: Seq<SpecNode>, pad: Seq<char>, upto: int) -> Seq<char>
    decreases list, upto,
{
    if upto <= 0 || upto > list.len() {
        Seq::empty()
    } else {
        program_print(list, pad, upto - 1) + pad + node_print(list[upto - 1], pad) + "\n"@
    }
}

/// The description of a node, at the indentation `pad`.
pub open spec fn node_print(n: SpecNode, pad: Seq<char>) -> Seq<char>
    decreases n, 0int,
{
    match n {
        SpecNode::Program(nodes) => "Program:\n"@ + program_print(nodes, pad, nodes.len() as int),
        SpecNode::VariableDeclaration { name, data_type, initializer } => variable_print(
            name,
            data_type,
            initializer,
        ),
        SpecNode::FunctionDeclaration { name, parameters, return_type, body } => function_print(
            name,
            parameters,
            return_type,
        ),
        SpecNode::Expression(e) => expression_print(e),
        SpecNode::Statement(s) => statement_print(s, pad),
    }
}

/// Prints a tree.
pub struct PrintVisitor {
    indent_level: usize,
}

impl PrintVisitor {
    /// The indentation of the visitor, in levels of two spaces.
    pub closed spec fn level(&self) -> nat {
        self.indent_level as nat
    }

    /// A visitor that prints without indentation.
    pub fn new() -> (r: Self)
        ensures
            r.level() == 0,
    {
        PrintVisitor { indent_level: 0 }
    }

    /// The indentation: see [`indentation`].
    pub fn indent(&self) -> (r: String)
        ensures
            r@ == indentation(self.level()),
    {
        indentation_string(self.indent_level)
    }

    /// The name of a type: see [`name_of_type`].
    pub fn visit_type(&mut self, ty: &Type) -> (r: String)
        ensures
            final(self).level() == old(self).level(),
            r@ == name_of_type(ty@),
    {
        ty.name()
    }

    /// The descriptions of a list of expressions, with a comma and a space
    /// between them.
    fn print_expressions(list: &Vec<Expr>) -> (r: String)
        ensures
            r@ == join(expressions_print(list@.map_values(|e: Expr| e@)), ", "@),
        decreases list, 1int,
    {
        let ghost parts = expressions_print(list@.map_values(|e: Expr| e@));
        let mut out = String::new();
        let mut i: usize = 0;
        while i < list.len()
            invariant
                i <= list.len(),
                parts == expressions_print(list@.map_values(|e: Expr| e@)),
                out@ == join(parts.take(i as int), ", "@),
            decreases list.len() - i,
        {
            let part = Self::print_expression(&list[i]);
            push_joined(&mut out, i, ", ", part.as_str());
            proof {
                lemma_join_step(parts, ", "@, i as int);
                assert(parts[i as int] == part@);
                assert(out@ =~= join(parts.take(i + 1), ", "@));
            }
            i += 1;
        }
        proof {
            assert(parts.take(list.len() as int) =~= parts);
        }
        out
    }

    fn print_binary(left: &str, op: &BinaryOperator, right: &str) -> (r: String)
        ensures
            r@ == binary_print(left@, *op, right@),
    {
        let mut s = String::from_str("BinaryOp(");
        s.append(left);
        s.append(" ");
        s.append(op.symbol());
        s.append(" ");
        s.append(right);
        s.append(")");
        s
    }

    fn print_unary(op: &UnaryOperator, operand: &str) -> (r: String)
        ensures
            r@ == unary_print(*op, operand@),
    {
        let mut s = String::from_str("UnaryOp(");
        s.append(op.symbol());
        s.append(operand);
        s.append(")");
        s
    }

    /// The description of an expression: see [`expression_print`].
    pub fn print_expression(expr: &Expr) -> (r: String)
        ensures
            r@ == expression_print(expr@),
        decreases expr, 0int,
    {
        match expr {
            Expr::Identifier(name) => {
                let mut s = String::from_str("Identifier(");
                s.append(name.as_str());
                s.append(")");
                s
            },
            Expr::IntegerLiteral(value) => {
                let mut s = String::from_str("IntegerLiteral(");
                let n = decimal_string(*value);
                s.append(n.as_str());
                s.append(")");
                s
            },
            Expr::StringLiteral(value) => {
                let mut s = String::from_str("StringLiteral(");
                s.append(value.as_str());
                s.append(")");
                s
            },
            Expr::BinaryOp { left, operator, right } => {
                let l = Self::print_expression(left);
                let r = Self::print_expression(right);
                Self::print_binary(l.as_str(), operator, r.as_str())
            },
            Expr::UnaryOp { operator, operand } => {
                let o = Self::print_expression(operand);
                Self::print_unary(operator, o.as_str())
            },
            Expr::FunctionCall { name, arguments } => {
                let mut s = String::from_str("FunctionCall(");
                s.append(name.as_str());
                s.append("(");
                let list = Self::print_expressions(arguments);
                proof {
                    assert(arguments@.map_values(|e: Expr| e@) =~= expr@->arguments);
                }
                s.append(list.as_str());
                s.append("))");
                s
            },
        }
    }

    /// The descriptions of a list of statements, each after the indentation,
    /// with a line feed between them.
    fn print_statements(&self, list: &Vec<Statement>) -> (r: String)
        ensures
            r@ == join(
                statements_print(statements_model(list@), indentation(self.level())),
                "\n"@,
            ),
        decreases list, 1int,
    {
        let ghost pad = indentation(self.level());
        let ghost parts = statements_print(statements_model(list@), pad);
        let mut out = String::new();
        let mut i: usize = 0;
        while i < list.len()
            invariant
                i <= list.len(),
                pad == indentation(self.level()),
                parts == statements_print(statements_model(list@), pad),
                out@ == join(parts.take(i as int), "\n"@),
            decreases list.len() - i,
        {
            let mut part = self.indent();
            let text = self.print_statement(&list[i]);
            part.append(text.as_str());
            push_joined(&mut out, i, "\n", part.as_str());
            proof {
                lemma_join_step(parts, "\n"@, i as int);
                assert(statements_model(list@)[i as int] == list@[i as int]@);
                assert(parts[i as int] == part@);
                assert(out@ =~= join(parts.take(i + 1), "\n"@));
            }
            i += 1;
        }
        proof {
            assert(parts.take(list.len() as int) =~= parts);
        }
        out
    }

    /// Appends the statements of a block, a branch or a loop body between
    /// braces: see [`braces_print`].
    fn push_braces(&self, out: &mut String, list: &Vec<Statement>)
        ensures
            final(out)@ == old(out)@ + braces_print(
                statements_model(list@),
                indentation(self.level()),
            ),
        decreases list, 2int,
    {
        let pad = self.indent();
        let inner = self.print_statements(list);
        let mut text = String::from_str("{\n");
        text.append(pad.as_str());
        text.append(inner.as_str());
        text.append("\n");
        text.append(pad.as_str());
        text.append("}");
        out.append(text.as_str());
    }

    /// The description of a statement: see [`statement_print`].
    pub fn print_statement(&self, stmt: &Statement) -> (r: String)
        ensures
            r@ == statement_print(stmt@, indentation(self.level())),
        decreases stmt, 0int,
    {
        match stmt {
            Statement::Return(Some(e)) => {
                let mut s = String::from_str("Return(");
                let inner = Self::print_expression(e);
                s.append(inner.as_str());
                s.append(")");
                s
            },
            Statement::Return(None) => String::from_str("Return"),
            Statement::Expression(e) => {
                let mut s = String::from_str("ExpressionStmt(");
                let inner = Self::print_expression(e);
                s.append(inner.as_str());
                s.append(")");
                s
            },
            Statement::Block(list) => {
                let mut s = String::from_str("Block ");
                self.push_braces(&mut s, list);
                s
            },
            Statement::If { condition, then_branch, else_branch } => {
                let mut s = String::from_str("If(");
                let c = Self::print_expression(condition);
                s.append(c.as_str());
                s.append(") ");
                self.push_braces(&mut s, then_branch);
                let ghost head = s@;
                match else_branch {
                    Some(list) => {
                        let mut tail = String::from_str(" Else ");
                        self.push_braces(&mut tail, list);
                        s.append(tail.as_str());
                    },
                    None => {
                        proof {
                            assert(s@ =~= head + Seq::<char>::empty());
                        }
                    },
                }
                s
            },
            Statement::While { condition, body } => {
                let mut s = String::from_str("While(");
                let c = Self::print_expression(condition);
                s.append(c.as_str());
                s.append(") ");
                self.push_braces(&mut s, body);
                s
            },
        }
    }

    /// The descriptions of a list of parameters, with a comma and a space
    /// between them.
    fn print_parameters(list: &[Parameter]) -> (r: String)
        ensures
            r@ == join(
                list@.map_values(|p: Parameter| p@).map_values(
                    |p: SpecParameter| parameter_print(p),
                ),
                ", "@,
            ),
    {
        let ghost parts = list@.map_values(|p: Parameter| p@).map_values(
            |p: SpecParameter| parameter_print(p),
        );
        let mut out = String::new();
        let mut i: usize = 0;
        while i < list.len()
            invariant
                i <= list.len(),
                parts == list@.map_values(|p: Parameter| p@).map_values(
                    |p: SpecParameter| parameter_print(p),
                ),
                out@ == join(parts.take(i as int), ", "@),
            decreases list.len() - i,
        {
            let mut part = list[i].name.clone();
            part.append(": ");
            let t = list[i].param_type.name();
            part.append(t.as_str());
            push_joined(&mut out, i, ", ", part.as_str());
            proof {
                lemma_join_step(parts, ", "@, i as int);
                assert(parts[i as int] == part@);
                assert(out@ =~= join(parts.take(i + 1), ", "@));
            }
            i += 1;
        }
        proof {
            assert(parts.take(list.len() as int) =~= parts);
        }
        out
    }

    /// The description of a variable declaration: see [`variable_print`].
    pub fn print_variable(name: &str, data_type: &Type, initializer: &Option<Box<Expr>>) -> (r:
        String)
        ensures
            r@ == variable_print(
                name@,
                data_type@,
                match *initializer {
                    Some(e) => Some(e@),
                    None => None,
                },
            ),
    {
        let mut s = String::from_str("VariableDeclaration: ");
        s.append(name);
        s.append(" ");
        let t = data_type.name();
        s.append(t.as_str());
        let ghost head = s@;
        match initializer {
            Some(e) => {
                let mut tail = String::from_str(" = ");
                let inner = Self::print_expression(e);
                tail.append(inner.as_str());
                s.append(tail.as_str());
            },
            None => {
                proof {
                    assert(s@ =~= head + Seq::<char>::empty());
                }
            },
        }
        s
    }

    /// The description of a function declaration: see [`function_print`].
    pub fn print_function(name: &str, parameters: &[Parameter], return_type: &Type) -> (r: String)
        ensures
            r@ == function_print(
                name@,
                parameters@.map_values(|p: Parameter| p@),
                return_type@,
            ),
    {
        let mut s = String::from_str("FunctionDeclaration: ");
        s.append(name);
        s.append("(");
        let p = Self::print_parameters(parameters);
        s.append(p.as_str());
        s.append(") -> ");
        let t = return_type.name();
        s.append(t.as_str());
        s.append(" { ... }");
        s
    }

    /// The description of a program: see [`node_print`].
    fn print_program(&self, nodes: &Vec<ASTNode>) -> (r: String)
        ensures
            r@ == "Program:\n"@ + program_print(
                nodes@.map_values(|n: ASTNode| n@),
                indentation(self.level()),
                nodes@.len() as int,
            ),
        decreases nodes, 1int,
    {
        let ghost pad = indentation(self.level());
        let ghost models = nodes@.map_values(|n: ASTNode| n@);
        let mut out = String::from_str("Program:\n");
        let mut i: usize = 0;
        proof {
            assert(out@ =~= "Program:\n"@ + program_print(models, pad, 0));
        }
        while i < nodes.len()
            invariant
                i <= nodes.len(),
                pad == indentation(self.level()),
                models == nodes@.map_values(|n: ASTNode| n@),
                out@ == "Program:\n"@ + program_print(models, pad, i as int),
            decreases nodes.len() - i,
        {
            let mut line = self.indent();
            let text = self.print_node(&nodes[i]);
            line.append(text.as_str());
            line.append("\n");
            out.append(line.as_str());
            proof {
                assert(out@ =~= "Program:\n"@ + program_print(models, pad, i + 1));
            }
            i += 1;
        }
        out
    }

    /// The description of a node: see [`node_print`].
    pub fn print_node(&self, node: &ASTNode) -> (r: String)
        ensures
            r@ == node_print(node@, indentation(self.level())),
        decreases node, 0int,
    {
        match node {
            ASTNode::Program(nodes) => {
                proof {
                    assert(nodes@.map_values(|n: ASTNode| n@) =~= node@->Program_0);
                }
                self.print_program(nodes)
            },
            ASTNode::VariableDeclaration { name, data_type, initializer } => Self::print_variable(
                name.as_str(),
                data_type,
                initializer,
            ),
            ASTNode::FunctionDeclaration { name, parameters, return_type, body } => {
                Self::print_function(name.as_str(), parameters.as_slice(), return_type)
            },
            ASTNode::Expression(e) => Self::print_expression(e),
            ASTNode::Statement(s) => self.print_statement(s),
        }
    }

    /// The description of a node: see [`node_print`].
    pub fn visit_node(&mut self, node: &ASTNode) -> (r: String)
        ensures
            final(self).level() == old(self).level(),
            r@ == node_print(node@, indentation(old(self).level())),
    {
        self.print_node(node)
    }
}

impl ASTVisitor for PrintVisitor {
    type Output = String;

    fn visit_program(&mut self, nodes: &[ASTNode]) -> (r: String)
        ensures
            final(self).level() == old(self).level(),
            r@ == "Program:\n"@ + program_print(
                nodes@.map_values(|n: ASTNode| n@),
                indentation(old(self).level()),
                nodes@.len() as int,
            ),
    {
        let ghost pad = indentation(self.level());
        let ghost models = nodes@.map_values(|n: ASTNode| n@);
        let mut out = String::from_str("Program:\n");
        let mut i: usize = 0;
        proof {
            assert(out@ =~= "Program:\n"@ + program_print(models, pad, 0));
        }
        while i < nodes.len()
            invariant
                i <= nodes.len(),
                *self == *old(self),
                pad == indentation(self.level()),
                models == nodes@.map_values(|n: ASTNode| n@),
                out@ == "Program:\n"@ + program_print(models, pad, i as int),
            decreases nodes.len() - i,
        {
            let mut line = self.indent();
            let text = self.print_node(&nodes[i]);
            line.append(text.as_str());
            line.append("\n");
            out.append(line.as_str());
            proof {
                assert(out@ =~= "Program:\n"@ + program_print(models, pad, i + 1));
            }
            i += 1;
        }
        out
    }

    fn visit_variable_declaration(
        &mut self,
        name: &str,
        data_type: &Type,
        initializer: &Option<Box<Expr>>,
    ) -> (r: String)
        ensures
            final(self).level() == old(self).level(),
            r@ == variable_print(
                name@,
                data_type@,
                match *initializer {
                    Some(e) => Some(e@),
                    None => None,
                },
            ),
    {
        Self::print_variable(name, data_type, initializer)
    }

    fn visit_function_declaration(
        &mut self,
        name: &str,
        parameters: &[Parameter],
        return_type: &Type,
        body: &[Statement],
    ) -> (r: String)
        ensures
            final(self).level() == old(self).level(),
            r@ == function_print(
                name@,
                parameters@.map_values(|p: Parameter| p@),
                return_type@,
            ),
    {
        Self::print_function(name, parameters, return_type)
    }

    fn visit_expression(&mut self, expr: &Expr) -> (r: String)
        ensures
            final(self).level() == old(self).level(),
            r@ == expression_print(expr@),
    {
        Self::print_expression(expr)
    }

    fn visit_statement(&mut self, stmt: &Statement) -> (r: String)
        ensures
            final(self).level() == old(self).level(),
            r@ == statement_print(stmt@, indentation(old(self).level())),
    {
        self.print_statement(stmt)
    }

    fn visit_binary_op(&mut self, left: &Expr, op: &BinaryOperator, right: &Expr) -> (r: String)
        ensures
            final(self).level() == old(self).level(),
            r@ == binary_print(expression_print(left@), *op, expression_print(right@)),
    {
        let l = Self::print_expression(left);
        let r = Self::print_expression(right);
        Self::print_binary(l.as_str(), op, r.as_str())
    }

    fn visit_unary_op(&mut self, op: &UnaryOperator, operand: &Expr) -> (r: String)
        ensures
            final(self).level() == old(self).level(),
            r@ == unary_print(*op, expression_print(operand@)),
    {
        let o = Self::print_expression(operand);
        Self::print_unary(op, o.as_str())
    }
}

} // verus!
