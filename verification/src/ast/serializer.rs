//! Two serializers of the tree: nested records in JSON notation, and an
//! indented text for people to read. Both are functions of the tree alone.
//!
//! Names and string literals are written as they are, without escapes.

use crate::ast::node::{
    binary_operator_name, binary_operator_symbol, name_of_type, statements_model,
    unary_operator_name, unary_operator_symbol, ASTNode, Expr, Parameter, SpecExpr, SpecNode,
    SpecParameter, SpecStatement, SpecType, Statement, Type,
};
use crate::text::{
    decimal, decimal_string, indent_continuation, indentation, indentation_string, join,
    lemma_join_step, prefixed_lines,
    push_indented, push_joined, push_prefixed_lines, size_string,
};
use vstd::prelude::*;
use vstd::string::StringExecFns;

verus! {

/// A serializer turns a tree into a value of its output type.
pub trait ASTSerializer {
    type Output;

    fn serialize(&mut self, ast: &ASTNode) -> Self::Output;
}

/// The record of a type.
pub open spec fn type_json(t: SpecType) -> Seq<char>
    decreases t,
{
    match t {
        SpecType::Int => "\"Int\""@,
        SpecType::Char => "\"Char\""@,
        SpecType::Float => "\"Float\""@,
        SpecType::Double => "\"Double\""@,
        SpecType::Bool => "\"Bool\""@,
        SpecType::Void => "\"Void\""@,
        SpecType::Auto => "\"Auto\""@,
        SpecType::Pointer(inner) => "{\"type\":\"Pointer\",\"inner\":"@ + type_json(*inner) + "}"@,
        SpecType::Array(inner, size) => "{\"type\":\"Array\",\"inner\":"@ + type_json(*inner)
            + ",\"size\":"@ + decimal(size as int) + "}"@,
        SpecType::Custom(name) => "{\"type\":\"Custom\",\"name\":\""@ + name + "\"}"@,
    }
}

/// The records of a list of expressions.
pub open spec fn expressions_json(list: Seq<SpecExpr>) -> Seq<Seq<char>>
    decreases list, 1int,
{
    Seq::new(
        list.len(),
        |i: int|
            if 0 <= i < list.len() {
                expression_json(list[i])
            } else {
                Seq::empty()
            },
    )
}

/// The record of an expression.
pub open spec fn expression_json(e: SpecExpr) -> Seq<char>
    decreases e, 0int,
{
    match e {
        SpecExpr::Identifier(name) => "{\"type\":\"Identifier\",\"name\":\""@ + name + "\"}"@,
        SpecExpr::IntegerLiteral(value) => "{\"type\":\"IntegerLiteral\",\"value\":"@ + decimal(
            value as int,
        ) + "}"@,
        SpecExpr::StringLiteral(value) => "{\"type\":\"StringLiteral\",\"value\":\""@ + value
            + "\"}"@,
        SpecExpr::BinaryOp { left, operator, right } => "{\"type\":\"BinaryOp\",\"operator\":\""@
            + binary_operator_name(operator) + "\",\"left\":"@ + expression_json(*left)
            + ",\"right\":"@ + expression_json(*right) + "}"@,
        SpecExpr::UnaryOp { operator, operand } => "{\"type\":\"UnaryOp\",\"operator\":\""@
            + unary_operator_name(operator) + "\",\"operand\":"@ + expression_json(*operand)
            + "}"@,
        SpecExpr::FunctionCall { name, arguments } => "{\"type\":\"FunctionCall\",\"name\":\""@
            + name + "\",\"arguments\":["@ + join(expressions_json(arguments), ","@) + "]}"@,
    }
}

/// The records of a list of statements.
pub open spec fn statements_json(list: Seq<SpecStatement>) -> Seq<Seq<char>>
    decreases list, 1int,
{
    Seq::new(
        list.len(),
        |i: int|
            if 0 <= i < list.len() {
                statement_json(list[i])
            } else {
                Seq::empty()
            },
    )
}

/// The record of a statement.
pub open spec fn statement_json(s: SpecStatement) -> Seq<char>
    decreases s, 0int,
{
    match s {
        SpecStatement::Return(Some(e)) => "{\"type\":\"Return\",\"expression\":"@
            + expression_json(e) + "}"@,
        SpecStatement::Return(None) => "{\"type\":\"Return\",\"expression\":null}"@,
        SpecStatement::Expression(e) => "{\"type\":\"ExpressionStatement\",\"expression\":"@
            + expression_json(e) + "}"@,
        SpecStatement::Block(list) => "{\"type\":\"Block\",\"statements\":["@ + join(
            statements_json(list),
            ","@,
        ) + "]}"@,
        SpecStatement::If { condition, then_branch, else_branch } => "{\"type\":\"If\",\"condition\":"@
            + expression_json(condition) + ",\"thenBranch\":["@ + join(
            statements_json(then_branch),
            ","@,
        ) + match else_branch {
            Some(list) => "],\"elseBranch\":["@ + join(statements_json(list), ","@),
            None => Seq::empty(),
        } + "]}"@,
        SpecStatement::While { condition, body } => "{\"type\":\"While\",\"condition\":"@
            + expression_json(condition) + ",\"body\":["@ + join(statements_json(body), ","@)
            + "]}"@,
    }
}

/// The record of a parameter.
pub open spec fn parameter_json(p: SpecParameter) -> Seq<char> {
    "{\"name\":\""@ + p.name + "\",\"type\":"@ + type_json(p.param_type) + "}"@
}

/// The records of a list of nodes.
pub open spec fn nodes_json(list: Seq<SpecNode>) -> Seq<Seq<char>>
    decreases list, 1int,
{
    Seq::new(
        list.len(),
        |i: int|
            if 0 <= i < list.len() {
                node_json(list[i])
            } else {
                Seq::empty()
            },
    )
}

/// The record of a node.
pub open spec fn node_json(n: SpecNode) -> Seq<char>
    decreases n, 0int,
{
    match n {
        SpecNode::Program(nodes) => "{\"type\":\"Program\",\"children\":["@ + join(
            nodes_json(nodes),
            ","@,
        ) + "]}"@,
        SpecNode::VariableDeclaration { name, data_type, initializer } => "{\"type\":\"VariableDeclaration\",\"name\":\""@
            + name + "\",\"dataType\":"@ + type_json(data_type) + ",\"initializer\":"@
            + match initializer {
            Some(e) => expression_json(e),
            None => "null"@,
        } + " }"@,
        SpecNode::FunctionDeclaration { name, parameters, return_type, body } => "{\"type\":\"FunctionDeclaration\",\"name\":\""@
            + name + "\",\"parameters\":["@ + join(
            parameters.map_values(|p: SpecParameter| parameter_json(p)),
            ","@,
        ) + "],\"returnType\":"@ + type_json(return_type) + ",\"body\":["@ + join(
            statements_json(body),
            ","@,
        ) + "]}"@,
        SpecNode::Expression(e) => expression_json(e),
        SpecNode::Statement(s) => statement_json(s),
    }
}

/// Writes a tree as nested records in JSON notation.
pub struct JSONSerializer;

impl JSONSerializer {
    /// A serializer; it keeps no state.
    pub fn new() -> Self {
        JSONSerializer
    }

    /// The record of a type: see [`type_json`].
    pub fn type_to_json(&self, ty: &Type) -> (r: String)
        ensures
            r@ == type_json(ty@),
        decreases ty,
    {
        match ty {
            Type::Int => String::from_str("\"Int\""),
            Type::Char => String::from_str("\"Char\""),
            Type::Float => String::from_str("\"Float\""),
            Type::Double => String::from_str("\"Double\""),
            Type::Bool => String::from_str("\"Bool\""),
            Type::Void => String::from_str("\"Void\""),
            Type::Auto => String::from_str("\"Auto\""),
            Type::Pointer(inner) => {
                let mut s = String::from_str("{\"type\":\"Pointer\",\"inner\":");
                let inner_text = self.type_to_json(inner);
                s.append(inner_text.as_str());
                s.append("}");
                s
            },
            Type::Array(inner, size) => {
                let mut s = String::from_str("{\"type\":\"Array\",\"inner\":");
                let inner_text = self.type_to_json(inner);
                s.append(inner_text.as_str());
                s.append(",\"size\":");
                let n = size_string(*size);
                s.append(n.as_str());
                s.append("}");
                s
            },
            Type::Custom(name) => {
                let mut s = String::from_str("{\"type\":\"Custom\",\"name\":\"");
                s.append(name.as_str());
                s.append("\"}");
                s
            },
        }
    }

    /// The records of a list of expressions, with commas between them.
    fn expressions_to_json(&self, list: &Vec<Expr>) -> (r: String)
        ensures
            r@ == join(expressions_json(list@.map_values(|e: Expr| e@)), ","@),
        decreases list, 1int,
    {
        let ghost parts = expressions_json(list@.map_values(|e: Expr| e@));
        let mut out = String::new();
        let mut i: usize = 0;
        while i < list.len()
            invariant
                i <= list.len(),
                parts == expressions_json(list@.map_values(|e: Expr| e@)),
                out@ == join(parts.take(i as int), ","@),
            decreases list.len() - i,
        {
            let part = self.expr_to_json(&list[i]);
            push_joined(&mut out, i, ",", part.as_str());
            proof {
                lemma_join_step(parts, ","@, i as int);
                assert(parts[i as int] == part@);
                assert(out@ =~= join(parts.take(i + 1), ","@));
            }
            i += 1;
        }
        proof {
            assert(parts.take(list.len() as int) =~= parts);
        }
        out
    }

    /// The record of an expression: see [`expression_json`].
    pub fn expr_to_json(&self, expr: &Expr) -> (r: String)
        ensures
            r@ == expression_json(expr@),
        decreases expr, 0int,
    {
        match expr {
            Expr::Identifier(name) => {
                let mut s = String::from_str("{\"type\":\"Identifier\",\"name\":\"");
                s.append(name.as_str());
                s.append("\"}");
                s
            },
            Expr::IntegerLiteral(value) => {
                let mut s = String::from_str("{\"type\":\"IntegerLiteral\",\"value\":");
                let n = decimal_string(*value);
                s.append(n.as_str());
                s.append("}");
                s
            },
            Expr::StringLiteral(value) => {
                let mut s = String::from_str("{\"type\":\"StringLiteral\",\"value\":\"");
                s.append(value.as_str());
                s.append("\"}");
                s
            },
            Expr::BinaryOp { left, operator, right } => {
                let mut s = String::from_str("{\"type\":\"BinaryOp\",\"operator\":\"");
                s.append(operator.name());
                s.append("\",\"left\":");
                let l = self.expr_to_json(left);
                s.append(l.as_str());
                s.append(",\"right\":");
                let r = self.expr_to_json(right);
                s.append(r.as_str());
                s.append("}");
                s
            },
            Expr::UnaryOp { operator, operand } => {
                let mut s = String::from_str("{\"type\":\"UnaryOp\",\"operator\":\"");
                s.append(operator.name());
                s.append("\",\"operand\":");
                let o = self.expr_to_json(operand);
                s.append(o.as_str());
                s.append("}");
                s
            },
            Expr::FunctionCall { name, arguments } => {
                let mut s = String::from_str("{\"type\":\"FunctionCall\",\"name\":\"");
                s.append(name.as_str());
                s.append("\",\"arguments\":[");
                let list = self.expressions_to_json(arguments);
                proof {
                    assert(arguments@.map_values(|e: Expr| e@) =~= expr@->arguments);
                }
                s.append(list.as_str());
                s.append("]}");
                s
            },
        }
    }

    /// The records of a list of statements, with commas between them.
    fn statements_to_json(&self, list: &Vec<Statement>) -> (r: String)
        ensures
            r@ == join(statements_json(statements_model(list@)), ","@),
        decreases list, 1int,
    {
        let ghost parts = statements_json(statements_model(list@));
        let mut out = String::new();
        let mut i: usize = 0;
        while i < list.len()
            invariant
                i <= list.len(),
                parts == statements_json(statements_model(list@)),
                out@ == join(parts.take(i as int), ","@),
            decreases list.len() - i,
        {
            let part = self.stmt_to_json(&list[i]);
            push_joined(&mut out, i, ",", part.as_str());
            proof {
                lemma_join_step(parts, ","@, i as int);
                assert(parts[i as int] == part@);
                assert(out@ =~= join(parts.take(i + 1), ","@));
            }
            i += 1;
        }
        proof {
            assert(parts.take(list.len() as int) =~= parts);
        }
        out
    }

    /// The record of a statement: see [`statement_json`].
    pub fn stmt_to_json(&self, stmt: &Statement) -> (r: String)
        ensures
            r@ == statement_json(stmt@),
        decreases stmt, 0int,
    {
        match stmt {
            Statement::Return(Some(e)) => {
                let mut s = String::from_str("{\"type\":\"Return\",\"expression\":");
                let inner = self.expr_to_json(e);
                s.append(inner.as_str());
                s.append("}");
                s
            },
            Statement::Return(None) => String::from_str(
                "{\"type\":\"Return\",\"expression\":null}",
            ),
            Statement::Expression(e) => {
                let mut s = String::from_str("{\"type\":\"ExpressionStatement\",\"expression\":");
                let inner = self.expr_to_json(e);
                s.append(inner.as_str());
                s.append("}");
                s
            },
            Statement::Block(list) => {
                let mut s = String::from_str("{\"type\":\"Block\",\"statements\":[");
                let inner = self.statements_to_json(list);
                s.append(inner.as_str());
                s.append("]}");
                s
            },
            Statement::If { condition, then_branch, else_branch } => {
                let mut s = String::from_str("{\"type\":\"If\",\"condition\":");
                let c = self.expr_to_json(condition);
                s.append(c.as_str());
                s.append(",\"thenBranch\":[");
                let t = self.statements_to_json(then_branch);
                s.append(t.as_str());
                let ghost head = s@;
                match else_branch {
                    Some(list) => {
                        s.append("],\"elseBranch\":[");
                        let e = self.statements_to_json(list);
                        s.append(e.as_str());
                        proof {
                            let tail = "],\"elseBranch\":["@ + e@;
                            assert(s@ =~= head + tail);
                        }
                    },
                    None => {
                        proof {
                            assert(s@ =~= head + Seq::<char>::empty());
                        }
                    },
                }
                s.append("]}");
                s
            },
            Statement::While { condition, body } => {
                let mut s = String::from_str("{\"type\":\"While\",\"condition\":");
                let c = self.expr_to_json(condition);
                s.append(c.as_str());
                s.append(",\"body\":[");
                let b = self.statements_to_json(body);
                s.append(b.as_str());
                s.append("]}");
                s
            },
        }
    }

    /// The records of a list of parameters, with commas between them.
    fn parameters_to_json(&self, list: &Vec<Parameter>) -> (r: String)
        ensures
            r@ == join(
                list@.map_values(|p: Parameter| p@).map_values(
                    |p: SpecParameter| parameter_json(p),
                ),
                ","@,
            ),
    {
        let ghost parts = list@.map_values(|p: Parameter| p@).map_values(
            |p: SpecParameter| parameter_json(p),
        );
        let mut out = String::new();
        let mut i: usize = 0;
        while i < list.len()
            invariant
                i <= list.len(),
                parts == list@.map_values(|p: Parameter| p@).map_values(
                    |p: SpecParameter| parameter_json(p),
                ),
                out@ == join(parts.take(i as int), ","@),
            decreases list.len() - i,
        {
            let mut part = String::from_str("{\"name\":\"");
            part.append(list[i].name.as_str());
            part.append("\",\"type\":");
            let t = self.type_to_json(&list[i].param_type);
            part.append(t.as_str());
            part.append("}");
            push_joined(&mut out, i, ",", part.as_str());
            proof {
                lemma_join_step(parts, ","@, i as int);
                assert(parts[i as int] == part@);
                assert(out@ =~= join(parts.take(i + 1), ","@));
            }
            i += 1;
        }
        proof {
            assert(parts.take(list.len() as int) =~= parts);
        }
        out
    }

    /// The records of a list of nodes, with commas between them.
    fn nodes_to_json(&mut self, list: &Vec<ASTNode>) -> (r: String)
        ensures
            r@ == join(nodes_json(list@.map_values(|n: ASTNode| n@)), ","@),
        decreases list, 1int,
    {
        let ghost parts = nodes_json(list@.map_values(|n: ASTNode| n@));
        let mut out = String::new();
        let mut i: usize = 0;
        while i < list.len()
            invariant
                i <= list.len(),
                parts == nodes_json(list@.map_values(|n: ASTNode| n@)),
                out@ == join(parts.take(i as int), ","@),
            decreases list.len() - i,
        {
            let part = self.serialize_to_json(&list[i]);
            push_joined(&mut out, i, ",", part.as_str());
            proof {
                lemma_join_step(parts, ","@, i as int);
                assert(parts[i as int] == part@);
                assert(out@ =~= join(parts.take(i + 1), ","@));
            }
            i += 1;
        }
        proof {
            assert(parts.take(list.len() as int) =~= parts);
        }
        out
    }

    /// The record of a node: see [`node_json`].
    pub fn serialize_to_json(&mut self, ast: &ASTNode) -> (r: String)
        ensures
            r@ == node_json(ast@),
        decreases ast, 0int,
    {
        match ast {
            ASTNode::Program(nodes) => {
                let mut s = String::from_str("{\"type\":\"Program\",\"children\":[");
                let inner = self.nodes_to_json(nodes);
                proof {
                    assert(nodes@.map_values(|n: ASTNode| n@) =~= ast@->Program_0);
                }
                s.append(inner.as_str());
                s.append("]}");
                s
            },
            ASTNode::VariableDeclaration { name, data_type, initializer } => {
                let mut s = String::from_str("{\"type\":\"VariableDeclaration\",\"name\":\"");
                s.append(name.as_str());
                s.append("\",\"dataType\":");
                let t = self.type_to_json(data_type);
                s.append(t.as_str());
                s.append(",\"initializer\":");
                match initializer {
                    Some(e) => {
                        let inner = self.expr_to_json(e);
                        s.append(inner.as_str());
                    },
                    None => {
                        s.append("null");
                    },
                }
                s.append(" }");
                s
            },
            ASTNode::FunctionDeclaration { name, parameters, return_type, body } => {
                let mut s = String::from_str("{\"type\":\"FunctionDeclaration\",\"name\":\"");
                s.append(name.as_str());
                s.append("\",\"parameters\":[");
                let p = self.parameters_to_json(parameters);
                s.append(p.as_str());
                s.append("],\"returnType\":");
                let t = self.type_to_json(return_type);
                s.append(t.as_str());
                s.append(",\"body\":[");
                let b = self.statements_to_json(body);
                s.append(b.as_str());
                s.append("]}");
                s
            },
            ASTNode::Expression(e) => self.expr_to_json(e),
            ASTNode::Statement(s) => self.stmt_to_json(s),
        }
    }
}

impl ASTSerializer for JSONSerializer {
    type Output = String;

    fn serialize(&mut self, ast: &ASTNode) -> (r: String)
        ensures
            r@ == node_json(ast@),
    {
        self.serialize_to_json(ast)
    }
}

/// The texts of a list of expressions.
pub open spec fn expressions_text(list: Seq<SpecExpr>) -> Seq<Seq<char>>
    decreases list, 1int,
{
    Seq::new(
        list.len(),
        |i: int|
            if 0 <= i < list.len() {
                expression_text(list[i])
            } else {
                Seq::empty()
            },
    )
}

/// An expression as the source would write it, with every operation in
/// parentheses.
pub open spec fn expression_text(e: SpecExpr) -> Seq<char>
    decreases e, 0int,
{
    match e {
        SpecExpr::Identifier(name) => name,
        SpecExpr::IntegerLiteral(value) => decimal(value as int),
        SpecExpr::StringLiteral(value) => "\""@ + value + "\""@,
        SpecExpr::BinaryOp { left, operator, right } => "("@ + expression_text(*left) + " "@
            + binary_operator_symbol(operator) + " "@ + expression_text(*right) + ")"@,
        SpecExpr::UnaryOp { operator, operand } => "("@ + unary_operator_symbol(operator)
            + expression_text(*operand) + ")"@,
        SpecExpr::FunctionCall { name, arguments } => name + "("@ + join(
            expressions_text(arguments),
            ", "@,
        ) + ")"@,
    }
}

/// The first `upto` statements of a block, each on lines of its own that
/// are indented by two spaces.
pub open spec fn block_text(list: Seq<SpecStatement>, upto: int) -> Seq<char>
    decreases list, upto,
{
    if upto <= 0 || upto > list.len() {
        Seq::empty()
    } else {
        block_text(list, upto - 1) + "  "@ + indent_continuation(
            statement_text(list[upto - 1]),
            statement_text(list[upto - 1]).len() as int,
        ) + "\n"@
    }
}

/// The first `upto` statements of a branch or a loop body: the lines of
/// each, with `prefix` before every line.
pub open spec fn branch_text(list: Seq<SpecStatement>, prefix: Seq<char>, upto: int) -> Seq<char>
    decreases list, upto,
{
    if upto <= 0 || upto > list.len() {
        Seq::empty()
    } else {
        branch_text(list, prefix, upto - 1) + prefixed_lines(
            statement_text(list[upto - 1]),
            prefix,
        )
    }
}

/// The text of a statement. It ends with a line feed. The statements of a
/// branch or a loop body are indented by one level.
pub open spec fn statement_text(s: SpecStatement) -> Seq<char>
    decreases s, 0int,
{
    match s {
        SpecStatement::Return(Some(e)) => "RETURN: "@ + expression_text(e) + "\n"@,
        SpecStatement::Return(None) => "RETURN\n"@,
        SpecStatement::Expression(e) => "EXPR_STMT: "@ + expression_text(e) + "\n"@,
        SpecStatement::Block(list) => "{\n"@ + block_text(list, list.len() as int) + "}\n"@,
        SpecStatement::If { condition, then_branch, else_branch } => "IF ("@ + expression_text(
            condition,
        ) + ") {\n"@ + branch_text(then_branch, indentation(1), then_branch.len() as int) + match else_branch {
            Some(list) => "} ELSE {\n"@ + branch_text(list, indentation(1), list.len() as int),
            None => Seq::empty(),
        } + "}\n"@,
        SpecStatement::While { condition, body } => "WHILE ("@ + expression_text(condition)
            + ") {\n"@ + branch_text(body, indentation(1), body.len() as int) + "}\n"@,
    }
}

/// The text of a parameter: its name, a colon and its type.
pub open spec fn parameter_text(p: SpecParameter) -> Seq<char> {
    p.name + ": "@ + name_of_type(p.param_type)
}

/// The texts of the first `upto` nodes of a program, each followed by a
/// line feed.
pub open spec fn program_text(list: Seq<SpecNode>, upto: int) -> Seq<char>
    decreases list, upto,
{
    if upto <= 0 || upto > list.len() {
        Seq::empty()
    } else {
        program_text(list, upto - 1) + node_text(list[upto - 1]) + "\n"@
    }
}

/// The text of a node.
pub open spec fn node_text(n: SpecNode) -> Seq<char>
    decreases n, 0int,
{
    match n {
        SpecNode::Program(nodes) => "=== PROGRAM ===\n"@ + program_text(nodes, nodes.len() as int)
            + "=== END PROGRAM ===\n"@,
        SpecNode::VariableDeclaration { name, data_type, initializer } => "VAR_DECL: "@ + name
            + " : "@ + name_of_type(data_type) + match initializer {
            Some(e) => " = "@ + expression_text(e),
            None => Seq::empty(),
        } + "\n"@,
        SpecNode::FunctionDeclaration { name, parameters, return_type, body } => "FUNC_DECL: "@
            + name + "("@ + join(parameters.map_values(|p: SpecParameter| parameter_text(p)), ", "@)
            + ") -> "@ + name_of_type(return_type) + "\n"@ + "{\n"@ + block_text(
            body,
            body.len() as int,
        ) + "}\n"@,
        SpecNode::Expression(e) => "EXPR: "@ + expression_text(e) + "\n"@,
        SpecNode::Statement(s) => statement_text(s),
    }
}

/// Writes a tree as indented text.
pub struct TextSerializer;

impl TextSerializer {
    /// A serializer; it keeps no state.
    pub fn new() -> Self {
        TextSerializer
    }

    /// The name of a type: see [`name_of_type`].
    pub fn type_to_text(&self, ty: &Type) -> (r: String)
        ensures
            r@ == name_of_type(ty@),
    {
        ty.name()
    }

    /// The texts of a list of expressions, with a comma and a space between
    /// them.
    fn expressions_to_text(&self, list: &Vec<Expr>) -> (r: String)
        ensures
            r@ == join(expressions_text(list@.map_values(|e: Expr| e@)), ", "@),
        decreases list, 1int,
    {
        let ghost parts = expressions_text(list@.map_values(|e: Expr| e@));
        let mut out = String::new();
        let mut i: usize = 0;
        while i < list.len()
            invariant
                i <= list.len(),
                parts == expressions_text(list@.map_values(|e: Expr| e@)),
                out@ == join(parts.take(i as int), ", "@),
            decreases list.len() - i,
        {
            let part = self.expr_to_text(&list[i]);
            push_joined(&mut out, i, ", ", part.as_str());
            proof {
                lemma_join_step(parts, ", "@, i as int);
                assert(parts[i as int] == part@);
                assert(out@ =~= join(parts.take(i + 1), ", "@));
            }
            i += 1;
        }
        proof {
            assert(parts.take(list.len() as int) =~= parts);
        }
        out
    }

    /// The text of an expression: see [`expression_text`].
    pub fn expr_to_text(&self, expr: &Expr) -> (r: String)
        ensures
            r@ == expression_text(expr@),
        decreases expr, 0int,
    {
        match expr {
            Expr::Identifier(name) => name.clone(),
            Expr::IntegerLiteral(value) => decimal_string(*value),
            Expr::StringLiteral(value) => {
                let mut s = String::from_str("\"");
                s.append(value.as_str());
                s.append("\"");
                s
            },
            Expr::BinaryOp { left, operator, right } => {
                let mut s = String::from_str("(");
                let l = self.expr_to_text(left);
                s.append(l.as_str());
                s.append(" ");
                s.append(operator.symbol());
                s.append(" ");
                let r = self.expr_to_text(right);
                s.append(r.as_str());
                s.append(")");
                s
            },
            Expr::UnaryOp { operator, operand } => {
                let mut s = String::from_str("(");
                s.append(operator.symbol());
                let o = self.expr_to_text(operand);
                s.append(o.as_str());
                s.append(")");
                s
            },
            Expr::FunctionCall { name, arguments } => {
                let mut s = name.clone();
                s.append("(");
                let list = self.expressions_to_text(arguments);
                proof {
                    assert(arguments@.map_values(|e: Expr| e@) =~= expr@->arguments);
                }
                s.append(list.as_str());
                s.append(")");
                s
            },
        }
    }

    /// Appends the statements of a block: see [`block_text`].
    fn push_block(&self, out: &mut String, list: &Vec<Statement>)
        ensures
            final(out)@ == old(out)@ + block_text(statements_model(list@), list@.len() as int),
        decreases list, 1int,
    {
        let ghost models = statements_model(list@);
        let mut i: usize = 0;
        proof {
            assert(out@ =~= old(out)@ + block_text(models, 0));
        }
        while i < list.len()
            invariant
                i <= list.len(),
                models == statements_model(list@),
                out@ == old(out)@ + block_text(models, i as int),
            decreases list.len() - i,
        {
            let text = self.stmt_to_text(&list[i]);
            out.append("  ");
            push_indented(out, text.as_str());
            out.append("\n");
            proof {
                assert(models[i as int] == list@[i as int]@);
                assert(out@ =~= old(out)@ + block_text(models, i + 1));
            }
            i += 1;
        }
    }

    /// The statements of a branch or a loop body, their lines indented by
    /// `indent` levels: see [`branch_text`].
    pub fn statements_to_text(&self, stmts: &Vec<Statement>, indent: usize) -> (r: String)
        ensures
            r@ == branch_text(
                statements_model(stmts@),
                indentation(indent as nat),
                stmts@.len() as int,
            ),
        decreases stmts, 1int,
    {
        let ghost models = statements_model(stmts@);
        let prefix = indentation_string(indent);
        let mut out = String::new();
        let mut i: usize = 0;
        proof {
            assert(out@ =~= branch_text(models, prefix@, 0));
        }
        while i < stmts.len()
            invariant
                i <= stmts.len(),
                models == statements_model(stmts@),
                prefix@ == indentation(indent as nat),
                out@ == branch_text(models, prefix@, i as int),
            decreases stmts.len() - i,
        {
            let text = self.stmt_to_text(&stmts[i]);
            push_prefixed_lines(&mut out, text.as_str(), prefix.as_str());
            proof {
                assert(models[i as int] == stmts@[i as int]@);
            }
            i += 1;
        }
        out
    }

    /// The text of a statement: see [`statement_text`].
    pub fn stmt_to_text(&self, stmt: &Statement) -> (r: String)
        ensures
            r@ == statement_text(stmt@),
        decreases stmt, 0int,
    {
        match stmt {
            Statement::Return(Some(e)) => {
                let mut s = String::from_str("RETURN: ");
                let inner = self.expr_to_text(e);
                s.append(inner.as_str());
                s.append("\n");
                s
            },
            Statement::Return(None) => String::from_str("RETURN\n"),
            Statement::Expression(e) => {
                let mut s = String::from_str("EXPR_STMT: ");
                let inner = self.expr_to_text(e);
                s.append(inner.as_str());
                s.append("\n");
                s
            },
            Statement::Block(list) => {
                let mut s = String::from_str("{\n");
                self.push_block(&mut s, list);
                s.append("}\n");
                s
            },
            Statement::If { condition, then_branch, else_branch } => {
                let mut s = String::from_str("IF (");
                let c = self.expr_to_text(condition);
                s.append(c.as_str());
                s.append(") {\n");
                let t = self.statements_to_text(then_branch, 1);
                s.append(t.as_str());
                let ghost head = s@;
                match else_branch {
                    Some(list) => {
                        s.append("} ELSE {\n");
                        let e = self.statements_to_text(list, 1);
                        s.append(e.as_str());
                        proof {
                            let tail = "} ELSE {\n"@ + e@;
                            assert(s@ =~= head + tail);
                        }
                    },
                    None => {
                        proof {
                            assert(s@ =~= head + Seq::<char>::empty());
                        }
                    },
                }
                s.append("}\n");
                s
            },
            Statement::While { condition, body } => {
                let mut s = String::from_str("WHILE (");
                let c = self.expr_to_text(condition);
                s.append(c.as_str());
                s.append(") {\n");
                let b = self.statements_to_text(body, 1);
                s.append(b.as_str());
                s.append("}\n");
                s
            },
        }
    }

    /// The texts of a list of parameters, with a comma and a space between
    /// them.
    fn parameters_to_text(&self, list: &Vec<Parameter>) -> (r: String)
        ensures
            r@ == join(
                list@.map_values(|p: Parameter| p@).map_values(
                    |p: SpecParameter| parameter_text(p),
                ),
                ", "@,
            ),
    {
        let ghost parts = list@.map_values(|p: Parameter| p@).map_values(
            |p: SpecParameter| parameter_text(p),
        );
        let mut out = String::new();
        let mut i: usize = 0;
        while i < list.len()
            invariant
                i <= list.len(),
                parts == list@.map_values(|p: Parameter| p@).map_values(
                    |p: SpecParameter| parameter_text(p),
                ),
                out@ == join(parts.take(i as int), ", "@),
            decreases list.len() - i,
        {
            let mut part = list[i].name.clone();
            part.append(": ");
            let t = self.type_to_text(&list[i].param_type);
            part.append(t.as_str());
            push_joined(&mut out, i, ", ", part.as_str());
            proof {
                lemma_join_step(parts, ", "@, i as int);
                assert(parts[i as int] == part@);
                assert(out@ =~= join(parts.take(i + 1), ", "@));
            }
            i += 1;
        }
        proof {
            assert(parts.take(list.len() as int) =~= parts);
        }
        out
    }

    /// The text of a node followed by a line feed, for each node of a
    /// program.
    fn push_program(&mut self, out: &mut String, list: &Vec<ASTNode>)
        ensures
            final(out)@ == old(out)@ + program_text(
                list@.map_values(|n: ASTNode| n@),
                list@.len() as int,
            ),
        decreases list, 2int,
    {
        let ghost models = list@.map_values(|n: ASTNode| n@);
        let mut i: usize = 0;
        proof {
            assert(out@ =~= old(out)@ + program_text(models, 0));
        }
        while i < list.len()
            invariant
                i <= list.len(),
                models == list@.map_values(|n: ASTNode| n@),
                out@ == old(out)@ + program_text(models, i as int),
            decreases list.len() - i,
        {
            let text = self.node_to_text(&list[i]);
            out.append(text.as_str());
            out.append("\n");
            proof {
                assert(out@ =~= old(out)@ + program_text(models, i + 1));
            }
            i += 1;
        }
    }

    /// The text of a node: see [`node_text`].
    pub fn node_to_text(&mut self, node: &ASTNode) -> (r: String)
        ensures
            r@ == node_text(node@),
        decreases node, 1int,
    {
        self.serialize_to_text(node)
    }

    /// The text of a node: see [`node_text`].
    pub fn serialize_to_text(&mut self, ast: &ASTNode) -> (r: String)
        ensures
            r@ == node_text(ast@),
        decreases ast, 0int,
    {
        match ast {
            ASTNode::Program(nodes) => {
                let mut s = String::from_str("=== PROGRAM ===\n");
                self.push_program(&mut s, nodes);
                proof {
                    assert(nodes@.map_values(|n: ASTNode| n@) =~= ast@->Program_0);
                }
                s.append("=== END PROGRAM ===\n");
                s
            },
            ASTNode::VariableDeclaration { name, data_type, initializer } => {
                let mut s = String::from_str("VAR_DECL: ");
                s.append(name.as_str());
                s.append(" : ");
                let t = self.type_to_text(data_type);
                s.append(t.as_str());
                let ghost head = s@;
                match initializer {
                    Some(e) => {
                        s.append(" = ");
                        let inner = self.expr_to_text(e);
                        s.append(inner.as_str());
                        proof {
                            let tail = " = "@ + inner@;
                            assert(s@ =~= head + tail);
                        }
                    },
                    None => {
                        proof {
                            assert(s@ =~= head + Seq::<char>::empty());
                        }
                    },
                }
                s.append("\n");
                s
            },
            ASTNode::FunctionDeclaration { name, parameters, return_type, body } => {
                let mut s = String::from_str("FUNC_DECL: ");
                s.append(name.as_str());
                s.append("(");
                let p = self.parameters_to_text(parameters);
                s.append(p.as_str());
                s.append(") -> ");
                let t = self.type_to_text(return_type);
                s.append(t.as_str());
                s.append("\n");
                s.append("{\n");
                self.push_block(&mut s, body);
                s.append("}\n");
                s
            },
            ASTNode::Expression(e) => {
                let mut s = String::from_str("EXPR: ");
                let inner = self.expr_to_text(e);
                s.append(inner.as_str());
                s.append("\n");
                s
            },
            ASTNode::Statement(st) => self.stmt_to_text(st),
        }
    }
}

impl ASTSerializer for TextSerializer {
    type Output = String;

    fn serialize(&mut self, ast: &ASTNode) -> (r: String)
        ensures
            r@ == node_text(ast@),
    {
        self.serialize_to_text(ast)
    }
}

} // verus!
