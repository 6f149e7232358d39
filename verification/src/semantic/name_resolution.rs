//! Name resolution: every identifier that is used must have a definition in
//! reach, and no scope may define a name twice.
//!
//! The resolver does not stop at the first error: it goes on through the rest
//! of the tree and collects every error it meets, in program order.

use crate::ast::node::{
    statements_model, ASTNode, Expr, Parameter, SpecExpr, SpecNode, SpecParameter,
    SpecStatement, Statement,
};
use crate::semantic::symbol_table::{
    empty_table, lemma_define_keeps_outer, lemma_enter_exit, table_define, table_enter,
    table_exit, table_lookup, table_lookup_current, FunctionSignature, SpecSignature,
    SpecSymbolType, SpecTable, SymbolTable,
};
use vstd::prelude::*;
use vstd::string::StringExecFns;

verus! {

/// An error of name resolution, with the name it is about.
#[derive(Debug, Clone, PartialEq)]
pub enum NameResolutionError {
    /// A name is used that no scope in reach defines.
    UndefinedVariable(String),
    /// A variable or parameter is declared twice in one scope.
    VariableAlreadyDefined(String),
    /// A function is declared under a name that is taken.
    FunctionAlreadyDefined(String),
    /// A constant is assigned to.
    CannotAssignToConstant(String),
}

/// Model of [`NameResolutionError`].
pub enum SpecNameError {
    UndefinedVariable(Seq<char>),
    VariableAlreadyDefined(Seq<char>),
    FunctionAlreadyDefined(Seq<char>),
    CannotAssignToConstant(Seq<char>),
}

impl View for NameResolutionError {
    type V = SpecNameError;

    open spec fn view(&self) -> SpecNameError {
        match self {
            NameResolutionError::UndefinedVariable(n) => SpecNameError::UndefinedVariable(n@),
            NameResolutionError::VariableAlreadyDefined(n) => {
                SpecNameError::VariableAlreadyDefined(n@)
            },
            NameResolutionError::FunctionAlreadyDefined(n) => {
                SpecNameError::FunctionAlreadyDefined(n@)
            },
            NameResolutionError::CannotAssignToConstant(n) => {
                SpecNameError::CannotAssignToConstant(n@)
            },
        }
    }
}

/// The models of a list of errors, in order.
pub open spec fn errors_model(list: Seq<NameResolutionError>) -> Seq<SpecNameError> {
    list.map_values(|e: NameResolutionError| e@)
}

/// The name under which the resolver records the type of every symbol: it
/// keeps names only.
pub open spec fn unknown_type() -> Seq<char> {
    "unknown"@
}

/// The errors of an expression, in the order in which its names occur. The
/// arguments of a call to an undefined function are not looked at.
pub open spec fn expression_errors(t: SpecTable, e: SpecExpr) -> Seq<SpecNameError>
    decreases e, 0int,
{
    match e {
        SpecExpr::Identifier(name) => if table_lookup(t, name) is Some {
            Seq::empty()
        } else {
            seq![SpecNameError::UndefinedVariable(name)]
        },
        SpecExpr::IntegerLiteral(_) => Seq::empty(),
        SpecExpr::StringLiteral(_) => Seq::empty(),
        SpecExpr::BinaryOp { left, operator, right } => expression_errors(t, *left)
            + expression_errors(t, *right),
        SpecExpr::UnaryOp { operator, operand } => expression_errors(t, *operand),
        SpecExpr::FunctionCall { name, arguments } => if table_lookup(t, name) is Some {
            arguments_errors(t, arguments, 0)
        } else {
            seq![SpecNameError::UndefinedVariable(name)]
        },
    }
}

/// The errors of the arguments from index `from` on.
pub open spec fn arguments_errors(t: SpecTable, arguments: Seq<SpecExpr>, from: int) -> Seq<
    SpecNameError,
>
    decreases arguments, arguments.len() - from,
{
    if from < 0 || from >= arguments.len() {
        Seq::empty()
    } else {
        expression_errors(t, arguments[from]) + arguments_errors(t, arguments, from + 1)
    }
}

/// Whether an expression resolved: a name or a callee is defined, and both
/// operands of a binary operation resolved.
pub open spec fn expression_resolved(t: SpecTable, e: SpecExpr) -> bool
    decreases e,
{
    match e {
        SpecExpr::Identifier(name) => table_lookup(t, name) is Some,
        SpecExpr::IntegerLiteral(_) => true,
        SpecExpr::StringLiteral(_) => true,
        SpecExpr::BinaryOp { left, operator, right } => expression_resolved(t, *left)
            && expression_resolved(t, *right),
        SpecExpr::UnaryOp { operator, operand } => expression_resolved(t, *operand),
        SpecExpr::FunctionCall { name, arguments } => table_lookup(t, name) is Some,
    }
}

/// The errors of a statement. The statements of a block, a branch or a loop
/// body are resolved in a scope of their own.
pub open spec fn statement_errors(t: SpecTable, s: SpecStatement) -> Seq<SpecNameError>
    decreases s, 0int,
{
    match s {
        SpecStatement::Return(None) => Seq::empty(),
        SpecStatement::Return(Some(e)) => expression_errors(t, e),
        SpecStatement::Expression(e) => expression_errors(t, e),
        SpecStatement::Block(list) => statements_errors(table_enter(t), list, 0),
        SpecStatement::If { condition, then_branch, else_branch } => expression_errors(
            t,
            condition,
        ) + statements_errors(table_enter(t), then_branch, 0) + match else_branch {
            Some(list) => statements_errors(table_enter(t), list, 0),
            None => Seq::empty(),
        },
        SpecStatement::While { condition, body } => expression_errors(t, condition)
            + statements_errors(table_enter(t), body, 0),
    }
}

/// The errors of the statements from index `from` on.
pub open spec fn statements_errors(t: SpecTable, list: Seq<SpecStatement>, from: int) -> Seq<
    SpecNameError,
>
    decreases list, list.len() - from,
{
    if from < 0 || from >= list.len() {
        Seq::empty()
    } else {
        statement_errors(t, list[from]) + statements_errors(t, list, from + 1)
    }
}

/// The table after the parameters from index `from` on were defined. One
/// whose name the scope already holds is skipped.
pub open spec fn parameters_table(t: SpecTable, parameters: Seq<SpecParameter>, from: int) -> SpecTable
    decreases parameters.len() - from,
{
    if from < 0 || from >= parameters.len() {
        t
    } else {
        match table_define(
            t,
            parameters[from].name,
            SpecSymbolType::Variable(unknown_type()),
            true,
        ) {
            Ok(next) => parameters_table(next, parameters, from + 1),
            Err(_) => parameters_table(t, parameters, from + 1),
        }
    }
}

/// The errors of the parameters from index `from` on: one for each whose
/// name the scope already holds.
pub open spec fn parameters_errors(t: SpecTable, parameters: Seq<SpecParameter>, from: int) -> Seq<
    SpecNameError,
>
    decreases parameters.len() - from,
{
    if from < 0 || from >= parameters.len() {
        Seq::empty()
    } else {
        match table_define(
            t,
            parameters[from].name,
            SpecSymbolType::Variable(unknown_type()),
            true,
        ) {
            Ok(next) => parameters_errors(next, parameters, from + 1),
            Err(_) => seq![SpecNameError::VariableAlreadyDefined(parameters[from].name)]
                + parameters_errors(t, parameters, from + 1),
        }
    }
}

/// The signature under which the resolver defines a function.
pub open spec fn unknown_signature(parameters: Seq<SpecParameter>) -> SpecSignature {
    SpecSignature {
        return_type: unknown_type(),
        parameters: parameters.map_values(|p: SpecParameter| (p.name, unknown_type())),
    }
}

/// The table after a node was resolved. A variable whose name is free in the
/// current scope is defined; so is a function whose name no scope holds.
pub open spec fn node_table(t: SpecTable, n: SpecNode) -> SpecTable {
    match n {
        SpecNode::VariableDeclaration { name, data_type, initializer } => match table_define(
            t,
            name,
            SpecSymbolType::Variable(unknown_type()),
            true,
        ) {
            Ok(defined) => defined,
            Err(_) => t,
        },
        SpecNode::FunctionDeclaration { name, parameters, return_type, body } => if table_lookup(
            t,
            name,
        ) is Some {
            t
        } else {
            match table_define(
                t,
                name,
                SpecSymbolType::Function(unknown_signature(parameters)),
                false,
            ) {
                Ok(defined) => defined,
                Err(_) => t,
            }
        },
        _ => t,
    }
}

/// The errors of a node of a program.
///
/// A variable is defined before its initializer is resolved; one whose name
/// the current scope holds is an error, and its initializer is not looked
/// at. A function whose name is taken is an error, and nothing of it is
/// looked at; otherwise it is defined, and its parameters and body are
/// resolved in a scope of their own.
pub open spec fn node_errors(t: SpecTable, n: SpecNode) -> Seq<SpecNameError> {
    match n {
        SpecNode::VariableDeclaration { name, data_type, initializer } => match table_define(
            t,
            name,
            SpecSymbolType::Variable(unknown_type()),
            true,
        ) {
            Err(_) => seq![SpecNameError::VariableAlreadyDefined(name)],
            Ok(defined) => match initializer {
                Some(e) => expression_errors(defined, e),
                None => Seq::empty(),
            },
        },
        SpecNode::FunctionDeclaration { name, parameters, return_type, body } => if table_lookup(
            t,
            name,
        ) is Some {
            seq![SpecNameError::FunctionAlreadyDefined(name)]
        } else {
            let inner = table_enter(node_table(t, n));
            parameters_errors(inner, parameters, 0) + statements_errors(
                parameters_table(inner, parameters, 0),
                body,
                0,
            )
        },
        SpecNode::Expression(e) => expression_errors(t, e),
        SpecNode::Statement(s) => statement_errors(t, s),
        SpecNode::Program(_) => Seq::empty(),
    }
}

/// The errors of the nodes from index `from` on, each resolved in the table
/// that the nodes before it left.
pub open spec fn nodes_errors(t: SpecTable, nodes: Seq<SpecNode>, from: int) -> Seq<SpecNameError>
    decreases nodes.len() - from,
{
    if from < 0 || from >= nodes.len() {
        Seq::empty()
    } else {
        node_errors(t, nodes[from]) + nodes_errors(node_table(t, nodes[from]), nodes, from + 1)
    }
}

/// The table after the nodes from index `from` on were resolved.
pub open spec fn nodes_table(t: SpecTable, nodes: Seq<SpecNode>, from: int) -> SpecTable
    decreases nodes.len() - from,
{
    if from < 0 || from >= nodes.len() {
        t
    } else {
        nodes_table(node_table(t, nodes[from]), nodes, from + 1)
    }
}

/// The errors of a program. A root that is no `Program` is one error.
pub open spec fn program_errors(t: SpecTable, n: SpecNode) -> Seq<SpecNameError> {
    match n {
        SpecNode::Program(nodes) => nodes_errors(t, nodes, 0),
        _ => seq![SpecNameError::UndefinedVariable("Program node expected"@)],
    }
}

/// The table after a program was resolved.
pub open spec fn program_table(t: SpecTable, n: SpecNode) -> SpecTable {
    match n {
        SpecNode::Program(nodes) => nodes_table(t, nodes, 0),
        _ => t,
    }
}

/// Whether resolving a node defined what it declares (a node that declares
/// nothing counts as resolved).
pub open spec fn node_resolved(t: SpecTable, n: SpecNode) -> bool {
    match n {
        SpecNode::VariableDeclaration { name, data_type, initializer } => table_lookup_current(
            t,
            name,
        ) is None,
        SpecNode::FunctionDeclaration { name, parameters, return_type, body } => table_lookup(
            t,
            name,
        ) is None,
        _ => true,
    }
}

/// Walks a tree and collects the errors of its names.
pub struct NameResolver {
    symbol_table: SymbolTable,
    errors: Vec<NameResolutionError>,
}

impl NameResolver {
    /// The symbol table of the resolver.
    pub closed spec fn table(&self) -> SpecTable {
        self.symbol_table@
    }

    /// The errors collected so far and not yet handed out.
    pub closed spec fn errors(&self) -> Seq<SpecNameError> {
        errors_model(self.errors@)
    }

    /// The resolver's table is well formed.
    pub closed spec fn wf(&self) -> bool {
        self.symbol_table.wf()
    }

    /// A resolver with an empty table and no errors.
    pub fn new() -> (r: Self)
        ensures
            r.wf(),
            r.table() == empty_table(),
            r.errors() == Seq::<SpecNameError>::empty(),
    {
        let r = NameResolver { symbol_table: SymbolTable::new(), errors: Vec::new() };
        proof {
            assert(r.errors() =~= Seq::<SpecNameError>::empty());
        }
        r
    }

    fn report(&mut self, error: NameResolutionError)
        ensures
            final(self).wf() == old(self).wf(),
            final(self).table() == old(self).table(),
            final(self).errors() == old(self).errors() + seq![error@],
    {
        self.errors.push(error);
        proof {
            assert(self.errors() =~= old(self).errors() + seq![error@]);
        }
    }

    /// Resolves the names of an expression: see [`expression_errors`] for
    /// the errors that are added and [`expression_resolved`] for the result.
    #[verifier::loop_isolation(false)]
    pub fn resolve_expression(&mut self, expr: &Expr) -> (ok: bool)
        requires
            old(self).wf(),
        ensures
            final(self).wf(),
            final(self).table() == old(self).table(),
            final(self).errors() == old(self).errors() + expression_errors(
                old(self).table(),
                expr@,
            ),
            ok == expression_resolved(old(self).table(), expr@),
        decreases expr,
    {
        let ghost start = self.errors();
        let ghost table = self.table();
        match expr {
            Expr::Identifier(name) => {
                if self.symbol_table.lookup(name.as_str()).is_some() {
                    proof {
                        assert(self.errors() =~= start + expression_errors(table, expr@));
                    }
                    true
                } else {
                    self.report(NameResolutionError::UndefinedVariable(name.clone()));
                    false
                }
            },
            Expr::IntegerLiteral(_) | Expr::StringLiteral(_) => {
                proof {
                    assert(self.errors() =~= start + expression_errors(table, expr@));
                }
                true
            },
            Expr::BinaryOp { left, operator, right } => {
                let left_ok = self.resolve_expression(left);
                let right_ok = self.resolve_expression(right);
                proof {
                    assert(self.errors() =~= start + expression_errors(table, expr@));
                }
                left_ok && right_ok
            },
            Expr::UnaryOp { operator, operand } => self.resolve_expression(operand),
            Expr::FunctionCall { name, arguments } => {
                if self.symbol_table.lookup(name.as_str()).is_some() {
                    let ghost models = expr@->arguments;
                    let mut i: usize = 0;
                    while i < arguments.len()
                        invariant
                            i <= arguments.len(),
                            self.wf(),
                            self.table() == table,
                            self.errors() + arguments_errors(table, models, i as int) == start
                                + arguments_errors(table, models, 0),
                        decreases arguments.len() - i,
                    {
                        let ghost before = self.errors();
                        assert(models[i as int] == arguments@[i as int]@);
                        self.resolve_expression(&arguments[i]);
                        proof {
                            let here = expression_errors(table, models[i as int]);
                            let rest = arguments_errors(table, models, i + 1);
                            assert((before + here) + rest =~= before + (here + rest));
                        }
                        i += 1;
                    }
                    proof {
                        assert(self.errors() + Seq::<SpecNameError>::empty() =~= self.errors());
                    }
                    true
                } else {
                    self.report(NameResolutionError::UndefinedVariable(name.clone()));
                    false
                }
            },
        }
    }

    /// Resolves a list of statements in a scope of their own.
    fn resolve_scoped(&mut self, list: &Vec<Statement>)
        requires
            old(self).wf(),
        ensures
            final(self).wf(),
            final(self).table() == old(self).table(),
            final(self).errors() == old(self).errors() + statements_errors(
                table_enter(old(self).table()),
                statements_model(list@),
                0,
            ),
        decreases list, 1int,
    {
        proof {
            lemma_enter_exit(self.table());
        }
        self.symbol_table.enter_scope();
        self.resolve_statements(list);
        self.symbol_table.exit_scope();
    }

    /// Resolves statements in order, in the current scope: see
    /// [`statements_errors`].
    pub fn resolve_statements(&mut self, list: &Vec<Statement>)
        requires
            old(self).wf(),
        ensures
            final(self).wf(),
            final(self).table() == old(self).table(),
            final(self).errors() == old(self).errors() + statements_errors(
                old(self).table(),
                statements_model(list@),
                0,
            ),
        decreases list, 0int,
    {
        let ghost start = self.errors();
        let ghost table = self.table();
        let ghost models = statements_model(list@);
        let mut i: usize = 0;
        while i < list.len()
            invariant
                i <= list.len(),
                self.wf(),
                self.table() == table,
                table == old(self).table(),
                start == old(self).errors(),
                models == statements_model(list@),
                self.errors() + statements_errors(table, models, i as int) == start
                    + statements_errors(table, models, 0),
            decreases list.len() - i,
        {
            let ghost before = self.errors();
            assert(models[i as int] == list@[i as int]@);
            self.resolve_statement(&list[i]);
            proof {
                let here = statement_errors(table, models[i as int]);
                let rest = statements_errors(table, models, i + 1);
                assert((before + here) + rest =~= before + (here + rest));
            }
            i += 1;
        }
        proof {
            assert(self.errors() + Seq::<SpecNameError>::empty() =~= self.errors());
        }
    }

    /// Resolves one statement: see [`statement_errors`]. The table is left
    /// as it was found. The result is always `true`.
    pub fn resolve_statement(&mut self, stmt: &Statement) -> (ok: bool)
        requires
            old(self).wf(),
        ensures
            final(self).wf(),
            final(self).table() == old(self).table(),
            final(self).errors() == old(self).errors() + statement_errors(
                old(self).table(),
                stmt@,
            ),
            ok,
        decreases stmt, 2int,
    {
        let ghost start = self.errors();
        let ghost table = self.table();
        match stmt {
            Statement::Return(None) => {
                proof {
                    assert(self.errors() =~= start + statement_errors(table, stmt@));
                }
            },
            Statement::Return(Some(e)) => {
                self.resolve_expression(e);
            },
            Statement::Expression(e) => {
                self.resolve_expression(e);
            },
            Statement::Block(list) => {
                self.resolve_scoped(list);
            },
            Statement::If { condition, then_branch, else_branch } => {
                self.resolve_expression(condition);
                self.resolve_scoped(then_branch);
                match else_branch {
                    Some(list) => {
                        self.resolve_scoped(list);
                    },
                    None => {},
                }
                proof {
                    assert(self.errors() =~= start + statement_errors(table, stmt@));
                }
            },
            Statement::While { condition, body } => {
                self.resolve_expression(condition);
                self.resolve_scoped(body);
                proof {
                    assert(self.errors() =~= start + statement_errors(table, stmt@));
                }
            },
        }
        true
    }

    /// The signature under which a function is defined: see
    /// [`unknown_signature`].
    fn signature_of(parameters: &Vec<Parameter>) -> (r: FunctionSignature)
        ensures
            r@ == unknown_signature(parameters@.map_values(|p: Parameter| p@)),
    {
        let ghost models = parameters@.map_values(|p: Parameter| p@);
        let ghost wanted = unknown_signature(models).parameters;
        let mut list: Vec<(String, String)> = Vec::new();
        let mut i: usize = 0;
        while i < parameters.len()
            invariant
                i <= parameters.len(),
                models == parameters@.map_values(|p: Parameter| p@),
                wanted == unknown_signature(models).parameters,
                list@.map_values(|p: (String, String)| (p.0@, p.1@)) == wanted.take(i as int),
            decreases parameters.len() - i,
        {
            let ghost before = list@.map_values(|p: (String, String)| (p.0@, p.1@));
            let entry = (parameters[i].name.clone(), String::from_str("unknown"));
            list.push(entry);
            proof {
                assert(models[i as int] == parameters@[i as int]@);
                assert(list@.map_values(|p: (String, String)| (p.0@, p.1@)) =~= before.push(
                    wanted[i as int],
                ));
                assert(wanted.take(i + 1) =~= wanted.take(i as int).push(wanted[i as int]));
            }
            i += 1;
        }
        proof {
            assert(wanted.take(parameters.len() as int) =~= wanted);
        }
        FunctionSignature { return_type: String::from_str("unknown"), parameters: list }
    }

    /// Resolves the parameters and the body of a function in a scope of
    /// their own, and leaves the table as it was found.
    fn resolve_function_body(&mut self, parameters: &Vec<Parameter>, body: &Vec<Statement>)
        requires
            old(self).wf(),
        ensures
            final(self).wf(),
            final(self).table() == old(self).table(),
            final(self).errors() == old(self).errors() + (parameters_errors(
                table_enter(old(self).table()),
                parameters@.map_values(|p: Parameter| p@),
                0,
            ) + statements_errors(
                parameters_table(
                    table_enter(old(self).table()),
                    parameters@.map_values(|p: Parameter| p@),
                    0,
                ),
                statements_model(body@),
                0,
            )),
    {
        let ghost start = self.errors();
        let ghost outer = self.table();
        let ghost models = parameters@.map_values(|p: Parameter| p@);
        proof {
            lemma_enter_exit(outer);
        }
        self.symbol_table.enter_scope();
        let ghost entered = self.table();
        let mut i: usize = 0;
        while i < parameters.len()
            invariant
                i <= parameters.len(),
                self.wf(),
                models == parameters@.map_values(|p: Parameter| p@),
                self.table().len() >= 2,
                outer == old(self).table(),
                start == old(self).errors(),
                entered == table_enter(outer),
                table_exit(self.table()) == outer,
                parameters_table(entered, models, 0) == parameters_table(
                    self.table(),
                    models,
                    i as int,
                ),
                self.errors() + parameters_errors(self.table(), models, i as int) == start
                    + parameters_errors(entered, models, 0),
            decreases parameters.len() - i,
        {
            let ghost current = self.table();
            let ghost before = self.errors();
            proof {
                assert(models[i as int] == parameters@[i as int]@);
                let p = models[i as int];
                if table_define(current, p.name, SpecSymbolType::Variable(unknown_type()), true)
                    is Ok {
                    lemma_define_keeps_outer(
                        current,
                        p.name,
                        SpecSymbolType::Variable(unknown_type()),
                        true,
                    );
                }
            }
            let defined = self.symbol_table.define_variable(
                parameters[i].name.clone(),
                String::from_str("unknown"),
                true,
            );
            if defined.is_err() {
                self.report(NameResolutionError::VariableAlreadyDefined(parameters[i].name.clone()));
                proof {
                    let here = seq![SpecNameError::VariableAlreadyDefined(models[i as int].name)];
                    let rest = parameters_errors(current, models, i + 1);
                    assert((before + here) + rest =~= before + (here + rest));
                }
            }
            i += 1;
        }
        proof {
            assert(self.errors() + Seq::<SpecNameError>::empty() =~= self.errors());
        }
        self.resolve_statements(body);
        self.symbol_table.exit_scope();
        proof {
            let first = parameters_errors(entered, models, 0);
            let second = statements_errors(
                parameters_table(entered, models, 0),
                statements_model(body@),
                0,
            );
            assert((start + first) + second =~= start + (first + second));
        }
    }

    /// Resolves one node of a program: see [`node_errors`] for the errors
    /// that are added, [`node_table`] for the table that is left and
    /// [`node_resolved`] for the result.
    pub fn resolve_node(&mut self, node: &ASTNode) -> (ok: bool)
        requires
            old(self).wf(),
        ensures
            final(self).wf(),
            final(self).table() == node_table(old(self).table(), node@),
            final(self).errors() == old(self).errors() + node_errors(old(self).table(), node@),
            ok == node_resolved(old(self).table(), node@),
    {
        let ghost start = self.errors();
        let ghost table = self.table();
        match node {
            ASTNode::VariableDeclaration { name, data_type, initializer } => {
                let defined = self.symbol_table.define_variable(
                    name.clone(),
                    String::from_str("unknown"),
                    true,
                );
                if defined.is_err() {
                    self.report(NameResolutionError::VariableAlreadyDefined(name.clone()));
                    return false;
                }
                match initializer {
                    Some(e) => {
                        self.resolve_expression(e);
                    },
                    None => {
                        proof {
                            assert(self.errors() =~= start + node_errors(table, node@));
                        }
                    },
                }
                true
            },
            ASTNode::FunctionDeclaration { name, parameters, return_type, body } => {
                if self.symbol_table.lookup(name.as_str()).is_some() {
                    self.report(NameResolutionError::FunctionAlreadyDefined(name.clone()));
                    return false;
                }
                let signature = Self::signature_of(parameters);
                proof {
                    lemma_lookup_none_current(table, name@);
                }
                let defined = self.symbol_table.define_function(name.clone(), signature);
                self.resolve_function_body(parameters, body);
                true
            },
            ASTNode::Expression(e) => {
                self.resolve_expression(e);
                true
            },
            ASTNode::Statement(s) => {
                self.resolve_statement(s);
                true
            },
            ASTNode::Program(_) => {
                proof {
                    assert(self.errors() =~= start + node_errors(table, node@));
                }
                true
            },
        }
    }

    /// Resolves a program. The nodes are resolved in order and every error
    /// is collected: see [`program_errors`]. The result is `Ok` if there is
    /// no error, those of earlier calls of the other methods included;
    /// otherwise it is the list of all of them. Either way the resolver
    /// keeps no error afterwards.
    pub fn resolve_program(&mut self, ast: &ASTNode) -> (r: Result<(), Vec<NameResolutionError>>)
        requires
            old(self).wf(),
        ensures
            final(self).wf(),
            final(self).table() == program_table(old(self).table(), ast@),
            final(self).errors() == Seq::<SpecNameError>::empty(),
            match r {
                Ok(_) => (old(self).errors() + program_errors(old(self).table(), ast@)).len() == 0,
                Err(list) => list@.len() > 0 && errors_model(list@) == old(self).errors()
                    + program_errors(old(self).table(), ast@),
            },
    {
        let ghost start = self.errors();
        let ghost table = self.table();
        match ast {
            ASTNode::Program(nodes) => {
                let ghost models = ast@->Program_0;
                let mut i: usize = 0;
                while i < nodes.len()
                    invariant
                        i <= nodes.len(),
                        self.wf(),
                        models == ast@->Program_0,
                        *ast == ASTNode::Program(*nodes),
                        start == old(self).errors(),
                        table == old(self).table(),
                        nodes_table(table, models, 0) == nodes_table(
                            self.table(),
                            models,
                            i as int,
                        ),
                        self.errors() + nodes_errors(self.table(), models, i as int) == start
                            + nodes_errors(table, models, 0),
                    decreases nodes.len() - i,
                {
                    let ghost before = self.errors();
                    let ghost current = self.table();
                    assert(models[i as int] == nodes@[i as int]@);
                    self.resolve_node(&nodes[i]);
                    proof {
                        let here = node_errors(current, models[i as int]);
                        let rest = nodes_errors(node_table(current, models[i as int]), models, i + 1);
                        assert((before + here) + rest =~= before + (here + rest));
                    }
                    i += 1;
                }
                proof {
                    assert(self.errors() + Seq::<SpecNameError>::empty() =~= self.errors());
                }
            },
            _ => {
                self.report(
                    NameResolutionError::UndefinedVariable(
                        String::from_str("Program node expected"),
                    ),
                );
            },
        }
        if self.errors.len() == 0 {
            proof {
                assert(self.errors() =~= Seq::<SpecNameError>::empty());
            }
            Ok(())
        } else {
            let mut list: Vec<NameResolutionError> = Vec::new();
            std::mem::swap(&mut list, &mut self.errors);
            proof {
                assert(self.errors() =~= Seq::<SpecNameError>::empty());
            }
            Err(list)
        }
    }

    /// The errors collected so far and not yet handed out.
    pub fn get_errors(&self) -> (r: &[NameResolutionError])
        ensures
            errors_model(r@) == self.errors(),
    {
        self.errors.as_slice()
    }

    /// Forgets the errors collected so far.
    pub fn reset_errors(&mut self)
        ensures
            final(self).wf() == old(self).wf(),
            final(self).table() == old(self).table(),
            final(self).errors() == Seq::<SpecNameError>::empty(),
    {
        self.errors.clear();
        proof {
            assert(self.errors() =~= Seq::<SpecNameError>::empty());
        }
    }
}

/// A name that no scope holds is not held by the current scope.
pub proof fn lemma_lookup_none_current(t: SpecTable, name: Seq<char>)
    requires
        table_lookup(t, name) is None,
    ensures
        table_lookup_current(t, name) is None,
{
}

} // verus!
