//! Folding of statements and blocks.

use vstd::prelude::*;
use crate::ast::{
    expression_cost,
    expressions_cost,
    statement_cost,
    statements_cost,
    variable_cost,
    Expression,
    Statement,
    Variable,
};
use crate::symboltable::{ConstructCategory, Entry, Symboltable, TableModel};
use crate::token::Token;
use crate::typedast::{
    expressions_view,
    lemma_block_view,
    statements_view,
    variables_view,
    NodeType,
    SimpleType,
    TypedExpression,
    TypedExpressionStructure,
    TypedStatement,
    TypedVariable,
};
use crate::typing::{
    call_statement_rule,
    condition_rule,
    first_non_variable,
    fold_block_spec,
    fold_expression_spec,
    fold_statement_spec,
    fold_statements_spec,
    read_targets,
};
use crate::typefolder::{folded_expression, folded_statement, spent, TypeFolder};

verus! {

impl TypeFolder {
    pub(crate) fn fold_block(&mut self, node: &Vec<Statement>, st: &mut Symboltable) -> (res: Option<
        TypedStatement,
    >)
        requires
            old(st).wf(),
            old(self).has_room(old(st)@, statements_cost(node@, 0) + 1),
        ensures
            final(st).wf(),
            folded_statement(
                res,
                final(self).pass(final(st)@),
                fold_block_spec(node@, old(self).pass(old(st)@)),
            ),
            spent(
                old(self).pass(old(st)@),
                final(self).pass(final(st)@),
                statements_cost(node@, 0) + 1,
            ),
        decreases statements_cost(node@, 0) + 1, 0nat,
    {
        let mut typed_statements: Vec<TypedStatement> = Vec::new();
        let mut complete = true;
        let number = st.new_scope_in_current_scope(false);
        let mut i: usize = 0;
        assert(statements_view(typed_statements@) =~= Seq::empty());
        while i < node.len()
            invariant
                i <= node.len(),
                st.wf(),
                old(self).has_room(old(st)@, statements_cost(node@, 0) + 1),
                old(self).counter() <= self.counter(),
                self.counter() + statements_cost(node@, i as int) <= old(self).counter()
                    + statements_cost(node@, 0),
                old(st)@.next_scope() <= st@.next_scope(),
                st@.next_scope() + statements_cost(node@, i as int) <= old(st)@.next_scope() + 1
                    + statements_cost(node@, 0),
                fold_statements_spec(
                    node@,
                    i as int,
                    if complete {
                        Some(statements_view(typed_statements@))
                    } else {
                        None
                    },
                    self.pass(st@),
                ) == fold_statements_spec(
                    node@,
                    0,
                    Some(Seq::empty()),
                    old(self).pass(old(st)@).open_scope(),
                ),
            decreases node.len() - i,
        {
            let ghost before = typed_statements@;
            match self.fold_statement(&node[i], st) {
                Some(stmnt) => {
                    typed_statements.push(stmnt);
                    assert(statements_view(typed_statements@) =~= statements_view(before).push(
                        stmnt@,
                    ));
                },
                None => {
                    complete = false;
                },
            }
            i = i + 1;
        }
        st.exit_scope();
        if complete {
            let block = TypedStatement::Block(number, typed_statements);
            proof {
                lemma_block_view(block);
            }
            Some(block)
        } else {
            None
        }
    }

    pub(crate) fn fold_statement(&mut self, node: &Statement, st: &mut Symboltable) -> (res: Option<
        TypedStatement,
    >)
        requires
            old(st).wf(),
            old(self).has_room(old(st)@, statement_cost(*node)),
        ensures
            final(st).wf(),
            folded_statement(
                res,
                final(self).pass(final(st)@),
                fold_statement_spec(*node, old(self).pass(old(st)@)),
            ),
            spent(
                old(self).pass(old(st)@),
                final(self).pass(final(st)@),
                statement_cost(*node),
            ),
        decreases statement_cost(*node), 1nat,
    {
        match node {
            Statement::Assign(var, ex) => self.fold_assign(var, ex, st),
            Statement::Declaration(token, type_description) => self.fold_declaration(
                token,
                type_description,
                st,
            ),
            Statement::While(condition, body) => self.fold_while(condition, body, st),
            Statement::If(condition, body, maybe_else_body) => self.fold_if(
                condition,
                body,
                maybe_else_body,
                st,
            ),
            Statement::Block(block) => self.fold_block(block, st),
            Statement::Assert(token, expression) => self.fold_assert(token, expression, st),
            Statement::Call(id, params) => self.fold_call_statement(id, params, st),
            Statement::Return(token, value) => self.fold_return(token, value, st),
        }
    }

    pub(crate) fn fold_assign(&mut self, variable: &Variable, value: &Expression, st: &Symboltable) -> (res:
        Option<TypedStatement>)
        requires
            st.wf(),
            old(self).counter() + variable_cost(*variable) + expression_cost(*value) <= u64::MAX,
        ensures
            folded_statement(
                res,
                final(self).pass(st@),
                fold_statement_spec(
                    Statement::Assign(Box::new(*variable), *value),
                    old(self).pass(st@),
                ),
            ),
            old(self).counter() <= final(self).counter() <= old(self).counter() + variable_cost(
                *variable,
            ) + expression_cost(*value),
    {
        let maybe_target = self.fold_variable(variable, st);
        let maybe_value = self.fold_expression(value, st);
        match (maybe_target, maybe_value) {
            (Some(target), Some(value)) => {
                if target.node_type == value.node_type {
                    Some(TypedStatement::Assign(target, value))
                } else {
                    self.handle_error(&target.token, "Mismatched types in assigment");
                    None
                }
            },
            _ => None,
        }
    }

    /// Folds a condition and reports it where it is no truth value.
    pub(crate) fn fold_condition(&mut self, condition: &Expression, message: &str, st: &Symboltable) -> (res:
        Option<TypedExpression>)
        requires
            st.wf(),
            old(self).counter() + expression_cost(*condition) <= u64::MAX,
        ensures
            folded_expression(
                res,
                final(self).pass(st@),
                condition_rule(
                    fold_expression_spec(*condition, old(self).pass(st@)).value,
                    message@,
                    fold_expression_spec(*condition, old(self).pass(st@)).state,
                ),
            ),
            old(self).counter() <= final(self).counter() <= old(self).counter() + expression_cost(
                *condition,
            ),
    {
        match self.fold_expression(condition, st) {
            None => None,
            Some(typed_condition) => {
                if typed_condition.node_type == NodeType::Simple(SimpleType::Boolean) {
                    Some(typed_condition)
                } else {
                    self.handle_error(&typed_condition.token, message);
                    None
                }
            },
        }
    }

    pub(crate) fn fold_if(
        &mut self,
        condition: &Expression,
        body: &Statement,
        else_body: &Option<Box<Statement>>,
        st: &mut Symboltable,
    ) -> (res: Option<TypedStatement>)
        requires
            old(st).wf(),
            old(self).has_room(
                old(st)@,
                1 + expression_cost(*condition) + statement_cost(*body) + match else_body {
                    Some(statement) => statement_cost(**statement),
                    None => 0,
                },
            ),
        ensures
            final(st).wf(),
            folded_statement(
                res,
                final(self).pass(final(st)@),
                fold_statement_spec(
                    Statement::If(*condition, Box::new(*body), *else_body),
                    old(self).pass(old(st)@),
                ),
            ),
            spent(
                old(self).pass(old(st)@),
                final(self).pass(final(st)@),
                1 + expression_cost(*condition) + statement_cost(*body) + match else_body {
                    Some(statement) => statement_cost(**statement),
                    None => 0,
                },
            ),
        decreases
                1 + expression_cost(*condition) + statement_cost(*body) + match else_body {
                    Some(statement) => statement_cost(**statement),
                    None => 0,
                },
                0nat,
    {
        let typed_condition = self.fold_condition(condition, "If condition must be a Boolean", st);
        let typed_body = self.fold_statement(body, st);
        match else_body {
            Some(has_else_body) => {
                let typed_eb = self.fold_statement(has_else_body, st);
                match (typed_condition, typed_body, typed_eb) {
                    (Some(c), Some(b), Some(eb)) => Some(
                        TypedStatement::If(c, Box::new(b), Some(Box::new(eb))),
                    ),
                    _ => None,
                }
            },
            None => match (typed_condition, typed_body) {
                (Some(c), Some(b)) => Some(TypedStatement::If(c, Box::new(b), None)),
                _ => None,
            },
        }
    }

    pub(crate) fn fold_while(&mut self, condition: &Expression, body: &Statement, st: &mut Symboltable) -> (res:
        Option<TypedStatement>)
        requires
            old(st).wf(),
            old(self).has_room(old(st)@, 1 + expression_cost(*condition) + statement_cost(*body)),
        ensures
            final(st).wf(),
            folded_statement(
                res,
                final(self).pass(final(st)@),
                fold_statement_spec(
                    Statement::While(*condition, Box::new(*body)),
                    old(self).pass(old(st)@),
                ),
            ),
            spent(
                old(self).pass(old(st)@),
                final(self).pass(final(st)@),
                1 + expression_cost(*condition) + statement_cost(*body),
            ),
        decreases 1 + expression_cost(*condition) + statement_cost(*body), 0nat,
    {
        let typed_condition = self.fold_condition(
            condition,
            "While condition must be of Boolean type",
            st,
        );
        let typed_body = self.fold_statement(body, st);
        match (typed_condition, typed_body) {
            (Some(c), Some(b)) => Some(TypedStatement::While(c, Box::new(b))),
            _ => None,
        }
    }

    pub(crate) fn fold_assert(&mut self, token: &Token, condition: &Expression, st: &Symboltable) -> (res:
        Option<TypedStatement>)
        requires
            st.wf(),
            old(self).counter() + expression_cost(*condition) <= u64::MAX,
        ensures
            folded_statement(
                res,
                final(self).pass(st@),
                fold_statement_spec(Statement::Assert(*token, *condition), old(self).pass(st@)),
            ),
            old(self).counter() <= final(self).counter() <= old(self).counter() + expression_cost(
                *condition,
            ),
    {
        match self.fold_expression(condition, st) {
            None => None,
            Some(typed_condition) => {
                if typed_condition.node_type == NodeType::Simple(SimpleType::Boolean) {
                    Some(TypedStatement::Assert(token.clone(), typed_condition))
                } else {
                    self.handle_error(token, "Assert condition must be of Boolean type");
                    None
                }
            },
        }
    }

    pub(crate) fn fold_call_statement(&mut self, token: &Token, arguments: &Vec<Expression>, st: &Symboltable)
        -> (res: Option<TypedStatement>)
        requires
            st.wf(),
            old(self).counter() + expressions_cost(arguments@, 0) <= u64::MAX,
        ensures
            folded_statement(
                res,
                final(self).pass(st@),
                fold_statement_spec(Statement::Call(*token, *arguments), old(self).pass(st@)),
            ),
            old(self).counter() <= final(self).counter() <= old(self).counter() + expressions_cost(
                arguments@,
                0,
            ),
    {
        match self.fold_arguments(arguments, st) {
            None => None,
            Some(typedargs) => match st.lookup(&token.lexeme) {
                Some(entry) => match &entry.category {
                    ConstructCategory::Special => self.fold_special_call_stmnt(
                        token,
                        entry,
                        typedargs,
                        Ghost(st@),
                    ),
                    ConstructCategory::Procedure(parameters) => self.fold_regular_call(
                        token,
                        entry,
                        parameters,
                        typedargs,
                        Ghost(st@),
                    ),
                    ConstructCategory::Function(_args, _params) => {
                        self.handle_error(token, "Attempting to call Function as statement");
                        None
                    },
                    _ => {
                        self.handle_error(token, "Call of non subroutine name");
                        None
                    },
                },
                None => {
                    self.handle_error(token, "Call of undeclared name");
                    None
                },
            },
        }
    }

    pub(crate) fn fold_special_call_stmnt(
        &mut self,
        token: &Token,
        entry: &Entry,
        arguments: Vec<TypedExpression>,
        Ghost(table): Ghost<TableModel>,
    ) -> (res: Option<TypedStatement>)
        requires
            table.lookup(token.lexeme@) == Some(entry@),
            entry.category is Special,
        ensures
            folded_statement(
                res,
                final(self).pass(table),
                call_statement_rule(
                    *token,
                    Some(expressions_view(arguments@)),
                    old(self).pass(table),
                ),
            ),
            final(self).counter() == old(self).counter(),
    {
        if *entry.name.as_str() == *"read" {
            let mut i: usize = 0;
            while i < arguments.len()
                invariant
                    i <= arguments.len(),
                    table.lookup(token.lexeme@) == Some(entry@),
                    entry.category is Special,
                    entry.name@ == "read"@,
                    self.counter() == old(self).counter(),
                    self.diagnostics() == old(self).diagnostics(),
                    first_non_variable(expressions_view(arguments@), i as int)
                        == first_non_variable(expressions_view(arguments@), 0),
                    forall|k: int|
                        0 <= k < i ==> (#[trigger] arguments@[k]).substructure is Variable,
                decreases arguments.len() - i,
            {
                assert((expressions_view(arguments@)[i as int].substructure is Variable)
                    == (arguments@[i as int].substructure is Variable));
                match &arguments[i].substructure {
                    TypedExpressionStructure::Variable(_) => {},
                    _ => {
                        self.handle_error(&arguments[i].token, "Non variable argument in read");
                        return None;
                    },
                }
                i = i + 1;
            }
            Some(TypedStatement::Read(self.read_args(arguments)))
        } else if *entry.name.as_str() == *"writeln" {
            Some(TypedStatement::Write(arguments))
        } else {
            self.handle_error(token, "Attempting to call Function as statement");
            None
        }
    }

    /// The variables that the arguments of a `read` are, in order.
    pub(crate) fn read_args(&self, arguments: Vec<TypedExpression>) -> (vars: Vec<Box<TypedVariable>>)
        requires
            forall|k: int|
                0 <= k < arguments@.len() ==> (#[trigger] arguments@[k]).substructure is Variable,
        ensures
            variables_view(vars@) == read_targets(expressions_view(arguments@)),
    {
        let mut rest = arguments;
        let mut reversed: Vec<Box<TypedVariable>> = Vec::new();
        while rest.len() > 0
            invariant
                rest@.len() + reversed@.len() == arguments@.len(),
                forall|k: int| 0 <= k < rest@.len() ==> rest@[k] == arguments@[k],
                forall|k: int|
                    0 <= k < arguments@.len() ==> (#[trigger] arguments@[k]).substructure is Variable,
                forall|k: int|
                    0 <= k < reversed@.len() ==> arguments@[arguments@.len() - 1 - k].substructure
                        == TypedExpressionStructure::Variable(#[trigger] reversed@[k]),
            decreases rest@.len(),
        {
            match rest.pop() {
                Some(arg) => match arg.substructure {
                    TypedExpressionStructure::Variable(typed_var) => {
                        reversed.push(typed_var);
                    },
                    _ => {},
                },
                None => {},
            }
        }
        let mut vars: Vec<Box<TypedVariable>> = Vec::new();
        while reversed.len() > 0
            invariant
                vars@.len() + reversed@.len() == arguments@.len(),
                forall|k: int|
                    0 <= k < reversed@.len() ==> arguments@[arguments@.len() - 1 - k].substructure
                        == TypedExpressionStructure::Variable(#[trigger] reversed@[k]),
                forall|k: int|
                    0 <= k < vars@.len() ==> arguments@[k].substructure
                        == TypedExpressionStructure::Variable(#[trigger] vars@[k]),
            decreases reversed@.len(),
        {
            match reversed.pop() {
                Some(typed_var) => {
                    vars.push(typed_var);
                },
                None => {},
            }
        }
        assert(variables_view(vars@) =~= read_targets(expressions_view(arguments@)));
        vars
    }

    pub(crate) fn fold_regular_call(
        &mut self,
        token: &Token,
        entry: &Entry,
        parameters: &Vec<NodeType>,
        arguments: Vec<TypedExpression>,
        Ghost(table): Ghost<TableModel>,
    ) -> (res: Option<TypedStatement>)
        requires
            table.lookup(token.lexeme@) == Some(entry@),
            entry.category == ConstructCategory::Procedure(*parameters),
        ensures
            folded_statement(
                res,
                final(self).pass(table),
                call_statement_rule(
                    *token,
                    Some(expressions_view(arguments@)),
                    old(self).pass(table),
                ),
            ),
            final(self).counter() == old(self).counter(),
    {
        if self.match_params_to_arguments(parameters, &arguments, token) {
            Some(TypedStatement::Call(entry.address, arguments))
        } else {
            None
        }
    }

    pub(crate) fn fold_return(&mut self, token: &Token, value: &Option<Expression>, st: &Symboltable) -> (res:
        Option<TypedStatement>)
        requires
            st.wf(),
            old(self).counter() + match value {
                Some(expression) => expression_cost(*expression),
                None => 0,
            } <= u64::MAX,
        ensures
            folded_statement(
                res,
                final(self).pass(st@),
                fold_statement_spec(Statement::Return(*token, *value), old(self).pass(st@)),
            ),
            old(self).counter() <= final(self).counter() <= old(self).counter() + match value {
                Some(expression) => expression_cost(*expression),
                None => 0,
            },
    {
        match value {
            Some(val) => match self.fold_expression(val, st) {
                Some(expr) => Some(TypedStatement::Return(token.clone(), Some(expr))),
                None => None,
            },
            None => Some(TypedStatement::Return(token.clone(), None)),
        }
    }
}

} // verus!
