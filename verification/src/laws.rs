//! What holds of every pass: a construct comes out typed exactly when the
//! pass reported nothing for it, diagnostics are only ever added, folding an
//! expression leaves the symbol table alone, and a name cannot be declared
//! twice in one scope.

use vstd::prelude::*;
use crate::ast::{Expression, Statement, Subroutine, TypeDescription, Variable, AST};
use crate::token::Token;
use crate::typedast::{ExpressionModel, StatementModel, SubroutineModel, TypeModel, VariableModel};
use crate::typing::{
    collect,
    condition_rule,
    diagnostic,
    fold_block_spec,
    fold_declaration_core_spec,
    fold_expression_spec,
    fold_expressions_spec,
    fold_parameters_spec,
    fold_program_spec,
    fold_statement_spec,
    fold_statements_spec,
    fold_subroutine_spec,
    fold_subroutines_spec,
    fold_type_description_spec,
    fold_variable_spec,
    Outcome,
    Pass,
};

verus! {

/// The diagnostics `after` continue the diagnostics `before`: what was
/// reported stays as it was, and something was added exactly when `failed`.
pub open spec fn told(before: Seq<Seq<char>>, after: Seq<Seq<char>>, failed: bool) -> bool {
    &&& before.len() <= after.len()
    &&& forall|i: int| 0 <= i < before.len() ==> after[i] == before[i]
    &&& failed <==> before.len() < after.len()
}

/// Diagnostics that only continue others are the same when nothing was
/// added.
pub proof fn lemma_told_nothing(before: Seq<Seq<char>>, after: Seq<Seq<char>>)
    requires
        told(before, after, false),
    ensures
        after == before,
{
    assert(after =~= before);
}

/// A fold kept to the reporting policy: its result is there exactly when it
/// reported nothing, and it changed nothing of what was reported before.
pub open spec fn kept<T>(state: Pass, outcome: Outcome<T>) -> bool {
    told(state.errors, outcome.state.errors, outcome.value is None)
}

/// A fold over a list kept to the reporting policy: the list comes out
/// exactly when the list before it was there and the fold reported nothing.
pub open spec fn kept_list<T>(collected: Option<Seq<T>>, state: Pass, outcome: Outcome<Seq<T>>)
    -> bool {
    &&& told(
        state.errors,
        outcome.state.errors,
        state.errors.len() < outcome.state.errors.len(),
    )
    &&& outcome.value is Some <==> collected is Some && outcome.state.errors.len()
        == state.errors.len()
}

/// Folding an expression keeps to the reporting policy, leaves the table as
/// it was, and takes addresses only upwards.
pub proof fn lemma_expression(node: Expression, state: Pass)
    ensures
        kept(state, fold_expression_spec(node, state)),
        fold_expression_spec(node, state).state.table == state.table,
        fold_expression_spec(node, state).state.counter >= state.counter,
    decreases node,
{
    match node {
        Expression::Literal(token) => {},
        Expression::Variable(variable) => {
            lemma_variable(*variable, state);
        },
        Expression::Binary(lhs, rhs, op) => {
            lemma_expression(*lhs, state);
            lemma_expression(*rhs, fold_expression_spec(*lhs, state).state);
        },
        Expression::Unary(operand, op) => {
            lemma_expression(*operand, state);
        },
        Expression::Call(token, arguments) => {
            lemma_expressions(arguments@, 0, Some(Seq::empty()), state);
        },
    }
}

/// Folding a variable keeps to the reporting policy, leaves the table as it
/// was, and takes addresses only upwards.
pub proof fn lemma_variable(node: Variable, state: Pass)
    ensures
        kept(state, fold_variable_spec(node, state)),
        fold_variable_spec(node, state).state.table == state.table,
        fold_variable_spec(node, state).state.counter >= state.counter,
    decreases node,
{
    match node {
        Variable::Simple(token) => {},
        Variable::Indexed(token, index) => {
            lemma_expression(index, state);
        },
    }
}

/// Folding a list of expressions keeps to the reporting policy, leaves the
/// table as it was, and takes addresses only upwards.
pub proof fn lemma_expressions(
    list: Seq<Expression>,
    from: int,
    collected: Option<Seq<ExpressionModel>>,
    state: Pass,
)
    ensures
        kept_list(collected, state, fold_expressions_spec(list, from, collected, state)),
        fold_expressions_spec(list, from, collected, state).state.table == state.table,
        fold_expressions_spec(list, from, collected, state).state.counter >= state.counter,
    decreases list, list.len() - from,
{
    if 0 <= from < list.len() {
        let folded = fold_expression_spec(list[from], state);
        lemma_expression(list[from], state);
        lemma_expressions(list, from + 1, collect(collected, folded.value), folded.state);
    }
}

/// Folding a declaration keeps to the reporting policy and leaves the stack
/// of active scopes as it was.
pub proof fn lemma_declaration(name: Token, description: TypeDescription, state: Pass)
    ensures
        kept(state, fold_declaration_core_spec(name, description, state)),
        fold_declaration_core_spec(name, description, state).state.table.stack
            == state.table.stack,
        fold_declaration_core_spec(name, description, state).state.counter >= state.counter,
{
    match description {
        TypeDescription::Simple(type_token) => {},
        TypeDescription::Array(type_token, length) => {
            lemma_expression(length, state);
        },
    }
}

/// Folding a type description keeps to the reporting policy and leaves the
/// table as it was.
pub proof fn lemma_type_description(description: TypeDescription, state: Pass)
    ensures
        kept(state, fold_type_description_spec(description, state)),
        fold_type_description_spec(description, state).state.table == state.table,
        fold_type_description_spec(description, state).state.counter >= state.counter,
{
    match description {
        TypeDescription::Simple(type_token) => {},
        TypeDescription::Array(type_token, length) => {
            lemma_expression(length, state);
        },
    }
}

/// Folding an assignment keeps to the reporting policy and leaves the table
/// as it was.
pub proof fn lemma_assign(target: Variable, value: Expression, state: Pass)
    ensures
        kept(state, fold_statement_spec(Statement::Assign(Box::new(target), value), state)),
        fold_statement_spec(Statement::Assign(Box::new(target), value), state).state.table
            == state.table,
        fold_statement_spec(Statement::Assign(Box::new(target), value), state).state.counter
            >= state.counter,
{
    lemma_variable(target, state);
    lemma_expression(value, fold_variable_spec(target, state).state);
}

/// Folding a call that stands as a statement keeps to the reporting policy
/// and leaves the table as it was.
pub proof fn lemma_call_statement(token: Token, arguments: Vec<Expression>, state: Pass)
    ensures
        kept(state, fold_statement_spec(Statement::Call(token, arguments), state)),
        fold_statement_spec(Statement::Call(token, arguments), state).state.table == state.table,
        fold_statement_spec(Statement::Call(token, arguments), state).state.counter
            >= state.counter,
{
    lemma_expressions(arguments@, 0, Some(Seq::empty()), state);
}

/// Folding an assertion or a `return` keeps to the reporting policy and
/// leaves the table as it was.
pub proof fn lemma_assert_or_return(node: Statement, state: Pass)
    requires
        node is Assert || node is Return,
    ensures
        kept(state, fold_statement_spec(node, state)),
        fold_statement_spec(node, state).state.table == state.table,
        fold_statement_spec(node, state).state.counter >= state.counter,
{
    match node {
        Statement::Assert(token, condition) => {
            lemma_expression(condition, state);
        },
        Statement::Return(token, Some(value)) => {
            lemma_expression(value, state);
        },
        _ => {},
    }
}

/// Folding a statement keeps to the reporting policy and leaves the stack of
/// active scopes as it was: every scope that was opened was left again.
pub proof fn lemma_statement(node: Statement, state: Pass)
    ensures
        kept(state, fold_statement_spec(node, state)),
        fold_statement_spec(node, state).state.table.stack == state.table.stack,
        fold_statement_spec(node, state).state.counter >= state.counter,
    decreases node,
{
    match node {
        Statement::Assign(target, value) => {
            lemma_assign(*target, value, state);
        },
        Statement::Declaration(name, description) => {
            lemma_declaration(name, description, state);
        },
        Statement::Block(body) => {
            lemma_block(body@, state);
        },
        Statement::If(condition, body, else_body) => {
            lemma_expression(condition, state);
            let folded = fold_expression_spec(condition, state);
            let checked = condition_rule(
                folded.value,
                "If condition must be a Boolean"@,
                folded.state,
            );
            assert(kept(state, checked));
            lemma_statement(*body, checked.state);
            match else_body {
                Some(else_body) => {
                    lemma_statement(*else_body, fold_statement_spec(*body, checked.state).state);
                },
                None => {},
            }
        },
        Statement::While(condition, body) => {
            lemma_expression(condition, state);
            let folded = fold_expression_spec(condition, state);
            let checked = condition_rule(
                folded.value,
                "While condition must be of Boolean type"@,
                folded.state,
            );
            assert(kept(state, checked));
            lemma_statement(*body, checked.state);
        },
        Statement::Assert(token, condition) => {
            lemma_assert_or_return(node, state);
        },
        Statement::Call(token, arguments) => {
            lemma_call_statement(token, arguments, state);
        },
        Statement::Return(token, value) => {
            lemma_assert_or_return(node, state);
        },
    }
}

/// Folding a list of statements keeps to the reporting policy and leaves
/// the stack of active scopes as it was.
pub proof fn lemma_statements(
    list: Seq<Statement>,
    from: int,
    collected: Option<Seq<StatementModel>>,
    state: Pass,
)
    ensures
        kept_list(collected, state, fold_statements_spec(list, from, collected, state)),
        fold_statements_spec(list, from, collected, state).state.table.stack
            == state.table.stack,
        fold_statements_spec(list, from, collected, state).state.counter >= state.counter,
    decreases list, list.len() - from,
{
    if 0 <= from < list.len() {
        let folded = fold_statement_spec(list[from], state);
        lemma_statement(list[from], state);
        lemma_statements(list, from + 1, collect(collected, folded.value), folded.state);
    }
}

/// Folding a block keeps to the reporting policy and leaves the stack of
/// active scopes as it was.
pub proof fn lemma_block(body: Seq<Statement>, state: Pass)
    ensures
        kept(state, fold_block_spec(body, state)),
        fold_block_spec(body, state).state.table.stack == state.table.stack,
        fold_block_spec(body, state).state.counter >= state.counter,
        fold_block_spec(body, state).value matches Some(statement) ==> statement is Block,
    decreases body, body.len() + 1,
{
    lemma_statements(body, 0, Some(Seq::empty()), state.open_scope());
    if state.table.stack.len() > 0 {
        assert(state.open_scope().table.stack.drop_last() =~= state.table.stack);
    }
}

/// Folding a list of parameters keeps to the reporting policy and leaves
/// the stack of active scopes as it was.
pub proof fn lemma_parameters(
    list: Seq<(Token, TypeDescription)>,
    from: int,
    collected: Option<Seq<(VariableModel, TypeModel)>>,
    state: Pass,
)
    ensures
        kept_list(collected, state, fold_parameters_spec(list, from, collected, state)),
        fold_parameters_spec(list, from, collected, state).state.table.stack
            == state.table.stack,
        fold_parameters_spec(list, from, collected, state).state.counter >= state.counter,
    decreases list.len() - from,
{
    if 0 <= from < list.len() {
        let folded = fold_declaration_core_spec(list[from].0, list[from].1, state);
        lemma_declaration(list[from].0, list[from].1, state);
        lemma_parameters(list, from + 1, collect(collected, folded.value), folded.state);
    }
}

/// Folding a subroutine keeps to the reporting policy and leaves the stack
/// of active scopes as it was.
pub proof fn lemma_subroutine(node: Subroutine, state: Pass)
    ensures
        kept(state, fold_subroutine_spec(node, state)),
        fold_subroutine_spec(node, state).state.table.stack == state.table.stack,
        fold_subroutine_spec(node, state).state.counter >= state.counter,
{
    let opened = state.bump().open_routine_scope();
    if state.table.stack.len() > 0 {
        assert(opened.table.stack.drop_last() =~= state.table.stack);
    }
    match node {
        Subroutine::Procedure(name, parameters, body) => {
            lemma_parameters(parameters@, 0, Some(Seq::empty()), opened);
            let folded = fold_parameters_spec(parameters@, 0, Some(Seq::empty()), opened);
            if let Some(typed_parameters) = folded.value {
                let declared = folded.state.declare(
                    crate::typing::subroutine_entry(
                        name,
                        crate::symboltable::CategoryModel::Procedure(
                            crate::typing::parameter_types(typed_parameters),
                        ),
                        state.table.current(),
                        state.fresh(),
                    ),
                );
                lemma_block(body@, declared);
            }
        },
        Subroutine::Function(name, parameters, body, out_type) => {
            lemma_type_description(out_type, opened);
            let typed_type = fold_type_description_spec(out_type, opened);
            if let Some(out) = typed_type.value {
                lemma_parameters(parameters@, 0, Some(Seq::empty()), typed_type.state);
                let folded = fold_parameters_spec(
                    parameters@,
                    0,
                    Some(Seq::empty()),
                    typed_type.state,
                );
                if let Some(typed_parameters) = folded.value {
                    let declared = folded.state.declare(
                        crate::typing::subroutine_entry(
                            name,
                            crate::symboltable::CategoryModel::Function(
                                crate::typing::parameter_types(typed_parameters),
                                out.node_type(),
                            ),
                            state.table.current(),
                            state.fresh(),
                        ),
                    );
                    lemma_block(body@, declared);
                }
            }
        },
    }
}

/// Folding a list of subroutines keeps to the reporting policy and leaves
/// the stack of active scopes as it was.
pub proof fn lemma_subroutines(
    list: Seq<Subroutine>,
    from: int,
    collected: Option<Seq<SubroutineModel>>,
    state: Pass,
)
    ensures
        kept_list(collected, state, fold_subroutines_spec(list, from, collected, state)),
        fold_subroutines_spec(list, from, collected, state).state.table.stack
            == state.table.stack,
        fold_subroutines_spec(list, from, collected, state).state.counter >= state.counter,
    decreases list.len() - from,
{
    if 0 <= from < list.len() {
        let folded = fold_subroutine_spec(list[from], state);
        lemma_subroutine(list[from], state);
        lemma_subroutines(list, from + 1, collect(collected, folded.value), folded.state);
    }
}

/// The reporting policy of a whole pass. The typed program comes out exactly
/// when the pass added no diagnostic; what was reported before stays as it
/// was; and when the pass is over the scopes that were active before it are
/// active again, no more and no fewer.
pub proof fn lemma_program(node: AST, state: Pass)
    ensures
        kept(state, fold_program_spec(node, state)),
        fold_program_spec(node, state).value is Some <==> fold_program_spec(
            node,
            state,
        ).state.errors == state.errors,
        fold_program_spec(node, state).state.table.stack == state.table.stack,
        fold_program_spec(node, state).state.counter >= state.counter,
{
    match node {
        AST::Program(name, subroutines, body) => {
            lemma_subroutines(subroutines@, 0, Some(Seq::empty()), state);
            let folded = fold_subroutines_spec(subroutines@, 0, Some(Seq::empty()), state);
            lemma_block(body@, folded.state);
        },
    }
    let outcome = fold_program_spec(node, state);
    if outcome.value is Some {
        lemma_told_nothing(state.errors, outcome.state.errors);
    }
}

/// Redeclaration. Once a name was declared, declaring it again in the same
/// scope, as whatever type, is rejected with exactly one diagnostic, and
/// neither the table nor the addresses change.
pub proof fn lemma_redeclaration(
    name: Token,
    description: TypeDescription,
    again: Token,
    other: TypeDescription,
    state: Pass,
)
    requires
        state.table.wf(),
        state.table.stack.len() > 0,
        again.lexeme@ == name.lexeme@,
        fold_declaration_core_spec(name, description, state).value is Some,
    ensures
        ({
            let first = fold_declaration_core_spec(name, description, state);
            let second = fold_declaration_core_spec(again, other, first.state);
            &&& second.value is None
            &&& second.state.errors == first.state.errors.push(
                diagnostic("Variable declared twice"@, again.row, again.column),
            )
            &&& second.state.table == first.state.table
            &&& second.state.counter == first.state.counter
        }),
{
    match description {
        TypeDescription::Simple(type_token) => {
            let node_type = crate::typedast::NodeType::Simple(
                crate::typing::named_kind(state.table, type_token.lexeme@),
            );
            let entry = crate::typing::declared_entry(
                name.lexeme@,
                crate::symboltable::CategoryModel::SimpleVar,
                node_type,
                state,
            );
            state.table.lemma_declare(entry, name.lexeme@);
        },
        TypeDescription::Array(type_token, length) => {
            lemma_expression(length, state);
            let folded = fold_expression_spec(length, state);
            let node_type = crate::typedast::NodeType::ArrayOf(
                crate::typing::named_kind(folded.state.table, type_token.lexeme@),
            );
            let entry = crate::typing::declared_entry(
                name.lexeme@,
                crate::symboltable::CategoryModel::ArrayVar,
                node_type,
                folded.state,
            );
            state.table.lemma_declare(entry, name.lexeme@);
        },
    }
}

/// Shadowing in a pass. A name that a scope further out declares, and the
/// active scope does not, can be declared: the declaration is not rejected
/// as a redeclaration.
pub proof fn lemma_shadowing_is_no_redeclaration(name: Token, type_token: Token, state: Pass)
    requires
        state.table.lookup(name.lexeme@) is Some,
        !state.table.declared_here(name.lexeme@),
        crate::typing::type_name_fault(state.table, type_token.lexeme@) is None,
    ensures
        fold_declaration_core_spec(name, TypeDescription::Simple(type_token), state).value
            is Some,
        fold_declaration_core_spec(name, TypeDescription::Simple(type_token), state).state.errors
            == state.errors,
{
}

/// Fresh addresses. The addresses that a pass issues are flat, no two of
/// them are the same, and none of them is one of the two that are reserved
/// for the truth values.
pub proof fn lemma_fresh_addresses(earlier: Pass, later: Pass)
    requires
        2 <= earlier.counter < later.counter < u64::MAX,
    ensures
        earlier.fresh() != later.fresh(),
        earlier.fresh().data is Simple,
        earlier.fresh().base() > 2,
        later.fresh().base() > earlier.fresh().base(),
{
}

} // verus!
