//! The untyped tree that the parser builds.

use vstd::prelude::*;
use crate::token::{Token, TokenModel};

verus! {

/// A whole program: its name, its subroutines, and the statements of its
/// main block.
pub enum AST {
    Program(Token, Vec<Subroutine>, Vec<Statement>),
}

/// A subroutine: its name, its parameters, its body, and for a function
/// the type it returns.
pub enum Subroutine {
    Function(Token, Vec<(Token, TypeDescription)>, Vec<Statement>, TypeDescription),
    Procedure(Token, Vec<(Token, TypeDescription)>, Vec<Statement>),
}

pub enum Statement {
    Assign(Box<Variable>, Expression),
    Declaration(Token, TypeDescription),
    Block(Vec<Statement>),
    If(Expression, Box<Statement>, Option<Box<Statement>>),
    While(Expression, Box<Statement>),
    Assert(Token, Expression),
    Call(Token, Vec<Expression>),
    Return(Token, Option<Expression>),
}

pub enum Expression {
    Literal(Token),
    Variable(Box<Variable>),
    Binary(Box<Expression>, Box<Expression>, Token),
    Unary(Box<Expression>, Token),
    Call(Token, Vec<Expression>),
}

/// A type as written: the name of a scalar type, or an array of a scalar
/// type with the expression that gives its length.
pub enum TypeDescription {
    Simple(Token),
    Array(Token, Expression),
}

pub enum Variable {
    Simple(Token),
    Indexed(Token, Expression),
}

/// An upper bound on the number of addresses and of scopes that typing an
/// expression uses up: the number of its nodes.
pub open spec fn expression_cost(node: Expression) -> nat
    decreases node,
{
    match node {
        Expression::Literal(_) => 1,
        Expression::Variable(variable) => 1 + variable_cost(*variable),
        Expression::Binary(lhs, rhs, _) => 1 + expression_cost(*lhs) + expression_cost(*rhs),
        Expression::Unary(operand, _) => 1 + expression_cost(*operand),
        Expression::Call(_, arguments) => 1 + expressions_cost(arguments@, 0),
    }
}

/// The cost of the expressions of a list from the index on.
pub open spec fn expressions_cost(list: Seq<Expression>, from: int) -> nat
    decreases list, list.len() - from,
{
    if 0 <= from < list.len() {
        expression_cost(list[from]) + expressions_cost(list, from + 1)
    } else {
        0
    }
}

/// The cost of a variable.
pub open spec fn variable_cost(node: Variable) -> nat
    decreases node,
{
    match node {
        Variable::Simple(_) => 1,
        Variable::Indexed(_, index) => 1 + expression_cost(index),
    }
}

/// The cost of a type description.
pub open spec fn type_cost(node: TypeDescription) -> nat {
    match node {
        TypeDescription::Simple(_) => 1,
        TypeDescription::Array(_, length) => 1 + expression_cost(length),
    }
}

/// The cost of a statement.
pub open spec fn statement_cost(node: Statement) -> nat
    decreases node,
{
    match node {
        Statement::Assign(target, value) => 1 + variable_cost(*target) + expression_cost(value),
        Statement::Declaration(_, description) => 1 + type_cost(description),
        Statement::Block(body) => 1 + statements_cost(body@, 0),
        Statement::If(condition, body, else_body) => 1 + expression_cost(condition)
            + statement_cost(*body) + match else_body {
            Some(statement) => statement_cost(*statement),
            None => 0,
        },
        Statement::While(condition, body) => 1 + expression_cost(condition) + statement_cost(
            *body,
        ),
        Statement::Assert(_, condition) => 1 + expression_cost(condition),
        Statement::Call(_, arguments) => 1 + expressions_cost(arguments@, 0),
        Statement::Return(_, value) => 1 + match value {
            Some(expression) => expression_cost(expression),
            None => 0,
        },
    }
}

/// The cost of the statements of a list from the index on.
pub open spec fn statements_cost(list: Seq<Statement>, from: int) -> nat
    decreases list, list.len() - from,
{
    if 0 <= from < list.len() {
        statement_cost(list[from]) + statements_cost(list, from + 1)
    } else {
        0
    }
}

/// The cost of the parameters of a list from the index on.
pub open spec fn parameters_cost(list: Seq<(Token, TypeDescription)>, from: int) -> nat
    decreases list.len() - from,
{
    if 0 <= from < list.len() {
        1 + type_cost(list[from].1) + parameters_cost(list, from + 1)
    } else {
        0
    }
}

/// The cost of a subroutine.
pub open spec fn subroutine_cost(node: Subroutine) -> nat {
    match node {
        Subroutine::Function(_, parameters, body, out_type) => 3 + type_cost(out_type)
            + parameters_cost(parameters@, 0) + statements_cost(body@, 0),
        Subroutine::Procedure(_, parameters, body) => 3 + parameters_cost(parameters@, 0)
            + statements_cost(body@, 0),
    }
}

/// The cost of the subroutines of a list from the index on.
pub open spec fn subroutines_cost(list: Seq<Subroutine>, from: int) -> nat
    decreases list.len() - from,
{
    if 0 <= from < list.len() {
        subroutine_cost(list[from]) + subroutines_cost(list, from + 1)
    } else {
        0
    }
}

/// The cost of a program.
pub open spec fn program_cost(node: AST) -> nat {
    match node {
        AST::Program(_, subroutines, body) => 1 + subroutines_cost(subroutines@, 0)
            + statements_cost(body@, 0),
    }
}

/// A cost as a machine number, where it fits one.
pub open spec fn bounded(cost: nat) -> Option<u64> {
    if cost <= u64::MAX {
        Some(cost as u64)
    } else {
        None
    }
}

fn add_costs(first: Option<u64>, second: Option<u64>) -> (sum: Option<u64>)
    ensures
        forall|a: nat, b: nat|
            first == bounded(a) && second == bounded(b) ==> sum == #[trigger] bounded(a + b),
{
    match (first, second) {
        (Some(a), Some(b)) => a.checked_add(b),
        _ => None,
    }
}

/// Computes the cost of an expression, where it fits a machine number.
pub fn cost_of_expression(node: &Expression) -> (cost: Option<u64>)
    ensures
        cost == bounded(expression_cost(*node)),
    decreases node,
{
    match node {
        Expression::Literal(_) => Some(1),
        Expression::Variable(variable) => add_costs(Some(1), cost_of_variable(variable)),
        Expression::Binary(lhs, rhs, _) => add_costs(
            add_costs(Some(1), cost_of_expression(lhs)),
            cost_of_expression(rhs),
        ),
        Expression::Unary(operand, _) => add_costs(Some(1), cost_of_expression(operand)),
        Expression::Call(_, arguments) => add_costs(Some(1), cost_of_expressions(arguments)),
    }
}

/// Computes the cost of a list of expressions.
pub fn cost_of_expressions(list: &Vec<Expression>) -> (cost: Option<u64>)
    ensures
        cost == bounded(expressions_cost(list@, 0)),
    decreases list,
{
    let mut cost: Option<u64> = Some(0);
    let mut i: usize = list.len();
    while i > 0
        invariant
            i <= list.len(),
            cost == bounded(expressions_cost(list@, i as int)),
        decreases i,
    {
        i = i - 1;
        cost = add_costs(cost_of_expression(&list[i]), cost);
    }
    cost
}

/// Computes the cost of a variable.
pub fn cost_of_variable(node: &Variable) -> (cost: Option<u64>)
    ensures
        cost == bounded(variable_cost(*node)),
    decreases node,
{
    match node {
        Variable::Simple(_) => Some(1),
        Variable::Indexed(_, index) => add_costs(Some(1), cost_of_expression(index)),
    }
}

/// Computes the cost of a type description.
pub fn cost_of_type(node: &TypeDescription) -> (cost: Option<u64>)
    ensures
        cost == bounded(type_cost(*node)),
{
    match node {
        TypeDescription::Simple(_) => Some(1),
        TypeDescription::Array(_, length) => add_costs(Some(1), cost_of_expression(length)),
    }
}

/// Computes the cost of a statement.
pub fn cost_of_statement(node: &Statement) -> (cost: Option<u64>)
    ensures
        cost == bounded(statement_cost(*node)),
    decreases node,
{
    match node {
        Statement::Assign(target, value) => add_costs(
            add_costs(Some(1), cost_of_variable(target)),
            cost_of_expression(value),
        ),
        Statement::Declaration(_, description) => add_costs(Some(1), cost_of_type(description)),
        Statement::Block(body) => add_costs(Some(1), cost_of_statements(body)),
        Statement::If(condition, body, else_body) => add_costs(
            add_costs(
                add_costs(Some(1), cost_of_expression(condition)),
                cost_of_statement(body),
            ),
            match else_body {
                Some(statement) => cost_of_statement(statement),
                None => Some(0),
            },
        ),
        Statement::While(condition, body) => add_costs(
            add_costs(Some(1), cost_of_expression(condition)),
            cost_of_statement(body),
        ),
        Statement::Assert(_, condition) => add_costs(Some(1), cost_of_expression(condition)),
        Statement::Call(_, arguments) => add_costs(Some(1), cost_of_expressions(arguments)),
        Statement::Return(_, value) => add_costs(
            Some(1),
            match value {
                Some(expression) => cost_of_expression(expression),
                None => Some(0),
            },
        ),
    }
}

/// Computes the cost of a list of statements.
pub fn cost_of_statements(list: &Vec<Statement>) -> (cost: Option<u64>)
    ensures
        cost == bounded(statements_cost(list@, 0)),
    decreases list,
{
    let mut cost: Option<u64> = Some(0);
    let mut i: usize = list.len();
    while i > 0
        invariant
            i <= list.len(),
            cost == bounded(statements_cost(list@, i as int)),
        decreases i,
    {
        i = i - 1;
        cost = add_costs(cost_of_statement(&list[i]), cost);
    }
    cost
}

/// Computes the cost of a list of parameters.
pub fn cost_of_parameters(list: &Vec<(Token, TypeDescription)>) -> (cost: Option<u64>)
    ensures
        cost == bounded(parameters_cost(list@, 0)),
{
    let mut cost: Option<u64> = Some(0);
    let mut i: usize = list.len();
    while i > 0
        invariant
            i <= list.len(),
            cost == bounded(parameters_cost(list@, i as int)),
        decreases i,
    {
        i = i - 1;
        cost = add_costs(add_costs(Some(1), cost_of_type(&list[i].1)), cost);
    }
    cost
}

/// Computes the cost of a subroutine.
pub fn cost_of_subroutine(node: &Subroutine) -> (cost: Option<u64>)
    ensures
        cost == bounded(subroutine_cost(*node)),
{
    match node {
        Subroutine::Function(_, parameters, body, out_type) => add_costs(
            add_costs(add_costs(Some(3), cost_of_type(out_type)), cost_of_parameters(parameters)),
            cost_of_statements(body),
        ),
        Subroutine::Procedure(_, parameters, body) => add_costs(
            add_costs(Some(3), cost_of_parameters(parameters)),
            cost_of_statements(body),
        ),
    }
}

/// Computes the cost of a program.
pub fn cost_of_program(node: &AST) -> (cost: Option<u64>)
    ensures
        cost == bounded(program_cost(*node)),
{
    match node {
        AST::Program(_, subroutines, body) => {
            let mut cost: Option<u64> = Some(0);
            let mut i: usize = subroutines.len();
            while i > 0
                invariant
                    i <= subroutines.len(),
                    cost == bounded(subroutines_cost(subroutines@, i as int)),
                decreases i,
            {
                i = i - 1;
                cost = add_costs(cost_of_subroutine(&subroutines[i]), cost);
            }
            add_costs(add_costs(Some(1), cost), cost_of_statements(body))
        },
    }
}

/// A program as a mathematical value.
pub enum ProgramTree {
    Program(TokenModel, Seq<SubroutineTree>, Seq<StatementTree>),
}

/// A subroutine as a mathematical value.
pub enum SubroutineTree {
    Function(TokenModel, Seq<(TokenModel, TypeTree)>, Seq<StatementTree>, TypeTree),
    Procedure(TokenModel, Seq<(TokenModel, TypeTree)>, Seq<StatementTree>),
}

/// A statement as a mathematical value.
pub enum StatementTree {
    Assign(Box<VariableTree>, ExpressionTree),
    Declaration(TokenModel, TypeTree),
    Block(Seq<StatementTree>),
    If(ExpressionTree, Box<StatementTree>, Option<Box<StatementTree>>),
    While(ExpressionTree, Box<StatementTree>),
    Assert(TokenModel, ExpressionTree),
    Call(TokenModel, Seq<ExpressionTree>),
    Return(TokenModel, Option<ExpressionTree>),
}

/// An expression as a mathematical value.
pub enum ExpressionTree {
    Literal(TokenModel),
    Variable(Box<VariableTree>),
    Binary(Box<ExpressionTree>, Box<ExpressionTree>, TokenModel),
    Unary(Box<ExpressionTree>, TokenModel),
    Call(TokenModel, Seq<ExpressionTree>),
}

/// A type description as a mathematical value.
pub enum TypeTree {
    Simple(TokenModel),
    Array(TokenModel, ExpressionTree),
}

/// A variable as a mathematical value.
pub enum VariableTree {
    Simple(TokenModel),
    Indexed(TokenModel, ExpressionTree),
}

impl Expression {
    pub open spec fn view(&self) -> ExpressionTree
        decreases self,
    {
        match self {
            Expression::Literal(token) => ExpressionTree::Literal(token@),
            Expression::Variable(variable) => ExpressionTree::Variable(Box::new(variable.view())),
            Expression::Binary(lhs, rhs, op) => ExpressionTree::Binary(
                Box::new(lhs.view()),
                Box::new(rhs.view()),
                op@,
            ),
            Expression::Unary(operand, op) => ExpressionTree::Unary(Box::new(operand.view()), op@),
            Expression::Call(token, arguments) => ExpressionTree::Call(
                token@,
                Seq::new(
                    arguments@.len(),
                    |i: int|
                        if 0 <= i < arguments@.len() {
                            arguments@[i].view()
                        } else {
                            arbitrary()
                        },
                ),
            ),
        }
    }
}

impl Variable {
    pub open spec fn view(&self) -> VariableTree
        decreases self,
    {
        match self {
            Variable::Simple(token) => VariableTree::Simple(token@),
            Variable::Indexed(token, index) => VariableTree::Indexed(token@, index.view()),
        }
    }
}

impl TypeDescription {
    pub open spec fn view(&self) -> TypeTree {
        match self {
            TypeDescription::Simple(token) => TypeTree::Simple(token@),
            TypeDescription::Array(token, length) => TypeTree::Array(token@, length@),
        }
    }
}

/// The views of a list of expressions.
pub open spec fn expression_trees(list: Seq<Expression>) -> Seq<ExpressionTree> {
    Seq::new(list.len(), |i: int| list[i]@)
}

/// The views of a list of statements.
pub open spec fn statement_trees(list: Seq<Statement>) -> Seq<StatementTree> {
    Seq::new(list.len(), |i: int| list[i]@)
}

/// The views of a list of parameters.
pub open spec fn parameter_trees(list: Seq<(Token, TypeDescription)>) -> Seq<
    (TokenModel, TypeTree),
> {
    Seq::new(list.len(), |i: int| (list[i].0@, list[i].1@))
}

/// The views of a list of subroutines.
pub open spec fn subroutine_trees(list: Seq<Subroutine>) -> Seq<SubroutineTree> {
    Seq::new(list.len(), |i: int| list[i]@)
}

impl Statement {
    pub open spec fn view(&self) -> StatementTree
        decreases self,
    {
        match self {
            Statement::Assign(target, value) => StatementTree::Assign(
                Box::new(target.view()),
                value@,
            ),
            Statement::Declaration(name, description) => StatementTree::Declaration(
                name@,
                description@,
            ),
            Statement::Block(body) => StatementTree::Block(
                Seq::new(
                    body@.len(),
                    |i: int|
                        if 0 <= i < body@.len() {
                            body@[i].view()
                        } else {
                            arbitrary()
                        },
                ),
            ),
            Statement::If(condition, body, else_body) => StatementTree::If(
                condition@,
                Box::new(body.view()),
                match else_body {
                    Some(statement) => Some(Box::new(statement.view())),
                    None => None,
                },
            ),
            Statement::While(condition, body) => StatementTree::While(
                condition@,
                Box::new(body.view()),
            ),
            Statement::Assert(token, condition) => StatementTree::Assert(token@, condition@),
            Statement::Call(token, arguments) => StatementTree::Call(
                token@,
                expression_trees(arguments@),
            ),
            Statement::Return(token, value) => StatementTree::Return(
                token@,
                match value {
                    Some(expression) => Some(expression@),
                    None => None,
                },
            ),
        }
    }
}

impl Subroutine {
    pub open spec fn view(&self) -> SubroutineTree {
        match self {
            Subroutine::Function(name, parameters, body, out_type) => SubroutineTree::Function(
                name@,
                parameter_trees(parameters@),
                statement_trees(body@),
                out_type@,
            ),
            Subroutine::Procedure(name, parameters, body) => SubroutineTree::Procedure(
                name@,
                parameter_trees(parameters@),
                statement_trees(body@),
            ),
        }
    }
}

impl AST {
    pub open spec fn view(&self) -> ProgramTree {
        match self {
            AST::Program(name, subroutines, body) => ProgramTree::Program(
                name@,
                subroutine_trees(subroutines@),
                statement_trees(body@),
            ),
        }
    }
}

/// The arguments of a call, seen as a list of views.
pub proof fn lemma_call_tree(expression: Expression)
    ensures
        expression matches Expression::Call(token, arguments) ==> expression@
            == ExpressionTree::Call(token@, expression_trees(arguments@)),
{
    match expression {
        Expression::Call(token, arguments) => {
            assert(expression@->Call_1 =~= expression_trees(arguments@));
        },
        _ => {},
    }
}

/// The body of a block, seen as a list of views.
pub proof fn lemma_block_tree(statement: Statement)
    ensures
        statement matches Statement::Block(body) ==> statement@ == StatementTree::Block(
            statement_trees(body@),
        ),
{
    match statement {
        Statement::Block(body) => {
            assert(statement@->Block_0 =~= statement_trees(body@));
        },
        _ => {},
    }
}

} // verus!
