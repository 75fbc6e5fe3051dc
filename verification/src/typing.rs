//! The typing rules, as mathematics. A pass over the tree threads a state
//! through it: the diagnostics reported so far, the last address issued, and
//! the symbol table. Each rule says, for one kind of construct, what comes
//! out given what came out of the parts; the folds apply the rules along the
//! tree.

use vstd::prelude::*;
use crate::address::{Address, AddressData};
use crate::ast::{AST, Expression, Statement, Subroutine, TypeDescription, Variable};
use crate::opkind::{opkind_of, OpKind};
use crate::symboltable::{CategoryModel, EntryModel, TableModel};
use crate::text::decimal;
use crate::token::{Token, TokenKind};
use crate::typedast::{
    ExpressionModel,
    ExpressionStructureModel,
    NodeType,
    ProgramModel,
    SimpleType,
    StatementModel,
    SubroutineModel,
    TypeModel,
    VariableModel,
    VariableStructureModel,
};

verus! {

/// The text of a diagnostic: the message, and the place counted from one.
pub open spec fn diagnostic(message: Seq<char>, row: usize, column: usize) -> Seq<char> {
    "Semantic error: "@ + message + " on line "@ + decimal((row + 1) as nat) + ", column "@
        + decimal((column + 1) as nat) + "."@
}

/// The flat address with the number after `counter`.
pub open spec fn address_after(counter: int) -> Address {
    Address { data: AddressData::Simple((counter + 1) as u64) }
}

/// The state of a pass.
pub struct Pass {
    /// The diagnostics reported so far, oldest first.
    pub errors: Seq<Seq<char>>,
    /// The number of the last address issued.
    pub counter: int,
    pub table: TableModel,
}

impl Pass {
    /// One more diagnostic, at the place of the token.
    pub open spec fn report(self, message: Seq<char>, token: Token) -> Pass {
        Pass { errors: self.errors.push(diagnostic(message, token.row, token.column)), ..self }
    }

    /// The address that is issued next.
    pub open spec fn fresh(self) -> Address {
        address_after(self.counter)
    }

    /// The state after one address was issued.
    pub open spec fn bump(self) -> Pass {
        Pass { counter: self.counter + 1, ..self }
    }

    /// The state with a new scope opened inside the active one for a block.
    pub open spec fn open_scope(self) -> Pass {
        Pass { table: self.table.child(false), ..self }
    }

    /// The state with a new scope opened inside the active one for a
    /// subroutine: a scope that closes off the body of the routine.
    pub open spec fn open_routine_scope(self) -> Pass {
        Pass { table: self.table.child(true), ..self }
    }

    /// The state with the active scope left.
    pub open spec fn close_scope(self) -> Pass {
        Pass { table: self.table.exit(), ..self }
    }

    /// The state with one more entry in the table.
    pub open spec fn declare(self, entry: EntryModel) -> Pass {
        Pass { table: self.table.add(entry), ..self }
    }
}

/// What folding a construct gives: the typed construct, or nothing where it
/// could not be typed, and the state after it.
pub struct Outcome<T> {
    pub value: Option<T>,
    pub state: Pass,
}

/// The construct was typed.
pub open spec fn done<T>(value: T, state: Pass) -> Outcome<T> {
    Outcome { value: Some(value), state }
}

/// The construct could not be typed.
pub open spec fn failed<T>(state: Pass) -> Outcome<T> {
    Outcome { value: None, state }
}

/// The construct could not be typed, and this is why.
pub open spec fn rejected<T>(state: Pass, message: Seq<char>, token: Token) -> Outcome<T> {
    Outcome { value: None, state: state.report(message, token) }
}

/// The scalar kind that a literal token writes.
pub open spec fn literal_kind(kind: TokenKind) -> Option<SimpleType> {
    match kind {
        TokenKind::IntegerLiteral => Some(SimpleType::Integer),
        TokenKind::StringLiteral => Some(SimpleType::String),
        TokenKind::RealLiteral => Some(SimpleType::Real),
        _ => None,
    }
}

/// Which operators apply to operands of a scalar kind, and the type of the
/// result. Numbers take arithmetic and comparisons, the remainder is for
/// integers only; strings take `+` and comparisons; truth values take
/// comparisons, `and` and `or`.
pub open spec fn operator_result(kind: SimpleType, op: OpKind) -> Option<NodeType> {
    match kind {
        SimpleType::Integer => match op {
            OpKind::Addition | OpKind::Modulo | OpKind::NumArithmetic(_) => Some(
                NodeType::Simple(SimpleType::Integer),
            ),
            OpKind::Relational(_) => Some(NodeType::Simple(SimpleType::Boolean)),
            OpKind::BoolArithmetic(_) => None,
        },
        SimpleType::Real => match op {
            OpKind::Addition | OpKind::NumArithmetic(_) => Some(NodeType::Simple(SimpleType::Real)),
            OpKind::Relational(_) => Some(NodeType::Simple(SimpleType::Boolean)),
            OpKind::Modulo | OpKind::BoolArithmetic(_) => None,
        },
        SimpleType::String => match op {
            OpKind::Addition => Some(NodeType::Simple(SimpleType::String)),
            OpKind::Relational(_) => Some(NodeType::Simple(SimpleType::Boolean)),
            OpKind::NumArithmetic(_) | OpKind::Modulo | OpKind::BoolArithmetic(_) => None,
        },
        SimpleType::Boolean => match op {
            OpKind::Relational(_) | OpKind::BoolArithmetic(_) => Some(
                NodeType::Simple(SimpleType::Boolean),
            ),
            OpKind::Addition | OpKind::NumArithmetic(_) | OpKind::Modulo => None,
        },
    }
}

/// The message for an operator that does not apply to a kind.
pub open spec fn bad_operator_message(kind: SimpleType) -> Seq<char> {
    match kind {
        SimpleType::Integer => "Bad operator for integer"@,
        SimpleType::Real => "Bad operator for real"@,
        SimpleType::String => "Bad operator for string"@,
        SimpleType::Boolean => "Bad operator for boolean"@,
    }
}

/// A literal has the type that its token writes and lives at a fresh address.
pub open spec fn literal_rule(token: Token, state: Pass) -> Outcome<ExpressionModel> {
    match literal_kind(token.token_kind) {
        Some(kind) => done(
            ExpressionModel {
                token,
                address: state.fresh(),
                node_type: NodeType::Simple(kind),
                substructure: ExpressionStructureModel::Literal,
            },
            state.bump(),
        ),
        None => rejected(state, "Non literal parsed as one"@, token),
    }
}

/// A plain variable has the type and the address of the entry that its name
/// resolves to.
pub open spec fn simple_variable_rule(token: Token, state: Pass) -> Outcome<VariableModel> {
    match state.table.lookup(token.lexeme@) {
        Some(entry) => done(
            VariableModel {
                token,
                address: entry.address,
                node_type: entry.entry_type,
                substructure: VariableStructureModel::Simple,
            },
            state,
        ),
        None => rejected(state, "Cant find variable "@ + token.lexeme@, token),
    }
}

/// An indexed variable names an array and has an integer index. It has the
/// type of the array's elements, and its address is computed from the
/// array's and the index's.
pub open spec fn indexed_variable_rule(
    token: Token,
    index: Option<ExpressionModel>,
    state: Pass,
) -> Outcome<VariableModel> {
    match index {
        None => failed(state),
        Some(index) => match state.table.lookup(token.lexeme@) {
            None => rejected(state, "Usage of undeclared variable"@, token),
            Some(entry) => if !(entry.category is ArrayVar) {
                rejected(state, "Indexing of simple variable"@, token)
            } else if index.node_type != NodeType::Simple(SimpleType::Integer) {
                rejected(state, "Array index must be integer"@, token)
            } else {
                done(
                    VariableModel {
                        token,
                        address: Address {
                            data: AddressData::Indexed(entry.address.base(), index.address.base()),
                        },
                        node_type: NodeType::Simple(entry.entry_type.kind()),
                        substructure: VariableStructureModel::Indexed(index),
                    },
                    state,
                )
            },
        },
    }
}

/// A variable read as an expression keeps its token, type and address.
pub open spec fn variable_expression(variable: VariableModel) -> ExpressionModel {
    ExpressionModel {
        token: variable.token,
        address: variable.address,
        node_type: variable.node_type,
        substructure: ExpressionStructureModel::Variable(Box::new(variable)),
    }
}

/// The operands of a binary operator have the same scalar type, and the
/// operator applies to it. The result lives at a fresh address.
pub open spec fn binary_rule(
    lhs: Option<ExpressionModel>,
    rhs: Option<ExpressionModel>,
    op: Token,
    state: Pass,
) -> Outcome<ExpressionModel> {
    match (lhs, rhs) {
        (Some(lhs), Some(rhs)) => if lhs.node_type != rhs.node_type {
            rejected(state, "Mismatched operand types"@, op)
        } else {
            match lhs.node_type {
                NodeType::ArrayOf(_) => rejected(state, "Bad operator for array"@, op),
                NodeType::Simple(kind) => match opkind_of(op.lexeme@) {
                    None => rejected(state, "Unknown operator"@, op),
                    Some(op_kind) => match operator_result(kind, op_kind) {
                        None => rejected(state, bad_operator_message(kind), op),
                        Some(node_type) => done(
                            ExpressionModel {
                                token: op,
                                address: state.fresh(),
                                node_type,
                                substructure: ExpressionStructureModel::Binary(
                                    op_kind,
                                    Box::new(lhs),
                                    Box::new(rhs),
                                ),
                            },
                            state.bump(),
                        ),
                    },
                },
            }
        },
        _ => failed(state),
    }
}

/// The only unary operator is `not`, on a truth value. The result lives at a
/// fresh address.
pub open spec fn unary_rule(operand: Option<ExpressionModel>, op: Token, state: Pass) -> Outcome<
    ExpressionModel,
> {
    match operand {
        None => failed(state),
        Some(operand) => if op.token_kind != TokenKind::Not {
            rejected(state, "Unknown unary operator"@, op)
        } else if operand.node_type != NodeType::Simple(SimpleType::Boolean) {
            rejected(state, "not-operator is for Booleans only"@, op)
        } else {
            done(
                ExpressionModel {
                    token: op,
                    address: state.fresh(),
                    node_type: NodeType::Simple(SimpleType::Boolean),
                    substructure: ExpressionStructureModel::Unary(Box::new(operand)),
                },
                state.bump(),
            )
        },
    }
}

/// The first position from the index on at which the argument's type is not
/// the parameter's; the length of the list when there is none.
pub open spec fn first_mismatch(
    parameters: Seq<NodeType>,
    arguments: Seq<ExpressionModel>,
    from: int,
) -> int
    decreases arguments.len() - from,
{
    if 0 <= from < arguments.len() && from < parameters.len() {
        if parameters[from] != arguments[from].node_type {
            from
        } else {
            first_mismatch(parameters, arguments, from + 1)
        }
    } else {
        arguments.len() as int
    }
}

/// Why an argument list does not fit a parameter list, and where; nothing
/// when it fits. The lists fit when they have the same length and the same
/// types, position by position.
pub open spec fn argument_fault(
    parameters: Seq<NodeType>,
    arguments: Seq<ExpressionModel>,
    call: Token,
) -> Option<(Seq<char>, Token)> {
    if parameters.len() != arguments.len() {
        Some(("Arguments length does not match parameters"@, call))
    } else if first_mismatch(parameters, arguments, 0) < arguments.len() {
        Some(
            (
                "Argument type does not match parameters"@,
                arguments[first_mismatch(parameters, arguments, 0)].token,
            ),
        )
    } else {
        None
    }
}

/// A call that gives a value: of `size`, on one array, or of a function,
/// with arguments that fit its parameters. The result lives at a fresh
/// address.
pub open spec fn call_expression_rule(
    token: Token,
    arguments: Option<Seq<ExpressionModel>>,
    state: Pass,
) -> Outcome<ExpressionModel> {
    match arguments {
        None => failed(state),
        Some(arguments) => match state.table.lookup(token.lexeme@) {
            None => rejected(state, "Can't find function "@ + token.lexeme@, token),
            Some(entry) => match entry.category {
                CategoryModel::Special => if entry.name == "size"@ {
                    if arguments.len() == 1 && arguments[0].node_type is ArrayOf {
                        done(
                            ExpressionModel {
                                token,
                                address: state.fresh(),
                                node_type: NodeType::Simple(SimpleType::Integer),
                                substructure: ExpressionStructureModel::Size(arguments[0].address),
                            },
                            state.bump(),
                        )
                    } else {
                        rejected(state, "size takes one array as its argument"@, token)
                    }
                } else {
                    rejected(state, token.lexeme@ + " is not a function"@, token)
                },
                CategoryModel::Function(parameters, out_type) => match argument_fault(
                    parameters,
                    arguments,
                    token,
                ) {
                    Some((message, place)) => rejected(state, message, place),
                    None => done(
                        ExpressionModel {
                            token,
                            address: state.fresh(),
                            node_type: out_type,
                            substructure: ExpressionStructureModel::Call(entry.address, arguments),
                        },
                        state.bump(),
                    ),
                },
                _ => rejected(state, token.lexeme@ + " is not a function"@, token),
            },
        },
    }
}

/// One more folded item joins the list of those before it; the list is lost
/// as soon as one item could not be typed.
pub open spec fn collect<T>(list: Option<Seq<T>>, item: Option<T>) -> Option<Seq<T>> {
    match (list, item) {
        (Some(list), Some(item)) => Some(list.push(item)),
        _ => None,
    }
}

/// Folds an expression.
pub open spec fn fold_expression_spec(node: Expression, state: Pass) -> Outcome<ExpressionModel>
    decreases node,
{
    match node {
        Expression::Literal(token) => literal_rule(token, state),
        Expression::Variable(variable) => {
            let folded = fold_variable_spec(*variable, state);
            match folded.value {
                Some(variable) => done(variable_expression(variable), folded.state),
                None => failed(folded.state),
            }
        },
        Expression::Binary(lhs, rhs, op) => {
            let left = fold_expression_spec(*lhs, state);
            let right = fold_expression_spec(*rhs, left.state);
            binary_rule(left.value, right.value, op, right.state)
        },
        Expression::Unary(operand, op) => {
            let folded = fold_expression_spec(*operand, state);
            unary_rule(folded.value, op, folded.state)
        },
        Expression::Call(token, arguments) => {
            let folded = fold_expressions_spec(arguments@, 0, Some(Seq::empty()), state);
            call_expression_rule(token, folded.value, folded.state)
        },
    }
}

/// Folds a variable.
pub open spec fn fold_variable_spec(node: Variable, state: Pass) -> Outcome<VariableModel>
    decreases node,
{
    match node {
        Variable::Simple(token) => simple_variable_rule(token, state),
        Variable::Indexed(token, index) => {
            let folded = fold_expression_spec(index, state);
            indexed_variable_rule(token, folded.value, folded.state)
        },
    }
}

/// Folds the expressions of a list from the index on, in order, every one of
/// them whether or not an earlier one failed, and adds them to those
/// collected before.
pub open spec fn fold_expressions_spec(
    list: Seq<Expression>,
    from: int,
    collected: Option<Seq<ExpressionModel>>,
    state: Pass,
) -> Outcome<Seq<ExpressionModel>>
    decreases list, list.len() - from,
{
    if 0 <= from < list.len() {
        let folded = fold_expression_spec(list[from], state);
        fold_expressions_spec(list, from + 1, collect(collected, folded.value), folded.state)
    } else {
        Outcome { value: collected, state }
    }
}

/// Why a name does not name a type; nothing when it does.
pub open spec fn type_name_fault(table: TableModel, name: Seq<char>) -> Option<Seq<char>> {
    match table.lookup(name) {
        None => Some("Usage of an undeclared type"@),
        Some(entry) => if entry.category is TypeId {
            None
        } else {
            Some("Identifier does not refer to a type"@)
        },
    }
}

/// The scalar kind that a type name stands for.
pub open spec fn named_kind(table: TableModel, name: Seq<char>) -> SimpleType {
    table.lookup(name).unwrap().entry_type.kind()
}

/// The entry that a declaration files: in the active scope, without a value.
pub open spec fn declared_entry(
    name: Seq<char>,
    category: CategoryModel,
    entry_type: NodeType,
    state: Pass,
) -> EntryModel {
    EntryModel {
        name,
        category,
        value: Seq::empty(),
        entry_type,
        scope_number: state.table.current(),
        address: state.fresh(),
    }
}

/// The typed variable that a declaration introduces.
pub open spec fn declared_variable(name: Token, node_type: NodeType, state: Pass) -> VariableModel {
    VariableModel {
        token: name,
        address: state.fresh(),
        node_type,
        substructure: VariableStructureModel::Simple,
    }
}

/// A declaration of a scalar names a type. It files a variable of that type
/// at a fresh address.
pub open spec fn simple_declaration_rule(name: Token, type_token: Token, state: Pass) -> Outcome<
    (VariableModel, TypeModel),
> {
    match type_name_fault(state.table, type_token.lexeme@) {
        Some(message) => rejected(state, message, type_token),
        None => {
            let node_type = NodeType::Simple(named_kind(state.table, type_token.lexeme@));
            done(
                (declared_variable(name, node_type, state), TypeModel::Simple(node_type)),
                state.bump().declare(
                    declared_entry(name.lexeme@, CategoryModel::SimpleVar, node_type, state),
                ),
            )
        },
    }
}

/// A declaration of an array has an integer length and names the type of
/// the elements. It files an array variable at a fresh address and keeps
/// the typed length.
pub open spec fn array_declaration_rule(
    name: Token,
    type_token: Token,
    length: Option<ExpressionModel>,
    state: Pass,
) -> Outcome<(VariableModel, TypeModel)> {
    match length {
        None => failed(state),
        Some(length) => if length.node_type != NodeType::Simple(SimpleType::Integer) {
            rejected(state, "Array size must be of type integer"@, length.token)
        } else {
            match type_name_fault(state.table, type_token.lexeme@) {
                Some(message) => rejected(state, message, type_token),
                None => {
                    let node_type = NodeType::ArrayOf(
                        named_kind(state.table, type_token.lexeme@),
                    );
                    done(
                        (
                            declared_variable(name, node_type, state),
                            TypeModel::Array(node_type, length),
                        ),
                        state.bump().declare(
                            declared_entry(
                                name.lexeme@,
                                CategoryModel::ArrayVar,
                                node_type,
                                state,
                            ),
                        ),
                    )
                },
            }
        },
    }
}

/// Folds the declaration of one name. A name that the active scope already
/// declares is rejected and nothing is filed; a name of a scope further out
/// is shadowed.
pub open spec fn fold_declaration_core_spec(
    name: Token,
    description: TypeDescription,
    state: Pass,
) -> Outcome<(VariableModel, TypeModel)> {
    if state.table.declared_here(name.lexeme@) {
        rejected(state, "Variable declared twice"@, name)
    } else {
        match description {
            TypeDescription::Simple(type_token) => simple_declaration_rule(name, type_token, state),
            TypeDescription::Array(type_token, length) => {
                let folded = fold_expression_spec(length, state);
                array_declaration_rule(name, type_token, folded.value, folded.state)
            },
        }
    }
}

/// Folds a type description that declares nothing, such as the type that a
/// function returns.
pub open spec fn fold_type_description_spec(description: TypeDescription, state: Pass) -> Outcome<
    TypeModel,
> {
    match description {
        TypeDescription::Simple(type_token) => match type_name_fault(
            state.table,
            type_token.lexeme@,
        ) {
            Some(message) => rejected(state, message, type_token),
            None => done(
                TypeModel::Simple(
                    NodeType::Simple(named_kind(state.table, type_token.lexeme@)),
                ),
                state,
            ),
        },
        TypeDescription::Array(type_token, length) => {
            let folded = fold_expression_spec(length, state);
            match folded.value {
                None => failed(folded.state),
                Some(length) => if length.node_type != NodeType::Simple(SimpleType::Integer) {
                    rejected(folded.state, "Array size must be integer"@, type_token)
                } else {
                    match type_name_fault(state.table, type_token.lexeme@) {
                        Some(message) => rejected(folded.state, message, type_token),
                        None => done(
                            TypeModel::Array(
                                NodeType::ArrayOf(named_kind(state.table, type_token.lexeme@)),
                                length,
                            ),
                            folded.state,
                        ),
                    }
                },
            }
        },
    }
}

/// An assignment has a target and a value of the same type.
pub open spec fn assign_rule(
    target: Option<VariableModel>,
    value: Option<ExpressionModel>,
    state: Pass,
) -> Outcome<StatementModel> {
    match (target, value) {
        (Some(target), Some(value)) => if target.node_type == value.node_type {
            done(StatementModel::Assign(target, value), state)
        } else {
            rejected(state, "Mismatched types in assigment"@, target.token)
        },
        _ => failed(state),
    }
}

/// The condition of an `if` or a `while` is a truth value.
pub open spec fn condition_rule(
    condition: Option<ExpressionModel>,
    message: Seq<char>,
    state: Pass,
) -> Outcome<ExpressionModel> {
    match condition {
        None => failed(state),
        Some(condition) => if condition.node_type == NodeType::Simple(SimpleType::Boolean) {
            done(condition, state)
        } else {
            rejected(state, message, condition.token)
        },
    }
}

/// The condition of an assertion is a truth value.
pub open spec fn assert_rule(token: Token, condition: Option<ExpressionModel>, state: Pass)
    -> Outcome<StatementModel> {
    match condition {
        None => failed(state),
        Some(condition) => if condition.node_type == NodeType::Simple(SimpleType::Boolean) {
            done(StatementModel::Assert(token, condition), state)
        } else {
            rejected(state, "Assert condition must be of Boolean type"@, token)
        },
    }
}

/// An `if` is typed when its condition and its branches are.
pub open spec fn if_statement(
    condition: Option<ExpressionModel>,
    body: Option<StatementModel>,
    else_body: Option<Option<StatementModel>>,
) -> Option<StatementModel> {
    match (condition, body, else_body) {
        (Some(condition), Some(body), Some(Some(else_body))) => Some(
            StatementModel::If(condition, Box::new(body), Some(Box::new(else_body))),
        ),
        (Some(condition), Some(body), None) => Some(
            StatementModel::If(condition, Box::new(body), None),
        ),
        _ => None,
    }
}

/// A `while` is typed when its condition and its body are.
pub open spec fn while_statement(
    condition: Option<ExpressionModel>,
    body: Option<StatementModel>,
) -> Option<StatementModel> {
    match (condition, body) {
        (Some(condition), Some(body)) => Some(StatementModel::While(condition, Box::new(body))),
        _ => None,
    }
}

/// The first position from the index on whose argument is not a plain
/// variable; the length of the list when there is none.
pub open spec fn first_non_variable(arguments: Seq<ExpressionModel>, from: int) -> int
    decreases arguments.len() - from,
{
    if 0 <= from < arguments.len() {
        if arguments[from].substructure is Variable {
            first_non_variable(arguments, from + 1)
        } else {
            from
        }
    } else {
        arguments.len() as int
    }
}

/// The variables that the arguments of a `read` are.
pub open spec fn read_targets(arguments: Seq<ExpressionModel>) -> Seq<VariableModel> {
    Seq::new(
        arguments.len(),
        |i: int|
            match arguments[i].substructure {
                ExpressionStructureModel::Variable(variable) => *variable,
                _ => arbitrary(),
            },
    )
}

/// A call that stands as a statement: of `read`, on variables only; of
/// `writeln`, on anything; or of a procedure, with arguments that fit its
/// parameters.
pub open spec fn call_statement_rule(
    token: Token,
    arguments: Option<Seq<ExpressionModel>>,
    state: Pass,
) -> Outcome<StatementModel> {
    match arguments {
        None => failed(state),
        Some(arguments) => match state.table.lookup(token.lexeme@) {
            None => rejected(state, "Call of undeclared name"@, token),
            Some(entry) => match entry.category {
                CategoryModel::Special => if entry.name == "read"@ {
                    if first_non_variable(arguments, 0) < arguments.len() {
                        rejected(
                            state,
                            "Non variable argument in read"@,
                            arguments[first_non_variable(arguments, 0)].token,
                        )
                    } else {
                        done(StatementModel::Read(read_targets(arguments)), state)
                    }
                } else if entry.name == "writeln"@ {
                    done(StatementModel::Write(arguments), state)
                } else {
                    rejected(state, "Attempting to call Function as statement"@, token)
                },
                CategoryModel::Procedure(parameters) => match argument_fault(
                    parameters,
                    arguments,
                    token,
                ) {
                    Some((message, place)) => rejected(state, message, place),
                    None => done(StatementModel::Call(entry.address, arguments), state),
                },
                CategoryModel::Function(_, _) => rejected(
                    state,
                    "Attempting to call Function as statement"@,
                    token,
                ),
                _ => rejected(state, "Call of non subroutine name"@, token),
            },
        },
    }
}

/// The number that a block records: that of the scope opened for it, or -1
/// where no scope was active to open it in.
pub open spec fn block_number(table: TableModel) -> i32 {
    if table.stack.len() > 0 {
        table.next_scope() as i32
    } else {
        -1i32
    }
}

/// A block is typed when all its statements are.
pub open spec fn block_statement(number: i32, body: Option<Seq<StatementModel>>) -> Option<
    StatementModel,
> {
    match body {
        Some(body) => Some(StatementModel::Block(number, body)),
        None => None,
    }
}

/// Folds a statement.
pub open spec fn fold_statement_spec(node: Statement, state: Pass) -> Outcome<StatementModel>
    decreases node,
{
    match node {
        Statement::Assign(target, value) => {
            let target = fold_variable_spec(*target, state);
            let value = fold_expression_spec(value, target.state);
            assign_rule(target.value, value.value, value.state)
        },
        Statement::Declaration(name, description) => {
            let folded = fold_declaration_core_spec(name, description, state);
            match folded.value {
                Some((variable, description)) => done(
                    StatementModel::Declaration(variable, description),
                    folded.state,
                ),
                None => failed(folded.state),
            }
        },
        Statement::Block(body) => fold_block_spec(body@, state),
        Statement::If(condition, body, else_body) => {
            let folded = fold_expression_spec(condition, state);
            let condition = condition_rule(
                folded.value,
                "If condition must be a Boolean"@,
                folded.state,
            );
            let body = fold_statement_spec(*body, condition.state);
            match else_body {
                Some(else_body) => {
                    let else_body = fold_statement_spec(*else_body, body.state);
                    Outcome {
                        value: if_statement(condition.value, body.value, Some(else_body.value)),
                        state: else_body.state,
                    }
                },
                None => Outcome {
                    value: if_statement(condition.value, body.value, None),
                    state: body.state,
                },
            }
        },
        Statement::While(condition, body) => {
            let folded = fold_expression_spec(condition, state);
            let condition = condition_rule(
                folded.value,
                "While condition must be of Boolean type"@,
                folded.state,
            );
            let body = fold_statement_spec(*body, condition.state);
            Outcome { value: while_statement(condition.value, body.value), state: body.state }
        },
        Statement::Assert(token, condition) => {
            let folded = fold_expression_spec(condition, state);
            assert_rule(token, folded.value, folded.state)
        },
        Statement::Call(token, arguments) => {
            let folded = fold_expressions_spec(arguments@, 0, Some(Seq::empty()), state);
            call_statement_rule(token, folded.value, folded.state)
        },
        Statement::Return(token, value) => match value {
            None => done(StatementModel::Return(token, None), state),
            Some(value) => {
                let folded = fold_expression_spec(value, state);
                match folded.value {
                    Some(value) => done(StatementModel::Return(token, Some(value)), folded.state),
                    None => failed(folded.state),
                }
            },
        },
    }
}

/// Folds the statements of a list from the index on, in order, every one of
/// them whether or not an earlier one failed, and adds them to those
/// collected before.
pub open spec fn fold_statements_spec(
    list: Seq<Statement>,
    from: int,
    collected: Option<Seq<StatementModel>>,
    state: Pass,
) -> Outcome<Seq<StatementModel>>
    decreases list, list.len() - from,
{
    if 0 <= from < list.len() {
        let folded = fold_statement_spec(list[from], state);
        fold_statements_spec(list, from + 1, collect(collected, folded.value), folded.state)
    } else {
        Outcome { value: collected, state }
    }
}

/// Folds a block: a scope is opened for it, its statements are folded in
/// that scope, and the scope is left again, whatever happened inside.
pub open spec fn fold_block_spec(body: Seq<Statement>, state: Pass) -> Outcome<StatementModel>
    decreases body, body.len() + 1,
{
    let folded = fold_statements_spec(body, 0, Some(Seq::empty()), state.open_scope());
    Outcome {
        value: block_statement(block_number(state.table), folded.value),
        state: folded.state.close_scope(),
    }
}

/// Whether a statement holds, at any depth of blocks, branches and loops, a
/// `return` of a value of the given type.
pub open spec fn returns_type(statement: StatementModel, node_type: NodeType) -> bool
    decreases statement,
{
    match statement {
        StatementModel::Return(_, Some(value)) => value.node_type == node_type,
        StatementModel::If(_, body, else_body) => returns_type(*body, node_type) || match else_body {
            Some(else_body) => returns_type(*else_body, node_type),
            None => false,
        },
        StatementModel::While(_, body) => returns_type(*body, node_type),
        StatementModel::Block(_, body) => exists|i: int|
            0 <= i < body.len() && returns_type(#[trigger] body[i], node_type),
        _ => false,
    }
}

/// The types of a list of typed parameters.
pub open spec fn parameter_types(list: Seq<(VariableModel, TypeModel)>) -> Seq<NodeType> {
    Seq::new(list.len(), |i: int| list[i].0.node_type)
}

/// Folds the parameters of a list from the index on, each as a declaration
/// in the active scope.
pub open spec fn fold_parameters_spec(
    list: Seq<(Token, TypeDescription)>,
    from: int,
    collected: Option<Seq<(VariableModel, TypeModel)>>,
    state: Pass,
) -> Outcome<Seq<(VariableModel, TypeModel)>>
    decreases list.len() - from,
{
    if 0 <= from < list.len() {
        let folded = fold_declaration_core_spec(list[from].0, list[from].1, state);
        fold_parameters_spec(list, from + 1, collect(collected, folded.value), folded.state)
    } else {
        Outcome { value: collected, state }
    }
}

/// The entry that a subroutine files: in the scope around it, at the
/// address issued for it.
pub open spec fn subroutine_entry(
    name: Token,
    category: CategoryModel,
    scope_number: i32,
    address: Address,
) -> EntryModel {
    EntryModel {
        name: name.lexeme@,
        category,
        value: Seq::empty(),
        entry_type: NodeType::Simple(SimpleType::Boolean),
        scope_number,
        address,
    }
}

/// A procedure is typed when its parameters and its body are.
pub open spec fn procedure_value(
    address: Address,
    parameters: Seq<(VariableModel, TypeModel)>,
    body: Option<StatementModel>,
) -> Option<SubroutineModel> {
    match body {
        Some(StatementModel::Block(_, statements)) => Some(
            SubroutineModel::Procedure(address, parameters, statements),
        ),
        _ => None,
    }
}

/// Folds a procedure. An address is issued for it and a scope opened; the
/// parameters are declared in that scope; the procedure is filed in the
/// scope around it, so that its body can call it; then the body is folded
/// and the scope left.
pub open spec fn fold_procedure_spec(
    name: Token,
    parameters: Seq<(Token, TypeDescription)>,
    body: Seq<Statement>,
    state: Pass,
) -> Outcome<SubroutineModel> {
    let address = state.fresh();
    let folded = fold_parameters_spec(parameters, 0, Some(Seq::empty()), state.bump().open_routine_scope());
    match folded.value {
        None => failed(folded.state.close_scope()),
        Some(typed_parameters) => {
            let block = fold_block_spec(
                body,
                folded.state.declare(
                    subroutine_entry(
                        name,
                        CategoryModel::Procedure(parameter_types(typed_parameters)),
                        state.table.current(),
                        address,
                    ),
                ),
            );
            Outcome {
                value: procedure_value(address, typed_parameters, block.value),
                state: block.state.close_scope(),
            }
        },
    }
}

/// Folds a function, as a procedure is folded, with the type it returns
/// resolved first. Its body must hold a `return` of a value of that type.
pub open spec fn fold_function_spec(
    name: Token,
    parameters: Seq<(Token, TypeDescription)>,
    body: Seq<Statement>,
    out_type: TypeDescription,
    state: Pass,
) -> Outcome<SubroutineModel> {
    let address = state.fresh();
    let typed_type = fold_type_description_spec(out_type, state.bump().open_routine_scope());
    match typed_type.value {
        None => failed(typed_type.state.close_scope()),
        Some(out) => {
            let folded = fold_parameters_spec(parameters, 0, Some(Seq::empty()), typed_type.state);
            match folded.value {
                None => failed(folded.state.close_scope()),
                Some(typed_parameters) => {
                    let block = fold_block_spec(
                        body,
                        folded.state.declare(
                            subroutine_entry(
                                name,
                                CategoryModel::Function(
                                    parameter_types(typed_parameters),
                                    out.node_type(),
                                ),
                                state.table.current(),
                                address,
                            ),
                        ),
                    );
                    match block.value {
                        Some(StatementModel::Block(number, statements)) => if returns_type(
                            StatementModel::Block(number, statements),
                            out.node_type(),
                        ) {
                            done(
                                SubroutineModel::Function(
                                    address,
                                    typed_parameters,
                                    statements,
                                    out,
                                ),
                                block.state.close_scope(),
                            )
                        } else {
                            rejected(
                                block.state,
                                "No return statement of correct type found in function"@,
                                name,
                            ).closed()
                        },
                        _ => failed(block.state.close_scope()),
                    }
                },
            }
        },
    }
}

impl<T> Outcome<T> {
    /// The same outcome with the active scope left.
    pub open spec fn closed(self) -> Outcome<T> {
        Outcome { value: self.value, state: self.state.close_scope() }
    }
}

/// Folds a subroutine.
pub open spec fn fold_subroutine_spec(node: Subroutine, state: Pass) -> Outcome<SubroutineModel> {
    match node {
        Subroutine::Procedure(name, parameters, body) => fold_procedure_spec(
            name,
            parameters@,
            body@,
            state,
        ),
        Subroutine::Function(name, parameters, body, out_type) => fold_function_spec(
            name,
            parameters@,
            body@,
            out_type,
            state,
        ),
    }
}

/// Folds the subroutines of a list from the index on.
pub open spec fn fold_subroutines_spec(
    list: Seq<Subroutine>,
    from: int,
    collected: Option<Seq<SubroutineModel>>,
    state: Pass,
) -> Outcome<Seq<SubroutineModel>>
    decreases list.len() - from,
{
    if 0 <= from < list.len() {
        let folded = fold_subroutine_spec(list[from], state);
        fold_subroutines_spec(list, from + 1, collect(collected, folded.value), folded.state)
    } else {
        Outcome { value: collected, state }
    }
}

/// A program is typed when all its subroutines and its main block are.
pub open spec fn program_value(
    name: Token,
    subroutines: Option<Seq<SubroutineModel>>,
    body: Option<StatementModel>,
) -> Option<ProgramModel> {
    match (subroutines, body) {
        (Some(subroutines), Some(StatementModel::Block(_, statements))) => Some(
            ProgramModel::Program(name, subroutines, statements),
        ),
        _ => None,
    }
}

/// Folds a program: its subroutines in order, then its main block.
pub open spec fn fold_program_spec(node: AST, state: Pass) -> Outcome<ProgramModel> {
    match node {
        AST::Program(name, subroutines, body) => {
            let folded = fold_subroutines_spec(subroutines@, 0, Some(Seq::empty()), state);
            let block = fold_block_spec(body@, folded.state);
            Outcome { value: program_value(name, folded.value, block.value), state: block.state }
        },
    }
}

} // verus!
