//! Addresses are names and nothing more. A pass that starts at another
//! address gives the same typed tree, the same diagnostics and the same
//! table, with every address that the pass issued moved by the difference.

use vstd::prelude::*;
use crate::address::{Address, AddressData};
use crate::ast::{
    expression_cost,
    expressions_cost,
    parameters_cost,
    program_cost,
    statement_cost,
    statements_cost,
    subroutine_cost,
    subroutines_cost,
    type_cost,
    variable_cost,
    Expression,
    Statement,
    Subroutine,
    TypeDescription,
    Variable,
    AST,
};
use crate::symboltable::{initial_table, EntryModel, TableModel};
use crate::token::Token;
use crate::typedast::{
    ExpressionModel,
    ExpressionStructureModel,
    ProgramModel,
    StatementModel,
    SubroutineModel,
    TypeModel,
    VariableModel,
    VariableStructureModel,
};
use crate::typing::{
    address_after,
    collect,
    condition_rule,
    fold_block_spec,
    fold_declaration_core_spec,
    fold_expression_spec,
    fold_expressions_spec,
    fold_function_spec,
    fold_parameters_spec,
    fold_procedure_spec,
    fold_program_spec,
    fold_statement_spec,
    fold_statements_spec,
    fold_subroutine_spec,
    fold_subroutines_spec,
    fold_type_description_spec,
    fold_variable_spec,
    Outcome,
    Pass,
};

verus! {

/// A renumbering: every number above the floor is moved by the shift.
pub struct Renumbering {
    pub floor: int,
    pub shift: int,
}

impl Renumbering {
    pub open spec fn number(self, n: u64) -> u64 {
        if n > self.floor {
            (n + self.shift) as u64
        } else {
            n
        }
    }

    pub open spec fn address(self, address: Address) -> Address {
        match address.data {
            AddressData::Simple(n) => Address { data: AddressData::Simple(self.number(n)) },
            AddressData::Indexed(base, index) => Address {
                data: AddressData::Indexed(self.number(base), self.number(index)),
            },
        }
    }

    pub open spec fn entry(self, entry: EntryModel) -> EntryModel {
        EntryModel { address: self.address(entry.address), ..entry }
    }

    pub open spec fn found(self, entry: Option<EntryModel>) -> Option<EntryModel> {
        match entry {
            Some(entry) => Some(self.entry(entry)),
            None => None,
        }
    }

    pub open spec fn entries(self, entries: Map<Seq<char>, EntryModel>) -> Map<
        Seq<char>,
        EntryModel,
    > {
        Map::new(|name: Seq<char>| entries.contains_key(name), |name: Seq<char>| self.entry(entries[name]))
    }

    pub open spec fn table(self, table: TableModel) -> TableModel {
        TableModel {
            entries: Seq::new(table.entries.len(), |i: int| self.entries(table.entries[i])),
            ..table
        }
    }

    pub open spec fn pass(self, state: Pass) -> Pass {
        Pass {
            errors: state.errors,
            counter: state.counter + self.shift,
            table: self.table(state.table),
        }
    }

    pub open spec fn expression(self, node: ExpressionModel) -> ExpressionModel
        decreases node,
    {
        ExpressionModel {
            token: node.token,
            address: self.address(node.address),
            node_type: node.node_type,
            substructure: match node.substructure {
                ExpressionStructureModel::Binary(op, lhs, rhs) => ExpressionStructureModel::Binary(
                    op,
                    Box::new(self.expression(*lhs)),
                    Box::new(self.expression(*rhs)),
                ),
                ExpressionStructureModel::Call(address, arguments) => ExpressionStructureModel::Call(
                    self.address(address),
                    Seq::new(
                        arguments.len(),
                        |i: int|
                            if 0 <= i < arguments.len() {
                                self.expression(arguments[i])
                            } else {
                                arbitrary()
                            },
                    ),
                ),
                ExpressionStructureModel::Literal => ExpressionStructureModel::Literal,
                ExpressionStructureModel::Size(address) => ExpressionStructureModel::Size(
                    self.address(address),
                ),
                ExpressionStructureModel::Unary(operand) => ExpressionStructureModel::Unary(
                    Box::new(self.expression(*operand)),
                ),
                ExpressionStructureModel::Variable(variable) => ExpressionStructureModel::Variable(
                    Box::new(self.variable(*variable)),
                ),
            },
        }
    }

    pub open spec fn variable(self, node: VariableModel) -> VariableModel
        decreases node,
    {
        VariableModel {
            token: node.token,
            address: self.address(node.address),
            node_type: node.node_type,
            substructure: match node.substructure {
                VariableStructureModel::Simple => VariableStructureModel::Simple,
                VariableStructureModel::Indexed(index) => VariableStructureModel::Indexed(
                    self.expression(index),
                ),
            },
        }
    }

    pub open spec fn expressions(self, list: Seq<ExpressionModel>) -> Seq<ExpressionModel> {
        Seq::new(list.len(), |i: int| self.expression(list[i]))
    }

    pub open spec fn variables(self, list: Seq<VariableModel>) -> Seq<VariableModel> {
        Seq::new(list.len(), |i: int| self.variable(list[i]))
    }

    pub open spec fn description(self, node: TypeModel) -> TypeModel {
        match node {
            TypeModel::Simple(node_type) => TypeModel::Simple(node_type),
            TypeModel::Array(node_type, length) => TypeModel::Array(
                node_type,
                self.expression(length),
            ),
        }
    }

    pub open spec fn declaration(self, pair: (VariableModel, TypeModel)) -> (
        VariableModel,
        TypeModel,
    ) {
        (self.variable(pair.0), self.description(pair.1))
    }

    pub open spec fn declarations(self, list: Seq<(VariableModel, TypeModel)>) -> Seq<
        (VariableModel, TypeModel),
    > {
        Seq::new(list.len(), |i: int| self.declaration(list[i]))
    }

    pub open spec fn statement(self, node: StatementModel) -> StatementModel
        decreases node,
    {
        match node {
            StatementModel::Assert(token, condition) => StatementModel::Assert(
                token,
                self.expression(condition),
            ),
            StatementModel::Assign(target, value) => StatementModel::Assign(
                self.variable(target),
                self.expression(value),
            ),
            StatementModel::Block(scope, body) => StatementModel::Block(
                scope,
                Seq::new(
                    body.len(),
                    |i: int|
                        if 0 <= i < body.len() {
                            self.statement(body[i])
                        } else {
                            arbitrary()
                        },
                ),
            ),
            StatementModel::Call(address, arguments) => StatementModel::Call(
                self.address(address),
                self.expressions(arguments),
            ),
            StatementModel::Declaration(variable, description) => StatementModel::Declaration(
                self.variable(variable),
                self.description(description),
            ),
            StatementModel::If(condition, body, else_body) => StatementModel::If(
                self.expression(condition),
                Box::new(self.statement(*body)),
                match else_body {
                    Some(statement) => Some(Box::new(self.statement(*statement))),
                    None => None,
                },
            ),
            StatementModel::Read(targets) => StatementModel::Read(self.variables(targets)),
            StatementModel::Return(token, value) => StatementModel::Return(
                token,
                match value {
                    Some(expression) => Some(self.expression(expression)),
                    None => None,
                },
            ),
            StatementModel::While(condition, body) => StatementModel::While(
                self.expression(condition),
                Box::new(self.statement(*body)),
            ),
            StatementModel::Write(arguments) => StatementModel::Write(self.expressions(arguments)),
        }
    }

    pub open spec fn statements(self, list: Seq<StatementModel>) -> Seq<StatementModel> {
        Seq::new(list.len(), |i: int| self.statement(list[i]))
    }

    pub open spec fn subroutine(self, node: SubroutineModel) -> SubroutineModel {
        match node {
            SubroutineModel::Function(address, parameters, body, out_type) => {
                SubroutineModel::Function(
                    self.address(address),
                    self.declarations(parameters),
                    self.statements(body),
                    self.description(out_type),
                )
            },
            SubroutineModel::Procedure(address, parameters, body) => SubroutineModel::Procedure(
                self.address(address),
                self.declarations(parameters),
                self.statements(body),
            ),
        }
    }

    pub open spec fn subroutines(self, list: Seq<SubroutineModel>) -> Seq<SubroutineModel> {
        Seq::new(list.len(), |i: int| self.subroutine(list[i]))
    }

    pub open spec fn program(self, node: ProgramModel) -> ProgramModel {
        match node {
            ProgramModel::Program(name, subroutines, body) => ProgramModel::Program(
                name,
                self.subroutines(subroutines),
                self.statements(body),
            ),
        }
    }

    /// The renumbering applies to a pass in the given state: the addresses
    /// that the pass will issue lie above the floor, and `cost` of them can
    /// be issued before and after the move.
    pub open spec fn applies(self, state: Pass, cost: nat) -> bool {
        &&& 0 <= self.floor <= state.counter
        &&& state.counter + cost <= u64::MAX
        &&& self.floor <= state.counter + self.shift
        &&& state.counter + self.shift + cost <= u64::MAX
    }

    /// Looking a name up in one scope, before and after the move.
    pub proof fn lemma_find_in(self, table: TableModel, scope: int, name: Seq<char>)
        ensures
            self.table(table).find_in(scope, name) == self.found(table.find_in(scope, name)),
    {
    }

    /// Resolving a name from a scope, before and after the move.
    pub proof fn lemma_resolve(self, table: TableModel, scope: int, name: Seq<char>)
        ensures
            self.table(table).resolve(scope, name) == self.found(table.resolve(scope, name)),
        decreases scope,
    {
        if 0 <= scope < table.scopes.len() {
            self.lemma_find_in(table, scope, name);
            let parent = table.scopes[scope].enclosing_scope_number as int;
            if table.find_in(scope, name) is None && 0 <= parent < scope {
                self.lemma_resolve(table, parent, name);
            }
        }
    }

    /// The operations of the table, before and after the move.
    pub proof fn lemma_table(self, table: TableModel, name: Seq<char>, entry: EntryModel)
        ensures
            self.table(table).lookup(name) == self.found(table.lookup(name)),
            self.table(table).declared_here(name) == table.declared_here(name),
            self.table(table).current() == table.current(),
            self.table(table).next_scope() == table.next_scope(),
            self.table(table).stack == table.stack,
            self.table(table.child(false)) == self.table(table).child(false),
            self.table(table.child(true)) == self.table(table).child(true),
            self.table(table.exit()) == self.table(table).exit(),
            self.table(table.add(entry)) == self.table(table).add(self.entry(entry)),
    {
        if table.stack.len() > 0 {
            self.lemma_resolve(table, table.stack.last() as int, name);
            self.lemma_find_in(table, table.stack.last() as int, name);
        }
        assert(self.entries(Map::empty()) =~= Map::empty());
        assert(self.table(table.child(false)).entries =~= self.table(table).child(false).entries);
        assert(self.table(table.child(true)).entries =~= self.table(table).child(true).entries);
        assert(self.table(table.exit()).entries =~= self.table(table).exit().entries);
        assert(self.table(table.add(entry)).entries =~= self.table(table).add(
            self.entry(entry),
        ).entries) by {
            if 0 <= entry.scope_number < table.entries.len() {
                let i = entry.scope_number as int;
                assert(self.entries(table.entries[i].insert(entry.name, entry)) =~= self.entries(
                    table.entries[i],
                ).insert(entry.name, self.entry(entry)));
            }
        }
    }
}

impl Renumbering {
    pub open spec fn expression_outcome(self, outcome: Outcome<ExpressionModel>) -> Outcome<
        ExpressionModel,
    > {
        Outcome {
            value: match outcome.value {
                Some(node) => Some(self.expression(node)),
                None => None,
            },
            state: self.pass(outcome.state),
        }
    }

    pub open spec fn variable_outcome(self, outcome: Outcome<VariableModel>) -> Outcome<
        VariableModel,
    > {
        Outcome {
            value: match outcome.value {
                Some(node) => Some(self.variable(node)),
                None => None,
            },
            state: self.pass(outcome.state),
        }
    }

    pub open spec fn collected_expressions(self, list: Option<Seq<ExpressionModel>>) -> Option<
        Seq<ExpressionModel>,
    > {
        match list {
            Some(list) => Some(self.expressions(list)),
            None => None,
        }
    }

    pub open spec fn expressions_outcome(self, outcome: Outcome<Seq<ExpressionModel>>) -> Outcome<
        Seq<ExpressionModel>,
    > {
        Outcome {
            value: self.collected_expressions(outcome.value),
            state: self.pass(outcome.state),
        }
    }

    /// An address that a pass issues, before and after the move.
    pub proof fn lemma_fresh(self, state: Pass)
        requires
            self.applies(state, 1),
        ensures
            self.address(state.fresh()) == self.pass(state).fresh(),
            self.pass(state.bump()) == self.pass(state).bump(),
    {
    }

    /// The arguments of a renumbered call.
    pub proof fn lemma_call(self, node: ExpressionModel)
        ensures
            node.substructure matches ExpressionStructureModel::Call(address, arguments)
                ==> self.expression(node).substructure == ExpressionStructureModel::Call(
                self.address(address),
                self.expressions(arguments),
            ),
    {
        match node.substructure {
            ExpressionStructureModel::Call(address, arguments) => {
                assert(self.expression(node).substructure->Call_1 =~= self.expressions(arguments));
            },
            _ => {},
        }
    }

    /// Whether arguments fit parameters does not depend on addresses.
    pub proof fn lemma_first_mismatch(
        self,
        parameters: Seq<crate::typedast::NodeType>,
        arguments: Seq<ExpressionModel>,
        from: int,
    )
        ensures
            crate::typing::first_mismatch(parameters, self.expressions(arguments), from)
                == crate::typing::first_mismatch(parameters, arguments, from),
            crate::typing::first_mismatch(parameters, arguments, from) >= 0,
        decreases arguments.len() - from,
    {
        if 0 <= from < arguments.len() && from < parameters.len() {
            if parameters[from] == arguments[from].node_type {
                self.lemma_first_mismatch(parameters, arguments, from + 1);
            }
        }
    }

    /// Folding an expression, before and after the move.
    pub proof fn lemma_expression(self, node: Expression, state: Pass)
        requires
            self.applies(state, expression_cost(node)),
        ensures
            fold_expression_spec(node, self.pass(state)) == self.expression_outcome(
                fold_expression_spec(node, state),
            ),
            state.counter <= fold_expression_spec(node, state).state.counter <= state.counter
                + expression_cost(node),
        decreases node,
    {
        match node {
            Expression::Literal(token) => {
                self.lemma_fresh(state);
            },
            Expression::Variable(variable) => {
                self.lemma_variable(*variable, state);
            },
            Expression::Binary(lhs, rhs, op) => {
                self.lemma_expression(*lhs, state);
                let left = fold_expression_spec(*lhs, state);
                self.lemma_expression(*rhs, left.state);
                let right = fold_expression_spec(*rhs, left.state);
                self.lemma_fresh(right.state);
            },
            Expression::Unary(operand, op) => {
                self.lemma_expression(*operand, state);
                self.lemma_fresh(fold_expression_spec(*operand, state).state);
            },
            Expression::Call(token, arguments) => {
                self.lemma_expressions(arguments@, 0, Some(Seq::empty()), state);
                assert(self.expressions(Seq::empty()) =~= Seq::empty());
                let folded = fold_expressions_spec(arguments@, 0, Some(Seq::empty()), state);
                self.lemma_call_expression(token, folded.value, folded.state);
            },
        }
    }

    /// The rule for calls that give a value, before and after the move.
    pub proof fn lemma_call_expression(
        self,
        token: Token,
        arguments: Option<Seq<ExpressionModel>>,
        state: Pass,
    )
        requires
            self.applies(state, 1),
        ensures
            crate::typing::call_expression_rule(
                token,
                self.collected_expressions(arguments),
                self.pass(state),
            ) == self.expression_outcome(
                crate::typing::call_expression_rule(token, arguments, state),
            ),
    {
        self.lemma_fresh(state);
        self.lemma_table(state.table, token.lexeme@, arbitrary());
        match arguments {
            Some(arguments) => {
                match state.table.lookup(token.lexeme@) {
                    Some(entry) => {
                        match entry.category {
                            crate::symboltable::CategoryModel::Function(parameters, out_type) => {
                                self.lemma_first_mismatch(parameters, arguments, 0);
                                let outcome = crate::typing::call_expression_rule(
                                    token,
                                    Some(arguments),
                                    state,
                                );
                                if let Some(node) = outcome.value {
                                    self.lemma_call(node);
                                }
                                let k = crate::typing::first_mismatch(parameters, arguments, 0);
                                if k < arguments.len() {
                                    assert(self.expressions(arguments)[k].token
                                        == arguments[k].token);
                                }
                            },
                            crate::symboltable::CategoryModel::Special => {
                                if arguments.len() == 1 {
                                    assert(self.expressions(arguments)[0] == self.expression(
                                        arguments[0],
                                    ));
                                }
                            },
                            _ => {},
                        }
                    },
                    None => {},
                }
            },
            None => {},
        }
    }

    /// Folding a variable, before and after the move.
    pub proof fn lemma_variable(self, node: Variable, state: Pass)
        requires
            self.applies(state, variable_cost(node)),
        ensures
            fold_variable_spec(node, self.pass(state)) == self.variable_outcome(
                fold_variable_spec(node, state),
            ),
            state.counter <= fold_variable_spec(node, state).state.counter <= state.counter
                + variable_cost(node),
        decreases node,
    {
        match node {
            Variable::Simple(token) => {
                self.lemma_table(state.table, token.lexeme@, arbitrary());
            },
            Variable::Indexed(token, index) => {
                self.lemma_expression(index, state);
                let folded = fold_expression_spec(index, state);
                self.lemma_table(folded.state.table, token.lexeme@, arbitrary());
            },
        }
    }

    /// Folding a list of expressions, before and after the move.
    pub proof fn lemma_expressions(
        self,
        list: Seq<Expression>,
        from: int,
        collected: Option<Seq<ExpressionModel>>,
        state: Pass,
    )
        requires
            self.applies(state, expressions_cost(list, from)),
        ensures
            fold_expressions_spec(
                list,
                from,
                self.collected_expressions(collected),
                self.pass(state),
            ) == self.expressions_outcome(fold_expressions_spec(list, from, collected, state)),
            state.counter <= fold_expressions_spec(list, from, collected, state).state.counter
                <= state.counter + expressions_cost(list, from),
        decreases list, list.len() - from,
    {
        if 0 <= from < list.len() {
            self.lemma_expression(list[from], state);
            let folded = fold_expression_spec(list[from], state);
            self.lemma_expressions(list, from + 1, collect(collected, folded.value), folded.state);
            match (collected, folded.value) {
                (Some(before), Some(item)) => {
                    assert(self.expressions(before.push(item)) =~= self.expressions(before).push(
                        self.expression(item),
                    ));
                },
                _ => {},
            }
        }
    }
}

impl Renumbering {
    pub open spec fn declaration_outcome(self, outcome: Outcome<(VariableModel, TypeModel)>)
        -> Outcome<(VariableModel, TypeModel)> {
        Outcome {
            value: match outcome.value {
                Some(pair) => Some(self.declaration(pair)),
                None => None,
            },
            state: self.pass(outcome.state),
        }
    }

    pub open spec fn description_outcome(self, outcome: Outcome<TypeModel>) -> Outcome<TypeModel> {
        Outcome {
            value: match outcome.value {
                Some(node) => Some(self.description(node)),
                None => None,
            },
            state: self.pass(outcome.state),
        }
    }

    pub open spec fn statement_outcome(self, outcome: Outcome<StatementModel>) -> Outcome<
        StatementModel,
    > {
        Outcome {
            value: match outcome.value {
                Some(node) => Some(self.statement(node)),
                None => None,
            },
            state: self.pass(outcome.state),
        }
    }

    pub open spec fn collected_statements(self, list: Option<Seq<StatementModel>>) -> Option<
        Seq<StatementModel>,
    > {
        match list {
            Some(list) => Some(self.statements(list)),
            None => None,
        }
    }

    pub open spec fn statements_outcome(self, outcome: Outcome<Seq<StatementModel>>) -> Outcome<
        Seq<StatementModel>,
    > {
        Outcome { value: self.collected_statements(outcome.value), state: self.pass(outcome.state) }
    }

    pub open spec fn collected_declarations(
        self,
        list: Option<Seq<(VariableModel, TypeModel)>>,
    ) -> Option<Seq<(VariableModel, TypeModel)>> {
        match list {
            Some(list) => Some(self.declarations(list)),
            None => None,
        }
    }

    pub open spec fn declarations_outcome(
        self,
        outcome: Outcome<Seq<(VariableModel, TypeModel)>>,
    ) -> Outcome<Seq<(VariableModel, TypeModel)>> {
        Outcome {
            value: self.collected_declarations(outcome.value),
            state: self.pass(outcome.state),
        }
    }

    pub open spec fn subroutine_outcome(self, outcome: Outcome<SubroutineModel>) -> Outcome<
        SubroutineModel,
    > {
        Outcome {
            value: match outcome.value {
                Some(node) => Some(self.subroutine(node)),
                None => None,
            },
            state: self.pass(outcome.state),
        }
    }

    pub open spec fn collected_subroutines(self, list: Option<Seq<SubroutineModel>>) -> Option<
        Seq<SubroutineModel>,
    > {
        match list {
            Some(list) => Some(self.subroutines(list)),
            None => None,
        }
    }

    pub open spec fn subroutines_outcome(self, outcome: Outcome<Seq<SubroutineModel>>) -> Outcome<
        Seq<SubroutineModel>,
    > {
        Outcome {
            value: self.collected_subroutines(outcome.value),
            state: self.pass(outcome.state),
        }
    }

    pub open spec fn program_outcome(self, outcome: Outcome<ProgramModel>) -> Outcome<ProgramModel> {
        Outcome {
            value: match outcome.value {
                Some(node) => Some(self.program(node)),
                None => None,
            },
            state: self.pass(outcome.state),
        }
    }

    /// The body of a renumbered block.
    pub proof fn lemma_block_body(self, node: StatementModel)
        ensures
            node matches StatementModel::Block(scope, body) ==> self.statement(node)
                == StatementModel::Block(scope, self.statements(body)),
    {
        match node {
            StatementModel::Block(scope, body) => {
                assert(self.statement(node)->Block_1 =~= self.statements(body));
            },
            _ => {},
        }
    }

    /// Whether a statement returns a type does not depend on addresses.
    pub proof fn lemma_returns_type(self, node: StatementModel, node_type: crate::typedast::NodeType)
        ensures
            crate::typing::returns_type(self.statement(node), node_type)
                == crate::typing::returns_type(node, node_type),
        decreases node,
    {
        match node {
            StatementModel::If(_, body, else_body) => {
                self.lemma_returns_type(*body, node_type);
                match else_body {
                    Some(statement) => {
                        self.lemma_returns_type(*statement, node_type);
                    },
                    None => {},
                }
            },
            StatementModel::While(_, body) => {
                self.lemma_returns_type(*body, node_type);
            },
            StatementModel::Block(scope, body) => {
                self.lemma_block_body(node);
                let moved = self.statements(body);
                assert forall|i: int| 0 <= i < body.len() implies crate::typing::returns_type(
                    #[trigger] moved[i],
                    node_type,
                ) == crate::typing::returns_type(body[i], node_type) by {
                    self.lemma_returns_type(body[i], node_type);
                }
                if crate::typing::returns_type(node, node_type) {
                    let i = choose|i: int|
                        0 <= i < body.len() && crate::typing::returns_type(
                            #[trigger] body[i],
                            node_type,
                        );
                    assert(crate::typing::returns_type(moved[i], node_type));
                }
                if crate::typing::returns_type(self.statement(node), node_type) {
                    let i = choose|i: int|
                        0 <= i < moved.len() && crate::typing::returns_type(
                            #[trigger] moved[i],
                            node_type,
                        );
                    assert(crate::typing::returns_type(body[i], node_type));
                }
            },
            _ => {},
        }
    }

    /// Where the first argument stands that is no variable does not depend
    /// on addresses.
    pub proof fn lemma_first_non_variable(self, arguments: Seq<ExpressionModel>, from: int)
        ensures
            crate::typing::first_non_variable(self.expressions(arguments), from)
                == crate::typing::first_non_variable(arguments, from),
            crate::typing::first_non_variable(arguments, from) >= 0,
        decreases arguments.len() - from,
    {
        if 0 <= from < arguments.len() {
            if arguments[from].substructure is Variable {
                self.lemma_first_non_variable(arguments, from + 1);
            }
        }
    }

    /// The rule for calls that stand as statements, before and after the move.
    pub proof fn lemma_call_statement(
        self,
        token: Token,
        arguments: Option<Seq<ExpressionModel>>,
        state: Pass,
    )
        requires
            self.applies(state, 0),
        ensures
            crate::typing::call_statement_rule(
                token,
                self.collected_expressions(arguments),
                self.pass(state),
            ) == self.statement_outcome(
                crate::typing::call_statement_rule(token, arguments, state),
            ),
    {
        self.lemma_table(state.table, token.lexeme@, arbitrary());
        match arguments {
            Some(arguments) => {
                match state.table.lookup(token.lexeme@) {
                    Some(entry) => {
                        match entry.category {
                            crate::symboltable::CategoryModel::Procedure(parameters) => {
                                self.lemma_first_mismatch(parameters, arguments, 0);
                                let k = crate::typing::first_mismatch(parameters, arguments, 0);
                                if k < arguments.len() {
                                    assert(self.expressions(arguments)[k].token
                                        == arguments[k].token);
                                }
                            },
                            crate::symboltable::CategoryModel::Special => {
                                self.lemma_first_non_variable(arguments, 0);
                                let k = crate::typing::first_non_variable(arguments, 0);
                                if k < arguments.len() {
                                    assert(self.expressions(arguments)[k].token
                                        == arguments[k].token);
                                } else {
                                    assert(crate::typing::read_targets(self.expressions(arguments))
                                        =~= self.variables(
                                        crate::typing::read_targets(arguments),
                                    )) by {
                                        assert forall|i: int|
                                            0 <= i < arguments.len() implies (
                                        #[trigger] arguments[i]).substructure is Variable by {
                                            self.lemma_all_variables(arguments, 0, i);
                                        }
                                    }
                                }
                            },
                            _ => {},
                        }
                    },
                    None => {},
                }
            },
            None => {},
        }
    }

    /// Where no argument from an index on is anything but a variable, every
    /// one of them is a variable.
    pub proof fn lemma_all_variables(self, arguments: Seq<ExpressionModel>, from: int, i: int)
        requires
            0 <= from <= i < arguments.len(),
            crate::typing::first_non_variable(arguments, from) >= arguments.len(),
        ensures
            arguments[i].substructure is Variable,
        decreases arguments.len() - from,
    {
        self.lemma_first_non_variable(arguments, from + 1);
        if from < i {
            self.lemma_all_variables(arguments, from + 1, i);
        }
    }

    /// Folding a declaration, before and after the move.
    pub proof fn lemma_declaration(self, name: Token, description: TypeDescription, state: Pass)
        requires
            self.applies(state, type_cost(description)),
        ensures
            fold_declaration_core_spec(name, description, self.pass(state))
                == self.declaration_outcome(fold_declaration_core_spec(name, description, state)),
            state.counter <= fold_declaration_core_spec(name, description, state).state.counter
                <= state.counter + type_cost(description),
            fold_declaration_core_spec(name, description, state).state.table.next_scope()
                == state.table.next_scope(),
    {
        self.lemma_table(state.table, name.lexeme@, arbitrary());
        match description {
            TypeDescription::Simple(type_token) => {
                self.lemma_table(state.table, type_token.lexeme@, arbitrary());
                self.lemma_fresh(state);
                let node_type = crate::typedast::NodeType::Simple(
                    crate::typing::named_kind(state.table, type_token.lexeme@),
                );
                let entry = crate::typing::declared_entry(
                    name.lexeme@,
                    crate::symboltable::CategoryModel::SimpleVar,
                    node_type,
                    state,
                );
                self.lemma_table(state.table, name.lexeme@, entry);
            },
            TypeDescription::Array(type_token, length) => {
                self.lemma_expression(length, state);
                crate::laws::lemma_expression(length, state);
                let folded = fold_expression_spec(length, state);
                self.lemma_table(folded.state.table, type_token.lexeme@, arbitrary());
                self.lemma_fresh(folded.state);
                let node_type = crate::typedast::NodeType::ArrayOf(
                    crate::typing::named_kind(folded.state.table, type_token.lexeme@),
                );
                let entry = crate::typing::declared_entry(
                    name.lexeme@,
                    crate::symboltable::CategoryModel::ArrayVar,
                    node_type,
                    folded.state,
                );
                self.lemma_table(folded.state.table, name.lexeme@, entry);
            },
        }
    }

    /// Folding a type description, before and after the move.
    pub proof fn lemma_type_description(self, description: TypeDescription, state: Pass)
        requires
            self.applies(state, type_cost(description)),
        ensures
            fold_type_description_spec(description, self.pass(state)) == self.description_outcome(
                fold_type_description_spec(description, state),
            ),
            state.counter <= fold_type_description_spec(description, state).state.counter
                <= state.counter + type_cost(description),
            fold_type_description_spec(description, state).state.table == state.table,
    {
        match description {
            TypeDescription::Simple(type_token) => {
                self.lemma_table(state.table, type_token.lexeme@, arbitrary());
            },
            TypeDescription::Array(type_token, length) => {
                self.lemma_expression(length, state);
                crate::laws::lemma_expression(length, state);
                self.lemma_table(state.table, type_token.lexeme@, arbitrary());
            },
        }
    }
}

impl Renumbering {
    /// Folding a statement that holds no statement, before and after the
    /// move.
    pub proof fn lemma_plain_statement(self, node: Statement, state: Pass)
        requires
            self.applies(state, statement_cost(node)),
            node is Assign || node is Declaration || node is Assert || node is Call
                || node is Return,
        ensures
            fold_statement_spec(node, self.pass(state)) == self.statement_outcome(
                fold_statement_spec(node, state),
            ),
            state.counter <= fold_statement_spec(node, state).state.counter <= state.counter
                + statement_cost(node),
    {
        match node {
            Statement::Assign(target, value) => {
                self.lemma_variable(*target, state);
                self.lemma_expression(value, fold_variable_spec(*target, state).state);
            },
            Statement::Declaration(name, description) => {
                self.lemma_declaration(name, description, state);
            },
            Statement::Assert(token, condition) => {
                self.lemma_expression(condition, state);
            },
            Statement::Call(token, arguments) => {
                self.lemma_expressions(arguments@, 0, Some(Seq::empty()), state);
                assert(self.expressions(Seq::empty()) =~= Seq::empty());
                let folded = fold_expressions_spec(arguments@, 0, Some(Seq::empty()), state);
                self.lemma_call_statement(token, folded.value, folded.state);
            },
            Statement::Return(token, value) => {
                match value {
                    Some(value) => {
                        self.lemma_expression(value, state);
                    },
                    None => {},
                }
            },
            _ => {},
        }
    }

    /// Checking a condition, before and after the move.
    pub proof fn lemma_condition(
        self,
        condition: Expression,
        message: Seq<char>,
        state: Pass,
    )
        requires
            self.applies(state, expression_cost(condition)),
        ensures
            condition_rule(
                fold_expression_spec(condition, self.pass(state)).value,
                message,
                fold_expression_spec(condition, self.pass(state)).state,
            ) == self.expression_outcome(
                condition_rule(
                    fold_expression_spec(condition, state).value,
                    message,
                    fold_expression_spec(condition, state).state,
                ),
            ),
            state.counter <= condition_rule(
                fold_expression_spec(condition, state).value,
                message,
                fold_expression_spec(condition, state).state,
            ).state.counter <= state.counter + expression_cost(condition),
    {
        self.lemma_expression(condition, state);
    }

    /// Folding an `if`, before and after the move.
    pub proof fn lemma_if(
        self,
        condition: Expression,
        body: Statement,
        else_body: Option<Box<Statement>>,
        state: Pass,
    )
        requires
            self.applies(
                state,
                statement_cost(Statement::If(condition, Box::new(body), else_body)),
            ),
        ensures
            fold_statement_spec(
                Statement::If(condition, Box::new(body), else_body),
                self.pass(state),
            ) == self.statement_outcome(
                fold_statement_spec(Statement::If(condition, Box::new(body), else_body), state),
            ),
            state.counter <= fold_statement_spec(
                Statement::If(condition, Box::new(body), else_body),
                state,
            ).state.counter <= state.counter + statement_cost(
                Statement::If(condition, Box::new(body), else_body),
            ),
        decreases statement_cost(Statement::If(condition, Box::new(body), else_body)), 0nat, 0nat,
    {
        self.lemma_condition(condition, "If condition must be a Boolean"@, state);
        let folded = fold_expression_spec(condition, state);
        let checked = condition_rule(
            folded.value,
            "If condition must be a Boolean"@,
            folded.state,
        );
        self.lemma_statement(body, checked.state);
        match else_body {
            Some(else_body) => {
                self.lemma_statement(*else_body, fold_statement_spec(body, checked.state).state);
            },
            None => {},
        }
    }

    /// Folding a `while`, before and after the move.
    pub proof fn lemma_while(self, condition: Expression, body: Statement, state: Pass)
        requires
            self.applies(state, statement_cost(Statement::While(condition, Box::new(body)))),
        ensures
            fold_statement_spec(Statement::While(condition, Box::new(body)), self.pass(state))
                == self.statement_outcome(
                fold_statement_spec(Statement::While(condition, Box::new(body)), state),
            ),
            state.counter <= fold_statement_spec(
                Statement::While(condition, Box::new(body)),
                state,
            ).state.counter <= state.counter + statement_cost(
                Statement::While(condition, Box::new(body)),
            ),
        decreases statement_cost(Statement::While(condition, Box::new(body))), 0nat, 0nat,
    {
        self.lemma_condition(condition, "While condition must be of Boolean type"@, state);
        let folded = fold_expression_spec(condition, state);
        let checked = condition_rule(
            folded.value,
            "While condition must be of Boolean type"@,
            folded.state,
        );
        self.lemma_statement(body, checked.state);
    }

    /// Folding a statement, before and after the move.
    pub proof fn lemma_statement(self, node: Statement, state: Pass)
        requires
            self.applies(state, statement_cost(node)),
        ensures
            fold_statement_spec(node, self.pass(state)) == self.statement_outcome(
                fold_statement_spec(node, state),
            ),
            state.counter <= fold_statement_spec(node, state).state.counter <= state.counter
                + statement_cost(node),
        decreases statement_cost(node), 1nat, 0nat,
    {
        match node {
            Statement::Block(body) => {
                self.lemma_block(body@, state);
            },
            Statement::If(condition, body, else_body) => {
                self.lemma_if(condition, *body, else_body, state);
            },
            Statement::While(condition, body) => {
                self.lemma_while(condition, *body, state);
            },
            _ => {
                self.lemma_plain_statement(node, state);
            },
        }
    }

    /// Folding a list of statements, before and after the move.
    pub proof fn lemma_statements(
        self,
        list: Seq<Statement>,
        from: int,
        collected: Option<Seq<StatementModel>>,
        state: Pass,
    )
        requires
            self.applies(state, statements_cost(list, from)),
        ensures
            fold_statements_spec(
                list,
                from,
                self.collected_statements(collected),
                self.pass(state),
            ) == self.statements_outcome(fold_statements_spec(list, from, collected, state)),
            state.counter <= fold_statements_spec(list, from, collected, state).state.counter
                <= state.counter + statements_cost(list, from),
        decreases statements_cost(list, from), 2nat, list.len() - from,
    {
        if 0 <= from < list.len() {
            self.lemma_statement(list[from], state);
            let folded = fold_statement_spec(list[from], state);
            self.lemma_statements(list, from + 1, collect(collected, folded.value), folded.state);
            match (collected, folded.value) {
                (Some(before), Some(item)) => {
                    assert(self.statements(before.push(item)) =~= self.statements(before).push(
                        self.statement(item),
                    ));
                },
                _ => {},
            }
        }
    }

    /// Folding a block, before and after the move.
    pub proof fn lemma_block(self, body: Seq<Statement>, state: Pass)
        requires
            self.applies(state, statements_cost(body, 0) + 1),
        ensures
            fold_block_spec(body, self.pass(state)) == self.statement_outcome(
                fold_block_spec(body, state),
            ),
            state.counter <= fold_block_spec(body, state).state.counter <= state.counter
                + statements_cost(body, 0),
        decreases statements_cost(body, 0) + 1, 0nat, 0nat,
    {
        self.lemma_table(state.table, Seq::empty(), arbitrary());
        self.lemma_statements(body, 0, Some(Seq::empty()), state.open_scope());
        assert(self.statements(Seq::empty()) =~= Seq::empty());
        let folded = fold_statements_spec(body, 0, Some(Seq::empty()), state.open_scope());
        self.lemma_table(folded.state.table, Seq::empty(), arbitrary());
        match fold_block_spec(body, state).value {
            Some(block) => {
                self.lemma_block_body(block);
            },
            None => {},
        }
    }

    /// Folding a list of parameters, before and after the move.
    pub proof fn lemma_parameters(
        self,
        list: Seq<(Token, TypeDescription)>,
        from: int,
        collected: Option<Seq<(VariableModel, TypeModel)>>,
        state: Pass,
    )
        requires
            self.applies(state, parameters_cost(list, from)),
        ensures
            fold_parameters_spec(
                list,
                from,
                self.collected_declarations(collected),
                self.pass(state),
            ) == self.declarations_outcome(fold_parameters_spec(list, from, collected, state)),
            state.counter <= fold_parameters_spec(list, from, collected, state).state.counter
                <= state.counter + parameters_cost(list, from),
        decreases list.len() - from,
    {
        if 0 <= from < list.len() {
            self.lemma_declaration(list[from].0, list[from].1, state);
            let folded = fold_declaration_core_spec(list[from].0, list[from].1, state);
            self.lemma_parameters(list, from + 1, collect(collected, folded.value), folded.state);
            match (collected, folded.value) {
                (Some(before), Some(item)) => {
                    assert(self.declarations(before.push(item)) =~= self.declarations(
                        before,
                    ).push(self.declaration(item)));
                },
                _ => {},
            }
        }
    }

    /// The types of parameters do not depend on addresses.
    pub proof fn lemma_parameter_types(self, list: Seq<(VariableModel, TypeModel)>)
        ensures
            crate::typing::parameter_types(self.declarations(list))
                == crate::typing::parameter_types(list),
    {
        assert(crate::typing::parameter_types(self.declarations(list))
            =~= crate::typing::parameter_types(list));
    }

    /// Folding a procedure, before and after the move.
    pub proof fn lemma_procedure(
        self,
        name: Token,
        parameters: Seq<(Token, TypeDescription)>,
        body: Seq<Statement>,
        state: Pass,
    )
        requires
            self.applies(state, 3 + parameters_cost(parameters, 0) + statements_cost(body, 0)),
        ensures
            fold_procedure_spec(name, parameters, body, self.pass(state))
                == self.subroutine_outcome(fold_procedure_spec(name, parameters, body, state)),
            state.counter <= fold_procedure_spec(name, parameters, body, state).state.counter
                <= state.counter + 3 + parameters_cost(parameters, 0) + statements_cost(body, 0),
    {
        self.lemma_fresh(state);
        self.lemma_table(state.table, Seq::empty(), arbitrary());
        let opened = state.bump().open_routine_scope();
        self.lemma_parameters(parameters, 0, Some(Seq::empty()), opened);
        assert(self.declarations(Seq::empty()) =~= Seq::empty());
        let folded = fold_parameters_spec(parameters, 0, Some(Seq::empty()), opened);
        self.lemma_table(folded.state.table, Seq::empty(), arbitrary());
        match folded.value {
            Some(typed_parameters) => {
                self.lemma_parameter_types(typed_parameters);
                let entry = crate::typing::subroutine_entry(
                    name,
                    crate::symboltable::CategoryModel::Procedure(
                        crate::typing::parameter_types(typed_parameters),
                    ),
                    state.table.current(),
                    state.fresh(),
                );
                self.lemma_table(folded.state.table, Seq::empty(), entry);
                let declared = folded.state.declare(entry);
                self.lemma_block(body, declared);
                let block = fold_block_spec(body, declared);
                self.lemma_table(block.state.table, Seq::empty(), arbitrary());
                match block.value {
                    Some(statement) => {
                        self.lemma_block_body(statement);
                    },
                    None => {},
                }
            },
            None => {},
        }
    }

    /// Folding a function, before and after the move.
    pub proof fn lemma_function(
        self,
        name: Token,
        parameters: Seq<(Token, TypeDescription)>,
        body: Seq<Statement>,
        out_type: TypeDescription,
        state: Pass,
    )
        requires
            self.applies(
                state,
                3 + type_cost(out_type) + parameters_cost(parameters, 0) + statements_cost(
                    body,
                    0,
                ),
            ),
        ensures
            fold_function_spec(name, parameters, body, out_type, self.pass(state))
                == self.subroutine_outcome(
                fold_function_spec(name, parameters, body, out_type, state),
            ),
            state.counter <= fold_function_spec(
                name,
                parameters,
                body,
                out_type,
                state,
            ).state.counter <= state.counter + 3 + type_cost(out_type) + parameters_cost(
                parameters,
                0,
            ) + statements_cost(body, 0),
    {
        self.lemma_fresh(state);
        self.lemma_table(state.table, Seq::empty(), arbitrary());
        let opened = state.bump().open_routine_scope();
        self.lemma_type_description(out_type, opened);
        let typed_type = fold_type_description_spec(out_type, opened);
        self.lemma_table(typed_type.state.table, Seq::empty(), arbitrary());
        match typed_type.value {
            Some(out) => {
                self.lemma_parameters(parameters, 0, Some(Seq::empty()), typed_type.state);
                assert(self.declarations(Seq::empty()) =~= Seq::empty());
                let folded = fold_parameters_spec(
                    parameters,
                    0,
                    Some(Seq::empty()),
                    typed_type.state,
                );
                self.lemma_table(folded.state.table, Seq::empty(), arbitrary());
                match folded.value {
                    Some(typed_parameters) => {
                        self.lemma_parameter_types(typed_parameters);
                        let entry = crate::typing::subroutine_entry(
                            name,
                            crate::symboltable::CategoryModel::Function(
                                crate::typing::parameter_types(typed_parameters),
                                out.node_type(),
                            ),
                            state.table.current(),
                            state.fresh(),
                        );
                        self.lemma_table(folded.state.table, Seq::empty(), entry);
                        let declared = folded.state.declare(entry);
                        self.lemma_block(body, declared);
                        let block = fold_block_spec(body, declared);
                        self.lemma_table(block.state.table, Seq::empty(), arbitrary());
                        match block.value {
                            Some(statement) => {
                                self.lemma_block_body(statement);
                                self.lemma_returns_type(statement, out.node_type());
                            },
                            None => {},
                        }
                    },
                    None => {},
                }
            },
            None => {},
        }
    }

    /// Folding a subroutine, before and after the move.
    pub proof fn lemma_subroutine(self, node: Subroutine, state: Pass)
        requires
            self.applies(state, subroutine_cost(node)),
        ensures
            fold_subroutine_spec(node, self.pass(state)) == self.subroutine_outcome(
                fold_subroutine_spec(node, state),
            ),
            state.counter <= fold_subroutine_spec(node, state).state.counter <= state.counter
                + subroutine_cost(node),
    {
        match node {
            Subroutine::Procedure(name, parameters, body) => {
                self.lemma_procedure(name, parameters@, body@, state);
            },
            Subroutine::Function(name, parameters, body, out_type) => {
                self.lemma_function(name, parameters@, body@, out_type, state);
            },
        }
    }

    /// Folding a list of subroutines, before and after the move.
    pub proof fn lemma_subroutines(
        self,
        list: Seq<Subroutine>,
        from: int,
        collected: Option<Seq<SubroutineModel>>,
        state: Pass,
    )
        requires
            self.applies(state, subroutines_cost(list, from)),
        ensures
            fold_subroutines_spec(
                list,
                from,
                self.collected_subroutines(collected),
                self.pass(state),
            ) == self.subroutines_outcome(fold_subroutines_spec(list, from, collected, state)),
            state.counter <= fold_subroutines_spec(list, from, collected, state).state.counter
                <= state.counter + subroutines_cost(list, from),
        decreases list.len() - from,
    {
        if 0 <= from < list.len() {
            self.lemma_subroutine(list[from], state);
            let folded = fold_subroutine_spec(list[from], state);
            self.lemma_subroutines(list, from + 1, collect(collected, folded.value), folded.state);
            match (collected, folded.value) {
                (Some(before), Some(item)) => {
                    assert(self.subroutines(before.push(item)) =~= self.subroutines(before).push(
                        self.subroutine(item),
                    ));
                },
                _ => {},
            }
        }
    }

    /// Folding a program, before and after the move.
    pub proof fn lemma_program(self, node: AST, state: Pass)
        requires
            self.applies(state, program_cost(node)),
        ensures
            fold_program_spec(node, self.pass(state)) == self.program_outcome(
                fold_program_spec(node, state),
            ),
    {
        match node {
            AST::Program(name, subroutines, body) => {
                self.lemma_subroutines(subroutines@, 0, Some(Seq::empty()), state);
                assert(self.subroutines(Seq::empty()) =~= Seq::empty());
                let folded = fold_subroutines_spec(subroutines@, 0, Some(Seq::empty()), state);
                self.lemma_block(body@, folded.state);
                match fold_block_spec(body@, folded.state).value {
                    Some(statement) => {
                        self.lemma_block_body(statement);
                    },
                    None => {},
                }
            },
        }
    }

    /// The built-in names live at addresses that no renumbering moves.
    pub proof fn lemma_initial_table(self)
        requires
            self.floor >= 1,
        ensures
            self.table(initial_table()) == initial_table(),
    {
        assert(self.entries(crate::symboltable::builtin_entries())
            =~= crate::symboltable::builtin_entries());
        assert(self.table(initial_table()).entries =~= initial_table().entries);
    }
}

/// Addresses are names and nothing more. Two passes over one program, from
/// the table of the built-in names and from any two addresses, give the
/// same typed program and the same diagnostics, except that every address
/// that the second pass issued is the one that the first pass issued moved
/// by the difference of the two starts. The passes need room: the program
/// has no more nodes than addresses are left.
pub proof fn lemma_addresses_are_names(
    node: AST,
    errors: Seq<Seq<char>>,
    first_start: int,
    second_start: int,
)
    requires
        1 <= first_start,
        1 <= second_start,
        first_start + program_cost(node) <= u64::MAX,
        second_start + program_cost(node) <= u64::MAX,
    ensures
        ({
            let first = fold_program_spec(
                node,
                Pass { errors, counter: first_start, table: initial_table() },
            );
            let second = fold_program_spec(
                node,
                Pass { errors, counter: second_start, table: initial_table() },
            );
            let renumbering = Renumbering {
                floor: if first_start <= second_start {
                    first_start
                } else {
                    second_start
                },
                shift: second_start - first_start,
            };
            &&& second.state.errors == first.state.errors
            &&& second.state.counter - second_start == first.state.counter - first_start
            &&& second.value == match first.value {
                Some(program) => Some(renumbering.program(program)),
                None => None,
            }
            &&& second.state.table == renumbering.table(first.state.table)
        }),
{
    let renumbering = Renumbering {
        floor: if first_start <= second_start {
            first_start
        } else {
            second_start
        },
        shift: second_start - first_start,
    };
    let state = Pass { errors, counter: first_start, table: initial_table() };
    renumbering.lemma_initial_table();
    renumbering.lemma_program(node, state);
}

} // verus!
