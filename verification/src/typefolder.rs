//! The type folder: one pass over the untyped tree that resolves every
//! name, checks the typing rules, gives every declaration and every
//! expression result a storage address, and rebuilds the tree typed. A
//! construct that cannot be typed is reported once, where the fault lies,
//! and comes out as nothing; its siblings are folded all the same.

use vstd::prelude::*;
use crate::address::Address;
use crate::ast::{
    cost_of_program,
    program_cost,
    statements_cost,
    subroutine_cost,
    subroutines_cost,
    Subroutine,
    AST,
};
use crate::symboltable::{Symboltable, TableModel};
use crate::text::push_decimal;
use crate::token::Token;
use crate::typedast::{
    expressions_view,
    lemma_block_view,
    subroutines_view,
    ExpressionModel,
    ProgramModel,
    StatementModel,
    SubroutineModel,
    TypeModel,
    TypedAST,
    TypedExpression,
    TypedStatement,
    TypedSubroutine,
    TypedTypeDescription,
    TypedVariable,
    VariableModel,
};
use crate::typing::{
    address_after,
    diagnostic,
    fold_program_spec,
    fold_subroutine_spec,
    fold_subroutines_spec,
    Outcome,
    Pass,
};

pub mod declarations;
pub mod expressions;
pub mod statements;
pub mod subroutines;

verus! {

/// The folder: the diagnostics of the pass and the number of the last
/// address issued.
pub struct TypeFolder {
    errors: Vec<String>,
    address_generator_no: u64,
}

/// An expression came out as the rule says, in the state that the rule says.
pub open spec fn folded_expression(
    result: Option<TypedExpression>,
    state: Pass,
    outcome: Outcome<ExpressionModel>,
) -> bool {
    &&& state == outcome.state
    &&& match result {
        Some(expression) => outcome.value == Some(expression@),
        None => outcome.value.is_none(),
    }
}

/// A variable came out as the rule says, in the state that the rule says.
pub open spec fn folded_variable(
    result: Option<TypedVariable>,
    state: Pass,
    outcome: Outcome<VariableModel>,
) -> bool {
    &&& state == outcome.state
    &&& match result {
        Some(variable) => outcome.value == Some(variable@),
        None => outcome.value.is_none(),
    }
}

/// A list of expressions came out as the rule says, in the state that the
/// rule says.
pub open spec fn folded_expressions(
    result: Option<Vec<TypedExpression>>,
    state: Pass,
    outcome: Outcome<Seq<ExpressionModel>>,
) -> bool {
    &&& state == outcome.state
    &&& match result {
        Some(list) => outcome.value == Some(expressions_view(list@)),
        None => outcome.value.is_none(),
    }
}

/// A statement came out as the rule says, in the state that the rule says.
pub open spec fn folded_statement(
    result: Option<TypedStatement>,
    state: Pass,
    outcome: Outcome<StatementModel>,
) -> bool {
    &&& state == outcome.state
    &&& match result {
        Some(statement) => outcome.value == Some(statement@),
        None => outcome.value.is_none(),
    }
}

/// A declaration came out as the rule says, in the state that the rule says.
pub open spec fn folded_declaration(
    result: Option<(TypedVariable, TypedTypeDescription)>,
    state: Pass,
    outcome: Outcome<(VariableModel, TypeModel)>,
) -> bool {
    &&& state == outcome.state
    &&& match result {
        Some(declaration) => outcome.value == Some((declaration.0@, declaration.1@)),
        None => outcome.value.is_none(),
    }
}

/// A type description came out as the rule says, in the state that the rule
/// says.
pub open spec fn folded_type(
    result: Option<TypedTypeDescription>,
    state: Pass,
    outcome: Outcome<TypeModel>,
) -> bool {
    &&& state == outcome.state
    &&& match result {
        Some(description) => outcome.value == Some(description@),
        None => outcome.value.is_none(),
    }
}

/// A subroutine came out as the rule says, in the state that the rule says.
pub open spec fn folded_subroutine(
    result: Option<TypedSubroutine>,
    state: Pass,
    outcome: Outcome<SubroutineModel>,
) -> bool {
    &&& state == outcome.state
    &&& match result {
        Some(subroutine) => outcome.value == Some(subroutine@),
        None => outcome.value.is_none(),
    }
}

/// A program came out as the rule says, in the state that the rule says.
pub open spec fn folded_program(
    result: Option<TypedAST>,
    state: Pass,
    outcome: Outcome<ProgramModel>,
) -> bool {
    &&& state == outcome.state
    &&& match result {
        Some(program) => outcome.value == Some(program@),
        None => outcome.value.is_none(),
    }
}

/// Between two states of a pass, at most `cost` addresses were issued and at
/// most `cost` scopes opened.
pub open spec fn spent(before: Pass, after: Pass, cost: nat) -> bool {
    &&& before.counter <= after.counter <= before.counter + cost
    &&& before.table.next_scope() <= after.table.next_scope() <= before.table.next_scope()
        + cost
}

impl TypeFolder {
    /// Enough addresses and scope numbers are left to fold constructs of the
    /// given cost.
    pub open spec fn has_room(&self, table: TableModel, cost: nat) -> bool {
        &&& self.counter() + cost <= u64::MAX
        &&& table.next_scope() + cost <= i32::MAX
    }

    /// The diagnostics reported so far, oldest first.
    pub closed spec fn diagnostics(&self) -> Seq<Seq<char>> {
        Seq::new(self.errors@.len(), |i: int| self.errors@[i]@)
    }

    /// The number of the last address issued.
    pub closed spec fn counter(&self) -> int {
        self.address_generator_no as int
    }

    /// The state of the pass, over a given table.
    pub open spec fn pass(&self, table: TableModel) -> Pass {
        Pass { errors: self.diagnostics(), counter: self.counter(), table }
    }

    /// A folder at the start of a pass: nothing reported, and the addresses
    /// up to 2 taken, 0 and 1 among them for the two truth values.
    pub fn new() -> (folder: TypeFolder)
        ensures
            folder.diagnostics() == Seq::<Seq<char>>::empty(),
            folder.counter() == 2,
    {
        let folder = TypeFolder { errors: Vec::new(), address_generator_no: 2 };
        assert(folder.diagnostics() =~= Seq::<Seq<char>>::empty());
        folder
    }

    /// Whether enough addresses and scope numbers are left to fold a program:
    /// at most as many of each are used as the program has nodes.
    pub fn fits(&self, node: &AST, st: &Symboltable) -> (room: bool)
        ensures
            room == self.has_room(st@, program_cost(*node)),
    {
        match cost_of_program(node) {
            None => false,
            Some(cost) => {
                let scopes = st.scope_count();
                cost <= u64::MAX - self.address_generator_no && scopes <= 0x7fff_ffff && cost
                    <= 0x7fff_ffff - (scopes as u64)
            },
        }
    }

    /// The diagnostics reported so far, oldest first.
    pub fn get_errors(&self) -> (errors: &Vec<String>)
        ensures
            errors@.len() == self.diagnostics().len(),
            forall|i: int| 0 <= i < errors@.len() ==> errors@[i]@ == self.diagnostics()[i],
    {
        &self.errors
    }

    pub(crate) fn get_new_simple_address(&mut self) -> (address: Address)
        requires
            old(self).counter() < u64::MAX,
        ensures
            address == address_after(old(self).counter()),
            final(self).counter() == old(self).counter() + 1,
            final(self).diagnostics() == old(self).diagnostics(),
    {
        self.address_generator_no = self.address_generator_no + 1;
        Address::new_simple(self.address_generator_no)
    }

    pub(crate) fn get_new_indexed_address(&mut self, address: Address, index: Address) -> (indexed: Address)
        ensures
            indexed == Address::indexed(address, index),
            final(self).counter() == old(self).counter(),
            final(self).diagnostics() == old(self).diagnostics(),
    {
        Address::new_indexed(address, index)
    }

    pub(crate) fn handle_error(&mut self, token: &Token, context: &str)
        ensures
            final(self).diagnostics() == old(self).diagnostics().push(
                diagnostic(context@, token.row, token.column),
            ),
            final(self).counter() == old(self).counter(),
    {
        let mut complete_message = String::from_str("Semantic error: ");
        complete_message.append(context);
        complete_message.append(" on line ");
        push_decimal(&mut complete_message, token.row as u128 + 1);
        complete_message.append(", column ");
        push_decimal(&mut complete_message, token.column as u128 + 1);
        complete_message.append(".");
        self.errors.push(complete_message);
        assert(self.diagnostics() =~= old(self).diagnostics().push(
            diagnostic(context@, token.row, token.column),
        ));
    }

    /// Folds a program into its typed form. Every subroutine and the main
    /// block are folded, whatever failed before them; the result is the typed
    /// program when nothing failed, and nothing otherwise, with one diagnostic
    /// for every fault.
    pub fn fold_ast(&mut self, node: &AST, st: &mut Symboltable) -> (res: Option<TypedAST>)
        requires
            old(st).wf(),
            old(self).has_room(old(st)@, program_cost(*node)),
        ensures
            final(st).wf(),
            folded_program(
                res,
                final(self).pass(final(st)@),
                fold_program_spec(*node, old(self).pass(old(st)@)),
            ),
            spent(
                old(self).pass(old(st)@),
                final(self).pass(final(st)@),
                program_cost(*node),
            ),
    {
        match node {
            AST::Program(token, subroutines, main_block) => {
                let mut typed_subroutines: Vec<TypedSubroutine> = Vec::new();
                let mut complete = true;
                let mut i: usize = 0;
                assert(subroutines_view(typed_subroutines@) =~= Seq::empty());
                while i < subroutines.len()
                    invariant
                        i <= subroutines.len(),
                        st.wf(),
                        old(self).has_room(
                            old(st)@,
                            1 + subroutines_cost(subroutines@, 0) + statements_cost(
                                main_block@,
                                0,
                            ),
                        ),
                        old(self).counter() <= self.counter(),
                        self.counter() + subroutines_cost(subroutines@, i as int) <= old(
                            self,
                        ).counter() + subroutines_cost(subroutines@, 0),
                        old(st)@.next_scope() <= st@.next_scope(),
                        st@.next_scope() + subroutines_cost(subroutines@, i as int) <= old(
                            st,
                        )@.next_scope() + subroutines_cost(subroutines@, 0),
                        fold_subroutines_spec(
                            subroutines@,
                            i as int,
                            if complete {
                                Some(subroutines_view(typed_subroutines@))
                            } else {
                                None
                            },
                            self.pass(st@),
                        ) == fold_subroutines_spec(
                            subroutines@,
                            0,
                            Some(Seq::empty()),
                            old(self).pass(old(st)@),
                        ),
                    decreases subroutines.len() - i,
                {
                    let ghost before = typed_subroutines@;
                    match self.fold_subroutine(&subroutines[i], st) {
                        Some(sr) => {
                            typed_subroutines.push(sr);
                            assert(subroutines_view(typed_subroutines@) =~= subroutines_view(
                                before,
                            ).push(sr@));
                        },
                        None => {
                            complete = false;
                        },
                    }
                    i = i + 1;
                }
                let typed_block = self.fold_block(main_block, st);
                proof {
                    if typed_block is Some {
                        lemma_block_view(typed_block->0);
                    }
                }
                match typed_block {
                    Some(TypedStatement::Block(_scope, block)) => {
                        if complete {
                            Some(TypedAST::Program(token.clone(), typed_subroutines, block))
                        } else {
                            None
                        }
                    },
                    _ => None,
                }
            },
        }
    }

    pub(crate) fn fold_subroutine(&mut self, node: &Subroutine, st: &mut Symboltable) -> (res: Option<
        TypedSubroutine,
    >)
        requires
            old(st).wf(),
            old(self).has_room(old(st)@, subroutine_cost(*node)),
        ensures
            final(st).wf(),
            folded_subroutine(
                res,
                final(self).pass(final(st)@),
                fold_subroutine_spec(*node, old(self).pass(old(st)@)),
            ),
            spent(
                old(self).pass(old(st)@),
                final(self).pass(final(st)@),
                subroutine_cost(*node),
            ),
    {
        match node {
            Subroutine::Procedure(token, params, body) => self.fold_procedure(
                token,
                params,
                body,
                st,
            ),
            Subroutine::Function(token, params, body, out_type) => self.fold_function(
                token,
                params,
                body,
                out_type,
                st,
            ),
        }
    }
}

} // verus!
