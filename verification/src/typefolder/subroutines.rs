//! Folding of functions and procedures.

use vstd::prelude::*;
use crate::ast::{parameters_cost, statements_cost, type_cost, Statement, TypeDescription};
use crate::symboltable::{ConstructCategory, Entry, Symboltable};
use crate::token::Token;
use crate::typedast::{
    lemma_block_view,
    statements_view,
    NodeType,
    SimpleType,
    StatementModel,
    TypedStatement,
    TypedSubroutine,
    TypedTypeDescription,
};
use crate::typing::{fold_function_spec, fold_procedure_spec, returns_type};
use crate::typefolder::{folded_subroutine, spent, TypeFolder};

verus! {

impl TypeFolder {
    pub(crate) fn fold_function(
        &mut self,
        token: &Token,
        params: &Vec<(Token, TypeDescription)>,
        body: &Vec<Statement>,
        out_type: &TypeDescription,
        st: &mut Symboltable,
    ) -> (res: Option<TypedSubroutine>)
        requires
            old(st).wf(),
            old(self).has_room(
                old(st)@,
                3 + type_cost(*out_type) + parameters_cost(params@, 0) + statements_cost(body@, 0),
            ),
        ensures
            final(st).wf(),
            folded_subroutine(
                res,
                final(self).pass(final(st)@),
                fold_function_spec(*token, params@, body@, *out_type, old(self).pass(old(st)@)),
            ),
            spent(
                old(self).pass(old(st)@),
                final(self).pass(final(st)@),
                3 + type_cost(*out_type) + parameters_cost(params@, 0) + statements_cost(body@, 0),
            ),
    {
        let upper_scope_no = st.get_current_scope_number();
        let address = self.get_new_simple_address();
        st.new_scope_in_current_scope(true);
        match self.fold_type_description(out_type, st) {
            None => {
                st.exit_scope();
                None
            },
            Some(typed_type) => {
                let node_type = match &typed_type {
                    TypedTypeDescription::Simple(t) => *t,
                    TypedTypeDescription::Array(t, _e) => *t,
                };
                match self.fold_parameters(params, st) {
                    None => {
                        st.exit_scope();
                        None
                    },
                    Some(typed_params) => {
                        let entry = Entry {
                            name: token.lexeme.clone(),
                            value: String::new(),
                            scope_number: upper_scope_no,
                            entry_type: NodeType::Simple(SimpleType::Boolean),
                            address,
                            category: ConstructCategory::Function(
                                self.get_node_type_for_parameters(&typed_params),
                                node_type,
                            ),
                        };
                        st.add_entry(entry);
                        match self.fold_block(body, st) {
                            Some(typed_body_stmnt) => {
                                proof {
                                    lemma_block_view(typed_body_stmnt);
                                }
                                if self.validate_return_for_function(
                                    &node_type,
                                    &typed_body_stmnt,
                                ) {
                                    st.exit_scope();
                                    match typed_body_stmnt {
                                        TypedStatement::Block(_scope, typed_body) => Some(
                                            TypedSubroutine::Function(
                                                address,
                                                typed_params,
                                                typed_body,
                                                typed_type,
                                            ),
                                        ),
                                        _ => None,
                                    }
                                } else {
                                    self.handle_error(
                                        token,
                                        "No return statement of correct type found in function",
                                    );
                                    st.exit_scope();
                                    None
                                }
                            },
                            None => {
                                st.exit_scope();
                                None
                            },
                        }
                    },
                }
            },
        }
    }

    pub(crate) fn fold_procedure(
        &mut self,
        token: &Token,
        params: &Vec<(Token, TypeDescription)>,
        body: &Vec<Statement>,
        st: &mut Symboltable,
    ) -> (res: Option<TypedSubroutine>)
        requires
            old(st).wf(),
            old(self).has_room(
                old(st)@,
                3 + parameters_cost(params@, 0) + statements_cost(body@, 0),
            ),
        ensures
            final(st).wf(),
            folded_subroutine(
                res,
                final(self).pass(final(st)@),
                fold_procedure_spec(*token, params@, body@, old(self).pass(old(st)@)),
            ),
            spent(
                old(self).pass(old(st)@),
                final(self).pass(final(st)@),
                3 + parameters_cost(params@, 0) + statements_cost(body@, 0),
            ),
    {
        let upper_scope_no = st.get_current_scope_number();
        let address = self.get_new_simple_address();
        st.new_scope_in_current_scope(true);
        match self.fold_parameters(params, st) {
            None => {
                st.exit_scope();
                None
            },
            Some(typed_params) => {
                let entry = Entry {
                    name: token.lexeme.clone(),
                    value: String::new(),
                    scope_number: upper_scope_no,
                    entry_type: NodeType::Simple(SimpleType::Boolean),
                    address,
                    category: ConstructCategory::Procedure(
                        self.get_node_type_for_parameters(&typed_params),
                    ),
                };
                st.add_entry(entry);
                let typed_block = self.fold_block(body, st);
                st.exit_scope();
                proof {
                    if typed_block is Some {
                        lemma_block_view(typed_block->0);
                    }
                }
                match typed_block {
                    Some(TypedStatement::Block(_scope, typed_body)) => Some(
                        TypedSubroutine::Procedure(address, typed_params, typed_body),
                    ),
                    _ => None,
                }
            },
        }
    }

    pub(crate) fn validate_return_for_function(&self, node_type: &NodeType, statement: &TypedStatement) -> (found:
        bool)
        ensures
            found == returns_type(statement@, *node_type),
        decreases statement,
    {
        match statement {
            TypedStatement::Return(_t, maybe_value) => {
                match maybe_value {
                    Some(value) => value.node_type == *node_type,
                    None => false,
                }
            },
            TypedStatement::If(_e, b, eb) => {
                if self.validate_return_for_function(node_type, b) {
                    return true;
                }
                match eb {
                    Some(else_body) => self.validate_return_for_function(node_type, else_body),
                    None => false,
                }
            },
            TypedStatement::While(_c, body) => self.validate_return_for_function(node_type, body),
            TypedStatement::Block(_scope, body) => {
                proof {
                    lemma_block_view(*statement);
                }
                let mut i: usize = 0;
                while i < body.len()
                    invariant
                        i <= body.len(),
                        statement matches TypedStatement::Block(_, b) && b == body,
                        statement@ matches StatementModel::Block(_, list) && list
                            == statements_view(body@),
                        forall|k: int|
                            0 <= k < i ==> !returns_type(
                                #[trigger] statements_view(body@)[k],
                                *node_type,
                            ),
                    decreases body.len() - i,
                {
                    if self.validate_return_for_function(node_type, &body[i]) {
                        assert(returns_type(statements_view(body@)[i as int], *node_type));
                        return true;
                    }
                    i = i + 1;
                }
                false
            },
            _ => false,
        }
    }
}

} // verus!
