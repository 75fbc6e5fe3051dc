//! Folding of declarations, parameters and type descriptions.

use vstd::prelude::*;
use crate::ast::{
    expression_cost,
    parameters_cost,
    type_cost,
    Expression,
    Statement,
    TypeDescription,
    Variable,
};
use crate::symboltable::{ConstructCategory, Entry, Symboltable};
use crate::token::Token;
use crate::typedast::{
    parameters_view,
    NodeType,
    SimpleType,
    TypedStatement,
    TypedTypeDescription,
    TypedVariable,
    TypedVariableStructure,
};
use crate::typing::{
    array_declaration_rule,
    diagnostic,
    fold_declaration_core_spec,
    fold_expression_spec,
    fold_parameters_spec,
    fold_statement_spec,
    fold_type_description_spec,
    named_kind,
    parameter_types,
    simple_declaration_rule,
    type_name_fault,
};
use crate::typefolder::{folded_declaration, folded_statement, folded_type, spent, TypeFolder};

verus! {

impl TypeFolder {
    pub(crate) fn fold_declaration(
        &mut self,
        token: &Token,
        type_description: &TypeDescription,
        st: &mut Symboltable,
    ) -> (res: Option<TypedStatement>)
        requires
            old(st).wf(),
            old(self).counter() + type_cost(*type_description) <= u64::MAX,
        ensures
            final(st).wf(),
            folded_statement(
                res,
                final(self).pass(final(st)@),
                fold_statement_spec(
                    Statement::Declaration(*token, *type_description),
                    old(self).pass(old(st)@),
                ),
            ),
            spent(
                old(self).pass(old(st)@),
                final(self).pass(final(st)@),
                type_cost(*type_description),
            ),
    {
        match self.fold_typed_declaration_core(token, type_description, st) {
            Some(declaration_core) => {
                let (typed_var, description) = declaration_core;
                Some(TypedStatement::Declaration(typed_var, description))
            },
            None => None,
        }
    }

    pub(crate) fn simple_type_from_node_type(&self, node_type: &NodeType) -> (kind: SimpleType)
        ensures
            kind == node_type.kind(),
    {
        match node_type {
            NodeType::Simple(t) => *t,
            NodeType::ArrayOf(t) => *t,
        }
    }

    pub(crate) fn fold_typed_declaration_core(
        &mut self,
        name_token: &Token,
        type_description: &TypeDescription,
        st: &mut Symboltable,
    ) -> (res: Option<(TypedVariable, TypedTypeDescription)>)
        requires
            old(st).wf(),
            old(self).counter() + type_cost(*type_description) <= u64::MAX,
        ensures
            final(st).wf(),
            folded_declaration(
                res,
                final(self).pass(final(st)@),
                fold_declaration_core_spec(
                    *name_token,
                    *type_description,
                    old(self).pass(old(st)@),
                ),
            ),
            old(self).counter() <= final(self).counter() <= old(self).counter() + type_cost(
                *type_description,
            ),
            final(st)@.next_scope() == old(st)@.next_scope(),
            final(st)@.stack == old(st)@.stack,
    {
        if !st.in_current_scope(&name_token.lexeme) {
            match type_description {
                TypeDescription::Simple(t) => self.fold_typed_declaration_simple_core(
                    name_token,
                    t,
                    st,
                ),
                TypeDescription::Array(t, e) => self.fold_typed_declaration_array_core(
                    name_token,
                    t,
                    e,
                    st,
                ),
            }
        } else {
            self.handle_error(name_token, "Variable declared twice");
            None
        }
    }

    pub(crate) fn fold_typed_declaration_simple_core(
        &mut self,
        name_token: &Token,
        type_token: &Token,
        st: &mut Symboltable,
    ) -> (res: Option<(TypedVariable, TypedTypeDescription)>)
        requires
            old(st).wf(),
            old(self).counter() < u64::MAX,
        ensures
            final(st).wf(),
            folded_declaration(
                res,
                final(self).pass(final(st)@),
                simple_declaration_rule(*name_token, *type_token, old(self).pass(old(st)@)),
            ),
            old(self).counter() <= final(self).counter() <= old(self).counter() + 1,
            final(st)@.next_scope() == old(st)@.next_scope(),
            final(st)@.stack == old(st)@.stack,
    {
        match self.is_valid_type(type_token, st) {
            Some(entry_base_type) => {
                let entry_type = NodeType::Simple(entry_base_type);
                let address = self.get_new_simple_address();
                let entry = Entry {
                    name: name_token.lexeme.clone(),
                    category: ConstructCategory::SimpleVar,
                    scope_number: st.get_current_scope_number(),
                    entry_type,
                    address,
                    value: String::new(),
                };
                st.add_entry(entry);
                Some(
                    (
                        TypedVariable {
                            token: name_token.clone(),
                            address,
                            node_type: entry_type,
                            substructure: TypedVariableStructure::Simple,
                        },
                        TypedTypeDescription::Simple(entry_type),
                    ),
                )
            },
            None => None,
        }
    }

    pub(crate) fn fold_typed_declaration_array_core(
        &mut self,
        name_token: &Token,
        type_token: &Token,
        type_expression: &Expression,
        st: &mut Symboltable,
    ) -> (res: Option<(TypedVariable, TypedTypeDescription)>)
        requires
            old(st).wf(),
            old(self).counter() + expression_cost(*type_expression) + 1 <= u64::MAX,
        ensures
            final(st).wf(),
            folded_declaration(
                res,
                final(self).pass(final(st)@),
                array_declaration_rule(
                    *name_token,
                    *type_token,
                    fold_expression_spec(*type_expression, old(self).pass(old(st)@)).value,
                    fold_expression_spec(*type_expression, old(self).pass(old(st)@)).state,
                ),
            ),
            old(self).counter() <= final(self).counter() <= old(self).counter() + expression_cost(
                *type_expression,
            ) + 1,
            final(st)@.next_scope() == old(st)@.next_scope(),
            final(st)@.stack == old(st)@.stack,
    {
        match self.fold_expression(type_expression, st) {
            None => None,
            Some(typed_expression) => {
                if typed_expression.node_type == NodeType::Simple(SimpleType::Integer) {
                    match self.is_valid_type(type_token, st) {
                        None => None,
                        Some(element_type) => {
                            let address = self.get_new_simple_address();
                            let node_type = NodeType::ArrayOf(element_type);
                            let new_entry = Entry {
                                name: name_token.lexeme.clone(),
                                category: ConstructCategory::ArrayVar,
                                entry_type: node_type,
                                scope_number: st.get_current_scope_number(),
                                value: String::new(),
                                address,
                            };
                            st.add_entry(new_entry);
                            let type_description = TypedTypeDescription::Array(
                                node_type,
                                typed_expression,
                            );
                            Some(
                                (
                                    TypedVariable {
                                        node_type,
                                        token: name_token.clone(),
                                        address,
                                        substructure: TypedVariableStructure::Simple,
                                    },
                                    type_description,
                                ),
                            )
                        },
                    }
                } else {
                    self.handle_error(
                        &typed_expression.token,
                        "Array size must be of type integer",
                    );
                    None
                }
            },
        }
    }

    pub(crate) fn fold_type_description(&mut self, type_description: &TypeDescription, st: &Symboltable) -> (res:
        Option<TypedTypeDescription>)
        requires
            st.wf(),
            old(self).counter() + type_cost(*type_description) <= u64::MAX,
        ensures
            folded_type(
                res,
                final(self).pass(st@),
                fold_type_description_spec(*type_description, old(self).pass(st@)),
            ),
            old(self).counter() <= final(self).counter() <= old(self).counter() + type_cost(
                *type_description,
            ),
    {
        match type_description {
            TypeDescription::Simple(token) => self.fold_simple_type_description(token, st),
            TypeDescription::Array(token, expression) => self.fold_array_type_description(
                token,
                expression,
                st,
            ),
        }
    }

    pub(crate) fn fold_simple_type_description(&mut self, name: &Token, st: &Symboltable) -> (res: Option<
        TypedTypeDescription,
    >)
        requires
            st.wf(),
        ensures
            folded_type(
                res,
                final(self).pass(st@),
                fold_type_description_spec(TypeDescription::Simple(*name), old(self).pass(st@)),
            ),
            final(self).counter() == old(self).counter(),
    {
        match self.is_valid_type(name, st) {
            Some(core_type) => Some(TypedTypeDescription::Simple(NodeType::Simple(core_type))),
            None => None,
        }
    }

    pub(crate) fn fold_array_type_description(
        &mut self,
        name: &Token,
        expression: &Expression,
        st: &Symboltable,
    ) -> (res: Option<TypedTypeDescription>)
        requires
            st.wf(),
            old(self).counter() + expression_cost(*expression) <= u64::MAX,
        ensures
            folded_type(
                res,
                final(self).pass(st@),
                fold_type_description_spec(
                    TypeDescription::Array(*name, *expression),
                    old(self).pass(st@),
                ),
            ),
            old(self).counter() <= final(self).counter() <= old(self).counter() + expression_cost(
                *expression,
            ),
    {
        match self.fold_expression(expression, st) {
            None => None,
            Some(typed_expression) => {
                if typed_expression.node_type == NodeType::Simple(SimpleType::Integer) {
                    match self.is_valid_type(name, st) {
                        Some(core_type) => Some(
                            TypedTypeDescription::Array(
                                NodeType::ArrayOf(core_type),
                                typed_expression,
                            ),
                        ),
                        None => None,
                    }
                } else {
                    self.handle_error(name, "Array size must be integer");
                    None
                }
            },
        }
    }

    /// Whether the token names a type, and then the scalar kind it stands for.
    /// A name that does not is reported.
    pub(crate) fn is_valid_type(&mut self, type_token: &Token, st: &Symboltable) -> (kind: Option<SimpleType>)
        requires
            st.wf(),
        ensures
            final(self).counter() == old(self).counter(),
            match type_name_fault(st@, type_token.lexeme@) {
                Some(message) => {
                    &&& kind.is_none()
                    &&& final(self).diagnostics() == old(self).diagnostics().push(
                        diagnostic(message, type_token.row, type_token.column),
                    )
                },
                None => {
                    &&& kind == Some(named_kind(st@, type_token.lexeme@))
                    &&& final(self).diagnostics() == old(self).diagnostics()
                },
            },
    {
        match st.lookup(&type_token.lexeme) {
            Some(declared_type) => match declared_type.category {
                ConstructCategory::TypeId => Some(
                    self.simple_type_from_node_type(&declared_type.entry_type),
                ),
                _ => {
                    self.handle_error(type_token, "Identifier does not refer to a type");
                    None
                },
            },
            None => {
                self.handle_error(type_token, "Usage of an undeclared type");
                None
            },
        }
    }

    pub(crate) fn fold_parameters(&mut self, params: &Vec<(Token, TypeDescription)>, st: &mut Symboltable) -> (res:
        Option<Vec<(TypedVariable, TypedTypeDescription)>>)
        requires
            old(st).wf(),
            old(self).has_room(old(st)@, parameters_cost(params@, 0)),
        ensures
            final(st).wf(),
            final(self).pass(final(st)@) == fold_parameters_spec(
                params@,
                0,
                Some(Seq::empty()),
                old(self).pass(old(st)@),
            ).state,
            match res {
                Some(list) => fold_parameters_spec(
                    params@,
                    0,
                    Some(Seq::empty()),
                    old(self).pass(old(st)@),
                ).value == Some(parameters_view(list@)),
                None => fold_parameters_spec(
                    params@,
                    0,
                    Some(Seq::empty()),
                    old(self).pass(old(st)@),
                ).value.is_none(),
            },
            spent(
                old(self).pass(old(st)@),
                final(self).pass(final(st)@),
                parameters_cost(params@, 0),
            ),
            final(st)@.stack == old(st)@.stack,
    {
        let mut typed_params: Vec<(TypedVariable, TypedTypeDescription)> = Vec::new();
        let mut complete = true;
        let mut i: usize = 0;
        assert(parameters_view(typed_params@) =~= Seq::empty());
        while i < params.len()
            invariant
                i <= params.len(),
                st.wf(),
                old(self).has_room(old(st)@, parameters_cost(params@, 0)),
                old(self).counter() <= self.counter(),
                self.counter() + parameters_cost(params@, i as int) <= old(self).counter()
                    + parameters_cost(params@, 0),
                st@.next_scope() == old(st)@.next_scope(),
                st@.stack == old(st)@.stack,
                fold_parameters_spec(
                    params@,
                    i as int,
                    if complete {
                        Some(parameters_view(typed_params@))
                    } else {
                        None
                    },
                    self.pass(st@),
                ) == fold_parameters_spec(
                    params@,
                    0,
                    Some(Seq::empty()),
                    old(self).pass(old(st)@),
                ),
            decreases params.len() - i,
        {
            let ghost before = typed_params@;
            match self.fold_typed_declaration_core(&params[i].0, &params[i].1, st) {
                Some(declaration_core) => {
                    typed_params.push(declaration_core);
                    assert(parameters_view(typed_params@) =~= parameters_view(before).push(
                        (declaration_core.0@, declaration_core.1@),
                    ));
                },
                None => {
                    complete = false;
                },
            }
            i = i + 1;
        }
        if complete {
            Some(typed_params)
        } else {
            None
        }
    }

    pub(crate) fn get_node_type_for_parameters(
        &self,
        parameters: &Vec<(TypedVariable, TypedTypeDescription)>,
    ) -> (node_types: Vec<NodeType>)
        ensures
            node_types@ == parameter_types(parameters_view(parameters@)),
    {
        let mut node_types: Vec<NodeType> = Vec::new();
        let mut i: usize = 0;
        while i < parameters.len()
            invariant
                i <= parameters.len(),
                node_types@.len() == i,
                forall|k: int| 0 <= k < i ==> node_types@[k] == parameters@[k].0.node_type,
            decreases parameters.len() - i,
        {
            node_types.push(parameters[i].0.node_type);
            i = i + 1;
        }
        assert(node_types@ =~= parameter_types(parameters_view(parameters@)));
        node_types
    }
}

} // verus!
