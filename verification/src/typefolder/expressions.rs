//! Folding of expressions and variables.

use vstd::prelude::*;
use crate::ast::{expression_cost, expressions_cost, variable_cost, Expression, Variable};
use crate::opkind::{string_as_opkind, OpKind};
use crate::symboltable::{ConstructCategory, Entry, Symboltable, TableModel};
use crate::token::{Token, TokenKind};
use crate::typedast::{
    expressions_view,
    lemma_call_view,
    NodeType,
    SimpleType,
    TypedExpression,
    TypedExpressionStructure,
    TypedVariable,
    TypedVariableStructure,
};
use crate::typing::{
    argument_fault,
    bad_operator_message,
    call_expression_rule,
    diagnostic,
    first_mismatch,
    fold_expression_spec,
    fold_expressions_spec,
    fold_variable_spec,
    indexed_variable_rule,
    literal_rule,
    operator_result,
    simple_variable_rule,
};
use crate::typefolder::{folded_expression, folded_expressions, folded_variable, TypeFolder};

verus! {

impl TypeFolder {
    pub(crate) fn fold_expression(&mut self, node: &Expression, st: &Symboltable) -> (res: Option<
        TypedExpression,
    >)
        requires
            st.wf(),
            old(self).counter() + expression_cost(*node) <= u64::MAX,
        ensures
            folded_expression(
                res,
                final(self).pass(st@),
                fold_expression_spec(*node, old(self).pass(st@)),
            ),
            old(self).counter() <= final(self).counter() <= old(self).counter() + expression_cost(
                *node,
            ),
        decreases expression_cost(*node), 1nat,
    {
        match node {
            Expression::Literal(t) => self.fold_literal(t, Ghost(st@)),
            Expression::Variable(v) => self.fold_variable_as_expression(v, st),
            Expression::Binary(lhs, rhs, op) => self.fold_binary_expression(lhs, rhs, op, st),
            Expression::Unary(rhs, op) => self.fold_unary_expression(op, rhs, st),
            Expression::Call(id, parameters) => self.fold_call_expression(id, parameters, st),
        }
    }

    pub(crate) fn fold_literal(&mut self, token: &Token, Ghost(table): Ghost<TableModel>) -> (res: Option<
        TypedExpression,
    >)
        requires
            old(self).counter() < u64::MAX,
        ensures
            folded_expression(
                res,
                final(self).pass(table),
                literal_rule(*token, old(self).pass(table)),
            ),
            old(self).counter() <= final(self).counter() <= old(self).counter() + 1,
    {
        let maybe_node_type = match token.token_kind {
            TokenKind::IntegerLiteral => Some(SimpleType::Integer),
            TokenKind::StringLiteral => Some(SimpleType::String),
            TokenKind::RealLiteral => Some(SimpleType::Real),
            _ => None,
        };
        match maybe_node_type {
            Some(node_type) => Some(
                TypedExpression {
                    token: token.clone(),
                    address: self.get_new_simple_address(),
                    node_type: NodeType::Simple(node_type),
                    substructure: TypedExpressionStructure::Literal,
                },
            ),
            None => {
                self.handle_error(token, "Non literal parsed as one");
                None
            },
        }
    }

    pub(crate) fn fold_variable_as_expression(&mut self, var: &Variable, st: &Symboltable) -> (res: Option<
        TypedExpression,
    >)
        requires
            st.wf(),
            old(self).counter() + variable_cost(*var) <= u64::MAX,
        ensures
            folded_expression(
                res,
                final(self).pass(st@),
                fold_expression_spec(Expression::Variable(Box::new(*var)), old(self).pass(st@)),
            ),
            old(self).counter() <= final(self).counter() <= old(self).counter() + variable_cost(
                *var,
            ),
        decreases variable_cost(*var), 1nat,
    {
        match self.fold_variable(var, st) {
            Some(variable) => Some(
                TypedExpression {
                    token: variable.token.clone(),
                    address: variable.address,
                    node_type: variable.node_type,
                    substructure: TypedExpressionStructure::Variable(Box::new(variable)),
                },
            ),
            None => None,
        }
    }

    pub(crate) fn fold_variable(&mut self, var: &Variable, st: &Symboltable) -> (res: Option<TypedVariable>)
        requires
            st.wf(),
            old(self).counter() + variable_cost(*var) <= u64::MAX,
        ensures
            folded_variable(
                res,
                final(self).pass(st@),
                fold_variable_spec(*var, old(self).pass(st@)),
            ),
            old(self).counter() <= final(self).counter() <= old(self).counter() + variable_cost(
                *var,
            ),
        decreases variable_cost(*var), 0nat,
    {
        match var {
            Variable::Simple(t) => self.fold_simple_variable(t, st),
            Variable::Indexed(t, e) => self.fold_indexed_variable(t, e, st),
        }
    }

    pub(crate) fn fold_simple_variable(&mut self, token: &Token, st: &Symboltable) -> (res: Option<
        TypedVariable,
    >)
        requires
            st.wf(),
        ensures
            folded_variable(
                res,
                final(self).pass(st@),
                simple_variable_rule(*token, old(self).pass(st@)),
            ),
            final(self).counter() == old(self).counter(),
    {
        match st.lookup(&token.lexeme) {
            Some(entry) => Some(
                TypedVariable {
                    token: token.clone(),
                    address: entry.address,
                    node_type: entry.entry_type,
                    substructure: TypedVariableStructure::Simple,
                },
            ),
            None => {
                let mut message = String::from_str("Cant find variable ");
                message.append(token.lexeme.as_str());
                self.handle_error(token, message.as_str());
                None
            },
        }
    }

    pub(crate) fn fold_indexed_variable(
        &mut self,
        token: &Token,
        expression: &Expression,
        st: &Symboltable,
    ) -> (res: Option<TypedVariable>)
        requires
            st.wf(),
            old(self).counter() + expression_cost(*expression) <= u64::MAX,
        ensures
            folded_variable(
                res,
                final(self).pass(st@),
                indexed_variable_rule(
                    *token,
                    fold_expression_spec(*expression, old(self).pass(st@)).value,
                    fold_expression_spec(*expression, old(self).pass(st@)).state,
                ),
            ),
            old(self).counter() <= final(self).counter() <= old(self).counter() + expression_cost(
                *expression,
            ),
        decreases expression_cost(*expression), 2nat,
    {
        match self.fold_expression(expression, st) {
            None => None,
            Some(typed_expression) => match st.lookup(&token.lexeme) {
                None => {
                    self.handle_error(token, "Usage of undeclared variable");
                    None
                },
                Some(entry) => match entry.category {
                    ConstructCategory::ArrayVar => {
                        if typed_expression.node_type == NodeType::Simple(SimpleType::Integer) {
                            let node_type = NodeType::Simple(
                                node_type_to_simple_type(&entry.entry_type),
                            );
                            Some(
                                TypedVariable {
                                    token: token.clone(),
                                    address: self.get_new_indexed_address(
                                        entry.address,
                                        typed_expression.address,
                                    ),
                                    node_type,
                                    substructure: TypedVariableStructure::Indexed(typed_expression),
                                },
                            )
                        } else {
                            self.handle_error(token, "Array index must be integer");
                            None
                        }
                    },
                    _ => {
                        self.handle_error(token, "Indexing of simple variable");
                        None
                    },
                },
            },
        }
    }

    pub(crate) fn fold_binary_expression(
        &mut self,
        lhs: &Expression,
        rhs: &Expression,
        op: &Token,
        st: &Symboltable,
    ) -> (res: Option<TypedExpression>)
        requires
            st.wf(),
            old(self).counter() + expression_cost(*lhs) + expression_cost(*rhs) + 1 <= u64::MAX,
        ensures
            folded_expression(
                res,
                final(self).pass(st@),
                fold_expression_spec(
                    Expression::Binary(Box::new(*lhs), Box::new(*rhs), *op),
                    old(self).pass(st@),
                ),
            ),
            old(self).counter() <= final(self).counter() <= old(self).counter() + expression_cost(
                *lhs,
            ) + expression_cost(*rhs) + 1,
        decreases expression_cost(*lhs) + expression_cost(*rhs) + 1, 0nat,
    {
        let maybe_lhs = self.fold_expression(lhs, st);
        let maybe_rhs = self.fold_expression(rhs, st);
        match (maybe_lhs, maybe_rhs) {
            (Some(typed_lhs), Some(typed_rhs)) => {
                if typed_lhs.node_type != typed_rhs.node_type {
                    self.handle_error(op, "Mismatched operand types");
                    None
                } else {
                    match typed_lhs.node_type {
                        NodeType::ArrayOf(_st) => {
                            self.handle_error(op, "Bad operator for array");
                            None
                        },
                        NodeType::Simple(simple_type) => match string_as_opkind(&op.lexeme) {
                            None => {
                                self.handle_error(op, "Unknown operator");
                                None
                            },
                            Some(op_kind) => {
                                let maybe_node_type = match simple_type {
                                    SimpleType::Integer => self.type_integer_expression(
                                        op,
                                        op_kind,
                                    ),
                                    SimpleType::Boolean => self.type_boolean_expression(
                                        op,
                                        op_kind,
                                    ),
                                    SimpleType::String => self.type_string_expression(op, op_kind),
                                    SimpleType::Real => self.type_real_expression(op, op_kind),
                                };
                                match maybe_node_type {
                                    None => None,
                                    Some(node_type) => Some(
                                        TypedExpression {
                                            address: self.get_new_simple_address(),
                                            token: op.clone(),
                                            node_type,
                                            substructure: TypedExpressionStructure::Binary(
                                                op_kind,
                                                Box::new(typed_lhs),
                                                Box::new(typed_rhs),
                                            ),
                                        },
                                    ),
                                }
                            },
                        },
                    }
                }
            },
            _ => None,
        }
    }

    pub(crate) fn type_integer_expression(&mut self, op: &Token, op_kind: OpKind) -> (res: Option<NodeType>)
        ensures
            res == operator_result(SimpleType::Integer, op_kind),
            final(self).counter() == old(self).counter(),
            final(self).diagnostics() == if res.is_some() {
                old(self).diagnostics()
            } else {
                old(self).diagnostics().push(
                    diagnostic(bad_operator_message(SimpleType::Integer), op.row, op.column),
                )
            },
    {
        match op_kind {
            OpKind::Addition | OpKind::Modulo => Some(NodeType::Simple(SimpleType::Integer)),
            OpKind::NumArithmetic(_arit) => Some(NodeType::Simple(SimpleType::Integer)),
            OpKind::Relational(_rel) => Some(NodeType::Simple(SimpleType::Boolean)),
            _ => {
                self.handle_error(op, "Bad operator for integer");
                None
            },
        }
    }

    pub(crate) fn type_string_expression(&mut self, op: &Token, op_kind: OpKind) -> (res: Option<NodeType>)
        ensures
            res == operator_result(SimpleType::String, op_kind),
            final(self).counter() == old(self).counter(),
            final(self).diagnostics() == if res.is_some() {
                old(self).diagnostics()
            } else {
                old(self).diagnostics().push(
                    diagnostic(bad_operator_message(SimpleType::String), op.row, op.column),
                )
            },
    {
        match op_kind {
            OpKind::Addition => Some(NodeType::Simple(SimpleType::String)),
            OpKind::Relational(_arith) => Some(NodeType::Simple(SimpleType::Boolean)),
            _ => {
                self.handle_error(op, "Bad operator for string");
                None
            },
        }
    }

    pub(crate) fn type_real_expression(&mut self, op: &Token, op_kind: OpKind) -> (res: Option<NodeType>)
        ensures
            res == operator_result(SimpleType::Real, op_kind),
            final(self).counter() == old(self).counter(),
            final(self).diagnostics() == if res.is_some() {
                old(self).diagnostics()
            } else {
                old(self).diagnostics().push(
                    diagnostic(bad_operator_message(SimpleType::Real), op.row, op.column),
                )
            },
    {
        match op_kind {
            OpKind::Addition => Some(NodeType::Simple(SimpleType::Real)),
            OpKind::NumArithmetic(_variant) => Some(NodeType::Simple(SimpleType::Real)),
            OpKind::Relational(_opr) => Some(NodeType::Simple(SimpleType::Boolean)),
            _ => {
                self.handle_error(op, "Bad operator for real");
                None
            },
        }
    }

    pub(crate) fn type_boolean_expression(&mut self, op: &Token, op_kind: OpKind) -> (res: Option<NodeType>)
        ensures
            res == operator_result(SimpleType::Boolean, op_kind),
            final(self).counter() == old(self).counter(),
            final(self).diagnostics() == if res.is_some() {
                old(self).diagnostics()
            } else {
                old(self).diagnostics().push(
                    diagnostic(bad_operator_message(SimpleType::Boolean), op.row, op.column),
                )
            },
    {
        match op_kind {
            OpKind::Relational(_variant) => Some(NodeType::Simple(SimpleType::Boolean)),
            OpKind::BoolArithmetic(_variant) => Some(NodeType::Simple(SimpleType::Boolean)),
            _ => {
                self.handle_error(op, "Bad operator for boolean");
                None
            },
        }
    }

    pub(crate) fn fold_unary_expression(&mut self, op: &Token, rhs: &Expression, st: &Symboltable) -> (res:
        Option<TypedExpression>)
        requires
            st.wf(),
            old(self).counter() + expression_cost(*rhs) + 1 <= u64::MAX,
        ensures
            folded_expression(
                res,
                final(self).pass(st@),
                fold_expression_spec(
                    Expression::Unary(Box::new(*rhs), *op),
                    old(self).pass(st@),
                ),
            ),
            old(self).counter() <= final(self).counter() <= old(self).counter() + expression_cost(
                *rhs,
            ) + 1,
        decreases expression_cost(*rhs) + 1, 0nat,
    {
        match self.fold_expression(rhs, st) {
            None => None,
            Some(rhs_typed) => match op.token_kind {
                TokenKind::Not => {
                    if rhs_typed.node_type == NodeType::Simple(SimpleType::Boolean) {
                        Some(
                            TypedExpression {
                                node_type: NodeType::Simple(SimpleType::Boolean),
                                address: self.get_new_simple_address(),
                                token: op.clone(),
                                substructure: TypedExpressionStructure::Unary(Box::new(rhs_typed)),
                            },
                        )
                    } else {
                        self.handle_error(op, "not-operator is for Booleans only");
                        None
                    }
                },
                _ => {
                    self.handle_error(op, "Unknown unary operator");
                    None
                },
            },
        }
    }

    pub(crate) fn fold_arguments(&mut self, arguments: &Vec<Expression>, st: &Symboltable) -> (res: Option<
        Vec<TypedExpression>,
    >)
        requires
            st.wf(),
            old(self).counter() + expressions_cost(arguments@, 0) <= u64::MAX,
        ensures
            folded_expressions(
                res,
                final(self).pass(st@),
                fold_expressions_spec(arguments@, 0, Some(Seq::empty()), old(self).pass(st@)),
            ),
            old(self).counter() <= final(self).counter() <= old(self).counter() + expressions_cost(
                arguments@,
                0,
            ),
        decreases expressions_cost(arguments@, 0), 2nat,
    {
        let mut typedargs: Vec<TypedExpression> = Vec::new();
        let mut complete = true;
        let mut i: usize = 0;
        assert(expressions_view(typedargs@) =~= Seq::empty());
        while i < arguments.len()
            invariant
                i <= arguments.len(),
                st.wf(),
                old(self).counter() + expressions_cost(arguments@, 0) <= u64::MAX,
                old(self).counter() <= self.counter(),
                self.counter() + expressions_cost(arguments@, i as int) <= old(self).counter()
                    + expressions_cost(arguments@, 0),
                fold_expressions_spec(
                    arguments@,
                    i as int,
                    if complete {
                        Some(expressions_view(typedargs@))
                    } else {
                        None
                    },
                    self.pass(st@),
                ) == fold_expressions_spec(
                    arguments@,
                    0,
                    Some(Seq::empty()),
                    old(self).pass(st@),
                ),
            decreases arguments.len() - i,
        {
            let ghost before = typedargs@;
            match self.fold_expression(&arguments[i], st) {
                Some(typedarg) => {
                    typedargs.push(typedarg);
                    assert(expressions_view(typedargs@) =~= expressions_view(before).push(
                        typedarg@,
                    ));
                },
                None => {
                    complete = false;
                },
            }
            i = i + 1;
        }
        if complete {
            Some(typedargs)
        } else {
            None
        }
    }

    pub(crate) fn fold_call_expression(&mut self, token: &Token, arguments: &Vec<Expression>, st: &Symboltable)
        -> (res: Option<TypedExpression>)
        requires
            st.wf(),
            old(self).counter() + expressions_cost(arguments@, 0) + 1 <= u64::MAX,
        ensures
            folded_expression(
                res,
                final(self).pass(st@),
                call_expression_rule(
                    *token,
                    fold_expressions_spec(
                        arguments@,
                        0,
                        Some(Seq::empty()),
                        old(self).pass(st@),
                    ).value,
                    fold_expressions_spec(
                        arguments@,
                        0,
                        Some(Seq::empty()),
                        old(self).pass(st@),
                    ).state,
                ),
            ),
            old(self).counter() <= final(self).counter() <= old(self).counter() + expressions_cost(
                arguments@,
                0,
            ) + 1,
        decreases expressions_cost(arguments@, 0) + 1, 0nat,
    {
        match self.fold_arguments(arguments, st) {
            None => None,
            Some(typedargs) => match st.lookup(&token.lexeme) {
                Some(entry) => match &entry.category {
                    ConstructCategory::Special => self.fold_special_call_expression(
                        token,
                        entry,
                        typedargs,
                        Ghost(st@),
                    ),
                    ConstructCategory::Function(parameters, out_type) => {
                        self.fold_regular_call_expression(
                            token,
                            entry,
                            parameters,
                            out_type,
                            typedargs,
                            Ghost(st@),
                        )
                    },
                    _ => {
                        let mut message = token.lexeme.clone();
                        message.append(" is not a function");
                        self.handle_error(token, message.as_str());
                        None
                    },
                },
                None => {
                    let mut message = String::from_str("Can't find function ");
                    message.append(token.lexeme.as_str());
                    self.handle_error(token, message.as_str());
                    None
                },
            },
        }
    }

    pub(crate) fn fold_special_call_expression(
        &mut self,
        token: &Token,
        entry: &Entry,
        arguments: Vec<TypedExpression>,
        Ghost(table): Ghost<TableModel>,
    ) -> (res: Option<TypedExpression>)
        requires
            old(self).counter() < u64::MAX,
            table.lookup(token.lexeme@) == Some(entry@),
            entry.category is Special,
        ensures
            folded_expression(
                res,
                final(self).pass(table),
                call_expression_rule(
                    *token,
                    Some(expressions_view(arguments@)),
                    old(self).pass(table),
                ),
            ),
            old(self).counter() <= final(self).counter() <= old(self).counter() + 1,
    {
        if *entry.name.as_str() == *"size" {
            if arguments.len() == 1 {
                match arguments[0].node_type {
                    NodeType::ArrayOf(_t) => {
                        return Some(
                            TypedExpression {
                                token: token.clone(),
                                address: self.get_new_simple_address(),
                                node_type: NodeType::Simple(SimpleType::Integer),
                                substructure: TypedExpressionStructure::Size(arguments[0].address),
                            },
                        );
                    },
                    _ => {},
                }
            }
            self.handle_error(token, "size takes one array as its argument");
            None
        } else {
            let mut message = token.lexeme.clone();
            message.append(" is not a function");
            self.handle_error(token, message.as_str());
            None
        }
    }

    pub(crate) fn fold_regular_call_expression(
        &mut self,
        token: &Token,
        entry: &Entry,
        parameters: &Vec<NodeType>,
        out_type: &NodeType,
        arguments: Vec<TypedExpression>,
        Ghost(table): Ghost<TableModel>,
    ) -> (res: Option<TypedExpression>)
        requires
            old(self).counter() < u64::MAX,
            table.lookup(token.lexeme@) == Some(entry@),
            entry.category == ConstructCategory::Function(*parameters, *out_type),
        ensures
            folded_expression(
                res,
                final(self).pass(table),
                call_expression_rule(
                    *token,
                    Some(expressions_view(arguments@)),
                    old(self).pass(table),
                ),
            ),
            old(self).counter() <= final(self).counter() <= old(self).counter() + 1,
    {
        if self.match_params_to_arguments(parameters, &arguments, token) {
            let typed = TypedExpression {
                token: token.clone(),
                address: self.get_new_simple_address(),
                node_type: *out_type,
                substructure: TypedExpressionStructure::Call(entry.address, arguments),
            };
            proof {
                lemma_call_view(typed);
            }
            Some(typed)
        } else {
            None
        }
    }

    pub(crate) fn match_params_to_arguments(
        &mut self,
        parameters: &Vec<NodeType>,
        arguments: &Vec<TypedExpression>,
        call: &Token,
    ) -> (fits: bool)
        ensures
            final(self).counter() == old(self).counter(),
            match argument_fault(parameters@, expressions_view(arguments@), *call) {
                Some((message, place)) => {
                    &&& !fits
                    &&& final(self).diagnostics() == old(self).diagnostics().push(
                        diagnostic(message, place.row, place.column),
                    )
                },
                None => fits && final(self).diagnostics() == old(self).diagnostics(),
            },
    {
        if parameters.len() != arguments.len() {
            self.handle_error(call, "Arguments length does not match parameters");
            return false;
        }
        let mut i: usize = 0;
        while i < arguments.len()
            invariant
                i <= arguments.len(),
                parameters.len() == arguments.len(),
                self.counter() == old(self).counter(),
                self.diagnostics() == old(self).diagnostics(),
                first_mismatch(parameters@, expressions_view(arguments@), i as int)
                    == first_mismatch(parameters@, expressions_view(arguments@), 0),
            decreases arguments.len() - i,
        {
            if parameters[i] != arguments[i].node_type {
                self.handle_error(&arguments[i].token, "Argument type does not match parameters");
                return false;
            }
            i = i + 1;
        }
        true
    }
}

fn node_type_to_simple_type(node_type: &NodeType) -> (kind: SimpleType)
    ensures
        kind == node_type.kind(),
{
    match node_type {
        NodeType::ArrayOf(t) => *t,
        NodeType::Simple(t) => *t,
    }
}

} // verus!
