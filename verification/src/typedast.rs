//! The typed tree: the untyped tree again, with a type and a storage address
//! on every value.

use vstd::prelude::*;
use crate::address::Address;
use crate::opkind::OpKind;
use crate::token::Token;

verus! {

/// The scalar kinds.
#[derive(Clone, Copy, Debug, PartialEq, Eq, Structural)]
pub enum SimpleType {
    Boolean,
    String,
    Real,
    Integer,
}

/// The type of a value: a scalar, or an array of scalars. Two types are the
/// same exactly when they are built alike.
#[derive(Clone, Copy, Debug, PartialEq, Eq, Structural)]
pub enum NodeType {
    Simple(SimpleType),
    ArrayOf(SimpleType),
}

impl NodeType {
    /// The scalar kind of the type itself or of its elements.
    pub open spec fn kind(&self) -> SimpleType {
        match self {
            NodeType::Simple(t) => *t,
            NodeType::ArrayOf(t) => *t,
        }
    }
}

/// A typed program: its name, its subroutines, and the statements of its
/// main block.
pub enum TypedAST {
    Program(Token, Vec<TypedSubroutine>, Vec<TypedStatement>),
}

/// A resolved type description. An array keeps the typed expression that
/// gives its length.
pub enum TypedTypeDescription {
    Simple(NodeType),
    Array(NodeType, TypedExpression),
}

/// A typed subroutine: its address, its parameters, its body, and for a
/// function the type it returns.
pub enum TypedSubroutine {
    Function(
        Address,
        Vec<(TypedVariable, TypedTypeDescription)>,
        Vec<TypedStatement>,
        TypedTypeDescription,
    ),
    Procedure(Address, Vec<(TypedVariable, TypedTypeDescription)>, Vec<TypedStatement>),
}

pub struct TypedVariable {
    pub token: Token,
    pub address: Address,
    pub node_type: NodeType,
    pub substructure: TypedVariableStructure,
}

pub enum TypedVariableStructure {
    Simple,
    Indexed(TypedExpression),
}

pub enum TypedStatement {
    Assert(Token, TypedExpression),
    Assign(TypedVariable, TypedExpression),
    /// A block, with the number of the scope that was opened for it.
    Block(i32, Vec<TypedStatement>),
    /// A call of a procedure, by its address.
    Call(Address, Vec<TypedExpression>),
    Declaration(TypedVariable, TypedTypeDescription),
    If(TypedExpression, Box<TypedStatement>, Option<Box<TypedStatement>>),
    Read(Vec<Box<TypedVariable>>),
    Return(Token, Option<TypedExpression>),
    While(TypedExpression, Box<TypedStatement>),
    Write(Vec<TypedExpression>),
}

pub struct TypedExpression {
    pub token: Token,
    pub address: Address,
    pub node_type: NodeType,
    pub substructure: TypedExpressionStructure,
}

pub enum TypedExpressionStructure {
    Binary(OpKind, Box<TypedExpression>, Box<TypedExpression>),
    /// A call of a function, by its address.
    Call(Address, Vec<TypedExpression>),
    Literal,
    /// The length of the array at the address.
    Size(Address),
    Unary(Box<TypedExpression>),
    Variable(Box<TypedVariable>),
}

/// A typed program as a mathematical value.
pub enum ProgramModel {
    Program(Token, Seq<SubroutineModel>, Seq<StatementModel>),
}

/// A resolved type description as a mathematical value.
pub enum TypeModel {
    Simple(NodeType),
    Array(NodeType, ExpressionModel),
}

/// A typed subroutine as a mathematical value.
pub enum SubroutineModel {
    Function(Address, Seq<(VariableModel, TypeModel)>, Seq<StatementModel>, TypeModel),
    Procedure(Address, Seq<(VariableModel, TypeModel)>, Seq<StatementModel>),
}

/// A typed variable as a mathematical value.
pub struct VariableModel {
    pub token: Token,
    pub address: Address,
    pub node_type: NodeType,
    pub substructure: VariableStructureModel,
}

pub enum VariableStructureModel {
    Simple,
    Indexed(ExpressionModel),
}

/// A typed statement as a mathematical value.
pub enum StatementModel {
    Assert(Token, ExpressionModel),
    Assign(VariableModel, ExpressionModel),
    Block(i32, Seq<StatementModel>),
    Call(Address, Seq<ExpressionModel>),
    Declaration(VariableModel, TypeModel),
    If(ExpressionModel, Box<StatementModel>, Option<Box<StatementModel>>),
    Read(Seq<VariableModel>),
    Return(Token, Option<ExpressionModel>),
    While(ExpressionModel, Box<StatementModel>),
    Write(Seq<ExpressionModel>),
}

/// A typed expression as a mathematical value.
pub struct ExpressionModel {
    pub token: Token,
    pub address: Address,
    pub node_type: NodeType,
    pub substructure: ExpressionStructureModel,
}

pub enum ExpressionStructureModel {
    Binary(OpKind, Box<ExpressionModel>, Box<ExpressionModel>),
    Call(Address, Seq<ExpressionModel>),
    Literal,
    Size(Address),
    Unary(Box<ExpressionModel>),
    Variable(Box<VariableModel>),
}

impl TypedExpression {
    pub open spec fn view(&self) -> ExpressionModel
        decreases self,
    {
        ExpressionModel {
            token: self.token,
            address: self.address,
            node_type: self.node_type,
            substructure: match self.substructure {
                TypedExpressionStructure::Binary(op, lhs, rhs) => ExpressionStructureModel::Binary(
                    op,
                    Box::new(lhs.view()),
                    Box::new(rhs.view()),
                ),
                TypedExpressionStructure::Call(address, arguments) => ExpressionStructureModel::Call(
                    address,
                    Seq::new(
                        arguments@.len(),
                        |i: int|
                            if 0 <= i < arguments@.len() {
                                arguments@[i].view()
                            } else {
                                arbitrary()
                            },
                    ),
                ),
                TypedExpressionStructure::Literal => ExpressionStructureModel::Literal,
                TypedExpressionStructure::Size(address) => ExpressionStructureModel::Size(address),
                TypedExpressionStructure::Unary(operand) => ExpressionStructureModel::Unary(
                    Box::new(operand.view()),
                ),
                TypedExpressionStructure::Variable(variable) => ExpressionStructureModel::Variable(
                    Box::new(variable.view()),
                ),
            },
        }
    }
}

impl TypedVariable {
    pub open spec fn view(&self) -> VariableModel
        decreases self,
    {
        VariableModel {
            token: self.token,
            address: self.address,
            node_type: self.node_type,
            substructure: match self.substructure {
                TypedVariableStructure::Simple => VariableStructureModel::Simple,
                TypedVariableStructure::Indexed(index) => VariableStructureModel::Indexed(
                    index.view(),
                ),
            },
        }
    }
}

impl TypedTypeDescription {
    pub open spec fn view(&self) -> TypeModel {
        match self {
            TypedTypeDescription::Simple(node_type) => TypeModel::Simple(*node_type),
            TypedTypeDescription::Array(node_type, length) => TypeModel::Array(*node_type, length@),
        }
    }

    /// The type that the description names.
    pub open spec fn node_type(&self) -> NodeType {
        match self {
            TypedTypeDescription::Simple(node_type) => *node_type,
            TypedTypeDescription::Array(node_type, _) => *node_type,
        }
    }
}

impl TypeModel {
    /// The type that the description names.
    pub open spec fn node_type(self) -> NodeType {
        match self {
            TypeModel::Simple(node_type) => node_type,
            TypeModel::Array(node_type, _) => node_type,
        }
    }
}

/// The views of a list of typed expressions.
pub open spec fn expressions_view(list: Seq<TypedExpression>) -> Seq<ExpressionModel> {
    Seq::new(list.len(), |i: int| list[i]@)
}

/// The views of a list of typed variables.
pub open spec fn variables_view(list: Seq<Box<TypedVariable>>) -> Seq<VariableModel> {
    Seq::new(list.len(), |i: int| list[i]@)
}

/// The views of a list of typed statements.
pub open spec fn statements_view(list: Seq<TypedStatement>) -> Seq<StatementModel> {
    Seq::new(list.len(), |i: int| list[i]@)
}

/// The views of a list of typed parameters.
pub open spec fn parameters_view(list: Seq<(TypedVariable, TypedTypeDescription)>) -> Seq<
    (VariableModel, TypeModel),
> {
    Seq::new(list.len(), |i: int| (list[i].0@, list[i].1@))
}

/// The views of a list of typed subroutines.
pub open spec fn subroutines_view(list: Seq<TypedSubroutine>) -> Seq<SubroutineModel> {
    Seq::new(list.len(), |i: int| list[i]@)
}

impl TypedStatement {
    pub open spec fn view(&self) -> StatementModel
        decreases self,
    {
        match self {
            TypedStatement::Assert(token, condition) => StatementModel::Assert(*token, condition@),
            TypedStatement::Assign(target, value) => StatementModel::Assign(target@, value@),
            TypedStatement::Block(scope, body) => StatementModel::Block(
                *scope,
                Seq::new(
                    body@.len(),
                    |i: int|
                        if 0 <= i < body@.len() {
                            body@[i].view()
                        } else {
                            arbitrary()
                        },
                ),
            ),
            TypedStatement::Call(address, arguments) => StatementModel::Call(
                *address,
                expressions_view(arguments@),
            ),
            TypedStatement::Declaration(variable, description) => StatementModel::Declaration(
                variable@,
                description@,
            ),
            TypedStatement::If(condition, body, else_body) => StatementModel::If(
                condition@,
                Box::new(body.view()),
                match else_body {
                    Some(statement) => Some(Box::new(statement.view())),
                    None => None,
                },
            ),
            TypedStatement::Read(targets) => StatementModel::Read(variables_view(targets@)),
            TypedStatement::Return(token, value) => StatementModel::Return(
                *token,
                match value {
                    Some(expression) => Some(expression@),
                    None => None,
                },
            ),
            TypedStatement::While(condition, body) => StatementModel::While(
                condition@,
                Box::new(body.view()),
            ),
            TypedStatement::Write(arguments) => StatementModel::Write(expressions_view(arguments@)),
        }
    }
}

impl TypedSubroutine {
    pub open spec fn view(&self) -> SubroutineModel {
        match self {
            TypedSubroutine::Function(address, parameters, body, out_type) => {
                SubroutineModel::Function(
                    *address,
                    parameters_view(parameters@),
                    statements_view(body@),
                    out_type@,
                )
            },
            TypedSubroutine::Procedure(address, parameters, body) => SubroutineModel::Procedure(
                *address,
                parameters_view(parameters@),
                statements_view(body@),
            ),
        }
    }
}

impl TypedAST {
    pub open spec fn view(&self) -> ProgramModel {
        match self {
            TypedAST::Program(token, subroutines, body) => ProgramModel::Program(
                *token,
                subroutines_view(subroutines@),
                statements_view(body@),
            ),
        }
    }
}

/// The arguments of a typed call, seen as a list of views.
pub proof fn lemma_call_view(expression: TypedExpression)
    ensures
        expression.substructure matches TypedExpressionStructure::Call(address, arguments)
            ==> expression@.substructure == ExpressionStructureModel::Call(
            address,
            expressions_view(arguments@),
        ),
{
    match expression.substructure {
        TypedExpressionStructure::Call(address, arguments) => {
            assert(expression@.substructure->Call_1 =~= expressions_view(arguments@));
        },
        _ => {},
    }
}

/// The body of a typed block, seen as a list of views.
pub proof fn lemma_block_view(statement: TypedStatement)
    ensures
        statement matches TypedStatement::Block(scope, body) ==> statement@
            == StatementModel::Block(scope, statements_view(body@)),
{
    match statement {
        TypedStatement::Block(scope, body) => {
            assert(statement@->Block_1 =~= statements_view(body@));
        },
        _ => {},
    }
}

/// The number of nodes of a typed expression.
pub open spec fn typed_expression_size(node: TypedExpression) -> nat
    decreases node,
{
    match node.substructure {
        TypedExpressionStructure::Binary(_, lhs, rhs) => 1 + typed_expression_size(*lhs)
            + typed_expression_size(*rhs),
        TypedExpressionStructure::Call(_, arguments) => 1 + typed_expressions_size(arguments@, 0),
        TypedExpressionStructure::Literal => 1,
        TypedExpressionStructure::Size(_) => 1,
        TypedExpressionStructure::Unary(operand) => 1 + typed_expression_size(*operand),
        TypedExpressionStructure::Variable(variable) => 1 + typed_variable_size(*variable),
    }
}

/// The number of nodes of the typed expressions of a list from the index on.
pub open spec fn typed_expressions_size(list: Seq<TypedExpression>, from: int) -> nat
    decreases list, list.len() - from,
{
    if 0 <= from < list.len() {
        typed_expression_size(list[from]) + typed_expressions_size(list, from + 1)
    } else {
        0
    }
}

/// The number of nodes of a typed variable.
pub open spec fn typed_variable_size(node: TypedVariable) -> nat
    decreases node,
{
    match node.substructure {
        TypedVariableStructure::Simple => 1,
        TypedVariableStructure::Indexed(index) => 1 + typed_expression_size(index),
    }
}

/// The number of nodes of the typed variables of a list from the index on.
pub open spec fn typed_variables_size(list: Seq<Box<TypedVariable>>, from: int) -> nat
    decreases list.len() - from,
{
    if 0 <= from < list.len() {
        typed_variable_size(*list[from]) + typed_variables_size(list, from + 1)
    } else {
        0
    }
}

/// The number of nodes of a typed type description.
pub open spec fn typed_type_size(node: TypedTypeDescription) -> nat {
    match node {
        TypedTypeDescription::Simple(_) => 1,
        TypedTypeDescription::Array(_, length) => 1 + typed_expression_size(length),
    }
}

/// The number of nodes of a typed statement.
pub open spec fn typed_statement_size(node: TypedStatement) -> nat
    decreases node,
{
    match node {
        TypedStatement::Assert(_, condition) => 1 + typed_expression_size(condition),
        TypedStatement::Assign(target, value) => 1 + typed_variable_size(target)
            + typed_expression_size(value),
        TypedStatement::Block(_, body) => 1 + typed_statements_size(body@, 0),
        TypedStatement::Call(_, arguments) => 1 + typed_expressions_size(arguments@, 0),
        TypedStatement::Declaration(variable, description) => 1 + typed_variable_size(variable)
            + typed_type_size(description),
        TypedStatement::If(condition, body, else_body) => 1 + typed_expression_size(condition)
            + typed_statement_size(*body) + match else_body {
            Some(statement) => typed_statement_size(*statement),
            None => 0,
        },
        TypedStatement::Read(targets) => 1 + typed_variables_size(targets@, 0),
        TypedStatement::Return(_, value) => 1 + match value {
            Some(expression) => typed_expression_size(expression),
            None => 0,
        },
        TypedStatement::While(condition, body) => 1 + typed_expression_size(condition)
            + typed_statement_size(*body),
        TypedStatement::Write(arguments) => 1 + typed_expressions_size(arguments@, 0),
    }
}

/// The number of nodes of the typed statements of a list from the index on.
pub open spec fn typed_statements_size(list: Seq<TypedStatement>, from: int) -> nat
    decreases list, list.len() - from,
{
    if 0 <= from < list.len() {
        typed_statement_size(list[from]) + typed_statements_size(list, from + 1)
    } else {
        0
    }
}

} // verus!
