//! The code generator: a pass over the typed tree that writes C. Every value
//! lives in a C variable named after its address; declarations are
//! collected apart from the code and put in front of it when a routine is
//! complete.

use vstd::prelude::*;
use crate::address::{register_text, Address};
use crate::codetext::{
    address_list,
    c_declarator,
    c_format,
    c_listed,
    c_node_type,
    c_operation,
    c_size_declaration,
    c_string_operation,
    c_type,
    format_text,
    operation_text,
    push_address,
    register_texts,
    size_declaration_of_address,
    size_declaration_of_number,
    string_comparison_text,
};
use crate::opkind::{OpKind, Relational};
use crate::text::{decimal, push_decimal};
use crate::token::Token;
use crate::typedast::{
    typed_expression_size,
    typed_expressions_size,
    typed_statement_size,
    typed_statements_size,
    typed_variable_size,
    NodeType,
    SimpleType,
    TypedAST,
    TypedExpression,
    TypedExpressionStructure,
    TypedStatement,
    TypedSubroutine,
    TypedTypeDescription,
    TypedVariable,
    TypedVariableStructure,
};
use crate::visitor::TypedVisitor;

verus! {

/// The generator as a mathematical value: the code and the declarations of
/// the routine that is being written, the routines that are complete, the
/// number of the next label, the size that strings are given, and the text
/// that is put in front of everything.
pub struct GenModel {
    pub buffer: Seq<char>,
    pub declarations: Seq<char>,
    pub ready: Seq<char>,
    pub label_no: u32,
    pub max_string_size: u64,
    pub runtime: Seq<char>,
}

/// The number of bytes that a text takes in UTF-8, as a machine number.
pub open spec fn byte_length(text: Seq<char>) -> usize {
    vstd::utf8::encode_utf8(text).len() as usize
}

/// The addresses of a list of typed expressions.
pub open spec fn expression_addresses(list: Seq<TypedExpression>) -> Seq<Address> {
    Seq::new(list.len(), |i: int| list[i].address)
}

/// The types of a list of typed expressions.
pub open spec fn expression_node_types(list: Seq<TypedExpression>) -> Seq<NodeType> {
    Seq::new(list.len(), |i: int| list[i].node_type)
}

/// The addresses of a list of typed variables.
pub open spec fn variable_addresses(list: Seq<Box<TypedVariable>>) -> Seq<Address> {
    Seq::new(list.len(), |i: int| list[i].address)
}

/// The types of a list of typed variables.
pub open spec fn variable_node_types(list: Seq<Box<TypedVariable>>) -> Seq<NodeType> {
    Seq::new(list.len(), |i: int| list[i].node_type)
}

/// The arguments of a call in brackets.
pub open spec fn c_arguments(arguments: Seq<TypedExpression>) -> Seq<char> {
    c_listed(" "@, register_texts(expression_addresses(arguments)), 0, "("@) + ")"@
}

/// The parameters of a list from the index on, added to a text: each with
/// its C type before it, commas between them.
pub open spec fn c_parameter_list(
    parameters: Seq<(TypedVariable, TypedTypeDescription)>,
    from: int,
    text: Seq<char>,
) -> Seq<char>
    decreases parameters.len() - from,
{
    if 0 <= from < parameters.len() {
        c_parameter_list(
            parameters,
            from + 1,
            if from < parameters.len() - 1 {
                text + c_node_type(parameters[from].0.node_type) + " "@ + register_text(
                    parameters[from].0.address,
                ) + ","@
            } else {
                text + c_node_type(parameters[from].0.node_type) + " "@ + register_text(
                    parameters[from].0.address,
                )
            },
        )
    } else {
        text
    }
}

/// The parameters of a routine in brackets.
pub open spec fn c_parameters(parameters: Seq<(TypedVariable, TypedTypeDescription)>) -> Seq<char> {
    c_parameter_list(parameters, 0, "("@) + ")"@
}

/// The jump that leaves when a condition does not hold.
pub open spec fn c_jump_unless(condition: Address, label: Seq<char>) -> Seq<char> {
    "if ("@ + register_text(condition) + " != 1 ) { goto "@ + label + "; }\n"@
}

/// What a failed assertion prints: the line, counted from one.
pub open spec fn c_assert_message(row: usize) -> Seq<char> {
    "On line "@ + decimal((row + 1) as nat) + "\\n"@
}

impl GenModel {
    /// More declarations for the routine that is being written.
    pub open spec fn add_declaration(self, text: Seq<char>) -> GenModel {
        GenModel { declarations: self.declarations + text, ..self }
    }

    /// More code for the routine that is being written.
    pub open spec fn add_code(self, text: Seq<char>) -> GenModel {
        GenModel { buffer: self.buffer + text, ..self }
    }

    /// The declaration of a location.
    pub open spec fn declare(self, address: Address, node_type: NodeType) -> GenModel {
        self.add_declaration(c_declarator(node_type, address) + ";\n"@)
    }

    /// The next label.
    pub open spec fn label(self) -> Seq<char> {
        "label"@ + decimal(self.label_no as nat)
    }

    /// The generator after a label was taken. The numbers start again at
    /// zero after the largest.
    pub open spec fn next_label(self) -> GenModel {
        GenModel { label_no: self.label_no.wrapping_add(1), ..self }
    }

    /// The routine that is being written is complete: its declarations and
    /// its code join the routines that are.
    pub open spec fn flush(self) -> GenModel {
        GenModel {
            ready: self.ready + self.declarations + self.buffer,
            declarations: Seq::empty(),
            buffer: Seq::empty(),
            ..self
        }
    }

    /// A literal is declared and set to its text. A string literal gets
    /// memory of its own, the text copied into it, and its size declared.
    pub open spec fn emit_literal(self, token: Token, address: Address, node_type: NodeType)
        -> GenModel {
        if node_type == NodeType::Simple(SimpleType::String) {
            self.declare(address, node_type).emit_string_literal(token.lexeme@, address)
        } else {
            self.declare(address, node_type).add_declaration(
                register_text(address) + " = "@ + token.lexeme@ + ";\n"@,
            )
        }
    }

    pub open spec fn emit_string_literal(self, literal: Seq<char>, address: Address) -> GenModel {
        self.add_code(
            register_text(address) + " = (char*) malloc("@ + decimal(byte_length(literal) as nat)
                + " * sizeof(char));\n"@,
        ).add_code("strcpy("@ + register_text(address) + ", "@ + literal + ");\n"@).add_declaration(
            c_size_declaration(address, decimal(byte_length(literal) as nat)),
        )
    }

    /// The size of an array is read from the variable that holds it.
    pub open spec fn emit_size(self, array_address: Address, address: Address) -> GenModel {
        self.add_declaration("int "@ + register_text(address) + ";\n"@).add_code(
            register_text(address) + " = "@ + register_text(array_address) + "_size;\n"@,
        )
    }

    /// The code for an operation on two values that were computed.
    pub open spec fn emit_operation(
        self,
        lhs: TypedExpression,
        rhs: TypedExpression,
        op: OpKind,
        result: Address,
    ) -> GenModel {
        match lhs.node_type {
            NodeType::ArrayOf(_) => self,
            NodeType::Simple(SimpleType::String) => match op {
                OpKind::Addition | OpKind::Relational(_) => self.add_code(
                    c_string_operation(
                        lhs.address,
                        rhs.address,
                        result,
                        op,
                        self.max_string_size,
                    ),
                ),
                _ => self,
            },
            NodeType::Simple(_) => self.add_code(c_operation(lhs.address, rhs.address, result, op)),
        }
    }

    /// An assignment to a scalar.
    pub open spec fn emit_assign_simple(self, variable: TypedVariable, value: TypedExpression)
        -> GenModel {
        (match variable.substructure {
            TypedVariableStructure::Indexed(index) => emit_expression(index, self),
            TypedVariableStructure::Simple => self,
        }).add_code(
            register_text(variable.address) + " = "@ + register_text(value.address) + ";\n"@,
        )
    }

    /// An assignment to an array copies the memory.
    pub open spec fn emit_assign_array(
        self,
        variable: TypedVariable,
        value: TypedExpression,
        kind: SimpleType,
    ) -> GenModel {
        self.add_code(
            "memcpy("@ + register_text(variable.address) + ", "@ + register_text(value.address)
                + ", "@ + register_text(variable.address) + "_size * sizeof("@ + c_type(kind)
                + "));\n"@,
        )
    }

    /// The sizes that a parameter brings along.
    pub open spec fn emit_string_parameter(self, variable: TypedVariable) -> GenModel {
        match variable.node_type {
            NodeType::Simple(SimpleType::String) => self.add_declaration(
                c_size_declaration(variable.address, decimal(self.max_string_size as nat)),
            ),
            _ => self,
        }
    }
}

/// The code for an expression.
pub open spec fn emit_expression(node: TypedExpression, state: GenModel) -> GenModel
    decreases typed_expression_size(node), 1nat,
{
    match node.substructure {
        TypedExpressionStructure::Binary(op, lhs, rhs) => emit_binary(
            *lhs,
            *rhs,
            op,
            node.address,
            node.node_type,
            state,
        ),
        TypedExpressionStructure::Call(address, arguments) => emit_call_expression(
            address,
            arguments@,
            node.address,
            node.node_type,
            state,
        ),
        TypedExpressionStructure::Size(array_address) => state.emit_size(
            array_address,
            node.address,
        ),
        TypedExpressionStructure::Unary(operand) => emit_expression(*operand, state).declare(
            node.address,
            node.node_type,
        ).add_code(
            register_text(node.address) + " = !"@ + register_text(operand.address) + ";\n"@,
        ),
        TypedExpressionStructure::Literal => state.emit_literal(
            node.token,
            node.address,
            node.node_type,
        ),
        TypedExpressionStructure::Variable(variable) => emit_variable(*variable, state),
    }
}

/// The code for a variable: that of its index, where it has one.
pub open spec fn emit_variable(node: TypedVariable, state: GenModel) -> GenModel
    decreases typed_variable_size(node), 0nat,
{
    match node.substructure {
        TypedVariableStructure::Simple => state,
        TypedVariableStructure::Indexed(index) => emit_expression(index, state),
    }
}

/// The code for a binary expression: the operands, the declaration of the
/// result, the operation.
pub open spec fn emit_binary(
    lhs: TypedExpression,
    rhs: TypedExpression,
    op: OpKind,
    result: Address,
    out_type: NodeType,
    state: GenModel,
) -> GenModel
    decreases typed_expression_size(lhs) + typed_expression_size(rhs) + 1, 0nat,
{
    emit_expression(rhs, emit_expression(lhs, state)).declare(result, out_type).emit_operation(
        lhs,
        rhs,
        op,
        result,
    )
}

/// The code for the expressions of a list from the index on.
pub open spec fn emit_expressions(list: Seq<TypedExpression>, from: int, state: GenModel)
    -> GenModel
    decreases typed_expressions_size(list, from), 2nat, list.len() - from,
{
    if 0 <= from < list.len() {
        emit_expressions(list, from + 1, emit_expression(list[from], state))
    } else {
        state
    }
}

/// The code for a call that gives a value.
pub open spec fn emit_call_expression(
    address: Address,
    arguments: Seq<TypedExpression>,
    out_address: Address,
    out_type: NodeType,
    state: GenModel,
) -> GenModel
    decreases typed_expressions_size(arguments, 0) + 1, 0nat,
{
    emit_expressions(arguments, 0, state).declare(out_address, out_type).add_code(
        register_text(out_address) + " = "@ + register_text(address) + c_arguments(arguments)
            + ";\n"@,
    )
}

/// The code generator.
pub struct CodeGenVisitor {
    buffer: String,
    declaration_buffer: String,
    ready_buffer: String,
    _free_buffer: String,
    label_no: u32,
    max_string_size: u64,
    runtime: String,
}

impl CodeGenVisitor {
    pub closed spec fn view(&self) -> GenModel {
        GenModel {
            buffer: self.buffer@,
            declarations: self.declaration_buffer@,
            ready: self.ready_buffer@,
            label_no: self.label_no,
            max_string_size: self.max_string_size,
            runtime: self.runtime@,
        }
    }

    /// A generator that has written nothing. Strings get 512 bytes.
    pub fn new() -> (generator: CodeGenVisitor)
        ensures
            generator@ == (GenModel {
                buffer: Seq::empty(),
                declarations: Seq::empty(),
                ready: Seq::empty(),
                label_no: 0,
                max_string_size: 512,
                runtime: Seq::empty(),
            }),
    {
        return CodeGenVisitor {
            buffer: String::new(),
            declaration_buffer: String::new(),
            ready_buffer: String::new(),
            _free_buffer: String::new(),
            label_no: 0,
            max_string_size: 512,
            runtime: String::new(),
        };
    }

    /// Sets the text that is put in front of everything: the run-time
    /// support that the generated code calls.
    pub fn set_runtime(&mut self, contents: String)
        ensures
            final(self)@ == (GenModel { runtime: contents@, ..old(self)@ }),
    {
        self.runtime = contents;
    }

    fn add_declaration(&mut self, decl: String)
        ensures
            final(self)@ == old(self)@.add_declaration(decl@),
    {
        self.declaration_buffer.append(decl.as_str());
    }

    fn add_code(&mut self, code: String)
        ensures
            final(self)@ == old(self)@.add_code(code@),
    {
        self.buffer.append(code.as_str());
    }

    fn declare(&mut self, address: &Address, var_type: &NodeType)
        ensures
            final(self)@ == old(self)@.declare(*address, *var_type),
    {
        let mut text = CodeGenVisitor::get_lhs_text_for_item(*var_type, address);
        text.append(";\n");
        self.add_declaration(text);
    }

    fn get_new_label(&mut self) -> (text: String)
        ensures
            text@ == old(self)@.label(),
            final(self)@ == old(self)@.next_label(),
    {
        let mut text = String::from_str("label");
        push_decimal(&mut text, self.label_no as u128);
        self.label_no = self.label_no.wrapping_add(1);
        text
    }

    /// Everything that was written, the routines that are complete.
    pub fn get_output(&self) -> (output: String)
        ensures
            output@ == self@.ready,
    {
        self.ready_buffer.clone()
    }

    /// Moves the routine that is being written to the routines that are
    /// complete.
    fn flush(&mut self)
        ensures
            final(self)@ == old(self)@.flush(),
    {
        self.ready_buffer.append(self.declaration_buffer.as_str());
        self.ready_buffer.append(self.buffer.as_str());
        self.declaration_buffer = String::new();
        self.buffer = String::new();
    }

    fn numeric_expression(
        &mut self,
        lhs_addr: &Address,
        rhs_addr: &Address,
        result_addr: &Address,
        op: &OpKind,
    )
        ensures
            final(self)@ == old(self)@.add_code(
                c_operation(*lhs_addr, *rhs_addr, *result_addr, *op),
            ),
    {
        let text = operation_text(lhs_addr, rhs_addr, result_addr, op);
        self.buffer.append(text.as_str());
    }

    fn string_expression(
        &mut self,
        lhs_addr: &Address,
        rhs_addr: &Address,
        result_addr: &Address,
        op: &OpKind,
    )
        ensures
            final(self)@ == match op {
                OpKind::Addition | OpKind::Relational(_) => old(self)@.add_code(
                    c_string_operation(
                        *lhs_addr,
                        *rhs_addr,
                        *result_addr,
                        *op,
                        old(self)@.max_string_size,
                    ),
                ),
                _ => old(self)@,
            },
    {
        let text = match op {
            OpKind::Addition => {
                let mut text = result_addr.register_format();
                text.append(" = (char *) malloc(");
                push_decimal(&mut text, self.max_string_size as u128);
                text.append(");\n");
                text.append("strcpy(");
                push_address(&mut text, result_addr);
                text.append(",");
                push_address(&mut text, lhs_addr);
                text.append(");\nstrcat(");
                push_address(&mut text, result_addr);
                text.append(",");
                push_address(&mut text, rhs_addr);
                text.append(");\n");
                Some(text)
            },
            OpKind::Relational(variant) => match variant {
                Relational::Equal => Some(
                    string_comparison_text(lhs_addr, rhs_addr, result_addr, "=="),
                ),
                Relational::NotEqual => Some(
                    string_comparison_text(lhs_addr, rhs_addr, result_addr, "!="),
                ),
                Relational::Smaller => Some(
                    string_comparison_text(lhs_addr, rhs_addr, result_addr, "<"),
                ),
                Relational::Larger => Some(
                    string_comparison_text(rhs_addr, lhs_addr, result_addr, "<"),
                ),
                Relational::LargerE => Some(
                    string_comparison_text(rhs_addr, lhs_addr, result_addr, "<="),
                ),
                Relational::SmallerE => Some(
                    string_comparison_text(lhs_addr, rhs_addr, result_addr, "<="),
                ),
            },
            _ => None,
        };
        if let Some(t) = text {
            self.add_code(t);
        }
    }

    fn boolean_expression(
        &mut self,
        lhs_addr: &Address,
        rhs_addr: &Address,
        result_addr: &Address,
        op: &OpKind,
    )
        ensures
            final(self)@ == old(self)@.add_code(
                c_operation(*lhs_addr, *rhs_addr, *result_addr, *op),
            ),
    {
        let text = operation_text(lhs_addr, rhs_addr, result_addr, op);
        self.add_code(text);
    }

    fn visit_literal(&mut self, token: &Token, address: &Address, node_type: &NodeType)
        ensures
            final(self)@ == old(self)@.emit_literal(*token, *address, *node_type),
    {
        self.declare(address, node_type);
        if *node_type == NodeType::Simple(SimpleType::String) {
            self.visit_string_literal(&token.lexeme, address);
        } else {
            let mut text = address.register_format();
            text.append(" = ");
            text.append(token.lexeme.as_str());
            text.append(";\n");
            self.add_declaration(text);
        }
    }

    fn visit_string_literal(&mut self, literal: &String, address: &Address)
        ensures
            final(self)@ == old(self)@.emit_string_literal(literal@, *address),
    {
        let length = literal.as_str().len();
        let mut line1 = address.register_format();
        line1.append(" = (char*) malloc(");
        push_decimal(&mut line1, length as u128);
        line1.append(" * sizeof(char));\n");
        let mut line2 = String::from_str("strcpy(");
        push_address(&mut line2, address);
        line2.append(", ");
        line2.append(literal.as_str());
        line2.append(");\n");
        let mut line3 = String::from_str("int ");
        push_address(&mut line3, address);
        line3.append("_size = ");
        push_decimal(&mut line3, length as u128);
        line3.append(";\n");
        self.add_code(line1);
        self.add_code(line2);
        self.add_declaration(line3);
    }

    fn visit_size(&mut self, array_address: &Address, address: &Address)
        ensures
            final(self)@ == old(self)@.emit_size(*array_address, *address),
    {
        let mut declaration_text = String::from_str("int ");
        push_address(&mut declaration_text, address);
        declaration_text.append(";\n");
        let mut text = address.register_format();
        text.append(" = ");
        push_address(&mut text, array_address);
        text.append("_size;\n");
        self.add_declaration(declaration_text);
        self.add_code(text);
    }

    fn visit_variable(&mut self, var: &TypedVariable)
        ensures
            final(self)@ == emit_variable(*var, old(self)@),
        decreases typed_variable_size(*var), 0nat,
    {
        match &var.substructure {
            TypedVariableStructure::Simple => (),
            TypedVariableStructure::Indexed(expr) => self.visit_expression(expr),
        }
    }

    fn visit_binary_expression(
        &mut self,
        lhs: &TypedExpression,
        rhs: &TypedExpression,
        op: &OpKind,
        result_addr: &Address,
        out_type: &NodeType,
    )
        ensures
            final(self)@ == emit_binary(*lhs, *rhs, *op, *result_addr, *out_type, old(self)@),
        decreases typed_expression_size(*lhs) + typed_expression_size(*rhs) + 1, 0nat,
    {
        self.visit_expression(lhs);
        self.visit_expression(rhs);
        self.declare(result_addr, out_type);
        match &lhs.node_type {
            NodeType::ArrayOf(_t) => (),
            NodeType::Simple(t) => match t {
                SimpleType::Boolean => self.boolean_expression(
                    &lhs.address,
                    &rhs.address,
                    result_addr,
                    op,
                ),
                SimpleType::Integer | SimpleType::Real => self.numeric_expression(
                    &lhs.address,
                    &rhs.address,
                    result_addr,
                    op,
                ),
                SimpleType::String => self.string_expression(
                    &lhs.address,
                    &rhs.address,
                    result_addr,
                    op,
                ),
            },
        }
    }

    /// Writes the code for the expressions of a list, in order.
    fn visit_expressions(&mut self, arguments: &Vec<TypedExpression>)
        ensures
            final(self)@ == emit_expressions(arguments@, 0, old(self)@),
        decreases typed_expressions_size(arguments@, 0), 2nat,
    {
        let mut i: usize = 0;
        while i < arguments.len()
            invariant
                i <= arguments.len(),
                typed_expressions_size(arguments@, i as int) <= typed_expressions_size(
                    arguments@,
                    0,
                ),
                emit_expressions(arguments@, i as int, self@) == emit_expressions(
                    arguments@,
                    0,
                    old(self)@,
                ),
            decreases arguments.len() - i,
        {
            self.visit_expression(&arguments[i]);
            i = i + 1;
        }
    }

    fn visit_call_expression(
        &mut self,
        address: &Address,
        arguments: &Vec<TypedExpression>,
        out_address: &Address,
        out_type: &NodeType,
    )
        ensures
            final(self)@ == emit_call_expression(
                *address,
                arguments@,
                *out_address,
                *out_type,
                old(self)@,
            ),
        decreases typed_expressions_size(arguments@, 0) + 1, 0nat,
    {
        self.visit_expressions(arguments);
        self.declare(out_address, out_type);
        let args_text = self.args_call_format(arguments);
        let mut text = out_address.register_format();
        text.append(" = ");
        push_address(&mut text, address);
        text.append(args_text.as_str());
        text.append(";\n");
        self.add_code(text);
    }

    fn args_call_format(&self, arguments: &Vec<TypedExpression>) -> (text: String)
        ensures
            text@ == c_arguments(arguments@),
    {
        let addresses = addresses_of(arguments);
        let mut text = address_list(" ", &addresses, String::from_str("("));
        text.append(")");
        text
    }

    fn visit_unary(&mut self, main_node: &TypedExpression, rhs: &TypedExpression)
        ensures
            final(self)@ == emit_expression(*rhs, old(self)@).declare(
                main_node.address,
                main_node.node_type,
            ).add_code(
                register_text(main_node.address) + " = !"@ + register_text(rhs.address) + ";\n"@,
            ),
        decreases typed_expression_size(*rhs) + 1, 0nat,
    {
        self.visit_expression(rhs);
        self.declare(&main_node.address, &main_node.node_type);
        let mut text = main_node.address.register_format();
        text.append(" = !");
        push_address(&mut text, &rhs.address);
        text.append(";\n");
        self.add_code(text);
    }
}

/// The addresses of a list of typed expressions.
fn addresses_of(arguments: &Vec<TypedExpression>) -> (addresses: Vec<Address>)
    ensures
        addresses@ == expression_addresses(arguments@),
{
    let mut addresses: Vec<Address> = Vec::new();
    let mut i: usize = 0;
    while i < arguments.len()
        invariant
            i <= arguments.len(),
            addresses@.len() == i,
            forall|k: int| 0 <= k < i ==> addresses@[k] == arguments@[k].address,
        decreases arguments.len() - i,
    {
        addresses.push(arguments[i].address);
        i = i + 1;
    }
    assert(addresses@ =~= expression_addresses(arguments@));
    addresses
}

/// The types of a list of typed expressions.
fn node_types_of(arguments: &Vec<TypedExpression>) -> (node_types: Vec<NodeType>)
    ensures
        node_types@ == expression_node_types(arguments@),
{
    let mut node_types: Vec<NodeType> = Vec::new();
    let mut i: usize = 0;
    while i < arguments.len()
        invariant
            i <= arguments.len(),
            node_types@.len() == i,
            forall|k: int| 0 <= k < i ==> node_types@[k] == arguments@[k].node_type,
        decreases arguments.len() - i,
    {
        node_types.push(arguments[i].node_type);
        i = i + 1;
    }
    assert(node_types@ =~= expression_node_types(arguments@));
    node_types
}

/// The types of a list of typed variables.
fn variable_types_of(variables: &Vec<Box<TypedVariable>>) -> (node_types: Vec<NodeType>)
    ensures
        node_types@ == variable_node_types(variables@),
{
    let mut node_types: Vec<NodeType> = Vec::new();
    let mut i: usize = 0;
    while i < variables.len()
        invariant
            i <= variables.len(),
            node_types@.len() == i,
            forall|k: int| 0 <= k < i ==> node_types@[k] == variables@[k].node_type,
        decreases variables.len() - i,
    {
        node_types.push(variables[i].node_type);
        i = i + 1;
    }
    assert(node_types@ =~= variable_node_types(variables@));
    node_types
}

/// The addresses of a list of typed variables.
fn variable_addresses_of(variables: &Vec<Box<TypedVariable>>) -> (addresses: Vec<Address>)
    ensures
        addresses@ == variable_addresses(variables@),
{
    let mut addresses: Vec<Address> = Vec::new();
    let mut i: usize = 0;
    while i < variables.len()
        invariant
            i <= variables.len(),
            addresses@.len() == i,
            forall|k: int| 0 <= k < i ==> addresses@[k] == variables@[k].address,
        decreases variables.len() - i,
    {
        addresses.push(variables[i].address);
        i = i + 1;
    }
    assert(addresses@ =~= variable_addresses(variables@));
    addresses
}

/// The code for the variables of a list from the index on.
pub open spec fn emit_variables(list: Seq<Box<TypedVariable>>, from: int, state: GenModel)
    -> GenModel
    decreases list.len() - from,
{
    if 0 <= from < list.len() {
        emit_variables(list, from + 1, emit_variable(*list[from], state))
    } else {
        state
    }
}

/// The code for a `writeln`: the arguments, a `printf` of them all, and one
/// of the line end.
pub open spec fn emit_write(arguments: Seq<TypedExpression>, state: GenModel) -> GenModel {
    emit_expressions(arguments, 0, state).add_code(
        "printf("@ + c_format(expression_node_types(arguments)) + ", "@ + c_listed(
            " "@,
            register_texts(expression_addresses(arguments)),
            0,
            Seq::empty(),
        ) + ");"@,
    ).add_code("printf(\"\\n\");\n"@)
}

/// The code for a `read`: the variables, and a `scanf` into them all.
pub open spec fn emit_read(variables: Seq<Box<TypedVariable>>, state: GenModel) -> GenModel {
    emit_variables(variables, 0, state).add_code(
        "scanf("@ + c_format(variable_node_types(variables)) + ", "@ + c_listed(
            " &"@,
            register_texts(variable_addresses(variables)),
            0,
            Seq::empty(),
        ) + ");\n"@,
    )
}

/// The code for a parameter: the size of an array from the expression that
/// gives it, the size of a string the largest there is.
pub open spec fn emit_parameter(
    variable: TypedVariable,
    description: TypedTypeDescription,
    state: GenModel,
) -> GenModel {
    (match description {
        TypedTypeDescription::Array(_, length) => emit_expression(length, state).add_declaration(
            c_size_declaration(variable.address, register_text(length.address)),
        ),
        TypedTypeDescription::Simple(_) => state,
    }).emit_string_parameter(variable)
}

/// The code for the parameters of a list from the index on.
pub open spec fn emit_parameters(
    list: Seq<(TypedVariable, TypedTypeDescription)>,
    from: int,
    state: GenModel,
) -> GenModel
    decreases list.len() - from,
{
    if 0 <= from < list.len() {
        emit_parameters(list, from + 1, emit_parameter(list[from].0, list[from].1, state))
    } else {
        state
    }
}

/// The code for an assignment: the value, then a copy of it, of its memory
/// where it is an array.
pub open spec fn emit_assign(variable: TypedVariable, value: TypedExpression, state: GenModel)
    -> GenModel {
    match variable.node_type {
        NodeType::ArrayOf(kind) => emit_expression(value, state).emit_assign_array(
            variable,
            value,
            kind,
        ),
        NodeType::Simple(_) => emit_expression(value, state).emit_assign_simple(variable, value),
    }
}

/// The code for a declaration. A scalar is declared, a string with its
/// size. An array is declared with its size and given memory, an array of
/// strings memory for the strings too.
pub open spec fn emit_declaration(
    identifier: TypedVariable,
    description: TypedTypeDescription,
    state: GenModel,
) -> GenModel {
    match description {
        TypedTypeDescription::Simple(_) => {
            let declared = state.declare(identifier.address, identifier.node_type);
            if identifier.node_type == NodeType::Simple(SimpleType::String) {
                declared.add_declaration(
                    c_size_declaration(
                        identifier.address,
                        decimal(state.max_string_size as nat),
                    ),
                )
            } else {
                declared
            }
        },
        TypedTypeDescription::Array(_, size) => {
            let sized = emit_expression(size, state);
            match identifier.node_type {
                NodeType::ArrayOf(kind) => {
                    let allocated = sized.declare(
                        identifier.address,
                        identifier.node_type,
                    ).add_declaration(
                        c_size_declaration(identifier.address, register_text(size.address)),
                    ).add_code(
                        register_text(identifier.address) + " = ("@ + c_type(kind) + "*) malloc("@
                            + register_text(size.address) + " * sizeof("@ + c_type(kind)
                            + "));\n"@,
                    );
                    if kind == SimpleType::String {
                        allocated.add_code(
                            "alloc_str_array("@ + register_text(identifier.address) + ", "@
                                + register_text(size.address) + ", "@ + decimal(
                                allocated.max_string_size as nat,
                            ) + ");\n"@,
                        )
                    } else {
                        allocated
                    }
                },
                NodeType::Simple(_) => sized,
            }
        },
    }
}

/// The code for a statement.
pub open spec fn emit_statement(node: TypedStatement, state: GenModel) -> GenModel
    decreases typed_statement_size(node), 1nat,
{
    match node {
        TypedStatement::Assert(token, condition) => emit_assert(token, condition, state),
        TypedStatement::Assign(variable, value) => emit_assign(variable, value, state),
        TypedStatement::Block(_, body) => emit_block(body@, state),
        TypedStatement::Call(address, arguments) => emit_call(address, arguments@, state),
        TypedStatement::Declaration(variable, description) => emit_declaration(
            variable,
            description,
            state,
        ),
        TypedStatement::If(condition, body, else_body) => emit_if(
            condition,
            *body,
            else_body,
            state,
        ),
        TypedStatement::Read(targets) => emit_read(targets@, state),
        TypedStatement::Return(_, value) => emit_return(value, state),
        TypedStatement::While(condition, body) => emit_while(condition, *body, state),
        TypedStatement::Write(arguments) => emit_write(arguments@, state),
    }
}

/// The code for the statements of a list from the index on.
pub open spec fn emit_statements(list: Seq<TypedStatement>, from: int, state: GenModel) -> GenModel
    decreases typed_statements_size(list, from), 2nat, list.len() - from,
{
    if 0 <= from < list.len() {
        emit_statements(list, from + 1, emit_statement(list[from], state))
    } else {
        state
    }
}

/// The code for a block: that of its statements, in order.
pub open spec fn emit_block(body: Seq<TypedStatement>, state: GenModel) -> GenModel
    decreases typed_statements_size(body, 0), 3nat,
{
    emit_statements(body, 0, state)
}

/// The code for an `if`: two labels are taken, one for the else branch and
/// one for the end; the condition; a jump to the else branch unless it
/// holds; the body and a jump to the end; the else branch, or a jump to the
/// end in its place; the end.
pub open spec fn emit_if(
    condition: TypedExpression,
    body: TypedStatement,
    else_body: Option<Box<TypedStatement>>,
    state: GenModel,
) -> GenModel
    decreases
            1 + typed_expression_size(condition) + typed_statement_size(body) + match else_body {
                Some(statement) => typed_statement_size(*statement),
                None => 0,
            },
            0nat,
{
    let else_label = state.label();
    let end_label = state.next_label().label();
    let then_part = emit_statement(
        body,
        emit_expression(condition, state.next_label().next_label()).add_code(
            c_jump_unless(condition.address, else_label),
        ),
    ).add_code("goto "@ + end_label + ";\n"@).add_code(else_label + ":\n"@);
    (match else_body {
        Some(statement) => emit_statement(*statement, then_part),
        None => then_part.add_code("goto "@ + end_label + ";\n"@),
    }).add_code(end_label + ":\n(void)0;\n"@)
}

/// The code for a `while`: two labels are taken, one for the start and one
/// for the end; the start; the condition; a jump to the end unless it
/// holds; the body and a jump to the start; the end.
pub open spec fn emit_while(condition: TypedExpression, body: TypedStatement, state: GenModel)
    -> GenModel
    decreases 1 + typed_expression_size(condition) + typed_statement_size(body), 0nat,
{
    let start_label = state.label();
    let end_label = state.next_label().label();
    emit_statement(
        body,
        emit_expression(
            condition,
            state.next_label().next_label().add_code(start_label + ":\n"@),
        ).add_code(c_jump_unless(condition.address, end_label)),
    ).add_code("goto "@ + start_label + ";"@).add_code(end_label + ":\n"@)
}

/// The code for an assertion: the condition, and a call that checks it and
/// names the line.
pub open spec fn emit_assert(token: Token, condition: TypedExpression, state: GenModel)
    -> GenModel {
    emit_expression(condition, state).add_code(
        "mp_assert("@ + register_text(condition.address) + ", \""@ + c_assert_message(token.row)
            + "\");\n"@,
    )
}

/// The code for a call that stands as a statement.
pub open spec fn emit_call(address: Address, arguments: Seq<TypedExpression>, state: GenModel)
    -> GenModel {
    emit_expressions(arguments, 0, state).add_code(
        register_text(address) + c_arguments(arguments) + ";\n"@,
    )
}

/// The code for a `return`.
pub open spec fn emit_return(value: Option<TypedExpression>, state: GenModel) -> GenModel {
    match value {
        Some(value) => emit_expression(value, state).add_code(
            "return "@ + register_text(value.address) + ";"@,
        ),
        None => state.add_code("return;"@),
    }
}

/// The code for a procedure: its head, its parameters, its body, a
/// `return`, and all of it moved to the routines that are complete.
pub open spec fn emit_procedure(
    address: Address,
    parameters: Seq<(TypedVariable, TypedTypeDescription)>,
    body: Seq<TypedStatement>,
    state: GenModel,
) -> GenModel {
    emit_block(
        body,
        emit_parameters(
            parameters,
            0,
            state.add_declaration(
                "void "@ + register_text(address) + c_parameters(parameters) + " {\n"@,
            ),
        ),
    ).add_code("return;\n}\n"@).flush()
}

/// The code for a function: its head with the type it returns, its
/// parameters, its body, and all of it moved to the routines that are
/// complete.
pub open spec fn emit_function(
    address: Address,
    parameters: Seq<(TypedVariable, TypedTypeDescription)>,
    body: Seq<TypedStatement>,
    out_type: TypedTypeDescription,
    state: GenModel,
) -> GenModel {
    emit_block(
        body,
        emit_parameters(
            parameters,
            0,
            state.add_declaration(
                c_node_type(out_type.node_type()) + " "@ + register_text(address) + c_parameters(
                    parameters,
                ) + " {\n"@,
            ),
        ),
    ).add_code("\n}\n"@).flush()
}

/// The code for a subroutine.
pub open spec fn emit_subroutine(node: TypedSubroutine, state: GenModel) -> GenModel {
    match node {
        TypedSubroutine::Function(address, parameters, body, out_type) => emit_function(
            address,
            parameters@,
            body@,
            out_type,
            state,
        ),
        TypedSubroutine::Procedure(address, parameters, body) => emit_procedure(
            address,
            parameters@,
            body@,
            state,
        ),
    }
}

/// The code for the subroutines of a list from the index on.
pub open spec fn emit_subroutines(list: Seq<TypedSubroutine>, from: int, state: GenModel)
    -> GenModel
    decreases list.len() - from,
{
    if 0 <= from < list.len() {
        emit_subroutines(list, from + 1, emit_subroutine(list[from], state))
    } else {
        state
    }
}

/// The code for a program: the run-time support, the subroutines, and the
/// main block as the function `main`, with the two truth values declared
/// at their addresses.
pub open spec fn emit_program(node: TypedAST, state: GenModel) -> GenModel {
    match node {
        TypedAST::Program(_, subroutines, body) => emit_block(
            body@,
            emit_subroutines(subroutines@, 0, state.add_declaration(state.runtime)).add_declaration(
                "int main() {\n"@,
            ).add_declaration("int r0 = 0;\nint r1 = 1;\n"@),
        ).add_code("return 0;}\n"@).flush(),
    }
}

impl CodeGenVisitor {
    fn assign_simple(&mut self, variable: &TypedVariable, value: &TypedExpression)
        ensures
            final(self)@ == old(self)@.emit_assign_simple(*variable, *value),
    {
        match &variable.substructure {
            TypedVariableStructure::Indexed(index_expr) => {
                self.visit_expression(index_expr);
            },
            _ => (),
        };
        let mut text = variable.address.register_format();
        text.append(" = ");
        push_address(&mut text, &value.address);
        text.append(";\n");
        self.add_code(text);
    }

    fn assign_array(&mut self, variable: &TypedVariable, value: &TypedExpression, st: SimpleType)
        ensures
            final(self)@ == old(self)@.emit_assign_array(*variable, *value, st),
    {
        let type_text = CodeGenVisitor::type_conversion(&st);
        let mut text = String::from_str("memcpy(");
        push_address(&mut text, &variable.address);
        text.append(", ");
        push_address(&mut text, &value.address);
        text.append(", ");
        push_address(&mut text, &variable.address);
        text.append("_size * sizeof(");
        text.append(type_text.as_str());
        text.append("));\n");
        self.add_code(text);
    }

    fn visit_write(&mut self, arguments: &Vec<TypedExpression>)
        ensures
            final(self)@ == emit_write(arguments@, old(self)@),
    {
        self.visit_expressions(arguments);
        let node_types = node_types_of(arguments);
        let adresses = addresses_of(arguments);
        let format_text = self.c_format_for_node_types(&node_types);
        let arg_text = self.c_write_address_formats(&adresses);
        let mut text = String::from_str("printf(");
        text.append(format_text.as_str());
        text.append(", ");
        text.append(arg_text.as_str());
        text.append(");");
        let text2 = String::from_str("printf(\"\\n\");\n");
        self.add_code(text);
        self.add_code(text2);
    }

    /// Writes the code for the variables of a list, in order.
    fn visit_variables(&mut self, variables: &Vec<Box<TypedVariable>>)
        ensures
            final(self)@ == emit_variables(variables@, 0, old(self)@),
    {
        let mut i: usize = 0;
        while i < variables.len()
            invariant
                i <= variables.len(),
                emit_variables(variables@, i as int, self@) == emit_variables(
                    variables@,
                    0,
                    old(self)@,
                ),
            decreases variables.len() - i,
        {
            self.visit_variable(&variables[i]);
            i = i + 1;
        }
    }

    fn visit_read(&mut self, variables: &Vec<Box<TypedVariable>>)
        ensures
            final(self)@ == emit_read(variables@, old(self)@),
    {
        self.visit_variables(variables);
        let formats = self.read_scanf_formats(variables);
        let adressess = self.read_address_formats(variables);
        let mut text = String::from_str("scanf(");
        text.append(formats.as_str());
        text.append(", ");
        text.append(adressess.as_str());
        text.append(");\n");
        self.add_code(text);
    }

    fn read_scanf_formats(&self, variables: &Vec<Box<TypedVariable>>) -> (text: String)
        ensures
            text@ == c_format(variable_node_types(variables@)),
    {
        let node_types = variable_types_of(variables);
        self.c_format_for_node_types(&node_types)
    }

    fn c_format_for_node_types(&self, node_types: &Vec<NodeType>) -> (text: String)
        ensures
            text@ == c_format(node_types@),
    {
        format_text(node_types)
    }

    fn read_address_formats(&self, variables: &Vec<Box<TypedVariable>>) -> (text: String)
        ensures
            text@ == c_listed(
                " &"@,
                register_texts(variable_addresses(variables@)),
                0,
                Seq::empty(),
            ),
    {
        let adresses = variable_addresses_of(variables);
        self.c_read_address_formats(&adresses)
    }

    fn c_read_address_formats(&self, adressess: &Vec<Address>) -> (text: String)
        ensures
            text@ == c_listed(" &"@, register_texts(adressess@), 0, Seq::empty()),
    {
        address_list(" &", adressess, String::new())
    }

    fn c_write_address_formats(&self, adressess: &Vec<Address>) -> (text: String)
        ensures
            text@ == c_listed(" "@, register_texts(adressess@), 0, Seq::empty()),
    {
        address_list(" ", adressess, String::new())
    }

    fn visit_procedure(
        &mut self,
        address: &Address,
        parameters: &Vec<(TypedVariable, TypedTypeDescription)>,
        block: &Vec<TypedStatement>,
    )
        ensures
            final(self)@ == emit_procedure(*address, parameters@, block@, old(self)@),
    {
        let param_string = self.build_param_string(parameters);
        let mut definition = String::from_str("void ");
        push_address(&mut definition, address);
        definition.append(param_string.as_str());
        definition.append(" {\n");
        self.declaration_buffer.append(definition.as_str());
        self.visit_parameters(parameters);
        self.visit_block(block);
        self.add_code(String::from_str("return;\n}\n"));
        self.flush();
    }

    /// Writes the code for the parameters of a list, in order.
    fn visit_parameters(&mut self, parameters: &Vec<(TypedVariable, TypedTypeDescription)>)
        ensures
            final(self)@ == emit_parameters(parameters@, 0, old(self)@),
    {
        let mut i: usize = 0;
        while i < parameters.len()
            invariant
                i <= parameters.len(),
                emit_parameters(parameters@, i as int, self@) == emit_parameters(
                    parameters@,
                    0,
                    old(self)@,
                ),
            decreases parameters.len() - i,
        {
            self.visit_parameter(&parameters[i].0, &parameters[i].1);
            i = i + 1;
        }
    }

    fn visit_parameter(&mut self, var: &TypedVariable, type_description: &TypedTypeDescription)
        ensures
            final(self)@ == emit_parameter(*var, *type_description, old(self)@),
    {
        match type_description {
            TypedTypeDescription::Array(_node_type, expression) => {
                self.visit_expression(expression);
                let text = size_declaration_of_address(&var.address, &expression.address);
                self.declaration_buffer.append(text.as_str());
            },
            TypedTypeDescription::Simple(_node_type) => (),
        }
        match &var.node_type {
            NodeType::Simple(simple_type) => match simple_type {
                SimpleType::String => {
                    let text = size_declaration_of_number(&var.address, self.max_string_size);
                    self.declaration_buffer.append(text.as_str());
                },
                _ => (),
            },
            _ => (),
        }
    }

    fn visit_function(
        &mut self,
        address: &Address,
        parameters: &Vec<(TypedVariable, TypedTypeDescription)>,
        block: &Vec<TypedStatement>,
        out_type: &TypedTypeDescription,
    )
        ensures
            final(self)@ == emit_function(*address, parameters@, block@, *out_type, old(self)@),
    {
        let out_type_string = match out_type {
            TypedTypeDescription::Simple(node_type) => {
                CodeGenVisitor::type_conversion_from_node_type(node_type)
            },
            TypedTypeDescription::Array(node_type, _expr) => {
                CodeGenVisitor::type_conversion_from_node_type(node_type)
            },
        };
        let param_string = self.build_param_string(parameters);
        let mut definition = out_type_string;
        definition.append(" ");
        push_address(&mut definition, address);
        definition.append(param_string.as_str());
        definition.append(" {\n");
        self.declaration_buffer.append(definition.as_str());
        self.visit_parameters(parameters);
        self.visit_block(block);
        self.add_code(String::from_str("\n}\n"));
        self.flush();
    }

    fn build_param_string(&self, parameters: &Vec<(TypedVariable, TypedTypeDescription)>) -> (text:
        String)
        ensures
            text@ == c_parameters(parameters@),
    {
        let mut text = String::from_str("(");
        let mut i: usize = 0;
        while i < parameters.len()
            invariant
                i <= parameters.len(),
                c_parameter_list(parameters@, i as int, text@) == c_parameter_list(
                    parameters@,
                    0,
                    "("@,
                ),
            decreases parameters.len() - i,
        {
            let type_text = CodeGenVisitor::type_conversion_from_node_type(
                &parameters[i].0.node_type,
            );
            text.append(type_text.as_str());
            text.append(" ");
            push_address(&mut text, &parameters[i].0.address);
            if i < parameters.len() - 1 {
                text.append(",");
            }
            i = i + 1;
        }
        text.append(")");
        return text;
    }
}

impl TypedVisitor for CodeGenVisitor {
    /// Writes a whole program.
    fn visit_ast(&mut self, node: &TypedAST)
        ensures
            final(self)@ == emit_program(*node, old(self)@),
    {
        let TypedAST::Program(_token, subroutines, main_block) = node;
        self.insert_runtime();
        let mut i: usize = 0;
        while i < subroutines.len()
            invariant
                i <= subroutines.len(),
                emit_subroutines(subroutines@, i as int, self@) == emit_subroutines(
                    subroutines@,
                    0,
                    old(self)@.add_declaration(old(self)@.runtime),
                ),
            decreases subroutines.len() - i,
        {
            self.visit_subroutine(&subroutines[i]);
            i = i + 1;
        }
        self.declaration_buffer.append("int main() {\n");
        self.declaration_buffer.append("int r0 = 0;\nint r1 = 1;\n");
        self.visit_block(main_block);
        self.buffer.append("return 0;}\n");
        self.flush();
    }

    fn visit_subroutine(&mut self, node: &TypedSubroutine)
        ensures
            final(self)@ == emit_subroutine(*node, old(self)@),
    {
        match node {
            TypedSubroutine::Function(address, params, body, out_type) => self.visit_function(
                address,
                params,
                body,
                out_type,
            ),
            TypedSubroutine::Procedure(address, parameters, block) => self.visit_procedure(
                address,
                parameters,
                block,
            ),
        }
    }

    fn visit_block(&mut self, node: &Vec<TypedStatement>)
        ensures
            final(self)@ == emit_block(node@, old(self)@),
        decreases typed_statements_size(node@, 0), 3nat,
    {
        let mut i: usize = 0;
        while i < node.len()
            invariant
                i <= node.len(),
                typed_statements_size(node@, i as int) <= typed_statements_size(node@, 0),
                emit_statements(node@, i as int, self@) == emit_statements(node@, 0, old(self)@),
            decreases node.len() - i,
        {
            self.visit_statement(&node[i]);
            i = i + 1;
        }
    }

    fn visit_statement(&mut self, node: &TypedStatement)
        ensures
            final(self)@ == emit_statement(*node, old(self)@),
        decreases typed_statement_size(*node), 1nat,
    {
        match node {
            TypedStatement::Assert(t, expr) => self.visit_assert(t, expr),
            TypedStatement::Assign(var, expr) => self.visit_assign(var, expr),
            TypedStatement::Block(_scope, block) => self.visit_block(block),
            TypedStatement::Call(address, args) => self.visit_call(address, args),
            TypedStatement::Declaration(variable, description) => self.visit_declaration(
                variable,
                description,
            ),
            TypedStatement::If(condition, body, else_body) => self.visit_if(
                condition,
                body,
                else_body,
            ),
            TypedStatement::Read(targets) => self.visit_read(targets),
            TypedStatement::Return(token, value) => self.visit_return(token, value),
            TypedStatement::While(condition, body) => self.visit_while(condition, body),
            TypedStatement::Write(args) => self.visit_write(args),
        }
    }

    fn visit_assign(&mut self, variable: &TypedVariable, value: &TypedExpression)
        ensures
            final(self)@ == emit_assign(*variable, *value, old(self)@),
    {
        self.visit_expression(value);
        match &variable.node_type {
            NodeType::ArrayOf(st) => self.assign_array(variable, value, *st),
            NodeType::Simple(_st) => self.assign_simple(variable, value),
        }
    }

    fn visit_declaration(
        &mut self,
        identifier: &TypedVariable,
        type_description: &TypedTypeDescription,
    )
        ensures
            final(self)@ == emit_declaration(*identifier, *type_description, old(self)@),
    {
        match type_description {
            TypedTypeDescription::Simple(_token) => {
                self.declare(&identifier.address, &identifier.node_type);
                if identifier.node_type == NodeType::Simple(SimpleType::String) {
                    let size_text = size_declaration_of_number(
                        &identifier.address,
                        self.max_string_size,
                    );
                    self.add_declaration(size_text);
                }
            },
            TypedTypeDescription::Array(_token, size_expr) => {
                self.visit_expression(size_expr);
                match &identifier.node_type {
                    NodeType::ArrayOf(t) => {
                        self.declare(&identifier.address, &identifier.node_type);
                        let type_id = CodeGenVisitor::type_conversion(t);
                        let size_text = size_declaration_of_address(
                            &identifier.address,
                            &size_expr.address,
                        );
                        let mut alloc_text = identifier.address.register_format();
                        alloc_text.append(" = (");
                        alloc_text.append(type_id.as_str());
                        alloc_text.append("*) malloc(");
                        push_address(&mut alloc_text, &size_expr.address);
                        alloc_text.append(" * sizeof(");
                        alloc_text.append(type_id.as_str());
                        alloc_text.append("));\n");
                        self.add_declaration(size_text);
                        self.add_code(alloc_text);
                        if *t == SimpleType::String {
                            let mut str_alloc_text = String::from_str("alloc_str_array(");
                            push_address(&mut str_alloc_text, &identifier.address);
                            str_alloc_text.append(", ");
                            push_address(&mut str_alloc_text, &size_expr.address);
                            str_alloc_text.append(", ");
                            push_decimal(&mut str_alloc_text, self.max_string_size as u128);
                            str_alloc_text.append(");\n");
                            self.buffer.append(str_alloc_text.as_str());
                        }
                    },
                    _ => (),
                }
            },
        }
    }

    fn visit_if(
        &mut self,
        condition: &TypedExpression,
        body: &TypedStatement,
        else_body: &Option<Box<TypedStatement>>,
    )
        ensures
            final(self)@ == emit_if(*condition, *body, *else_body, old(self)@),
        decreases
                1 + typed_expression_size(*condition) + typed_statement_size(*body)
                    + match else_body {
                    Some(statement) => typed_statement_size(**statement),
                    None => 0,
                },
                0nat,
    {
        let else_label = self.get_new_label();
        let end_label = self.get_new_label();
        self.visit_expression(condition);
        let jump_text = jump_unless_text(&condition.address, else_label.as_str());
        self.add_code(jump_text);
        self.visit_statement(body);
        let mut jump_over_else = String::from_str("goto ");
        jump_over_else.append(end_label.as_str());
        jump_over_else.append(";\n");
        self.add_code(jump_over_else);
        let mut else_label_target = else_label.clone();
        else_label_target.append(":\n");
        self.add_code(else_label_target);
        if let Some(else_body) = else_body {
            self.visit_statement(else_body);
        } else {
            let mut goto_end = String::from_str("goto ");
            goto_end.append(end_label.as_str());
            goto_end.append(";\n");
            self.add_code(goto_end);
        }
        let mut end_label_target = end_label.clone();
        end_label_target.append(":\n(void)0;\n");
        self.add_code(end_label_target);
    }

    fn visit_while(&mut self, condition: &TypedExpression, body: &TypedStatement)
        ensures
            final(self)@ == emit_while(*condition, *body, old(self)@),
        decreases 1 + typed_expression_size(*condition) + typed_statement_size(*body), 0nat,
    {
        let loop_start_label = self.get_new_label();
        let end_label = self.get_new_label();
        let mut loop_start_label_target = loop_start_label.clone();
        loop_start_label_target.append(":\n");
        self.add_code(loop_start_label_target);
        self.visit_expression(condition);
        let jump_text = jump_unless_text(&condition.address, end_label.as_str());
        self.add_code(jump_text);
        self.visit_statement(body);
        let mut start_jump_text = String::from_str("goto ");
        start_jump_text.append(loop_start_label.as_str());
        start_jump_text.append(";");
        self.add_code(start_jump_text);
        let mut end_label_target = end_label.clone();
        end_label_target.append(":\n");
        self.add_code(end_label_target);
    }

    fn visit_assert(&mut self, token: &Token, condition: &TypedExpression)
        ensures
            final(self)@ == emit_assert(*token, *condition, old(self)@),
    {
        self.visit_expression(condition);
        let mut assert_msg = String::from_str("On line ");
        push_decimal(&mut assert_msg, token.row as u128 + 1);
        assert_msg.append("\\n");
        let mut text = String::from_str("mp_assert(");
        push_address(&mut text, &condition.address);
        text.append(", \"");
        text.append(assert_msg.as_str());
        text.append("\");\n");
        self.buffer.append(text.as_str());
    }

    fn visit_call(&mut self, address: &Address, arguments: &Vec<TypedExpression>)
        ensures
            final(self)@ == emit_call(*address, arguments@, old(self)@),
    {
        self.visit_expressions(arguments);
        let args_text = self.args_call_format(arguments);
        let mut text = address.register_format();
        text.append(args_text.as_str());
        text.append(";\n");
        self.add_code(text);
    }

    fn visit_return(&mut self, _token: &Token, value: &Option<TypedExpression>)
        ensures
            final(self)@ == emit_return(*value, old(self)@),
    {
        let text = if let Some(return_val) = value {
            self.visit_expression(return_val);
            let mut text = String::from_str("return ");
            push_address(&mut text, &return_val.address);
            text.append(";");
            text
        } else {
            String::from_str("return;")
        };
        self.add_code(text);
    }

    fn visit_expression(&mut self, node: &TypedExpression)
        ensures
            final(self)@ == emit_expression(*node, old(self)@),
        decreases typed_expression_size(*node), 1nat,
    {
        match &node.substructure {
            TypedExpressionStructure::Binary(op, lhs, rhs) => self.visit_binary_expression(
                lhs,
                rhs,
                op,
                &node.address,
                &node.node_type,
            ),
            TypedExpressionStructure::Call(token, args) => self.visit_call_expression(
                token,
                args,
                &node.address,
                &node.node_type,
            ),
            TypedExpressionStructure::Size(array_address) => self.visit_size(
                array_address,
                &node.address,
            ),
            TypedExpressionStructure::Unary(expr) => self.visit_unary(node, expr),
            TypedExpressionStructure::Literal => self.visit_literal(
                &node.token,
                &node.address,
                &node.node_type,
            ),
            TypedExpressionStructure::Variable(var) => self.visit_variable(var),
        }
    }
}

impl CodeGenVisitor {
    /// Puts the run-time support in front of everything.
    fn insert_runtime(&mut self)
        ensures
            final(self)@ == old(self)@.add_declaration(old(self)@.runtime),
    {
        self.declaration_buffer.append(self.runtime.as_str());
    }
}

/// The jump that leaves when a condition does not hold.
fn jump_unless_text(condition: &Address, label: &str) -> (text: String)
    ensures
        text@ == c_jump_unless(*condition, label@),
{
    let mut text = String::from_str("if (");
    push_address(&mut text, condition);
    text.append(" != 1 ) { goto ");
    text.append(label);
    text.append("; }\n");
    text
}

} // verus!
