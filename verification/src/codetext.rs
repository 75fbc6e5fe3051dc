//! The pieces of C text that the code generator puts together.

use vstd::prelude::*;
use crate::address::{register_text, Address};
use crate::codegenvisitor::CodeGenVisitor;
use crate::opkind::{BoolArithmetic, NumArithmetic, OpKind, Relational};
use crate::text::{decimal, push_decimal};
use crate::typedast::{NodeType, SimpleType};

verus! {

/// The C type of a scalar kind.
pub open spec fn c_type(kind: SimpleType) -> Seq<char> {
    match kind {
        SimpleType::Integer => "int"@,
        SimpleType::Boolean => "short"@,
        SimpleType::Real => "double"@,
        SimpleType::String => "char *"@,
    }
}

/// The C type of a type: for an array, a pointer to the type of its
/// elements.
pub open spec fn c_node_type(node_type: NodeType) -> Seq<char> {
    match node_type {
        NodeType::Simple(kind) => c_type(kind),
        NodeType::ArrayOf(kind) => c_type(kind) + "*"@,
    }
}

/// The conversion that `printf` and `scanf` use for a type.
pub open spec fn c_conversion(node_type: NodeType) -> Seq<char> {
    match node_type {
        NodeType::Simple(SimpleType::Integer) | NodeType::Simple(SimpleType::Boolean) => "%d"@,
        NodeType::Simple(SimpleType::Real) => "%f"@,
        NodeType::Simple(SimpleType::String) => "%s"@,
        NodeType::ArrayOf(_) => "Error array printing not implemented"@,
    }
}

/// A location with its C type in front, as a declaration writes it.
pub open spec fn c_declarator(node_type: NodeType, address: Address) -> Seq<char> {
    match node_type {
        NodeType::Simple(SimpleType::String) => "char *"@ + register_text(address),
        NodeType::Simple(kind) => c_type(kind) + " "@ + register_text(address),
        NodeType::ArrayOf(kind) => c_type(kind) + " *"@ + register_text(address),
    }
}

/// The C operator for an arithmetic operator.
pub open spec fn c_arithmetic(op: NumArithmetic) -> Seq<char> {
    match op {
        NumArithmetic::Division => "/"@,
        NumArithmetic::Minus => "-"@,
        NumArithmetic::Multi => "*"@,
    }
}

/// The C operator for a comparison.
pub open spec fn c_relation(op: Relational) -> Seq<char> {
    match op {
        Relational::NotEqual => "!="@,
        Relational::Equal => "=="@,
        Relational::Smaller => "<"@,
        Relational::Larger => ">"@,
        Relational::SmallerE => "<="@,
        Relational::LargerE => ">="@,
    }
}

/// The C operator for `and` and `or`.
pub open spec fn c_logic(op: BoolArithmetic) -> Seq<char> {
    match op {
        BoolArithmetic::Or => "|"@,
        BoolArithmetic::And => "&"@,
    }
}

/// The C operator for an operator.
pub open spec fn c_operator(op: OpKind) -> Seq<char> {
    match op {
        OpKind::Addition => "+"@,
        OpKind::NumArithmetic(variant) => c_arithmetic(variant),
        OpKind::Relational(variant) => c_relation(variant),
        OpKind::Modulo => "%"@,
        OpKind::BoolArithmetic(variant) => c_logic(variant),
    }
}

/// An operation on two locations, assigned to a third.
pub open spec fn c_operation(lhs: Address, rhs: Address, result: Address, op: OpKind) -> Seq<char> {
    register_text(result) + " = "@ + register_text(lhs) + " "@ + c_operator(op) + " "@
        + register_text(rhs) + ";\n"@
}

/// A comparison of two strings: `strcmp` on them, and its result compared
/// with zero.
pub open spec fn c_string_comparison(
    first: Address,
    second: Address,
    result: Address,
    relation: Seq<char>,
) -> Seq<char> {
    "booltmp = strcmp("@ + register_text(first) + ", "@ + register_text(second) + ");\n"@
        + register_text(result) + " = booltmp "@ + relation + " 0;\n"@
}

/// An operation on two strings: `+` joins them in fresh memory of the
/// largest size a string may have; a comparison goes by `strcmp`, the
/// larger-than ones with the operands exchanged. Other operators write
/// nothing.
pub open spec fn c_string_operation(
    lhs: Address,
    rhs: Address,
    result: Address,
    op: OpKind,
    max_string_size: u64,
) -> Seq<char> {
    match op {
        OpKind::Addition => register_text(result) + " = (char *) malloc("@ + decimal(
            max_string_size as nat,
        ) + ");\n"@ + "strcpy("@ + register_text(result) + ","@ + register_text(lhs) + ");\nstrcat("@
            + register_text(result) + ","@ + register_text(rhs) + ");\n"@,
        OpKind::Relational(Relational::Equal) => c_string_comparison(lhs, rhs, result, "=="@),
        OpKind::Relational(Relational::NotEqual) => c_string_comparison(lhs, rhs, result, "!="@),
        OpKind::Relational(Relational::Smaller) => c_string_comparison(lhs, rhs, result, "<"@),
        OpKind::Relational(Relational::Larger) => c_string_comparison(rhs, lhs, result, "<"@),
        OpKind::Relational(Relational::LargerE) => c_string_comparison(rhs, lhs, result, "<="@),
        OpKind::Relational(Relational::SmallerE) => c_string_comparison(lhs, rhs, result, "<="@),
        _ => Seq::empty(),
    }
}

/// The declaration of the size of what lives at a location.
pub open spec fn c_size_declaration(address: Address, size: Seq<char>) -> Seq<char> {
    "int "@ + register_text(address) + "_size = "@ + size + ";\n"@
}

/// The items of a list from the index on, added to a text: before each one
/// the lead, behind each but the last a comma.
pub open spec fn c_listed(lead: Seq<char>, items: Seq<Seq<char>>, from: int, text: Seq<char>)
    -> Seq<char>
    decreases items.len() - from,
{
    if 0 <= from < items.len() {
        c_listed(
            lead,
            items,
            from + 1,
            if from < items.len() - 1 {
                text + lead + items[from] + ","@
            } else {
                text + lead + items[from]
            },
        )
    } else {
        text
    }
}

/// The conversions for the types of a list from the index on, added to a
/// text, each with a blank before it.
pub open spec fn c_conversions(types: Seq<NodeType>, from: int, text: Seq<char>) -> Seq<char>
    decreases types.len() - from,
{
    if 0 <= from < types.len() {
        c_conversions(types, from + 1, text + " "@ + c_conversion(types[from]))
    } else {
        text
    }
}

/// The format string for values of the given types.
pub open spec fn c_format(types: Seq<NodeType>) -> Seq<char> {
    c_conversions(types, 0, "\""@) + "\""@
}

/// The names of the locations of a list.
pub open spec fn register_texts(addresses: Seq<Address>) -> Seq<Seq<char>> {
    Seq::new(addresses.len(), |i: int| register_text(addresses[i]))
}

/// Appends the name of a location to a text.
pub fn push_address(text: &mut String, address: &Address)
    ensures
        final(text)@ == old(text)@ + register_text(*address),
{
    let name = address.register_format();
    text.append(name.as_str());
}

impl CodeGenVisitor {
    /// The C type of a scalar kind.
    pub(crate) fn type_conversion(source_type: &SimpleType) -> (text: String)
        ensures
            text@ == c_type(*source_type),
    {
        match source_type {
            SimpleType::Integer => String::from_str("int"),
            SimpleType::Boolean => String::from_str("short"),
            SimpleType::Real => String::from_str("double"),
            SimpleType::String => String::from_str("char *"),
        }
    }

    /// The C type of a type.
    pub(crate) fn type_conversion_from_node_type(source_type: &NodeType) -> (text: String)
        ensures
            text@ == c_node_type(*source_type),
    {
        match source_type {
            NodeType::Simple(t) => CodeGenVisitor::type_conversion(t),
            NodeType::ArrayOf(t) => {
                let mut text = CodeGenVisitor::type_conversion(t);
                text.append("*");
                text
            },
        }
    }

    /// The conversion that `printf` and `scanf` use for a type.
    pub(crate) fn printf_format_conversion(source_type: NodeType) -> (text: String)
        ensures
            text@ == c_conversion(source_type),
    {
        match source_type {
            NodeType::Simple(t) => match t {
                SimpleType::Integer | SimpleType::Boolean => String::from_str("%d"),
                SimpleType::Real => String::from_str("%f"),
                SimpleType::String => String::from_str("%s"),
            },
            _ => String::from_str("Error array printing not implemented"),
        }
    }

    /// A location with its C type in front.
    pub(crate) fn get_lhs_text_for_item(source_type: NodeType, item_id: &Address) -> (text: String)
        ensures
            text@ == c_declarator(source_type, *item_id),
    {
        match source_type {
            NodeType::Simple(t) => {
                if t == SimpleType::String {
                    let mut text = String::from_str("char *");
                    push_address(&mut text, item_id);
                    text
                } else {
                    let mut text = CodeGenVisitor::type_conversion(&t);
                    text.append(" ");
                    push_address(&mut text, item_id);
                    text
                }
            },
            NodeType::ArrayOf(t) => {
                let mut text = CodeGenVisitor::type_conversion(&t);
                text.append(" *");
                push_address(&mut text, item_id);
                text
            },
        }
    }

    /// The C operator for an operator.
    pub(crate) fn operator_converter(operator: &OpKind) -> (text: String)
        ensures
            text@ == c_operator(*operator),
    {
        match operator {
            OpKind::Addition => String::from_str("+"),
            OpKind::NumArithmetic(variant) => CodeGenVisitor::num_operation_converter(variant),
            OpKind::Relational(variant) => CodeGenVisitor::relational_operation_converter(variant),
            OpKind::Modulo => String::from_str("%"),
            OpKind::BoolArithmetic(variant) => CodeGenVisitor::boolean_operator_converter(variant),
        }
    }

    /// The C operator for a comparison.
    pub(crate) fn relational_operation_converter(operator: &Relational) -> (text: String)
        ensures
            text@ == c_relation(*operator),
    {
        match operator {
            Relational::NotEqual => String::from_str("!="),
            Relational::Equal => String::from_str("=="),
            Relational::Smaller => String::from_str("<"),
            Relational::Larger => String::from_str(">"),
            Relational::SmallerE => String::from_str("<="),
            Relational::LargerE => String::from_str(">="),
        }
    }

    /// The C operator for an arithmetic operator.
    pub(crate) fn num_operation_converter(operator: &NumArithmetic) -> (text: String)
        ensures
            text@ == c_arithmetic(*operator),
    {
        let tmp_str = match operator {
            NumArithmetic::Division => "/",
            NumArithmetic::Minus => "-",
            NumArithmetic::Multi => "*",
        };
        String::from_str(tmp_str)
    }

    /// The C operator for `and` and `or`.
    pub(crate) fn boolean_operator_converter(op: &BoolArithmetic) -> (text: String)
        ensures
            text@ == c_logic(*op),
    {
        let t_str = match op {
            BoolArithmetic::Or => "|",
            BoolArithmetic::And => "&",
        };
        String::from_str(t_str)
    }
}

/// An operation on two locations, assigned to a third.
pub fn operation_text(lhs_addr: &Address, rhs_addr: &Address, result_addr: &Address, op: &OpKind)
    -> (text: String)
    ensures
        text@ == c_operation(*lhs_addr, *rhs_addr, *result_addr, *op),
{
    let target_op = CodeGenVisitor::operator_converter(op);
    let mut text = result_addr.register_format();
    text.append(" = ");
    push_address(&mut text, lhs_addr);
    text.append(" ");
    text.append(target_op.as_str());
    text.append(" ");
    push_address(&mut text, rhs_addr);
    text.append(";\n");
    text
}

/// A comparison of two strings.
pub fn string_comparison_text(
    first: &Address,
    second: &Address,
    result_addr: &Address,
    relation: &str,
) -> (text: String)
    ensures
        text@ == c_string_comparison(*first, *second, *result_addr, relation@),
{
    let mut text = String::from_str("booltmp = strcmp(");
    push_address(&mut text, first);
    text.append(", ");
    push_address(&mut text, second);
    text.append(");\n");
    push_address(&mut text, result_addr);
    text.append(" = booltmp ");
    text.append(relation);
    text.append(" 0;\n");
    text
}

/// The declaration of the size of what lives at a location, the size given
/// as a number.
pub fn size_declaration_of_number(address: &Address, size: u64) -> (text: String)
    ensures
        text@ == c_size_declaration(*address, decimal(size as nat)),
{
    let mut text = String::from_str("int ");
    push_address(&mut text, address);
    text.append("_size = ");
    push_decimal(&mut text, size as u128);
    text.append(";\n");
    text
}

/// The declaration of the size of what lives at a location, the size given
/// as the location that holds it.
pub fn size_declaration_of_address(address: &Address, size: &Address) -> (text: String)
    ensures
        text@ == c_size_declaration(*address, register_text(*size)),
{
    let mut text = String::from_str("int ");
    push_address(&mut text, address);
    text.append("_size = ");
    push_address(&mut text, size);
    text.append(";\n");
    text
}

/// The names of the locations of a list, each with the lead before it and
/// commas between them.
pub fn address_list(lead: &str, addresses: &Vec<Address>, start: String) -> (text: String)
    ensures
        text@ == c_listed(lead@, register_texts(addresses@), 0, start@),
{
    let mut text = start;
    let mut i: usize = 0;
    while i < addresses.len()
        invariant
            i <= addresses.len(),
            c_listed(lead@, register_texts(addresses@), i as int, text@) == c_listed(
                lead@,
                register_texts(addresses@),
                0,
                start@,
            ),
        decreases addresses.len() - i,
    {
        text.append(lead);
        push_address(&mut text, &addresses[i]);
        if i < addresses.len() - 1 {
            text.append(",");
        }
        i = i + 1;
    }
    text
}

/// The format string for values of the given types.
pub fn format_text(node_types: &Vec<NodeType>) -> (text: String)
    ensures
        text@ == c_format(node_types@),
{
    let mut text = String::from_str("\"");
    let mut i: usize = 0;
    while i < node_types.len()
        invariant
            i <= node_types.len(),
            c_conversions(node_types@, i as int, text@) == c_conversions(node_types@, 0, "\""@),
        decreases node_types.len() - i,
    {
        let conversion = CodeGenVisitor::printf_format_conversion(node_types[i]);
        text.append(" ");
        text.append(conversion.as_str());
        i = i + 1;
    }
    text.append("\"");
    text
}

} // verus!
