//! The binary operators, grouped the way the typing rules treat them.

use vstd::prelude::*;

verus! {

/// The class of a binary operator.
#[derive(Clone, Copy, Debug, PartialEq, Eq, Structural)]
pub enum OpKind {
    Addition,
    NumArithmetic(NumArithmetic),
    Modulo,
    Relational(Relational),
    BoolArithmetic(BoolArithmetic),
}

#[derive(Clone, Copy, Debug, PartialEq, Eq, Structural)]
pub enum NumArithmetic {
    Minus,
    Division,
    Multi,
}

#[derive(Clone, Copy, Debug, PartialEq, Eq, Structural)]
pub enum Relational {
    Equal,
    NotEqual,
    Smaller,
    SmallerE,
    Larger,
    LargerE,
}

#[derive(Clone, Copy, Debug, PartialEq, Eq, Structural)]
pub enum BoolArithmetic {
    Or,
    And,
}

/// The operator that a lexeme writes, if it writes one.
pub open spec fn opkind_of(op: Seq<char>) -> Option<OpKind> {
    if op == "+"@ {
        Some(OpKind::Addition)
    } else if op == "*"@ {
        Some(OpKind::NumArithmetic(NumArithmetic::Multi))
    } else if op == "/"@ {
        Some(OpKind::NumArithmetic(NumArithmetic::Division))
    } else if op == "-"@ {
        Some(OpKind::NumArithmetic(NumArithmetic::Minus))
    } else if op == "%"@ {
        Some(OpKind::Modulo)
    } else if op == "="@ {
        Some(OpKind::Relational(Relational::Equal))
    } else if op == "<>"@ {
        Some(OpKind::Relational(Relational::NotEqual))
    } else if op == "<"@ {
        Some(OpKind::Relational(Relational::Smaller))
    } else if op == "<="@ {
        Some(OpKind::Relational(Relational::SmallerE))
    } else if op == ">="@ {
        Some(OpKind::Relational(Relational::LargerE))
    } else if op == ">"@ {
        Some(OpKind::Relational(Relational::Larger))
    } else if op == "or"@ {
        Some(OpKind::BoolArithmetic(BoolArithmetic::Or))
    } else if op == "and"@ {
        Some(OpKind::BoolArithmetic(BoolArithmetic::And))
    } else {
        None
    }
}

/// Reads an operator from its lexeme.
pub fn string_as_opkind(op: &String) -> (r: Option<OpKind>)
    ensures
        r == opkind_of(op@),
{
    let s = op.as_str();
    if *s == *"+" {
        Some(OpKind::Addition)
    } else if *s == *"*" {
        Some(OpKind::NumArithmetic(NumArithmetic::Multi))
    } else if *s == *"/" {
        Some(OpKind::NumArithmetic(NumArithmetic::Division))
    } else if *s == *"-" {
        Some(OpKind::NumArithmetic(NumArithmetic::Minus))
    } else if *s == *"%" {
        Some(OpKind::Modulo)
    } else if *s == *"=" {
        Some(OpKind::Relational(Relational::Equal))
    } else if *s == *"<>" {
        Some(OpKind::Relational(Relational::NotEqual))
    } else if *s == *"<" {
        Some(OpKind::Relational(Relational::Smaller))
    } else if *s == *"<=" {
        Some(OpKind::Relational(Relational::SmallerE))
    } else if *s == *">=" {
        Some(OpKind::Relational(Relational::LargerE))
    } else if *s == *">" {
        Some(OpKind::Relational(Relational::Larger))
    } else if *s == *"or" {
        Some(OpKind::BoolArithmetic(BoolArithmetic::Or))
    } else if *s == *"and" {
        Some(OpKind::BoolArithmetic(BoolArithmetic::And))
    } else {
        None
    }
}

} // verus!
