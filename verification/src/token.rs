//! Tokens: the lexical units that the scanner produces and every later
//! stage carries along for its diagnostics.

use vstd::prelude::*;

verus! {

/// The lexical class of a token.
#[derive(Clone, Copy, Debug, PartialEq, Eq, Structural)]
pub enum TokenKind {
    Identifier,
    StringLiteral,
    IntegerLiteral,
    RealLiteral,
    Eof,
    Error,
    Var,
    And,
    Or,
    Not,
    If,
    Then,
    Else,
    Of,
    While,
    Do,
    Begin,
    End,
    Array,
    Procedure,
    Function,
    Program,
    Assert,
    Return,
    Plus,
    Minus,
    Multi,
    Division,
    Modulo,
    Equal,
    NotEqual,
    SmallerThan,
    LargerThan,
    ESmallerThan,
    ELargerThan,
    OpenBracket,
    CloseBracket,
    OpenSquareBracket,
    CloseSquareBracket,
    Dot,
    Colon,
    Comma,
    SemiColon,
    Assign,
}

/// The name of a token kind as diagnostics print it: the variant's name.
pub open spec fn kind_name(kind: TokenKind) -> Seq<char> {
    match kind {
        TokenKind::Identifier => "Identifier"@,
        TokenKind::StringLiteral => "StringLiteral"@,
        TokenKind::IntegerLiteral => "IntegerLiteral"@,
        TokenKind::RealLiteral => "RealLiteral"@,
        TokenKind::Eof => "Eof"@,
        TokenKind::Error => "Error"@,
        TokenKind::Var => "Var"@,
        TokenKind::And => "And"@,
        TokenKind::Or => "Or"@,
        TokenKind::Not => "Not"@,
        TokenKind::If => "If"@,
        TokenKind::Then => "Then"@,
        TokenKind::Else => "Else"@,
        TokenKind::Of => "Of"@,
        TokenKind::While => "While"@,
        TokenKind::Do => "Do"@,
        TokenKind::Begin => "Begin"@,
        TokenKind::End => "End"@,
        TokenKind::Array => "Array"@,
        TokenKind::Procedure => "Procedure"@,
        TokenKind::Function => "Function"@,
        TokenKind::Program => "Program"@,
        TokenKind::Assert => "Assert"@,
        TokenKind::Return => "Return"@,
        TokenKind::Plus => "Plus"@,
        TokenKind::Minus => "Minus"@,
        TokenKind::Multi => "Multi"@,
        TokenKind::Division => "Division"@,
        TokenKind::Modulo => "Modulo"@,
        TokenKind::Equal => "Equal"@,
        TokenKind::NotEqual => "NotEqual"@,
        TokenKind::SmallerThan => "SmallerThan"@,
        TokenKind::LargerThan => "LargerThan"@,
        TokenKind::ESmallerThan => "ESmallerThan"@,
        TokenKind::ELargerThan => "ELargerThan"@,
        TokenKind::OpenBracket => "OpenBracket"@,
        TokenKind::CloseBracket => "CloseBracket"@,
        TokenKind::OpenSquareBracket => "OpenSquareBracket"@,
        TokenKind::CloseSquareBracket => "CloseSquareBracket"@,
        TokenKind::Dot => "Dot"@,
        TokenKind::Colon => "Colon"@,
        TokenKind::Comma => "Comma"@,
        TokenKind::SemiColon => "SemiColon"@,
        TokenKind::Assign => "Assign"@,
    }
}

impl TokenKind {
    /// The kind's name as text.
    pub fn name(&self) -> (s: &'static str)
        ensures
            s@ == kind_name(*self),
    {
        match self {
            TokenKind::Identifier => "Identifier",
            TokenKind::StringLiteral => "StringLiteral",
            TokenKind::IntegerLiteral => "IntegerLiteral",
            TokenKind::RealLiteral => "RealLiteral",
            TokenKind::Eof => "Eof",
            TokenKind::Error => "Error",
            TokenKind::Var => "Var",
            TokenKind::And => "And",
            TokenKind::Or => "Or",
            TokenKind::Not => "Not",
            TokenKind::If => "If",
            TokenKind::Then => "Then",
            TokenKind::Else => "Else",
            TokenKind::Of => "Of",
            TokenKind::While => "While",
            TokenKind::Do => "Do",
            TokenKind::Begin => "Begin",
            TokenKind::End => "End",
            TokenKind::Array => "Array",
            TokenKind::Procedure => "Procedure",
            TokenKind::Function => "Function",
            TokenKind::Program => "Program",
            TokenKind::Assert => "Assert",
            TokenKind::Return => "Return",
            TokenKind::Plus => "Plus",
            TokenKind::Minus => "Minus",
            TokenKind::Multi => "Multi",
            TokenKind::Division => "Division",
            TokenKind::Modulo => "Modulo",
            TokenKind::Equal => "Equal",
            TokenKind::NotEqual => "NotEqual",
            TokenKind::SmallerThan => "SmallerThan",
            TokenKind::LargerThan => "LargerThan",
            TokenKind::ESmallerThan => "ESmallerThan",
            TokenKind::ELargerThan => "ELargerThan",
            TokenKind::OpenBracket => "OpenBracket",
            TokenKind::CloseBracket => "CloseBracket",
            TokenKind::OpenSquareBracket => "OpenSquareBracket",
            TokenKind::CloseSquareBracket => "CloseSquareBracket",
            TokenKind::Dot => "Dot",
            TokenKind::Colon => "Colon",
            TokenKind::Comma => "Comma",
            TokenKind::SemiColon => "SemiColon",
            TokenKind::Assign => "Assign",
        }
    }
}

/// A lexical unit: where it was read, its text, and its kind. Rows and
/// columns count from zero.
#[derive(Debug)]
pub struct Token {
    pub row: usize,
    pub column: usize,
    pub lexeme: String,
    pub token_kind: TokenKind,
}

/// A token as a mathematical value.
pub struct TokenModel {
    pub row: int,
    pub column: int,
    pub lexeme: Seq<char>,
    pub kind: TokenKind,
}

impl Token {
    pub open spec fn view(&self) -> TokenModel {
        TokenModel {
            row: self.row as int,
            column: self.column as int,
            lexeme: self.lexeme@,
            kind: self.token_kind,
        }
    }
}

impl Clone for Token {
    fn clone(&self) -> (res: Token)
        ensures
            res == *self,
    {
        Token {
            row: self.row,
            column: self.column,
            lexeme: self.lexeme.clone(),
            token_kind: self.token_kind,
        }
    }
}

} // verus!
