use mini_pascal::constants::{contains_word, get_keywords, get_special_symbols};
use mini_pascal::opkind::{string_as_opkind, BoolArithmetic, NumArithmetic, OpKind, Relational};
use mini_pascal::text::{decimal_string, push_decimal};
use mini_pascal::token::{Token, TokenKind};

#[test]
fn decimal_notation() {
    assert_eq!(decimal_string(0), "0");
    assert_eq!(decimal_string(7), "7");
    assert_eq!(decimal_string(10), "10");
    assert_eq!(decimal_string(1905), "1905");
    assert_eq!(decimal_string(u128::MAX), "340282366920938463463374607431768211455");
    let mut text = String::from("n = ");
    push_decimal(&mut text, 42);
    assert_eq!(text, "n = 42");
}

#[test]
fn operators_from_their_lexemes() {
    let read = |text: &str| string_as_opkind(&String::from(text));
    assert_eq!(read("+"), Some(OpKind::Addition));
    assert_eq!(read("-"), Some(OpKind::NumArithmetic(NumArithmetic::Minus)));
    assert_eq!(read("*"), Some(OpKind::NumArithmetic(NumArithmetic::Multi)));
    assert_eq!(read("/"), Some(OpKind::NumArithmetic(NumArithmetic::Division)));
    assert_eq!(read("%"), Some(OpKind::Modulo));
    assert_eq!(read("="), Some(OpKind::Relational(Relational::Equal)));
    assert_eq!(read("<>"), Some(OpKind::Relational(Relational::NotEqual)));
    assert_eq!(read("<"), Some(OpKind::Relational(Relational::Smaller)));
    assert_eq!(read("<="), Some(OpKind::Relational(Relational::SmallerE)));
    assert_eq!(read(">="), Some(OpKind::Relational(Relational::LargerE)));
    assert_eq!(read(">"), Some(OpKind::Relational(Relational::Larger)));
    assert_eq!(read("or"), Some(OpKind::BoolArithmetic(BoolArithmetic::Or)));
    assert_eq!(read("and"), Some(OpKind::BoolArithmetic(BoolArithmetic::And)));
    assert_eq!(read("not"), None);
    assert_eq!(read(""), None);
    assert_eq!(read("=="), None);
}

#[test]
fn the_vocabulary() {
    let keywords = get_keywords();
    assert_eq!(keywords.len(), 18);
    assert!(contains_word(&keywords, "begin"));
    assert!(contains_word(&keywords, "then"));
    assert!(!contains_word(&keywords, "Begin"));
    assert!(!contains_word(&keywords, "integer"));
    let symbols = get_special_symbols();
    assert_eq!(symbols.len(), 20);
    assert!(contains_word(&symbols, ":="));
    assert!(contains_word(&symbols, "<>"));
    assert!(!contains_word(&symbols, "=="));
}

#[test]
fn kind_names_and_token_copies() {
    assert_eq!(TokenKind::SemiColon.name(), "SemiColon");
    assert_eq!(TokenKind::ESmallerThan.name(), "ESmallerThan");
    assert_eq!(TokenKind::Eof.name(), "Eof");
    let token = Token {
        row: 3,
        column: 9,
        lexeme: String::from("x"),
        token_kind: TokenKind::Identifier,
    };
    let copy = token.clone();
    assert_eq!((copy.row, copy.column), (3, 9));
    assert_eq!(copy.lexeme, "x");
    assert_eq!(copy.token_kind, TokenKind::Identifier);
}
