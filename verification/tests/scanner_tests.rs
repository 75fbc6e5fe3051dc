use mini_pascal::scanner::{build_scanner, Scanner};
use mini_pascal::source::create_source;
use mini_pascal::token::TokenKind;

fn variant_eq<T>(a: &T, b: &T) -> bool {
    std::mem::discriminant(a) == std::mem::discriminant(b)
}

fn get_scanner(text: String) -> Scanner {
    let s = create_source(text);
    build_scanner(s)
}

#[test]
fn test_scan_identifier() {
    let text = String::from("variable_name_12345;\n");
    let mut scanner = get_scanner(text);
    let t = scanner.get_next_token();
    let ok_lexeme = String::from("variable_name_12345");
    let ok_t_type = TokenKind::Identifier;
    assert_eq!(ok_lexeme, t.lexeme);
    assert!(variant_eq(&ok_t_type, &t.token_kind));
}

#[test]
fn test_scan_real_literal() {
    let text = String::from("3.14159");
    let mut scanner = get_scanner(text);
    let t = scanner.get_next_token();
    assert!(variant_eq(&TokenKind::RealLiteral, &t.token_kind));
    assert_eq!("3.14159", t.lexeme.as_str());
}

#[test]
fn test_scan_real_literal_with_exponent() {
    let text = String::from("3.14159e+10");
    let mut scanner = get_scanner(text);
    let t = scanner.get_next_token();
    assert!(variant_eq(&TokenKind::RealLiteral, &t.token_kind));
    assert_eq!("3.14159e+10", t.lexeme.as_str());
}

#[test]
fn test_scan_string_literal() {
    let text = String::from("\"lit string\"");
    let mut scanner = get_scanner(text);
    let t = scanner.get_next_token();
    assert!(variant_eq(&TokenKind::StringLiteral, &t.token_kind));
    assert_eq!("\"lit string\"", t.lexeme.as_str());
}

#[test]
fn test_scan_declaration_stmnt() {
    let text = String::from("var MAXIMIUM_POWER_999: integer := 99999;\n");
    let mut scanner = get_scanner(text);
    let ok_tokens = vec![
        (TokenKind::Var, "var"),
        (TokenKind::Identifier, "maximium_power_999"),
        (TokenKind::Colon, ":"),
        (TokenKind::Identifier, "integer"),
        (TokenKind::Assign, ":="),
        (TokenKind::IntegerLiteral, "99999"),
        (TokenKind::SemiColon, ";"),
    ];
    for ok in ok_tokens {
        let token = scanner.get_next_token();
        assert!(variant_eq(&ok.0, &token.token_kind));
        assert_eq!(ok.1, token.lexeme.as_str());
    }
}

#[test]
fn test_screen_multiline_comments() {
    let text = String::from(
        "{* This is a minipascal comment \n {* nested comment *} *} \n var i: int;",
    );
    let mut scanner = get_scanner(text);
    let token = scanner.get_next_token();
    assert_eq!("var", token.lexeme.as_str());
}

#[test]
fn test_screen_singleline_comments() {
    let text = String::from("// This is a minipascal comment\nvar i: int;");
    let mut scanner = get_scanner(text);
    let token = scanner.get_next_token();
    assert_eq!("var", token.lexeme.as_str());
}

#[test]
fn test_scan_not_equal() {
    let text = String::from("<>");
    let mut scanner = get_scanner(text);
    let t = scanner.get_next_token();
    assert!(variant_eq(&TokenKind::NotEqual, &t.token_kind));
    assert_eq!("<>", t.lexeme.as_str());
}

#[test]
fn end_of_source_gives_eof_again_and_again() {
    let mut scanner = get_scanner(String::from("  x  "));
    let x = scanner.get_next_token();
    assert_eq!(x.token_kind, TokenKind::Identifier);
    assert_eq!((x.row, x.column), (0, 2));
    let first = scanner.get_next_token();
    assert_eq!(first.token_kind, TokenKind::Eof);
    assert_eq!(first.lexeme, "eof");
    let second = scanner.get_next_token();
    assert_eq!(second.token_kind, TokenKind::Eof);
}

#[test]
fn unknown_character_gives_an_error_token_and_is_passed() {
    let mut scanner = get_scanner(String::from("?a"));
    let bad = scanner.get_next_token();
    assert_eq!(bad.token_kind, TokenKind::Error);
    assert_eq!(bad.lexeme, "");
    let a = scanner.get_next_token();
    assert_eq!(a.token_kind, TokenKind::Identifier);
    assert_eq!(a.lexeme, "a");
}

#[test]
fn keywords_are_told_from_identifiers_by_their_spelling() {
    let mut scanner = get_scanner(String::from("while WHILE whiles"));
    assert_eq!(scanner.get_next_token().token_kind, TokenKind::While);
    let upper = scanner.get_next_token();
    assert_eq!(upper.token_kind, TokenKind::Identifier);
    assert_eq!(upper.lexeme, "while");
    assert_eq!(scanner.get_next_token().token_kind, TokenKind::Identifier);
}

#[test]
fn integer_before_a_point_without_digits_stays_an_integer() {
    let mut scanner = get_scanner(String::from("12.x"));
    let number = scanner.get_next_token();
    assert_eq!(number.token_kind, TokenKind::IntegerLiteral);
    assert_eq!(number.lexeme, "12");
    assert_eq!(scanner.get_next_token().token_kind, TokenKind::Dot);
}

#[test]
fn escapes_in_string_literals() {
    let mut scanner = get_scanner(String::from("\"a\\\"b\\n\" x"));
    let literal = scanner.get_next_token();
    assert_eq!(literal.token_kind, TokenKind::StringLiteral);
    assert_eq!(literal.lexeme, "\"a\"b\\n\"");
    assert_eq!(scanner.get_next_token().lexeme, "x");
}

#[test]
fn unterminated_string_literal_ends_with_the_source() {
    let mut scanner = get_scanner(String::from("\"abc"));
    let literal = scanner.get_next_token();
    assert_eq!(literal.token_kind, TokenKind::StringLiteral);
    assert_eq!(literal.lexeme, "\"abc\n");
    assert_eq!(scanner.get_next_token().token_kind, TokenKind::Eof);
}

#[test]
fn two_character_symbols() {
    let mut scanner = get_scanner(String::from("<= >= < > := : ="));
    let kinds = vec![
        TokenKind::ESmallerThan,
        TokenKind::ELargerThan,
        TokenKind::SmallerThan,
        TokenKind::LargerThan,
        TokenKind::Assign,
        TokenKind::Colon,
        TokenKind::Equal,
    ];
    for kind in kinds {
        assert_eq!(scanner.get_next_token().token_kind, kind);
    }
}
