use mini_pascal::ast::{Expression, Statement, Subroutine, TypeDescription, Variable, AST};
use mini_pascal::parser::{build_parser, Parser};
use mini_pascal::scanner::build_scanner;
use mini_pascal::source::create_source;
use mini_pascal::symboltable::get_symbol_table;
use mini_pascal::token::TokenKind;
use mini_pascal::typedast::TypedAST;
use mini_pascal::typefolder::TypeFolder;

fn parser_of(text: &str) -> Parser {
    build_parser(build_scanner(create_source(String::from(text))))
}

fn parse(text: &str) -> (Option<AST>, Vec<String>) {
    let mut parser = parser_of(text);
    let ast = parser.program();
    (ast, parser.errors.clone())
}

fn compile(text: &str) -> (Option<TypedAST>, Vec<String>) {
    let (ast, errors) = parse(text);
    assert!(errors.is_empty(), "{:?}", errors);
    let mut folder = TypeFolder::new();
    let mut table = get_symbol_table();
    let typed = folder.fold_ast(&ast.unwrap(), &mut table);
    (typed, folder.get_errors().clone())
}

#[test]
fn parses_a_small_program() {
    let (ast, errors) = parse("program p;\nbegin\n  var x : integer;\n  x := 1 + 2;\nend.");
    assert!(errors.is_empty());
    match ast.unwrap() {
        AST::Program(name, subroutines, body) => {
            assert_eq!(name.lexeme, "p");
            assert!(subroutines.is_empty());
            assert_eq!(body.len(), 2);
            match &body[0] {
                Statement::Declaration(name, TypeDescription::Simple(type_id)) => {
                    assert_eq!(name.lexeme, "x");
                    assert_eq!((name.row, name.column), (2, 6));
                    assert_eq!(type_id.lexeme, "integer");
                }
                _ => panic!("not a declaration"),
            }
            match &body[1] {
                Statement::Assign(target, Expression::Binary(lhs, rhs, op)) => {
                    assert!(matches!(&**target, Variable::Simple(t) if t.lexeme == "x"));
                    assert!(matches!(&**lhs, Expression::Literal(t) if t.lexeme == "1"));
                    assert!(matches!(&**rhs, Expression::Literal(t) if t.lexeme == "2"));
                    assert_eq!(op.token_kind, TokenKind::Plus);
                }
                _ => panic!("not an assignment"),
            }
        }
    }
}

#[test]
fn a_text_that_is_no_program_is_reported() {
    let (ast, errors) = parse("begin end.");
    assert!(ast.is_none());
    assert_eq!(
        errors,
        vec![String::from(
            "Syntax error: Program does not start with program On line: 1, column: 1."
        )]
    );
}

#[test]
fn a_missing_semicolon_behind_the_name_is_reported() {
    let (ast, errors) = parse("program p begin end.");
    assert!(ast.is_none());
    assert_eq!(
        errors,
        vec![String::from("Syntax error: Expected SemiColon got Begin On line: 1, column: 11.")]
    );
}

#[test]
fn a_block_that_does_not_end_is_reported() {
    let (ast, errors) = parse("program p;\nbegin\n  var x : integer;");
    assert!(ast.is_none());
    assert_eq!(errors.len(), 2);
    assert!(errors[0].starts_with("Syntax error: Unexpected eof"));
    assert!(errors[1].starts_with("Syntax error: Program does not start with program"));
}

#[test]
fn parses_procedures_and_functions() {
    let text = "program p;\n\
        procedure show(n : integer, s : string);\nbegin\n  writeln(n, s);\nend;\n\
        function twice(n : integer) : integer;\nbegin\n  return n * 2;\nend;\n\
        begin\n  show(twice(2), \"x\");\nend.";
    let (ast, errors) = parse(text);
    assert!(errors.is_empty(), "{:?}", errors);
    match ast.unwrap() {
        AST::Program(_, subroutines, body) => {
            assert_eq!(subroutines.len(), 2);
            match &subroutines[0] {
                Subroutine::Procedure(name, parameters, body) => {
                    assert_eq!(name.lexeme, "show");
                    assert_eq!(parameters.len(), 2);
                    assert_eq!(parameters[1].0.lexeme, "s");
                    assert_eq!(body.len(), 1);
                }
                _ => panic!("not a procedure"),
            }
            match &subroutines[1] {
                Subroutine::Function(name, parameters, body, out_type) => {
                    assert_eq!(name.lexeme, "twice");
                    assert_eq!(parameters.len(), 1);
                    assert_eq!(body.len(), 1);
                    assert!(
                        matches!(out_type, TypeDescription::Simple(t) if t.lexeme == "integer")
                    );
                }
                _ => panic!("not a function"),
            }
            assert!(matches!(&body[0], Statement::Call(name, arguments)
                if name.lexeme == "show" && arguments.len() == 2));
        }
    }
}

#[test]
fn parses_control_statements_arrays_and_calls() {
    let text = "program p;\nbegin\n\
        var a : array[3] of integer;\n\
        var i : integer;\n\
        i := 0;\n\
        while i < a.size do begin a[i] := i; i := i + 1; end;\n\
        if not (i = 3) then assert(false) else return;\n\
        end.";
    let (ast, errors) = parse(text);
    assert!(errors.is_empty(), "{:?}", errors);
    match ast.unwrap() {
        AST::Program(_, _, body) => {
            assert_eq!(body.len(), 5);
            assert!(matches!(&body[0], Statement::Declaration(_, TypeDescription::Array(t, _))
                if t.lexeme == "integer"));
            match &body[3] {
                Statement::While(Expression::Binary(_, rhs, op), body) => {
                    assert_eq!(op.token_kind, TokenKind::SmallerThan);
                    assert!(matches!(&**rhs, Expression::Call(name, arguments)
                        if name.lexeme == "size" && arguments.len() == 1));
                    assert!(matches!(&**body, Statement::Block(statements)
                        if statements.len() == 2));
                }
                _ => panic!("not a while"),
            }
            match &body[4] {
                Statement::If(Expression::Unary(_, op), then_branch, Some(else_branch)) => {
                    assert_eq!(op.token_kind, TokenKind::Not);
                    assert!(matches!(&**then_branch, Statement::Assert(_, _)));
                    assert!(matches!(&**else_branch, Statement::Return(_, None)));
                }
                _ => panic!("not an if"),
            }
        }
    }
}

#[test]
fn a_bad_statement_is_reported_and_parsing_goes_on() {
    let (ast, errors) = parse("program p;\nbegin\n  x;\n  var y : integer;\nend.");
    assert_eq!(
        errors,
        vec![String::from(
            "Syntax error: Statement consisting of only a variable On line: 3, column: 5."
        )]
    );
    match ast.unwrap() {
        AST::Program(_, _, body) => assert_eq!(body.len(), 1),
    }
}

#[test]
fn text_to_typed_tree() {
    let (typed, errors) = compile(
        "program p;\nbegin\n  var x : integer;\n  x := 5;\nend.",
    );
    assert!(errors.is_empty());
    assert!(typed.is_some());

    let (typed, errors) = compile(
        "program p;\nbegin\n  var x : integer;\n  x := \"s\";\nend.",
    );
    assert!(typed.is_none());
    assert_eq!(
        errors,
        vec![String::from("Semantic error: Mismatched types in assigment on line 4, column 3.")]
    );

    let (typed, errors) = compile(
        "program p;\nbegin\n  var x : integer;\n  var x : integer;\nend.",
    );
    assert!(typed.is_none());
    assert_eq!(
        errors,
        vec![String::from("Semantic error: Variable declared twice on line 4, column 7.")]
    );

    let (typed, errors) = compile(
        "program p;\nfunction f(n : integer) : integer;\nbegin\n  n := 1;\nend;\nbegin\nend.",
    );
    assert!(typed.is_none());
    assert_eq!(
        errors,
        vec![String::from(
            "Semantic error: No return statement of correct type found in function on line 2, column 10."
        )]
    );
}

fn syntax_messages(text: &str) -> Vec<String> {
    let (_, errors) = parse(text);
    errors
        .iter()
        .map(|error| match error.strip_prefix("Syntax error: ") {
            Some(rest) => String::from(&rest[..rest.rfind(" On line: ").unwrap()]),
            None => error.clone(),
        })
        .collect()
}

fn in_a_block(statement: &str) -> String {
    format!("program p;\nbegin\n{}\nend.", statement)
}

fn first_message(statement: &str) -> String {
    syntax_messages(&in_a_block(statement))[0].clone()
}

#[test]
fn every_fault_of_the_grammar_has_its_diagnostic() {
    assert_eq!(first_message("while x < 1 x := 1;"), "Expected Do got Identifier");
    assert_eq!(first_message("if x < 1 x := 1;"), "Expected Then got Identifier");
    assert_eq!(first_message("var x : ;"), "No type given");
    assert_eq!(first_message("var a : array[2] integer;"), "Expected Of got Identifier");
    assert_eq!(
        first_message("var a : array 2 of integer;"),
        "Expected OpenSquareBracket got IntegerLiteral"
    );
    assert_eq!(first_message("var a : array[2] of 3;"), "Missing simple type for array type");
    assert_eq!(first_message("f(1) := 2;"), "Can't assign to a call.");
    assert_eq!(first_message("x := a[1;"), "Expected CloseSquareBracket got SemiColon");
    assert_eq!(first_message("x := (1 + 2;"), "Expected CloseBracket got SemiColon");
    assert_eq!(first_message("assert x;"), "Expected OpenBracket got Identifier");
    assert_eq!(first_message("assert(x;"), "Expected CloseBracket got SemiColon");
    assert_eq!(first_message("x := f(1, 2;"), "Expected CloseBracket got SemiColon");
    assert_eq!(first_message("+;"), "Statement can not start with +");
    assert_eq!(first_message("x"), "Statement consisting of only a variable");
}

#[test]
fn a_factor_that_cannot_start_is_reported_and_passed() {
    let messages = syntax_messages(&in_a_block("x := * 2;"));
    assert_eq!(messages[0], "Cant create factor from Multi");
    let messages = syntax_messages(&in_a_block("x := not ;"));
    assert_eq!(
        messages[..2],
        [
            String::from("Cant create factor from SemiColon"),
            String::from("Expected right hand side for unary")
        ]
    );
}

#[test]
fn parsing_ends_on_every_text() {
    for text in [
        "",
        "program",
        "program p",
        "program p;",
        "program p; function",
        "program p; function f",
        "program p; function f(",
        "program p; procedure q(a : integer",
        "program p; begin",
        "program p; begin if",
        "program p; begin while x do",
        "program p; begin x := \"open",
        "program p; begin {* open comment",
        "program p; begin x := ((((",
        "program p; begin begin begin",
        "program p; begin x.y.z end.",
        "program p; begin f(,,,) end.",
        "\u{0}\u{1}\u{7f}",
    ] {
        let (ast, errors) = parse(text);
        assert!(ast.is_some() || !errors.is_empty(), "{:?}", text);
    }
}
