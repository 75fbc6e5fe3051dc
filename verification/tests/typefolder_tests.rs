use mini_pascal::address::{Address, AddressData};
use mini_pascal::ast::{Expression, Statement, Subroutine, TypeDescription, Variable, AST};
use mini_pascal::opkind::{OpKind, Relational};
use mini_pascal::symboltable::{get_symbol_table, ConstructCategory};
use mini_pascal::token::{Token, TokenKind};
use mini_pascal::typedast::{
    NodeType, SimpleType, TypedAST, TypedExpressionStructure, TypedStatement, TypedSubroutine,
    TypedTypeDescription, TypedVariableStructure,
};
use mini_pascal::typefolder::TypeFolder;

fn tok(kind: TokenKind, lexeme: &str, row: usize, column: usize) -> Token {
    Token { row, column, lexeme: String::from(lexeme), token_kind: kind }
}

fn id(name: &str) -> Token {
    tok(TokenKind::Identifier, name, 0, 0)
}

fn integer(text: &str) -> Expression {
    Expression::Literal(tok(TokenKind::IntegerLiteral, text, 0, 0))
}

fn text_literal(text: &str) -> Expression {
    Expression::Literal(tok(TokenKind::StringLiteral, text, 0, 0))
}

fn variable(name: &str) -> Expression {
    Expression::Variable(Box::new(Variable::Simple(id(name))))
}

fn binary(lhs: Expression, op: TokenKind, lexeme: &str, rhs: Expression) -> Expression {
    Expression::Binary(Box::new(lhs), Box::new(rhs), tok(op, lexeme, 0, 0))
}

fn declare(name: &str, type_id: &str) -> Statement {
    Statement::Declaration(id(name), TypeDescription::Simple(id(type_id)))
}

fn declare_array(name: &str, length: Expression, type_id: &str) -> Statement {
    Statement::Declaration(id(name), TypeDescription::Array(id(type_id), length))
}

fn assign(name: &str, value: Expression) -> Statement {
    Statement::Assign(Box::new(Variable::Simple(id(name))), value)
}

fn program(subroutines: Vec<Subroutine>, body: Vec<Statement>) -> AST {
    AST::Program(id("p"), subroutines, body)
}

fn fold(ast: &AST) -> (Option<TypedAST>, Vec<String>) {
    let mut folder = TypeFolder::new();
    let mut table = get_symbol_table();
    let typed = folder.fold_ast(ast, &mut table);
    (typed, folder.get_errors().clone())
}

fn body_of(typed: Option<TypedAST>) -> Vec<TypedStatement> {
    match typed.unwrap() {
        TypedAST::Program(_, _, body) => body,
    }
}

#[test]
fn assignment_round_trip() {
    let ast = program(vec![], vec![declare("x", "integer"), assign("x", integer("5"))]);
    let (typed, errors) = fold(&ast);
    assert!(errors.is_empty());
    let body = body_of(typed);
    assert_eq!(body.len(), 2);
    match &body[0] {
        TypedStatement::Declaration(variable, TypedTypeDescription::Simple(node_type)) => {
            assert_eq!(variable.node_type, NodeType::Simple(SimpleType::Integer));
            assert_eq!(*node_type, NodeType::Simple(SimpleType::Integer));
            assert_eq!(variable.address, Address::new_simple(3));
        }
        _ => panic!("not a declaration"),
    }
    match &body[1] {
        TypedStatement::Assign(target, value) => {
            assert_eq!(target.node_type, NodeType::Simple(SimpleType::Integer));
            assert_eq!(target.address, Address::new_simple(3));
            assert_eq!(value.node_type, NodeType::Simple(SimpleType::Integer));
            assert_eq!(value.address, Address::new_simple(4));
            assert!(matches!(value.substructure, TypedExpressionStructure::Literal));
        }
        _ => panic!("not an assignment"),
    }
}

#[test]
fn assignment_type_mismatch_is_one_error() {
    let target = Variable::Simple(tok(TokenKind::Identifier, "x", 1, 4));
    let ast = program(
        vec![],
        vec![declare("x", "integer"), Statement::Assign(Box::new(target), text_literal("\"s\""))],
    );
    let (typed, errors) = fold(&ast);
    assert!(typed.is_none());
    assert_eq!(
        errors,
        vec![String::from("Semantic error: Mismatched types in assigment on line 2, column 5.")]
    );
}

#[test]
fn redeclaration_is_one_error_and_adds_nothing() {
    let mut folder = TypeFolder::new();
    let mut table = get_symbol_table();
    let second = Statement::Declaration(
        tok(TokenKind::Identifier, "x", 2, 0),
        TypeDescription::Simple(id("integer")),
    );
    let ast = program(vec![], vec![declare("x", "integer"), second, assign("x", integer("1"))]);
    let typed = folder.fold_ast(&ast, &mut table);
    assert!(typed.is_none());
    assert_eq!(
        folder.get_errors().clone(),
        vec![String::from("Semantic error: Variable declared twice on line 3, column 1.")]
    );
}

#[test]
fn shadowing_in_a_nested_block() {
    let inner = Statement::Block(vec![declare("x", "string"), assign("x", text_literal("\"s\""))]);
    let ast = program(vec![], vec![declare("x", "integer"), inner, assign("x", integer("1"))]);
    let (typed, errors) = fold(&ast);
    assert!(errors.is_empty());
    let body = body_of(typed);
    let outer = Address::new_simple(3);
    match &body[1] {
        TypedStatement::Block(scope, statements) => {
            assert_eq!(*scope, 2);
            match &statements[1] {
                TypedStatement::Assign(target, _) => {
                    assert_eq!(target.node_type, NodeType::Simple(SimpleType::String));
                    assert_ne!(target.address, outer);
                }
                _ => panic!("not an assignment"),
            }
        }
        _ => panic!("not a block"),
    }
    match &body[2] {
        TypedStatement::Assign(target, _) => {
            assert_eq!(target.node_type, NodeType::Simple(SimpleType::Integer));
            assert_eq!(target.address, outer);
        }
        _ => panic!("not an assignment"),
    }
}

#[test]
fn indexing_with_a_non_integer_and_indexing_a_non_array_differ() {
    let bad_index = Statement::Assign(
        Box::new(Variable::Indexed(id("a"), variable("true"))),
        integer("1"),
    );
    let ast = program(vec![], vec![declare_array("a", integer("3"), "integer"), bad_index]);
    let (typed, errors) = fold(&ast);
    assert!(typed.is_none());
    assert_eq!(
        errors,
        vec![String::from("Semantic error: Array index must be integer on line 1, column 1.")]
    );

    let not_array = Statement::Assign(
        Box::new(Variable::Indexed(id("y"), integer("0"))),
        integer("1"),
    );
    let ast = program(vec![], vec![declare("y", "integer"), not_array]);
    let (typed, errors) = fold(&ast);
    assert!(typed.is_none());
    assert_eq!(
        errors,
        vec![String::from("Semantic error: Indexing of simple variable on line 1, column 1.")]
    );
}

#[test]
fn indexed_variable_has_the_element_type_and_a_computed_address() {
    let element = Statement::Assign(
        Box::new(Variable::Indexed(id("a"), integer("0"))),
        integer("1"),
    );
    let ast = program(vec![], vec![declare_array("a", integer("3"), "integer"), element]);
    let (typed, errors) = fold(&ast);
    assert!(errors.is_empty());
    let body = body_of(typed);
    match &body[0] {
        TypedStatement::Declaration(variable, TypedTypeDescription::Array(node_type, length)) => {
            assert_eq!(variable.node_type, NodeType::ArrayOf(SimpleType::Integer));
            assert_eq!(*node_type, NodeType::ArrayOf(SimpleType::Integer));
            assert_eq!(length.address, Address::new_simple(3));
            assert_eq!(variable.address, Address::new_simple(4));
        }
        _ => panic!("not an array declaration"),
    }
    match &body[1] {
        TypedStatement::Assign(target, _) => {
            assert_eq!(target.node_type, NodeType::Simple(SimpleType::Integer));
            assert_eq!(target.address.data, AddressData::Indexed(4, 5));
            assert!(matches!(target.substructure, TypedVariableStructure::Indexed(_)));
        }
        _ => panic!("not an assignment"),
    }
}

fn fold_expression_statement(expression: Expression, type_id: &str) -> (Option<TypedAST>, Vec<String>) {
    let ast = program(vec![], vec![declare("r", type_id), assign("r", expression)]);
    fold(&ast)
}

#[test]
fn operator_legality() {
    let minus = binary(text_literal("\"a\""), TokenKind::Minus, "-", text_literal("\"b\""));
    let (typed, errors) = fold_expression_statement(minus, "string");
    assert!(typed.is_none());
    assert_eq!(
        errors,
        vec![String::from("Semantic error: Bad operator for string on line 1, column 1.")]
    );

    let plus = binary(text_literal("\"a\""), TokenKind::Plus, "+", text_literal("\"b\""));
    let (typed, errors) = fold_expression_statement(plus, "string");
    assert!(errors.is_empty());
    match &body_of(typed)[1] {
        TypedStatement::Assign(_, value) => {
            assert_eq!(value.node_type, NodeType::Simple(SimpleType::String));
        }
        _ => panic!("not an assignment"),
    }

    let equal = binary(integer("1"), TokenKind::Equal, "=", integer("2"));
    let (typed, errors) = fold_expression_statement(equal, "boolean");
    assert!(errors.is_empty());
    match &body_of(typed)[1] {
        TypedStatement::Assign(_, value) => {
            assert_eq!(value.node_type, NodeType::Simple(SimpleType::Boolean));
            match &value.substructure {
                TypedExpressionStructure::Binary(op, _, _) => {
                    assert_eq!(*op, OpKind::Relational(Relational::Equal));
                }
                _ => panic!("not a binary expression"),
            }
        }
        _ => panic!("not an assignment"),
    }
}

#[test]
fn integer_and_real_do_not_mix_and_remainder_is_for_integers() {
    let real = Expression::Literal(tok(TokenKind::RealLiteral, "1.5", 0, 0));
    let mixed = binary(integer("1"), TokenKind::Plus, "+", real);
    let (typed, errors) = fold_expression_statement(mixed, "integer");
    assert!(typed.is_none());
    assert_eq!(
        errors,
        vec![String::from("Semantic error: Mismatched operand types on line 1, column 1.")]
    );

    let real = |text: &str| Expression::Literal(tok(TokenKind::RealLiteral, text, 0, 0));
    let modulo = binary(real("1.5"), TokenKind::Modulo, "%", real("2.5"));
    let (typed, errors) = fold_expression_statement(modulo, "real");
    assert!(typed.is_none());
    assert_eq!(
        errors,
        vec![String::from("Semantic error: Bad operator for real on line 1, column 1.")]
    );

    let and = binary(integer("1"), TokenKind::And, "and", integer("2"));
    let (typed, errors) = fold_expression_statement(and, "integer");
    assert!(typed.is_none());
    assert_eq!(errors.len(), 1);
}

fn function(body: Vec<Statement>) -> Subroutine {
    Subroutine::Function(
        tok(TokenKind::Identifier, "f", 4, 9),
        vec![(id("n"), TypeDescription::Simple(id("integer")))],
        body,
        TypeDescription::Simple(id("integer")),
    )
}

#[test]
fn function_return_checking() {
    let missing = program(vec![function(vec![assign("n", integer("1"))])], vec![]);
    let (typed, errors) = fold(&missing);
    assert!(typed.is_none());
    assert_eq!(
        errors,
        vec![String::from(
            "Semantic error: No return statement of correct type found in function on line 5, column 10."
        )]
    );

    let returning = program(
        vec![function(vec![
            assign("n", integer("1")),
            Statement::Return(tok(TokenKind::Return, "return", 0, 0), Some(integer("0"))),
        ])],
        vec![],
    );
    let (typed, errors) = fold(&returning);
    assert!(errors.is_empty());
    match typed.unwrap() {
        TypedAST::Program(_, subroutines, _) => match &subroutines[0] {
            TypedSubroutine::Function(address, parameters, body, out_type) => {
                assert_eq!(*address, Address::new_simple(3));
                assert_eq!(parameters.len(), 1);
                assert_eq!(parameters[0].0.address, Address::new_simple(4));
                assert_eq!(body.len(), 2);
                assert!(matches!(
                    out_type,
                    TypedTypeDescription::Simple(NodeType::Simple(SimpleType::Integer))
                ));
            }
            _ => panic!("not a function"),
        },
    }
}

#[test]
fn return_of_another_type_or_in_a_nested_branch() {
    let wrong = program(
        vec![function(vec![Statement::Return(
            tok(TokenKind::Return, "return", 0, 0),
            Some(text_literal("\"s\"")),
        )])],
        vec![],
    );
    let (typed, errors) = fold(&wrong);
    assert!(typed.is_none());
    assert_eq!(errors.len(), 1);

    let nested = Statement::If(
        variable("true"),
        Box::new(Statement::Block(vec![declare("y", "integer")])),
        Some(Box::new(Statement::While(
            variable("false"),
            Box::new(Statement::Return(tok(TokenKind::Return, "return", 0, 0), Some(integer("0")))),
        ))),
    );
    let (typed, errors) = fold(&program(vec![function(vec![nested])], vec![]));
    assert!(errors.is_empty());
    assert!(typed.is_some());
}

#[test]
fn size_takes_one_array() {
    let on_simple = program(
        vec![],
        vec![
            declare("x", "integer"),
            declare("n", "integer"),
            assign("n", Expression::Call(id("size"), vec![variable("x")])),
        ],
    );
    let (typed, errors) = fold(&on_simple);
    assert!(typed.is_none());
    assert_eq!(
        errors,
        vec![String::from(
            "Semantic error: size takes one array as its argument on line 1, column 1."
        )]
    );

    let on_array = program(
        vec![],
        vec![
            declare_array("a", integer("3"), "string"),
            declare("n", "integer"),
            assign("n", Expression::Call(id("size"), vec![variable("a")])),
        ],
    );
    let (typed, errors) = fold(&on_array);
    assert!(errors.is_empty());
    match &body_of(typed)[2] {
        TypedStatement::Assign(_, value) => {
            assert_eq!(value.node_type, NodeType::Simple(SimpleType::Integer));
            match &value.substructure {
                TypedExpressionStructure::Size(address) => {
                    assert_eq!(*address, Address::new_simple(4));
                }
                _ => panic!("not a size"),
            }
        }
        _ => panic!("not an assignment"),
    }
}

fn procedure(name: &str, parameter_types: Vec<&str>, body: Vec<Statement>) -> Subroutine {
    let mut parameters = Vec::new();
    for (i, type_id) in parameter_types.iter().enumerate() {
        parameters.push((id(&format!("p{}", i)), TypeDescription::Simple(id(type_id))));
    }
    Subroutine::Procedure(id(name), parameters, body)
}

#[test]
fn calls_match_parameters_in_count_and_type() {
    let call = |arguments: Vec<Expression>| {
        program(
            vec![procedure("show", vec!["integer", "string"], vec![])],
            vec![Statement::Call(tok(TokenKind::Identifier, "show", 7, 2), arguments)],
        )
    };
    let (typed, errors) = fold(&call(vec![integer("1"), text_literal("\"s\"")]));
    assert!(errors.is_empty());
    match &body_of(typed)[0] {
        TypedStatement::Call(address, arguments) => {
            assert_eq!(*address, Address::new_simple(3));
            assert_eq!(arguments.len(), 2);
        }
        _ => panic!("not a call"),
    }

    let (typed, errors) = fold(&call(vec![integer("1")]));
    assert!(typed.is_none());
    assert_eq!(
        errors,
        vec![String::from(
            "Semantic error: Arguments length does not match parameters on line 8, column 3."
        )]
    );

    let (typed, errors) = fold(&call(vec![integer("1"), integer("2"), integer("3")]));
    assert!(typed.is_none());
    assert_eq!(errors.len(), 1);

    let (typed, errors) = fold(&call(vec![text_literal("\"s\""), text_literal("\"t\"")]));
    assert!(typed.is_none());
    assert_eq!(
        errors,
        vec![String::from(
            "Semantic error: Argument type does not match parameters on line 1, column 1."
        )]
    );
}

#[test]
fn function_as_statement_and_procedure_as_expression() {
    let returning = vec![Statement::Return(tok(TokenKind::Return, "return", 0, 0), Some(integer("0")))];
    let as_statement = program(
        vec![function(returning)],
        vec![Statement::Call(id("f"), vec![integer("1")])],
    );
    let (typed, errors) = fold(&as_statement);
    assert!(typed.is_none());
    assert_eq!(
        errors,
        vec![String::from(
            "Semantic error: Attempting to call Function as statement on line 1, column 1."
        )]
    );

    let as_expression = program(
        vec![procedure("show", vec![], vec![])],
        vec![declare("x", "integer"), assign("x", Expression::Call(id("show"), vec![]))],
    );
    let (typed, errors) = fold(&as_expression);
    assert!(typed.is_none());
    assert_eq!(
        errors,
        vec![String::from("Semantic error: show is not a function on line 1, column 1.")]
    );
}

#[test]
fn read_takes_variables_and_writeln_takes_anything() {
    let read_ok = program(
        vec![],
        vec![declare("x", "integer"), Statement::Call(id("read"), vec![variable("x")])],
    );
    let (typed, errors) = fold(&read_ok);
    assert!(errors.is_empty());
    match &body_of(typed)[1] {
        TypedStatement::Read(targets) => {
            assert_eq!(targets.len(), 1);
            assert_eq!(targets[0].address, Address::new_simple(3));
        }
        _ => panic!("not a read"),
    }

    let read_bad = program(vec![], vec![Statement::Call(id("read"), vec![integer("1")])]);
    let (typed, errors) = fold(&read_bad);
    assert!(typed.is_none());
    assert_eq!(
        errors,
        vec![String::from("Semantic error: Non variable argument in read on line 1, column 1.")]
    );

    let write = program(
        vec![],
        vec![
            declare_array("a", integer("2"), "real"),
            Statement::Call(id("writeln"), vec![integer("1"), text_literal("\"s\""), variable("a")]),
        ],
    );
    let (typed, errors) = fold(&write);
    assert!(errors.is_empty());
    assert!(matches!(&body_of(typed)[1], TypedStatement::Write(arguments) if arguments.len() == 3));
}

#[test]
fn conditions_must_be_boolean_and_bodies_are_folded_all_the_same() {
    let bad_body = assign("nowhere", integer("1"));
    let statement = Statement::If(integer("1"), Box::new(bad_body), None);
    let (typed, errors) = fold(&program(vec![], vec![statement]));
    assert!(typed.is_none());
    assert_eq!(
        errors,
        vec![
            String::from("Semantic error: If condition must be a Boolean on line 1, column 1."),
            String::from("Semantic error: Cant find variable nowhere on line 1, column 1."),
        ]
    );

    let statement = Statement::While(integer("1"), Box::new(Statement::Block(vec![])));
    let (typed, errors) = fold(&program(vec![], vec![statement]));
    assert!(typed.is_none());
    assert_eq!(
        errors,
        vec![String::from(
            "Semantic error: While condition must be of Boolean type on line 1, column 1."
        )]
    );

    let statement = Statement::Assert(tok(TokenKind::Assert, "assert", 3, 3), integer("1"));
    let (typed, errors) = fold(&program(vec![], vec![statement]));
    assert!(typed.is_none());
    assert_eq!(
        errors,
        vec![String::from(
            "Semantic error: Assert condition must be of Boolean type on line 4, column 4."
        )]
    );
}

#[test]
fn later_statements_are_folded_after_a_failure() {
    let ast = program(
        vec![],
        vec![assign("a", integer("1")), assign("b", integer("2")), declare("c", "nothing")],
    );
    let (typed, errors) = fold(&ast);
    assert!(typed.is_none());
    assert_eq!(
        errors,
        vec![
            String::from("Semantic error: Cant find variable a on line 1, column 1."),
            String::from("Semantic error: Cant find variable b on line 1, column 1."),
            String::from("Semantic error: Usage of an undeclared type on line 1, column 1."),
        ]
    );
}

#[test]
fn not_is_for_truth_values() {
    let not = |operand: Expression| Expression::Unary(Box::new(operand), tok(TokenKind::Not, "not", 0, 0));
    let (typed, errors) = fold_expression_statement(not(variable("true")), "boolean");
    assert!(errors.is_empty());
    assert!(typed.is_some());
    let (typed, errors) = fold_expression_statement(not(integer("1")), "boolean");
    assert!(typed.is_none());
    assert_eq!(
        errors,
        vec![String::from("Semantic error: not-operator is for Booleans only on line 1, column 1.")]
    );
}

#[test]
fn scopes_are_left_again_and_the_table_keeps_its_entries() {
    let mut folder = TypeFolder::new();
    let mut table = get_symbol_table();
    let ast = program(
        vec![procedure("show", vec!["integer"], vec![declare("y", "integer")])],
        vec![declare("x", "integer")],
    );
    assert!(folder.fold_ast(&ast, &mut table).is_some());
    assert_eq!(table.get_current_scope_number(), 0);
    let show = table.lookup(&String::from("show")).unwrap();
    match &show.category {
        ConstructCategory::Procedure(parameters) => {
            assert_eq!(parameters, &vec![NodeType::Simple(SimpleType::Integer)]);
        }
        _ => panic!("not a procedure"),
    }
    assert!(table.lookup(&String::from("x")).is_none());
    assert!(table.lookup(&String::from("y")).is_none());
    assert!(table.get_scope(1).unwrap().is_closed);
    assert!(!table.get_scope(2).unwrap().is_closed);
    assert!(!table.get_scope(3).unwrap().is_closed);
    assert_eq!(table.get_scope(2).unwrap().enclosing_scope_number, 1);
    assert_eq!(table.scope_count(), 4);
}

#[test]
fn room_for_a_program_is_checked_before_folding() {
    let ast = program(vec![], vec![declare("x", "integer")]);
    let folder = TypeFolder::new();
    let table = get_symbol_table();
    assert!(folder.fits(&ast, &table));
}

#[test]
fn folding_twice_from_fresh_state_gives_the_same_addresses() {
    let ast = program(
        vec![],
        vec![
            declare("x", "integer"),
            assign("x", binary(integer("1"), TokenKind::Plus, "+", variable("x"))),
        ],
    );
    let (first, _) = fold(&ast);
    let (second, _) = fold(&ast);
    let addresses = |typed: Option<TypedAST>| -> Vec<Address> {
        let mut all = Vec::new();
        for statement in body_of(typed) {
            match statement {
                TypedStatement::Declaration(variable, _) => all.push(variable.address),
                TypedStatement::Assign(target, value) => {
                    all.push(target.address);
                    all.push(value.address);
                }
                _ => {}
            }
        }
        all
    };
    let first = addresses(first);
    assert_eq!(first, addresses(second));
    assert_eq!(
        first,
        vec![Address::new_simple(3), Address::new_simple(3), Address::new_simple(5)]
    );
}

fn messages(errors: &[String]) -> Vec<String> {
    errors
        .iter()
        .map(|error| {
            let text = error.strip_prefix("Semantic error: ").unwrap();
            let end = text.rfind(" on line ").unwrap();
            String::from(&text[..end])
        })
        .collect()
}

fn diagnostics_of(body: Vec<Statement>) -> Vec<String> {
    let (typed, errors) = fold(&program(vec![], body));
    assert_eq!(typed.is_none(), !errors.is_empty());
    messages(&errors)
}

#[test]
fn every_fault_has_its_diagnostic() {
    let indexed = |name: &str| Variable::Indexed(id(name), integer("0"));
    assert_eq!(
        diagnostics_of(vec![Statement::Assign(Box::new(indexed("nowhere")), integer("1"))]),
        vec!["Usage of undeclared variable"]
    );
    assert_eq!(
        diagnostics_of(vec![declare("x", "integer"), declare("y", "x")]),
        vec!["Identifier does not refer to a type"]
    );
    assert_eq!(
        diagnostics_of(vec![declare_array("a", text_literal("\"3\""), "integer")]),
        vec!["Array size must be of type integer"]
    );
    assert_eq!(
        diagnostics_of(vec![declare_array("a", integer("3"), "nothing")]),
        vec!["Usage of an undeclared type"]
    );
    assert_eq!(
        diagnostics_of(vec![
            declare("b", "boolean"),
            assign("b", binary(variable("true"), TokenKind::Plus, "+", variable("false"))),
        ]),
        vec!["Bad operator for boolean"]
    );
    assert_eq!(
        diagnostics_of(vec![
            declare("i", "integer"),
            assign("i", binary(integer("1"), TokenKind::Or, "or", integer("2"))),
        ]),
        vec!["Bad operator for integer"]
    );
    assert_eq!(
        diagnostics_of(vec![
            declare_array("a", integer("2"), "integer"),
            declare_array("b", integer("2"), "integer"),
            assign("a", binary(variable("a"), TokenKind::Plus, "+", variable("b"))),
        ]),
        vec!["Bad operator for array"]
    );
    assert_eq!(
        diagnostics_of(vec![
            declare("i", "integer"),
            assign("i", binary(integer("1"), TokenKind::Error, "**", integer("2"))),
        ]),
        vec!["Unknown operator"]
    );
    assert_eq!(
        diagnostics_of(vec![
            declare("i", "integer"),
            assign(
                "i",
                Expression::Unary(Box::new(integer("1")), tok(TokenKind::Minus, "-", 0, 0)),
            ),
        ]),
        vec!["Unknown unary operator"]
    );
    assert_eq!(
        diagnostics_of(vec![
            declare("i", "integer"),
            assign("i", Expression::Literal(tok(TokenKind::Identifier, "x", 0, 0))),
        ]),
        vec!["Non literal parsed as one"]
    );
    assert_eq!(
        diagnostics_of(vec![
            declare("i", "integer"),
            assign("i", Expression::Call(id("nowhere"), vec![])),
        ]),
        vec!["Can't find function nowhere"]
    );
    assert_eq!(
        diagnostics_of(vec![
            declare("i", "integer"),
            assign("i", Expression::Call(id("i"), vec![])),
        ]),
        vec!["i is not a function"]
    );
    assert_eq!(
        diagnostics_of(vec![
            declare("i", "integer"),
            assign("i", Expression::Call(id("writeln"), vec![])),
        ]),
        vec!["writeln is not a function"]
    );
    assert_eq!(
        diagnostics_of(vec![Statement::Call(id("nowhere"), vec![])]),
        vec!["Call of undeclared name"]
    );
    assert_eq!(
        diagnostics_of(vec![declare("i", "integer"), Statement::Call(id("i"), vec![])]),
        vec!["Call of non subroutine name"]
    );
    assert_eq!(
        diagnostics_of(vec![
            declare_array("a", integer("2"), "integer"),
            Statement::Call(id("size"), vec![variable("a")]),
        ]),
        vec!["Attempting to call Function as statement"]
    );
    assert_eq!(
        diagnostics_of(vec![Statement::Call(
            id("writeln"),
            vec![variable("nowhere"), integer("1"), variable("nobody")],
        )]),
        vec!["Cant find variable nowhere", "Cant find variable nobody"]
    );
}

#[test]
fn a_function_type_and_its_parameters_are_checked() {
    let routine = |out_type: TypeDescription, parameters: Vec<(Token, TypeDescription)>| {
        program(
            vec![Subroutine::Function(
                id("f"),
                parameters,
                vec![Statement::Return(tok(TokenKind::Return, "return", 0, 0), Some(integer("0")))],
                out_type,
            )],
            vec![],
        )
    };
    let (typed, errors) = fold(&routine(TypeDescription::Simple(id("nothing")), vec![]));
    assert!(typed.is_none());
    assert_eq!(messages(&errors), vec!["Usage of an undeclared type"]);

    let (typed, errors) = fold(&routine(
        TypeDescription::Array(id("integer"), text_literal("\"n\"")),
        vec![],
    ));
    assert!(typed.is_none());
    assert_eq!(messages(&errors), vec!["Array size must be integer"]);

    let twice = vec![
        (id("n"), TypeDescription::Simple(id("integer"))),
        (id("n"), TypeDescription::Simple(id("integer"))),
        (id("m"), TypeDescription::Simple(id("nothing"))),
    ];
    let (typed, errors) = fold(&routine(TypeDescription::Simple(id("integer")), twice));
    assert!(typed.is_none());
    assert_eq!(
        messages(&errors),
        vec!["Variable declared twice", "Usage of an undeclared type"]
    );
}

fn addresses_in(typed: Option<TypedAST>) -> Vec<AddressData> {
    let mut all = Vec::new();
    for statement in body_of(typed) {
        match statement {
            TypedStatement::Declaration(variable, _) => all.push(variable.address.data),
            TypedStatement::Assign(target, value) => {
                all.push(target.address.data);
                all.push(value.address.data);
                if let TypedExpressionStructure::Binary(_, lhs, rhs) = value.substructure {
                    all.push(lhs.address.data);
                    all.push(rhs.address.data);
                }
            }
            _ => {}
        }
    }
    all
}

#[test]
fn a_pass_that_starts_later_moves_every_address_it_issues() {
    let second = || {
        program(
            vec![],
            vec![
                declare_array("a", integer("2"), "integer"),
                Statement::Assign(
                    Box::new(Variable::Indexed(id("a"), integer("0"))),
                    binary(integer("1"), TokenKind::Plus, "+", variable("true")),
                ),
            ],
        )
    };
    let mut fresh = TypeFolder::new();
    let from_the_start = fresh.fold_ast(&program(vec![], vec![
        declare_array("a", integer("2"), "integer"),
        Statement::Assign(
            Box::new(Variable::Indexed(id("a"), integer("0"))),
            binary(integer("1"), TokenKind::Plus, "+", integer("2")),
        ),
    ]), &mut get_symbol_table());
    assert_eq!(
        addresses_in(from_the_start),
        vec![
            AddressData::Simple(4),
            AddressData::Indexed(4, 5),
            AddressData::Simple(8),
            AddressData::Simple(6),
            AddressData::Simple(7),
        ]
    );

    let mut used = TypeFolder::new();
    let first = program(vec![], vec![declare("x", "integer"), assign("x", integer("1"))]);
    assert!(used.fold_ast(&first, &mut get_symbol_table()).is_some());
    let later = used.fold_ast(&second(), &mut get_symbol_table());
    assert!(later.is_none());
    assert_eq!(used.get_errors().len(), 1);

    let mut used = TypeFolder::new();
    assert!(used.fold_ast(&first, &mut get_symbol_table()).is_some());
    let later = used.fold_ast(&program(vec![], vec![
        declare_array("a", integer("2"), "integer"),
        Statement::Assign(
            Box::new(Variable::Indexed(id("a"), integer("0"))),
            binary(integer("1"), TokenKind::Plus, "+", integer("2")),
        ),
    ]), &mut get_symbol_table());
    assert_eq!(
        addresses_in(later),
        vec![
            AddressData::Simple(6),
            AddressData::Indexed(6, 7),
            AddressData::Simple(10),
            AddressData::Simple(8),
            AddressData::Simple(9),
        ]
    );
}
