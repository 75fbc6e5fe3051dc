//! The parser: recursive descent over the tokens of the scanner, one token
//! of lookahead. A construct that cannot be parsed is reported and comes
//! out as nothing; parsing goes on behind it.

use vstd::prelude::*;
use crate::ast::{
    expression_trees,
    lemma_block_tree,
    lemma_call_tree,
    parameter_trees,
    statement_trees,
    subroutine_trees,
    Expression,
    ExpressionTree,
    ProgramTree,
    Statement,
    StatementTree,
    Subroutine,
    SubroutineTree,
    TypeDescription,
    TypeTree,
    Variable,
    AST,
};
use crate::grammar::{
    parse_arguments,
    parse_assert,
    parse_assign_or_call,
    parse_block,
    parse_declaration,
    parse_expression,
    parse_factor,
    parse_function,
    parse_if,
    parse_more_arguments,
    parse_more_parameters,
    parse_parameters,
    parse_procedure,
    parse_program,
    parse_return,
    parse_routine_block,
    parse_simple_expression,
    parse_statement,
    parse_statements,
    parse_subroutines,
    parse_term,
    parse_type_construct,
    parse_variable_or_call,
    parse_while,
    Parsed,
    ParserModel,
};
use crate::scanner::Scanner;
use crate::text::push_decimal;
use crate::token::{Token, TokenKind};

verus! {

/// An expression came out as the grammar says, in the state that the
/// grammar says.
pub open spec fn expression_parsed(
    result: Option<Expression>,
    state: ParserModel,
    parsed: Parsed<ExpressionTree>,
) -> bool {
    &&& state == parsed.state
    &&& match result {
        Some(tree) => parsed.value == Some(tree@),
        None => parsed.value is None,
    }
}

/// A statement came out as the grammar says, in the state that the grammar
/// says.
pub open spec fn statement_parsed(
    result: Option<Statement>,
    state: ParserModel,
    parsed: Parsed<StatementTree>,
) -> bool {
    &&& state == parsed.state
    &&& match result {
        Some(tree) => parsed.value == Some(tree@),
        None => parsed.value is None,
    }
}

/// A type came out as the grammar says, in the state that the grammar says.
pub open spec fn type_parsed(
    result: Option<TypeDescription>,
    state: ParserModel,
    parsed: Parsed<TypeTree>,
) -> bool {
    &&& state == parsed.state
    &&& match result {
        Some(tree) => parsed.value == Some(tree@),
        None => parsed.value is None,
    }
}

/// A subroutine came out as the grammar says, in the state that the grammar
/// says.
pub open spec fn subroutine_parsed(
    result: Option<Subroutine>,
    state: ParserModel,
    parsed: Parsed<SubroutineTree>,
) -> bool {
    &&& state == parsed.state
    &&& match result {
        Some(tree) => parsed.value == Some(tree@),
        None => parsed.value is None,
    }
}

/// A program came out as the grammar says, in the state that the grammar
/// says.
pub open spec fn program_parsed(
    result: Option<AST>,
    state: ParserModel,
    parsed: Parsed<ProgramTree>,
) -> bool {
    &&& state == parsed.state
    &&& match result {
        Some(tree) => parsed.value == Some(tree@),
        None => parsed.value is None,
    }
}

/// The parser: the scanner, the token it looks at, and its diagnostics.
pub struct Parser {
    scanner: Scanner,
    current_token: Token,
    ctt: TokenKind,
    pub errors: Vec<String>,
}

impl Parser {
    /// The state of the parse.
    #[verifier::opaque]
    pub closed spec fn view(&self) -> ParserModel {
        ParserModel {
            current: self.current_token@,
            source: self.scanner.source(),
            errors: Seq::new(self.errors@.len(), |i: int| self.errors@[i]@),
        }
    }

    /// The kind that the parser keeps at hand is the kind of the token that
    /// it looks at.
    #[verifier::opaque]
    pub closed spec fn tracks(&self) -> bool {
        self.ctt == self.current_token.token_kind
    }

    /// The parser is in a state that its own operations produce.
    pub open spec fn wf(&self) -> bool {
        &&& self@.wf()
        &&& self.tracks()
    }

    /// The kind of the token that the parser looks at.
    fn kind(&self) -> (kind: TokenKind)
        requires
            self.wf(),
        ensures
            kind == self@.current.kind,
    {
        proof {
            reveal(Parser::tracks);
            reveal(Parser::view);
        }
        self.ctt
    }

    /// A copy of the token that the parser looks at.
    fn token(&self) -> (token: Token)
        ensures
            token@ == self@.current,
    {
        proof {
            reveal(Parser::view);
        }
        self.current_token.clone()
    }

    /// The parser went on from `before`: it is well-formed, nothing more is
    /// left to parse than was, and no diagnostic was lost.
    pub open spec fn went_on(&self, before: &Parser) -> bool {
        &&& self.wf()
        &&& self@.went_on(before@)
        &&& before@.errors.len() <= self@.errors.len()
    }

    /// The parser went on from `before` and took at least one token.
    pub open spec fn took(&self, before: &Parser) -> bool {
        &&& self.went_on(before)
        &&& self@.left() < before@.left()
    }

    fn next_token(&mut self)
        requires
            old(self).wf(),
        ensures
            final(self).went_on(old(self)),
            final(self)@ == old(self)@.advance(),
            old(self)@.current.kind != TokenKind::Eof ==> final(self)@.left() < old(self)@.left(),
            old(self)@.current.kind == TokenKind::Eof ==> final(self)@.current.kind
                == TokenKind::Eof,
    {
        proof {
            reveal(Parser::tracks);
            reveal(Parser::view);
            self@.lemma_advance();
            reveal(ParserModel::wf);
            reveal(ParserModel::left);
            reveal(ParserModel::advance);
        }
        self.current_token = self.scanner.get_next_token();
        self.ctt = self.current_token.token_kind;
    }

    fn skip_delimiter(&mut self, kind: TokenKind) -> (res: Result<(), String>)
        requires
            old(self).wf(),
        ensures
            final(self).went_on(old(self)),
            res is Ok <==> old(self)@.at(kind),
            res is Ok ==> final(self)@ == old(self)@.advance(),
            res is Ok && kind != TokenKind::Eof ==> final(self)@.left() < old(self)@.left(),
            res matches Err(message) ==> message@ == old(self)@.expected(kind) && final(self)@
                == old(self)@,
    {
        let found = self.kind();
        if kind == found {
            self.next_token();
            Ok(())
        } else {
            let mut message = String::from_str("Expected ");
            message.append(kind.name());
            message.append(" got ");
            message.append(found.name());
            Err(message)
        }
    }

    fn handle_error(&mut self, msg: &str)
        requires
            old(self).wf(),
        ensures
            final(self).went_on(old(self)),
            final(self)@ == old(self)@.report(msg@),
    {
        proof {
            self@.lemma_report(msg@);
            reveal(Parser::view);
        }
        let mut complete_message = String::from_str("Syntax error: ");
        complete_message.append(msg);
        complete_message.append(" On line: ");
        push_decimal(&mut complete_message, self.current_token.row as u128 + 1);
        complete_message.append(", column: ");
        push_decimal(&mut complete_message, self.current_token.column as u128 + 1);
        complete_message.append(".");
        self.push_error(complete_message);
    }

    /// Adds a diagnostic as it stands.
    fn push_error(&mut self, message: String)
        requires
            old(self).wf(),
        ensures
            final(self).went_on(old(self)),
            final(self)@ == old(self)@.push(message@),
    {
        proof {
            self@.lemma_report(message@);
            reveal(Parser::tracks);
            reveal(Parser::view);
        }
        self.errors.push(message);
        assert(self@.errors =~= old(self)@.errors.push(message@));
    }

    /// Parses a program: the word `program`, its name, a semicolon, the
    /// subroutines, and the main block. Whenever the result is nothing, at
    /// least one diagnostic was added.
    pub fn program(&mut self) -> (res: Option<AST>)
        requires
            old(self).wf(),
        ensures
            program_parsed(res, final(self)@, parse_program(old(self)@)),
            final(self).went_on(old(self)),
            res is None ==> final(self)@.errors.len() > old(self)@.errors.len(),
    {
        proof {
            reveal(parse_program);
        }
        self.next_token();
        if let TokenKind::Program = self.kind() {
            self.next_token();
            if let TokenKind::Identifier = self.kind() {
                let id = self.token();
                self.next_token();
                if let Err(msg) = self.skip_delimiter(TokenKind::SemiColon) {
                    self.handle_error(msg.as_str());
                    return None;
                }
                if let Some(subroutines) = self.functions_and_procedures() {
                    if let Some(main_block) = self.block() {
                        proof {
                            lemma_block_tree(main_block);
                        }
                        if let Statement::Block(block) = main_block {
                            return Some(AST::Program(id, subroutines, block));
                        }
                    }
                }
            }
        }
        self.handle_error("Program does not start with program");
        None
    }

    fn functions_and_procedures(&mut self) -> (res: Option<Vec<Subroutine>>)
        requires
            old(self).wf(),
        ensures
            final(self)@ == parse_subroutines(old(self)@, Seq::empty()).state,
            match res {
                Some(list) => parse_subroutines(old(self)@, Seq::empty()).value == Some(
                    subroutine_trees(list@),
                ),
                None => parse_subroutines(old(self)@, Seq::empty()).value is None,
            },
            final(self).went_on(old(self)),
            res is None ==> final(self)@.current.kind == TokenKind::Eof,
    {
        proof {
            reveal(parse_subroutines);
        }
        let mut subroutines: Vec<Subroutine> = Vec::new();
        assert(subroutine_trees(subroutines@) =~= Seq::empty());
        loop
            invariant_except_break
                parse_subroutines(self@, subroutine_trees(subroutines@)) == parse_subroutines(
                    old(self)@,
                    Seq::empty(),
                ),
            invariant
                self.went_on(old(self)),
            ensures
                parse_subroutines(old(self)@, Seq::empty()) == (Parsed {
                    value: Some(subroutine_trees(subroutines@)),
                    state: self@,
                }),
            decreases self@.left(),
        {
            let ghost before = subroutines@;
            proof {
                reveal(parse_subroutines);
            }
            match self.kind() {
                TokenKind::Function => {
                    if let Some(f) = self.function() {
                        subroutines.push(f);
                        assert(subroutine_trees(subroutines@) =~= subroutine_trees(before).push(f@));
                    }
                },
                TokenKind::Procedure => {
                    if let Some(p) = self.procedure() {
                        subroutines.push(p);
                        assert(subroutine_trees(subroutines@) =~= subroutine_trees(before).push(p@));
                    }
                },
                TokenKind::Eof => {
                    return None;
                },
                _ => {
                    break ;
                },
            }
        }
        Some(subroutines)
    }

    fn parameters(&mut self) -> (res: Option<Vec<(Token, TypeDescription)>>)
        requires
            old(self).wf(),
        ensures
            final(self)@ == parse_parameters(old(self)@).1,
            res matches Some(list) && parameter_trees(list@) == parse_parameters(old(self)@).0,
            final(self).went_on(old(self)),
            old(self)@.current.kind != TokenKind::Eof ==> final(self)@.left() < old(self)@.left(),
            res is Some,
    {
        proof {
            reveal(parse_parameters);
            reveal(parse_more_parameters);
        }
        let mut parameters: Vec<(Token, TypeDescription)> = Vec::new();
        self.next_token();
        assert(parameter_trees(parameters@) =~= Seq::empty());
        loop
            invariant_except_break
                parse_more_parameters(self@, parameter_trees(parameters@))
                    == parse_more_parameters(old(self)@.advance(), Seq::empty()),
            invariant
                self.went_on(old(self)),
                old(self)@.current.kind != TokenKind::Eof ==> self@.left() < old(self)@.left(),
            ensures
                (parameter_trees(parameters@), self@) == parse_more_parameters(
                    old(self)@.advance(),
                    Seq::empty(),
                ),
            decreases self@.left(),
        {
            let ghost before = parameters@;
            proof {
                reveal(parse_more_parameters);
            }
            match self.kind() {
                TokenKind::Identifier => {
                    let id = self.token();
                    self.next_token();
                    if let Err(msg) = self.skip_delimiter(TokenKind::Colon) {
                        self.handle_error(msg.as_str());
                    } else {
                        if let Some(type_construct) = self.type_construct() {
                            let param = (id, type_construct);
                            parameters.push(param);
                            assert(parameter_trees(parameters@) =~= parameter_trees(before).push(
                                (id@, type_construct@),
                            ));
                        }
                    }
                },
                TokenKind::Comma => self.next_token(),
                TokenKind::CloseBracket => {
                    self.next_token();
                    break ;
                },
                _ => {
                    break ;
                },
            }
        }
        Some(parameters)
    }

    /// Parses a function: the word `function`, its name, its parameters in
    /// brackets, a colon and the type it returns, a semicolon, its block, and
    /// a semicolon.
    fn function(&mut self) -> (res: Option<Subroutine>)
        requires
            old(self).wf(),
            old(self)@.current.kind != TokenKind::Eof,
        ensures
            subroutine_parsed(res, final(self)@, parse_function(old(self)@)),
            final(self).took(old(self)),
    {
        proof {
            reveal(parse_function);
            reveal(parse_routine_block);
        }
        self.next_token();
        if let TokenKind::Identifier = self.kind() {
            let token = self.token();
            self.next_token();
            if let Some(parameters) = self.parameters() {
                if let Err(msg) = self.skip_delimiter(TokenKind::Colon) {
                    self.handle_error(msg.as_str());
                } else if let Some(out_type) = self.type_construct() {
                    if let Err(msg) = self.skip_delimiter(TokenKind::SemiColon) {
                        self.handle_error(msg.as_str());
                    } else {
                        if let Some(block) = self.block() {
                            proof {
                                lemma_block_tree(block);
                            }
                            if let Statement::Block(is_block_ok) = block {
                                if let Err(msg) = self.skip_delimiter(TokenKind::SemiColon) {
                                    self.handle_error(msg.as_str());
                                }
                                return Some(
                                    Subroutine::Function(token, parameters, is_block_ok, out_type),
                                );
                            }
                        }
                    }
                }
            }
        }
        return None;
    }

    fn procedure(&mut self) -> (res: Option<Subroutine>)
        requires
            old(self).wf(),
            old(self)@.current.kind != TokenKind::Eof,
        ensures
            subroutine_parsed(res, final(self)@, parse_procedure(old(self)@)),
            final(self).took(old(self)),
    {
        proof {
            reveal(parse_procedure);
            reveal(parse_routine_block);
        }
        self.next_token();
        if let TokenKind::Identifier = self.kind() {
            let token = self.token();
            self.next_token();
            if let Some(parameters) = self.parameters() {
                if let Err(msg) = self.skip_delimiter(TokenKind::SemiColon) {
                    self.handle_error(msg.as_str());
                } else {
                    if let Some(block) = self.block() {
                        proof {
                            lemma_block_tree(block);
                        }
                        if let Statement::Block(is_block_ok) = block {
                            if let Err(msg) = self.skip_delimiter(TokenKind::SemiColon) {
                                self.handle_error(msg.as_str());
                            }
                            return Some(Subroutine::Procedure(token, parameters, is_block_ok));
                        }
                    }
                }
            }
        }
        return None;
    }

    fn block(&mut self) -> (res: Option<Statement>)
        requires
            old(self).wf(),
        ensures
            statement_parsed(res, final(self)@, parse_block(old(self)@)),
            final(self).went_on(old(self)),
            old(self)@.current.kind != TokenKind::Eof ==> final(self)@.left() < old(self)@.left(),
            res matches Some(statement) ==> statement is Block,
            res is None ==> final(self)@.errors.len() > old(self)@.errors.len(),
        decreases old(self)@.left(), 9nat,
    {
        proof {
            reveal(parse_block);
            reveal(parse_statements);
            reveal(parse_statement);
        }
        self.next_token();
        let mut statements: Vec<Statement> = Vec::new();
        assert(statement_trees(statements@) =~= Seq::empty());
        loop
            invariant_except_break
                parse_statements(self@, statement_trees(statements@)) == parse_block(old(self)@),
            invariant
                self.went_on(old(self)),
                old(self)@.current.kind != TokenKind::Eof ==> self@.left() < old(self)@.left(),
                old(self)@.current.kind == TokenKind::Eof ==> self@.current.kind
                    == TokenKind::Eof,
            ensures
                parse_block(old(self)@) == (Parsed {
                    value: Some(StatementTree::Block(statement_trees(statements@))),
                    state: self@,
                }),
            decreases self@.left(),
        {
            let ghost before = statements@;
            proof {
                reveal(parse_statements);
                reveal(parse_statement);
                self@.lemma_left();
            }
            match self.kind() {
                TokenKind::End => {
                    self.next_token();
                    break ;
                },
                TokenKind::SemiColon => self.next_token(),
                TokenKind::Eof => {
                    self.handle_error("Unexpected eof");
                    return None;
                },
                _ => {
                    if let Some(statement) = self.statement() {
                        statements.push(statement);
                        assert(statement_trees(statements@) =~= statement_trees(before).push(
                            statement@,
                        ));
                    } else {
                        proof {
                            self@.lemma_left();
                        }
                        self.next_token();
                        proof {
                            self@.lemma_left();
                        }
                    }
                },
            };
        }
        let block = Statement::Block(statements);
        proof {
            lemma_block_tree(block);
        }
        Some(block)
    }

    fn statement(&mut self) -> (res: Option<Statement>)
        requires
            old(self).wf(),
        ensures
            statement_parsed(res, final(self)@, parse_statement(old(self)@)),
            final(self).went_on(old(self)),
            res is Some ==> final(self)@.left() < old(self)@.left(),
        decreases old(self)@.left(), 10nat,
    {
        proof {
            reveal(parse_statement);
            reveal(parse_block);
            reveal(parse_while);
            reveal(parse_if);
        }
        match self.kind() {
            TokenKind::Var => self.declaration_stmnt(),
            TokenKind::Identifier => self.assign_or_call_stmnt(),
            TokenKind::If => self.if_stmnt(),
            TokenKind::While => self.while_stmnt(),
            TokenKind::Begin => self.block(),
            TokenKind::Return => self.return_stmnt(),
            TokenKind::Assert => self.assert_stmnt(),
            _ => {
                let mut text = String::from_str("Statement can not start with ");
                text.append(self.token().lexeme.as_str());
                self.handle_error(text.as_str());
                None
            },
        }
    }

    fn while_stmnt(&mut self) -> (res: Option<Statement>)
        requires
            old(self).wf(),
            old(self)@.current.kind == TokenKind::While,
        ensures
            statement_parsed(res, final(self)@, parse_while(old(self)@)),
            final(self).took(old(self)),
        decreases old(self)@.left(), 9nat,
    {
        proof {
            reveal(parse_while);
            reveal(parse_statement);
        }
        if let TokenKind::While = self.kind() {
            self.next_token();
            if let Some(expression) = self.expression() {
                if let Err(msg) = self.skip_delimiter(TokenKind::Do) {
                    self.handle_error(msg.as_str());
                } else if let Some(statement) = self.statement() {
                    return Some(Statement::While(expression, Box::new(statement)));
                } else {
                    self.handle_error("Missing while body");
                }
            }
        }
        None
    }

    fn if_stmnt(&mut self) -> (res: Option<Statement>)
        requires
            old(self).wf(),
            old(self)@.current.kind == TokenKind::If,
        ensures
            statement_parsed(res, final(self)@, parse_if(old(self)@)),
            final(self).took(old(self)),
        decreases old(self)@.left(), 9nat,
    {
        proof {
            reveal(parse_if);
            reveal(parse_statement);
        }
        if let TokenKind::If = self.kind() {
            self.next_token();
            if let Some(expression) = self.expression() {
                if let Err(msg) = self.skip_delimiter(TokenKind::Then) {
                    self.handle_error(msg.as_str());
                    return None;
                } else if let Some(statement) = self.statement() {
                    if let TokenKind::Else = self.kind() {
                        self.next_token();
                        if let Some(else_statement) = self.statement() {
                            return Some(
                                Statement::If(
                                    expression,
                                    Box::new(statement),
                                    Some(Box::new(else_statement)),
                                ),
                            );
                        }
                        self.handle_error("Missing else body");
                        return None;
                    } else {
                        return Some(Statement::If(expression, Box::new(statement), None));
                    }
                }
            } else {
                self.handle_error("If with no condition");
            }
        }
        None
    }

    fn type_construct(&mut self) -> (res: Option<TypeDescription>)
        requires
            old(self).wf(),
        ensures
            type_parsed(res, final(self)@, parse_type_construct(old(self)@)),
            final(self).went_on(old(self)),
            res is Some ==> final(self)@.left() < old(self)@.left(),
        decreases old(self)@.left(), 6nat,
    {
        proof {
            reveal(parse_type_construct);
        }
        match self.kind() {
            TokenKind::Identifier => {
                let type_token = self.token();
                self.next_token();
                Some(TypeDescription::Simple(type_token))
            },
            TokenKind::Array => {
                self.next_token();
                if let Err(msg) = self.skip_delimiter(TokenKind::OpenSquareBracket) {
                    self.push_error(msg);
                    None
                } else if let Some(expression) = self.expression() {
                    if let Err(msg) = self.skip_delimiter(TokenKind::CloseSquareBracket) {
                        self.push_error(msg);
                        None
                    } else if let Err(msg) = self.skip_delimiter(TokenKind::Of) {
                        self.push_error(msg);
                        None
                    } else if let TokenKind::Identifier = self.kind() {
                        let type_token = self.token();
                        self.next_token();
                        Some(TypeDescription::Array(type_token, expression))
                    } else {
                        self.handle_error("Missing simple type for array type");
                        None
                    }
                } else {
                    None
                }
            },
            _ => {
                self.push_error(String::from_str("No type given"));
                None
            },
        }
    }

    fn declaration_stmnt(&mut self) -> (res: Option<Statement>)
        requires
            old(self).wf(),
            old(self)@.current.kind == TokenKind::Var,
        ensures
            statement_parsed(res, final(self)@, parse_declaration(old(self)@)),
            final(self).took(old(self)),
        decreases old(self)@.left(), 9nat,
    {
        proof {
            reveal(parse_declaration);
        }
        if let TokenKind::Var = self.kind() {
            self.next_token();
            if let TokenKind::Identifier = self.kind() {
                let id_token = self.token();
                self.next_token();
                if let Err(msg) = self.skip_delimiter(TokenKind::Colon) {
                    self.handle_error(msg.as_str());
                    return None;
                } else {
                    if let Some(type_description) = self.type_construct() {
                        return Some(Statement::Declaration(id_token, type_description));
                    }
                }
            }
        }
        None
    }

    fn assign_or_call_stmnt(&mut self) -> (res: Option<Statement>)
        requires
            old(self).wf(),
            old(self)@.current.kind == TokenKind::Identifier,
        ensures
            statement_parsed(res, final(self)@, parse_assign_or_call(old(self)@)),
            final(self).took(old(self)),
        decreases old(self)@.left(), 9nat,
    {
        proof {
            reveal(parse_assign_or_call);
        }
        match self.variable_or_call() {
            None => None,
            Some(id_construct) => {
                proof {
                    lemma_call_tree(id_construct);
                }
                match self.kind() {
                    TokenKind::Assign => match id_construct {
                        Expression::Variable(variable) => {
                            self.next_token();
                            if let Some(expression) = self.expression() {
                                Some(Statement::Assign(variable, expression))
                            } else {
                                None
                            }
                        },
                        Expression::Call(_token, _params) => {
                            self.push_error(String::from_str("Can't assign to a call."));
                            None
                        },
                        _ => None,
                    },
                    _ => match id_construct {
                        Expression::Variable(_variable) => {
                            let msg = "Statement consisting of only a variable";
                            self.handle_error(msg);
                            None
                        },
                        Expression::Call(node, args) => Some(Statement::Call(node, args)),
                        _ => None,
                    },
                }
            },
        }
    }

    fn assert_stmnt(&mut self) -> (res: Option<Statement>)
        requires
            old(self).wf(),
            old(self)@.current.kind == TokenKind::Assert,
        ensures
            statement_parsed(res, final(self)@, parse_assert(old(self)@)),
            final(self).took(old(self)),
        decreases old(self)@.left(), 9nat,
    {
        proof {
            reveal(parse_assert);
        }
        let main_token = self.token();
        self.next_token();
        if let Err(msg) = self.skip_delimiter(TokenKind::OpenBracket) {
            self.handle_error(msg.as_str());
            return None;
        }
        if let Some(expression) = self.expression() {
            if let Err(msg) = self.skip_delimiter(TokenKind::CloseBracket) {
                self.handle_error(msg.as_str());
                None
            } else {
                Some(Statement::Assert(main_token, expression))
            }
        } else {
            let text = "Assert requires expression";
            self.handle_error(text);
            None
        }
    }

    fn return_stmnt(&mut self) -> (res: Option<Statement>)
        requires
            old(self).wf(),
            old(self)@.current.kind == TokenKind::Return,
        ensures
            statement_parsed(res, final(self)@, parse_return(old(self)@)),
            final(self).took(old(self)),
        decreases old(self)@.left(), 9nat,
    {
        proof {
            reveal(parse_return);
        }
        if let TokenKind::Return = self.kind() {
            let token = self.token();
            self.next_token();
            let expression = if !(self.kind() == TokenKind::SemiColon) {
                self.expression()
            } else {
                None
            };
            Some(Statement::Return(token, expression))
        } else {
            None
        }
    }

    #[verifier::spinoff_prover]
    fn expression(&mut self) -> (res: Option<Expression>)
        requires
            old(self).wf(),
        ensures
            expression_parsed(res, final(self)@, parse_expression(old(self)@)),
            final(self).went_on(old(self)),
            res is Some ==> final(self)@.left() < old(self)@.left(),
        decreases old(self)@.left(), 5nat,
    {
        proof {
            reveal(parse_expression);
            reveal(parse_simple_expression);
        }
        match self.simple_expression() {
            Some(left_sub_expr) => match self.kind() {
                TokenKind::Equal
                | TokenKind::SmallerThan
                | TokenKind::NotEqual
                | TokenKind::LargerThan
                | TokenKind::ESmallerThan
                | TokenKind::ELargerThan => {
                    let expr_token = self.token();
                    self.next_token();
                    if let Some(right_sub_expr) = self.simple_expression() {
                        Some(
                            Expression::Binary(
                                Box::new(left_sub_expr),
                                Box::new(right_sub_expr),
                                expr_token,
                            ),
                        )
                    } else {
                        None
                    }
                },
                _ => Some(left_sub_expr),
            },
            None => None,
        }
    }

    #[verifier::spinoff_prover]
    fn simple_expression(&mut self) -> (res: Option<Expression>)
        requires
            old(self).wf(),
        ensures
            expression_parsed(res, final(self)@, parse_simple_expression(old(self)@)),
            final(self).went_on(old(self)),
            res is Some ==> final(self)@.left() < old(self)@.left(),
        decreases old(self)@.left(), 4nat,
    {
        proof {
            reveal(parse_simple_expression);
            reveal(parse_term);
        }
        match self.term() {
            Some(left_term) => match self.kind() {
                TokenKind::Plus | TokenKind::Minus | TokenKind::Or => {
                    let op_token = self.token();
                    self.next_token();
                    if let Some(right_term) = self.term() {
                        Some(
                            Expression::Binary(Box::new(left_term), Box::new(right_term), op_token),
                        )
                    } else {
                        None
                    }
                },
                _ => Some(left_term),
            },
            None => None,
        }
    }

    fn term(&mut self) -> (res: Option<Expression>)
        requires
            old(self).wf(),
        ensures
            expression_parsed(res, final(self)@, parse_term(old(self)@)),
            final(self).went_on(old(self)),
            res is Some ==> final(self)@.left() < old(self)@.left(),
        decreases old(self)@.left(), 3nat,
    {
        proof {
            reveal(parse_term);
            reveal(parse_factor);
        }
        match self.factor() {
            Some(lhs_node) => match self.kind() {
                TokenKind::Multi | TokenKind::Division | TokenKind::Modulo | TokenKind::And => {
                    let term_token = self.token();
                    self.next_token();
                    if let Some(rhs_node) = self.factor() {
                        Some(Expression::Binary(Box::new(lhs_node), Box::new(rhs_node), term_token))
                    } else {
                        None
                    }
                },
                _ => Some(lhs_node),
            },
            None => None,
        }
    }

    #[verifier::spinoff_prover]
    fn factor(&mut self) -> (res: Option<Expression>)
        requires
            old(self).wf(),
        ensures
            expression_parsed(res, final(self)@, parse_factor(old(self)@)),
            final(self).went_on(old(self)),
            res is Some ==> final(self)@.left() < old(self)@.left(),
        decreases old(self)@.left(), 2nat,
    {
        proof {
            reveal(parse_factor);
            reveal(parse_variable_or_call);
            reveal(parse_expression);
        }
        match self.kind() {
            TokenKind::Identifier => match self.variable_or_call() {
                Some(id_construct) => match id_construct {
                    Expression::Call(token, args) => Some(Expression::Call(token, args)),
                    Expression::Variable(node) => Some(Expression::Variable(node)),
                    _ => None,
                },
                None => None,
            },
            TokenKind::RealLiteral | TokenKind::StringLiteral | TokenKind::IntegerLiteral => {
                let token = self.token();
                self.next_token();
                Some(Expression::Literal(token))
            },
            TokenKind::OpenBracket => {
                self.next_token();
                let node = match self.expression() {
                    Some(expr_node) => Some(expr_node),
                    None => None,
                };
                match self.skip_delimiter(TokenKind::CloseBracket) {
                    Ok(_delim) => node,
                    Err(msg) => {
                        self.handle_error(msg.as_str());
                        None
                    },
                }
            },
            TokenKind::Not => {
                let token = self.token();
                self.next_token();
                if let Some(rhs_node) = self.factor() {
                    Some(Expression::Unary(Box::new(rhs_node), token))
                } else {
                    self.handle_error("Expected right hand side for unary");
                    None
                }
            },
            _ => {
                let mut text = String::from_str("Cant create factor from ");
                text.append(self.kind().name());
                self.handle_error(text.as_str());
                self.next_token();
                None
            },
        }
    }

    #[verifier::spinoff_prover]
    fn variable_or_call(&mut self) -> (res: Option<Expression>)
        requires
            old(self).wf(),
        ensures
            expression_parsed(res, final(self)@, parse_variable_or_call(old(self)@)),
            final(self).went_on(old(self)),
            old(self)@.current.kind == TokenKind::Identifier ==> final(self)@.left() < old(
                self,
            )@.left(),
            res is Some ==> final(self)@.left() < old(self)@.left(),
            res matches Some(expression) ==> expression is Variable || expression is Call,
        decreases old(self)@.left(), 1nat,
    {
        proof {
            reveal(parse_variable_or_call);
            reveal(parse_expression);
            reveal(parse_arguments);
        }
        match self.kind() {
            TokenKind::Identifier => {
                let old_token = self.token();
                self.next_token();
                match self.kind() {
                    TokenKind::OpenSquareBracket => {
                        self.next_token();
                        if let Some(expr) = self.expression() {
                            if let Err(msg) = self.skip_delimiter(TokenKind::CloseSquareBracket) {
                                self.handle_error(msg.as_str());
                                None
                            } else {
                                let variable = Variable::Indexed(old_token, expr);
                                assert(variable@ == crate::ast::VariableTree::Indexed(
                                    old_token@,
                                    expr@,
                                ));
                                Some(Expression::Variable(Box::new(variable)))
                            }
                        } else {
                            self.handle_error("Missing array index expression");
                            None
                        }
                    },
                    TokenKind::OpenBracket => {
                        if let Some(args) = self.arguments() {
                            let call = Expression::Call(old_token, args);
                            proof {
                                lemma_call_tree(call);
                            }
                            Some(call)
                        } else {
                            None
                        }
                    },
                    TokenKind::Dot => {
                        self.next_token();
                        let mut args = Vec::new();
                        args.push(Expression::Variable(Box::new(Variable::Simple(old_token))));
                        if let TokenKind::Identifier = self.kind() {
                            let id_token = self.token();
                            self.next_token();
                            let call = Expression::Call(id_token, args);
                            proof {
                                lemma_call_tree(call);
                                assert(args@.len() == 1);
                                assert(args@[0] == Expression::Variable(
                                    Box::new(Variable::Simple(old_token)),
                                ));
                                assert(args@[0]@ == ExpressionTree::Variable(
                                    Box::new(Variable::Simple(old_token)@),
                                ));
                                assert(Variable::Simple(old_token)@
                                    == crate::ast::VariableTree::Simple(old_token@));
                                assert(expression_trees(args@) =~= seq![
                                    ExpressionTree::Variable(
                                        Box::new(crate::ast::VariableTree::Simple(old_token@)),
                                    ),
                                ]);
                            }
                            Some(call)
                        } else {
                            None
                        }
                    },
                    _ => {
                        let variable = Variable::Simple(old_token);
                        assert(variable@ == crate::ast::VariableTree::Simple(old_token@));
                        Some(Expression::Variable(Box::new(variable)))
                    },
                }
            },
            _ => None,
        }
    }

    fn arguments(&mut self) -> (res: Option<Vec<Expression>>)
        requires
            old(self).wf(),
        ensures
            final(self)@ == parse_arguments(old(self)@).state,
            match res {
                Some(list) => parse_arguments(old(self)@).value == Some(expression_trees(list@)),
                None => parse_arguments(old(self)@).value is None,
            },
            final(self).went_on(old(self)),
            res is Some ==> final(self)@.left() < old(self)@.left(),
        decreases old(self)@.left(), 0nat,
    {
        proof {
            reveal(parse_arguments);
            reveal(parse_more_arguments);
            reveal(parse_expression);
        }
        match self.kind() {
            TokenKind::OpenBracket => {
                let mut arguments: Vec<Expression> = Vec::new();
                assert(expression_trees(arguments@) =~= Seq::empty());
                self.next_token();
                match self.kind() {
                    TokenKind::CloseBracket => {
                        self.next_token();
                        Some(arguments)
                    },
                    _ => {
                        if let Some(expr) = self.expression() {
                            arguments.push(expr);
                            let ghost first = self@;
                            assert(expression_trees(arguments@) =~= seq![expr@]);
                            loop
                                invariant_except_break
                                    parse_more_arguments(self@, expression_trees(arguments@))
                                        == parse_more_arguments(first, seq![expr@]),
                                invariant
                                    self.went_on(old(self)),
                                    self@.left() < old(self)@.left(),
                                ensures
                                    (expression_trees(arguments@), self@) == parse_more_arguments(
                                        first,
                                        seq![expr@],
                                    ),
                                decreases self@.left(),
                            {
                                let ghost before = arguments@;
                                proof {
                                    reveal(parse_more_arguments);
                                    reveal(parse_expression);
                                }
                                if let TokenKind::Comma = self.kind() {
                                    self.next_token();
                                    if let Some(expr) = self.expression() {
                                        arguments.push(expr);
                                        assert(expression_trees(arguments@) =~= expression_trees(
                                            before,
                                        ).push(expr@));
                                    }
                                } else {
                                    break ;
                                }
                            }
                        }
                        if let Err(msg) = self.skip_delimiter(TokenKind::CloseBracket) {
                            self.push_error(msg)
                        }
                        Some(arguments)
                    },
                }
            },
            _ => None,
        }
    }
}

/// A parser at the start of the tokens of a scanner, with nothing reported.
pub fn build_parser(scanner: Scanner) -> (parser: Parser)
    requires
        scanner.wf(),
    ensures
        parser.wf(),
        parser@.source == scanner.source(),
        parser@.errors == Seq::<Seq<char>>::empty(),
        parser@.current.kind == TokenKind::Error,
{
    let parser = Parser {
        scanner,
        errors: Vec::new(),
        current_token: Token {
            token_kind: TokenKind::Error,
            lexeme: String::from_str(""),
            column: 0,
            row: 0,
        },
        ctt: TokenKind::Error,
    };
    proof {
        reveal(Parser::tracks);
        reveal(Parser::view);
        reveal(ParserModel::wf);
    }
    assert(parser@.errors =~= Seq::<Seq<char>>::empty());
    parser
}

} // verus!
