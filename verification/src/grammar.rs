//! The grammar, as mathematics: what the parser makes of the tokens that
//! stand in a source. The state of a parse is the token that is looked at,
//! the source behind it, and the diagnostics so far.

use vstd::prelude::*;
use crate::ast::{
    ExpressionTree,
    ProgramTree,
    StatementTree,
    SubroutineTree,
    TypeTree,
    VariableTree,
};
use crate::scanner::{lemma_next_token, next_token};
use crate::source::SourceModel;
use crate::text::decimal;
use crate::token::{kind_name, TokenKind, TokenModel};

verus! {

/// The text of a diagnostic of the parser: the message, and the place
/// counted from one.
pub open spec fn syntax_error(message: Seq<char>, row: int, column: int) -> Seq<char> {
    "Syntax error: "@ + message + " On line: "@ + decimal((row + 1) as nat) + ", column: "@
        + decimal((column + 1) as nat) + "."@
}

/// What is said when one kind of token was expected and another stands
/// there.
pub open spec fn expected_message(expected: TokenKind, found: TokenKind) -> Seq<char> {
    "Expected "@ + kind_name(expected) + " got "@ + kind_name(found)
}

/// The state of a parse.
pub struct ParserModel {
    pub current: TokenModel,
    pub source: SourceModel,
    pub errors: Seq<Seq<char>>,
}

/// What parsing a construct gives: the construct, or nothing where it could
/// not be parsed, and the state behind it.
pub struct Parsed<T> {
    pub value: Option<T>,
    pub state: ParserModel,
}

/// The construct was parsed.
pub open spec fn parsed<T>(value: T, state: ParserModel) -> Parsed<T> {
    Parsed { value: Some(value), state }
}

/// The construct could not be parsed.
pub open spec fn unparsed<T>(state: ParserModel) -> Parsed<T> {
    Parsed { value: None, state }
}

impl ParserModel {
    /// The source is well-formed, and the end of the source is looked at only
    /// when the source is at its end.
    #[verifier::opaque]
    pub open spec fn wf(self) -> bool {
        &&& self.source.wf()
        &&& self.current.kind == TokenKind::Eof ==> self.source.at_end()
    }

    /// What is left to parse: the characters behind the token that is looked
    /// at, and that token unless it is the end of the source.
    #[verifier::opaque]
    pub open spec fn left(self) -> nat {
        (self.source.remaining() + if self.current.kind != TokenKind::Eof {
            1int
        } else {
            0int
        }) as nat
    }

    /// The state one token further on.
    #[verifier::opaque]
    pub open spec fn advance(self) -> ParserModel {
        ParserModel {
            current: next_token(self.source).token->0,
            source: next_token(self.source).rest,
            errors: self.errors,
        }
    }

    /// One more diagnostic, at the place of the token that is looked at.
    pub open spec fn report(self, message: Seq<char>) -> ParserModel {
        ParserModel {
            errors: self.errors.push(
                syntax_error(message, self.current.row, self.current.column),
            ),
            ..self
        }
    }

    /// One more diagnostic, as it stands.
    pub open spec fn push(self, text: Seq<char>) -> ParserModel {
        ParserModel { errors: self.errors.push(text), ..self }
    }

    /// Whether a token of the given kind is looked at.
    pub open spec fn at(self, kind: TokenKind) -> bool {
        self.current.kind == kind
    }

    /// What is said when a token of the given kind should be looked at.
    pub open spec fn expected(self, kind: TokenKind) -> Seq<char> {
        expected_message(kind, self.current.kind)
    }

    /// The state went on from `before`: it is well-formed and nothing more is
    /// left to parse than was.
    pub open spec fn went_on(self, before: ParserModel) -> bool {
        &&& self.wf()
        &&& self.left() <= before.left()
    }

    /// Going one token further on keeps the state well-formed and leaves less
    /// to parse, unless the end of the source is looked at.
    pub proof fn lemma_advance(self)
        requires
            self.wf(),
        ensures
            self.advance().went_on(self),
            self.advance().errors == self.errors,
            !self.at(TokenKind::Eof) ==> self.advance().left() < self.left(),
            self.at(TokenKind::Eof) ==> self.advance().at(TokenKind::Eof),
    {
        reveal(ParserModel::wf);
        reveal(ParserModel::left);
        reveal(ParserModel::advance);
        lemma_next_token(self.source);
        if self.source.at_end() {
            self.source.lemma_end();
        }
    }

    /// While a token other than the end of the source is looked at, something
    /// is left to parse.
    pub proof fn lemma_left(self)
        requires
            self.wf(),
        ensures
            self.at(TokenKind::Eof) ==> self.left() == 0,
            !self.at(TokenKind::Eof) ==> self.left() > 0,
    {
        reveal(ParserModel::wf);
        reveal(ParserModel::left);
        if self.source.at_end() {
            self.source.lemma_end();
        } else {
            self.source.lemma_advance();
        }
    }

    /// A diagnostic changes nothing but the diagnostics.
    pub proof fn lemma_report(self, text: Seq<char>)
        ensures
            self.push(text).wf() == self.wf(),
            self.push(text).left() == self.left(),
            self.push(text).advance() == self.advance().push(text),
            self.report(text).wf() == self.wf(),
            self.report(text).left() == self.left(),
    {
        reveal(ParserModel::wf);
        reveal(ParserModel::left);
        reveal(ParserModel::advance);
    }
}

/// A result of a parse that started at `start`, as it is where the parse
/// went on from there, and nothing at `start` otherwise. A parse always
/// goes on.
pub open spec fn kept<T>(result: Parsed<T>, start: ParserModel) -> Parsed<T> {
    if result.state.went_on(start) {
        result
    } else {
        unparsed(start)
    }
}

/// Whether a token kind is a comparison.
pub open spec fn is_relation(kind: TokenKind) -> bool {
    kind == TokenKind::Equal || kind == TokenKind::SmallerThan || kind == TokenKind::NotEqual
        || kind == TokenKind::LargerThan || kind == TokenKind::ESmallerThan || kind
        == TokenKind::ELargerThan
}

/// Whether a token kind is an operator between terms.
pub open spec fn is_addition(kind: TokenKind) -> bool {
    kind == TokenKind::Plus || kind == TokenKind::Minus || kind == TokenKind::Or
}

/// Whether a token kind is an operator between factors.
pub open spec fn is_multiplication(kind: TokenKind) -> bool {
    kind == TokenKind::Multi || kind == TokenKind::Division || kind == TokenKind::Modulo || kind
        == TokenKind::And
}

/// Whether a token kind is a literal.
pub open spec fn is_literal(kind: TokenKind) -> bool {
    kind == TokenKind::RealLiteral || kind == TokenKind::StringLiteral || kind
        == TokenKind::IntegerLiteral
}

/// A binary expression, where both operands were parsed.
pub open spec fn binary(
    lhs: ExpressionTree,
    rhs: Parsed<ExpressionTree>,
    op: TokenModel,
) -> Parsed<ExpressionTree> {
    match rhs.value {
        Some(rhs_tree) => parsed(
            ExpressionTree::Binary(Box::new(lhs), Box::new(rhs_tree), op),
            rhs.state,
        ),
        None => unparsed(rhs.state),
    }
}

/// An expression: a simple expression, or two with a comparison between
/// them.
#[verifier::opaque]
pub open spec fn parse_expression(state: ParserModel) -> Parsed<ExpressionTree>
    decreases state.left(), 5nat,
    when state.wf()
{
    let first = kept(parse_simple_expression(state), state);
    match first.value {
        Some(lhs) => if is_relation(first.state.current.kind) {
            proof {
                first.state.lemma_advance();
            }
            binary(lhs, parse_simple_expression(first.state.advance()), first.state.current)
        } else {
            first
        },
        None => first,
    }
}

/// A simple expression: a term, or two with `+`, `-` or `or` between them.
#[verifier::opaque]
pub open spec fn parse_simple_expression(state: ParserModel) -> Parsed<ExpressionTree>
    decreases state.left(), 4nat,
    when state.wf()
{
    let first = kept(parse_term(state), state);
    match first.value {
        Some(lhs) => if is_addition(first.state.current.kind) {
            proof {
                first.state.lemma_advance();
            }
            binary(lhs, parse_term(first.state.advance()), first.state.current)
        } else {
            first
        },
        None => first,
    }
}

/// A term: a factor, or two with `*`, `/`, `%` or `and` between them.
#[verifier::opaque]
pub open spec fn parse_term(state: ParserModel) -> Parsed<ExpressionTree>
    decreases state.left(), 3nat,
    when state.wf()
{
    let first = kept(parse_factor(state), state);
    match first.value {
        Some(lhs) => if is_multiplication(first.state.current.kind) {
            proof {
                first.state.lemma_advance();
            }
            binary(lhs, parse_factor(first.state.advance()), first.state.current)
        } else {
            first
        },
        None => first,
    }
}

/// A factor: a variable or a call, a literal, an expression in brackets, or
/// `not` and a factor.
#[verifier::opaque]
pub open spec fn parse_factor(state: ParserModel) -> Parsed<ExpressionTree>
    decreases state.left(), 2nat,
    when state.wf()
{
    if state.at(TokenKind::Identifier) {
        parse_variable_or_call(state)
    } else if is_literal(state.current.kind) {
        parsed(ExpressionTree::Literal(state.current), state.advance())
    } else if state.at(TokenKind::OpenBracket) {
        proof {
            state.lemma_advance();
        }
        let inner = parse_expression(state.advance());
        if inner.state.at(TokenKind::CloseBracket) {
            Parsed { value: inner.value, state: inner.state.advance() }
        } else {
            unparsed(inner.state.report(inner.state.expected(TokenKind::CloseBracket)))
        }
    } else if state.at(TokenKind::Not) {
        proof {
            state.lemma_advance();
        }
        let operand = parse_factor(state.advance());
        match operand.value {
            Some(tree) => parsed(
                ExpressionTree::Unary(Box::new(tree), state.current),
                operand.state,
            ),
            None => unparsed(operand.state.report("Expected right hand side for unary"@)),
        }
    } else {
        unparsed(
            state.report("Cant create factor from "@ + kind_name(state.current.kind)).advance(),
        )
    }
}

/// A variable or a call: a name, alone or with an index in square
/// brackets, with arguments in brackets, or with a dot and the name of a
/// routine that is then called on it.
#[verifier::opaque]
pub open spec fn parse_variable_or_call(state: ParserModel) -> Parsed<ExpressionTree>
    decreases state.left(), 1nat,
    when state.wf()
{
    if state.at(TokenKind::Identifier) {
        proof {
            state.lemma_advance();
            state.advance().lemma_advance();
        }
        let name = state.current;
        let next = state.advance();
        if next.at(TokenKind::OpenSquareBracket) {
            let index = parse_expression(next.advance());
            match index.value {
                Some(tree) => if index.state.at(TokenKind::CloseSquareBracket) {
                    parsed(
                        ExpressionTree::Variable(Box::new(VariableTree::Indexed(name, tree))),
                        index.state.advance(),
                    )
                } else {
                    unparsed(
                        index.state.report(index.state.expected(TokenKind::CloseSquareBracket)),
                    )
                },
                None => unparsed(index.state.report("Missing array index expression"@)),
            }
        } else if next.at(TokenKind::OpenBracket) {
            let arguments = parse_arguments(next);
            match arguments.value {
                Some(list) => parsed(ExpressionTree::Call(name, list), arguments.state),
                None => unparsed(arguments.state),
            }
        } else if next.at(TokenKind::Dot) {
            let routine = next.advance();
            if routine.at(TokenKind::Identifier) {
                parsed(
                    ExpressionTree::Call(
                        routine.current,
                        seq![ExpressionTree::Variable(Box::new(VariableTree::Simple(name)))],
                    ),
                    routine.advance(),
                )
            } else {
                unparsed(routine)
            }
        } else {
            parsed(ExpressionTree::Variable(Box::new(VariableTree::Simple(name))), next)
        }
    } else {
        unparsed(state)
    }
}

/// The closing bracket of a list of arguments; where it is missing, that is
/// reported and the list stands all the same.
pub open spec fn close_arguments(list: Seq<ExpressionTree>, state: ParserModel) -> Parsed<
    Seq<ExpressionTree>,
> {
    if state.at(TokenKind::CloseBracket) {
        parsed(list, state.advance())
    } else {
        parsed(list, state.push(state.expected(TokenKind::CloseBracket)))
    }
}

/// Arguments in brackets: none, or expressions with commas between them.
#[verifier::opaque]
pub open spec fn parse_arguments(state: ParserModel) -> Parsed<Seq<ExpressionTree>>
    decreases state.left(), 0nat, 1nat,
    when state.wf()
{
    if state.at(TokenKind::OpenBracket) {
        proof {
            state.lemma_advance();
        }
        let inside = state.advance();
        if inside.at(TokenKind::CloseBracket) {
            parsed(Seq::empty(), inside.advance())
        } else {
            let first = kept(parse_expression(inside), inside);
            match first.value {
                Some(tree) => {
                    let rest = parse_more_arguments(first.state, seq![tree]);
                    close_arguments(rest.0, rest.1)
                },
                None => close_arguments(Seq::empty(), first.state),
            }
        }
    } else {
        unparsed(state)
    }
}

/// The arguments behind the first: as long as a comma stands there, an
/// expression behind it, which is left out where it could not be parsed.
#[verifier::opaque]
pub open spec fn parse_more_arguments(state: ParserModel, list: Seq<ExpressionTree>) -> (
    Seq<ExpressionTree>,
    ParserModel,
)
    decreases state.left(), 0nat, 0nat,
    when state.wf()
{
    if state.at(TokenKind::Comma) {
        proof {
            state.lemma_advance();
        }
        let next = kept(parse_expression(state.advance()), state.advance());
        parse_more_arguments(
            next.state,
            match next.value {
                Some(tree) => list.push(tree),
                None => list,
            },
        )
    } else {
        (list, state)
    }
}

/// A type: a name, or `array`, a length in square brackets, `of` and a
/// name.
#[verifier::opaque]
pub open spec fn parse_type_construct(state: ParserModel) -> Parsed<TypeTree>
{
    if state.at(TokenKind::Identifier) {
        parsed(TypeTree::Simple(state.current), state.advance())
    } else if state.at(TokenKind::Array) {
        let opening = state.advance();
        if !opening.at(TokenKind::OpenSquareBracket) {
            unparsed(opening.push(opening.expected(TokenKind::OpenSquareBracket)))
        } else {
            let length = parse_expression(opening.advance());
            match length.value {
                Some(tree) => if !length.state.at(TokenKind::CloseSquareBracket) {
                    unparsed(
                        length.state.push(length.state.expected(TokenKind::CloseSquareBracket)),
                    )
                } else if !length.state.advance().at(TokenKind::Of) {
                    unparsed(
                        length.state.advance().push(
                            length.state.advance().expected(TokenKind::Of),
                        ),
                    )
                } else if length.state.advance().advance().at(TokenKind::Identifier) {
                    parsed(
                        TypeTree::Array(length.state.advance().advance().current, tree),
                        length.state.advance().advance().advance(),
                    )
                } else {
                    unparsed(
                        length.state.advance().advance().report(
                            "Missing simple type for array type"@,
                        ),
                    )
                },
                None => unparsed(length.state),
            }
        }
    } else {
        unparsed(state.push("No type given"@))
    }
}

/// A statement, by the token it starts with.
#[verifier::opaque]
pub open spec fn parse_statement(state: ParserModel) -> Parsed<StatementTree>
    decreases state.left(), 10nat,
    when state.wf()
{
    if state.at(TokenKind::Var) {
        parse_declaration(state)
    } else if state.at(TokenKind::Identifier) {
        parse_assign_or_call(state)
    } else if state.at(TokenKind::If) {
        parse_if(state)
    } else if state.at(TokenKind::While) {
        parse_while(state)
    } else if state.at(TokenKind::Begin) {
        parse_block(state)
    } else if state.at(TokenKind::Return) {
        parse_return(state)
    } else if state.at(TokenKind::Assert) {
        parse_assert(state)
    } else {
        unparsed(state.report("Statement can not start with "@ + state.current.lexeme))
    }
}

/// A block: whatever token stands first is passed, then statements follow
/// up to `end`.
#[verifier::opaque]
pub open spec fn parse_block(state: ParserModel) -> Parsed<StatementTree>
    decreases state.left(), 9nat,
    when state.wf()
{
    if state.at(TokenKind::Eof) {
        unparsed(state.advance().report("Unexpected eof"@))
    } else {
        proof {
            state.lemma_advance();
        }
        parse_statements(state.advance(), Seq::empty())
    }
}

/// The statements of a block behind those that were parsed: semicolons are
/// passed; `end` ends the block; a statement that cannot be parsed is left
/// out and the token it stopped at passed; the end of the source is
/// reported.
#[verifier::opaque]
pub open spec fn parse_statements(state: ParserModel, list: Seq<StatementTree>) -> Parsed<
    StatementTree,
>
    decreases state.left(), 11nat,
    when state.wf()
{
    if state.at(TokenKind::End) {
        parsed(StatementTree::Block(list), state.advance())
    } else if state.at(TokenKind::SemiColon) {
        proof {
            state.lemma_advance();
        }
        parse_statements(state.advance(), list)
    } else if state.at(TokenKind::Eof) {
        unparsed(state.report("Unexpected eof"@))
    } else {
        let statement = kept(parse_statement(state), state);
        match statement.value {
            Some(tree) => if statement.state.left() < state.left() {
                parse_statements(statement.state, list.push(tree))
            } else {
                unparsed(statement.state)
            },
            None => {
                proof {
                    statement.state.lemma_advance();
                }
                if statement.state.at(TokenKind::Eof) {
                    unparsed(statement.state.advance().report("Unexpected eof"@))
                } else {
                    parse_statements(statement.state.advance(), list)
                }
            },
        }
    }
}

/// A `while`: the word, a condition, `do`, and a statement.
#[verifier::opaque]
pub open spec fn parse_while(state: ParserModel) -> Parsed<StatementTree>
    decreases state.left(), 9nat,
    when state.wf()
{
    if state.at(TokenKind::While) {
        proof {
            state.lemma_advance();
        }
        let condition = kept(parse_expression(state.advance()), state.advance());
        match condition.value {
            Some(tree) => if !condition.state.at(TokenKind::Do) {
                unparsed(condition.state.report(condition.state.expected(TokenKind::Do)))
            } else {
                proof {
                    condition.state.lemma_advance();
                }
                let body = parse_statement(condition.state.advance());
                match body.value {
                    Some(statement) => parsed(
                        StatementTree::While(tree, Box::new(statement)),
                        body.state,
                    ),
                    None => unparsed(body.state.report("Missing while body"@)),
                }
            },
            None => unparsed(condition.state),
        }
    } else {
        unparsed(state)
    }
}

/// An `if`: the word, a condition, `then`, a statement, and `else` with
/// another statement if it stands there.
#[verifier::opaque]
pub open spec fn parse_if(state: ParserModel) -> Parsed<StatementTree>
    decreases state.left(), 9nat,
    when state.wf()
{
    if state.at(TokenKind::If) {
        proof {
            state.lemma_advance();
        }
        let condition = kept(parse_expression(state.advance()), state.advance());
        match condition.value {
            Some(tree) => if !condition.state.at(TokenKind::Then) {
                unparsed(condition.state.report(condition.state.expected(TokenKind::Then)))
            } else {
                proof {
                    condition.state.lemma_advance();
                }
                let body = kept(
                    parse_statement(condition.state.advance()),
                    condition.state.advance(),
                );
                match body.value {
                    Some(statement) => if body.state.at(TokenKind::Else) {
                        proof {
                            body.state.lemma_advance();
                        }
                        let else_body = parse_statement(body.state.advance());
                        match else_body.value {
                            Some(else_statement) => parsed(
                                StatementTree::If(
                                    tree,
                                    Box::new(statement),
                                    Some(Box::new(else_statement)),
                                ),
                                else_body.state,
                            ),
                            None => unparsed(else_body.state.report("Missing else body"@)),
                        }
                    } else {
                        parsed(StatementTree::If(tree, Box::new(statement), None), body.state)
                    },
                    None => unparsed(body.state),
                }
            },
            None => unparsed(condition.state.report("If with no condition"@)),
        }
    } else {
        unparsed(state)
    }
}

/// A declaration: `var`, a name, a colon, and a type.
#[verifier::opaque]
pub open spec fn parse_declaration(state: ParserModel) -> Parsed<StatementTree>
{
    if state.at(TokenKind::Var) {
        let name = state.advance();
        if name.at(TokenKind::Identifier) {
            if !name.advance().at(TokenKind::Colon) {
                unparsed(name.advance().report(name.advance().expected(TokenKind::Colon)))
            } else {
                let description = parse_type_construct(name.advance().advance());
                match description.value {
                    Some(tree) => parsed(
                        StatementTree::Declaration(name.current, tree),
                        description.state,
                    ),
                    None => unparsed(description.state),
                }
            }
        } else {
            unparsed(name)
        }
    } else {
        unparsed(state)
    }
}

/// An assignment or a call: a variable, `:=` and an expression; or a call
/// alone.
#[verifier::opaque]
pub open spec fn parse_assign_or_call(state: ParserModel) -> Parsed<StatementTree>
{
    let target = kept(parse_variable_or_call(state), state);
    match target.value {
        None => unparsed(target.state),
        Some(ExpressionTree::Variable(variable)) => if target.state.at(TokenKind::Assign) {
            let value = parse_expression(target.state.advance());
            match value.value {
                Some(tree) => parsed(StatementTree::Assign(variable, tree), value.state),
                None => unparsed(value.state),
            }
        } else {
            unparsed(target.state.report("Statement consisting of only a variable"@))
        },
        Some(ExpressionTree::Call(name, arguments)) => if target.state.at(TokenKind::Assign) {
            unparsed(target.state.push("Can't assign to a call."@))
        } else {
            parsed(StatementTree::Call(name, arguments), target.state)
        },
        Some(_) => unparsed(target.state),
    }
}

/// An assertion: `assert` and a condition in brackets.
#[verifier::opaque]
pub open spec fn parse_assert(state: ParserModel) -> Parsed<StatementTree>
{
    if !state.advance().at(TokenKind::OpenBracket) {
        unparsed(state.advance().report(state.advance().expected(TokenKind::OpenBracket)))
    } else {
        let condition = parse_expression(state.advance().advance());
        match condition.value {
            Some(tree) => if condition.state.at(TokenKind::CloseBracket) {
                parsed(StatementTree::Assert(state.current, tree), condition.state.advance())
            } else {
                unparsed(condition.state.report(condition.state.expected(TokenKind::CloseBracket)))
            },
            None => unparsed(condition.state.report("Assert requires expression"@)),
        }
    }
}

/// A `return`: the word, and an expression unless a semicolon stands there.
#[verifier::opaque]
pub open spec fn parse_return(state: ParserModel) -> Parsed<StatementTree>
{
    if state.at(TokenKind::Return) {
        if state.advance().at(TokenKind::SemiColon) {
            parsed(StatementTree::Return(state.current, None), state.advance())
        } else {
            let value = parse_expression(state.advance());
            parsed(StatementTree::Return(state.current, value.value), value.state)
        }
    } else {
        unparsed(state)
    }
}

/// The parameters behind those that were parsed: a name, a colon and a
/// type, which is left out where it could not be parsed; commas are
/// passed; a closing bracket ends the list and is passed, and anything else
/// ends it too.
#[verifier::opaque]
pub open spec fn parse_more_parameters(
    state: ParserModel,
    list: Seq<(TokenModel, TypeTree)>,
) -> (Seq<(TokenModel, TypeTree)>, ParserModel)
    decreases state.left(),
    when state.wf()
{
    if state.at(TokenKind::Identifier) {
        proof {
            state.lemma_advance();
            state.advance().lemma_advance();
            state.advance().lemma_report(state.advance().expected(TokenKind::Colon));
        }
        let colon = state.advance();
        if !colon.at(TokenKind::Colon) {
            parse_more_parameters(colon.report(colon.expected(TokenKind::Colon)), list)
        } else {
            let description = kept(parse_type_construct(colon.advance()), colon.advance());
            parse_more_parameters(
                description.state,
                match description.value {
                    Some(tree) => list.push((state.current, tree)),
                    None => list,
                },
            )
        }
    } else if state.at(TokenKind::Comma) {
        proof {
            state.lemma_advance();
        }
        parse_more_parameters(state.advance(), list)
    } else if state.at(TokenKind::CloseBracket) {
        (list, state.advance())
    } else {
        (list, state)
    }
}

/// The parameters of a subroutine: whatever token stands first is passed,
/// then the parameters follow.
#[verifier::opaque]
pub open spec fn parse_parameters(state: ParserModel) -> (
    Seq<(TokenModel, TypeTree)>,
    ParserModel,
) {
    parse_more_parameters(state.advance(), Seq::empty())
}

/// The block of a subroutine and the semicolon behind it; where that is
/// missing, it is reported and the block stands all the same.
#[verifier::opaque]
pub open spec fn parse_routine_block(state: ParserModel) -> Parsed<Seq<StatementTree>> {
    let block = parse_block(state);
    match block.value {
        Some(StatementTree::Block(body)) => if block.state.at(TokenKind::SemiColon) {
            parsed(body, block.state.advance())
        } else {
            parsed(body, block.state.report(block.state.expected(TokenKind::SemiColon)))
        },
        _ => unparsed(block.state),
    }
}

/// A procedure: the word, a name, the parameters, a semicolon, the block,
/// and a semicolon.
#[verifier::opaque]
pub open spec fn parse_procedure(state: ParserModel) -> Parsed<SubroutineTree> {
    let name = state.advance();
    if name.at(TokenKind::Identifier) {
        let parameters = parse_parameters(name.advance());
        if !parameters.1.at(TokenKind::SemiColon) {
            unparsed(parameters.1.report(parameters.1.expected(TokenKind::SemiColon)))
        } else {
            let block = parse_routine_block(parameters.1.advance());
            match block.value {
                Some(body) => parsed(
                    SubroutineTree::Procedure(name.current, parameters.0, body),
                    block.state,
                ),
                None => unparsed(block.state),
            }
        }
    } else {
        unparsed(name)
    }
}

/// A function: the word, a name, the parameters, a colon and the type it
/// returns, a semicolon, the block, and a semicolon.
#[verifier::opaque]
pub open spec fn parse_function(state: ParserModel) -> Parsed<SubroutineTree> {
    let name = state.advance();
    if name.at(TokenKind::Identifier) {
        let parameters = parse_parameters(name.advance());
        if !parameters.1.at(TokenKind::Colon) {
            unparsed(parameters.1.report(parameters.1.expected(TokenKind::Colon)))
        } else {
            let out_type = parse_type_construct(parameters.1.advance());
            match out_type.value {
                Some(description) => if !out_type.state.at(TokenKind::SemiColon) {
                    unparsed(out_type.state.report(out_type.state.expected(TokenKind::SemiColon)))
                } else {
                    let block = parse_routine_block(out_type.state.advance());
                    match block.value {
                        Some(body) => parsed(
                            SubroutineTree::Function(
                                name.current,
                                parameters.0,
                                body,
                                description,
                            ),
                            block.state,
                        ),
                        None => unparsed(block.state),
                    }
                },
                None => unparsed(out_type.state),
            }
        }
    } else {
        unparsed(name)
    }
}

/// The subroutines behind those that were parsed: functions and
/// procedures, each left out where it could not be parsed, up to a token
/// that starts neither. At the end of the source there is nothing.
#[verifier::opaque]
pub open spec fn parse_subroutines(state: ParserModel, list: Seq<SubroutineTree>) -> Parsed<
    Seq<SubroutineTree>,
>
    decreases state.left(),
    when state.wf()
{
    if state.at(TokenKind::Function) || state.at(TokenKind::Procedure) {
        let routine = if state.at(TokenKind::Function) {
            parse_function(state)
        } else {
            parse_procedure(state)
        };
        if routine.state.wf() && routine.state.left() < state.left() {
            parse_subroutines(
                routine.state,
                match routine.value {
                    Some(tree) => list.push(tree),
                    None => list,
                },
            )
        } else {
            unparsed(routine.state)
        }
    } else if state.at(TokenKind::Eof) {
        unparsed(state)
    } else {
        parsed(list, state)
    }
}

/// A program: `program`, its name, a semicolon, the subroutines, and the
/// main block. The token that is looked at before is passed unseen.
#[verifier::opaque]
pub open spec fn parse_program(state: ParserModel) -> Parsed<ProgramTree> {
    let word = state.advance();
    let name = word.advance();
    if word.at(TokenKind::Program) && name.at(TokenKind::Identifier) {
        if !name.advance().at(TokenKind::SemiColon) {
            unparsed(name.advance().report(name.advance().expected(TokenKind::SemiColon)))
        } else {
            let subroutines = parse_subroutines(name.advance().advance(), Seq::empty());
            match subroutines.value {
                Some(list) => {
                    let block = parse_block(subroutines.state);
                    match block.value {
                        Some(StatementTree::Block(body)) => parsed(
                            ProgramTree::Program(name.current, list, body),
                            block.state,
                        ),
                        _ => unparsed(block.state.report("Program does not start with program"@)),
                    }
                },
                None => unparsed(subroutines.state.report("Program does not start with program"@)),
            }
        }
    } else if word.at(TokenKind::Program) {
        unparsed(name.report("Program does not start with program"@))
    } else {
        unparsed(word.report("Program does not start with program"@))
    }
}

} // verus!
