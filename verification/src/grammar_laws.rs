//! What holds of every parse: it goes on from where it started, it leaves
//! what was reported as it was, and it never gives a construct without
//! taking a token.

use vstd::prelude::*;
use crate::ast::StatementTree;
use crate::grammar::{
    kept,
    parse_arguments,
    parse_assert,
    parse_assign_or_call,
    parse_block,
    parse_declaration,
    parse_expression,
    parse_factor,
    parse_function,
    parse_if,
    parse_more_arguments,
    parse_more_parameters,
    parse_parameters,
    parse_procedure,
    parse_program,
    parse_return,
    parse_routine_block,
    parse_simple_expression,
    parse_statement,
    parse_statements,
    parse_subroutines,
    parse_term,
    parse_type_construct,
    parse_variable_or_call,
    parse_while,
    Parsed,
    ParserModel,
};
use crate::token::TokenKind;

verus! {

/// The diagnostics `after` continue the diagnostics `before`: what was
/// reported stays as it was.
pub open spec fn continues(before: Seq<Seq<char>>, after: Seq<Seq<char>>) -> bool {
    &&& before.len() <= after.len()
    &&& forall|i: int| 0 <= i < before.len() ==> after[i] == before[i]
}

/// The state `after` follows the state `before`: it is well-formed, nothing
/// more is left to parse than was, and the diagnostics continue.
pub open spec fn follows(after: ParserModel, before: ParserModel) -> bool {
    &&& after.went_on(before)
    &&& continues(before.errors, after.errors)
}

/// A parse that started at `start` kept to the rules: its state follows
/// `start`, and where it gave a construct it took a token.
pub open spec fn sound<T>(result: Parsed<T>, start: ParserModel) -> bool {
    &&& follows(result.state, start)
    &&& result.value is Some ==> result.state.left() < start.left()
}

/// One token further on, the state follows, and less is left unless the end
/// of the source is looked at.
pub proof fn lemma_step(state: ParserModel)
    requires
        state.wf(),
    ensures
        follows(state.advance(), state),
        !state.at(TokenKind::Eof) ==> state.advance().left() < state.left(),
        state.at(TokenKind::Eof) ==> state.advance().at(TokenKind::Eof),
{
    state.lemma_advance();
}

/// With one more diagnostic, the state follows.
pub proof fn lemma_said(state: ParserModel, text: Seq<char>)
    requires
        state.wf(),
    ensures
        follows(state.report(text), state),
        follows(state.push(text), state),
        state.report(text).left() == state.left(),
        state.push(text).left() == state.left(),
        state.report(text).current == state.current,
        state.push(text).current == state.current,
        state.report(text).errors.len() == state.errors.len() + 1,
        state.push(text).errors.len() == state.errors.len() + 1,
{
    state.lemma_report(text);
    state.lemma_report(
        crate::grammar::syntax_error(text, state.current.row, state.current.column),
    );
}

/// An expression is parsed soundly.
pub proof fn lemma_expression(state: ParserModel)
    requires
        state.wf(),
    ensures
        sound(parse_expression(state), state),
    decreases state.left(), 5nat,
{
    reveal(parse_expression);
    reveal(parse_simple_expression);
    lemma_simple_expression(state);
    let first = parse_simple_expression(state);
    if first.value is Some && crate::grammar::is_relation(first.state.current.kind) {
        lemma_step(first.state);
        lemma_simple_expression(first.state.advance());
    }
}

/// A simple expression is parsed soundly.
pub proof fn lemma_simple_expression(state: ParserModel)
    requires
        state.wf(),
    ensures
        sound(parse_simple_expression(state), state),
    decreases state.left(), 4nat,
{
    reveal(parse_simple_expression);
    reveal(parse_term);
    lemma_term(state);
    let first = parse_term(state);
    if first.value is Some && crate::grammar::is_addition(first.state.current.kind) {
        lemma_step(first.state);
        lemma_term(first.state.advance());
    }
}

/// A term is parsed soundly.
pub proof fn lemma_term(state: ParserModel)
    requires
        state.wf(),
    ensures
        sound(parse_term(state), state),
    decreases state.left(), 3nat,
{
    reveal(parse_term);
    reveal(parse_factor);
    lemma_factor(state);
    let first = parse_factor(state);
    if first.value is Some && crate::grammar::is_multiplication(first.state.current.kind) {
        lemma_step(first.state);
        lemma_factor(first.state.advance());
    }
}

/// A factor is parsed soundly.
#[verifier::spinoff_prover]
pub proof fn lemma_factor(state: ParserModel)
    requires
        state.wf(),
    ensures
        sound(parse_factor(state), state),
    decreases state.left(), 2nat,
{
    reveal(parse_factor);
    reveal(parse_variable_or_call);
    reveal(parse_expression);
    lemma_step(state);
    if state.at(TokenKind::Identifier) {
        lemma_variable_or_call(state);
    } else if crate::grammar::is_literal(state.current.kind) {
    } else if state.at(TokenKind::OpenBracket) {
        lemma_expression(state.advance());
        let inner = parse_expression(state.advance());
        lemma_step(inner.state);
        lemma_said(inner.state, inner.state.expected(TokenKind::CloseBracket));
    } else if state.at(TokenKind::Not) {
        lemma_factor(state.advance());
        let operand = parse_factor(state.advance());
        lemma_said(operand.state, "Expected right hand side for unary"@);
    } else {
        let text = "Cant create factor from "@ + crate::token::kind_name(state.current.kind);
        lemma_said(state, text);
        lemma_step(state.report(text));
    }
}

/// A variable or a call is parsed soundly, and a token is taken wherever a
/// name stands.
#[verifier::spinoff_prover]
pub proof fn lemma_variable_or_call(state: ParserModel)
    requires
        state.wf(),
    ensures
        sound(parse_variable_or_call(state), state),
        state.at(TokenKind::Identifier) ==> parse_variable_or_call(state).state.left()
            < state.left(),
        parse_variable_or_call(state).value matches Some(tree) ==> tree is Variable
            || tree is Call,
    decreases state.left(), 1nat,
{
    reveal(parse_variable_or_call);
    reveal(parse_expression);
    reveal(parse_arguments);
    if state.at(TokenKind::Identifier) {
        lemma_step(state);
        let next = state.advance();
        lemma_step(next);
        if next.at(TokenKind::OpenSquareBracket) {
            lemma_expression(next.advance());
            let index = parse_expression(next.advance());
            lemma_step(index.state);
            lemma_said(index.state, index.state.expected(TokenKind::CloseSquareBracket));
            lemma_said(index.state, "Missing array index expression"@);
        } else if next.at(TokenKind::OpenBracket) {
            lemma_arguments(next);
        } else if next.at(TokenKind::Dot) {
            lemma_step(next.advance());
        }
    }
}

/// Arguments are parsed soundly.
#[verifier::spinoff_prover]
pub proof fn lemma_arguments(state: ParserModel)
    requires
        state.wf(),
    ensures
        sound(parse_arguments(state), state),
    decreases state.left(), 0nat, 1nat,
{
    reveal(parse_arguments);
    reveal(parse_more_arguments);
    reveal(parse_expression);
    if state.at(TokenKind::OpenBracket) {
        lemma_step(state);
        let inside = state.advance();
        lemma_step(inside);
        if !inside.at(TokenKind::CloseBracket) {
            lemma_expression(inside);
            let first = parse_expression(inside);
            match first.value {
                Some(tree) => {
                    lemma_more_arguments(first.state, seq![tree]);
                    let rest = parse_more_arguments(first.state, seq![tree]);
                    lemma_step(rest.1);
                    lemma_said(rest.1, rest.1.expected(TokenKind::CloseBracket));
                },
                None => {
                    lemma_step(first.state);
                    lemma_said(first.state, first.state.expected(TokenKind::CloseBracket));
                },
            }
        }
    }
}

/// The arguments behind the first are parsed soundly.
pub proof fn lemma_more_arguments(state: ParserModel, list: Seq<crate::ast::ExpressionTree>)
    requires
        state.wf(),
    ensures
        follows(parse_more_arguments(state, list).1, state),
    decreases state.left(), 0nat, 0nat,
{
    reveal(parse_more_arguments);
    reveal(parse_expression);
    if state.at(TokenKind::Comma) {
        lemma_step(state);
        lemma_expression(state.advance());
        let next = parse_expression(state.advance());
        lemma_more_arguments(
            next.state,
            match next.value {
                Some(tree) => list.push(tree),
                None => list,
            },
        );
    }
}

/// A type is parsed soundly.
#[verifier::spinoff_prover]
pub proof fn lemma_type_construct(state: ParserModel)
    requires
        state.wf(),
    ensures
        sound(parse_type_construct(state), state),
{
    reveal(parse_type_construct);
    lemma_step(state);
    lemma_said(state, "No type given"@);
    if state.at(TokenKind::Array) {
        let opening = state.advance();
        lemma_step(opening);
        lemma_said(opening, opening.expected(TokenKind::OpenSquareBracket));
        if opening.at(TokenKind::OpenSquareBracket) {
            lemma_expression(opening.advance());
            let length = parse_expression(opening.advance());
            lemma_said(length.state, length.state.expected(TokenKind::CloseSquareBracket));
            lemma_step(length.state);
            let of = length.state.advance();
            lemma_said(of, of.expected(TokenKind::Of));
            lemma_step(of);
            lemma_said(of.advance(), "Missing simple type for array type"@);
            lemma_step(of.advance());
        }
    }
}

/// A statement is parsed soundly.
pub proof fn lemma_statement(state: ParserModel)
    requires
        state.wf(),
    ensures
        sound(parse_statement(state), state),
    decreases state.left(), 10nat,
{
    reveal(parse_statement);
    reveal(parse_block);
    reveal(parse_while);
    reveal(parse_if);
    if state.at(TokenKind::Var) {
        lemma_declaration(state);
    } else if state.at(TokenKind::Identifier) {
        lemma_assign_or_call(state);
    } else if state.at(TokenKind::If) {
        lemma_if(state);
    } else if state.at(TokenKind::While) {
        lemma_while(state);
    } else if state.at(TokenKind::Begin) {
        lemma_block(state);
    } else if state.at(TokenKind::Return) {
        lemma_return(state);
    } else if state.at(TokenKind::Assert) {
        lemma_assert(state);
    } else {
        lemma_said(state, "Statement can not start with "@ + state.current.lexeme);
    }
}

/// A block is parsed soundly. It takes a token unless the end of the source
/// is looked at, what it gives is a block, and where it gives nothing it
/// reported something.
pub proof fn lemma_block(state: ParserModel)
    requires
        state.wf(),
    ensures
        sound(parse_block(state), state),
        !state.at(TokenKind::Eof) ==> parse_block(state).state.left() < state.left(),
        parse_block(state).value matches Some(tree) ==> tree is Block,
        parse_block(state).value is None ==> parse_block(state).state.errors.len()
            > state.errors.len(),
    decreases state.left(), 9nat,
{
    reveal(parse_block);
    reveal(parse_statements);
    lemma_step(state);
    state.lemma_left();
    if state.at(TokenKind::Eof) {
        lemma_said(state.advance(), "Unexpected eof"@);
    } else {
        lemma_statements(state.advance(), Seq::empty());
    }
}

/// The statements of a block are parsed soundly; what they give is a
/// block, and where they give nothing something was reported.
#[verifier::spinoff_prover]
pub proof fn lemma_statements(state: ParserModel, list: Seq<StatementTree>)
    requires
        state.wf(),
    ensures
        follows(parse_statements(state, list).state, state),
        parse_statements(state, list).value matches Some(tree) ==> tree is Block,
        parse_statements(state, list).value is None ==> parse_statements(
            state,
            list,
        ).state.errors.len() > state.errors.len(),
    decreases state.left(), 11nat,
{
    reveal(parse_statements);
    reveal(parse_statement);
    lemma_step(state);
    state.lemma_left();
    if state.at(TokenKind::End) {
    } else if state.at(TokenKind::SemiColon) {
        lemma_statements(state.advance(), list);
    } else if state.at(TokenKind::Eof) {
        lemma_said(state, "Unexpected eof"@);
    } else {
        lemma_statement(state);
        let statement = parse_statement(state);
        match statement.value {
            Some(tree) => {
                lemma_statements(statement.state, list.push(tree));
            },
            None => {
                lemma_step(statement.state);
                statement.state.lemma_left();
                if statement.state.at(TokenKind::Eof) {
                    lemma_said(statement.state.advance(), "Unexpected eof"@);
                } else {
                    lemma_statements(statement.state.advance(), list);
                }
            },
        }
    }
}

/// A `while` is parsed soundly.
#[verifier::spinoff_prover]
pub proof fn lemma_while(state: ParserModel)
    requires
        state.wf(),
    ensures
        sound(parse_while(state), state),
    decreases state.left(), 9nat,
{
    reveal(parse_while);
    reveal(parse_statement);
    if state.at(TokenKind::While) {
        lemma_step(state);
        lemma_expression(state.advance());
        let condition = parse_expression(state.advance());
        lemma_said(condition.state, condition.state.expected(TokenKind::Do));
        if condition.value is Some && condition.state.at(TokenKind::Do) {
            lemma_step(condition.state);
            lemma_statement(condition.state.advance());
            let body = parse_statement(condition.state.advance());
            lemma_said(body.state, "Missing while body"@);
        }
    }
}

/// An `if` is parsed soundly.
#[verifier::spinoff_prover]
pub proof fn lemma_if(state: ParserModel)
    requires
        state.wf(),
    ensures
        sound(parse_if(state), state),
    decreases state.left(), 9nat,
{
    reveal(parse_if);
    reveal(parse_statement);
    if state.at(TokenKind::If) {
        lemma_step(state);
        lemma_expression(state.advance());
        let condition = parse_expression(state.advance());
        lemma_said(condition.state, condition.state.expected(TokenKind::Then));
        lemma_said(condition.state, "If with no condition"@);
        if condition.value is Some && condition.state.at(TokenKind::Then) {
            lemma_step(condition.state);
            lemma_statement(condition.state.advance());
            let body = parse_statement(condition.state.advance());
            if body.value is Some && body.state.at(TokenKind::Else) {
                lemma_step(body.state);
                lemma_statement(body.state.advance());
                let else_body = parse_statement(body.state.advance());
                lemma_said(else_body.state, "Missing else body"@);
            }
        }
    }
}

/// A declaration is parsed soundly.
pub proof fn lemma_declaration(state: ParserModel)
    requires
        state.wf(),
    ensures
        sound(parse_declaration(state), state),
{
    reveal(parse_declaration);
    if state.at(TokenKind::Var) {
        lemma_step(state);
        let name = state.advance();
        lemma_step(name);
        lemma_said(name.advance(), name.advance().expected(TokenKind::Colon));
        lemma_step(name.advance());
        lemma_type_construct(name.advance().advance());
    }
}

/// An assignment or a call is parsed soundly.
#[verifier::spinoff_prover]
pub proof fn lemma_assign_or_call(state: ParserModel)
    requires
        state.wf(),
    ensures
        sound(parse_assign_or_call(state), state),
{
    reveal(parse_assign_or_call);
    lemma_variable_or_call(state);
    let target = parse_variable_or_call(state);
    lemma_said(target.state, "Statement consisting of only a variable"@);
    lemma_said(target.state, "Can't assign to a call."@);
    if target.value is Some && target.state.at(TokenKind::Assign) {
        lemma_step(target.state);
        lemma_expression(target.state.advance());
    }
}

/// An assertion is parsed soundly.
pub proof fn lemma_assert(state: ParserModel)
    requires
        state.wf(),
    ensures
        sound(parse_assert(state), state),
{
    reveal(parse_assert);
    lemma_step(state);
    lemma_said(state.advance(), state.advance().expected(TokenKind::OpenBracket));
    state.lemma_left();
    state.advance().lemma_left();
    if state.advance().at(TokenKind::OpenBracket) {
        lemma_step(state.advance());
        lemma_expression(state.advance().advance());
        let condition = parse_expression(state.advance().advance());
        lemma_step(condition.state);
        lemma_said(condition.state, condition.state.expected(TokenKind::CloseBracket));
        lemma_said(condition.state, "Assert requires expression"@);
    }
}

/// A `return` is parsed soundly.
pub proof fn lemma_return(state: ParserModel)
    requires
        state.wf(),
    ensures
        sound(parse_return(state), state),
{
    reveal(parse_return);
    if state.at(TokenKind::Return) {
        lemma_step(state);
        lemma_expression(state.advance());
    }
}

/// The parameters behind those that were parsed are parsed soundly.
pub proof fn lemma_more_parameters(
    state: ParserModel,
    list: Seq<(crate::token::TokenModel, crate::ast::TypeTree)>,
)
    requires
        state.wf(),
    ensures
        follows(parse_more_parameters(state, list).1, state),
    decreases state.left(),
{
    reveal(parse_more_parameters);
    lemma_step(state);
    if state.at(TokenKind::Identifier) {
        let colon = state.advance();
        lemma_step(colon);
        lemma_said(colon, colon.expected(TokenKind::Colon));
        if !colon.at(TokenKind::Colon) {
            lemma_more_parameters(colon.report(colon.expected(TokenKind::Colon)), list);
        } else {
            lemma_type_construct(colon.advance());
            let description = parse_type_construct(colon.advance());
            lemma_more_parameters(
                description.state,
                match description.value {
                    Some(tree) => list.push((state.current, tree)),
                    None => list,
                },
            );
        }
    } else if state.at(TokenKind::Comma) {
        lemma_more_parameters(state.advance(), list);
    }
}

/// The parameters of a subroutine are parsed soundly.
pub proof fn lemma_parameters(state: ParserModel)
    requires
        state.wf(),
    ensures
        follows(parse_parameters(state).1, state),
        !state.at(TokenKind::Eof) ==> parse_parameters(state).1.left() < state.left(),
{
    reveal(parse_parameters);
    lemma_step(state);
    lemma_more_parameters(state.advance(), Seq::empty());
}

/// The block of a subroutine is parsed soundly.
pub proof fn lemma_routine_block(state: ParserModel)
    requires
        state.wf(),
    ensures
        follows(parse_routine_block(state).state, state),
{
    reveal(parse_routine_block);
    lemma_block(state);
    let block = parse_block(state);
    lemma_step(block.state);
    lemma_said(block.state, block.state.expected(TokenKind::SemiColon));
}

/// A procedure is parsed soundly, and a token is taken unless the end of
/// the source is looked at.
#[verifier::spinoff_prover]
pub proof fn lemma_procedure(state: ParserModel)
    requires
        state.wf(),
    ensures
        follows(parse_procedure(state).state, state),
        !state.at(TokenKind::Eof) ==> parse_procedure(state).state.left() < state.left(),
{
    reveal(parse_procedure);
    lemma_step(state);
    let name = state.advance();
    if name.at(TokenKind::Identifier) {
        lemma_step(name);
        lemma_parameters(name.advance());
        let parameters = parse_parameters(name.advance());
        lemma_said(parameters.1, parameters.1.expected(TokenKind::SemiColon));
        if parameters.1.at(TokenKind::SemiColon) {
            lemma_step(parameters.1);
            lemma_routine_block(parameters.1.advance());
        }
    }
}

/// A function is parsed soundly, and a token is taken unless the end of the
/// source is looked at.
#[verifier::spinoff_prover]
pub proof fn lemma_function(state: ParserModel)
    requires
        state.wf(),
    ensures
        follows(parse_function(state).state, state),
        !state.at(TokenKind::Eof) ==> parse_function(state).state.left() < state.left(),
{
    reveal(parse_function);
    lemma_step(state);
    let name = state.advance();
    if name.at(TokenKind::Identifier) {
        lemma_step(name);
        lemma_parameters(name.advance());
        let parameters = parse_parameters(name.advance());
        lemma_said(parameters.1, parameters.1.expected(TokenKind::Colon));
        if parameters.1.at(TokenKind::Colon) {
            lemma_step(parameters.1);
            lemma_type_construct(parameters.1.advance());
            let out_type = parse_type_construct(parameters.1.advance());
            lemma_said(out_type.state, out_type.state.expected(TokenKind::SemiColon));
            if out_type.value is Some && out_type.state.at(TokenKind::SemiColon) {
                lemma_step(out_type.state);
                lemma_routine_block(out_type.state.advance());
            }
        }
    }
}

/// The subroutines are parsed soundly, and they come out as nothing only at
/// the end of the source.
pub proof fn lemma_subroutines(state: ParserModel, list: Seq<crate::ast::SubroutineTree>)
    requires
        state.wf(),
    ensures
        follows(parse_subroutines(state, list).state, state),
    decreases state.left(),
{
    reveal(parse_subroutines);
    if state.at(TokenKind::Function) || state.at(TokenKind::Procedure) {
        lemma_function(state);
        lemma_procedure(state);
        let routine = if state.at(TokenKind::Function) {
            parse_function(state)
        } else {
            parse_procedure(state)
        };
        lemma_subroutines(
            routine.state,
            match routine.value {
                Some(tree) => list.push(tree),
                None => list,
            },
        );
    }
}

/// A program is parsed soundly: the parse goes on from where it started and
/// leaves what was reported as it was; and where it gives no program, it
/// reported something.
#[verifier::spinoff_prover]
pub proof fn lemma_program(state: ParserModel)
    requires
        state.wf(),
    ensures
        follows(parse_program(state).state, state),
        parse_program(state).value is None ==> parse_program(state).state.errors.len()
            > state.errors.len(),
{
    reveal(parse_program);
    lemma_step(state);
    let word = state.advance();
    lemma_step(word);
    let name = word.advance();
    lemma_said(word, "Program does not start with program"@);
    lemma_said(name, "Program does not start with program"@);
    if word.at(TokenKind::Program) && name.at(TokenKind::Identifier) {
        lemma_step(name);
        lemma_said(name.advance(), name.advance().expected(TokenKind::SemiColon));
        if name.advance().at(TokenKind::SemiColon) {
            lemma_step(name.advance());
            lemma_subroutines(name.advance().advance(), Seq::empty());
            let subroutines = parse_subroutines(name.advance().advance(), Seq::empty());
            lemma_said(subroutines.state, "Program does not start with program"@);
            if subroutines.value is Some {
                lemma_block(subroutines.state);
                let block = parse_block(subroutines.state);
                lemma_said(block.state, "Program does not start with program"@);
            }
        }
    }
}

/// The guard that the grammar puts on every parse inside another never
/// turns a result away: a parse always goes on.
pub proof fn lemma_kept(state: ParserModel)
    requires
        state.wf(),
    ensures
        kept(parse_expression(state), state) == parse_expression(state),
        kept(parse_simple_expression(state), state) == parse_simple_expression(state),
        kept(parse_term(state), state) == parse_term(state),
        kept(parse_factor(state), state) == parse_factor(state),
        kept(parse_variable_or_call(state), state) == parse_variable_or_call(state),
        kept(parse_statement(state), state) == parse_statement(state),
        kept(parse_type_construct(state), state) == parse_type_construct(state),
{
    lemma_expression(state);
    lemma_simple_expression(state);
    lemma_term(state);
    lemma_factor(state);
    lemma_variable_or_call(state);
    lemma_statement(state);
    lemma_type_construct(state);
}

} // verus!
