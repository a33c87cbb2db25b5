//! Reserved words: no name is one, and a tree that holds one in the place of
//! a name denotes nothing.

use vstd::prelude::*;

use crate::ast::ast::{ExprView, IdentView, TyView};
use crate::parser::error::{ParsingErrorKindView, ParsingErrorView};
use crate::parser::expr::{
    argument_outcomes, expr_of, is_expression, lemma_call_error_stays, operand_outcomes,
};
use crate::parser::grammar::{PairView, Rule};
use crate::parser::laws::errors::{lemma_function_errors_not_empty, lemma_stmt_errors_not_empty};
use crate::parser::leaf::{ident_of, ty_of};
use crate::parser::outcome::{lemma_collected_fails, lemma_required_ok, required};
use crate::parser::program::{
    declaration_outcomes, is_program, parameter_outcomes, program_of,
};
use crate::parser::stmt::{is_statement, statement_outcomes, stmt_of};
use crate::parser::text::is_reserved_word;

verus! {

/// The seven reserved words are reserved.
pub proof fn lemma_reserved_words()
    ensures
        is_reserved_word("class"@),
        is_reserved_word("else"@),
        is_reserved_word("false"@),
        is_reserved_word("fn"@),
        is_reserved_word("let"@),
        is_reserved_word("if"@),
        is_reserved_word("true"@),
{
}

/// An identifier or a type name that is a reserved word is rejected, with the
/// error that names the word, at the exact span of the token. So is the
/// expression that the identifier alone would make.
pub proof fn lemma_reserved_word_rejected(pair: PairView)
    requires
        is_reserved_word(pair.text),
    ensures
        ident_of(pair) == Err::<IdentView, ParsingErrorView>(
            ParsingErrorView::at(ParsingErrorKindView::ReservedKeyword(pair.text), pair.location),
        ),
        ty_of(pair) == Err::<TyView, ParsingErrorView>(
            ParsingErrorView::at(ParsingErrorKindView::ReservedKeyword(pair.text), pair.location),
        ),
        pair.rule == Rule::Identifier ==> expr_of(pair) == Err::<ExprView, ParsingErrorView>(
            ParsingErrorView::at(ParsingErrorKindView::ReservedKeyword(pair.text), pair.location),
        ),
{
}

/// A reserved word stands in the place of a name somewhere in the expression
/// subtree.
pub open spec fn expr_names_reserved_word(pair: PairView) -> bool
    decreases pair,
{
    match pair.rule {
        Rule::Identifier => is_reserved_word(pair.text),
        Rule::Expression => pair.inner.len() > 0 && expr_names_reserved_word(pair.inner[0]),
        Rule::Logical | Rule::Binary => exists|i: int|
            0 <= i < pair.inner.len() && i % 2 == 0 && expr_names_reserved_word(
                #[trigger] pair.inner[i],
            ),
        Rule::Unary => if pair.inner.len() > 1 && pair.inner[0].rule == Rule::UnaryOperator {
            expr_names_reserved_word(pair.inner[1])
        } else {
            pair.inner.len() > 0 && expr_names_reserved_word(pair.inner[0])
        },
        Rule::Call => {
            ||| pair.inner.len() > 0 && expr_names_reserved_word(pair.inner[0])
            ||| exists|i: int, j: int|
                1 <= i < pair.inner.len() && 0 <= j < pair.inner[i].inner.len()
                    && expr_names_reserved_word(#[trigger] pair.inner[i].inner[j])
        },
        _ => false,
    }
}

/// A reserved word stands in the place of a name somewhere in the statement
/// subtree.
pub open spec fn stmt_names_reserved_word(pair: PairView) -> bool
    decreases pair,
{
    match pair.rule {
        Rule::VariableDeclaration => {
            ||| pair.inner.len() > 0 && is_reserved_word(pair.inner[0].text)
            ||| pair.inner.len() >= 2 && pair.inner[1].rule == Rule::Ty && is_reserved_word(
                pair.inner[1].text,
            )
            ||| pair.inner.len() >= 2 && pair.inner.last().rule == Rule::Expression
                && expr_names_reserved_word(pair.inner.last())
        },
        Rule::ReturnStatement | Rule::ExpressionStatement => pair.inner.len() > 0
            && expr_names_reserved_word(pair.inner[0]),
        Rule::Block => exists|i: int|
            0 <= i < pair.inner.len() && stmt_names_reserved_word(#[trigger] pair.inner[i]),
        _ => false,
    }
}

/// A reserved word stands in the place of a name somewhere in the function
/// declaration subtree.
pub open spec fn function_names_reserved_word(pair: PairView) -> bool {
    ||| is_reserved_word(pair.inner[0].text)
    ||| exists|i: int|
        0 <= i < pair.inner[1].inner.len() && is_reserved_word((#[trigger] pair.inner[1].inner[i]).text)
    ||| is_reserved_word(pair.inner[2].text)
    ||| stmt_names_reserved_word(pair.inner[3])
}

/// A reserved word stands in the place of a name somewhere in the parse tree.
pub open spec fn program_names_reserved_word(pair: PairView) -> bool {
    exists|i: int|
        0 <= i < pair.inner.len() - 1 && function_names_reserved_word(#[trigger] pair.inner[i])
}

/// An expression that holds a reserved word in the place of a name, wherever
/// in it, denotes no expression.
pub proof fn lemma_reserved_word_fails_expr(pair: PairView)
    requires
        is_expression(pair),
        expr_names_reserved_word(pair),
    ensures
        expr_of(pair) is Err,
    decreases pair, pair.inner.len() + 1,
{
    match pair.rule {
        Rule::Expression => {
            lemma_reserved_word_fails_expr(pair.inner[0]);
        },
        Rule::Logical | Rule::Binary => {
            let i = choose|i: int|
                0 <= i < pair.inner.len() && i % 2 == 0 && expr_names_reserved_word(
                    #[trigger] pair.inner[i],
                );
            lemma_reserved_word_fails_expr(pair.inner[i]);
            let outcomes = operand_outcomes(pair);
            assert(outcomes[i / 2] is Err);
            if required(outcomes) is Ok {
                lemma_required_ok(outcomes);
            }
        },
        Rule::Unary => {
            if pair.inner.len() > 1 && pair.inner[0].rule == Rule::UnaryOperator {
                lemma_reserved_word_fails_expr(pair.inner[1]);
            } else {
                reveal_with_fuel(is_expression, 2);
                lemma_reserved_word_fails_expr(pair.inner[0]);
            }
        },
        Rule::Call => {
            let last = (pair.inner.len() - 1) as nat;
            if expr_names_reserved_word(pair.inner[0]) {
                lemma_reserved_word_fails_expr(pair.inner[0]);
                lemma_call_error_stays(pair, 0, last);
            } else {
                let (i, j) = choose|i: int, j: int|
                    1 <= i < pair.inner.len() && 0 <= j < pair.inner[i].inner.len()
                        && expr_names_reserved_word(#[trigger] pair.inner[i].inner[j]);
                lemma_reserved_word_fails_expr(pair.inner[i].inner[j]);
                let outcomes = argument_outcomes(pair.inner[i]);
                assert(outcomes[j] is Err);
                if required(outcomes) is Ok {
                    lemma_required_ok(outcomes);
                }
                lemma_call_error_stays(pair, i as nat, last);
            }
        },
        _ => {},
    }
}

/// A statement that holds a reserved word in the place of a name, wherever in
/// it, denotes no statement.
pub proof fn lemma_reserved_word_fails_stmt(pair: PairView)
    requires
        is_statement(pair),
        stmt_names_reserved_word(pair),
    ensures
        stmt_of(pair) is Err,
    decreases pair,
{
    match pair.rule {
        Rule::VariableDeclaration => {
            if pair.inner.len() >= 2 && pair.inner.last().rule == Rule::Expression
                && expr_names_reserved_word(pair.inner.last()) {
                lemma_reserved_word_fails_expr(pair.inner.last());
            }
        },
        Rule::ReturnStatement | Rule::ExpressionStatement => {
            lemma_reserved_word_fails_expr(pair.inner[0]);
        },
        Rule::Block => {
            let i = choose|i: int|
                0 <= i < pair.inner.len() && stmt_names_reserved_word(#[trigger] pair.inner[i]);
            lemma_reserved_word_fails_stmt(pair.inner[i]);
            lemma_stmt_errors_not_empty(pair.inner[i]);
            let outcomes = statement_outcomes(pair);
            lemma_collected_fails(outcomes, i);
        },
        _ => {},
    }
}

/// A program that holds a reserved word in the place of a name, wherever in
/// it, denotes no program: whoever parses it gets errors.
pub proof fn lemma_reserved_word_fails_program(pair: PairView)
    requires
        is_program(pair),
        program_names_reserved_word(pair),
    ensures
        program_of(pair) is Err,
{
    let i = choose|i: int|
        0 <= i < pair.inner.len() - 1 && function_names_reserved_word(#[trigger] pair.inner[i]);
    let function = pair.inner[i];
    let params = function.inner[1];
    if stmt_names_reserved_word(function.inner[3]) {
        lemma_reserved_word_fails_stmt(function.inner[3]);
    }
    if exists|k: int| 0 <= k < params.inner.len() && is_reserved_word((#[trigger] params.inner[k]).text) {
        let k = choose|k: int|
            0 <= k < params.inner.len() && is_reserved_word((#[trigger] params.inner[k]).text);
        let outcomes = parameter_outcomes(params);
        assert(outcomes[k / 2] is Err);
        if required(outcomes) is Ok {
            lemma_required_ok(outcomes);
        }
    }
    lemma_function_errors_not_empty(function);
    let outcomes = declaration_outcomes(pair);
    lemma_collected_fails(outcomes, i);
}

} // verus!
