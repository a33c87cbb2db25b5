//! Checks at run time that a parse tree has the shape that the builders take:
//! for a caller that did not get its tree from the grammar engine, or that
//! does not trust the engine.

use vstd::prelude::*;

use crate::parser::expr::{
    is_binary_operator, is_expression, is_logical_operator, is_unary_operator,
};
use crate::parser::grammar::{Pair, Rule};
use crate::parser::leaf::is_literal;
use crate::parser::program::{is_function, is_parameters, is_program};
use crate::parser::stmt::{is_block, is_initializer, is_statement};
use crate::parser::text::str_eq;

verus! {

/// Whether `pair` is a token that can be read as a literal.
pub fn check_literal(pair: &Pair) -> (ok: bool)
    ensures
        ok == is_literal(pair@),
{
    match pair.rule {
        Rule::Integer | Rule::Float => true,
        Rule::Boolean => str_eq(pair.text.as_str(), "true") || str_eq(pair.text.as_str(), "false"),
        _ => false,
    }
}

fn check_logical_operator(rule: Rule) -> (ok: bool)
    ensures
        ok == is_logical_operator(rule),
{
    match rule {
        Rule::And | Rule::Or => true,
        _ => false,
    }
}

fn check_binary_operator(rule: Rule) -> (ok: bool)
    ensures
        ok == is_binary_operator(rule),
{
    match rule {
        Rule::Plus
        | Rule::Minus
        | Rule::Star
        | Rule::Slash
        | Rule::Greater
        | Rule::GreaterEqual
        | Rule::Less
        | Rule::LessEqual => true,
        _ => false,
    }
}

fn check_unary_operator(pair: &Pair) -> (ok: bool)
    ensures
        ok == is_unary_operator(pair@),
{
    proof {
        pair.lemma_view_inner();
    }
    match pair.rule {
        Rule::UnaryOperator => pair.inner.len() == 1 && match pair.inner[0].rule {
            Rule::Bang | Rule::Minus => true,
            _ => false,
        },
        _ => false,
    }
}

/// Whether every inner node of `pair` from `from` on is an expression subtree.
fn check_expressions(pair: &Pair, from: usize) -> (ok: bool)
    ensures
        ok == forall|i: int| from <= i < pair@.inner.len() ==> is_expression(#[trigger] pair@.inner[i]),
    decreases pair, 0nat,
{
    proof {
        pair.lemma_view_inner();
    }
    let mut i: usize = from;
    while i < pair.inner.len()
        invariant
            from <= i || pair.inner.len() <= i,
            pair@.inner.len() == pair.inner@.len(),
            forall|k: int| 0 <= k < pair.inner@.len() ==> pair@.inner[k] == (#[trigger] pair.inner@[k])@,
            forall|k: int| from <= k < i ==> is_expression(#[trigger] pair@.inner[k]),
        decreases pair.inner.len() - i,
    {
        if !check_expression(&pair.inner[i]) {
            return false;
        }
        i += 1;
    }
    true
}

/// Whether the inner nodes of an infix node are operands and operators of its
/// kind in turn.
fn check_infix(pair: &Pair) -> (ok: bool)
    requires
        pair@.rule == Rule::Logical || pair@.rule == Rule::Binary,
    ensures
        ok == is_expression(pair@),
    decreases pair, 0nat,
{
    proof {
        pair.lemma_view_inner();
    }
    if pair.inner.len() % 2 != 1 {
        return false;
    }
    let logical = match pair.rule {
        Rule::Logical => true,
        _ => false,
    };
    let mut i: usize = 0;
    while i < pair.inner.len()
        invariant
            pair@.rule == Rule::Logical || pair@.rule == Rule::Binary,
            logical == (pair@.rule == Rule::Logical),
            pair.inner.len() % 2 == 1,
            pair@.inner.len() == pair.inner@.len(),
            forall|k: int| 0 <= k < pair.inner@.len() ==> pair@.inner[k] == (#[trigger] pair.inner@[k])@,
            forall|k: int|
                0 <= k < i ==> if k % 2 == 0 {
                    is_expression(#[trigger] pair@.inner[k])
                } else if logical {
                    is_logical_operator(pair@.inner[k].rule)
                } else {
                    is_binary_operator(pair@.inner[k].rule)
                },
        decreases pair.inner.len() - i,
    {
        let inner = &pair.inner[i];
        let ok = if i % 2 == 0 {
            check_expression(inner)
        } else if logical {
            check_logical_operator(inner.rule)
        } else {
            check_binary_operator(inner.rule)
        };
        if !ok {
            return false;
        }
        i += 1;
    }
    true
}

/// Whether the inner nodes of a call node are the callee and then argument
/// lists.
fn check_call(pair: &Pair) -> (ok: bool)
    requires
        pair@.rule == Rule::Call,
    ensures
        ok == is_expression(pair@),
    decreases pair, 1nat,
{
    proof {
        pair.lemma_view_inner();
    }
    if pair.inner.len() < 1 || !check_expression(&pair.inner[0]) {
        return false;
    }
    let mut i: usize = 1;
    while i < pair.inner.len()
        invariant
            pair@.rule == Rule::Call,
            1 <= i,
            is_expression(pair@.inner[0]),
            pair@.inner.len() == pair.inner@.len(),
            forall|k: int| 0 <= k < pair.inner@.len() ==> pair@.inner[k] == (#[trigger] pair.inner@[k])@,
            forall|k: int| 1 <= k < i ==> (#[trigger] pair@.inner[k]).rule == Rule::Arguments,
            forall|k: int, j: int|
                1 <= k < i && 0 <= j < pair@.inner[k].inner.len() ==> is_expression(
                    #[trigger] pair@.inner[k].inner[j],
                ),
        decreases pair.inner.len() - i,
    {
        let arguments = &pair.inner[i];
        let ok = match arguments.rule {
            Rule::Arguments => check_expressions(arguments, 0),
            _ => false,
        };
        if !ok {
            return false;
        }
        i += 1;
    }
    true
}

/// Whether `pair` is an expression subtree.
pub fn check_expression(pair: &Pair) -> (ok: bool)
    ensures
        ok == is_expression(pair@),
    decreases pair, 2nat,
{
    proof {
        pair.lemma_view_inner();
    }
    match pair.rule {
        Rule::Expression => pair.inner.len() == 1 && check_expression(&pair.inner[0]),
        Rule::Logical | Rule::Binary => check_infix(pair),
        Rule::Unary => {
            if pair.inner.len() == 1 {
                check_expression(&pair.inner[0])
            } else if pair.inner.len() == 2 {
                check_unary_operator(&pair.inner[0]) && check_expression(&pair.inner[1])
            } else {
                false
            }
        },
        Rule::Call => check_call(pair),
        Rule::Identifier => true,
        Rule::Integer | Rule::Float | Rule::Boolean => check_literal(pair),
        _ => false,
    }
}

fn check_initializer(pair: &Pair) -> (ok: bool)
    ensures
        ok == is_initializer(pair@),
{
    match pair.rule {
        Rule::Expression => check_expression(pair),
        _ => false,
    }
}

fn has_rule(pair: &Pair, rule: Rule) -> (ok: bool)
    ensures
        ok == (pair@.rule == rule),
{
    pair.rule == rule
}

/// Whether `pair` is a statement subtree.
pub fn check_statement(pair: &Pair) -> (ok: bool)
    ensures
        ok == is_statement(pair@),
    decreases pair,
{
    proof {
        pair.lemma_view_inner();
    }
    let n = pair.inner.len();
    match pair.rule {
        Rule::VariableDeclaration => {
            if n < 1 || n > 3 || !has_rule(&pair.inner[0], Rule::Identifier) {
                false
            } else if n == 2 {
                has_rule(&pair.inner[1], Rule::Ty) || check_initializer(&pair.inner[1])
            } else if n == 3 {
                has_rule(&pair.inner[1], Rule::Ty) && check_initializer(&pair.inner[2])
            } else {
                true
            }
        },
        Rule::ReturnStatement => n == 0 || (n == 1 && check_expression(&pair.inner[0])),
        Rule::ExpressionStatement => n == 1 && check_expression(&pair.inner[0]),
        Rule::Block => {
            let mut i: usize = 0;
            while i < n
                invariant
                    pair@.rule == Rule::Block,
                    n == pair.inner.len(),
                    pair@.inner.len() == pair.inner@.len(),
                    forall|k: int|
                        0 <= k < pair.inner@.len() ==> pair@.inner[k] == (#[trigger] pair.inner@[k])@,
                    forall|k: int| 0 <= k < i ==> is_statement(#[trigger] pair@.inner[k]),
                decreases n - i,
            {
                if !check_statement(&pair.inner[i]) {
                    return false;
                }
                i += 1;
            }
            true
        },
        _ => false,
    }
}

/// Whether `pair` is a block subtree.
pub fn check_block(pair: &Pair) -> (ok: bool)
    ensures
        ok == is_block(pair@),
{
    has_rule(pair, Rule::Block) && check_statement(pair)
}

fn check_parameters(pair: &Pair) -> (ok: bool)
    ensures
        ok == is_parameters(pair@),
{
    proof {
        pair.lemma_view_inner();
    }
    if !has_rule(pair, Rule::FunctionParams) || pair.inner.len() % 2 != 0 {
        return false;
    }
    let mut i: usize = 0;
    while i < pair.inner.len()
        invariant
            pair@.inner.len() == pair.inner@.len(),
            forall|k: int| 0 <= k < pair.inner@.len() ==> pair@.inner[k] == (#[trigger] pair.inner@[k])@,
            forall|k: int|
                0 <= k < i ==> (#[trigger] pair@.inner[k]).rule == if k % 2 == 0 {
                    Rule::Identifier
                } else {
                    Rule::Ty
                },
        decreases pair.inner.len() - i,
    {
        let expected = if i % 2 == 0 {
            Rule::Identifier
        } else {
            Rule::Ty
        };
        if !has_rule(&pair.inner[i], expected) {
            return false;
        }
        i += 1;
    }
    true
}

/// Whether `pair` is a function declaration subtree.
pub fn check_function(pair: &Pair) -> (ok: bool)
    ensures
        ok == is_function(pair@),
{
    proof {
        pair.lemma_view_inner();
    }
    has_rule(pair, Rule::FunctionDeclaration) && pair.inner.len() == 4 && has_rule(
        &pair.inner[0],
        Rule::Identifier,
    ) && check_parameters(&pair.inner[1]) && has_rule(&pair.inner[2], Rule::Ty) && check_block(
        &pair.inner[3],
    )
}

/// Whether `pair` is a whole parse tree.
pub fn check_program(pair: &Pair) -> (ok: bool)
    ensures
        ok == is_program(pair@),
{
    proof {
        pair.lemma_view_inner();
    }
    let n = pair.inner.len();
    if !has_rule(pair, Rule::Program) || n < 1 || !has_rule(&pair.inner[n - 1], Rule::EndOfInput) {
        return false;
    }
    let mut i: usize = 0;
    while i < n - 1
        invariant
            1 <= n == pair.inner.len(),
            pair@.inner.len() == pair.inner@.len(),
            forall|k: int| 0 <= k < pair.inner@.len() ==> pair@.inner[k] == (#[trigger] pair.inner@[k])@,
            forall|k: int| 0 <= k < i ==> is_function(#[trigger] pair@.inner[k]),
        decreases n - i,
    {
        if !check_function(&pair.inner[i]) {
            return false;
        }
        i += 1;
    }
    true
}

/// Whether the tree is well spanned: the span of every node is valid, holds
/// the spans of the nodes inside it, and those stand in order.
pub fn check_spans(pair: &Pair) -> (ok: bool)
    ensures
        ok == pair@.well_spanned(),
    decreases pair,
{
    proof {
        pair.lemma_view_inner();
    }
    let location = pair.location;
    if location.start > location.end {
        return false;
    }
    let mut i: usize = 0;
    while i < pair.inner.len()
        invariant
            location == pair@.location,
            location.is_valid(),
            i <= pair.inner.len(),
            pair@.inner.len() == pair.inner@.len(),
            forall|k: int| 0 <= k < pair.inner@.len() ==> pair@.inner[k] == (#[trigger] pair.inner@[k])@,
            forall|k: int|
                0 <= k < i ==> (#[trigger] pair@.inner[k]).well_spanned() && location.contains(
                    pair@.inner[k].location,
                ),
            forall|a: int, b: int|
                0 <= a < b < i ==> (#[trigger] pair@.inner[a]).location.precedes(
                    (#[trigger] pair@.inner[b]).location,
                ),
        decreases pair.inner.len() - i,
    {
        let inner = &pair.inner[i];
        let fits = location.start <= inner.location.start && inner.location.end <= location.end;
        let follows = i == 0 || pair.inner[i - 1].location.end <= inner.location.start;
        if !fits || !follows || !check_spans(inner) {
            return false;
        }
        proof {
            assert forall|a: int, b: int| 0 <= a < b < i + 1 implies (#[trigger] pair@.inner[a]).location.precedes(
                (#[trigger] pair@.inner[b]).location,
            ) by {
                if b == i && a < i - 1 {
                    assert(pair@.inner[a].location.precedes(pair@.inner[i - 1].location));
                    assert(pair@.inner[i - 1].well_spanned());
                }
            }
        }
        i += 1;
    }
    true
}

} // verus!
