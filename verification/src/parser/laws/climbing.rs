//! How infix operators group their operands.

use vstd::prelude::*;

use crate::ast::ast::ExprView;
use crate::ast::location::Location;
use crate::parser::expr::{climb, infix_expr, is_root, lemma_climb_at_root, root_of, tier};
use crate::parser::grammar::Rule;

verus! {

/// Every run of operators that is not empty has a root.
pub proof fn lemma_root_exists(operators: Seq<Rule>)
    requires
        operators.len() > 0,
    ensures
        is_root(operators, root_of(operators)),
    decreases operators.len(),
{
    let n = operators.len() as int;
    if n == 1 {
        assert(is_root(operators, 0));
    } else {
        let front = operators.drop_last();
        lemma_root_exists(front);
        let k = root_of(front);
        if tier(operators[n - 1]) <= tier(front[k]) {
            assert forall|i: int| 0 <= i < n - 1 implies tier(#[trigger] operators[i]) >= tier(
                operators[n - 1],
            ) by {
                assert(operators[i] == front[i]);
            }
            assert(is_root(operators, n - 1));
        } else {
            assert forall|i: int| 0 <= i < k implies tier(#[trigger] operators[i]) >= tier(
                operators[k],
            ) by {
                assert(operators[i] == front[i]);
            }
            assert forall|i: int| k < i < n implies tier(#[trigger] operators[i]) > tier(
                operators[k],
            ) by {
                if i < n - 1 {
                    assert(operators[i] == front[i]);
                }
            }
            assert(is_root(operators, k));
        }
    }
}

/// Operators of one tier group from the left, and an operator of a higher tier
/// binds tighter than one of a lower tier, on whichever side it stands.
pub proof fn lemma_climb_three(a: ExprView, b: ExprView, c: ExprView, first: Rule, second: Rule)
    ensures
        tier(first) >= tier(second) ==> climb(seq![a, b, c], seq![first, second]) == infix_expr(
            second,
            infix_expr(first, a, b),
            c,
        ),
        tier(first) < tier(second) ==> climb(seq![a, b, c], seq![first, second]) == infix_expr(
            first,
            a,
            infix_expr(second, b, c),
        ),
{
    let operands = seq![a, b, c];
    let operators = seq![first, second];
    if tier(first) >= tier(second) {
        lemma_climb_at_root(operands, operators, 1);
        let left = operands.subrange(0, 2);
        let left_operators = operators.subrange(0, 1);
        lemma_climb_at_root(left, left_operators, 0);
    } else {
        lemma_climb_at_root(operands, operators, 0);
        let right = operands.subrange(1, 3);
        let right_operators = operators.subrange(1, 2);
        lemma_climb_at_root(right, right_operators, 0);
    }
}

/// What a run of operands makes when every operator joins all that stands
/// before it with the one operand behind it.
pub open spec fn left_fold(operands: Seq<ExprView>, operators: Seq<Rule>) -> ExprView
    decreases operators.len(),
{
    if operators.len() == 0 {
        operands[0]
    } else {
        infix_expr(
            operators.last(),
            left_fold(operands.drop_last(), operators.drop_last()),
            operands.last(),
        )
    }
}

/// Operators of one tier group from the left, however many they are.
pub proof fn lemma_one_tier_folds_left(operands: Seq<ExprView>, operators: Seq<Rule>)
    requires
        operands.len() == operators.len() + 1,
        forall|i: int, j: int|
            0 <= i < operators.len() && 0 <= j < operators.len() ==> tier(operators[i]) == tier(
                operators[j],
            ),
    ensures
        climb(operands, operators) == left_fold(operands, operators),
    decreases operators.len(),
{
    if operators.len() > 0 {
        let k = operators.len() - 1;
        lemma_climb_at_root(operands, operators, k);
        lemma_one_tier_folds_left(operands.drop_last(), operators.drop_last());
    }
}

/// The climb of well-formed operands that stand in order is well formed, and
/// spans exactly from the start of the first operand to the end of the last.
pub proof fn lemma_climb_well_formed(operands: Seq<ExprView>, operators: Seq<Rule>)
    requires
        operands.len() == operators.len() + 1,
        forall|i: int| 0 <= i < operands.len() ==> (#[trigger] operands[i]).well_formed(),
        forall|i: int, j: int|
            0 <= i < j < operands.len() ==> (#[trigger] operands[i]).location.precedes(
                (#[trigger] operands[j]).location,
            ),
    ensures
        climb(operands, operators).well_formed(),
        climb(operands, operators).location == (Location {
            start: operands[0].location.start,
            end: operands.last().location.end,
        }),
    decreases operators.len(),
{
    if operators.len() > 0 {
        lemma_root_exists(operators);
        let k = root_of(operators);
        let left = operands.subrange(0, k + 1);
        let right = operands.subrange(k + 1, operands.len() as int);
        assert forall|i: int, j: int| 0 <= i < j < left.len() implies (#[trigger] left[i]).location.precedes(
            (#[trigger] left[j]).location,
        ) by {}
        assert forall|i: int, j: int| 0 <= i < j < right.len() implies (#[trigger] right[i]).location.precedes(
            (#[trigger] right[j]).location,
        ) by {}
        lemma_climb_well_formed(left, operators.subrange(0, k));
        lemma_climb_well_formed(right, operators.subrange(k + 1, operators.len() as int));
    }
}

} // verus!
