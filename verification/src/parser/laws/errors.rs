//! What is reported when a parse fails.

use vstd::prelude::*;

use crate::parser::outcome::{errors_of, lemma_errors_of_prefix};
use crate::parser::grammar::PairView;
use crate::parser::program::{function_of, program_of};
use crate::parser::stmt::{block_of, statement_outcomes, stmt_of};

verus! {

/// A statement that fails reports at least one error.
pub proof fn lemma_stmt_errors_not_empty(pair: PairView)
    ensures
        stmt_of(pair) matches Err(errors) ==> errors.len() > 0,
        block_of(pair) matches Err(errors) ==> errors.len() > 0,
{
}

/// A function declaration that fails reports at least one error.
pub proof fn lemma_function_errors_not_empty(pair: PairView)
    ensures
        function_of(pair) matches Err(errors) ==> errors.len() > 0,
{
    lemma_stmt_errors_not_empty(pair.inner[3]);
}

/// Whoever parses gets a program or at least one error.
pub proof fn lemma_errors_not_empty(pair: PairView)
    ensures
        program_of(pair) matches Err(errors) ==> errors.len() > 0,
{
}

/// No error of a statement of a block is lost or moved: where the statement at
/// `i` fails, the block fails, and the errors of that statement stand in the
/// errors of the block, behind those of the statements before it.
pub proof fn lemma_block_keeps_errors(pair: PairView, i: int)
    requires
        0 <= i < pair.inner.len(),
        stmt_of(pair.inner[i]) is Err,
    ensures
        block_of(pair) matches Err(errors) && {
            let before = errors_of(statement_outcomes(pair), i);
            let own = stmt_of(pair.inner[i])->Err_0;
            &&& before.len() + own.len() <= errors.len()
            &&& errors.subrange(0, before.len() as int) == before
            &&& errors.subrange(before.len() as int, (before.len() + own.len()) as int) == own
        },
{
    let outcomes = statement_outcomes(pair);
    lemma_stmt_errors_not_empty(pair.inner[i]);
    lemma_errors_of_prefix(outcomes, i + 1, outcomes.len() as int);
    let upto = errors_of(outcomes, i + 1);
    let all = errors_of(outcomes, outcomes.len() as int);
    let before = errors_of(outcomes, i);
    let own = stmt_of(pair.inner[i])->Err_0;
    assert(all.subrange(0, before.len() as int) =~= before);
    assert(all.subrange(before.len() as int, (before.len() + own.len()) as int) =~= own) by {
        assert(upto.subrange(before.len() as int, (before.len() + own.len()) as int) =~= own);
    }
}

} // verus!
