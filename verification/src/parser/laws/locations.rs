//! Where the nodes of the syntax tree lie: every location is valid and lies
//! inside the location of the node that holds it.

use vstd::prelude::*;

use crate::parser::expr::{
    argument_outcomes, call_of, expr_of, is_expression, operand_outcomes, operators_of,
};
use crate::parser::grammar::{PairView, Rule};
use crate::parser::laws::climbing::lemma_climb_well_formed;
use crate::parser::outcome::{collected, lemma_collected_ok, lemma_required_ok, required, values};
use crate::parser::program::{
    declaration_outcomes, function_of, is_function, is_program, parameter_outcomes, program_of,
};
use crate::parser::stmt::{block_of, is_block, is_statement, statement_outcomes, stmt_of};

verus! {

/// The expression that a well-spanned expression subtree denotes is well
/// formed and lies inside the span of the subtree.
pub proof fn lemma_expr_well_formed(pair: PairView)
    requires
        is_expression(pair),
        pair.well_spanned(),
    ensures
        expr_of(pair) matches Ok(expr) ==> expr.well_formed() && pair.location.contains(
            expr.location,
        ),
    decreases pair, pair.inner.len() + 1,
{
    match pair.rule {
        Rule::Expression => {
            lemma_expr_well_formed(pair.inner[0]);
        },
        Rule::Logical | Rule::Binary => {
            let outcomes = operand_outcomes(pair);
            if required(outcomes) is Ok {
                lemma_required_ok(outcomes);
                let operands = values(outcomes);
                assert forall|i: int| 0 <= i < operands.len() implies (#[trigger] operands[i]).well_formed()
                    && pair.inner[2 * i].location.contains(operands[i].location) by {
                    lemma_expr_well_formed(pair.inner[2 * i]);
                }
                assert forall|i: int, j: int| 0 <= i < j < operands.len() implies (
                #[trigger] operands[i]).location.precedes((#[trigger] operands[j]).location) by {}
                lemma_climb_well_formed(operands, operators_of(pair));
            }
        },
        Rule::Unary => {
            if pair.inner.len() > 1 && pair.inner[0].rule == Rule::UnaryOperator {
                lemma_expr_well_formed(pair.inner[1]);
                assert(pair.inner[0].well_spanned());
            } else {
                reveal_with_fuel(is_expression, 2);
                lemma_expr_well_formed(pair.inner[0]);
            }
        },
        Rule::Call => {
            lemma_call_well_formed(pair, (pair.inner.len() - 1) as nat);
        },
        _ => {},
    }
}

/// What a well-spanned call node denotes with its first `n` argument lists
/// applied is well formed, starts inside the callee and ends inside the last
/// of those argument lists.
pub proof fn lemma_call_well_formed(pair: PairView, n: nat)
    requires
        pair.rule == Rule::Call,
        is_expression(pair),
        pair.well_spanned(),
        n < pair.inner.len(),
    ensures
        call_of(pair, n) matches Ok(expr) ==> expr.well_formed() && pair.inner[0].location.start
            <= expr.location.start && expr.location.end <= pair.inner[n as int].location.end,
    decreases pair, n,
{
    if n == 0 {
        lemma_expr_well_formed(pair.inner[0]);
    } else {
        lemma_call_well_formed(pair, (n - 1) as nat);
        let arguments = pair.inner[n as int];
        let outcomes = argument_outcomes(arguments);
        if call_of(pair, n) is Ok {
            lemma_required_ok(outcomes);
            let args = values(outcomes);
            let expr = call_of(pair, n)->Ok_0;
            assert(arguments.well_spanned());
            assert forall|j: int| 0 <= j < args.len() implies (#[trigger] args[j]).well_formed()
                && expr.location.contains(args[j].location) by {
                lemma_expr_well_formed(arguments.inner[j]);
            }
        }
    }
}

/// The statement that a well-spanned statement subtree denotes is well formed
/// and has the span of the subtree as its location.
pub proof fn lemma_stmt_well_formed(pair: PairView)
    requires
        is_statement(pair),
        pair.well_spanned(),
    ensures
        stmt_of(pair) matches Ok(stmt) ==> stmt.well_formed() && stmt.location == pair.location,
    decreases pair, 1nat,
{
    match pair.rule {
        Rule::VariableDeclaration => {
            if pair.inner.len() >= 2 && pair.inner.last().rule == Rule::Expression {
                lemma_expr_well_formed(pair.inner.last());
            }
            assert(pair.inner[0].well_spanned());
            if pair.inner.len() >= 2 {
                assert(pair.inner[1].well_spanned());
            }
        },
        Rule::ReturnStatement => {
            if pair.inner.len() > 0 {
                lemma_expr_well_formed(pair.inner[0]);
            }
        },
        Rule::ExpressionStatement => {
            lemma_expr_well_formed(pair.inner[0]);
        },
        _ => {
            lemma_block_well_formed(pair);
        },
    }
}

/// The block that a well-spanned block subtree denotes is well formed and has
/// the span of the subtree as its location.
pub proof fn lemma_block_well_formed(pair: PairView)
    requires
        is_block(pair),
        pair.well_spanned(),
    ensures
        block_of(pair) matches Ok(block) ==> block.well_formed() && block.location == pair.location,
    decreases pair, 0nat,
{
    let outcomes = statement_outcomes(pair);
    if collected(outcomes) is Ok {
        lemma_collected_ok(outcomes);
        let stmts = values(outcomes);
        assert forall|i: int| 0 <= i < stmts.len() implies (#[trigger] stmts[i]).well_formed()
            && pair.location.contains(stmts[i].location) by {
            lemma_stmt_well_formed(pair.inner[i]);
        }
    }
}

/// The function that a well-spanned declaration subtree denotes is well formed
/// and has the span of the subtree as its location.
pub proof fn lemma_function_well_formed(pair: PairView)
    requires
        is_function(pair),
        pair.well_spanned(),
    ensures
        function_of(pair) matches Ok(decl) ==> decl.well_formed() && decl.location == pair.location,
{
    if function_of(pair) is Ok {
        let params = pair.inner[1];
        let outcomes = parameter_outcomes(params);
        lemma_required_ok(outcomes);
        assert(pair.inner[0].well_spanned());
        assert(pair.inner[2].well_spanned());
        assert(params.well_spanned());
        let names = values(outcomes);
        assert forall|i: int| 0 <= i < names.len() implies {
            &&& (#[trigger] names[i]).0.well_formed()
            &&& names[i].1.well_formed()
            &&& pair.location.contains(names[i].0.location)
            &&& pair.location.contains(names[i].1.location)
        } by {
            assert(params.inner[2 * i].well_spanned());
            assert(params.inner[2 * i + 1].well_spanned());
        }
        lemma_block_well_formed(pair.inner[3]);
    }
}

/// The program that a well-spanned parse tree denotes is well formed: the
/// location of every node is valid and lies inside the location of the node
/// that holds it.
pub proof fn lemma_program_well_formed(pair: PairView)
    requires
        is_program(pair),
        pair.well_spanned(),
    ensures
        program_of(pair) matches Ok(program) ==> program.well_formed(),
{
    let outcomes = declaration_outcomes(pair);
    if collected(outcomes) is Ok {
        lemma_collected_ok(outcomes);
        let decls = values(outcomes);
        let last = pair.inner.len() - 1;
        assert(pair.inner[last].well_spanned());
        assert forall|i: int| 0 <= i < decls.len() implies (#[trigger] decls[i]).well_formed()
            && program_of(pair)->Ok_0.location.contains(decls[i].location) by {
            lemma_function_well_formed(pair.inner[i]);
        }
    }
}

} // verus!
