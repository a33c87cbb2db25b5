//! The whole parse: its boundary case, and that it is a function of the tree.

use vstd::prelude::*;

use crate::ast::ast::{Program, ProgramView};
use crate::ast::location::Location;
use crate::parser::error::{ParsingErrorView, ParsingErrors};
use crate::parser::grammar::{Pair, PairView, Rule};
use crate::parser::outcome::result_view;
use crate::parser::program::{is_program, program_of};

verus! {

/// A program without declarations is empty and spans from the start of the
/// source to the end of the end-of-input marker.
pub proof fn lemma_empty_program(pair: PairView)
    requires
        pair.rule == Rule::Program,
        pair.inner.len() == 1,
        pair.inner[0].rule == Rule::EndOfInput,
    ensures
        is_program(pair),
        program_of(pair) == Ok::<ProgramView, Seq<ParsingErrorView>>(
            ProgramView {
                decls: Seq::empty(),
                location: Location { start: 0, end: pair.inner[0].location.end },
            },
        ),
{
}

/// Parsing is a function of the tree: whatever two parses of trees with the
/// same view return, the views of what they return are the same.
pub proof fn lemma_parse_twice(
    first_tree: Pair,
    second_tree: Pair,
    first: Result<Program, ParsingErrors>,
    second: Result<Program, ParsingErrors>,
)
    requires
        first_tree@ == second_tree@,
        result_view(first) == program_of(first_tree@),
        result_view(second) == program_of(second_tree@),
    ensures
        result_view(first) == result_view(second),
{
}

} // verus!
