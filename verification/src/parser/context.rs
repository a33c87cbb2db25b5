//! The errors that a parse has found so far.

use vstd::prelude::*;

use crate::parser::error::{ParsingErrorView, ParsingErrors};

verus! {

/// The errors found so far among the parts of a node of which every part is
/// tried, whatever became of those before it.
pub struct ParsingCtx {
    pub errors: ParsingErrors,
}

impl View for ParsingCtx {
    type V = Seq<ParsingErrorView>;

    open spec fn view(&self) -> Seq<ParsingErrorView> {
        self.errors.deep_view()
    }
}

impl ParsingCtx {
    /// No errors yet.
    pub fn new() -> (ctx: Self)
        ensures
            ctx@ == Seq::<ParsingErrorView>::empty(),
    {
        let ctx = ParsingCtx { errors: Vec::new() };
        ctx
    }

    /// Whether any error was found.
    pub fn is_failed(&self) -> (failed: bool)
        ensures
            failed == (self@.len() > 0),
    {
        self.errors.len() > 0
    }

    /// Adds the errors of one more part, behind those found before.
    pub fn record(&mut self, errors: ParsingErrors)
        ensures
            final(self)@ == old(self)@ + errors.deep_view(),
    {
        let mut errors = errors;
        self.errors.append(&mut errors);
    }

    /// The errors found, in the order in which they were found.
    pub fn into_errors(self) -> (errors: ParsingErrors)
        ensures
            errors.deep_view() == self@,
    {
        self.errors
    }
}

} // verus!
