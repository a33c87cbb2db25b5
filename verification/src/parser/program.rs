//! The top of the tree: function declarations and the program.

use vstd::prelude::*;

use crate::ast::ast::{
    Ident, IdentView, Program, ProgramView, TopLevelDecl, TopLevelDeclKind, TopLevelDeclKindView,
    TopLevelDeclView, Ty, TyView,
};
use crate::ast::location::Location;
use crate::parser::context::ParsingCtx;
use crate::parser::error::{
    errors_from, GrammarError, GrammarErrorView, ParsingError, ParsingErrorView, ParsingErrors,
};
use crate::parser::grammar::{Pair, PairView, Rule};
use crate::parser::laws::locations::{lemma_function_well_formed, lemma_program_well_formed};
use crate::parser::leaf::{ident_of, parse_ident, parse_ty, ty_of};
use crate::parser::outcome::{
    collected, errors_of, lemma_first_error_is, lemma_no_error, required, result_view,
    successes_of, values,
};
use crate::parser::stmt::{block_of, is_block, parse_block};

verus! {

/// The shape of a parameter list: names and types in turn.
pub open spec fn is_parameters(pair: PairView) -> bool {
    &&& pair.rule == Rule::FunctionParams
    &&& pair.inner.len() % 2 == 0
    &&& forall|i: int|
        0 <= i < pair.inner.len() ==> (#[trigger] pair.inner[i]).rule == if i % 2 == 0 {
            Rule::Identifier
        } else {
            Rule::Ty
        }
}

/// The shape of a function declaration: the name, the parameters, the return
/// type and the body.
pub open spec fn is_function(pair: PairView) -> bool {
    &&& pair.rule == Rule::FunctionDeclaration
    &&& pair.inner.len() == 4
    &&& pair.inner[0].rule == Rule::Identifier
    &&& is_parameters(pair.inner[1])
    &&& pair.inner[2].rule == Rule::Ty
    &&& is_block(pair.inner[3])
}

/// The shape of a whole parse tree: function declarations, then the
/// end-of-input marker.
pub open spec fn is_program(pair: PairView) -> bool {
    &&& pair.rule == Rule::Program
    &&& pair.inner.len() >= 1
    &&& pair.inner.last().rule == Rule::EndOfInput
    &&& forall|i: int| 0 <= i < pair.inner.len() - 1 ==> is_function(#[trigger] pair.inner[i])
}

/// The parameter that a name and a type denote, or the error of the first of
/// them that denotes nothing.
pub open spec fn parameter_of(name: PairView, ty: PairView) -> Result<
    (IdentView, TyView),
    ParsingErrorView,
> {
    match ident_of(name) {
        Ok(name) => match ty_of(ty) {
            Ok(ty) => Ok((name, ty)),
            Err(error) => Err(error),
        },
        Err(error) => Err(error),
    }
}

/// What the parameters of a parameter list denote, in order.
pub open spec fn parameter_outcomes(pair: PairView) -> Seq<
    Result<(IdentView, TyView), ParsingErrorView>,
> {
    Seq::new(
        (pair.inner.len() / 2) as nat,
        |i: int| parameter_of(pair.inner[2 * i], pair.inner[2 * i + 1]),
    )
}

/// The name, parameters and return type of a function declaration, or the
/// error of the first of them that denotes nothing.
pub open spec fn signature_of(pair: PairView) -> Result<
    (IdentView, Seq<(IdentView, TyView)>, TyView),
    ParsingErrorView,
> {
    match ident_of(pair.inner[0]) {
        Ok(name) => match required(parameter_outcomes(pair.inner[1])) {
            Ok(params) => match ty_of(pair.inner[2]) {
                Ok(return_ty) => Ok((name, params, return_ty)),
                Err(error) => Err(error),
            },
            Err(error) => Err(error),
        },
        Err(error) => Err(error),
    }
}

/// The function that a declaration subtree denotes, or its errors: the one
/// error of its signature, or else all errors of its body.
pub open spec fn function_of(pair: PairView) -> Result<TopLevelDeclView, Seq<ParsingErrorView>> {
    match signature_of(pair) {
        Ok((name, params, return_ty)) => match block_of(pair.inner[3]) {
            Ok(body) => Ok(
                TopLevelDeclView {
                    kind: TopLevelDeclKindView::Fn(name, params, return_ty, body),
                    location: pair.location,
                },
            ),
            Err(errors) => Err(errors),
        },
        Err(error) => Err(seq![error]),
    }
}

/// What the declarations of a program denote, in order.
pub open spec fn declaration_outcomes(pair: PairView) -> Seq<
    Result<TopLevelDeclView, Seq<ParsingErrorView>>,
> {
    Seq::new((pair.inner.len() - 1) as nat, |i: int| function_of(pair.inner[i]))
}

/// The program that a parse tree denotes, or the errors of all its
/// declarations, in order. The program spans from the start of the source to
/// the end of the end-of-input marker.
pub open spec fn program_of(pair: PairView) -> Result<ProgramView, Seq<ParsingErrorView>> {
    match collected(declaration_outcomes(pair)) {
        Ok(decls) => Ok(
            ProgramView {
                decls,
                location: Location { start: 0, end: pair.inner.last().location.end },
            },
        ),
        Err(errors) => Err(errors),
    }
}

/// Builds the parameters of a function declaration. The first name or type
/// that fails ends the work.
fn parse_params(pair: &Pair) -> (res: Result<Vec<(Ident, Ty)>, ParsingError>)
    requires
        is_parameters(pair@),
    ensures
        result_view(res) == required(parameter_outcomes(pair@)),
{
    proof {
        pair.lemma_view_inner();
    }
    let ghost outcomes = parameter_outcomes(pair@);
    let mut params: Vec<(Ident, Ty)> = Vec::new();
    let mut i: usize = 0;
    while i + 1 < pair.inner.len()
        invariant
            is_parameters(pair@),
            outcomes == parameter_outcomes(pair@),
            i % 2 == 0,
            i <= pair.inner.len(),
            pair@.inner.len() == pair.inner@.len(),
            forall|k: int| 0 <= k < pair.inner@.len() ==> pair@.inner[k] == (#[trigger] pair.inner@[k])@,
            params@.len() == i / 2,
            forall|k: int|
                0 <= k < i / 2 ==> (#[trigger] outcomes[k]) == Ok::<
                    (IdentView, TyView),
                    ParsingErrorView,
                >(params@[k].deep_view()),
        decreases pair.inner.len() - i,
    {
        let name = match parse_ident(&pair.inner[i]) {
            Ok(name) => name,
            Err(error) => {
                proof {
                    lemma_first_error_is(outcomes, i as int / 2);
                }
                return Err(error);
            },
        };
        let ty = match parse_ty(&pair.inner[i + 1]) {
            Ok(ty) => ty,
            Err(error) => {
                proof {
                    lemma_first_error_is(outcomes, i as int / 2);
                }
                return Err(error);
            },
        };
        params.push((name, ty));
        i += 2;
    }
    proof {
        lemma_no_error(outcomes);
        assert(params.deep_view() =~= values(outcomes));
    }
    Ok(params)
}

/// Builds the function that a declaration subtree denotes. A failure in the
/// name, the parameters or the return type ends the work with that one error;
/// otherwise the errors are those of the body.
pub fn parse_top_level_decl(pair: &Pair) -> (res: Result<TopLevelDecl, ParsingErrors>)
    requires
        is_function(pair@),
    ensures
        result_view(res) == function_of(pair@),
        res matches Err(errors) ==> errors@.len() > 0,
        pair@.well_spanned() ==> (res matches Ok(decl) ==> decl@.well_formed() && decl@.location
            == pair@.location),
{
    proof {
        pair.lemma_view_inner();
        if pair@.well_spanned() {
            lemma_function_well_formed(pair@);
        }
    }
    let location = pair.location;
    let name = match parse_ident(&pair.inner[0]) {
        Ok(name) => name,
        Err(error) => {
            return Err(errors_from(error));
        },
    };
    let params = match parse_params(&pair.inner[1]) {
        Ok(params) => params,
        Err(error) => {
            return Err(errors_from(error));
        },
    };
    let return_ty = match parse_ty(&pair.inner[2]) {
        Ok(return_ty) => return_ty,
        Err(error) => {
            return Err(errors_from(error));
        },
    };
    match parse_block(&pair.inner[3]) {
        Ok(body) => Ok(
            TopLevelDecl { kind: TopLevelDeclKind::Fn(name, params, return_ty, body), location },
        ),
        Err(errors) => Err(errors),
    }
}

/// Builds the program that a parse tree denotes. Every declaration is tried,
/// whatever became of those before it; the program fails with the errors of
/// all its declarations, in order, if any of them fails.
pub fn parse_program(pair: &Pair) -> (res: Result<Program, ParsingErrors>)
    requires
        is_program(pair@),
    ensures
        result_view(res) == program_of(pair@),
        res matches Err(errors) ==> errors@.len() > 0,
        pair@.well_spanned() ==> (res matches Ok(program) ==> program@.well_formed()),
{
    proof {
        pair.lemma_view_inner();
        if pair@.well_spanned() {
            lemma_program_well_formed(pair@);
        }
    }
    let ghost outcomes = declaration_outcomes(pair@);
    let count = pair.inner.len() - 1;
    let mut ctx = ParsingCtx::new();
    let mut decls: Vec<TopLevelDecl> = Vec::new();
    let mut i: usize = 0;
    while i < count
        invariant
            is_program(pair@),
            outcomes == declaration_outcomes(pair@),
            count == pair.inner.len() - 1,
            i <= count,
            pair@.inner.len() == pair.inner@.len(),
            forall|k: int| 0 <= k < pair.inner@.len() ==> pair@.inner[k] == (#[trigger] pair.inner@[k])@,
            ctx@ == errors_of(outcomes, i as int),
            decls.deep_view() == successes_of(outcomes, i as int),
        decreases count - i,
    {
        match parse_top_level_decl(&pair.inner[i]) {
            Ok(decl) => {
                decls.push(decl);
            },
            Err(errors) => {
                ctx.record(errors);
            },
        }
        i += 1;
    }
    if ctx.is_failed() {
        Err(ctx.into_errors())
    } else {
        let end = pair.inner[count].location.end();
        Ok(Program { decls, location: Location::new(0, end) })
    }
}

/// What a parse comes to, given what the grammar engine made of the source
/// text: the program that its parse tree denotes, or the errors of that tree,
/// or the one error that stands for the engine's failure.
pub open spec fn parse_of(outcome: Result<PairView, GrammarErrorView>) -> Result<
    ProgramView,
    Seq<ParsingErrorView>,
> {
    match outcome {
        Ok(pair) => program_of(pair),
        Err(err) => Err(seq![err.error()]),
    }
}

/// Builds the program from what the grammar engine made of the source text.
/// Where the engine failed, its failure is the one error of the parse.
pub fn parse(outcome: Result<Pair, GrammarError>) -> (res: Result<Program, ParsingErrors>)
    requires
        outcome matches Ok(pair) ==> is_program(pair@),
    ensures
        result_view(res) == parse_of(
            match outcome {
                Ok(pair) => Ok(pair@),
                Err(err) => Err(err@),
            },
        ),
        res matches Err(errors) ==> errors@.len() > 0,
        outcome matches Ok(pair) && pair@.well_spanned() ==> (res matches Ok(program)
            ==> program@.well_formed()),
{
    match outcome {
        Ok(pair) => parse_program(&pair),
        Err(err) => Err(errors_from(ParsingError::from(err))),
    }
}

} // verus!
