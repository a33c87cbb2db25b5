//! The statement builder: variable declarations, returns, expression
//! statements and blocks.

use vstd::prelude::*;

use crate::ast::ast::{
    Block, BlockView, Decl, DeclKind, DeclKindView, DeclView, Expr, ExprView, Stmt, StmtKind,
    StmtKindView, StmtView, Ty, TyView,
};
use crate::parser::context::ParsingCtx;
use crate::parser::error::{errors_from, ParsingError, ParsingErrorView, ParsingErrors};
use crate::parser::expr::{expr_of, is_expression, parse_expr};
use crate::parser::grammar::{Pair, PairView, Rule};
use crate::parser::laws::locations::{lemma_block_well_formed, lemma_stmt_well_formed};
use crate::parser::leaf::{ident_of, parse_ident, parse_ty, ty_of};
use crate::parser::outcome::{collected, errors_of, result_view, successes_of};

verus! {

/// The initializer of a variable declaration: an `Expression` node.
pub open spec fn is_initializer(pair: PairView) -> bool {
    pair.rule == Rule::Expression && is_expression(pair)
}

/// The shape of a statement subtree.
///
/// - A `VariableDeclaration` node holds the name, then the type if one is
///   declared, then the initializer if there is one.
/// - A `ReturnStatement` node holds the returned expression, or nothing.
/// - An `ExpressionStatement` node holds one expression.
/// - A `Block` node holds statements.
pub open spec fn is_statement(pair: PairView) -> bool
    decreases pair,
{
    match pair.rule {
        Rule::VariableDeclaration => {
            &&& 1 <= pair.inner.len() <= 3
            &&& pair.inner[0].rule == Rule::Identifier
            &&& pair.inner.len() == 2 ==> pair.inner[1].rule == Rule::Ty || is_initializer(
                pair.inner[1],
            )
            &&& pair.inner.len() == 3 ==> pair.inner[1].rule == Rule::Ty && is_initializer(
                pair.inner[2],
            )
        },
        Rule::ReturnStatement => {
            ||| pair.inner.len() == 0
            ||| pair.inner.len() == 1 && is_expression(pair.inner[0])
        },
        Rule::ExpressionStatement => pair.inner.len() == 1 && is_expression(pair.inner[0]),
        Rule::Block => forall|i: int|
            0 <= i < pair.inner.len() ==> is_statement(#[trigger] pair.inner[i]),
        _ => false,
    }
}

/// The shape of a block subtree.
pub open spec fn is_block(pair: PairView) -> bool {
    pair.rule == Rule::Block && is_statement(pair)
}

/// The declared type of a variable declaration, where it declares one.
pub open spec fn declared_type_of(pair: PairView) -> Result<Option<TyView>, ParsingErrorView> {
    if pair.inner.len() >= 2 && pair.inner[1].rule == Rule::Ty {
        match ty_of(pair.inner[1]) {
            Ok(ty) => Ok(Some(ty)),
            Err(error) => Err(error),
        }
    } else {
        Ok(None)
    }
}

/// The initializer of a variable declaration, where it has one.
pub open spec fn initializer_of(pair: PairView) -> Result<Option<ExprView>, ParsingErrorView> {
    if pair.inner.len() >= 2 && pair.inner.last().rule == Rule::Expression {
        match expr_of(pair.inner.last()) {
            Ok(init) => Ok(Some(init)),
            Err(error) => Err(error),
        }
    } else {
        Ok(None)
    }
}

/// The variable declaration that a node denotes, or the error of the first of
/// name, type and initializer that denotes nothing.
pub open spec fn var_decl_of(pair: PairView) -> Result<StmtView, ParsingErrorView> {
    match ident_of(pair.inner[0]) {
        Ok(name) => match declared_type_of(pair) {
            Ok(ty) => match initializer_of(pair) {
                Ok(init) => Ok(
                    StmtView {
                        kind: StmtKindView::Decl(
                            DeclView {
                                kind: DeclKindView::Var(name, ty, init),
                                location: pair.location,
                            },
                        ),
                        location: pair.location,
                    },
                ),
                Err(error) => Err(error),
            },
            Err(error) => Err(error),
        },
        Err(error) => Err(error),
    }
}

/// The return statement that a node denotes.
pub open spec fn return_of(pair: PairView) -> Result<StmtView, ParsingErrorView> {
    if pair.inner.len() > 0 {
        match expr_of(pair.inner[0]) {
            Ok(value) => Ok(
                StmtView { kind: StmtKindView::Ret(Some(value)), location: pair.location },
            ),
            Err(error) => Err(error),
        }
    } else {
        Ok(StmtView { kind: StmtKindView::Ret(None), location: pair.location })
    }
}

/// The expression statement that a node denotes.
pub open spec fn expr_stmt_of(pair: PairView) -> Result<StmtView, ParsingErrorView> {
    match expr_of(pair.inner[0]) {
        Ok(expr) => Ok(StmtView { kind: StmtKindView::Expr(expr), location: pair.location }),
        Err(error) => Err(error),
    }
}

/// A failure with one error is a failure with the list of that error.
pub open spec fn alone<T>(outcome: Result<T, ParsingErrorView>) -> Result<
    T,
    Seq<ParsingErrorView>,
> {
    match outcome {
        Ok(value) => Ok(value),
        Err(error) => Err(seq![error]),
    }
}

/// The statement that a statement subtree denotes, or its errors. A statement
/// other than a block has at most one error; a block has those of all its
/// statements.
pub open spec fn stmt_of(pair: PairView) -> Result<StmtView, Seq<ParsingErrorView>>
    decreases pair, 2nat,
{
    match pair.rule {
        Rule::VariableDeclaration => alone(var_decl_of(pair)),
        Rule::ReturnStatement => alone(return_of(pair)),
        Rule::ExpressionStatement => alone(expr_stmt_of(pair)),
        _ => match block_of(pair) {
            Ok(block) => Ok(StmtView { kind: StmtKindView::Block(block), location: pair.location }),
            Err(errors) => Err(errors),
        },
    }
}

/// The block that a block subtree denotes, or the errors of all its
/// statements, in order.
pub open spec fn block_of(pair: PairView) -> Result<BlockView, Seq<ParsingErrorView>>
    decreases pair, 1nat,
{
    match collected(statement_outcomes(pair)) {
        Ok(stmts) => Ok(BlockView { stmts, location: pair.location }),
        Err(errors) => Err(errors),
    }
}

/// What the statements of a block denote, in order.
pub open spec fn statement_outcomes(pair: PairView) -> Seq<Result<StmtView, Seq<ParsingErrorView>>>
    decreases pair, 0nat,
{
    Seq::new(
        pair.inner.len(),
        |i: int|
            if 0 <= i < pair.inner.len() {
                stmt_of(pair.inner[i])
            } else {
                arbitrary()
            },
    )
}

/// Builds a variable declaration: the name, then the declared type, then the
/// initializer. The first of them that fails ends the work.
fn parse_var_decl(pair: &Pair) -> (res: Result<Stmt, ParsingError>)
    requires
        pair@.rule == Rule::VariableDeclaration,
        is_statement(pair@),
    ensures
        result_view(res) == var_decl_of(pair@),
{
    proof {
        pair.lemma_view_inner();
    }
    let location = pair.location;
    let name = match parse_ident(&pair.inner[0]) {
        Ok(name) => name,
        Err(error) => {
            return Err(error);
        },
    };
    let mut ty: Option<Ty> = None;
    let mut init: Option<Expr> = None;
    let n = pair.inner.len();
    if n >= 2 {
        match pair.inner[1].rule {
            Rule::Ty => match parse_ty(&pair.inner[1]) {
                Ok(declared) => {
                    ty = Some(declared);
                },
                Err(error) => {
                    return Err(error);
                },
            },
            _ => {},
        }
        match pair.inner[n - 1].rule {
            Rule::Expression => match parse_expr(&pair.inner[n - 1]) {
                Ok(value) => {
                    init = Some(value);
                },
                Err(error) => {
                    return Err(error);
                },
            },
            _ => {},
        }
    }
    Ok(
        Stmt {
            kind: StmtKind::Decl(Decl { kind: DeclKind::Var(name, ty, init), location }),
            location,
        },
    )
}

/// Builds a return statement, with or without a value.
fn parse_return(pair: &Pair) -> (res: Result<Stmt, ParsingError>)
    requires
        pair@.rule == Rule::ReturnStatement,
        is_statement(pair@),
    ensures
        result_view(res) == return_of(pair@),
{
    proof {
        pair.lemma_view_inner();
    }
    let location = pair.location;
    if pair.inner.len() > 0 {
        match parse_expr(&pair.inner[0]) {
            Ok(value) => Ok(Stmt { kind: StmtKind::Ret(Some(value)), location }),
            Err(error) => Err(error),
        }
    } else {
        Ok(Stmt { kind: StmtKind::Ret(None), location })
    }
}

/// Builds an expression statement.
fn parse_expr_stmt(pair: &Pair) -> (res: Result<Stmt, ParsingError>)
    requires
        pair@.rule == Rule::ExpressionStatement,
        is_statement(pair@),
    ensures
        result_view(res) == expr_stmt_of(pair@),
{
    proof {
        pair.lemma_view_inner();
    }
    let location = pair.location;
    match parse_expr(&pair.inner[0]) {
        Ok(expr) => Ok(Stmt { kind: StmtKind::Expr(expr), location }),
        Err(error) => Err(error),
    }
}

/// Turns a failure with one error into a failure with the list of that error.
fn alone_of(outcome: Result<Stmt, ParsingError>) -> (res: Result<Stmt, ParsingErrors>)
    ensures
        result_view(res) == alone(result_view(outcome)),
        res matches Err(errors) ==> errors@.len() == 1,
{
    match outcome {
        Ok(stmt) => Ok(stmt),
        Err(error) => Err(errors_from(error)),
    }
}

/// Builds the statement that a statement subtree denotes.
pub fn parse_stmt(pair: &Pair) -> (res: Result<Stmt, ParsingErrors>)
    requires
        is_statement(pair@),
    ensures
        result_view(res) == stmt_of(pair@),
        res matches Err(errors) ==> errors@.len() > 0,
        pair@.well_spanned() ==> (res matches Ok(stmt) ==> stmt@.well_formed() && stmt@.location
            == pair@.location),
    decreases pair, 1nat,
{
    proof {
        if pair@.well_spanned() {
            lemma_stmt_well_formed(pair@);
        }
    }
    match pair.rule {
        Rule::VariableDeclaration => alone_of(parse_var_decl(pair)),
        Rule::ReturnStatement => alone_of(parse_return(pair)),
        Rule::ExpressionStatement => alone_of(parse_expr_stmt(pair)),
        _ => match parse_block(pair) {
            Ok(block) => Ok(Stmt { kind: StmtKind::Block(block), location: pair.location }),
            Err(errors) => Err(errors),
        },
    }
}

/// Builds the block that a block subtree denotes. Every statement is tried,
/// whatever became of those before it; the block fails with the errors of all
/// its statements, in order, if any of them fails.
pub fn parse_block(pair: &Pair) -> (res: Result<Block, ParsingErrors>)
    requires
        is_block(pair@),
    ensures
        result_view(res) == block_of(pair@),
        res matches Err(errors) ==> errors@.len() > 0,
        pair@.well_spanned() ==> (res matches Ok(block) ==> block@.well_formed()
            && block@.location == pair@.location),
    decreases pair, 0nat,
{
    proof {
        pair.lemma_view_inner();
        if pair@.well_spanned() {
            lemma_block_well_formed(pair@);
        }
    }
    let ghost outcomes = statement_outcomes(pair@);
    let mut ctx = ParsingCtx::new();
    let mut stmts: Vec<Stmt> = Vec::new();
    let mut i: usize = 0;
    while i < pair.inner.len()
        invariant
            is_block(pair@),
            outcomes == statement_outcomes(pair@),
            i <= pair.inner.len(),
            pair@.inner.len() == pair.inner@.len(),
            forall|k: int| 0 <= k < pair.inner@.len() ==> pair@.inner[k] == (#[trigger] pair.inner@[k])@,
            ctx@ == errors_of(outcomes, i as int),
            stmts.deep_view() == successes_of(outcomes, i as int),
        decreases pair.inner.len() - i,
    {
        match parse_stmt(&pair.inner[i]) {
            Ok(stmt) => {
                stmts.push(stmt);
            },
            Err(errors) => {
                ctx.record(errors);
            },
        }
        i += 1;
    }
    if ctx.is_failed() {
        Err(ctx.into_errors())
    } else {
        let block = Block { stmts, location: pair.location };
        assert(block@.stmts =~= stmts.deep_view());
        Ok(block)
    }
}

} // verus!
