//! The syntax tree: programs, functions, statements, expressions and their
//! leaves, each with its mathematical view and with what makes it well formed.

use vstd::prelude::*;

use super::location::{Locatable, Location};
use crate::parser::text::is_reserved_word;

verus! {

/// What a literal denotes. A float is held as the IEEE 754 bit pattern of its
/// 64-bit value.
#[derive(Debug, Clone, Copy, PartialEq, Eq, Structural)]
pub enum LitKind {
    Int(u64),
    Float(u64),
    Bool(bool),
}

/// A literal and where it stands.
#[derive(Debug, Clone, Copy, PartialEq, Eq, Structural)]
pub struct Lit {
    pub kind: LitKind,
    pub location: Location,
}

/// A name that is not a reserved word.
#[derive(Debug, PartialEq, Eq)]
pub struct Ident {
    pub name: String,
    pub location: Location,
}

/// The mathematical value of an [`Ident`].
pub struct IdentView {
    pub name: Seq<char>,
    pub location: Location,
}

/// The name of a type; like an identifier, it is never a reserved word.
#[derive(Debug, PartialEq, Eq)]
pub struct Ty {
    pub name: String,
    pub location: Location,
}

/// The mathematical value of a [`Ty`].
pub struct TyView {
    pub name: Seq<char>,
    pub location: Location,
}

/// The operators that join truth values.
#[derive(Debug, Clone, Copy, PartialEq, Eq, Structural)]
pub enum LogicalOp {
    And,
    Or,
}

/// The operators of arithmetic and comparison.
#[derive(Debug, Clone, Copy, PartialEq, Eq, Structural)]
pub enum BinaryOp {
    Add,
    Subtract,
    Multiply,
    Divide,
    Greater,
    GreaterEqual,
    Less,
    LessEqual,
}

/// The operators that take one operand.
#[derive(Debug, Clone, Copy, PartialEq, Eq, Structural)]
pub enum UnaryOp {
    Not,
    Minus,
}

/// What an expression is. Every expression owns its parts.
#[derive(Debug, PartialEq, Eq)]
pub enum ExprKind {
    Logical(LogicalOp, Box<Expr>, Box<Expr>),
    Binary(BinaryOp, Box<Expr>, Box<Expr>),
    Unary(UnaryOp, Box<Expr>),
    Ident(Ident),
    Call(Box<Expr>, Vec<Box<Expr>>),
    Lit(Lit),
}

/// An expression and where it stands.
#[derive(Debug, PartialEq, Eq)]
pub struct Expr {
    pub kind: ExprKind,
    pub location: Location,
}

/// The mathematical value of an [`ExprKind`].
pub enum ExprKindView {
    Logical(LogicalOp, Box<ExprView>, Box<ExprView>),
    Binary(BinaryOp, Box<ExprView>, Box<ExprView>),
    Unary(UnaryOp, Box<ExprView>),
    Ident(IdentView),
    Call(Box<ExprView>, Seq<ExprView>),
    Lit(Lit),
}

/// The mathematical value of an [`Expr`].
pub struct ExprView {
    pub kind: ExprKindView,
    pub location: Location,
}

/// A run of statements between braces.
#[derive(Debug, PartialEq, Eq)]
pub struct Block {
    pub stmts: Vec<Stmt>,
    pub location: Location,
}

/// The mathematical value of a [`Block`].
pub struct BlockView {
    pub stmts: Seq<StmtView>,
    pub location: Location,
}

/// What a statement is.
#[derive(Debug, PartialEq, Eq)]
pub enum StmtKind {
    Decl(Decl),
    Ret(Option<Expr>),
    Block(Block),
    Expr(Expr),
}

/// A statement and where it stands.
#[derive(Debug, PartialEq, Eq)]
pub struct Stmt {
    pub kind: StmtKind,
    pub location: Location,
}

/// The mathematical value of a [`StmtKind`].
pub enum StmtKindView {
    Decl(DeclView),
    Ret(Option<ExprView>),
    Block(BlockView),
    Expr(ExprView),
}

/// The mathematical value of a [`Stmt`].
pub struct StmtView {
    pub kind: StmtKindView,
    pub location: Location,
}

/// What a declaration inside a function declares: a variable, with its name,
/// its type if one is declared, and its initializer if it has one.
#[derive(Debug, PartialEq, Eq)]
pub enum DeclKind {
    Var(Ident, Option<Ty>, Option<Expr>),
}

/// A declaration inside a function and where it stands.
#[derive(Debug, PartialEq, Eq)]
pub struct Decl {
    pub kind: DeclKind,
    pub location: Location,
}

/// The mathematical value of a [`DeclKind`].
pub enum DeclKindView {
    Var(IdentView, Option<TyView>, Option<ExprView>),
}

/// The mathematical value of a [`Decl`].
pub struct DeclView {
    pub kind: DeclKindView,
    pub location: Location,
}

/// What a declaration at the top of a program declares: a function, with its
/// name, its parameters, its return type and its body.
#[derive(Debug, PartialEq, Eq)]
pub enum TopLevelDeclKind {
    Fn(Ident, Vec<(Ident, Ty)>, Ty, Block),
}

/// A declaration at the top of a program and where it stands.
#[derive(Debug, PartialEq, Eq)]
pub struct TopLevelDecl {
    pub kind: TopLevelDeclKind,
    pub location: Location,
}

/// The mathematical value of a [`TopLevelDeclKind`].
pub enum TopLevelDeclKindView {
    Fn(IdentView, Seq<(IdentView, TyView)>, TyView, BlockView),
}

/// The mathematical value of a [`TopLevelDecl`].
pub struct TopLevelDeclView {
    pub kind: TopLevelDeclKindView,
    pub location: Location,
}

/// A whole program: its functions, in order.
#[derive(Debug, PartialEq, Eq)]
pub struct Program {
    pub decls: Vec<TopLevelDecl>,
    pub location: Location,
}

/// The mathematical value of a [`Program`].
pub struct ProgramView {
    pub decls: Seq<TopLevelDeclView>,
    pub location: Location,
}

impl View for Lit {
    type V = Lit;

    open spec fn view(&self) -> Lit {
        *self
    }
}

impl DeepView for Lit {
    type V = Lit;

    open spec fn deep_view(&self) -> Lit {
        *self
    }
}

impl View for Ident {
    type V = IdentView;

    open spec fn view(&self) -> IdentView {
        IdentView { name: self.name@, location: self.location }
    }
}

impl DeepView for Ident {
    type V = IdentView;

    open spec fn deep_view(&self) -> IdentView {
        self@
    }
}

impl View for Ty {
    type V = TyView;

    open spec fn view(&self) -> TyView {
        TyView { name: self.name@, location: self.location }
    }
}

impl DeepView for Ty {
    type V = TyView;

    open spec fn deep_view(&self) -> TyView {
        self@
    }
}

impl Expr {
    /// The view of an expression, by recursion over the tree.
    pub open spec fn model(self) -> ExprView
        decreases self,
    {
        ExprView { kind: self.kind.model(), location: self.location }
    }
}

impl ExprKind {
    /// The view of what an expression is, by recursion over the tree.
    pub open spec fn model(self) -> ExprKindView
        decreases self,
    {
        match self {
            ExprKind::Logical(op, left, right) => ExprKindView::Logical(
                op,
                Box::new(left.model()),
                Box::new(right.model()),
            ),
            ExprKind::Binary(op, left, right) => ExprKindView::Binary(
                op,
                Box::new(left.model()),
                Box::new(right.model()),
            ),
            ExprKind::Unary(op, operand) => ExprKindView::Unary(op, Box::new(operand.model())),
            ExprKind::Ident(ident) => ExprKindView::Ident(ident@),
            ExprKind::Call(callee, args) => ExprKindView::Call(
                Box::new(callee.model()),
                Seq::new(
                    args@.len(),
                    |i: int|
                        if 0 <= i < args@.len() {
                            args@[i].model()
                        } else {
                            arbitrary()
                        },
                ),
            ),
            ExprKind::Lit(lit) => ExprKindView::Lit(lit),
        }
    }
}

impl View for Expr {
    type V = ExprView;

    open spec fn view(&self) -> ExprView {
        self.model()
    }
}

impl DeepView for Expr {
    type V = ExprView;

    open spec fn deep_view(&self) -> ExprView {
        self@
    }
}

impl Block {
    /// The view of a block, by recursion over the tree.
    pub open spec fn model(self) -> BlockView
        decreases self,
    {
        BlockView {
            stmts: Seq::new(
                self.stmts@.len(),
                |i: int|
                    if 0 <= i < self.stmts@.len() {
                        self.stmts@[i].model()
                    } else {
                        arbitrary()
                    },
            ),
            location: self.location,
        }
    }
}

impl Stmt {
    /// The view of a statement, by recursion over the tree.
    pub open spec fn model(self) -> StmtView
        decreases self,
    {
        StmtView { kind: self.kind.model(), location: self.location }
    }
}

impl StmtKind {
    /// The view of what a statement is, by recursion over the tree.
    pub open spec fn model(self) -> StmtKindView
        decreases self,
    {
        match self {
            StmtKind::Decl(decl) => StmtKindView::Decl(decl@),
            StmtKind::Ret(value) => StmtKindView::Ret(value.deep_view()),
            StmtKind::Block(block) => StmtKindView::Block(block.model()),
            StmtKind::Expr(expr) => StmtKindView::Expr(expr@),
        }
    }
}

impl View for Decl {
    type V = DeclView;

    open spec fn view(&self) -> DeclView {
        DeclView {
            kind: match self.kind {
                DeclKind::Var(name, ty, init) => DeclKindView::Var(
                    name@,
                    ty.deep_view(),
                    init.deep_view(),
                ),
            },
            location: self.location,
        }
    }
}

impl View for Block {
    type V = BlockView;

    open spec fn view(&self) -> BlockView {
        self.model()
    }
}

impl DeepView for Block {
    type V = BlockView;

    open spec fn deep_view(&self) -> BlockView {
        self@
    }
}

impl View for Stmt {
    type V = StmtView;

    open spec fn view(&self) -> StmtView {
        self.model()
    }
}

impl DeepView for Stmt {
    type V = StmtView;

    open spec fn deep_view(&self) -> StmtView {
        self@
    }
}

impl View for TopLevelDecl {
    type V = TopLevelDeclView;

    open spec fn view(&self) -> TopLevelDeclView {
        TopLevelDeclView {
            kind: match self.kind {
                TopLevelDeclKind::Fn(name, params, return_ty, body) => TopLevelDeclKindView::Fn(
                    name@,
                    params.deep_view(),
                    return_ty@,
                    body@,
                ),
            },
            location: self.location,
        }
    }
}

impl DeepView for TopLevelDecl {
    type V = TopLevelDeclView;

    open spec fn deep_view(&self) -> TopLevelDeclView {
        self@
    }
}

impl View for Program {
    type V = ProgramView;

    open spec fn view(&self) -> ProgramView {
        ProgramView { decls: self.decls.deep_view(), location: self.location }
    }
}

impl DeepView for Program {
    type V = ProgramView;

    open spec fn deep_view(&self) -> ProgramView {
        self@
    }
}

impl IdentView {
    /// An identifier is well formed when its name is no reserved word and its
    /// location is valid.
    pub open spec fn well_formed(self) -> bool {
        !is_reserved_word(self.name) && self.location.is_valid()
    }
}

impl TyView {
    /// A type name is well formed when it is no reserved word and its
    /// location is valid.
    pub open spec fn well_formed(self) -> bool {
        !is_reserved_word(self.name) && self.location.is_valid()
    }
}

impl ExprView {
    /// An expression is well formed when its location is valid, its parts are
    /// well formed and lie inside its location, and:
    ///
    /// - an infix expression spans exactly from the start of its left operand
    ///   to the end of its right operand, and the left operand ends before the
    ///   right one starts;
    /// - a unary expression ends where its operand ends;
    /// - a call starts where its callee starts;
    /// - an identifier or a literal has the location of the expression.
    pub open spec fn well_formed(self) -> bool
        decreases self,
    {
        &&& self.location.is_valid()
        &&& match self.kind {
            ExprKindView::Logical(_, left, right) => {
                &&& left.well_formed()
                &&& right.well_formed()
                &&& left.location.precedes(right.location)
                &&& self.location == Location {
                    start: left.location.start,
                    end: right.location.end,
                }
            },
            ExprKindView::Binary(_, left, right) => {
                &&& left.well_formed()
                &&& right.well_formed()
                &&& left.location.precedes(right.location)
                &&& self.location == Location {
                    start: left.location.start,
                    end: right.location.end,
                }
            },
            ExprKindView::Unary(_, operand) => {
                &&& operand.well_formed()
                &&& self.location.start <= operand.location.start
                &&& self.location.end == operand.location.end
            },
            ExprKindView::Ident(ident) => ident.well_formed() && ident.location == self.location,
            ExprKindView::Call(callee, args) => {
                &&& callee.well_formed()
                &&& self.location.start == callee.location.start
                &&& callee.location.end <= self.location.end
                &&& forall|i: int|
                    0 <= i < args.len() ==> (#[trigger] args[i]).well_formed()
                        && self.location.contains(args[i].location)
            },
            ExprKindView::Lit(lit) => lit.location == self.location,
        }
    }
}

impl DeclView {
    /// A declaration is well formed when its location is valid and its name,
    /// type and initializer are well formed and lie inside its location.
    pub open spec fn well_formed(self) -> bool {
        &&& self.location.is_valid()
        &&& match self.kind {
            DeclKindView::Var(name, ty, init) => {
                &&& name.well_formed()
                &&& self.location.contains(name.location)
                &&& ty matches Some(ty) ==> ty.well_formed() && self.location.contains(ty.location)
                &&& init matches Some(init) ==> init.well_formed() && self.location.contains(
                    init.location,
                )
            },
        }
    }
}

impl StmtView {
    /// A statement is well formed when its location is valid and its parts are
    /// well formed and lie inside its location. A declaration and a block have
    /// the location of the statement that holds them.
    pub open spec fn well_formed(self) -> bool
        decreases self,
    {
        &&& self.location.is_valid()
        &&& match self.kind {
            StmtKindView::Decl(decl) => decl.well_formed() && decl.location == self.location,
            StmtKindView::Ret(value) => value matches Some(value) ==> value.well_formed()
                && self.location.contains(value.location),
            StmtKindView::Block(block) => block.well_formed() && block.location == self.location,
            StmtKindView::Expr(expr) => expr.well_formed() && self.location.contains(expr.location),
        }
    }
}

impl BlockView {
    /// A block is well formed when its location is valid and its statements are
    /// well formed and lie inside its location.
    pub open spec fn well_formed(self) -> bool
        decreases self,
    {
        &&& self.location.is_valid()
        &&& forall|i: int|
            0 <= i < self.stmts.len() ==> (#[trigger] self.stmts[i]).well_formed()
                && self.location.contains(self.stmts[i].location)
    }
}

impl TopLevelDeclView {
    /// A function is well formed when its location is valid and its name,
    /// parameters, return type and body are well formed and lie inside its
    /// location.
    pub open spec fn well_formed(self) -> bool {
        &&& self.location.is_valid()
        &&& match self.kind {
            TopLevelDeclKindView::Fn(name, params, return_ty, body) => {
                &&& name.well_formed()
                &&& self.location.contains(name.location)
                &&& forall|i: int|
                    0 <= i < params.len() ==> {
                        &&& (#[trigger] params[i]).0.well_formed()
                        &&& params[i].1.well_formed()
                        &&& self.location.contains(params[i].0.location)
                        &&& self.location.contains(params[i].1.location)
                    }
                &&& return_ty.well_formed()
                &&& self.location.contains(return_ty.location)
                &&& body.well_formed()
                &&& self.location.contains(body.location)
            },
        }
    }
}

impl ProgramView {
    /// A program is well formed when its location is valid and its functions
    /// are well formed and lie inside its location.
    pub open spec fn well_formed(self) -> bool {
        &&& self.location.is_valid()
        &&& forall|i: int|
            0 <= i < self.decls.len() ==> (#[trigger] self.decls[i]).well_formed()
                && self.location.contains(self.decls[i].location)
    }
}

impl Locatable for Lit {
    open spec fn place(&self) -> Location {
        self.location
    }

    fn location(&self) -> (location: &Location) {
        &self.location
    }
}

impl Locatable for Ident {
    open spec fn place(&self) -> Location {
        self.location
    }

    fn location(&self) -> (location: &Location) {
        &self.location
    }
}

impl Locatable for Ty {
    open spec fn place(&self) -> Location {
        self.location
    }

    fn location(&self) -> (location: &Location) {
        &self.location
    }
}

impl Locatable for Expr {
    open spec fn place(&self) -> Location {
        self.location
    }

    fn location(&self) -> (location: &Location) {
        &self.location
    }
}

impl Locatable for Block {
    open spec fn place(&self) -> Location {
        self.location
    }

    fn location(&self) -> (location: &Location) {
        &self.location
    }
}

impl Locatable for Stmt {
    open spec fn place(&self) -> Location {
        self.location
    }

    fn location(&self) -> (location: &Location) {
        &self.location
    }
}

impl Locatable for Decl {
    open spec fn place(&self) -> Location {
        self.location
    }

    fn location(&self) -> (location: &Location) {
        &self.location
    }
}

impl Locatable for TopLevelDecl {
    open spec fn place(&self) -> Location {
        self.location
    }

    fn location(&self) -> (location: &Location) {
        &self.location
    }
}

impl Locatable for Program {
    open spec fn place(&self) -> Location {
        self.location
    }

    fn location(&self) -> (location: &Location) {
        &self.location
    }
}

} // verus!
