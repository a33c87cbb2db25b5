//! Builds the syntax tree from the concrete parse tree.
//!
//! - [`grammar`] holds the parse tree as the grammar engine hands it over,
//!   and [`shape`] tells whether a tree has the shape that the builders take.
//! - [`leaf`], [`expr`], [`stmt`] and [`program`] hold the builders, from the
//!   leaves of the tree up to the whole program, each beside the definition of
//!   what it builds.
//! - [`outcome`] and [`context`] say how the outcomes of the parts of a node
//!   become the outcome of the node.
//! - [`error`] holds the errors and what they say.
//! - [`laws`] holds what is true of every parse.

pub mod context;
pub mod error;
pub mod expr;
pub mod grammar;
pub mod laws;
pub mod leaf;
pub mod outcome;
pub mod program;
pub mod shape;
pub mod stmt;
pub mod text;

pub use self::context::ParsingCtx;
pub use self::expr::{parse_binary_op, parse_expr, parse_logical_op, parse_unary_op};
pub use self::grammar::{Pair, Rule};
pub use self::leaf::{parse_ident, parse_lit, parse_ty};
pub use self::program::{parse, parse_program, parse_top_level_decl};
pub use self::stmt::{parse_block, parse_stmt};
pub use self::text::is_reserved;
