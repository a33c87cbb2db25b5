//! The front end of the turbo bear language: it turns the concrete parse tree
//! that a grammar engine makes of a source text into a validated syntax tree
//! in which every node knows its place in the source.
//!
//! The grammar engine is not part of this library. What it hands over is a
//! tree of [`parser::grammar::Pair`]s, each tagged with the rule that matched
//! and the span of text it matched. [`parser::parse`] builds the
//! [`ast::ast::Program`] from it, or reports every error it finds:
//!
//! - inside one node the first failing part decides (an expression with a
//!   malformed operand denotes nothing);
//! - across the statements of a block and the functions of a program every
//!   part is tried, and all errors are reported together, in source order.
//!
//! Infix operators are grouped by precedence climbing: operators of a higher
//! tier bind tighter, operators of one tier group from the left.
//!
//! The library is verified with Verus. Every type has a mathematical view, and
//! every function states over these views exactly what it returns. The module
//! [`parser::laws`] holds what follows for every parse: where the nodes of the
//! tree lie, which errors are reported, and that no reserved word is ever
//! taken for a name.
//!
//! The library does no floating-point arithmetic. The value of a float literal
//! comes with the parse tree, as the bit pattern of a 64-bit float, and is
//! carried into the syntax tree unchanged.

pub mod ast;
pub mod parser;
