//! The abstract syntax tree and the source locations that its nodes carry.

pub mod ast;
pub mod location;
