//! What holds of every parse: the laws of the builders, proved from their
//! definitions.

pub mod climbing;
pub mod errors;
pub mod locations;
pub mod program;
pub mod reserved;
