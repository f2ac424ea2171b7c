//! Generator for test doubles: parses a compact mock specification
//! (a type name, method signatures, and trait blocks) and emits the
//! source text of a mock type that records expectations and replays
//! configured behavior.

pub mod ir;
pub mod classify;
pub mod emit;
pub mod gen;
pub mod laws;
pub mod lex;
pub mod mock;
pub mod parse;
