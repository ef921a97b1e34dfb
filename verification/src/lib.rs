//! A literal-to-byte-sequence compiler.
//!
//! Given an ordered list of literal expression nodes (integers, floats,
//! characters, strings), each optionally negated and optionally wrapped in a
//! byte-order tag, this library produces the flat byte sequence that encodes
//! them back to back: two's complement for integers, IEEE-754 bit patterns
//! for floats, UTF-8 for characters and strings.

pub mod compile;
pub mod floats;
pub mod ints;
pub mod laws;
pub mod model;
pub mod text;
pub mod wire;

pub use compile::{bytify, bytify_implementation};
