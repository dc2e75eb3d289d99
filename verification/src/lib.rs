//! Diamond: a small, immutable, string and stream oriented language.
//!
//! The library holds the language's front half (the syntax tree, the type checker that lowers
//! it to IR) and its back half (the values and the standard library the interpreter runs).
pub mod bin_header;
pub mod compile;
pub mod interpreter;
pub mod parse;
pub mod text;
pub mod typing;
