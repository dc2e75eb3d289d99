//! Reading Diamond programs: the grammar, the parser that follows it, and the syntax tree it
//! builds.
pub mod grammar;
pub mod source;
pub mod syntax;
pub mod types;
