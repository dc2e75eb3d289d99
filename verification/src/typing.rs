//! The type checker: it collects the function signatures of a program, checks every expression
//! against them, and lowers the checked program to IR in which every variable is a number.
pub mod scoping;
pub mod pass_one;
pub mod pass_two;
pub mod phase_one;
pub mod rules;
pub mod strata;
pub mod types;
