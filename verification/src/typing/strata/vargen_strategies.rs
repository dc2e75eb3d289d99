//! Ways of generating variable names.
pub mod interpreter;
pub mod qbe;
