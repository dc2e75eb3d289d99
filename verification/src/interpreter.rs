//! The interpreter's values and its standard library.
pub mod engine;
pub mod functions;
pub mod laws;
pub mod replay;
pub mod stdlib;
pub mod types;
