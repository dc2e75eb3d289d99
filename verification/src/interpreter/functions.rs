//! The standard library: the functions that Diamond programs call and the interpreter itself
//! provides. Those that do input or output are the host's; here are the ones that compute.
pub mod arrays;
pub mod file;
pub mod itoa;
pub mod math;
pub mod printf;
pub mod result;
pub mod strings;
pub mod system;
pub mod testing_branch;
