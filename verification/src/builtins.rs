//! The native functions, and the objects that offer them to scripts.

pub mod fns;
pub mod type_functions;
