//! A tree-walking evaluator for a small dynamically-typed scripting language.
//!
//! A script is lexed ([`lexer`]) and parsed into a tree ([`ast`]); the
//! evaluator ([`eval`]) walks the tree and changes a machine that holds the
//! lists, objects, functions and scopes of the run, and what the run has
//! written. What a program means is defined in [`eval::semantics`] as
//! functions from a state of the machine to the state after it; every
//! function of the evaluator is proved to compute those functions, to keep
//! the machine well-formed, and to end. [`laws`] states what follows for
//! every program.
//!
//! A run is given a budget of steps. A program that does not end by itself
//! ends in an error when the budget is spent; the error names the place of
//! the statement, expression, operator or call at which the last step was
//! asked for.
//!
//! # What the machine keeps
//!
//! A block, a turn of a loop and a call each run in a scope of their own.
//! When they are over the machine takes that scope back, with the scopes
//! made while they ran, unless a function was made meanwhile: a function
//! holds on to the scopes it was made in, and the machine does not look which
//! of them, so all of them stay.
//!
//! Nothing else is given back. A list, an object or a function stays in the
//! machine until the machine itself is dropped, whether or not a value or a
//! name still leads to it: nothing is counted and nothing is collected. The
//! handle of a list, an object or a function therefore stays good for as
//! long as the machine lives, and a run needs memory for every list and
//! object that it has made, not only for those it can still reach.
//!
//! The evaluator writes nowhere. `print` adds a line to the bytes that the
//! machine holds, and the caller reads them from the machine and writes them
//! where they belong; what a run wrote before it failed is still there
//! after the failure.

pub mod ast;
pub mod builtins;
pub mod eval;
pub mod laws;
pub mod lexer;
pub mod report;
pub mod text;
