//! The abstract syntax of the Fix language: names, kinds, types, type declarations, traits,
//! patterns and import statements, with the checks the compiler runs over them.
pub mod ast;
pub mod constants;
pub mod strutil;
pub mod error;
pub mod source;
pub mod builtin;
pub mod bench;
pub mod order;
pub mod borrow_optimization;
pub mod sanitizer;
