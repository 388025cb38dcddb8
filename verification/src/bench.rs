//! The reference programs the Fix benchmarks are checked against: full binary trees, the
//! Fibonacci numbers, a sum taken modulo a prime, and edit distances between random words.
pub mod binary_trees;
pub mod boxed_trees;
pub mod fib;
pub mod levenshtein;
pub mod loops;
