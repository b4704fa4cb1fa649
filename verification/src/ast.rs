//! The syntax tree: expressions, statements, and the program that holds
//! them.
pub mod expression;
pub mod program;
pub mod statement;
