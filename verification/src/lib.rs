//! A tokenizer and an operator-precedence parser for a small scripting
//! language, with the syntax tree they produce and its canonical rendering.
//!
//! - [`token`]: tokens, their kinds, and the binding strength of operators.
//! - [`text`]: character classes, and integers in decimal.
//! - [`lexer`] and [`lexical_analizer`]: the two tokenizers.
//! - [`ast`]: expressions, statements and programs, and how they render.
//! - [`grammar`]: the grammar, as functions from a token stream to trees.
//! - [`parser`]: the parser, whose contracts are stated over the grammar.
//! - [`progress`], [`precedence`], [`round_trip`] and [`rendering`]: what
//!   holds of the grammar and of the rendering, with [`steps`] as the
//!   means of proof.
pub mod ast;
pub mod grammar;
pub mod lexer;
pub mod lexical_analizer;
pub mod parser;
pub mod precedence;
pub mod progress;
pub mod rendering;
pub mod round_trip;
pub mod steps;
pub mod text;
pub mod token;
