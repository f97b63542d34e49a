//! A small expression-oriented scripting language: a tokenizer, a
//! recursive-descent parser producing a typed syntax tree, and a tree-walking
//! evaluator with lexical scoping and tail-call elimination.
//!
//! Number values are carried as the bit patterns of IEEE 754 binary64 values;
//! the arithmetic on them is done by outside soft-float code behind the
//! trusted declarations in [`num`].

pub mod ast;
pub mod builtins;
pub mod diagnostics;
pub mod laws;
pub mod lexer;
pub mod num;
pub mod parser;
pub mod scoped_symbols;
pub mod token;
pub mod virtual_machine;

pub use token::Token;
pub use token::TokenKind;
