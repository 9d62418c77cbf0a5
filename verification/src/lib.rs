//! A verified evaluation core for a small dynamically typed scripting
//! language: runtime values, a chain of lexical scopes, and a tree-walking
//! evaluator for expressions and statements.
//!
//! The semantics of the language is written once, as a family of spec
//! functions over a mathematical model of the interpreter state
//! (`semantics`), and the executable interpreter (`interpreter`) is proved
//! to compute exactly that semantics.

pub mod clock;
pub mod environment;
pub mod errors;
pub mod expr;
pub mod interpreter;
pub mod laws;
pub mod literals;
pub mod numbers;
pub mod semantics;
pub mod stmt;
pub mod token;
