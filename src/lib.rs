//! Front end of a small expression language: a lexer, a precedence-climbing
//! parser, a second grammar read directly from characters, and a
//! tree-walking evaluator, each with its behaviour stated as spec functions
//! over mathematical models.

pub mod ast;
pub mod combine;
pub mod decimal;
pub mod evaluator;
pub mod laws;
pub mod lexer;
pub mod object;
pub mod parser;
pub mod token;
