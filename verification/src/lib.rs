//! Front end of a small curly-brace language: a byte scanner that turns source
//! text into tokens, and a statement-level recursive-descent parser that turns
//! tokens into a program and a list of diagnostics.

pub mod ascii;
pub mod decimal;
pub mod token;
pub mod scan;
pub mod lexer;
pub mod ast;
pub mod grammar;
pub mod parser;
pub mod repl;
