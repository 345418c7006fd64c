//! Front end of a small interpreted language: a scanner that turns source
//! text into tokens, and a statement parser that turns tokens into a program
//! tree while collecting every syntax error it meets.

pub mod ast;
pub mod chars;
pub mod lexer;
pub mod literal;
pub mod parser;
pub mod token;
