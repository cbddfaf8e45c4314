//! The low-level language: variable assignments and calls back into the
//! high-level language.

pub mod lexer;
pub mod parser;
