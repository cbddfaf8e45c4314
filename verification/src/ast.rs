//! The high-level language: natural-language commands, procedures and facts.

pub mod laws;
pub mod lexer;
pub mod nodes;
pub mod parser;
