//! Front end of the Haiku language compiler: tokenizer, parser and the
//! lowering of syntax trees to an arena-addressed intermediate representation.

pub mod ast;
pub mod hir;
pub mod parser;
pub mod lexer;
pub mod location;
pub mod span;
