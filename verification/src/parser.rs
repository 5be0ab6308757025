//! The parser: recursive descent over the token stream, with one function
//! per level of precedence for expressions.

pub mod cursor;
pub mod error;
pub mod expr;
pub mod func;
pub mod grammar;
pub mod ident;
pub mod progress;
pub mod stmt;
pub mod structs;
pub mod unit;
