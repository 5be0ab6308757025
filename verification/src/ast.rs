//! The syntax tree: spanned nodes for expressions, statements and declarations.

pub mod expr;
pub mod func;
pub mod ident;
pub mod stmt;
pub mod structs;
pub mod tree;
pub mod unit;
