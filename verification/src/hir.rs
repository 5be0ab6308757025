//! The intermediate representation: syntax trees flattened into arenas of
//! nodes that refer to each other by handle.

pub mod arena;
pub mod context;
pub mod laws;
pub mod lowerer;
pub mod nodes;
pub mod sym;
