//! The unified program tree, and the lowering of parse trees into it.

pub mod convert;
pub mod nodes;
