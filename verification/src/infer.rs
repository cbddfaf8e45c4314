//! Deduction: the fixed-point loop that rewrites a program toward its
//! semantic form.

pub mod deduce;
pub mod infer;
pub mod nodes;
