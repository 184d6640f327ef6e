//! The operator: what is asked of them, and how their answers are read.

pub mod helper;
pub mod user;
