//! The synchronisation itself: which operation comes next, and what each
//! outcome means for the rest of the run.

pub mod laws;
pub mod machine;
pub mod tool;
