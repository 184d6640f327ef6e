//! Remembered pairs of source and destination directories.

pub mod disk;
pub mod manager;
pub mod order;
pub mod record;
pub mod sorting;
