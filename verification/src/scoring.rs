//! The mathematical definition of each score, and what is proved of it.

pub mod geometry;
pub mod labels;
pub mod boxes;
pub mod item;
pub mod aggregate;
