//! The records that the services exchange.

pub mod annotation;
pub mod annotator;
pub mod mission;
pub mod raw;
