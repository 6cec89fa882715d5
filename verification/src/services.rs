//! The executable operations, each stated against the definitions in `scoring`.

pub mod ground_truth_service;
pub mod mission_score_service;
pub mod mission_service;
pub mod submission;
