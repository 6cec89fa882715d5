//! Scoring of crowd-sourced image annotations against a stored ground truth.
//!
//! An annotator submits, for every item of a mission, a set of labels and a
//! set of bounding boxes. Each item is scored by how many of the true labels
//! were named and by how well the true boxes were covered, and the mission's
//! score is the mean over its items, on a scale from 0 to 100.
//!
//! Every quantity is an exact integer. Box coordinates are whole numbers on a
//! grid that the caller chooses; the scores do not depend on its pitch. A
//! score is a whole number of millionths, rounded down, so that `SCORE_UNIT`
//! stands for 1.0; whether a box is matched is decided on the exact areas,
//! not on the rounded score.
//!
//! - `scoring` defines each score and proves what holds of it.
//! - `services` holds the operations: scoring, the handling of a scoring
//!   request step by step, the shaping of raw annotation data, and the
//!   building of missions from stored rows.
//! - `models` holds the records, `validation` the rules on requests,
//!   `error` the failures, `pagination` and `config` the listing windows and
//!   the start-up settings, and `decimal` the writing of numbers.

pub mod config;
pub mod decimal;
pub mod error;
pub mod models;
pub mod pagination;
pub mod scoring;
pub mod services;
pub mod validation;
