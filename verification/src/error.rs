//! The ways in which scoring fails.

use vstd::prelude::*;
use vstd::string::StringExecFns;
use crate::decimal::{decimal_string, decimal_text, signed_decimal_string, signed_decimal_text};

verus! {

/// What a scoring error is to the specifications.
pub enum ScoringErrorModel {
    CardinalityMismatch { expected: int, actual: int },
    NotFound { item_id: Seq<char> },
    DataInconsistency,
    NumericConversionFailure,
}

/// Why a submission got no score. No partial score is ever returned.
#[derive(Debug)]
pub enum ScoringError {
    /// The number of submitted items is not the mission's declared total: a
    /// fault of the caller's input.
    CardinalityMismatch { expected: i32, actual: usize },
    /// A submitted item has no ground truth: a fault of the caller's input.
    NotFound { item_id: String },
    /// The stored ground truth disagrees with the mission, or a submission
    /// was paired with the truth of another item: a fault of the stored data.
    DataInconsistency,
    /// The score has no numeric value, as the mean over no items has none.
    NumericConversionFailure,
}

impl View for ScoringError {
    type V = ScoringErrorModel;

    open spec fn view(&self) -> ScoringErrorModel {
        match *self {
            ScoringError::CardinalityMismatch { expected, actual } => {
                ScoringErrorModel::CardinalityMismatch {
                    expected: expected as int,
                    actual: actual as int,
                }
            },
            ScoringError::NotFound { item_id } => ScoringErrorModel::NotFound { item_id: item_id@ },
            ScoringError::DataInconsistency => ScoringErrorModel::DataInconsistency,
            ScoringError::NumericConversionFailure => ScoringErrorModel::NumericConversionFailure,
        }
    }
}

/// Why raw annotation data could not be given its shape.
#[derive(Debug, Clone, Copy, PartialEq, Eq, Structural)]
pub enum RawDataError {
    /// The data is not a list of items.
    ExpectedArray,
    /// An item has no `img_name` that is a text.
    MissingImgName,
}

/// What the result of a scoring operation is to the specifications.
pub open spec fn outcome(result: Result<u64, ScoringError>) -> Result<int, ScoringErrorModel> {
    match result {
        Ok(score) => Ok(score as int),
        Err(e) => Err(e@),
    }
}

/// The words in which a scoring error is reported.
pub open spec fn scoring_error_text(error: ScoringErrorModel) -> Seq<char> {
    match error {
        ScoringErrorModel::CardinalityMismatch { expected, actual } => "Expected "@
            + signed_decimal_text(expected) + " submissions, got "@ + decimal_text(actual as nat),
        ScoringErrorModel::NotFound { item_id } => "Ground truth not found for item "@ + item_id,
        ScoringErrorModel::DataInconsistency =>
            "Ground truth data inconsistent with mission total_items"@,
        ScoringErrorModel::NumericConversionFailure => "Failed to convert score to decimal"@,
    }
}

impl RawDataError {
    /// The words in which the error is reported.
    pub open spec fn text(self) -> Seq<char> {
        match self {
            RawDataError::ExpectedArray => "Expected array of annotation data"@,
            RawDataError::MissingImgName => "Missing img_name"@,
        }
    }

    /// The words in which the error is reported.
    pub fn message(&self) -> (message: String)
        ensures
            message@ == self.text(),
    {
        match self {
            RawDataError::ExpectedArray => String::from_str("Expected array of annotation data"),
            RawDataError::MissingImgName => String::from_str("Missing img_name"),
        }
    }
}

impl ScoringError {
    /// The words in which the error is reported: they name the two counts
    /// that differ, or the item without ground truth.
    pub fn message(&self) -> (message: String)
        ensures
            message@ == scoring_error_text(self@),
    {
        match self {
            ScoringError::CardinalityMismatch { expected, actual } => {
                let expected_text = signed_decimal_string(*expected as i64);
                let actual_text = decimal_string(*actual as u128);
                String::from_str("Expected ").concat(expected_text.as_str()).concat(
                    " submissions, got ",
                ).concat(actual_text.as_str())
            },
            ScoringError::NotFound { item_id } => {
                String::from_str("Ground truth not found for item ").concat(item_id.as_str())
            },
            ScoringError::DataInconsistency => {
                String::from_str("Ground truth data inconsistent with mission total_items")
            },
            ScoringError::NumericConversionFailure => {
                String::from_str("Failed to convert score to decimal")
            },
        }
    }

    /// Whether the fault lies with the caller's input rather than with the
    /// stored data.
    pub fn is_client_error(&self) -> (client: bool)
        ensures
            client == (self@ is CardinalityMismatch || self@ is NotFound),
    {
        match self {
            ScoringError::CardinalityMismatch { .. } => true,
            ScoringError::NotFound { .. } => true,
            ScoringError::DataInconsistency => false,
            ScoringError::NumericConversionFailure => false,
        }
    }
}

} // verus!
