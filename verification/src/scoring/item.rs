//! The score of one item: its label score and its bounding-box score,
//! weighted.

use vstd::prelude::*;
use crate::models::annotation::{GroundTruthModel, SubmissionModel};
use crate::scoring::boxes::{
    bbox_score, lemma_bbox_score_bounded, lemma_bbox_score_empty_submission,
    lemma_bbox_score_exact,
};
use crate::scoring::geometry::{area, max_int, min_int, SCORE_UNIT};
use crate::scoring::labels::{
    label_score, lemma_label_score_bounded, lemma_label_score_empty_submission,
    lemma_label_score_exact,
};

verus! {

/// The weight of the label score, in tenths.
pub const LABEL_WEIGHT: u64 = 4;

/// The weight of the bounding-box score, in tenths: where a thing is counts
/// for more than that it was named.
pub const BBOX_WEIGHT: u64 = 6;

/// 0.4 of the label score and 0.6 of the bounding-box score, rounded down.
pub open spec fn weighted_score(label: int, bbox: int) -> int {
    (LABEL_WEIGHT * label + BBOX_WEIGHT * bbox) / 10
}

/// The score of a submitted item against the truth for that item, in
/// millionths.
pub open spec fn item_score(submission: SubmissionModel, truth: GroundTruthModel) -> int {
    weighted_score(
        label_score(submission.labels, truth.labels),
        bbox_score(submission.bounding_boxes, truth.bounding_boxes),
    )
}

/// The weighted score lies between the lesser and the greater of the two
/// scores that it combines.
pub proof fn lemma_weighted_score_between(label: int, bbox: int)
    ensures
        min_int(label, bbox) <= weighted_score(label, bbox) <= max_int(label, bbox),
{
}

/// An item's score lies between its label score and its bounding-box score,
/// and so between 0 and `SCORE_UNIT`.
pub proof fn lemma_item_score_bounded(submission: SubmissionModel, truth: GroundTruthModel)
    ensures
        min_int(
            label_score(submission.labels, truth.labels),
            bbox_score(submission.bounding_boxes, truth.bounding_boxes),
        ) <= item_score(submission, truth) <= max_int(
            label_score(submission.labels, truth.labels),
            bbox_score(submission.bounding_boxes, truth.bounding_boxes),
        ),
        0 <= item_score(submission, truth) <= SCORE_UNIT,
{
    lemma_label_score_bounded(submission.labels, truth.labels);
    lemma_bbox_score_bounded(submission.bounding_boxes, truth.bounding_boxes);
    lemma_weighted_score_between(
        label_score(submission.labels, truth.labels),
        bbox_score(submission.bounding_boxes, truth.bounding_boxes),
    );
}

/// Whether the submission repeats the labels and the boxes of the truth, all
/// boxes being of positive area.
pub open spec fn repeats_truth(submission: SubmissionModel, truth: GroundTruthModel) -> bool {
    &&& submission.labels == truth.labels
    &&& submission.bounding_boxes == truth.bounding_boxes
    &&& forall|i: int|
        0 <= i < truth.bounding_boxes.len() ==> area(#[trigger] truth.bounding_boxes[i]) > 0
}

/// Whether the submission holds nothing while the truth holds both labels and
/// boxes.
pub open spec fn misses_everything(submission: SubmissionModel, truth: GroundTruthModel) -> bool {
    &&& submission.labels.len() == 0
    &&& submission.bounding_boxes.len() == 0
    &&& truth.labels.len() > 0
    &&& truth.bounding_boxes.len() > 0
}

/// An item that repeats its truth scores 1.0.
pub proof fn lemma_item_score_exact(submission: SubmissionModel, truth: GroundTruthModel)
    requires
        repeats_truth(submission, truth),
    ensures
        item_score(submission, truth) == SCORE_UNIT,
{
    lemma_label_score_exact(truth.labels);
    lemma_bbox_score_exact(truth.bounding_boxes);
}

/// An empty item scores 0 against a truth that holds both labels and boxes.
pub proof fn lemma_item_score_empty_submission(submission: SubmissionModel, truth: GroundTruthModel)
    requires
        misses_everything(submission, truth),
    ensures
        item_score(submission, truth) == 0,
{
    assert(submission.labels =~= Seq::empty());
    assert(submission.bounding_boxes =~= Seq::empty());
    lemma_label_score_empty_submission(truth.labels);
    lemma_bbox_score_empty_submission(truth.bounding_boxes);
}

} // verus!
