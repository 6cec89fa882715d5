//! The score of a whole submission: the mean of its items' scores, on a scale
//! from 0 to 100.

use vstd::prelude::*;
use crate::error::ScoringErrorModel;
use crate::models::annotation::{GroundTruthModel, SubmissionModel};
use crate::scoring::geometry::SCORE_UNIT;
use crate::scoring::item::{
    item_score, lemma_item_score_bounded, lemma_item_score_empty_submission,
    lemma_item_score_exact, misses_everything, repeats_truth,
};

verus! {

/// The greatest score of a submission: 100 points, in millionths of a point.
pub const MAX_MISSION_SCORE: u64 = 100_000_000;

/// The position of the first ground-truth record of the item, if there is
/// one.
pub open spec fn truth_position(truths: Seq<GroundTruthModel>, item_id: Seq<char>) -> Option<int>
    decreases truths.len(),
{
    if truths.len() == 0 {
        None
    } else {
        match truth_position(truths.drop_last(), item_id) {
            Some(k) => Some(k),
            None => if truths.last().item_id == item_id {
                Some(truths.len() - 1)
            } else {
                None
            },
        }
    }
}

/// The position of the first submitted item that has no ground truth, if
/// there is one.
pub open spec fn first_without_truth(
    submissions: Seq<SubmissionModel>,
    truths: Seq<GroundTruthModel>,
) -> Option<int>
    decreases submissions.len(),
{
    if submissions.len() == 0 {
        None
    } else {
        match first_without_truth(submissions.drop_last(), truths) {
            Some(k) => Some(k),
            None => if truth_position(truths, submissions.last().item_id) is None {
                Some(submissions.len() - 1)
            } else {
                None
            },
        }
    }
}

/// The score of a submitted item against the first ground-truth record of
/// that item.
pub open spec fn paired_item_score(
    submission: SubmissionModel,
    truths: Seq<GroundTruthModel>,
) -> int {
    item_score(submission, truths[truth_position(truths, submission.item_id).unwrap()])
}

/// The sum of the items' scores.
pub open spec fn total_item_score(
    submissions: Seq<SubmissionModel>,
    truths: Seq<GroundTruthModel>,
) -> int
    decreases submissions.len(),
{
    if submissions.len() == 0 {
        0
    } else {
        total_item_score(submissions.drop_last(), truths) + paired_item_score(
            submissions.last(),
            truths,
        )
    }
}

/// The mean of the items' scores times 100, in millionths of a point,
/// rounded down.
pub open spec fn mission_score(
    submissions: Seq<SubmissionModel>,
    truths: Seq<GroundTruthModel>,
) -> int {
    total_item_score(submissions, truths) * 100 / (submissions.len() as int)
}

/// What scoring the paired items comes to: the first item without ground
/// truth makes it fail; with every item paired, a submission of no items has
/// no mean; any other has its score.
pub open spec fn scoring_outcome(
    submissions: Seq<SubmissionModel>,
    truths: Seq<GroundTruthModel>,
) -> Result<int, ScoringErrorModel> {
    match first_without_truth(submissions, truths) {
        Some(k) => Err(ScoringErrorModel::NotFound { item_id: submissions[k].item_id }),
        None => if submissions.len() == 0 {
            Err(ScoringErrorModel::NumericConversionFailure)
        } else {
            Ok(mission_score(submissions, truths))
        },
    }
}

/// What scoring a submission for a mission of `total_items` items comes to.
/// The two counts are checked, in this order, before any item is scored.
pub open spec fn submission_outcome(
    submissions: Seq<SubmissionModel>,
    total_items: int,
    truths: Seq<GroundTruthModel>,
) -> Result<int, ScoringErrorModel> {
    if submissions.len() != total_items {
        Err(
            ScoringErrorModel::CardinalityMismatch {
                expected: total_items,
                actual: submissions.len() as int,
            },
        )
    } else if truths.len() != total_items {
        Err(ScoringErrorModel::DataInconsistency)
    } else {
        scoring_outcome(submissions, truths)
    }
}

/// `truth_position` finds the first record of the item: the record there is
/// of that item and none before it is; and it finds none only where there is
/// none.
pub proof fn lemma_truth_position(truths: Seq<GroundTruthModel>, item_id: Seq<char>)
    ensures
        match truth_position(truths, item_id) {
            Some(k) => {
                &&& 0 <= k < truths.len()
                &&& truths[k].item_id == item_id
                &&& forall|m: int| 0 <= m < k ==> (#[trigger] truths[m]).item_id != item_id
            },
            None => forall|m: int|
                0 <= m < truths.len() ==> (#[trigger] truths[m]).item_id != item_id,
        },
    decreases truths.len(),
{
    if truths.len() > 0 {
        let front = truths.drop_last();
        lemma_truth_position(front, item_id);
        match truth_position(front, item_id) {
            Some(k) => {
                assert(front[k] == truths[k]);
                assert forall|m: int| 0 <= m < k implies (#[trigger] truths[m]).item_id
                    != item_id by {
                    assert(front[m] == truths[m]);
                }
            },
            None => {
                assert forall|m: int| 0 <= m < front.len() implies (#[trigger] truths[m]).item_id
                    != item_id by {
                    assert(front[m] == truths[m]);
                }
            },
        }
    }
}

/// `first_without_truth` finds the first submitted item that has no ground
/// truth, and finds none only where every item has one.
pub proof fn lemma_first_without_truth(
    submissions: Seq<SubmissionModel>,
    truths: Seq<GroundTruthModel>,
)
    ensures
        match first_without_truth(submissions, truths) {
            Some(k) => {
                &&& 0 <= k < submissions.len()
                &&& truth_position(truths, submissions[k].item_id) is None
                &&& forall|m: int|
                    0 <= m < k ==> truth_position(truths, (#[trigger] submissions[m]).item_id)
                        is Some
            },
            None => forall|m: int|
                0 <= m < submissions.len() ==> truth_position(
                    truths,
                    (#[trigger] submissions[m]).item_id,
                ) is Some,
        },
    decreases submissions.len(),
{
    if submissions.len() > 0 {
        let front = submissions.drop_last();
        lemma_first_without_truth(front, truths);
        match first_without_truth(front, truths) {
            Some(k) => {
                assert(front[k] == submissions[k]);
                assert forall|m: int| 0 <= m < k implies truth_position(
                    truths,
                    (#[trigger] submissions[m]).item_id,
                ) is Some by {
                    assert(front[m] == submissions[m]);
                }
            },
            None => {
                assert forall|m: int| 0 <= m < front.len() implies truth_position(
                    truths,
                    (#[trigger] submissions[m]).item_id,
                ) is Some by {
                    assert(front[m] == submissions[m]);
                }
            },
        }
    }
}

/// No item scores more than 1.0, so the sum is at most the number of items.
pub proof fn lemma_total_item_score_bounded(
    submissions: Seq<SubmissionModel>,
    truths: Seq<GroundTruthModel>,
)
    ensures
        0 <= total_item_score(submissions, truths) <= submissions.len() * SCORE_UNIT,
    decreases submissions.len(),
{
    if submissions.len() > 0 {
        lemma_total_item_score_bounded(submissions.drop_last(), truths);
        let s = submissions.last();
        lemma_item_score_bounded(s, truths[truth_position(truths, s.item_id).unwrap()]);
        assert(submissions.len() * SCORE_UNIT == (submissions.len() - 1) * SCORE_UNIT + SCORE_UNIT)
            by (nonlinear_arith);
    }
}

/// The score of a submission of at least one item lies between 0 and 100
/// points.
pub proof fn lemma_mission_score_bounded(
    submissions: Seq<SubmissionModel>,
    truths: Seq<GroundTruthModel>,
)
    requires
        submissions.len() > 0,
    ensures
        0 <= mission_score(submissions, truths) <= MAX_MISSION_SCORE,
{
    lemma_total_item_score_bounded(submissions, truths);
    let n = submissions.len() as int;
    let total = total_item_score(submissions, truths);
    assert(0 <= total * 100 / n <= 100_000_000) by (nonlinear_arith)
        requires
            0 <= total <= n * 1_000_000,
            0 < n,
    ;
}

/// Where every item has the same score, the sum is that score times the
/// number of items.
pub proof fn lemma_total_item_score_uniform(
    submissions: Seq<SubmissionModel>,
    truths: Seq<GroundTruthModel>,
    each: int,
)
    requires
        forall|i: int|
            0 <= i < submissions.len() ==> paired_item_score(#[trigger] submissions[i], truths)
                == each,
    ensures
        total_item_score(submissions, truths) == submissions.len() * each,
    decreases submissions.len(),
{
    if submissions.len() > 0 {
        let front = submissions.drop_last();
        assert forall|i: int| 0 <= i < front.len() implies paired_item_score(
            #[trigger] front[i],
            truths,
        ) == each by {
            assert(front[i] == submissions[i]);
        }
        lemma_total_item_score_uniform(front, truths, each);
        assert(paired_item_score(submissions[submissions.len() - 1], truths) == each);
        assert(submissions.len() * each == (submissions.len() - 1) * each + each)
            by (nonlinear_arith);
    } else {
        assert(submissions.len() * each == 0) by (nonlinear_arith)
            requires
                submissions.len() == 0,
        ;
    }
}

/// Whether every submitted item has ground truth and stands to the first
/// record of its item as `relation` says.
pub open spec fn every_item(
    submissions: Seq<SubmissionModel>,
    truths: Seq<GroundTruthModel>,
    relation: spec_fn(SubmissionModel, GroundTruthModel) -> bool,
) -> bool {
    forall|i: int|
        0 <= i < submissions.len() ==> {
            let position = truth_position(truths, (#[trigger] submissions[i]).item_id);
            position is Some && relation(submissions[i], truths[position.unwrap()])
        }
}

/// A submission of which every item has ground truth is scored, if it has
/// the mission's number of items and so has the ground truth.
pub proof fn lemma_scored_when_paired(
    submissions: Seq<SubmissionModel>,
    total_items: int,
    truths: Seq<GroundTruthModel>,
)
    requires
        submissions.len() == total_items,
        truths.len() == total_items,
        total_items > 0,
        forall|i: int|
            0 <= i < submissions.len() ==> truth_position(
                truths,
                (#[trigger] submissions[i]).item_id,
            ) is Some,
    ensures
        submission_outcome(submissions, total_items, truths) == Ok::<int, ScoringErrorModel>(
            mission_score(submissions, truths),
        ),
{
    lemma_first_without_truth(submissions, truths);
}

/// A submission whose every item repeats its ground truth scores 100 points.
pub proof fn lemma_mission_score_exact(
    submissions: Seq<SubmissionModel>,
    total_items: int,
    truths: Seq<GroundTruthModel>,
)
    requires
        submissions.len() == total_items,
        truths.len() == total_items,
        total_items > 0,
        every_item(
            submissions,
            truths,
            |s: SubmissionModel, t: GroundTruthModel| repeats_truth(s, t),
        ),
    ensures
        submission_outcome(submissions, total_items, truths) == Ok::<int, ScoringErrorModel>(
            MAX_MISSION_SCORE as int,
        ),
{
    assert forall|i: int| 0 <= i < submissions.len() implies paired_item_score(
        #[trigger] submissions[i],
        truths,
    ) == SCORE_UNIT by {
        let k = truth_position(truths, submissions[i].item_id).unwrap();
        lemma_item_score_exact(submissions[i], truths[k]);
    }
    lemma_total_item_score_uniform(submissions, truths, SCORE_UNIT as int);
    lemma_scored_when_paired(submissions, total_items, truths);
    let n = submissions.len() as int;
    assert(n * 1_000_000 * 100 / n == 100_000_000) by (nonlinear_arith)
        requires
            n > 0,
    ;
}

/// A submission whose every item is empty, against ground truth that holds
/// labels and boxes for every item, scores 0.
pub proof fn lemma_mission_score_empty_submission(
    submissions: Seq<SubmissionModel>,
    total_items: int,
    truths: Seq<GroundTruthModel>,
)
    requires
        submissions.len() == total_items,
        truths.len() == total_items,
        total_items > 0,
        every_item(
            submissions,
            truths,
            |s: SubmissionModel, t: GroundTruthModel| misses_everything(s, t),
        ),
    ensures
        submission_outcome(submissions, total_items, truths) == Ok::<int, ScoringErrorModel>(0),
{
    assert forall|i: int| 0 <= i < submissions.len() implies paired_item_score(
        #[trigger] submissions[i],
        truths,
    ) == 0 by {
        let k = truth_position(truths, submissions[i].item_id).unwrap();
        lemma_item_score_empty_submission(submissions[i], truths[k]);
    }
    lemma_total_item_score_uniform(submissions, truths, 0);
    lemma_scored_when_paired(submissions, total_items, truths);
}

/// A submission that has not the mission's number of items fails on that
/// account, whatever it and the ground truth hold.
pub proof fn lemma_cardinality_checked_first(
    submissions: Seq<SubmissionModel>,
    total_items: int,
    truths: Seq<GroundTruthModel>,
)
    requires
        submissions.len() != total_items,
    ensures
        submission_outcome(submissions, total_items, truths) == Err::<int, ScoringErrorModel>(
            ScoringErrorModel::CardinalityMismatch {
                expected: total_items,
                actual: submissions.len() as int,
            },
        ),
{
}

/// A submission is scored only if it has the mission's number of items, and
/// then its score lies between 0 and 100 points.
pub proof fn lemma_submission_outcome_bounded(
    submissions: Seq<SubmissionModel>,
    total_items: int,
    truths: Seq<GroundTruthModel>,
)
    ensures
        match submission_outcome(submissions, total_items, truths) {
            Ok(score) => {
                &&& submissions.len() == total_items
                &&& truths.len() == total_items
                &&& total_items > 0
                &&& 0 <= score <= MAX_MISSION_SCORE
            },
            Err(_) => true,
        },
{
    if submissions.len() > 0 {
        lemma_mission_score_bounded(submissions, truths);
    }
}

} // verus!
