//! Matching of submitted boxes to ground-truth boxes.
//!
//! Each ground-truth box is matched on its own to the best submitted box of
//! the same label. Nothing keeps one submitted box from being the best match
//! of several ground-truth boxes.

use vstd::prelude::*;
use crate::models::annotation::BoxModel;
use crate::scoring::geometry::{
    area, iou, iou_exceeds_half, lemma_iou_bounded, lemma_iou_exceeds_half, lemma_iou_reflexive,
    HALF_UNIT, SCORE_UNIT,
};

verus! {

/// The greatest IoU that a submitted box of the same label has with
/// `truth_box`; 0 where there is no such box.
pub open spec fn best_iou(submitted: Seq<BoxModel>, truth_box: BoxModel) -> int
    decreases submitted.len(),
{
    if submitted.len() == 0 {
        0
    } else {
        let rest = best_iou(submitted.drop_last(), truth_box);
        let last = submitted.last();
        if last.label == truth_box.label && iou(last, truth_box) > rest {
            iou(last, truth_box)
        } else {
            rest
        }
    }
}

/// Whether the ground-truth box counts as matched: its best IoU exceeds one
/// half, which is to say that some submitted box of the same label has an
/// IoU with it that does.
pub open spec fn is_matched(submitted: Seq<BoxModel>, truth_box: BoxModel) -> bool {
    exists|j: int|
        0 <= j < submitted.len() && (#[trigger] submitted[j]).label == truth_box.label
            && iou_exceeds_half(submitted[j], truth_box)
}

/// What one ground-truth box adds to the total: its best IoU where it is
/// matched, else nothing.
pub open spec fn credit(submitted: Seq<BoxModel>, truth_box: BoxModel) -> int {
    if is_matched(submitted, truth_box) {
        best_iou(submitted, truth_box)
    } else {
        0
    }
}

/// The sum of the credits of all ground-truth boxes.
pub open spec fn total_credit(submitted: Seq<BoxModel>, truth: Seq<BoxModel>) -> int
    decreases truth.len(),
{
    if truth.len() == 0 {
        0
    } else {
        total_credit(submitted, truth.drop_last()) + credit(submitted, truth.last())
    }
}

/// The bounding-box score, in millionths, rounded down.
///
/// With no truth: 1.0 for an empty submission and 0 for any other. Else the
/// total credit divided by the number of ground-truth boxes, matched or not.
pub open spec fn bbox_score(submitted: Seq<BoxModel>, truth: Seq<BoxModel>) -> int {
    if truth.len() == 0 {
        if submitted.len() == 0 {
            SCORE_UNIT as int
        } else {
            0
        }
    } else {
        total_credit(submitted, truth) / (truth.len() as int)
    }
}

/// `best_iou` is the maximum over the submitted boxes of the same label: it
/// is a score, no such box exceeds it, and unless it is 0 one of them attains
/// it.
pub proof fn lemma_best_iou_is_max(submitted: Seq<BoxModel>, truth_box: BoxModel)
    ensures
        0 <= best_iou(submitted, truth_box) <= SCORE_UNIT,
        forall|j: int|
            0 <= j < submitted.len() && (#[trigger] submitted[j]).label == truth_box.label ==> iou(
                submitted[j],
                truth_box,
            ) <= best_iou(submitted, truth_box),
        best_iou(submitted, truth_box) == 0 || exists|j: int|
            0 <= j < submitted.len() && (#[trigger] submitted[j]).label == truth_box.label && iou(
                submitted[j],
                truth_box,
            ) == best_iou(submitted, truth_box),
    decreases submitted.len(),
{
    if submitted.len() > 0 {
        let front = submitted.drop_last();
        let last = submitted.last();
        lemma_best_iou_is_max(front, truth_box);
        lemma_iou_bounded(last, truth_box);
        assert forall|j: int|
            0 <= j < submitted.len() && (#[trigger] submitted[j]).label
                == truth_box.label implies iou(submitted[j], truth_box) <= best_iou(
            submitted,
            truth_box,
        ) by {
            if j < front.len() {
                assert(front[j] == submitted[j]);
            }
        }
        if best_iou(submitted, truth_box) != 0 {
            if last.label == truth_box.label && iou(last, truth_box) > best_iou(front, truth_box) {
                assert(submitted[submitted.len() - 1] == last);
            } else {
                let j = choose|j: int|
                    0 <= j < front.len() && (#[trigger] front[j]).label == truth_box.label && iou(
                        front[j],
                        truth_box,
                    ) == best_iou(front, truth_box);
                assert(submitted[j] == front[j]);
            }
        }
    }
}

/// A matched box has a best IoU of at least one half, so that its credit is
/// never below `HALF_UNIT`; and a box whose best IoU is above `HALF_UNIT` is
/// matched.
pub proof fn lemma_matched_by_best(submitted: Seq<BoxModel>, truth_box: BoxModel)
    ensures
        is_matched(submitted, truth_box) ==> best_iou(submitted, truth_box) >= HALF_UNIT,
        best_iou(submitted, truth_box) > HALF_UNIT ==> is_matched(submitted, truth_box),
{
    lemma_best_iou_is_max(submitted, truth_box);
    if is_matched(submitted, truth_box) {
        let j = choose|j: int|
            0 <= j < submitted.len() && (#[trigger] submitted[j]).label == truth_box.label
                && iou_exceeds_half(submitted[j], truth_box);
        lemma_iou_exceeds_half(submitted[j], truth_box);
    }
    if best_iou(submitted, truth_box) > HALF_UNIT {
        let j = choose|j: int|
            0 <= j < submitted.len() && (#[trigger] submitted[j]).label == truth_box.label && iou(
                submitted[j],
                truth_box,
            ) == best_iou(submitted, truth_box);
        lemma_iou_exceeds_half(submitted[j], truth_box);
    }
}

/// No credit exceeds 1.0, so the total is at most the number of ground-truth
/// boxes.
pub proof fn lemma_total_credit_bounded(submitted: Seq<BoxModel>, truth: Seq<BoxModel>)
    ensures
        0 <= total_credit(submitted, truth) <= truth.len() * SCORE_UNIT,
    decreases truth.len(),
{
    if truth.len() > 0 {
        lemma_total_credit_bounded(submitted, truth.drop_last());
        lemma_best_iou_is_max(submitted, truth.last());
        assert(truth.len() * SCORE_UNIT == (truth.len() - 1) * SCORE_UNIT + SCORE_UNIT)
            by (nonlinear_arith);
    }
}

/// The bounding-box score lies between 0 and `SCORE_UNIT`.
pub proof fn lemma_bbox_score_bounded(submitted: Seq<BoxModel>, truth: Seq<BoxModel>)
    ensures
        0 <= bbox_score(submitted, truth) <= SCORE_UNIT,
{
    if truth.len() > 0 {
        lemma_total_credit_bounded(submitted, truth);
        let n = truth.len() as int;
        let total = total_credit(submitted, truth);
        assert(0 <= total / n <= SCORE_UNIT) by (nonlinear_arith)
            requires
                0 <= total <= n * SCORE_UNIT,
                0 < n,
        ;
    }
}

/// Where every ground-truth box has the same credit, the total is that
/// credit times their number.
pub proof fn lemma_total_credit_uniform(submitted: Seq<BoxModel>, truth: Seq<BoxModel>, each: int)
    requires
        forall|i: int| 0 <= i < truth.len() ==> credit(submitted, #[trigger] truth[i]) == each,
    ensures
        total_credit(submitted, truth) == truth.len() * each,
    decreases truth.len(),
{
    if truth.len() > 0 {
        let front = truth.drop_last();
        assert forall|i: int| 0 <= i < front.len() implies credit(submitted, #[trigger] front[i])
            == each by {
            assert(front[i] == truth[i]);
        }
        lemma_total_credit_uniform(submitted, front, each);
        assert(credit(submitted, truth[truth.len() - 1]) == each);
        assert(truth.len() * each == (truth.len() - 1) * each + each) by (nonlinear_arith);
    } else {
        assert(truth.len() * each == 0) by (nonlinear_arith)
            requires
                truth.len() == 0,
        ;
    }
}

/// A submission that repeats the truth has bounding-box score 1.0, provided
/// that every box has positive area: a box without area overlaps nothing, not
/// even itself.
pub proof fn lemma_bbox_score_exact(boxes: Seq<BoxModel>)
    requires
        forall|i: int| 0 <= i < boxes.len() ==> area(#[trigger] boxes[i]) > 0,
    ensures
        bbox_score(boxes, boxes) == SCORE_UNIT,
{
    if boxes.len() > 0 {
        assert forall|i: int| 0 <= i < boxes.len() implies credit(boxes, #[trigger] boxes[i])
            == SCORE_UNIT by {
            lemma_iou_reflexive(boxes[i]);
            lemma_best_iou_is_max(boxes, boxes[i]);
            assert(is_matched(boxes, boxes[i]));
        }
        lemma_total_credit_uniform(boxes, boxes, SCORE_UNIT as int);
        let n = boxes.len() as int;
        assert(n * SCORE_UNIT / n == SCORE_UNIT) by (nonlinear_arith)
            requires
                n > 0,
        ;
    }
}

/// An empty submission has bounding-box score 0 against any truth that is not
/// empty.
pub proof fn lemma_bbox_score_empty_submission(truth: Seq<BoxModel>)
    requires
        truth.len() > 0,
    ensures
        bbox_score(Seq::empty(), truth) == 0,
{
    let submitted = Seq::<BoxModel>::empty();
    assert forall|i: int| 0 <= i < truth.len() implies credit(submitted, #[trigger] truth[i])
        == 0 by {
        assert(!is_matched(submitted, truth[i]));
    }
    lemma_total_credit_uniform(submitted, truth, 0);
}

} // verus!
