//! Scoring of a submission against the ground truth.

use vstd::prelude::*;
use crate::error::{outcome, ScoringError, ScoringErrorModel};
use crate::models::annotation::{
    BoundingBox, CreateMissionSubmissionRequest, LabelAnnotation, LabelModel, MissionGroundTruth,
    MissionSubmission,
};
use crate::models::mission::Mission;
use crate::scoring::aggregate::{
    first_without_truth, lemma_first_without_truth, lemma_mission_score_bounded,
    lemma_truth_position, scoring_outcome, submission_outcome, total_item_score, truth_position,
    MAX_MISSION_SCORE,
};
use crate::scoring::boxes::{
    bbox_score, best_iou, is_matched, lemma_best_iou_is_max, lemma_bbox_score_bounded,
    total_credit,
};
use crate::scoring::geometry::{
    area, intersection_area, iou, iou_exceeds_half, lemma_intersection_bounded,
    lemma_product_bounded, lemma_ratio_bounded, overlap_height, overlap_width, overlaps,
    union_area, SCORE_UNIT,
};
use crate::scoring::item::{item_score, lemma_item_score_bounded, BBOX_WEIGHT, LABEL_WEIGHT};
use crate::scoring::labels::{label_present, label_score, matched_labels};
use crate::services::submission::{
    is_step, SubmissionAction, SubmissionEvent, SubmissionState, SubmitError,
};

verus! {

/// The scoring operations.
pub struct MissionScoreService;

impl MissionScoreService {
    /// Takes the handling of a scoring request one step further: given where
    /// it stands and what the caller reports, says where it stands now and
    /// what the caller is to do.
    ///
    /// The caller starts in `Received` with `Started`, does what each action
    /// asks, and reports what came of it, until it is told to answer.
    pub fn submit_and_score(
        req: &CreateMissionSubmissionRequest,
        state: SubmissionState,
        event: SubmissionEvent,
    ) -> (step: (SubmissionState, SubmissionAction))
        ensures
            is_step(*req, state, event, step.0, step.1),
    {
        match (state, event) {
            (SubmissionState::Received, SubmissionEvent::Started) => {
                match req.validate() {
                    Ok(_) => (
                        SubmissionState::AwaitingMission,
                        SubmissionAction::LoadMission { mission_id: req.mission_id },
                    ),
                    Err(fields) => (
                        SubmissionState::Done,
                        SubmissionAction::Reject(SubmitError::Invalid(fields)),
                    ),
                }
            },
            (SubmissionState::AwaitingMission, SubmissionEvent::MissionLoaded(None)) => (
                SubmissionState::Done,
                SubmissionAction::Reject(SubmitError::MissionNotFound),
            ),
            (SubmissionState::AwaitingMission, SubmissionEvent::MissionLoaded(Some(mission))) => {
                match Self::check_submission_count(req.submissions.as_slice(), &mission) {
                    Ok(_) => (
                        SubmissionState::AwaitingGroundTruth { mission },
                        SubmissionAction::LoadGroundTruth { mission_id: req.mission_id },
                    ),
                    Err(e) => (
                        SubmissionState::Done,
                        SubmissionAction::Reject(SubmitError::Scoring(e)),
                    ),
                }
            },
            (
                SubmissionState::AwaitingGroundTruth { mission },
                SubmissionEvent::GroundTruthLoaded(ground_truths),
            ) => {
                match Self::score_submission(
                    req.submissions.as_slice(),
                    &mission,
                    ground_truths.as_slice(),
                ) {
                    Ok(score) => (
                        SubmissionState::AwaitingStore { score },
                        SubmissionAction::StoreScore {
                            mission_id: req.mission_id,
                            annotator_id: req.annotator_id,
                            score,
                        },
                    ),
                    Err(e) => (
                        SubmissionState::Done,
                        SubmissionAction::Reject(SubmitError::Scoring(e)),
                    ),
                }
            },
            (SubmissionState::AwaitingStore { score: _ }, SubmissionEvent::ScoreStored) => (
                SubmissionState::Done,
                SubmissionAction::Finish,
            ),
            _ => (SubmissionState::Done, SubmissionAction::Reject(SubmitError::OutOfTurn)),
        }
    }

    /// Scores a submission for a mission, on a scale from 0 to 100 points, in
    /// millionths of a point.
    ///
    /// The submission must hold as many items as the mission declares, and so
    /// must the ground truth; both are checked before any item is scored.
    pub fn score_submission(
        submissions: &[MissionSubmission],
        mission: &Mission,
        ground_truths: &[MissionGroundTruth],
    ) -> (result: Result<u64, ScoringError>)
        ensures
            outcome(result) == submission_outcome(
                submissions.deep_view(),
                mission@.total_items,
                ground_truths.deep_view(),
            ),
            result is Ok ==> result.unwrap() <= MAX_MISSION_SCORE,
    {
        match Self::check_submission_count(submissions, mission) {
            Ok(_) => {},
            Err(e) => {
                return Err(e);
            },
        }
        if ground_truths.len() != mission.total_items as usize {
            return Err(ScoringError::DataInconsistency);
        }
        Self::calculate_score(submissions, ground_truths)
    }

    /// Checks that the submission holds as many items as the mission
    /// declares. Nothing else about the submission is looked at.
    pub fn check_submission_count(
        submissions: &[MissionSubmission],
        mission: &Mission,
    ) -> (result: Result<(), ScoringError>)
        ensures
            match result {
                Ok(_) => submissions@.len() == mission@.total_items,
                Err(e) => submissions@.len() != mission@.total_items && e@
                    == (ScoringErrorModel::CardinalityMismatch {
                    expected: mission@.total_items,
                    actual: submissions@.len() as int,
                }),
            },
    {
        if mission.total_items < 0 || submissions.len() != mission.total_items as usize {
            Err(
                ScoringError::CardinalityMismatch {
                    expected: mission.total_items,
                    actual: submissions.len(),
                },
            )
        } else {
            Ok(())
        }
    }

    /// The position of the first record in `ground_truths` of the item
    /// `item_id`, if there is one.
    pub fn find_ground_truth(
        ground_truths: &[MissionGroundTruth],
        item_id: &String,
    ) -> (found: Option<usize>)
        ensures
            match found {
                Some(k) => truth_position(ground_truths.deep_view(), item_id@) == Some(k as int),
                None => truth_position(ground_truths.deep_view(), item_id@) is None,
            },
    {
        let ghost truths = ground_truths.deep_view();
        let mut k: usize = 0;
        while k < ground_truths.len()
            invariant
                k <= ground_truths.len(),
                truths == ground_truths.deep_view(),
                forall|m: int| 0 <= m < k ==> (#[trigger] truths[m]).item_id != item_id@,
            decreases ground_truths.len() - k,
        {
            if ground_truths[k].item_id == *item_id {
                proof {
                    assert(truths[k as int].item_id == item_id@);
                    lemma_truth_position(truths, item_id@);
                }
                return Some(k);
            }
            k += 1;
        }
        proof {
            lemma_truth_position(truths, item_id@);
        }
        None
    }

    /// Scores the submitted items, each against the first ground-truth record
    /// of its item, and takes the mean, on a scale from 0 to 100 points, in
    /// millionths of a point. Items are taken in the order given.
    pub fn calculate_score(
        submissions: &[MissionSubmission],
        ground_truths: &[MissionGroundTruth],
    ) -> (result: Result<u64, ScoringError>)
        ensures
            outcome(result) == scoring_outcome(submissions.deep_view(), ground_truths.deep_view()),
            result is Ok ==> result.unwrap() <= MAX_MISSION_SCORE,
    {
        let ghost subs = submissions.deep_view();
        let ghost truths = ground_truths.deep_view();
        let mut total_score: u128 = 0;
        let mut i: usize = 0;
        proof {
            assert(subs.take(0) =~= Seq::empty());
        }
        while i < submissions.len()
            invariant
                i <= submissions.len(),
                subs == submissions.deep_view(),
                truths == ground_truths.deep_view(),
                first_without_truth(subs.take(i as int), truths) is None,
                total_score == total_item_score(subs.take(i as int), truths),
                total_score <= i * SCORE_UNIT,
            decreases submissions.len() - i,
        {
            let submission = &submissions[i];
            proof {
                assert(subs.take(i + 1).drop_last() =~= subs.take(i as int));
                assert(subs.take(i + 1).last() == submission@);
                assert(subs[i as int] == submission@);
            }
            match Self::find_ground_truth(ground_truths, &submission.item_id) {
                None => {
                    proof {
                        lemma_first_without_truth(subs.take(i as int), truths);
                        lemma_first_without_truth(subs, truths);
                        assert forall|m: int| 0 <= m < i implies truth_position(
                            truths,
                            (#[trigger] subs[m]).item_id,
                        ) is Some by {
                            assert(subs.take(i as int)[m] == subs[m]);
                        }
                        assert(first_without_truth(subs, truths) == Some(i as int));
                    }
                    return Err(ScoringError::NotFound { item_id: submission.item_id.clone() });
                },
                Some(k) => {
                    proof {
                        lemma_truth_position(truths, submission@.item_id);
                    }
                    let ground_truth = &ground_truths[k];
                    proof {
                        assert(truths[k as int] == ground_truth@);
                        lemma_item_score_bounded(submission@, ground_truth@);
                        assert((i + 1) * SCORE_UNIT == i * SCORE_UNIT + SCORE_UNIT)
                            by (nonlinear_arith);
                        assert(i * SCORE_UNIT <= 0x1_0000_0000_0000_0000 * 1_000_000)
                            by (nonlinear_arith)
                            requires
                                0 <= i < 0x1_0000_0000_0000_0000,
                                SCORE_UNIT == 1_000_000,
                        ;
                    }
                    match Self::calculate_item_score(submission, ground_truth) {
                        Ok(score) => {
                            total_score += score as u128;
                        },
                        Err(e) => {
                            return Err(e);
                        },
                    }
                },
            }
            i += 1;
        }
        proof {
            assert(subs.take(i as int) =~= subs);
        }
        if submissions.len() == 0 {
            return Err(ScoringError::NumericConversionFailure);
        }
        proof {
            lemma_mission_score_bounded(subs, truths);
            assert(total_score * 100 <= 0x1_0000_0000_0000_0000 * 1_000_000 * 100)
                by (nonlinear_arith)
                requires
                    total_score <= i * SCORE_UNIT,
                    0 <= i < 0x1_0000_0000_0000_0000,
                    SCORE_UNIT == 1_000_000,
            ;
        }
        Ok((total_score * 100 / (submissions.len() as u128)) as u64)
    }

    /// The score of one submitted item against the truth for that item, in
    /// millionths: 0.4 of the label score and 0.6 of the bounding-box score.
    ///
    /// Fails where the two records are not of the same item.
    pub fn calculate_item_score(
        submission: &MissionSubmission,
        ground_truth: &MissionGroundTruth,
    ) -> (result: Result<u64, ScoringError>)
        ensures
            outcome(result) == if submission@.item_id == ground_truth@.item_id {
                Ok::<int, ScoringErrorModel>(item_score(submission@, ground_truth@))
            } else {
                Err(ScoringErrorModel::DataInconsistency)
            },
            result is Ok ==> result.unwrap() <= SCORE_UNIT,
    {
        if submission.item_id != ground_truth.item_id {
            return Err(ScoringError::DataInconsistency);
        }
        let label_score = Self::calculate_label_score(
            submission.labels.as_slice(),
            ground_truth.labels.as_slice(),
        );
        let bbox_score = Self::calculate_bbox_score(
            submission.bounding_boxes.as_slice(),
            ground_truth.bounding_boxes.as_slice(),
        );
        proof {
            lemma_item_score_bounded(submission@, ground_truth@);
        }
        Ok((LABEL_WEIGHT * label_score + BBOX_WEIGHT * bbox_score) / 10)
    }

    /// Whether some annotation in `labels` carries exactly the label `wanted`.
    fn has_label(labels: &[LabelAnnotation], wanted: &String) -> (found: bool)
        ensures
            found == label_present(labels.deep_view(), wanted@),
    {
        let mut j: usize = 0;
        while j < labels.len()
            invariant
                j <= labels.len(),
                forall|k: int| 0 <= k < j ==> (#[trigger] labels.deep_view()[k]).label != wanted@,
            decreases labels.len() - j,
        {
            if labels[j].label == *wanted {
                assert(labels.deep_view()[j as int].label == wanted@);
                return true;
            }
            j += 1;
        }
        false
    }

    /// The share of the ground-truth labels that were submitted, in
    /// millionths.
    pub fn calculate_label_score(
        submission_labels: &[LabelAnnotation],
        ground_truth_labels: &[LabelAnnotation],
    ) -> (result: u64)
        ensures
            result == label_score(submission_labels.deep_view(), ground_truth_labels.deep_view()),
            result <= SCORE_UNIT,
    {
        let ghost submitted = submission_labels.deep_view();
        let ghost truth = ground_truth_labels.deep_view();
        let ghost present = |t: LabelModel| label_present(submitted, t.label);
        if ground_truth_labels.len() == 0 {
            return if submission_labels.len() == 0 { SCORE_UNIT } else { 0 };
        }
        let mut correct_count: usize = 0;
        let mut i: usize = 0;
        proof {
            assert(truth.take(0) =~= Seq::empty());
            Seq::<LabelModel>::empty().lemma_filter_len(present);
        }
        while i < ground_truth_labels.len()
            invariant
                i <= ground_truth_labels.len(),
                submitted == submission_labels.deep_view(),
                truth == ground_truth_labels.deep_view(),
                present == |t: LabelModel| label_present(submitted, t.label),
                correct_count == truth.take(i as int).filter(present).len(),
                correct_count <= i,
            decreases ground_truth_labels.len() - i,
        {
            let found = Self::has_label(submission_labels, &ground_truth_labels[i].label);
            proof {
                truth.lemma_take_succ_push(i as int);
                truth.take(i as int).lemma_filter_len_push(present, truth[i as int]);
                assert(found == present(truth[i as int]));
            }
            if found {
                correct_count += 1;
            }
            i += 1;
        }
        proof {
            truth.lemma_take_len();
            assert(truth.take(i as int) == truth);
            assert(matched_labels(submitted, truth) == truth.filter(present));
            lemma_ratio_bounded(correct_count as int, truth.len() as int, SCORE_UNIT as int);
            assert(correct_count * SCORE_UNIT <= 0x1_0000_0000_0000_0000 * 1_000_000)
                by (nonlinear_arith)
                requires
                    0 <= correct_count < 0x1_0000_0000_0000_0000,
                    SCORE_UNIT == 1_000_000,
            ;
        }
        (correct_count as u128 * (SCORE_UNIT as u128) / (ground_truth_labels.len() as u128)) as u64
    }

    /// The greatest IoU that a box of `submission_bboxes` with the label of
    /// `gt_bbox` has with it, 0 where there is none; and whether it exceeds
    /// one half.
    fn best_candidate_iou(
        submission_bboxes: &[BoundingBox],
        gt_bbox: &BoundingBox,
    ) -> (found: (u64, bool))
        ensures
            found.0 == best_iou(submission_bboxes.deep_view(), gt_bbox@),
            found.1 == is_matched(submission_bboxes.deep_view(), gt_bbox@),
            found.0 <= SCORE_UNIT,
    {
        let ghost submitted = submission_bboxes.deep_view();
        let mut best: u64 = 0;
        let mut matched = false;
        let mut j: usize = 0;
        proof {
            assert(submitted.take(0) =~= Seq::empty());
        }
        while j < submission_bboxes.len()
            invariant
                j <= submission_bboxes.len(),
                submitted == submission_bboxes.deep_view(),
                best == best_iou(submitted.take(j as int), gt_bbox@),
                matched == is_matched(submitted.take(j as int), gt_bbox@),
            decreases submission_bboxes.len() - j,
        {
            let ghost before = submitted.take(j as int);
            let ghost upto = submitted.take(j + 1);
            proof {
                assert(upto.drop_last() =~= before);
                assert(upto.last() == submission_bboxes[j as int]@);
            }
            let mut exceeds = false;
            if submission_bboxes[j].label == gt_bbox.label {
                let (intersection, union) = Self::overlap(&submission_bboxes[j], gt_bbox);
                let iou = Self::ratio(intersection, union);
                if iou > best {
                    best = iou;
                }
                exceeds = intersection > 0 && 2 * intersection > union;
                if exceeds {
                    matched = true;
                }
            }
            proof {
                if exceeds {
                    assert(upto[j as int] == upto.last());
                } else if is_matched(upto, gt_bbox@) {
                    let k = choose|k: int|
                        0 <= k < upto.len() && (#[trigger] upto[k]).label == gt_bbox@.label
                            && iou_exceeds_half(upto[k], gt_bbox@);
                    assert(k < j);
                    assert(before[k] == upto[k]);
                }
                if is_matched(before, gt_bbox@) {
                    let k = choose|k: int|
                        0 <= k < before.len() && (#[trigger] before[k]).label == gt_bbox@.label
                            && iou_exceeds_half(before[k], gt_bbox@);
                    assert(upto[k] == before[k]);
                }
            }
            j += 1;
        }
        proof {
            assert(submitted.take(j as int) =~= submitted);
            lemma_best_iou_is_max(submitted, gt_bbox@);
        }
        (best, matched)
    }

    /// The share of the ground-truth boxes that were found, each weighted by
    /// how well its best submitted box of the same label covers it, in
    /// millionths.
    pub fn calculate_bbox_score(
        submission_bboxes: &[BoundingBox],
        ground_truth_bboxes: &[BoundingBox],
    ) -> (result: u64)
        ensures
            result == bbox_score(submission_bboxes.deep_view(), ground_truth_bboxes.deep_view()),
            result <= SCORE_UNIT,
    {
        let ghost submitted = submission_bboxes.deep_view();
        let ghost truth = ground_truth_bboxes.deep_view();
        if ground_truth_bboxes.len() == 0 {
            return if submission_bboxes.len() == 0 { SCORE_UNIT } else { 0 };
        }
        let mut total_iou: u128 = 0;
        let mut i: usize = 0;
        proof {
            assert(truth.take(0) =~= Seq::empty());
        }
        while i < ground_truth_bboxes.len()
            invariant
                i <= ground_truth_bboxes.len(),
                submitted == submission_bboxes.deep_view(),
                truth == ground_truth_bboxes.deep_view(),
                total_iou == total_credit(submitted, truth.take(i as int)),
                total_iou <= i * SCORE_UNIT,
            decreases ground_truth_bboxes.len() - i,
        {
            let (best_iou, matched) = Self::best_candidate_iou(
                submission_bboxes,
                &ground_truth_bboxes[i],
            );
            proof {
                assert(truth.take(i + 1).drop_last() =~= truth.take(i as int));
                assert(truth.take(i + 1).last() == ground_truth_bboxes[i as int]@);
                assert((i + 1) * SCORE_UNIT == i * SCORE_UNIT + SCORE_UNIT) by (nonlinear_arith);
                assert(i * SCORE_UNIT <= 0x1_0000_0000_0000_0000 * 1_000_000) by (nonlinear_arith)
                    requires
                        0 <= i < 0x1_0000_0000_0000_0000,
                        SCORE_UNIT == 1_000_000,
                ;
            }
            if matched {
                total_iou += best_iou as u128;
            }
            i += 1;
        }
        proof {
            assert(truth.take(i as int) =~= truth);
            lemma_bbox_score_bounded(submitted, truth);
        }
        (total_iou / (ground_truth_bboxes.len() as u128)) as u64
    }

    /// Intersection over union of two boxes, in millionths. Labels are not
    /// consulted.
    pub fn calculate_iou(bbox1: &BoundingBox, bbox2: &BoundingBox) -> (result: u64)
        ensures
            result == iou(bbox1@, bbox2@),
            result <= SCORE_UNIT,
    {
        let (intersection, union) = Self::overlap(bbox1, bbox2);
        Self::ratio(intersection, union)
    }

    /// The area that the two boxes share and the area that they cover
    /// together.
    fn overlap(bbox1: &BoundingBox, bbox2: &BoundingBox) -> (areas: (u128, u128))
        ensures
            areas.0 == intersection_area(bbox1@, bbox2@),
            areas.1 == union_area(bbox1@, bbox2@),
            areas.0 <= areas.1,
            areas.0 < 0x1_0000_0000_0000_0000,
            areas.0 > 0 <==> overlaps(bbox1@, bbox2@),
    {
        let x1_max: u64 = bbox1.x as u64 + bbox1.width as u64;
        let y1_max: u64 = bbox1.y as u64 + bbox1.height as u64;
        let x2_max: u64 = bbox2.x as u64 + bbox2.width as u64;
        let y2_max: u64 = bbox2.y as u64 + bbox2.height as u64;

        let left: u64 = if bbox1.x >= bbox2.x { bbox1.x as u64 } else { bbox2.x as u64 };
        let top: u64 = if bbox1.y >= bbox2.y { bbox1.y as u64 } else { bbox2.y as u64 };
        let right: u64 = if x1_max <= x2_max { x1_max } else { x2_max };
        let bottom: u64 = if y1_max <= y2_max { y1_max } else { y2_max };

        proof {
            lemma_intersection_bounded(bbox1@, bbox2@);
            lemma_product_bounded(
                bbox1.width as int,
                bbox1.height as int,
                u32::MAX as int,
                u32::MAX as int,
            );
            lemma_product_bounded(
                bbox2.width as int,
                bbox2.height as int,
                u32::MAX as int,
                u32::MAX as int,
            );
            assert(u32::MAX * u32::MAX < 0x1_0000_0000_0000_0000) by (nonlinear_arith);
            assert(area(bbox1@) == bbox1.width * bbox1.height);
            assert(area(bbox2@) == bbox2.width * bbox2.height);
            assert(right - left == overlap_width(bbox1@, bbox2@));
            assert(bottom - top == overlap_height(bbox1@, bbox2@));
        }
        let area1: u128 = bbox1.width as u128 * bbox1.height as u128;
        let area2: u128 = bbox2.width as u128 * bbox2.height as u128;
        let intersection: u128 = if right <= left || bottom <= top {
            0
        } else {
            (right - left) as u128 * (bottom - top) as u128
        };
        (intersection, area1 + area2 - intersection)
    }

    /// The part as a share of the whole, in millionths; 0 where there is no
    /// part or no whole.
    fn ratio(part: u128, whole: u128) -> (share: u64)
        requires
            part <= whole,
            part < 0x1_0000_0000_0000_0000,
        ensures
            share == if part == 0 || whole == 0 {
                0
            } else {
                part * SCORE_UNIT / (whole as int)
            },
            share <= SCORE_UNIT,
    {
        if part == 0 || whole == 0 {
            0
        } else {
            proof {
                lemma_ratio_bounded(part as int, whole as int, SCORE_UNIT as int);
                assert(part * SCORE_UNIT <= 0x1_0000_0000_0000_0000 * 1_000_000)
                    by (nonlinear_arith)
                    requires
                        0 <= part < 0x1_0000_0000_0000_0000,
                        SCORE_UNIT == 1_000_000,
                ;
            }
            (part * (SCORE_UNIT as u128) / whole) as u64
        }
    }
}

} // verus!
