//! The handling of a scoring request, step by step.
//!
//! Scoring a request needs the mission and the ground truth from the store,
//! and ends with the score being stored. What is to be done next is decided
//! here; doing it is left to the caller, who reports back with an event.

use vstd::prelude::*;
use crate::error::{ScoringError, ScoringErrorModel};
use crate::models::annotation::{CreateMissionSubmissionRequest, MissionGroundTruth};
use crate::models::mission::Mission;
use crate::scoring::aggregate::{
    lemma_submission_outcome_bounded, submission_outcome, MAX_MISSION_SCORE,
};
use crate::validation::InvalidField;

verus! {

/// Where the handling of a request stands.
#[derive(Debug)]
pub enum SubmissionState {
    /// Nothing has been done yet.
    Received,
    /// The mission was asked for.
    AwaitingMission,
    /// The mission is known and the ground truth was asked for.
    AwaitingGroundTruth { mission: Mission },
    /// The score was handed over to be stored.
    AwaitingStore { score: u64 },
    /// Nothing more is to be done.
    Done,
}

/// What the caller reports.
#[derive(Debug)]
pub enum SubmissionEvent {
    /// The request has come in.
    Started,
    /// The store was asked for the mission, and had it or not.
    MissionLoaded(Option<Mission>),
    /// The store gave the mission's ground truth.
    GroundTruthLoaded(Vec<MissionGroundTruth>),
    /// The score is stored.
    ScoreStored,
}

/// What the caller is to do next.
#[derive(Debug)]
pub enum SubmissionAction {
    /// Ask the store for the mission.
    LoadMission { mission_id: i64 },
    /// Ask the store for the mission's ground truth.
    LoadGroundTruth { mission_id: i64 },
    /// Store the score, in millionths of a point, in place of any earlier
    /// score of this annotator for this mission.
    StoreScore { mission_id: i64, annotator_id: i64, score: u64 },
    /// Answer with the stored score.
    Finish,
    /// Answer with the error.
    Reject(SubmitError),
}

/// Why a request was not scored.
#[derive(Debug)]
pub enum SubmitError {
    /// The request breaks its own rule.
    Invalid(Vec<InvalidField>),
    /// The store has no such mission.
    MissionNotFound,
    /// The submission could not be scored.
    Scoring(ScoringError),
    /// An event came that the state did not wait for.
    OutOfTurn,
}

/// Whether the action is to reject the request with this scoring error.
pub open spec fn rejects_with(action: SubmissionAction, error: ScoringErrorModel) -> bool {
    action matches SubmissionAction::Reject(SubmitError::Scoring(e)) && e@ == error
}

/// What a step comes to, for each state and each event that it waits for.
///
/// A request that breaks its rule is rejected before the store is asked for
/// anything; one for a mission that the store has not, before anything is
/// counted; one with the wrong number of items, before the ground truth is
/// asked for and so before anything is scored. A step that rejects, and the
/// step after the score is stored, end in `Done`; so does any event out of
/// turn.
pub open spec fn is_step(
    req: CreateMissionSubmissionRequest,
    state: SubmissionState,
    event: SubmissionEvent,
    next: SubmissionState,
    action: SubmissionAction,
) -> bool {
    match (state, event) {
        (SubmissionState::Received, SubmissionEvent::Started) => if req.is_valid() {
            &&& next is AwaitingMission
            &&& action == (SubmissionAction::LoadMission { mission_id: req.mission_id })
        } else {
            &&& next is Done
            &&& action matches SubmissionAction::Reject(SubmitError::Invalid(fields))
            &&& fields@ == seq![InvalidField::Submissions]
        },
        (SubmissionState::AwaitingMission, SubmissionEvent::MissionLoaded(None)) => {
            &&& next is Done
            &&& action is Reject
            &&& action->Reject_0 is MissionNotFound
        },
        (SubmissionState::AwaitingMission, SubmissionEvent::MissionLoaded(Some(mission))) => {
            if req.submissions@.len() == mission.total_items {
                &&& next == (SubmissionState::AwaitingGroundTruth { mission })
                &&& action == (SubmissionAction::LoadGroundTruth { mission_id: req.mission_id })
            } else {
                &&& next is Done
                &&& rejects_with(
                    action,
                    ScoringErrorModel::CardinalityMismatch {
                        expected: mission.total_items as int,
                        actual: req.submissions@.len() as int,
                    },
                )
            }
        },
        (
            SubmissionState::AwaitingGroundTruth { mission },
            SubmissionEvent::GroundTruthLoaded(ground_truths),
        ) => match submission_outcome(
            req.submissions.deep_view(),
            mission.total_items as int,
            ground_truths.deep_view(),
        ) {
            Ok(score) => {
                &&& next matches SubmissionState::AwaitingStore { score: held }
                &&& held == score
                &&& action matches SubmissionAction::StoreScore {
                    mission_id,
                    annotator_id,
                    score: stored,
                }
                &&& mission_id == req.mission_id
                &&& annotator_id == req.annotator_id
                &&& stored == score
            },
            Err(error) => next is Done && rejects_with(action, error),
        },
        (SubmissionState::AwaitingStore { .. }, SubmissionEvent::ScoreStored) => {
            &&& next is Done
            &&& action is Finish
        },
        _ => {
            &&& next is Done
            &&& action is Reject
            &&& action->Reject_0 is OutOfTurn
        },
    }
}

/// A request with the wrong number of items is rejected as soon as the
/// mission is known: the ground truth is not asked for, and nothing is
/// scored or stored.
pub proof fn lemma_wrong_count_ends_handling(
    req: CreateMissionSubmissionRequest,
    mission: Mission,
    next: SubmissionState,
    action: SubmissionAction,
)
    requires
        req.submissions@.len() != mission.total_items,
        is_step(
            req,
            SubmissionState::AwaitingMission,
            SubmissionEvent::MissionLoaded(Some(mission)),
            next,
            action,
        ),
    ensures
        next is Done,
        rejects_with(
            action,
            ScoringErrorModel::CardinalityMismatch {
                expected: mission.total_items as int,
                actual: req.submissions@.len() as int,
            },
        ),
{
}

/// A score is handed over to be stored only if the submission has the
/// mission's number of items, the ground truth has it too, and every
/// submitted item has ground truth; and it is then at most 100 points.
pub proof fn lemma_stored_score_is_sound(
    req: CreateMissionSubmissionRequest,
    mission: Mission,
    ground_truths: Vec<MissionGroundTruth>,
    next: SubmissionState,
    action: SubmissionAction,
)
    requires
        is_step(
            req,
            SubmissionState::AwaitingGroundTruth { mission },
            SubmissionEvent::GroundTruthLoaded(ground_truths),
            next,
            action,
        ),
        action is StoreScore,
    ensures
        req.submissions@.len() == mission.total_items,
        ground_truths@.len() == mission.total_items,
        action->StoreScore_score <= MAX_MISSION_SCORE,
        submission_outcome(
            req.submissions.deep_view(),
            mission.total_items as int,
            ground_truths.deep_view(),
        ) == Ok::<int, ScoringErrorModel>(action->StoreScore_score as int),
{
    lemma_submission_outcome_bounded(
        req.submissions.deep_view(),
        mission.total_items as int,
        ground_truths.deep_view(),
    );
}

} // verus!
