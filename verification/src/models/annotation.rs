//! Labels, bounding boxes, and the per-item records built from them.

use vstd::prelude::*;
use crate::validation::{list_length_at_least, InvalidField};

verus! {

/// What a label annotation is to the specifications.
pub struct LabelModel {
    pub id: Seq<char>,
    pub label: Seq<char>,
    pub confidence: Option<nat>,
}

/// A label given to an item. `confidence` is in millionths and plays no part
/// in scoring.
#[derive(Debug, Clone)]
pub struct LabelAnnotation {
    pub id: String,
    pub label: String,
    pub confidence: Option<u32>,
}

/// A confidence as a number of millionths.
pub open spec fn confidence_model(confidence: Option<u32>) -> Option<nat> {
    match confidence {
        Some(c) => Some(c as nat),
        None => None,
    }
}

impl View for LabelAnnotation {
    type V = LabelModel;

    open spec fn view(&self) -> LabelModel {
        LabelModel {
            id: self.id@,
            label: self.label@,
            confidence: confidence_model(self.confidence),
        }
    }
}

impl DeepView for LabelAnnotation {
    type V = LabelModel;

    open spec fn deep_view(&self) -> LabelModel {
        self@
    }
}

/// What a bounding box is to the specifications.
pub struct BoxModel {
    pub id: Seq<char>,
    pub x: nat,
    pub y: nat,
    pub width: nat,
    pub height: nat,
    pub label: Seq<char>,
    pub confidence: Option<nat>,
    pub selected: Option<bool>,
}

/// An axis-aligned rectangle `[x, x + width] x [y, y + height]` with a label.
///
/// Coordinates are whole grid units and cannot be negative. `confidence` is in
/// millionths; it and `selected` play no part in scoring.
#[derive(Debug, Clone)]
pub struct BoundingBox {
    pub id: String,
    pub x: u32,
    pub y: u32,
    pub width: u32,
    pub height: u32,
    pub label: String,
    pub confidence: Option<u32>,
    pub selected: Option<bool>,
}

impl View for BoundingBox {
    type V = BoxModel;

    open spec fn view(&self) -> BoxModel {
        BoxModel {
            id: self.id@,
            x: self.x as nat,
            y: self.y as nat,
            width: self.width as nat,
            height: self.height as nat,
            label: self.label@,
            confidence: confidence_model(self.confidence),
            selected: self.selected,
        }
    }
}

impl DeepView for BoundingBox {
    type V = BoxModel;

    open spec fn deep_view(&self) -> BoxModel {
        self@
    }
}

/// What a ground-truth record is to the specifications.
pub struct GroundTruthModel {
    pub id: int,
    pub mission_id: int,
    pub item_id: Seq<char>,
    pub labels: Seq<LabelModel>,
    pub bounding_boxes: Seq<BoxModel>,
    pub created_at: int,
    pub updated_at: int,
}

/// The stored truth for one item of a mission. The two times are seconds
/// since the Unix epoch.
#[derive(Debug, Clone)]
pub struct MissionGroundTruth {
    pub id: i64,
    pub mission_id: i64,
    pub item_id: String,
    pub labels: Vec<LabelAnnotation>,
    pub bounding_boxes: Vec<BoundingBox>,
    pub created_at: i64,
    pub updated_at: i64,
}

impl View for MissionGroundTruth {
    type V = GroundTruthModel;

    open spec fn view(&self) -> GroundTruthModel {
        GroundTruthModel {
            id: self.id as int,
            mission_id: self.mission_id as int,
            item_id: self.item_id@,
            labels: self.labels.deep_view(),
            bounding_boxes: self.bounding_boxes.deep_view(),
            created_at: self.created_at as int,
            updated_at: self.updated_at as int,
        }
    }
}

impl DeepView for MissionGroundTruth {
    type V = GroundTruthModel;

    open spec fn deep_view(&self) -> GroundTruthModel {
        self@
    }
}

/// What a submitted item is to the specifications.
pub struct SubmissionModel {
    pub item_id: Seq<char>,
    pub labels: Seq<LabelModel>,
    pub bounding_boxes: Seq<BoxModel>,
}

/// What an annotator submitted for one item.
#[derive(Debug, Clone)]
pub struct MissionSubmission {
    pub item_id: String,
    pub labels: Vec<LabelAnnotation>,
    pub bounding_boxes: Vec<BoundingBox>,
}

impl View for MissionSubmission {
    type V = SubmissionModel;

    open spec fn view(&self) -> SubmissionModel {
        SubmissionModel {
            item_id: self.item_id@,
            labels: self.labels.deep_view(),
            bounding_boxes: self.bounding_boxes.deep_view(),
        }
    }
}

impl DeepView for MissionSubmission {
    type V = SubmissionModel;

    open spec fn deep_view(&self) -> SubmissionModel {
        self@
    }
}

/// A request to score what one annotator submitted for one mission.
#[derive(Debug, Clone)]
pub struct CreateMissionSubmissionRequest {
    pub mission_id: i64,
    pub annotator_id: i64,
    pub submissions: Vec<MissionSubmission>,
}

impl CreateMissionSubmissionRequest {
    /// Whether the request meets its rule: at least one submitted item.
    pub open spec fn is_valid(&self) -> bool {
        self.submissions@.len() >= 1
    }

    /// Accepts the request if it meets its rule, and names the field that
    /// broke it if not.
    pub fn validate(&self) -> (result: Result<(), Vec<InvalidField>>)
        ensures
            match result {
                Ok(_) => self.is_valid(),
                Err(fields) => !self.is_valid() && fields@ == seq![InvalidField::Submissions],
            },
    {
        if list_length_at_least(&self.submissions, 1) {
            Ok(())
        } else {
            Err(vec![InvalidField::Submissions])
        }
    }
}

} // verus!
