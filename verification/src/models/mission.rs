//! Missions, their kinds and their states.

use vstd::prelude::*;
use vstd::string::StringExecFns;
use crate::validation::{length_within, text_length_within, InvalidField};

verus! {

/// What annotators are asked to produce in a mission.
#[derive(Debug, Clone, Copy, PartialEq, Eq, Structural)]
pub enum MissionType {
    LabelAnnotation,
    BboxAnnotation,
}

/// Where a mission stands.
#[derive(Debug, Clone, Copy, PartialEq, Eq, Structural)]
pub enum MissionStatus {
    Active,
    Completed,
    Inactive,
}

/// The name under which a mission type is stored and exchanged.
pub open spec fn mission_type_name(mission_type: MissionType) -> Seq<char> {
    match mission_type {
        MissionType::LabelAnnotation => "label_annotation"@,
        MissionType::BboxAnnotation => "bbox_annotation"@,
    }
}

/// The mission type that a name stands for, if any. Names are matched as
/// they are written: nothing is trimmed and case counts.
pub open spec fn mission_type_named(name: Seq<char>) -> Option<MissionType> {
    if name == "label_annotation"@ {
        Some(MissionType::LabelAnnotation)
    } else if name == "bbox_annotation"@ {
        Some(MissionType::BboxAnnotation)
    } else {
        None
    }
}

/// The name under which a mission status is stored and exchanged.
pub open spec fn mission_status_name(status: MissionStatus) -> Seq<char> {
    match status {
        MissionStatus::Active => "active"@,
        MissionStatus::Completed => "completed"@,
        MissionStatus::Inactive => "inactive"@,
    }
}

/// The mission status that a name stands for, if any.
pub open spec fn mission_status_named(name: Seq<char>) -> Option<MissionStatus> {
    if name == "active"@ {
        Some(MissionStatus::Active)
    } else if name == "completed"@ {
        Some(MissionStatus::Completed)
    } else if name == "inactive"@ {
        Some(MissionStatus::Inactive)
    } else {
        None
    }
}

impl MissionType {
    /// Reads a mission type from its name. Any other text is refused, with a
    /// message that quotes it.
    pub fn from_str(s: &str) -> (result: Result<MissionType, String>)
        ensures
            match result {
                Ok(mission_type) => mission_type_named(s@) == Some(mission_type),
                Err(message) => mission_type_named(s@) is None && message@
                    == "Invalid mission type: "@ + s@,
            },
    {
        let text = s.to_owned();
        if text == String::from_str("label_annotation") {
            Ok(MissionType::LabelAnnotation)
        } else if text == String::from_str("bbox_annotation") {
            Ok(MissionType::BboxAnnotation)
        } else {
            Err(String::from_str("Invalid mission type: ").concat(s))
        }
    }

    /// The name of this mission type.
    pub fn to_string(&self) -> (name: String)
        ensures
            name@ == mission_type_name(*self),
    {
        match self {
            MissionType::LabelAnnotation => String::from_str("label_annotation"),
            MissionType::BboxAnnotation => String::from_str("bbox_annotation"),
        }
    }
}

impl MissionStatus {
    /// Reads a mission status from its name. Any other text is refused, with
    /// a message that quotes it.
    pub fn from_str(s: &str) -> (result: Result<MissionStatus, String>)
        ensures
            match result {
                Ok(status) => mission_status_named(s@) == Some(status),
                Err(message) => mission_status_named(s@) is None && message@
                    == "Invalid mission status: "@ + s@,
            },
    {
        let text = s.to_owned();
        if text == String::from_str("active") {
            Ok(MissionStatus::Active)
        } else if text == String::from_str("completed") {
            Ok(MissionStatus::Completed)
        } else if text == String::from_str("inactive") {
            Ok(MissionStatus::Inactive)
        } else {
            Err(String::from_str("Invalid mission status: ").concat(s))
        }
    }

    /// The name of this mission status.
    pub fn to_string(&self) -> (name: String)
        ensures
            name@ == mission_status_name(*self),
    {
        match self {
            MissionStatus::Active => String::from_str("active"),
            MissionStatus::Completed => String::from_str("completed"),
            MissionStatus::Inactive => String::from_str("inactive"),
        }
    }
}

/// Reading the name of a mission type gives that type back.
pub proof fn lemma_mission_type_round_trip(mission_type: MissionType)
    ensures
        mission_type_named(mission_type_name(mission_type)) == Some(mission_type),
{
    reveal_strlit("label_annotation");
    reveal_strlit("bbox_annotation");
    assert("label_annotation"@.len() != "bbox_annotation"@.len());
}

/// Reading the name of a mission status gives that status back.
pub proof fn lemma_mission_status_round_trip(status: MissionStatus)
    ensures
        mission_status_named(mission_status_name(status)) == Some(status),
{
    reveal_strlit("active");
    reveal_strlit("completed");
    reveal_strlit("inactive");
    assert("active"@.len() != "completed"@.len());
    assert("active"@.len() != "inactive"@.len());
    assert("completed"@.len() != "inactive"@.len());
}

/// A request to set up a mission.
#[derive(Debug, Clone)]
pub struct CreateMissionRequest {
    pub name: String,
    pub description: String,
    pub mission_type: MissionType,
    pub total_items: i32,
}

impl CreateMissionRequest {
    /// Whether the name has 1 to 100 characters.
    pub open spec fn name_is_valid(&self) -> bool {
        length_within(self.name@.len(), 1, 100)
    }

    /// Whether the description has 1 to 500 characters.
    pub open spec fn description_is_valid(&self) -> bool {
        length_within(self.description@.len(), 1, 500)
    }

    /// The fields that break their rules, in the order in which the request
    /// declares them.
    pub open spec fn invalid_fields(&self) -> Seq<InvalidField> {
        let name = if self.name_is_valid() {
            Seq::<InvalidField>::empty()
        } else {
            seq![InvalidField::Name]
        };
        if self.description_is_valid() {
            name
        } else {
            name.push(InvalidField::Description)
        }
    }

    /// Accepts the request if every field meets its rule, and names all the
    /// fields that do not if any does not.
    pub fn validate(&self) -> (result: Result<(), Vec<InvalidField>>)
        ensures
            match result {
                Ok(_) => self.invalid_fields().len() == 0,
                Err(fields) => fields@.len() > 0 && fields@ == self.invalid_fields(),
            },
    {
        let mut fields: Vec<InvalidField> = Vec::new();
        if !text_length_within(&self.name, 1, 100) {
            fields.push(InvalidField::Name);
        }
        if !text_length_within(&self.description, 1, 500) {
            fields.push(InvalidField::Description);
        }
        proof {
            assert(fields@ =~= self.invalid_fields());
        }
        if fields.len() == 0 {
            Ok(())
        } else {
            Err(fields)
        }
    }
}

/// What a mission is to the specifications.
pub struct MissionModel {
    pub id: int,
    pub name: Seq<char>,
    pub description: Seq<char>,
    pub mission_type: MissionType,
    pub total_items: int,
    pub status: MissionStatus,
    pub created_at: int,
    pub updated_at: int,
}

/// A mission as it is stored. `total_items` is the number of items that a
/// complete submission covers; the two times are seconds since the Unix
/// epoch.
#[derive(Debug, Clone)]
pub struct Mission {
    pub id: i64,
    pub name: String,
    pub description: String,
    pub mission_type: MissionType,
    pub total_items: i32,
    pub status: MissionStatus,
    pub created_at: i64,
    pub updated_at: i64,
}

impl View for Mission {
    type V = MissionModel;

    open spec fn view(&self) -> MissionModel {
        MissionModel {
            id: self.id as int,
            name: self.name@,
            description: self.description@,
            mission_type: self.mission_type,
            total_items: self.total_items as int,
            status: self.status,
            created_at: self.created_at as int,
            updated_at: self.updated_at as int,
        }
    }
}

} // verus!
