//! Missions as they come out of storage.

use vstd::prelude::*;
use crate::models::mission::{
    mission_status_named, mission_type_named, Mission, MissionModel, MissionStatus, MissionType,
};

verus! {

/// What building a mission from stored values comes to: the mission, where
/// both names are known; else the complaint about the type's name, or, where
/// that is known, about the status's.
pub open spec fn stored_mission(
    id: int,
    name: Seq<char>,
    description: Seq<char>,
    mission_type: Seq<char>,
    total_items: int,
    status: Seq<char>,
    created_at: int,
    updated_at: int,
) -> Result<MissionModel, Seq<char>> {
    match (mission_type_named(mission_type), mission_status_named(status)) {
        (Some(known_type), Some(known_status)) => Ok(
            MissionModel {
                id,
                name,
                description,
                mission_type: known_type,
                total_items,
                status: known_status,
                created_at,
                updated_at,
            },
        ),
        (None, _) => Err("Invalid mission type: "@ + mission_type),
        (Some(_), None) => Err("Invalid mission status: "@ + status),
    }
}

/// What the result of building a mission is to the specifications.
pub open spec fn stored_mission_view(
    result: Result<Mission, String>,
) -> Result<MissionModel, Seq<char>> {
    match result {
        Ok(mission) => Ok(mission@),
        Err(message) => Err(message@),
    }
}

/// The operations on missions.
pub struct MissionService;

impl MissionService {
    /// Builds a mission from the values of a stored row. The type and the
    /// status are stored by name; a name that is not known makes the row
    /// unusable.
    pub fn mission_from_row(
        id: i64,
        name: String,
        description: String,
        mission_type: &str,
        total_items: i32,
        status: &str,
        created_at: i64,
        updated_at: i64,
    ) -> (result: Result<Mission, String>)
        ensures
            stored_mission_view(result) == stored_mission(
                id as int,
                name@,
                description@,
                mission_type@,
                total_items as int,
                status@,
                created_at as int,
                updated_at as int,
            ),
    {
        let known_type = match MissionType::from_str(mission_type) {
            Ok(known) => known,
            Err(message) => {
                return Err(message);
            },
        };
        let known_status = match MissionStatus::from_str(status) {
            Ok(known) => known,
            Err(message) => {
                return Err(message);
            },
        };
        Ok(
            Mission {
                id,
                name,
                description,
                mission_type: known_type,
                total_items,
                status: known_status,
                created_at,
                updated_at,
            },
        )
    }
}

} // verus!
