use annotation_scoring::models::mission::{MissionStatus, MissionType};
use annotation_scoring::services::mission_service::MissionService;

#[test]
fn mission_type_is_read_from_its_name() {
    assert_eq!(MissionType::from_str("label_annotation"), Ok(MissionType::LabelAnnotation));
    assert_eq!(MissionType::from_str("bbox_annotation"), Ok(MissionType::BboxAnnotation));
}

#[test]
fn mission_type_refuses_any_other_text() {
    assert_eq!(
        MissionType::from_str("segmentation"),
        Err("Invalid mission type: segmentation".to_string())
    );
    assert_eq!(MissionType::from_str(""), Err("Invalid mission type: ".to_string()));
    assert_eq!(
        MissionType::from_str("Label_Annotation"),
        Err("Invalid mission type: Label_Annotation".to_string())
    );
    assert_eq!(
        MissionType::from_str(" bbox_annotation"),
        Err("Invalid mission type:  bbox_annotation".to_string())
    );
}

#[test]
fn mission_type_is_written_as_its_name() {
    assert_eq!(MissionType::LabelAnnotation.to_string(), "label_annotation");
    assert_eq!(MissionType::BboxAnnotation.to_string(), "bbox_annotation");
}

#[test]
fn mission_type_name_reads_back() {
    for mission_type in [MissionType::LabelAnnotation, MissionType::BboxAnnotation] {
        assert_eq!(MissionType::from_str(&mission_type.to_string()), Ok(mission_type));
    }
}

#[test]
fn mission_status_is_read_from_its_name() {
    assert_eq!(MissionStatus::from_str("active"), Ok(MissionStatus::Active));
    assert_eq!(MissionStatus::from_str("completed"), Ok(MissionStatus::Completed));
    assert_eq!(MissionStatus::from_str("inactive"), Ok(MissionStatus::Inactive));
}

#[test]
fn mission_status_refuses_any_other_text() {
    assert_eq!(
        MissionStatus::from_str("paused"),
        Err("Invalid mission status: paused".to_string())
    );
    assert_eq!(
        MissionStatus::from_str("ACTIVE"),
        Err("Invalid mission status: ACTIVE".to_string())
    );
    assert_eq!(MissionStatus::from_str(""), Err("Invalid mission status: ".to_string()));
}

#[test]
fn mission_status_is_written_as_its_name() {
    assert_eq!(MissionStatus::Active.to_string(), "active");
    assert_eq!(MissionStatus::Completed.to_string(), "completed");
    assert_eq!(MissionStatus::Inactive.to_string(), "inactive");
}

#[test]
fn mission_status_name_reads_back() {
    for status in [MissionStatus::Active, MissionStatus::Completed, MissionStatus::Inactive] {
        assert_eq!(MissionStatus::from_str(&status.to_string()), Ok(status));
    }
}

#[test]
fn mission_is_built_from_a_stored_row() {
    let mission = MissionService::mission_from_row(
        12,
        "street scenes".to_string(),
        "boxes around people".to_string(),
        "bbox_annotation",
        40,
        "completed",
        1_700_000_000,
        1_700_000_500,
    )
    .unwrap();
    assert_eq!(mission.id, 12);
    assert_eq!(mission.name, "street scenes");
    assert_eq!(mission.description, "boxes around people");
    assert_eq!(mission.mission_type, MissionType::BboxAnnotation);
    assert_eq!(mission.total_items, 40);
    assert_eq!(mission.status, MissionStatus::Completed);
    assert_eq!(mission.created_at, 1_700_000_000);
    assert_eq!(mission.updated_at, 1_700_000_500);
}

#[test]
fn mission_row_with_an_unknown_type_is_refused() {
    let result = MissionService::mission_from_row(
        12,
        "n".to_string(),
        "d".to_string(),
        "polygons",
        40,
        "completed",
        0,
        0,
    );
    assert_eq!(result.unwrap_err(), "Invalid mission type: polygons");
}

#[test]
fn mission_row_with_an_unknown_status_is_refused() {
    let result = MissionService::mission_from_row(
        12,
        "n".to_string(),
        "d".to_string(),
        "label_annotation",
        40,
        "archived",
        0,
        0,
    );
    assert_eq!(result.unwrap_err(), "Invalid mission status: archived");
}

#[test]
fn mission_row_complains_about_the_type_first() {
    let result = MissionService::mission_from_row(
        12,
        "n".to_string(),
        "d".to_string(),
        "polygons",
        40,
        "archived",
        0,
        0,
    );
    assert_eq!(result.unwrap_err(), "Invalid mission type: polygons");
}
