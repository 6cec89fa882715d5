use annotation_scoring::models::annotation::{CreateMissionSubmissionRequest, MissionSubmission};
use annotation_scoring::models::annotator::CreateAnnotatorRequest;
use annotation_scoring::models::mission::{CreateMissionRequest, MissionType};
use annotation_scoring::validation::InvalidField;

fn annotator(address: String) -> CreateAnnotatorRequest {
    CreateAnnotatorRequest { sui_address: address }
}

fn mission_request(name: String, description: String) -> CreateMissionRequest {
    CreateMissionRequest {
        name,
        description,
        mission_type: MissionType::LabelAnnotation,
        total_items: 3,
    }
}

#[test]
fn annotator_address_must_not_be_empty() {
    assert_eq!(annotator(String::new()).validate(), Err(vec![InvalidField::SuiAddress]));
    assert_eq!(annotator("0".to_string()).validate(), Ok(()));
}

#[test]
fn annotator_address_may_have_two_hundred_characters() {
    assert_eq!(annotator("a".repeat(200)).validate(), Ok(()));
    assert_eq!(annotator("a".repeat(201)).validate(), Err(vec![InvalidField::SuiAddress]));
}

#[test]
fn annotator_address_is_measured_in_characters() {
    // Two hundred characters of three bytes each.
    let address = "\u{20ac}".repeat(200);
    assert_eq!(address.len(), 600);
    assert_eq!(annotator(address).validate(), Ok(()));
    assert_eq!(
        annotator("\u{20ac}".repeat(201)).validate(),
        Err(vec![InvalidField::SuiAddress])
    );
}

#[test]
fn mission_request_with_sound_fields_is_accepted() {
    assert_eq!(mission_request("n".to_string(), "d".to_string()).validate(), Ok(()));
    assert_eq!(mission_request("n".repeat(100), "d".repeat(500)).validate(), Ok(()));
}

#[test]
fn mission_request_names_the_field_that_is_wrong() {
    assert_eq!(
        mission_request(String::new(), "d".to_string()).validate(),
        Err(vec![InvalidField::Name])
    );
    assert_eq!(
        mission_request("n".repeat(101), "d".to_string()).validate(),
        Err(vec![InvalidField::Name])
    );
    assert_eq!(
        mission_request("n".to_string(), String::new()).validate(),
        Err(vec![InvalidField::Description])
    );
    assert_eq!(
        mission_request("n".to_string(), "d".repeat(501)).validate(),
        Err(vec![InvalidField::Description])
    );
}

#[test]
fn mission_request_names_every_field_that_is_wrong() {
    assert_eq!(
        mission_request(String::new(), "d".repeat(501)).validate(),
        Err(vec![InvalidField::Name, InvalidField::Description])
    );
}

#[test]
fn submission_request_must_hold_an_item() {
    let empty = CreateMissionSubmissionRequest {
        mission_id: 1,
        annotator_id: 2,
        submissions: Vec::new(),
    };
    assert_eq!(empty.validate(), Err(vec![InvalidField::Submissions]));
    let one = CreateMissionSubmissionRequest {
        mission_id: 1,
        annotator_id: 2,
        submissions: vec![MissionSubmission {
            item_id: "img1".to_string(),
            labels: Vec::new(),
            bounding_boxes: Vec::new(),
        }],
    };
    assert_eq!(one.validate(), Ok(()));
}
