use annotation_scoring::error::RawDataError;
use annotation_scoring::models::raw::RawValue;
use annotation_scoring::services::ground_truth_service::GroundTruthService;

fn text(s: &str) -> RawValue {
    RawValue::Text(s.to_string())
}

fn coords(x: u32, y: u32, w: u32, h: u32) -> RawValue {
    RawValue::Array(vec![
        RawValue::Number(x),
        RawValue::Number(y),
        RawValue::Number(w),
        RawValue::Number(h),
    ])
}

fn object(entries: Vec<(&str, RawValue)>) -> RawValue {
    RawValue::Object(entries.into_iter().map(|(k, v)| (k.to_string(), v)).collect())
}

fn item(name: &str, annotation: RawValue) -> RawValue {
    object(vec![("img_name", text(name)), ("annotation", annotation)])
}

#[test]
fn raw_data_must_be_a_list() {
    let result = GroundTruthService::convert_raw_annotation_data(&object(Vec::new()));
    assert_eq!(result.unwrap_err(), RawDataError::ExpectedArray);
    let result = GroundTruthService::convert_raw_annotation_data(&RawValue::Null);
    assert_eq!(result.unwrap_err(), RawDataError::ExpectedArray);
    let result = GroundTruthService::convert_raw_annotation_data(&text("img1"));
    assert_eq!(result.unwrap_err(), RawDataError::ExpectedArray);
}

#[test]
fn raw_data_of_no_items_gives_no_records() {
    let result = GroundTruthService::convert_raw_annotation_data(&RawValue::Array(Vec::new()));
    assert!(result.unwrap().is_empty());
}

#[test]
fn raw_item_needs_a_name() {
    let nameless = object(vec![("annotation", object(Vec::new()))]);
    let result = GroundTruthService::convert_raw_annotation_data(&RawValue::Array(vec![
        item("img1", object(Vec::new())),
        nameless,
    ]));
    assert_eq!(result.unwrap_err(), RawDataError::MissingImgName);
}

#[test]
fn raw_item_name_must_be_a_text() {
    let numbered = object(vec![("img_name", RawValue::Number(4))]);
    let result =
        GroundTruthService::convert_raw_annotation_data(&RawValue::Array(vec![numbered]));
    assert_eq!(result.unwrap_err(), RawDataError::MissingImgName);
    let result = GroundTruthService::convert_raw_annotation_data(&RawValue::Array(vec![
        RawValue::Number(4),
    ]));
    assert_eq!(result.unwrap_err(), RawDataError::MissingImgName);
}

#[test]
fn raw_boxes_are_numbered_across_labels() {
    let raw = RawValue::Array(vec![item(
        "img1",
        object(vec![
            ("car", RawValue::Array(vec![coords(1, 2, 3, 4), coords(5, 6, 7, 8)])),
            ("person", RawValue::Array(vec![coords(9, 10, 11, 12)])),
        ]),
    )]);
    let records = GroundTruthService::convert_raw_annotation_data(&raw).unwrap();
    assert_eq!(records.len(), 1);
    let (name, labels, boxes) = &records[0];
    assert_eq!(name, "img1");
    assert!(labels.is_empty());
    assert_eq!(boxes.len(), 3);
    let seen: Vec<(&str, u32, u32, u32, u32, &str)> = boxes
        .iter()
        .map(|b| (b.id.as_str(), b.x, b.y, b.width, b.height, b.label.as_str()))
        .collect();
    assert_eq!(
        seen,
        vec![
            ("1", 1, 2, 3, 4, "car"),
            ("2", 5, 6, 7, 8, "car"),
            ("3", 9, 10, 11, 12, "person"),
        ]
    );
    assert!(boxes.iter().all(|b| b.confidence.is_none() && b.selected.is_none()));
}

#[test]
fn raw_boxes_are_numbered_anew_for_each_item() {
    let raw = RawValue::Array(vec![
        item("img1", object(vec![("car", RawValue::Array(vec![coords(1, 2, 3, 4)]))])),
        item("img2", object(vec![("dog", RawValue::Array(vec![coords(5, 6, 7, 8)]))])),
    ]);
    let records = GroundTruthService::convert_raw_annotation_data(&raw).unwrap();
    assert_eq!(records.len(), 2);
    assert_eq!(records[0].0, "img1");
    assert_eq!(records[1].0, "img2");
    assert_eq!(records[0].2[0].id, "1");
    assert_eq!(records[1].2[0].id, "1");
    assert_eq!(records[1].2[0].label, "dog");
}

#[test]
fn raw_box_numbers_run_past_nine() {
    let many: Vec<RawValue> = (0..12).map(|i| coords(i, i, 1, 1)).collect();
    let raw = RawValue::Array(vec![item("img1", object(vec![("car", RawValue::Array(many))]))]);
    let records = GroundTruthService::convert_raw_annotation_data(&raw).unwrap();
    let ids: Vec<&str> = records[0].2.iter().map(|b| b.id.as_str()).collect();
    assert_eq!(ids, vec!["1", "2", "3", "4", "5", "6", "7", "8", "9", "10", "11", "12"]);
}

#[test]
fn raw_boxes_that_are_not_four_values_are_passed_over() {
    let raw = RawValue::Array(vec![item(
        "img1",
        object(vec![(
            "car",
            RawValue::Array(vec![
                RawValue::Array(vec![RawValue::Number(1), RawValue::Number(2), RawValue::Number(3)]),
                coords(1, 2, 3, 4),
                RawValue::Array(vec![
                    RawValue::Number(1),
                    RawValue::Number(2),
                    RawValue::Number(3),
                    RawValue::Number(4),
                    RawValue::Number(5),
                ]),
                RawValue::Number(7),
                text("1,2,3,4"),
                coords(5, 6, 7, 8),
            ]),
        )]),
    )]);
    let records = GroundTruthService::convert_raw_annotation_data(&raw).unwrap();
    let boxes = &records[0].2;
    assert_eq!(boxes.len(), 2);
    assert_eq!((boxes[0].id.as_str(), boxes[0].x), ("1", 1));
    assert_eq!((boxes[1].id.as_str(), boxes[1].x), ("2", 5));
}

#[test]
fn raw_coordinate_that_is_no_number_counts_as_zero() {
    let raw = RawValue::Array(vec![item(
        "img1",
        object(vec![(
            "car",
            RawValue::Array(vec![RawValue::Array(vec![
                text("12"),
                RawValue::Null,
                RawValue::Number(30),
                RawValue::Bool(true),
            ])]),
        )]),
    )]);
    let records = GroundTruthService::convert_raw_annotation_data(&raw).unwrap();
    let b = &records[0].2[0];
    assert_eq!((b.x, b.y, b.width, b.height), (0, 0, 30, 0));
}

#[test]
fn raw_label_whose_value_is_no_list_is_passed_over() {
    let raw = RawValue::Array(vec![item(
        "img1",
        object(vec![
            ("car", coords(1, 2, 3, 4)),
            ("dog", RawValue::Number(3)),
            ("person", RawValue::Array(vec![coords(9, 10, 11, 12)])),
        ]),
    )]);
    let records = GroundTruthService::convert_raw_annotation_data(&raw).unwrap();
    let boxes = &records[0].2;
    // The four numbers under "car" are no boxes: each would have to be a list
    // of four itself.
    assert_eq!(boxes.len(), 1);
    assert_eq!((boxes[0].id.as_str(), boxes[0].label.as_str()), ("1", "person"));
}

#[test]
fn raw_item_without_an_annotation_object_has_no_boxes() {
    let raw = RawValue::Array(vec![
        object(vec![("img_name", text("img1"))]),
        item("img2", RawValue::Array(vec![coords(1, 2, 3, 4)])),
        item("img3", RawValue::Null),
    ]);
    let records = GroundTruthService::convert_raw_annotation_data(&raw).unwrap();
    assert_eq!(records.len(), 3);
    assert!(records.iter().all(|(_, labels, boxes)| labels.is_empty() && boxes.is_empty()));
}

#[test]
fn raw_member_is_the_first_of_its_key() {
    let value = object(vec![("a", RawValue::Number(1)), ("b", RawValue::Number(2)), ("a", RawValue::Number(3))]);
    assert_eq!(value.get("a").map(|v| v.as_coordinate()), Some(1));
    assert_eq!(value.get("b").map(|v| v.as_coordinate()), Some(2));
    assert!(value.get("c").is_none());
    assert!(RawValue::Array(Vec::new()).get("a").is_none());
}

#[test]
fn raw_data_errors_are_reported_in_words() {
    assert_eq!(RawDataError::ExpectedArray.message(), "Expected array of annotation data");
    assert_eq!(RawDataError::MissingImgName.message(), "Missing img_name");
}
