//! Shaping of raw annotation data into ground truth.
//!
//! The raw data is a list of items. Each item names its image under
//! `img_name` and may hold, under `annotation`, an object that gives for each
//! label a list of boxes, each box a list of four coordinates: x, y, width,
//! height.

use vstd::prelude::*;
use crate::decimal::{decimal_string, decimal_text};
use crate::error::RawDataError;
use crate::models::annotation::{BoundingBox, BoxModel, LabelAnnotation, LabelModel};
use crate::models::raw::RawValue;

verus! {

/// One item as it comes out: the image's name, its labels, its boxes.
pub type ItemModel = (Seq<char>, Seq<LabelModel>, Seq<BoxModel>);

/// The box that four coordinates describe, under the given label and number.
pub open spec fn box_from(coords: Seq<RawValue>, label: Seq<char>, number: nat) -> BoxModel
    recommends
        coords.len() == 4,
{
    BoxModel {
        id: decimal_text(number),
        x: coords[0].coordinate(),
        y: coords[1].coordinate(),
        width: coords[2].coordinate(),
        height: coords[3].coordinate(),
        label: label,
        confidence: None,
        selected: None,
    }
}

/// `boxes` with the box that `candidate` describes, if it is a list of
/// exactly four values; anything else is passed over. Boxes are numbered
/// from 1 in the order in which they are taken.
pub open spec fn with_box(
    boxes: Seq<BoxModel>,
    label: Seq<char>,
    candidate: RawValue,
) -> Seq<BoxModel> {
    match candidate {
        RawValue::Array(coords) => if coords@.len() == 4 {
            boxes.push(box_from(coords@, label, boxes.len() + 1))
        } else {
            boxes
        },
        _ => boxes,
    }
}

/// `boxes` with the boxes that `candidates` describe, in their order.
pub open spec fn with_boxes(
    boxes: Seq<BoxModel>,
    label: Seq<char>,
    candidates: Seq<RawValue>,
) -> Seq<BoxModel>
    decreases candidates.len(),
{
    if candidates.len() == 0 {
        boxes
    } else {
        with_box(with_boxes(boxes, label, candidates.drop_last()), label, candidates.last())
    }
}

/// `boxes` with the boxes of every label of the annotation, in the order of
/// its members. A member whose value is no list is passed over.
pub open spec fn with_label_boxes(
    boxes: Seq<BoxModel>,
    entries: Seq<(String, RawValue)>,
) -> Seq<BoxModel>
    decreases entries.len(),
{
    if entries.len() == 0 {
        boxes
    } else {
        let before = with_label_boxes(boxes, entries.drop_last());
        match entries.last().1 {
            RawValue::Array(candidates) => with_boxes(before, entries.last().0@, candidates@),
            _ => before,
        }
    }
}

/// The boxes of an item: those of its `annotation`, and none where that is
/// missing or no object.
pub open spec fn item_boxes(item: RawValue) -> Seq<BoxModel> {
    match item.member("annotation"@) {
        Some(RawValue::Object(entries)) => with_label_boxes(Seq::empty(), entries@),
        _ => Seq::empty(),
    }
}

/// The name of an item's image: its `img_name`, where that is a text.
pub open spec fn image_name(item: RawValue) -> Option<Seq<char>> {
    match item.member("img_name"@) {
        Some(RawValue::Text(name)) => Some(name@),
        _ => None,
    }
}

/// Every item with its name, no labels, and its boxes; nothing where an item
/// has no name.
pub open spec fn converted_items(items: Seq<RawValue>) -> Option<Seq<ItemModel>>
    decreases items.len(),
{
    if items.len() == 0 {
        Some(Seq::empty())
    } else {
        match (converted_items(items.drop_last()), image_name(items.last())) {
            (Some(before), Some(name)) => Some(
                before.push((name, Seq::empty(), item_boxes(items.last()))),
            ),
            _ => None,
        }
    }
}

/// What converting raw data comes to.
pub open spec fn conversion_outcome(raw_data: RawValue) -> Result<Seq<ItemModel>, RawDataError> {
    match raw_data {
        RawValue::Array(items) => match converted_items(items@) {
            Some(converted) => Ok(converted),
            None => Err(RawDataError::MissingImgName),
        },
        _ => Err(RawDataError::ExpectedArray),
    }
}

/// What the result of a conversion is to the specifications.
pub open spec fn conversion_view(
    result: Result<Vec<(String, Vec<LabelAnnotation>, Vec<BoundingBox>)>, RawDataError>,
) -> Result<Seq<ItemModel>, RawDataError> {
    match result {
        Ok(items) => Ok(items.deep_view()),
        Err(e) => Err(e),
    }
}

/// The operations on ground truth.
pub struct GroundTruthService;

impl GroundTruthService {
    /// Adds to `boxes` the boxes that `candidates` describe under `label`.
    fn collect_boxes(boxes: &mut Vec<BoundingBox>, label: &String, candidates: &Vec<RawValue>)
        ensures
            final(boxes).deep_view() == with_boxes(old(boxes).deep_view(), label@, candidates@),
    {
        let ghost start = boxes.deep_view();
        let mut j: usize = 0;
        proof {
            assert(candidates@.take(0) =~= Seq::empty());
        }
        while j < candidates.len()
            invariant
                j <= candidates.len(),
                boxes.deep_view() == with_boxes(start, label@, candidates@.take(j as int)),
            decreases candidates.len() - j,
        {
            proof {
                assert(candidates@.take(j + 1).drop_last() =~= candidates@.take(j as int));
                assert(candidates@.take(j + 1).last() == candidates@[j as int]);
            }
            match &candidates[j] {
                RawValue::Array(coords) => {
                    if coords.len() == 4 {
                        let ghost before = boxes.deep_view();
                        let number: u128 = boxes.len() as u128 + 1;
                        let bounding_box = BoundingBox {
                            id: decimal_string(number),
                            x: coords[0].as_coordinate(),
                            y: coords[1].as_coordinate(),
                            width: coords[2].as_coordinate(),
                            height: coords[3].as_coordinate(),
                            label: label.clone(),
                            confidence: None,
                            selected: None,
                        };
                        proof {
                            assert(bounding_box@ == box_from(coords@, label@, before.len() + 1));
                        }
                        boxes.push(bounding_box);
                        proof {
                            assert(boxes.deep_view() =~= before.push(bounding_box@));
                        }
                    }
                },
                _ => {},
            }
            j += 1;
        }
        proof {
            assert(candidates@.take(j as int) =~= candidates@);
        }
    }

    /// The boxes of one item, numbered from 1.
    fn collect_item_boxes(item: &RawValue) -> (boxes: Vec<BoundingBox>)
        ensures
            boxes.deep_view() == item_boxes(*item),
    {
        let mut boxes: Vec<BoundingBox> = Vec::new();
        proof {
            assert(boxes.deep_view() =~= Seq::empty());
        }
        match item.get("annotation") {
            Some(RawValue::Object(entries)) => {
                let mut k: usize = 0;
                proof {
                    assert(entries@.take(0) =~= Seq::empty());
                }
                while k < entries.len()
                    invariant
                        k <= entries.len(),
                        boxes.deep_view() == with_label_boxes(
                            Seq::empty(),
                            entries@.take(k as int),
                        ),
                    decreases entries.len() - k,
                {
                    proof {
                        assert(entries@.take(k + 1).drop_last() =~= entries@.take(k as int));
                        assert(entries@.take(k + 1).last() == entries@[k as int]);
                    }
                    match &entries[k].1 {
                        RawValue::Array(candidates) => {
                            Self::collect_boxes(&mut boxes, &entries[k].0, candidates);
                        },
                        _ => {},
                    }
                    k += 1;
                }
                proof {
                    assert(entries@.take(k as int) =~= entries@);
                }
            },
            _ => {},
        }
        boxes
    }

    /// Shapes raw annotation data into one record for each item: the image's
    /// name, no labels, and the boxes of all its labels.
    ///
    /// Fails where the data is no list, and where an item has no `img_name`
    /// that is a text.
    pub fn convert_raw_annotation_data(
        raw_data: &RawValue,
    ) -> (result: Result<Vec<(String, Vec<LabelAnnotation>, Vec<BoundingBox>)>, RawDataError>)
        ensures
            conversion_view(result) == conversion_outcome(*raw_data),
    {
        let items = match raw_data {
            RawValue::Array(items) => items,
            _ => {
                return Err(RawDataError::ExpectedArray);
            },
        };
        let mut result: Vec<(String, Vec<LabelAnnotation>, Vec<BoundingBox>)> = Vec::new();
        let mut i: usize = 0;
        proof {
            assert(items@.take(0) =~= Seq::empty());
            assert(result.deep_view() =~= Seq::empty());
        }
        while i < items.len()
            invariant
                i <= items.len(),
                *raw_data == RawValue::Array(*items),
                converted_items(items@.take(i as int)) == Some(result.deep_view()),
            decreases items.len() - i,
        {
            let item = &items[i];
            proof {
                assert(items@.take(i + 1).drop_last() =~= items@.take(i as int));
                assert(items@.take(i + 1).last() == *item);
            }
            let img_name = match item.get("img_name") {
                Some(RawValue::Text(name)) => name,
                _ => {
                    proof {
                        lemma_unnamed_item(items@, i as int);
                    }
                    return Err(RawDataError::MissingImgName);
                },
            };
            let bounding_boxes = Self::collect_item_boxes(item);
            let labels: Vec<LabelAnnotation> = Vec::new();
            let ghost before = result.deep_view();
            let ghost record: ItemModel = (img_name@, Seq::empty(), bounding_boxes.deep_view());
            proof {
                assert(labels.deep_view() =~= Seq::empty());
            }
            result.push((img_name.clone(), labels, bounding_boxes));
            proof {
                assert(result.deep_view() =~= before.push(record));
            }
            i += 1;
        }
        proof {
            assert(items@.take(i as int) =~= items@);
        }
        Ok(result)
    }
}

/// One item without a name leaves the whole list unconverted.
pub proof fn lemma_unnamed_item(items: Seq<RawValue>, i: int)
    requires
        0 <= i < items.len(),
        image_name(items[i]) is None,
    ensures
        converted_items(items) is None,
    decreases items.len(),
{
    if i < items.len() - 1 {
        lemma_unnamed_item(items.drop_last(), i);
    }
}

} // verus!
