//! Overlap of two axis-aligned rectangles.

use vstd::prelude::*;
use crate::models::annotation::BoxModel;

verus! {

/// The score that stands for 1.0: scores count millionths.
pub const SCORE_UNIT: u64 = 1_000_000;

/// The lesser of two numbers.
pub open spec fn min_int(a: int, b: int) -> int {
    if a <= b { a } else { b }
}

/// The greater of two numbers.
pub open spec fn max_int(a: int, b: int) -> int {
    if a >= b { a } else { b }
}

/// The area of a box.
pub open spec fn area(b: BoxModel) -> int {
    (b.width * b.height) as int
}

/// Width of the overlap of the two boxes' horizontal extents; not positive
/// where they do not overlap.
pub open spec fn overlap_width(a: BoxModel, b: BoxModel) -> int {
    min_int((a.x + a.width) as int, (b.x + b.width) as int) - max_int(a.x as int, b.x as int)
}

/// Height of the overlap of the two boxes' vertical extents; not positive
/// where they do not overlap.
pub open spec fn overlap_height(a: BoxModel, b: BoxModel) -> int {
    min_int((a.y + a.height) as int, (b.y + b.height) as int) - max_int(a.y as int, b.y as int)
}

/// Whether the two rectangles share a region of positive area.
pub open spec fn overlaps(a: BoxModel, b: BoxModel) -> bool {
    overlap_width(a, b) > 0 && overlap_height(a, b) > 0
}

/// Whether the two rectangles lie apart: one ends, on some axis, at or before
/// the point where the other begins.
pub open spec fn disjoint(a: BoxModel, b: BoxModel) -> bool {
    ||| a.x + a.width <= b.x
    ||| b.x + b.width <= a.x
    ||| a.y + a.height <= b.y
    ||| b.y + b.height <= a.y
}

/// The area of the region that the two boxes share.
pub open spec fn intersection_area(a: BoxModel, b: BoxModel) -> int {
    if overlaps(a, b) {
        overlap_width(a, b) * overlap_height(a, b)
    } else {
        0
    }
}

/// The area that the two boxes cover together.
pub open spec fn union_area(a: BoxModel, b: BoxModel) -> int {
    area(a) + area(b) - intersection_area(a, b)
}

/// Intersection over union, in millionths, rounded down.
///
/// It is 0 where the boxes share no region of positive area, and 0 where the
/// union has no area.
pub open spec fn iou(a: BoxModel, b: BoxModel) -> int {
    if !overlaps(a, b) || union_area(a, b) <= 0 {
        0
    } else {
        intersection_area(a, b) * SCORE_UNIT / union_area(a, b)
    }
}

/// One half, in millionths.
pub const HALF_UNIT: u64 = 500_000;

/// Whether the IoU of the two boxes exceeds one half. This is decided on the
/// areas themselves, not on the rounded quotient: a pair just above one half
/// exceeds it though its IoU in millionths is `HALF_UNIT`.
pub open spec fn iou_exceeds_half(a: BoxModel, b: BoxModel) -> bool {
    overlaps(a, b) && 2 * intersection_area(a, b) > union_area(a, b)
}

/// A product of bounded non-negative factors is bounded by the product of the
/// bounds.
pub proof fn lemma_product_bounded(a: int, b: int, max_a: int, max_b: int)
    requires
        0 <= a <= max_a,
        0 <= b <= max_b,
    ensures
        0 <= a * b <= max_a * max_b,
{
    assert(0 <= a * b <= max_a * max_b) by (nonlinear_arith)
        requires
            0 <= a <= max_a,
            0 <= b <= max_b,
    ;
}

/// A part of a positive whole, scaled up and divided by the whole, lies
/// between 0 and the scale, and reaches the scale only for the whole itself.
pub proof fn lemma_ratio_bounded(part: int, whole: int, scale: int)
    requires
        0 <= part <= whole,
        0 < whole,
        0 <= scale,
    ensures
        0 <= part * scale / whole <= scale,
        part == whole ==> part * scale / whole == scale,
        part < whole && scale > 0 ==> part * scale / whole < scale,
{
    assert(0 <= part * scale <= whole * scale) by (nonlinear_arith)
        requires
            0 <= part <= whole,
            0 <= scale,
    ;
    assert(0 <= part * scale / whole <= scale) by (nonlinear_arith)
        requires
            0 <= part * scale <= whole * scale,
            0 < whole,
    ;
    if part == whole {
        assert(whole * scale / whole == scale) by (nonlinear_arith)
            requires
                0 < whole,
        ;
    }
    if part < whole && scale > 0 {
        assert(part * scale < whole * scale) by (nonlinear_arith)
            requires
                0 <= part < whole,
                0 < scale,
        ;
        assert(part * scale / whole < scale) by (nonlinear_arith)
            requires
                0 <= part * scale < whole * scale,
                0 < whole,
        ;
    }
}

/// The intersection is contained in each of the two boxes, so its area is at
/// most either box's area and at most the union's.
pub proof fn lemma_intersection_bounded(a: BoxModel, b: BoxModel)
    ensures
        0 <= intersection_area(a, b) <= area(a),
        intersection_area(a, b) <= area(b),
        intersection_area(a, b) <= union_area(a, b),
        overlaps(a, b) ==> 0 < intersection_area(a, b),
{
    if overlaps(a, b) {
        let w = overlap_width(a, b);
        let h = overlap_height(a, b);
        lemma_product_bounded(w, h, a.width as int, a.height as int);
        lemma_product_bounded(w, h, b.width as int, b.height as int);
        assert(0 < w * h) by (nonlinear_arith)
            requires
                0 < w,
                0 < h,
        ;
    } else {
        lemma_product_bounded(0, 0, a.width as int, a.height as int);
        lemma_product_bounded(0, 0, b.width as int, b.height as int);
    }
}

/// An IoU is a score: it lies between 0 and `SCORE_UNIT`.
pub proof fn lemma_iou_bounded(a: BoxModel, b: BoxModel)
    ensures
        0 <= iou(a, b) <= SCORE_UNIT,
{
    lemma_intersection_bounded(a, b);
    if overlaps(a, b) && union_area(a, b) > 0 {
        lemma_ratio_bounded(intersection_area(a, b), union_area(a, b), SCORE_UNIT as int);
    }
}

/// The rounded IoU agrees with the exact comparison but at `HALF_UNIT`
/// itself: above it the IoU exceeds one half, and below it it does not.
pub proof fn lemma_iou_exceeds_half(a: BoxModel, b: BoxModel)
    ensures
        iou(a, b) > HALF_UNIT ==> iou_exceeds_half(a, b),
        iou_exceeds_half(a, b) ==> iou(a, b) >= HALF_UNIT,
{
    lemma_intersection_bounded(a, b);
    if overlaps(a, b) && union_area(a, b) > 0 {
        let part = intersection_area(a, b);
        let whole = union_area(a, b);
        if 2 * part > whole {
            assert(part * 1_000_000 / whole >= 500_000) by (nonlinear_arith)
                requires
                    2 * part > whole,
                    whole > 0,
            ;
        } else {
            assert(part * 1_000_000 / whole <= 500_000) by (nonlinear_arith)
                requires
                    2 * part <= whole,
                    0 <= part,
                    whole > 0,
            ;
        }
    }
}

/// Whether the IoU exceeds one half does not depend on the order of the
/// boxes either.
pub proof fn lemma_iou_exceeds_half_symmetric(a: BoxModel, b: BoxModel)
    ensures
        iou_exceeds_half(a, b) == iou_exceeds_half(b, a),
{
    assert(overlap_width(a, b) == overlap_width(b, a));
    assert(overlap_height(a, b) == overlap_height(b, a));
    assert(intersection_area(a, b) == intersection_area(b, a));
}

/// IoU does not depend on the order of its arguments.
pub proof fn lemma_iou_symmetric(a: BoxModel, b: BoxModel)
    ensures
        iou(a, b) == iou(b, a),
{
    assert(overlap_width(a, b) == overlap_width(b, a));
    assert(overlap_height(a, b) == overlap_height(b, a));
    assert(intersection_area(a, b) == intersection_area(b, a));
    assert(union_area(a, b) == union_area(b, a));
}

/// A box with positive area has IoU 1.0 with itself.
pub proof fn lemma_iou_reflexive(a: BoxModel)
    requires
        area(a) > 0,
    ensures
        iou(a, a) == SCORE_UNIT,
        iou_exceeds_half(a, a),
{
    assert(a.width > 0 && a.height > 0) by (nonlinear_arith)
        requires
            a.width * a.height > 0,
            a.width >= 0,
            a.height >= 0,
    ;
    assert(overlap_width(a, a) == a.width);
    assert(overlap_height(a, a) == a.height);
    assert(intersection_area(a, a) == area(a));
    assert(union_area(a, a) == area(a));
    lemma_ratio_bounded(area(a), area(a), SCORE_UNIT as int);
}

/// Disjoint boxes have IoU exactly 0, and so has any pair in which a box has
/// no area.
pub proof fn lemma_iou_disjoint(a: BoxModel, b: BoxModel)
    requires
        disjoint(a, b) || area(a) == 0 || area(b) == 0,
    ensures
        iou(a, b) == 0,
        !iou_exceeds_half(a, b),
{
    if !disjoint(a, b) {
        lemma_intersection_bounded(a, b);
    }
}

} // verus!
