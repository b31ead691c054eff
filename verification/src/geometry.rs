//! Detection boxes on the integer pixel grid and their exact overlap ratio.

use vstd::prelude::*;

verus! {

/// The guard term added to the denominator of an overlap ratio is
/// `1 / EPSILON_INVERSE` square pixels.
pub const EPSILON_INVERSE: u128 = 100_000;

/// Confidence value that stands for certainty; confidences are in millionths.
pub const CONFIDENCE_ONE: u32 = 1_000_000;

/// An overlap ratio of one, in millionths.
pub const IOU_ONE: u32 = 1_000_000;

/// Smallest area, in square pixels, from which the overlap ratio of a box
/// with itself is one to the nearest millionth: below it the guard term
/// weighs more than half a millionth.
pub const FULL_OVERLAP_AREA: u64 = 20;

/// One finding of the vision model: an axis-aligned rectangle in whole
/// pixels, a confidence in millionths and a label.
#[derive(Clone, Debug, PartialEq, Eq)]
pub struct DetectionBox {
    pub x1: i32,
    pub y1: i32,
    pub x2: i32,
    pub y2: i32,
    pub confidence: u32,
    pub label: String,
}

/// Mathematical model of a [`DetectionBox`].
pub ghost struct BoxView {
    pub x1: int,
    pub y1: int,
    pub x2: int,
    pub y2: int,
    pub confidence: nat,
    pub label: Seq<char>,
}

impl View for DetectionBox {
    type V = BoxView;

    open spec fn view(&self) -> BoxView {
        BoxView {
            x1: self.x1 as int,
            y1: self.y1 as int,
            x2: self.x2 as int,
            y2: self.y2 as int,
            confidence: self.confidence as nat,
            label: self.label@,
        }
    }
}

impl DeepView for DetectionBox {
    type V = BoxView;

    open spec fn deep_view(&self) -> BoxView {
        self@
    }
}

/// Length of the interval from `lo` to `hi`, zero when it is empty.
pub open spec fn extent(lo: int, hi: int) -> int {
    if hi > lo {
        hi - lo
    } else {
        0
    }
}

pub open spec fn min_int(a: int, b: int) -> int {
    if a <= b {
        a
    } else {
        b
    }
}

pub open spec fn max_int(a: int, b: int) -> int {
    if a >= b {
        a
    } else {
        b
    }
}

impl BoxView {
    pub open spec fn width(self) -> int {
        extent(self.x1, self.x2)
    }

    pub open spec fn height(self) -> int {
        extent(self.y1, self.y2)
    }

    pub open spec fn area(self) -> int {
        self.width() * self.height()
    }

    /// The box covers at least one pixel.
    pub open spec fn non_degenerate(self) -> bool {
        self.x1 < self.x2 && self.y1 < self.y2
    }

    /// The rectangles share no interior point on at least one axis.
    pub open spec fn disjoint_from(self, other: BoxView) -> bool {
        ||| max_int(self.x1, other.x1) >= min_int(self.x2, other.x2)
        ||| max_int(self.y1, other.y1) >= min_int(self.y2, other.y2)
    }

    /// Every point of `other` lies inside `self`.
    pub open spec fn encloses(self, other: BoxView) -> bool {
        &&& self.x1 <= other.x1
        &&& self.y1 <= other.y1
        &&& other.x2 <= self.x2
        &&& other.y2 <= self.y2
    }

    /// The box that results when `self` absorbs `other`: the bounding box of
    /// both, the larger confidence, and the label of `self`.
    pub open spec fn absorb(self, other: BoxView) -> BoxView {
        BoxView {
            x1: min_int(self.x1, other.x1),
            y1: min_int(self.y1, other.y1),
            x2: max_int(self.x2, other.x2),
            y2: max_int(self.y2, other.y2),
            confidence: if self.confidence >= other.confidence {
                self.confidence
            } else {
                other.confidence
            },
            label: self.label,
        }
    }
}

/// Area shared by the two rectangles, zero when they do not overlap on
/// either axis.
pub open spec fn intersection_area(a: BoxView, b: BoxView) -> int {
    extent(max_int(a.x1, b.x1), min_int(a.x2, b.x2)) * extent(
        max_int(a.y1, b.y1),
        min_int(a.y2, b.y2),
    )
}

/// Area covered by at least one of the two rectangles.
pub open spec fn union_area(a: BoxView, b: BoxView) -> int {
    a.area() + b.area() - intersection_area(a, b)
}

/// Numerator of the overlap ratio `intersection / (union + epsilon)`, after
/// both sides of the fraction are multiplied by `EPSILON_INVERSE`.
pub open spec fn iou_numerator(a: BoxView, b: BoxView) -> int {
    EPSILON_INVERSE * intersection_area(a, b)
}

/// Denominator that belongs to [`iou_numerator`].
pub open spec fn iou_denominator(a: BoxView, b: BoxView) -> int {
    EPSILON_INVERSE * union_area(a, b) + 1
}

/// A non-negative fraction `num / den` with `den > 0`.
#[derive(Clone, Copy, Debug, PartialEq, Eq)]
pub struct Ratio {
    pub num: u128,
    pub den: u128,
}

impl Ratio {
    /// The fraction is greater than one half.
    pub open spec fn above_half(self) -> bool {
        2 * self.num > self.den
    }

    pub fn exceeds_half(&self) -> (yes: bool)
        ensures
            yes == self.above_half(),
    {
        self.num > self.den / 2
    }
}

/// The overlap ratio in millionths, rounded to the nearest millionth, a half
/// upwards.
pub open spec fn iou_millionths_spec(a: BoxView, b: BoxView) -> int {
    (2 * IOU_ONE * iou_numerator(a, b) + iou_denominator(a, b)) / (2 * iou_denominator(a, b))
}

/// The overlap ratio of the two boxes exceeds the merge threshold of one half.
pub open spec fn overlaps(a: BoxView, b: BoxView) -> bool {
    2 * iou_numerator(a, b) > iou_denominator(a, b)
}

/// A product of two factors grows with each factor.
pub proof fn lemma_product_monotone(a: int, b: int, c: int, d: int)
    by (nonlinear_arith)
    requires
        0 <= a <= c,
        0 <= b <= d,
    ensures
        0 <= a * b <= c * d,
{
}

/// The shared area is never negative and never larger than either box.
pub proof fn lemma_intersection_bounds(a: BoxView, b: BoxView)
    ensures
        0 <= intersection_area(a, b) <= a.area(),
        intersection_area(a, b) <= b.area(),
        a.area() <= union_area(a, b),
        b.area() <= union_area(a, b),
{
    let w = extent(max_int(a.x1, b.x1), min_int(a.x2, b.x2));
    let h = extent(max_int(a.y1, b.y1), min_int(a.y2, b.y2));
    lemma_product_monotone(w, h, a.width(), a.height());
    lemma_product_monotone(w, h, b.width(), b.height());
}

fn span(lo: i32, hi: i32) -> (len: u64)
    ensures
        len == extent(lo as int, hi as int),
        len <= u32::MAX,
{
    if hi > lo {
        (hi as i64 - lo as i64) as u64
    } else {
        0
    }
}

fn rectangle_area(x1: i32, y1: i32, x2: i32, y2: i32) -> (area: u64)
    ensures
        area == extent(x1 as int, x2 as int) * extent(y1 as int, y2 as int),
{
    let w = span(x1, x2);
    let h = span(y1, y2);
    proof {
        lemma_product_monotone(w as int, h as int, u32::MAX as int, u32::MAX as int);
        assert(0xffff_ffff * 0xffff_ffff <= 0xffff_ffff_ffff_ffff) by (nonlinear_arith);
    }
    w * h
}

/// Intersection over union of two boxes, as the exact fraction
/// `intersection / (area(a) + area(b) - intersection + 1 / EPSILON_INVERSE)`.
pub fn iou(a: &DetectionBox, b: &DetectionBox) -> (ratio: Ratio)
    ensures
        ratio.num == iou_numerator(a@, b@),
        ratio.den == iou_denominator(a@, b@),
        ratio.num < ratio.den,
{
    let x1 = if a.x1 >= b.x1 { a.x1 } else { b.x1 };
    let y1 = if a.y1 >= b.y1 { a.y1 } else { b.y1 };
    let x2 = if a.x2 <= b.x2 { a.x2 } else { b.x2 };
    let y2 = if a.y2 <= b.y2 { a.y2 } else { b.y2 };
    let inter = rectangle_area(x1, y1, x2, y2);
    let area_a = rectangle_area(a.x1, a.y1, a.x2, a.y2);
    let area_b = rectangle_area(b.x1, b.y1, b.x2, b.y2);
    proof {
        lemma_intersection_bounds(a@, b@);
    }
    let union: u128 = area_a as u128 + area_b as u128 - inter as u128;
    Ratio { num: EPSILON_INVERSE * inter as u128, den: EPSILON_INVERSE * union + 1 }
}

/// A quotient is known from the two multiples of the divisor that enclose
/// the dividend.
proof fn lemma_quotient_between(x: int, d: int, q: int)
    by (nonlinear_arith)
    requires
        d > 0,
        q * d <= x < (q + 1) * d,
    ensures
        x / d == q,
{
}

/// A quotient of a non-negative dividend lies between zero and a bound
/// whose multiple of the divisor the dividend stays below.
proof fn lemma_quotient_within(x: int, d: int, bound: int)
    by (nonlinear_arith)
    requires
        d > 0,
        0 <= x < (bound + 1) * d,
    ensures
        0 <= x / d <= bound,
{
}

/// Intersection over union of two boxes in millionths, rounded to the
/// nearest millionth.
pub fn iou_millionths(a: &DetectionBox, b: &DetectionBox) -> (millionths: u32)
    ensures
        millionths == iou_millionths_spec(a@, b@),
        millionths <= IOU_ONE,
{
    let ratio = iou(a, b);
    proof {
        lemma_intersection_bounds(a@, b@);
        lemma_product_monotone(a@.width(), a@.height(), u32::MAX as int, u32::MAX as int);
        lemma_product_monotone(b@.width(), b@.height(), u32::MAX as int, u32::MAX as int);
        assert(0xffff_ffff * 0xffff_ffff <= 0xffff_ffff_ffff_ffff) by (nonlinear_arith);
        lemma_iou_millionths_range(a@, b@);
        assert(2 * IOU_ONE * ratio.num == 2_000_000 * ratio.num);
    }
    ((2 * (IOU_ONE as u128) * ratio.num + ratio.den) / (2 * ratio.den)) as u32
}

/// The rounded overlap ratio lies between zero and one.
pub proof fn lemma_iou_millionths_range(a: BoxView, b: BoxView)
    ensures
        0 <= iou_millionths_spec(a, b) <= IOU_ONE,
{
    lemma_intersection_bounds(a, b);
    let num = iou_numerator(a, b);
    let den = iou_denominator(a, b);
    assert(2 * IOU_ONE * num == 2_000_000 * num);
    assert(2_000_000 * num + den < 1_000_001 * (2 * den));
    lemma_quotient_within(2_000_000 * num + den, 2 * den, 1_000_000);
}

/// The overlap ratio does not depend on the order of the two boxes.
pub proof fn lemma_iou_symmetric(a: BoxView, b: BoxView)
    ensures
        iou_numerator(a, b) == iou_numerator(b, a),
        iou_denominator(a, b) == iou_denominator(b, a),
        overlaps(a, b) == overlaps(b, a),
{
}

/// A box that covers at least one pixel overlaps itself by
/// `area / (area + epsilon)`: the ratio falls short of one by a single unit of
/// the scaled denominator, which is less than `1 / EPSILON_INVERSE`, and it
/// exceeds the merge threshold.
pub proof fn lemma_iou_of_box_with_itself(a: BoxView)
    requires
        a.non_degenerate(),
    ensures
        iou_numerator(a, a) == EPSILON_INVERSE * a.area(),
        iou_denominator(a, a) == iou_numerator(a, a) + 1,
        EPSILON_INVERSE * (iou_denominator(a, a) - iou_numerator(a, a)) <= iou_denominator(a, a),
        overlaps(a, a),
{
    lemma_product_monotone(1, 1, a.width(), a.height());
}

/// The overlap ratio of a box with itself is one, to the nearest millionth,
/// for every box of at least `FULL_OVERLAP_AREA` square pixels, and falls
/// short of one for every smaller box.
pub proof fn lemma_iou_of_box_with_itself_is_one(a: BoxView)
    requires
        a.non_degenerate(),
    ensures
        a.area() >= FULL_OVERLAP_AREA <==> iou_millionths_spec(a, a) == IOU_ONE,
{
    lemma_iou_of_box_with_itself(a);
    lemma_iou_millionths_range(a, a);
    let num = iou_numerator(a, a);
    let den = iou_denominator(a, a);
    assert(2 * IOU_ONE * num == 2_000_000 * num);
    assert(num == 100_000 * a.area());
    assert(den == num + 1);
    assert(FULL_OVERLAP_AREA == 20);
    if a.area() >= FULL_OVERLAP_AREA {
        assert(1_000_000 * (2 * den) <= 2_000_000 * num + den < 1_000_001 * (2 * den))
            by (nonlinear_arith)
            requires
                den == num + 1,
                num >= 2_000_000,
        ;
        lemma_quotient_between(2_000_000 * num + den, 2 * den, 1_000_000);
    } else {
        assert(0 <= 2_000_000 * num + den < 1_000_000 * (2 * den)) by (nonlinear_arith)
            requires
                den == num + 1,
                0 <= num <= 1_900_000,
        ;
        lemma_quotient_within(2_000_000 * num + den, 2 * den, 999_999);
    }
}

/// Boxes that share no interior point on some axis have an overlap ratio of
/// zero, and so do boxes of which one is degenerate.
pub proof fn lemma_iou_of_disjoint_boxes(a: BoxView, b: BoxView)
    requires
        a.disjoint_from(b),
    ensures
        iou_numerator(a, b) == 0,
        iou_denominator(a, b) > 0,
        iou_millionths_spec(a, b) == 0,
        !overlaps(a, b),
{
    lemma_intersection_bounds(a, b);
    let num = iou_numerator(a, b);
    let den = iou_denominator(a, b);
    assert(num == 0);
    assert(2 * IOU_ONE * num == 2_000_000 * num);
    assert(0 * (2 * den) <= den < 1 * (2 * den));
    lemma_quotient_between(den, 2 * den, 0);
}

} // verus!
