//! Control points and the curve fitted through them.
//!
//! The curve is a Catmull-Rom spline: piecewise cubic, one segment between
//! each pair of neighbouring control points, and it passes through every
//! control point. For the tangents at both ends the sequence of control
//! points is extended by one mirrored point on either side.
//!
//! Control points lie on the integer grid, so twice each coefficient is an
//! integer. The coefficients are kept doubled and a position is given as a
//! fraction, which keeps the whole computation exact.

use crate::geometry::Point;
use vstd::prelude::*;

verus! {

/// The ordered points a curve is fitted through: one for each particle of a
/// chain, in chain order.
#[derive(Clone, Debug)]
pub struct ControlPoints {
    pub points: Vec<Point>,
}

impl View for ControlPoints {
    type V = Seq<Point>;

    open spec fn view(&self) -> Seq<Point> {
        self.points@
    }
}

/// The polynomial `(a + b t + c t^2 + d t^3) / 2`.
pub struct Polynomial {
    pub a: int,
    pub b: int,
    pub c: int,
    pub d: int,
}

impl Polynomial {
    /// The value at `t = k / m`, multiplied by `2 m^3`.
    pub open spec fn numerator(self, k: int, m: int) -> int {
        self.a * (m * m * m) + self.b * (k * m * m) + self.c * (k * k * m) + self.d * (k * k * k)
    }
}

/// By what the numerators of a position at `t = k / m` are multiplied.
pub open spec fn scale(m: int) -> int {
    2 * (m * m * m)
}

/// The x coordinates of `points`.
pub open spec fn xs(points: Seq<Point>) -> Seq<int> {
    Seq::new(points.len(), |i: int| points[i].x as int)
}

/// The y coordinates of `points`.
pub open spec fn ys(points: Seq<Point>) -> Seq<int> {
    Seq::new(points.len(), |i: int| points[i].y as int)
}

/// The control points of one axis, extended at both ends: knot 0 mirrors the
/// second point in the first, knot `i` is point `i - 1`, and the knot after
/// the last point mirrors the last but one in the last.
pub open spec fn knot(axis: Seq<int>, i: int) -> int {
    if i <= 0 {
        2 * axis[0] - axis[1]
    } else if i > axis.len() {
        2 * axis[axis.len() - 1] - axis[axis.len() - 2]
    } else {
        axis[i - 1]
    }
}

/// The Catmull-Rom polynomial over four knots in a row. It runs from `from`
/// at `t = 0` to `to` at `t = 1`; `before` and `after` give the tangents.
pub open spec fn catmull_rom(before: int, from: int, to: int, after: int) -> Polynomial {
    Polynomial {
        a: 2 * from,
        b: to - before,
        c: 2 * before - 5 * from + 4 * to - after,
        d: -before + 3 * from - 3 * to + after,
    }
}

/// The Catmull-Rom polynomial over the knots `i` to `i + 3` of one axis.
pub open spec fn cubic_through(axis: Seq<int>, i: int) -> Polynomial {
    catmull_rom(knot(axis, i), knot(axis, i + 1), knot(axis, i + 2), knot(axis, i + 3))
}

/// A segment of a curve, as two polynomials.
pub struct SegmentView {
    pub x: Polynomial,
    pub y: Polynomial,
}

/// The segment between the control points `i` and `i + 1`.
pub open spec fn segment_through(points: Seq<Point>, i: int) -> SegmentView {
    SegmentView { x: cubic_through(xs(points), i), y: cubic_through(ys(points), i) }
}

/// The curve through `points`: none for fewer than two points, else one
/// segment for each pair of neighbours.
pub open spec fn fit(points: Seq<Point>) -> Option<Seq<SegmentView>> {
    if points.len() < 2 {
        None
    } else {
        Some(Seq::new((points.len() - 1) as nat, |i: int| segment_through(points, i)))
    }
}

/// Whether `numer / denom` is a parameter of a curve of `segments` segments:
/// the curve runs from 0 to the number of its segments.
pub open spec fn in_domain(segments: nat, numer: int, denom: int) -> bool {
    denom > 0 && 0 <= numer <= segments * denom
}

/// The segment that the parameter `numer / denom` falls into. The end of the
/// curve belongs to the last segment.
pub open spec fn segment_index(segments: nat, numer: int, denom: int) -> int {
    if numer / denom >= segments {
        segments - 1
    } else {
        numer / denom
    }
}

/// The point `(x / scale, y / scale)`.
pub struct Fraction {
    pub x: int,
    pub y: int,
    pub scale: int,
}

impl Fraction {
    /// Whether the fraction is the grid point `point`.
    pub open spec fn is_point(self, point: Point) -> bool {
        self.x == self.scale * point.x && self.y == self.scale * point.y
    }
}

/// A position on a curve, as a fraction: the point `(x / scale, y / scale)`.
#[derive(Clone, Copy, Debug, PartialEq, Eq, Structural)]
pub struct Sample {
    pub x: i128,
    pub y: i128,
    pub scale: u64,
}

impl View for Sample {
    type V = Fraction;

    open spec fn view(&self) -> Fraction {
        Fraction { x: self.x as int, y: self.y as int, scale: self.scale as int }
    }
}

/// The position on `segments` at the parameter `numer / denom`.
pub open spec fn position_at(segments: Seq<SegmentView>, numer: int, denom: int) -> Fraction {
    let s = segment_index(segments.len(), numer, denom);
    let k = numer - s * denom;
    Fraction {
        x: segments[s].x.numerator(k, denom),
        y: segments[s].y.numerator(k, denom),
        scale: scale(denom),
    }
}

/// The position on `curve` at the parameter `numer / denom`: none where
/// there is no curve or the parameter lies outside it.
pub open spec fn position_on(curve: Option<Seq<SegmentView>>, numer: int, denom: int) -> Option<
    Fraction,
> {
    match curve {
        Some(segments) => if segments.len() > 0 && in_domain(segments.len(), numer, denom) {
            Some(position_at(segments, numer, denom))
        } else {
            None
        },
        None => None,
    }
}

/// How many samples a curve of `segments` segments is drawn with:
/// `per_segment` steps for each segment, and the end of the curve.
pub open spec fn sample_total(segments: nat, per_segment: int) -> int {
    per_segment * segments + 1
}

/// One axis of a segment, with the coefficients as machine integers.
#[derive(Clone, Copy, Debug, PartialEq, Eq, Structural)]
pub struct Cubic {
    pub a: i64,
    pub b: i64,
    pub c: i64,
    pub d: i64,
}

impl View for Cubic {
    type V = Polynomial;

    open spec fn view(&self) -> Polynomial {
        Polynomial { a: self.a as int, b: self.b as int, c: self.c as int, d: self.d as int }
    }
}

/// A segment of a curve.
#[derive(Clone, Copy, Debug, PartialEq, Eq, Structural)]
pub struct Segment {
    pub x: Cubic,
    pub y: Cubic,
}

impl View for Segment {
    type V = SegmentView;

    open spec fn view(&self) -> SegmentView {
        SegmentView { x: self.x@, y: self.y@ }
    }
}

/// The views of the segments of `segments`.
pub open spec fn segment_views(segments: Seq<Segment>) -> Seq<SegmentView> {
    Seq::new(segments.len(), |i: int| segments[i]@)
}

/// The products of three numbers below 2^16 stay below 2^48.
proof fn lemma_powers_bound(k: int, m: int)
    requires
        0 <= k <= 0xffff,
        0 <= m <= 0xffff,
    ensures
        0 <= k * k <= 0xffff * 0xffff,
        0 <= k * m <= 0xffff * 0xffff,
        0 <= m * m <= 0xffff * 0xffff,
        0 <= k * k * k <= 0xffff * 0xffff * 0xffff,
        0 <= k * k * m <= 0xffff * 0xffff * 0xffff,
        0 <= k * m * m <= 0xffff * 0xffff * 0xffff,
        0 <= m * m * m <= 0xffff * 0xffff * 0xffff,
{
    assert(0 <= k * k <= 0xffff * 0xffff) by (nonlinear_arith)
        requires
            0 <= k <= 0xffff,
    ;
    assert(0 <= k * m <= 0xffff * 0xffff) by (nonlinear_arith)
        requires
            0 <= k <= 0xffff,
            0 <= m <= 0xffff,
    ;
    assert(0 <= m * m <= 0xffff * 0xffff) by (nonlinear_arith)
        requires
            0 <= m <= 0xffff,
    ;
    lemma_product_bound(k * k, k, 0xffff * 0xffff as int, 0xffff);
    lemma_product_bound(k * k, m, 0xffff * 0xffff as int, 0xffff);
    lemma_product_bound(k * m, m, 0xffff * 0xffff as int, 0xffff);
    lemma_product_bound(m * m, m, 0xffff * 0xffff as int, 0xffff);
}

/// A product of two bounded numbers, the second not negative, is bounded.
proof fn lemma_product_bound(a: int, b: int, bound_a: int, bound_b: int)
    requires
        -bound_a <= a <= bound_a,
        0 <= b <= bound_b,
    ensures
        -(bound_a * bound_b) <= a * b <= bound_a * bound_b,
        a >= 0 ==> a * b >= 0,
{
    assert(-(bound_a * bound_b) <= a * b <= bound_a * bound_b && (a >= 0 ==> a * b >= 0))
        by (nonlinear_arith)
        requires
            -bound_a <= a <= bound_a,
            0 <= b <= bound_b,
    ;
}

/// The largest size of a knot: a mirrored point lies up to three times as
/// far out as a coordinate can.
const KNOT_BOUND: i64 = 0x1_8000_0000;

impl Cubic {
    /// The Catmull-Rom polynomial over four knots in a row.
    fn through(before: i64, from: i64, to: i64, after: i64) -> (cubic: Cubic)
        requires
            -KNOT_BOUND <= before <= KNOT_BOUND,
            -KNOT_BOUND <= from <= KNOT_BOUND,
            -KNOT_BOUND <= to <= KNOT_BOUND,
            -KNOT_BOUND <= after <= KNOT_BOUND,
        ensures
            cubic@ == catmull_rom(before as int, from as int, to as int, after as int),
    {
        Cubic {
            a: 2 * from,
            b: to - before,
            c: 2 * before - 5 * from + 4 * to - after,
            d: 3 * from - before - 3 * to + after,
        }
    }

    /// The value at `t = k / m`, multiplied by `2 m^3`.
    pub fn numerator(&self, k: u16, m: u16) -> (n: i128)
        ensures
            n == self@.numerator(k as int, m as int),
    {
        let kk: i128 = k as i128;
        let mm: i128 = m as i128;
        proof {
            lemma_powers_bound(k as int, m as int);
        }
        let m3: i128 = mm * mm * mm;
        let m2: i128 = kk * mm * mm;
        let m1: i128 = kk * kk * mm;
        let m0: i128 = kk * kk * kk;
        let ghost cube: int = 0xffff * 0xffff * 0xffff as int;
        let ghost top: int = 0x8000_0000_0000_0000;
        proof {
            lemma_product_bound(self.a as int, m3 as int, top, cube);
            lemma_product_bound(self.b as int, m2 as int, top, cube);
            lemma_product_bound(self.c as int, m1 as int, top, cube);
            lemma_product_bound(self.d as int, m0 as int, top, cube);
            assert(top * cube < 0x1_0000_0000_0000_0000_0000_0000_0000) by (nonlinear_arith)
                requires
                    top == 0x8000_0000_0000_0000,
                    cube == 0xffff * 0xffff * 0xffff,
            ;
        }
        let ta: i128 = (self.a as i128) * m3;
        let tb: i128 = (self.b as i128) * m2;
        let tc: i128 = (self.c as i128) * m1;
        let td: i128 = (self.d as i128) * m0;
        ta + tb + tc + td
    }
}

/// The curve presently fitted. There is none where the control points are
/// too few to give one.
#[derive(Clone, Debug)]
pub struct Curve(Option<Vec<Segment>>);

impl View for Curve {
    type V = Option<Seq<SegmentView>>;

    closed spec fn view(&self) -> Option<Seq<SegmentView>> {
        match self.0 {
            Some(segments) => Some(segment_views(segments@)),
            None => None,
        }
    }
}

impl Default for Curve {
    /// No curve.
    fn default() -> (curve: Curve)
        ensures
            curve@.is_none(),
    {
        Curve(None)
    }
}

/// Fits the curve through `control_points`, from scratch. Fewer than two
/// points give no curve; `n` points give `n - 1` segments.
pub fn form_curve(control_points: &ControlPoints) -> (curve: Curve)
    ensures
        curve@ == fit(control_points@),
        curve@.is_none() <==> control_points@.len() < 2,
        curve@ matches Some(segments) ==> segments.len() == control_points@.len() - 1,
{
    let points = &control_points.points;
    let n: usize = points.len();
    if n < 2 {
        return Curve(None);
    }
    let ghost axis_x = xs(points@);
    let ghost axis_y = ys(points@);
    let mut segments: Vec<Segment> = Vec::new();
    let mut i: usize = 0;
    while i + 1 < n
        invariant
            n == points.len(),
            n >= 2,
            i + 1 <= n,
            axis_x == xs(points@),
            axis_y == ys(points@),
            segments@.len() == i,
            forall|j: int| 0 <= j < i ==> (#[trigger] segments@[j])@ == segment_through(points@, j),
        decreases n - i,
    {
        let from: Point = points[i];
        let to: Point = points[i + 1];
        let from_x: i64 = from.x as i64;
        let from_y: i64 = from.y as i64;
        let to_x: i64 = to.x as i64;
        let to_y: i64 = to.y as i64;
        let (before_x, before_y): (i64, i64) = if i == 0 {
            (2 * from_x - to_x, 2 * from_y - to_y)
        } else {
            let before: Point = points[i - 1];
            (before.x as i64, before.y as i64)
        };
        let (after_x, after_y): (i64, i64) = if i + 2 == n {
            (2 * to_x - from_x, 2 * to_y - from_y)
        } else {
            let after: Point = points[i + 2];
            (after.x as i64, after.y as i64)
        };
        assert(before_x == knot(axis_x, i as int) && before_y == knot(axis_y, i as int));
        assert(from_x == knot(axis_x, i + 1) && from_y == knot(axis_y, i + 1));
        assert(to_x == knot(axis_x, i + 2) && to_y == knot(axis_y, i + 2));
        assert(after_x == knot(axis_x, i + 3) && after_y == knot(axis_y, i + 3));
        let segment = Segment {
            x: Cubic::through(before_x, from_x, to_x, after_x),
            y: Cubic::through(before_y, from_y, to_y, after_y),
        };
        assert(segment@ == segment_through(points@, i as int));
        segments.push(segment);
        i = i + 1;
    }
    let curve = Curve(Some(segments));
    assert(curve@.unwrap() =~= fit(control_points@).unwrap());
    curve
}

impl Curve {
    /// The segments, first to last, if there is a curve.
    pub fn segments(&self) -> (segments: Option<&Vec<Segment>>)
        ensures
            segments.is_some() == self@.is_some(),
            segments matches Some(s) ==> segment_views(s@) == self@.unwrap(),
    {
        self.0.as_ref()
    }

    /// The number of segments; 0 where there is no curve.
    pub fn segment_count(&self) -> (count: usize)
        ensures
            count == match self@ {
                Some(segments) => segments.len(),
                None => 0,
            },
    {
        match &self.0 {
            Some(segments) => segments.len(),
            None => 0,
        }
    }

    /// The position at the parameter `numer / denom`, where the curve runs
    /// from 0 to the number of its segments.
    pub fn position(&self, numer: u64, denom: u16) -> (sample: Option<Sample>)
        ensures
            sample.is_some() == position_on(self@, numer as int, denom as int).is_some(),
            sample matches Some(s) ==> s@ == position_on(self@, numer as int, denom as int).unwrap(),
    {
        match &self.0 {
            None => None,
            Some(segments) => {
                let n: usize = segments.len();
                if n == 0 || denom == 0 {
                    return None;
                }
                let ghost views = segment_views(segments@);
                let limit: u128 = mul_wide(n as u64, denom);
                if numer as u128 > limit {
                    return None;
                }
                let step: u64 = denom as u64;
                let whole: u64 = numer / step;
                let (index, k): (usize, u16) = if whole >= n as u64 {
                    proof {
                        lemma_last_parameter(n as int, numer as int, denom as int);
                    }
                    (n - 1, denom)
                } else {
                    proof {
                        vstd::arithmetic::div_mod::lemma_fundamental_div_mod(
                            numer as int,
                            denom as int,
                        );
                        assert(denom * (numer as int / denom as int) == (numer as int / denom as int)
                            * denom) by (nonlinear_arith);
                    }
                    (whole as usize, (numer % step) as u16)
                };
                assert(index == segment_index(views.len(), numer as int, denom as int));
                assert(k == numer - index * denom);
                let segment: Segment = segments[index];
                assert(segment@ == views[index as int]);
                let d: u64 = denom as u64;
                proof {
                    lemma_powers_bound(denom as int, denom as int);
                }
                Some(
                    Sample {
                        x: segment.x.numerator(k, denom),
                        y: segment.y.numerator(k, denom),
                        scale: 2 * (d * d * d),
                    },
                )
            },
        }
    }

    /// How many samples the curve is drawn with at `per_segment` steps for
    /// each segment: none where there is no curve, where `per_segment` is 0,
    /// or where the number does not fit.
    pub fn sample_count(&self, per_segment: u16) -> (count: Option<usize>)
        ensures
            count.is_some() <==> (self@ matches Some(segments) && segments.len() > 0 && per_segment > 0
                && sample_total(segments.len(), per_segment as int) <= usize::MAX),
            count matches Some(c) ==> c == sample_total(self@.unwrap().len(), per_segment as int),
    {
        let n: usize = self.segment_count();
        if n == 0 || per_segment == 0 {
            return None;
        }
        match (per_segment as usize).checked_mul(n) {
            Some(steps) => steps.checked_add(1),
            None => None,
        }
    }

    /// The curve as a line strip: the positions at the parameters
    /// `0, 1 / per_segment, 2 / per_segment, ...` up to the end of the curve.
    /// None where [`Curve::sample_count`] gives none. Sample `i` of the strip
    /// is `self.position(i, per_segment)`, for a caller who would rather
    /// walk the curve than hold the strip.
    pub fn tessellate(&self, per_segment: u16) -> (strip: Option<Vec<Sample>>)
        ensures
            strip.is_some() <==> (self@ matches Some(segments) && segments.len() > 0 && per_segment > 0
                && sample_total(segments.len(), per_segment as int) <= usize::MAX),
            strip matches Some(samples) ==> {
                &&& samples@.len() == sample_total(self@.unwrap().len(), per_segment as int)
                &&& forall|i: int|
                    0 <= i < samples@.len() ==> (#[trigger] samples@[i])@ == position_at(
                        self@.unwrap(),
                        i,
                        per_segment as int,
                    )
            },
    {
        let count: usize = match self.sample_count(per_segment) {
            Some(count) => count,
            None => {
                return None;
            },
        };
        let ghost segments = self@.unwrap();
        let mut samples: Vec<Sample> = Vec::new();
        let mut i: usize = 0;
        while i < count
            invariant
                self@ == Some(segments),
                segments.len() > 0,
                per_segment > 0,
                count == sample_total(segments.len(), per_segment as int),
                i <= count,
                samples@.len() == i,
                forall|j: int|
                    0 <= j < i ==> (#[trigger] samples@[j])@ == position_at(
                        segments,
                        j,
                        per_segment as int,
                    ),
            decreases count - i,
        {
            let sample = self.position(i as u64, per_segment);
            assert(in_domain(segments.len(), i as int, per_segment as int));
            samples.push(sample.unwrap());
            i = i + 1;
        }
        Some(samples)
    }
}

/// The product of a length and a step count.
fn mul_wide(n: u64, denom: u16) -> (product: u128)
    ensures
        product == n * denom,
{
    proof {
        lemma_product_bound(n as int, denom as int, 0xffff_ffff_ffff_ffff, 0xffff);
    }
    (n as u128) * (denom as u128)
}

/// A parameter that is in the curve and not before its end is its end.
proof fn lemma_last_parameter(segments: int, numer: int, denom: int)
    requires
        segments > 0,
        denom > 0,
        0 <= numer <= segments * denom,
        numer / denom >= segments,
    ensures
        numer == segments * denom,
        numer - (segments - 1) * denom == denom,
{
    vstd::arithmetic::div_mod::lemma_fundamental_div_mod(numer, denom);
    assert(numer >= segments * denom) by (nonlinear_arith)
        requires
            numer == denom * (numer / denom) + numer % denom,
            0 <= numer % denom,
            numer / denom >= segments,
            denom > 0,
    ;
    assert((segments - 1) * denom == segments * denom - denom) by (nonlinear_arith);
}

} // verus!
