//! Points, segments and the two geometric primitives of the collision core:
//! rotation of a vertex about a pivot and the crossing test for two segments.
//!
//! Coordinates are fixed-point integers. A position is counted in thousandths
//! of a length unit ([`UNIT`] of them make one unit), a sine or cosine in
//! millionths ([`TRIG_ONE`] stands for 1). All contracts are stated over
//! mathematical integers, so every result is exact.
use vstd::prelude::*;

verus! {

/// Number of position steps in one length unit.
pub const UNIT: i64 = 1000;

/// Half of [`UNIT`].
pub const HALF_UNIT: i64 = 500;

/// The fixed-point value of a sine or cosine equal to 1.
pub const TRIG_ONE: i64 = 1_000_000;

/// Largest magnitude of a coordinate that [`rotate_vertex`] accepts (2^44).
pub const CORNER_LIMIT: i64 = 0x1000_0000_0000;

/// Largest magnitude of a coordinate that [`line_segments_collide`] accepts (2^60).
pub const EDGE_LIMIT: i64 = 0x1000_0000_0000_0000;

/// A pair of coordinates of one numeric type.
#[derive(Copy, PartialEq, Eq, Debug)]
pub struct Vec2<T: Copy> {
    pub x: T,
    pub y: T,
}

impl<T: Copy> Clone for Vec2<T> {
    fn clone(&self) -> (r: Self)
        ensures
            r == *self,
    {
        *self
    }
}

/// Builds the vector with the given components.
pub fn vec2<T: Copy>(x: T, y: T) -> (v: Vec2<T>)
    ensures
        v == (Vec2 { x, y }),
{
    Vec2 { x, y }
}

/// A point of the plane with unbounded integer coordinates.
pub ghost struct Point {
    pub x: int,
    pub y: int,
}

/// A directed segment of the plane, from `start` to `end`.
pub ghost struct Segment {
    pub start: Point,
    pub end: Point,
}

impl View for Vec2<i64> {
    type V = Point;

    open spec fn view(&self) -> Point {
        Point { x: self.x as int, y: self.y as int }
    }
}

/// One boundary segment of a shape, in world coordinates.
#[derive(Clone, Copy, PartialEq, Eq, Debug)]
pub struct Edge {
    pub start: Vec2<i64>,
    pub end: Vec2<i64>,
}

impl View for Edge {
    type V = Segment;

    open spec fn view(&self) -> Segment {
        Segment { start: self.start@, end: self.end@ }
    }
}

/// The segments that a sequence of edges stands for.
pub open spec fn segments_of(edges: Seq<Edge>) -> Seq<Segment> {
    edges.map_values(|e: Edge| e@)
}

/// Whether both coordinates of `p` have a magnitude of at most `limit`.
pub open spec fn point_within(p: Point, limit: int) -> bool {
    &&& -limit <= p.x <= limit
    &&& -limit <= p.y <= limit
}

/// Whether both ends of `s` lie within `limit`.
pub open spec fn segment_within(s: Segment, limit: int) -> bool {
    point_within(s.start, limit) && point_within(s.end, limit)
}

/// `n / TRIG_ONE`, rounded to the nearest integer, a half away from zero.
pub open spec fn trig_scale(n: int) -> int {
    if n >= 0 {
        (n + 500_000) / 1_000_000
    } else {
        -((500_000 - n) / 1_000_000)
    }
}

/// `point` turned about `pivot` by the angle whose sine and cosine are
/// `sin / TRIG_ONE` and `cos / TRIG_ONE`: the offset from the pivot is
/// multiplied by the matrix `[[cos, -sin], [sin, cos]]`, each product sum is
/// rounded back to position steps, and the pivot is added again.
pub open spec fn rotate_point(pivot: Point, sin: int, cos: int, point: Point) -> Point {
    let dx = point.x - pivot.x;
    let dy = point.y - pivot.y;
    Point {
        x: trig_scale(cos * dx - sin * dy) + pivot.x,
        y: trig_scale(sin * dx + cos * dy) + pivot.y,
    }
}

/// The product of two bounded integers is bounded by the product of the bounds.
pub proof fn lemma_product_bound(a: int, b: int, bound_a: int, bound_b: int)
    requires
        -bound_a <= a <= bound_a,
        -bound_b <= b <= bound_b,
    ensures
        -(bound_a * bound_b) <= a * b <= bound_a * bound_b,
{
    assert(-(bound_a * bound_b) <= a * b <= bound_a * bound_b) by (nonlinear_arith)
        requires
            -bound_a <= a <= bound_a,
            -bound_b <= b <= bound_b,
    ;
}

/// Computes [`trig_scale`] on machine integers.
fn scale_trig(n: i128) -> (r: i128)
    requires
        -0x4000_0000_0000_0000_0000_0000 <= n <= 0x4000_0000_0000_0000_0000_0000,
    ensures
        r == trig_scale(n as int),
        n >= 0 ==> 0 <= r * 1_000_000 <= n + 500_000,
        n < 0 ==> n - 500_000 <= r * 1_000_000 <= 0,
{
    if n >= 0 {
        let q: i128 = (n + 500_000) / 1_000_000;
        q
    } else {
        let q: i128 = (500_000 - n) / 1_000_000;
        -q
    }
}

/// Turns `point` about `pivot` by the angle with the given sine and cosine.
/// Both points must lie within [`CORNER_LIMIT`], so that the result fits its
/// type; it then lies within [`EDGE_LIMIT`].
pub fn rotate_vertex(pivot: Vec2<i64>, sin: i32, cos: i32, point: Vec2<i64>) -> (r: Vec2<i64>)
    requires
        point_within(pivot@, CORNER_LIMIT as int),
        point_within(point@, CORNER_LIMIT as int),
    ensures
        r@ == rotate_point(pivot@, sin as int, cos as int, point@),
        point_within(r@, EDGE_LIMIT as int),
{
    let dx: i128 = point.x as i128 - pivot.x as i128;
    let dy: i128 = point.y as i128 - pivot.y as i128;
    let s: i128 = sin as i128;
    let c: i128 = cos as i128;
    proof {
        lemma_product_bound(c as int, dx as int, 0x8000_0000, 0x2000_0000_0000);
        lemma_product_bound(s as int, dy as int, 0x8000_0000, 0x2000_0000_0000);
        lemma_product_bound(s as int, dx as int, 0x8000_0000, 0x2000_0000_0000);
        lemma_product_bound(c as int, dy as int, 0x8000_0000, 0x2000_0000_0000);
    }
    let rx: i128 = scale_trig(c * dx - s * dy);
    let ry: i128 = scale_trig(s * dx + c * dy);
    let x: i128 = rx + pivot.x as i128;
    let y: i128 = ry + pivot.y as i128;
    Vec2 { x: x as i64, y: y as i64 }
}

/// Whether the fraction `n / d` lies in the closed interval from 0 to 1,
/// for a denominator other than zero.
pub open spec fn ratio_in_unit_interval(n: int, d: int) -> bool {
    if d > 0 {
        0 <= n <= d
    } else {
        d <= n <= 0
    }
}

/// Numerator of the parameter at which the line through `a` meets the line
/// through `b`, measured along `a`.
pub open spec fn crossing_numerator_a(a: Segment, b: Segment) -> int {
    (b.end.x - b.start.x) * (a.start.y - b.start.y) - (b.end.y - b.start.y) * (a.start.x
        - b.start.x)
}

/// Numerator of the same meeting point's parameter measured along `b`.
pub open spec fn crossing_numerator_b(a: Segment, b: Segment) -> int {
    (a.end.x - a.start.x) * (a.start.y - b.start.y) - (a.end.y - a.start.y) * (a.start.x
        - b.start.x)
}

/// Common denominator of both parameters; zero exactly when the two
/// directions are parallel.
pub open spec fn crossing_denominator(a: Segment, b: Segment) -> int {
    (b.end.y - b.start.y) * (a.end.x - a.start.x) - (b.end.x - b.start.x) * (a.end.y
        - a.start.y)
}

/// Whether segments `a` and `b` cross: their directions are not parallel and
/// the meeting point of their lines has a parameter between 0 and 1 on each
/// of them, ends included. Parallel segments never cross, collinear ones
/// included.
pub open spec fn segments_intersect(a: Segment, b: Segment) -> bool {
    let d = crossing_denominator(a, b);
    &&& d != 0
    &&& ratio_in_unit_interval(crossing_numerator_a(a, b), d)
    &&& ratio_in_unit_interval(crossing_numerator_b(a, b), d)
}

/// The crossing test does not depend on the order of its two segments.
pub proof fn lemma_segments_intersect_symmetric(a: Segment, b: Segment)
    ensures
        segments_intersect(a, b) == segments_intersect(b, a),
{
    let (ax, ay) = (a.end.x - a.start.x, a.end.y - a.start.y);
    let (bx, by) = (b.end.x - b.start.x, b.end.y - b.start.y);
    let (wx, wy) = (a.start.x - b.start.x, a.start.y - b.start.y);
    assert(crossing_numerator_a(b, a) == -crossing_numerator_b(a, b)) by {
        assert(ax * (-wy) - ay * (-wx) == -(ax * wy - ay * wx)) by (nonlinear_arith);
    }
    assert(crossing_numerator_b(b, a) == -crossing_numerator_a(a, b)) by {
        assert(bx * (-wy) - by * (-wx) == -(bx * wy - by * wx)) by (nonlinear_arith);
    }
    assert(crossing_denominator(b, a) == -crossing_denominator(a, b)) by {
        assert(ay * bx - ax * by == -(by * ax - bx * ay)) by (nonlinear_arith);
    }
}

/// Whether the segment from `p0` to `p1` crosses the segment from `p2` to `p3`.
/// The four points must lie within [`EDGE_LIMIT`], so that every product
/// fits the widest machine integer.
pub fn line_segments_collide(p0: Vec2<i64>, p1: Vec2<i64>, p2: Vec2<i64>, p3: Vec2<i64>) -> (r:
    bool)
    requires
        point_within(p0@, EDGE_LIMIT as int),
        point_within(p1@, EDGE_LIMIT as int),
        point_within(p2@, EDGE_LIMIT as int),
        point_within(p3@, EDGE_LIMIT as int),
    ensures
        r == segments_intersect(
            Segment { start: p0@, end: p1@ },
            Segment { start: p2@, end: p3@ },
        ),
{
    let ax: i128 = p1.x as i128 - p0.x as i128;
    let ay: i128 = p1.y as i128 - p0.y as i128;
    let bx: i128 = p3.x as i128 - p2.x as i128;
    let by: i128 = p3.y as i128 - p2.y as i128;
    let wx: i128 = p0.x as i128 - p2.x as i128;
    let wy: i128 = p0.y as i128 - p2.y as i128;
    proof {
        let bound: int = 0x2000_0000_0000_0000;
        lemma_product_bound(bx as int, wy as int, bound, bound);
        lemma_product_bound(by as int, wx as int, bound, bound);
        lemma_product_bound(ax as int, wy as int, bound, bound);
        lemma_product_bound(ay as int, wx as int, bound, bound);
        lemma_product_bound(by as int, ax as int, bound, bound);
        lemma_product_bound(bx as int, ay as int, bound, bound);
        assert(bound * bound == 0x400_0000_0000_0000_0000_0000_0000_0000);
    }
    let t_a: i128 = bx * wy - by * wx;
    let t_b: i128 = ax * wy - ay * wx;
    let denominator: i128 = by * ax - bx * ay;

    if t_a == 0 && t_b == 0 && denominator == 0 {
        return false;
    }
    if denominator == 0 {
        return false;
    }
    if denominator > 0 {
        0 <= t_a && t_a <= denominator && 0 <= t_b && t_b <= denominator
    } else {
        denominator <= t_a && t_a <= 0 && denominator <= t_b && t_b <= 0
    }
}

} // verus!
