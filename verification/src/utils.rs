//! Shapes, collision bodies and elements, and the boundary of a body as a
//! sequence of edges.
use crate::geometry::{
    rotate_point, rotate_vertex, segment_within, segments_of, trig_scale, Edge, Point, Segment,
    Vec2, EDGE_LIMIT, HALF_UNIT, TRIG_ONE, UNIT,
};
use std::collections::HashSet;
use vstd::prelude::*;

verus! {

/// The outline of a collision body.
#[derive(Clone, Copy, PartialEq, Eq, Debug, Structural)]
pub enum CollisionShape {
    RECT,
    CIRCLE,
}

/// A rotation: the angle in thousandths of a degree, together with its sine
/// and cosine in millionths. The three are taken as given; a body with
/// `degrees == 0` is never turned, whatever the other two hold.
#[derive(Clone, Copy, PartialEq, Eq, Debug, Structural)]
pub struct Rotation {
    pub degrees: i32,
    pub sin: i32,
    pub cos: i32,
}

impl Rotation {
    /// The rotation by no angle at all.
    pub open spec fn spec_zero() -> Rotation {
        Rotation { degrees: 0, sin: 0, cos: 1_000_000 }
    }

    /// The rotation by no angle at all.
    #[verifier::when_used_as_spec(spec_zero)]
    pub fn zero() -> (r: Rotation)
        ensures
            r == Self::spec_zero(),
    {
        Rotation { degrees: 0, sin: 0, cos: 1_000_000 }
    }
}

/// What a collision body is: its shape, its size in whole units, its offset
/// from the owning element, its rotation and its group tags.
pub ghost struct CollisionBodyView {
    pub shape: CollisionShape,
    pub dimensions: Vec2<i32>,
    pub groups: Set<i32>,
    pub pos: Vec2<i32>,
    pub rotation: Rotation,
}

/// The world position of a body's top-left corner: the owning element's
/// position plus the body's own offset.
pub open spec fn world_origin(parent: Vec2<i32>, pos: Vec2<i32>) -> Point {
    Point { x: parent.x + pos.x, y: parent.y + pos.y }
}

/// The corners of the axis-aligned box at `origin`: top-left, top-right,
/// bottom-right, bottom-left.
pub open spec fn rect_corners(origin: Point, dimensions: Vec2<i32>) -> Seq<Point> {
    let right = origin.x + dimensions.x * UNIT;
    let bottom = origin.y + dimensions.y * UNIT;
    seq![
        Point { x: origin.x, y: origin.y },
        Point { x: right, y: origin.y },
        Point { x: right, y: bottom },
        Point { x: origin.x, y: bottom },
    ]
}

/// The centre of the box at `origin`.
pub open spec fn rect_pivot(origin: Point, dimensions: Vec2<i32>) -> Point {
    Point { x: origin.x + dimensions.x * HALF_UNIT, y: origin.y + dimensions.y * HALF_UNIT }
}

/// The closed outline through four corners: top, right, bottom, left.
pub open spec fn outline(corners: Seq<Point>) -> Seq<Segment>
    recommends
        corners.len() == 4,
{
    seq![
        Segment { start: corners[0], end: corners[1] },
        Segment { start: corners[1], end: corners[2] },
        Segment { start: corners[2], end: corners[3] },
        Segment { start: corners[3], end: corners[0] },
    ]
}

/// The four edges of a rectangle that is not rotated.
pub open spec fn rect_edges(origin: Point, dimensions: Vec2<i32>) -> Seq<Segment> {
    outline(rect_corners(origin, dimensions))
}

/// The four edges of a rectangle turned about its centre: every corner of
/// the unrotated box is rotated, and the outline runs through the results.
pub open spec fn rotated_rect_edges(origin: Point, dimensions: Vec2<i32>, sin: int, cos: int) -> Seq<
    Segment,
> {
    let pivot = rect_pivot(origin, dimensions);
    outline(
        rect_corners(origin, dimensions).map_values(|p: Point| rotate_point(pivot, sin, cos, p)),
    )
}

/// The two edges that stand for a circle or ellipse: the horizontal radius
/// from the centre to the middle of the right side, and a marker edge of
/// length zero at the world's origin.
pub open spec fn circle_edges(origin: Point, dimensions: Vec2<i32>) -> Seq<Segment> {
    let centre = rect_pivot(origin, dimensions);
    seq![
        Segment { start: centre, end: Point { x: origin.x + dimensions.x * UNIT, y: centre.y } },
        Segment { start: Point { x: 0, y: 0 }, end: Point { x: 0, y: 0 } },
    ]
}

/// The boundary of `body` when its element stands at `parent`.
pub open spec fn body_edges(body: CollisionBodyView, parent: Vec2<i32>) -> Seq<Segment> {
    let origin = world_origin(parent, body.pos);
    match body.shape {
        CollisionShape::RECT => if body.rotation.degrees == 0 {
            rect_edges(origin, body.dimensions)
        } else {
            rotated_rect_edges(
                origin,
                body.dimensions,
                body.rotation.sin as int,
                body.rotation.cos as int,
            )
        },
        CollisionShape::CIRCLE => circle_edges(origin, body.dimensions),
    }
}

/// A shape attached to an element.
pub struct CollisionBody {
    shape: CollisionShape,
    dimensions: Vec2<i32>,
    collision_groups: HashSet<i32>,
    pos: Vec2<i32>,
    rotation: Rotation,
}

impl View for CollisionBody {
    type V = CollisionBodyView;

    closed spec fn view(&self) -> CollisionBodyView {
        CollisionBodyView {
            shape: self.shape,
            dimensions: self.dimensions,
            groups: self.collision_groups@,
            pos: self.pos,
            rotation: self.rotation,
        }
    }
}

fn copy_groups(groups: &HashSet<i32>) -> (r: HashSet<i32>)
    ensures
        r@ == groups@,
{
    broadcast use vstd::std_specs::hash::group_hash_axioms;

    let mut out: HashSet<i32> = HashSet::new();
    for g in it: groups.iter()
        invariant
            it.seq().unref().to_set() == groups@,
            forall|x: i32|
                out@.contains(x) <==> exists|k: int|
                    0 <= k < it.index() && #[trigger] it.seq().unref()[k] == x,
    {
        assert(*g == it.seq().unref()[it.index() as int]);
        out.insert(*g);
    }
    assert(out@ =~= groups@);
    out
}

impl Clone for CollisionBody {
    fn clone(&self) -> (r: Self)
        ensures
            r@ == self@,
    {
        CollisionBody {
            shape: self.shape,
            dimensions: self.dimensions,
            collision_groups: copy_groups(&self.collision_groups),
            pos: self.pos,
            rotation: self.rotation,
        }
    }
}

impl CollisionBody {
    /// A body of the given shape and size at offset `(x, y)`. Without a
    /// rotation it is not rotated; without a group it carries no tag.
    pub fn new(
        shape: CollisionShape,
        width: i32,
        height: i32,
        x: i32,
        y: i32,
        rotation: Option<Rotation>,
        collision_group: Option<i32>,
    ) -> (r: Self)
        ensures
            r@ == (CollisionBodyView {
                shape,
                dimensions: Vec2 { x: width, y: height },
                groups: match collision_group {
                    Some(g) => set![g],
                    None => Set::empty(),
                },
                pos: Vec2 { x, y },
                rotation: match rotation {
                    Some(given) => given,
                    None => Rotation::zero(),
                },
            }),
    {
        broadcast use vstd::std_specs::hash::group_hash_axioms;

        let mut collision_groups: HashSet<i32> = HashSet::new();
        if let Some(group) = collision_group {
            collision_groups.insert(group);
        }
        let r = Self {
            shape,
            dimensions: Vec2 { x: width, y: height },
            pos: Vec2 { x, y },
            rotation: match rotation {
                Some(given) => given,
                None => Rotation::zero(),
            },
            collision_groups,
        };
        assert(r@.groups =~= match collision_group {
            Some(g) => set![g],
            None => Set::empty(),
        });
        r
    }

    pub fn get_shape(&self) -> (r: CollisionShape)
        ensures
            r == self@.shape,
    {
        self.shape
    }

    /// Width and height in whole units.
    pub fn get_dimensions(&self) -> (r: Vec2<i32>)
        ensures
            r == self@.dimensions,
    {
        self.dimensions
    }

    /// The offset from the owning element's position.
    pub fn get_pos(&self) -> (r: Vec2<i32>)
        ensures
            r == self@.pos,
    {
        self.pos
    }

    pub fn get_rotation(&self) -> (r: Rotation)
        ensures
            r == self@.rotation,
    {
        self.rotation
    }

    /// Adds `group` to the body's tags.
    pub fn add_collision_group(&mut self, group: i32)
        ensures
            final(self)@ == (CollisionBodyView {
                groups: old(self)@.groups.insert(group),
                ..old(self)@
            }),
    {
        broadcast use vstd::std_specs::hash::group_hash_axioms;

        self.collision_groups.insert(group);
    }

    /// Takes `group` out of the body's tags.
    pub fn remove_collision_group(&mut self, group: i32)
        ensures
            final(self)@ == (CollisionBodyView {
                groups: old(self)@.groups.remove(group),
                ..old(self)@
            }),
    {
        broadcast use vstd::std_specs::hash::group_hash_axioms;

        self.collision_groups.remove(&group);
    }

    /// Whether `group` is among the body's tags. The body is left as it was.
    pub fn check_collision_group(&mut self, group: i32) -> (r: bool)
        ensures
            r == old(self)@.groups.contains(group),
            final(self)@ == old(self)@,
    {
        broadcast use vstd::std_specs::hash::group_hash_axioms;

        self.collision_groups.contains(&group)
    }

    pub fn set_rotation(&mut self, rotation: Rotation)
        ensures
            final(self)@ == (CollisionBodyView { rotation, ..old(self)@ }),
    {
        self.rotation = rotation;
    }

    pub fn get_collision_groups(&self) -> (r: &HashSet<i32>)
        ensures
            r@ == self@.groups,
    {
        &self.collision_groups
    }

    /// The body's boundary in world coordinates when its element stands at
    /// `parent_pos`: four edges for a rectangle, two for a circle.
    pub fn get_edges(&self, parent_pos: Vec2<i32>) -> (edges: Vec<Edge>)
        ensures
            segments_of(edges@) == body_edges(self@, parent_pos),
            forall|i: int|
                0 <= i < edges.len() ==> segment_within(#[trigger] edges[i]@, EDGE_LIMIT as int),
    {
        let left: i64 = parent_pos.x as i64 + self.pos.x as i64;
        let top: i64 = parent_pos.y as i64 + self.pos.y as i64;
        let right: i64 = left + self.dimensions.x as i64 * UNIT;
        let bottom: i64 = top + self.dimensions.y as i64 * UNIT;
        let centre_x: i64 = left + self.dimensions.x as i64 * HALF_UNIT;
        let centre_y: i64 = top + self.dimensions.y as i64 * HALF_UNIT;
        let ghost origin = world_origin(parent_pos, self.pos);
        match self.shape {
            CollisionShape::RECT => {
                let top_left = Vec2 { x: left, y: top };
                let top_right = Vec2 { x: right, y: top };
                let bottom_right = Vec2 { x: right, y: bottom };
                let bottom_left = Vec2 { x: left, y: bottom };
                if self.rotation.degrees == 0 {
                    let edges = vec![
                        Edge { start: top_left, end: top_right },
                        Edge { start: top_right, end: bottom_right },
                        Edge { start: bottom_right, end: bottom_left },
                        Edge { start: bottom_left, end: top_left },
                    ];
                    assert(segments_of(edges@) =~= rect_edges(origin, self.dimensions));
                    return edges;
                }
                let sin = self.rotation.sin;
                let cos = self.rotation.cos;
                let pivot = Vec2 { x: centre_x, y: centre_y };
                let a = rotate_vertex(pivot, sin, cos, top_left);
                let b = rotate_vertex(pivot, sin, cos, top_right);
                let c = rotate_vertex(pivot, sin, cos, bottom_right);
                let d = rotate_vertex(pivot, sin, cos, bottom_left);
                let edges = vec![
                    Edge { start: a, end: b },
                    Edge { start: b, end: c },
                    Edge { start: c, end: d },
                    Edge { start: d, end: a },
                ];
                assert(segments_of(edges@) =~= rotated_rect_edges(
                    origin,
                    self.dimensions,
                    sin as int,
                    cos as int,
                ));
                edges
            },
            CollisionShape::CIRCLE => {
                let edges = vec![
                    Edge {
                        start: Vec2 { x: centre_x, y: centre_y },
                        end: Vec2 { x: right, y: centre_y },
                    },
                    Edge { start: Vec2 { x: 0, y: 0 }, end: Vec2 { x: 0, y: 0 } },
                ];
                assert(segments_of(edges@) =~= circle_edges(origin, self.dimensions));
                edges
            },
        }
    }
}

/// What an element is: its bodies, in the order they were attached, and its
/// world position.
pub ghost struct ElementView {
    pub bodies: Seq<CollisionBodyView>,
    pub pos: Vec2<i32>,
}

/// What a sequence of bodies holds, body by body.
pub open spec fn body_views(bodies: Seq<CollisionBody>) -> Seq<CollisionBodyView> {
    bodies.map_values(|b: CollisionBody| b@)
}

/// A positioned owner of collision bodies.
pub struct Element {
    collision_body: Vec<CollisionBody>,
    pos: Vec2<i32>,
}

impl View for Element {
    type V = ElementView;

    closed spec fn view(&self) -> ElementView {
        ElementView { bodies: body_views(self.collision_body@), pos: self.pos }
    }
}

impl Default for Element {
    /// The element without bodies at the world's origin.
    fn default() -> (r: Self)
        ensures
            r@ == (ElementView { bodies: Seq::empty(), pos: Vec2 { x: 0, y: 0 } }),
    {
        let r = Self { collision_body: Vec::new(), pos: Vec2 { x: 0, y: 0 } };
        assert(r@.bodies =~= Seq::empty());
        r
    }
}

impl Clone for Element {
    fn clone(&self) -> (r: Self)
        ensures
            r@ == self@,
    {
        Element { collision_body: self.get_collision_bodies(), pos: self.pos }
    }
}

impl Element {
    pub fn get_pos(&self) -> (r: Vec2<i32>)
        ensures
            r == self@.pos,
    {
        self.pos
    }

    /// A copy of the element's bodies, in order.
    pub fn get_collision_bodies(&self) -> (r: Vec<CollisionBody>)
        ensures
            body_views(r@) == self@.bodies,
    {
        let mut out: Vec<CollisionBody> = Vec::new();
        let mut i: usize = 0;
        while i < self.collision_body.len()
            invariant
                i <= self.collision_body.len(),
                out.len() == i,
                forall|k: int| 0 <= k < i ==> (#[trigger] out[k])@ == self.collision_body[k]@,
            decreases self.collision_body.len() - i,
        {
            out.push(self.collision_body[i].clone());
            i += 1;
        }
        assert(body_views(out@) =~= body_views(self.collision_body@));
        out
    }

    /// The element's bodies, borrowed.
    pub(crate) fn bodies(&self) -> (r: &Vec<CollisionBody>)
        ensures
            body_views(r@) == self@.bodies,
    {
        &self.collision_body
    }

    /// An element at `(x, y)` that owns `collision_shape`, if one is given.
    pub fn new(collision_shape: Option<CollisionBody>, x: i32, y: i32) -> (r: Self)
        ensures
            r@ == (ElementView {
                bodies: match collision_shape {
                    Some(body) => seq![body@],
                    None => Seq::empty(),
                },
                pos: Vec2 { x, y },
            }),
    {
        let mut collision_body: Vec<CollisionBody> = Vec::new();
        let ghost given = collision_shape;
        if let Some(body) = collision_shape {
            collision_body.push(body);
        }
        let r = Self { collision_body, pos: Vec2 { x, y } };
        assert(r@.bodies =~= match given {
            Some(body) => seq![body@],
            None => Seq::empty(),
        });
        r
    }

    /// Attaches `body` after the bodies that the element already owns.
    pub fn add_collision_body(&mut self, body: CollisionBody)
        ensures
            final(self)@ == (ElementView { bodies: old(self)@.bodies.push(body@), ..old(self)@ }),
    {
        self.collision_body.push(body);
        assert(body_views(self.collision_body@) =~= body_views(old(self).collision_body@).push(
            body@,
        ));
    }
}

/// Adding a tag makes it a member; taking it out again makes it none.
pub proof fn lemma_group_round_trip(body: CollisionBodyView, group: i32)
    ensures
        ({
            let added = CollisionBodyView { groups: body.groups.insert(group), ..body };
            let removed = CollisionBodyView { groups: added.groups.remove(group), ..added };
            added.groups.contains(group) && !removed.groups.contains(group)
        }),
{
}

/// Scaling back a multiple of [`TRIG_ONE`] gives the multiplier exactly.
pub proof fn lemma_trig_scale_exact(d: int)
    ensures
        trig_scale(1_000_000 * d) == d,
{
}

/// A rectangle turned by a full turn, or by any angle whose sine is 0 and
/// whose cosine is 1, has exactly the edges of the same rectangle when it is
/// not rotated.
pub proof fn lemma_full_turn_edges(body: CollisionBodyView, parent: Vec2<i32>)
    requires
        body.rotation.sin == 0,
        body.rotation.cos == TRIG_ONE,
    ensures
        body_edges(body, parent) == body_edges(
            CollisionBodyView { rotation: Rotation::zero(), ..body },
            parent,
        ),
{
    let origin = world_origin(parent, body.pos);
    let pivot = rect_pivot(origin, body.dimensions);
    let corners = rect_corners(origin, body.dimensions);
    assert forall|p: Point| rotate_point(pivot, 0, 1_000_000, p) == p by {
        let dx = p.x - pivot.x;
        let dy = p.y - pivot.y;
        lemma_trig_scale_exact(dx);
        lemma_trig_scale_exact(dy);
        assert(1_000_000 * dx - 0 * dy == 1_000_000 * dx);
        assert(0 * dx + 1_000_000 * dy == 1_000_000 * dy);
    }
    assert(corners.map_values(|p: Point| rotate_point(pivot, 0, 1_000_000, p)) =~= corners);
}

} // verus!
