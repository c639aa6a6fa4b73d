//! The collision query: which bodies may collide at all, and whether the
//! boundaries of two elements cross.
use crate::engine::Engine;
use crate::geometry::{
    lemma_segments_intersect_symmetric, line_segments_collide, segment_within, segments_intersect,
    segments_of, Edge, Segment, Vec2, EDGE_LIMIT,
};
use crate::utils::{
    body_edges, body_views, CollisionBody, CollisionBodyView, CollisionShape, Element, ElementView,
};
use std::collections::HashSet;
use vstd::prelude::*;

verus! {

/// Whether bodies with these tags are tested against each other: they share
/// a tag, or neither has any. A body without tags counts as a member of one
/// default group, which no tag names, so untagged bodies meet each other and
/// nothing else.
pub open spec fn groups_eligible(a: Set<i32>, b: Set<i32>) -> bool {
    ||| a.is_empty() && b.is_empty()
    ||| exists|g: i32| a.contains(g) && b.contains(g)
}

/// The groups that a body with the tags `tags` belongs to: the group of each
/// tag, or the default group alone, written `None`, when it has no tag.
pub open spec fn memberships(tags: Set<i32>) -> Set<Option<i32>> {
    if tags.is_empty() {
        set![None]
    } else {
        Set::new(|m: Option<i32>| m is Some && tags.contains(m->Some_0))
    }
}

/// Whether edge `i` of `a` crosses edge `j` of `b`.
pub open spec fn crosses_at(a: Seq<Segment>, b: Seq<Segment>, i: int, j: int) -> bool {
    &&& 0 <= i < a.len()
    &&& 0 <= j < b.len()
    &&& segments_intersect(a[i], b[j])
}

/// Whether any edge of `a` crosses any edge of `b`.
pub open spec fn edges_cross(a: Seq<Segment>, b: Seq<Segment>) -> bool {
    exists|i: int, j: int| crosses_at(a, b, i, j)
}

/// Whether body `a` of an element at `a_pos` collides with body `b` of an
/// element at `b_pos`: their tags make them eligible, both are rectangles,
/// and their boundaries cross. A pair with a circle in it never collides.
pub open spec fn body_pair_collides(
    a: CollisionBodyView,
    a_pos: Vec2<i32>,
    b: CollisionBodyView,
    b_pos: Vec2<i32>,
) -> bool {
    &&& groups_eligible(a.groups, b.groups)
    &&& a.shape == CollisionShape::RECT
    &&& b.shape == CollisionShape::RECT
    &&& edges_cross(body_edges(a, a_pos), body_edges(b, b_pos))
}

/// Whether body `i` of `a` collides with body `j` of `b`.
pub open spec fn collides_at(a: ElementView, b: ElementView, i: int, j: int) -> bool {
    &&& 0 <= i < a.bodies.len()
    &&& 0 <= j < b.bodies.len()
    &&& body_pair_collides(a.bodies[i], a.pos, b.bodies[j], b.pos)
}

/// Whether two elements collide: some body of the one collides with some
/// body of the other.
pub open spec fn element_pair_collides(a: ElementView, b: ElementView) -> bool {
    exists|i: int, j: int| collides_at(a, b, i, j)
}

/// What is reported when the first name is unknown and the second is known.
pub open spec fn first_missing_message() -> Seq<char> {
    "Element 1 doesn't exist"@
}

/// What is reported when the second name is unknown and the first is known.
pub open spec fn second_missing_message() -> Seq<char> {
    "Element 2 doesn't exist"@
}

/// What is reported when both names are unknown.
pub open spec fn both_missing_message() -> Seq<char> {
    "Both elements don't exist"@
}

/// Whether bodies with the tag sets `a` and `b` are tested against each other.
pub fn collision_groups_eligible(a: &HashSet<i32>, b: &HashSet<i32>) -> (r: bool)
    ensures
        r == groups_eligible(a@, b@),
{
    broadcast use vstd::std_specs::hash::group_hash_axioms;

    if a.is_empty() {
        return b.is_empty();
    }
    let mut shared = false;
    for g in it: a.iter()
        invariant
            it.seq().unref().to_set() == a@,
            shared == exists|k: int|
                0 <= k < it.index() && b@.contains(#[trigger] it.seq().unref()[k]),
    {
        assert(*g == it.seq().unref()[it.index() as int]);
        if b.contains(g) {
            shared = true;
        }
    }
    shared
}

/// Whether any of the edges `a` crosses any of the edges `b`. All edges must
/// lie within [`EDGE_LIMIT`], as those of a body do.
pub fn edges_collide(a: &Vec<Edge>, b: &Vec<Edge>) -> (r: bool)
    requires
        forall|i: int| 0 <= i < a.len() ==> segment_within(#[trigger] a[i]@, EDGE_LIMIT as int),
        forall|j: int| 0 <= j < b.len() ==> segment_within(#[trigger] b[j]@, EDGE_LIMIT as int),
    ensures
        r == edges_cross(segments_of(a@), segments_of(b@)),
{
    let ghost sa = segments_of(a@);
    let ghost sb = segments_of(b@);
    let mut found = false;
    let mut i: usize = 0;
    while i < a.len()
        invariant
            i <= a.len(),
            sa == segments_of(a@),
            sb == segments_of(b@),
            forall|k: int| 0 <= k < a.len() ==> segment_within(#[trigger] a[k]@, EDGE_LIMIT as int),
            forall|k: int| 0 <= k < b.len() ==> segment_within(#[trigger] b[k]@, EDGE_LIMIT as int),
            found == exists|ii: int, jj: int| ii < i && crosses_at(sa, sb, ii, jj),
        decreases a.len() - i,
    {
        let mut j: usize = 0;
        while j < b.len()
            invariant
                i < a.len(),
                j <= b.len(),
                sa == segments_of(a@),
                sb == segments_of(b@),
                forall|k: int|
                    0 <= k < a.len() ==> segment_within(#[trigger] a[k]@, EDGE_LIMIT as int),
                forall|k: int|
                    0 <= k < b.len() ==> segment_within(#[trigger] b[k]@, EDGE_LIMIT as int),
                found == exists|ii: int, jj: int|
                    (ii < i || (ii == i && jj < j)) && crosses_at(sa, sb, ii, jj),
            decreases b.len() - j,
        {
            let p = a[i];
            let q = b[j];
            assert(segment_within(a[i as int]@, EDGE_LIMIT as int));
            assert(segment_within(b[j as int]@, EDGE_LIMIT as int));
            if line_segments_collide(p.start, p.end, q.start, q.end) {
                assert(crosses_at(sa, sb, i as int, j as int));
                found = true;
            }
            j += 1;
        }
        i += 1;
    }
    found
}

/// Whether body `a` of an element at `a_pos` collides with body `b` of an
/// element at `b_pos`.
pub fn bodies_collide(a: &CollisionBody, a_pos: Vec2<i32>, b: &CollisionBody, b_pos: Vec2<i32>) -> (r:
    bool)
    ensures
        r == body_pair_collides(a@, a_pos, b@, b_pos),
{
    if !collision_groups_eligible(a.get_collision_groups(), b.get_collision_groups()) {
        return false;
    }
    match (a.get_shape(), b.get_shape()) {
        (CollisionShape::RECT, CollisionShape::RECT) => {
            let a_edges = a.get_edges(a_pos);
            let b_edges = b.get_edges(b_pos);
            edges_collide(&a_edges, &b_edges)
        },
        (CollisionShape::CIRCLE, CollisionShape::CIRCLE) => false,
        (CollisionShape::RECT, CollisionShape::CIRCLE)
        | (CollisionShape::CIRCLE, CollisionShape::RECT) => false,
    }
}

/// Whether elements `a` and `b` collide.
pub fn elements_collide(a: &Element, b: &Element) -> (r: bool)
    ensures
        r == element_pair_collides(a@, b@),
{
    let a_bodies = a.bodies();
    let b_bodies = b.bodies();
    let a_pos = a.get_pos();
    let b_pos = b.get_pos();
    let mut collides = false;
    let mut i: usize = 0;
    while i < a_bodies.len()
        invariant
            i <= a_bodies.len(),
            body_views(a_bodies@) == a@.bodies,
            body_views(b_bodies@) == b@.bodies,
            a_pos == a@.pos,
            b_pos == b@.pos,
            collides == exists|ii: int, jj: int| ii < i && collides_at(a@, b@, ii, jj),
        decreases a_bodies.len() - i,
    {
        let mut j: usize = 0;
        while j < b_bodies.len()
            invariant
                i < a_bodies.len(),
                j <= b_bodies.len(),
                body_views(a_bodies@) == a@.bodies,
                body_views(b_bodies@) == b@.bodies,
                a_pos == a@.pos,
                b_pos == b@.pos,
                collides == exists|ii: int, jj: int|
                    (ii < i || (ii == i && jj < j)) && collides_at(a@, b@, ii, jj),
            decreases b_bodies.len() - j,
        {
            assert(a@.bodies[i as int] == a_bodies[i as int]@);
            assert(b@.bodies[j as int] == b_bodies[j as int]@);
            if bodies_collide(&a_bodies[i], a_pos, &b_bodies[j], b_pos) {
                assert(collides_at(a@, b@, i as int, j as int));
                collides = true;
            }
            j += 1;
        }
        i += 1;
    }
    collides
}

/// Looks up both names in `engine` and says whether the two elements
/// collide. An unknown name is an error, whose message tells whether the
/// first name, the second, or both were unknown.
pub fn get_collision_between_two_colliders(
    collider_a: String,
    collider_b: String,
    engine: &Engine,
) -> (r: Result<bool, String>)
    ensures
        match r {
            Ok(collides) => {
                &&& engine@.elements.contains_key(collider_a@)
                &&& engine@.elements.contains_key(collider_b@)
                &&& collides == element_pair_collides(
                    engine@.elements[collider_a@],
                    engine@.elements[collider_b@],
                )
            },
            Err(message) => {
                let has_a = engine@.elements.contains_key(collider_a@);
                let has_b = engine@.elements.contains_key(collider_b@);
                &&& !(has_a && has_b)
                &&& message@ == if has_b {
                    first_missing_message()
                } else if has_a {
                    second_missing_message()
                } else {
                    both_missing_message()
                }
            },
        },
{
    match (engine.element_ref(&collider_a), engine.element_ref(&collider_b)) {
        (Some(a), Some(b)) => Ok(elements_collide(a, b)),
        (None, Some(_)) => Err("Element 1 doesn't exist".to_owned()),
        (Some(_), None) => Err("Element 2 doesn't exist".to_owned()),
        (None, None) => Err("Both elements don't exist".to_owned()),
    }
}

/// Eligibility does not depend on the order of the two tag sets.
pub proof fn lemma_groups_eligible_symmetric(a: Set<i32>, b: Set<i32>)
    ensures
        groups_eligible(a, b) == groups_eligible(b, a),
{
    if exists|g: i32| a.contains(g) && b.contains(g) {
        let g = choose|g: i32| a.contains(g) && b.contains(g);
        assert(b.contains(g) && a.contains(g));
    }
    if exists|g: i32| b.contains(g) && a.contains(g) {
        let g = choose|g: i32| b.contains(g) && a.contains(g);
        assert(a.contains(g) && b.contains(g));
    }
}

/// Two bodies are eligible exactly when they belong to a common group.
pub proof fn lemma_eligible_iff_memberships_meet(a: Set<i32>, b: Set<i32>)
    ensures
        groups_eligible(a, b) <==> exists|m: Option<i32>|
            memberships(a).contains(m) && memberships(b).contains(m),
{
    if groups_eligible(a, b) {
        if a.is_empty() && b.is_empty() {
            assert(memberships(a).contains(None) && memberships(b).contains(None));
        } else {
            let g = choose|g: i32| a.contains(g) && b.contains(g);
            assert(!a.is_empty() && !b.is_empty());
            assert(memberships(a).contains(Some(g)) && memberships(b).contains(Some(g)));
        }
    }
    if exists|m: Option<i32>| memberships(a).contains(m) && memberships(b).contains(m) {
        let m = choose|m: Option<i32>| memberships(a).contains(m) && memberships(b).contains(m);
        if a.is_empty() {
            assert(m is None);
            assert(b.is_empty());
        } else {
            assert(m is Some);
            assert(!b.is_empty());
            assert(a.contains(m->Some_0) && b.contains(m->Some_0));
        }
    }
}

/// Whether two boundaries cross does not depend on their order.
pub proof fn lemma_edges_cross_symmetric(a: Seq<Segment>, b: Seq<Segment>)
    ensures
        edges_cross(a, b) == edges_cross(b, a),
{
    assert forall|i: int, j: int| crosses_at(a, b, i, j) == crosses_at(b, a, j, i) by {
        if 0 <= i < a.len() && 0 <= j < b.len() {
            lemma_segments_intersect_symmetric(a[i], b[j]);
        }
    }
    if edges_cross(a, b) {
        let (i, j) = choose|i: int, j: int| crosses_at(a, b, i, j);
        assert(crosses_at(b, a, j, i));
    }
    if edges_cross(b, a) {
        let (j, i) = choose|j: int, i: int| crosses_at(b, a, j, i);
        assert(crosses_at(a, b, i, j));
    }
}

/// Collision is symmetric: two elements collide in one order exactly when
/// they collide in the other, whatever their shapes, rotations and tags.
pub proof fn lemma_collision_symmetric(a: ElementView, b: ElementView)
    ensures
        element_pair_collides(a, b) == element_pair_collides(b, a),
{
    assert forall|i: int, j: int| collides_at(a, b, i, j) == collides_at(b, a, j, i) by {
        if 0 <= i < a.bodies.len() && 0 <= j < b.bodies.len() {
            lemma_groups_eligible_symmetric(a.bodies[i].groups, b.bodies[j].groups);
            lemma_edges_cross_symmetric(
                body_edges(a.bodies[i], a.pos),
                body_edges(b.bodies[j], b.pos),
            );
        }
    }
    if element_pair_collides(a, b) {
        let (i, j) = choose|i: int, j: int| collides_at(a, b, i, j);
        assert(collides_at(b, a, j, i));
    }
    if element_pair_collides(b, a) {
        let (j, i) = choose|j: int, i: int| collides_at(b, a, j, i);
        assert(collides_at(a, b, i, j));
    }
}

/// Two bodies whose tag sets have no tag in common, and of which at least
/// one carries a tag, do not collide, wherever they are.
pub proof fn lemma_disjoint_groups_never_collide(
    a: CollisionBodyView,
    a_pos: Vec2<i32>,
    b: CollisionBodyView,
    b_pos: Vec2<i32>,
)
    requires
        a.groups.disjoint(b.groups),
        !(a.groups.is_empty() && b.groups.is_empty()),
    ensures
        !body_pair_collides(a, a_pos, b, b_pos),
{
}

/// Two elements do not collide if no body of the one is eligible against
/// any body of the other, however much their boundaries overlap.
pub proof fn lemma_ineligible_elements_never_collide(a: ElementView, b: ElementView)
    requires
        forall|i: int, j: int|
            0 <= i < a.bodies.len() && 0 <= j < b.bodies.len() ==> !groups_eligible(
                #[trigger] a.bodies[i].groups,
                #[trigger] b.bodies[j].groups,
            ),
    ensures
        !element_pair_collides(a, b),
{
    assert forall|i: int, j: int| !collides_at(a, b, i, j) by {
        if 0 <= i < a.bodies.len() && 0 <= j < b.bodies.len() {
            assert(!groups_eligible(a.bodies[i].groups, b.bodies[j].groups));
        }
    }
}

/// A pair of bodies with a circle in it does not collide, wherever the two
/// bodies are and whatever their tags.
pub proof fn lemma_circle_never_collides(
    a: CollisionBodyView,
    a_pos: Vec2<i32>,
    b: CollisionBodyView,
    b_pos: Vec2<i32>,
)
    requires
        a.shape == CollisionShape::CIRCLE || b.shape == CollisionShape::CIRCLE,
    ensures
        !body_pair_collides(a, a_pos, b, b_pos),
{
}

/// An element all of whose bodies are circles collides with no element, on
/// either side of the query.
pub proof fn lemma_circle_element_never_collides(a: ElementView, b: ElementView)
    requires
        forall|i: int| 0 <= i < a.bodies.len() ==> (#[trigger] a.bodies[i]).shape
            == CollisionShape::CIRCLE,
    ensures
        !element_pair_collides(a, b),
        !element_pair_collides(b, a),
{
    assert forall|i: int, j: int| !collides_at(a, b, i, j) by {
        if 0 <= i < a.bodies.len() {
            assert(a.bodies[i].shape == CollisionShape::CIRCLE);
        }
    }
    assert forall|i: int, j: int| !collides_at(b, a, i, j) by {
        if 0 <= j < a.bodies.len() {
            assert(a.bodies[j].shape == CollisionShape::CIRCLE);
        }
    }
}

/// The three messages for unknown names differ from one another, so the
/// message alone tells which names were unknown.
pub proof fn lemma_lookup_messages_distinct()
    ensures
        first_missing_message() != second_missing_message(),
        first_missing_message() != both_missing_message(),
        second_missing_message() != both_missing_message(),
{
    reveal_strlit("Element 1 doesn't exist");
    reveal_strlit("Element 2 doesn't exist");
    reveal_strlit("Both elements don't exist");
    assert(first_missing_message()[8] == '1');
    assert(second_missing_message()[8] == '2');
    assert(first_missing_message().len() == 23);
    assert(second_missing_message().len() == 23);
    assert(both_missing_message().len() == 25);
}

} // verus!
