use collision_core::geometry::{line_segments_collide, vec2};
use collision_core::physics::{
    bodies_collide, collision_groups_eligible, elements_collide,
    get_collision_between_two_colliders,
};
use collision_core::utils::{CollisionBody, CollisionShape, Element, Rotation};
use collision_core::Engine;
use std::collections::HashSet;

fn tagged_rect(x: i32, y: i32, group: i32) -> Element {
    Element::new(
        Some(CollisionBody::new(CollisionShape::RECT, 40, 40, 0, 0, None, Some(group))),
        x,
        y,
    )
}

#[test]
fn basic_collision() {
    let mut engine = Engine::new(320, 240, 300_000, 10_000);
    let mut coll_body = CollisionBody::new(CollisionShape::RECT, 40, 40, 0, 0, None, Some(0));
    let mut coll_body2 = CollisionBody::new(CollisionShape::RECT, 40, 40, 0, 0, None, Some(0));
    coll_body.add_collision_group(1);
    coll_body2.add_collision_group(1);

    engine.create_element("banana".to_owned(), Some(coll_body), 39_900, 0);
    engine.get_element("banana".to_string()).unwrap();
    engine.create_element("abacate".to_owned(), Some(coll_body2), 0, 0);
    engine.get_element("abacate".to_string()).unwrap();

    let collides =
        get_collision_between_two_colliders("banana".to_owned(), "abacate".to_owned(), &engine)
            .unwrap();

    assert_eq!(collides, true);
}

#[test]
fn non_collision_vertical() {
    let mut engine = Engine::new(320, 240, 300_000, 10_000);
    let mut coll_body = CollisionBody::new(CollisionShape::RECT, 40, 40, 0, 0, None, Some(0));
    let mut coll_body2 = CollisionBody::new(CollisionShape::RECT, 40, 40, 0, 0, None, Some(0));
    coll_body.add_collision_group(1);
    coll_body2.add_collision_group(1);

    engine.create_element("banana".to_owned(), Some(coll_body), 41_000, 0);
    engine.get_element("banana".to_string()).unwrap();
    engine.create_element("abacate".to_owned(), Some(coll_body2), 0, 0);
    engine.get_element("abacate".to_string()).unwrap();

    let collides =
        get_collision_between_two_colliders("banana".to_owned(), "abacate".to_owned(), &engine)
            .unwrap();

    assert_eq!(collides, false);
}

#[test]
fn non_collision_horizontal() {
    let mut engine = Engine::new(320, 240, 300_000, 10_000);
    let mut coll_body = CollisionBody::new(CollisionShape::RECT, 40, 40, 0, 0, None, Some(0));
    let mut coll_body2 = CollisionBody::new(CollisionShape::RECT, 40, 40, 0, 0, None, Some(0));
    coll_body.add_collision_group(1);
    coll_body2.add_collision_group(1);

    engine.create_element("banana".to_owned(), Some(coll_body), 0, 41_000);
    engine.get_element("banana".to_string()).unwrap();
    engine.create_element("abacate".to_owned(), Some(coll_body2), 0, 0);
    engine.get_element("abacate".to_string()).unwrap();

    let collides =
        get_collision_between_two_colliders("banana".to_owned(), "abacate".to_owned(), &engine)
            .unwrap();

    assert_eq!(collides, false);
}

#[test]
fn first_name_unknown() {
    let mut engine = Engine::new(320, 240, 300_000, 10_000);
    engine.add_element("abacate".to_owned(), tagged_rect(0, 0, 0));
    let r = get_collision_between_two_colliders("banana".to_owned(), "abacate".to_owned(), &engine);
    assert_eq!(r, Err("Element 1 doesn't exist".to_owned()));
}

#[test]
fn second_name_unknown() {
    let mut engine = Engine::new(320, 240, 300_000, 10_000);
    engine.add_element("banana".to_owned(), tagged_rect(0, 0, 0));
    let r = get_collision_between_two_colliders("banana".to_owned(), "abacate".to_owned(), &engine);
    assert_eq!(r, Err("Element 2 doesn't exist".to_owned()));
}

#[test]
fn both_names_unknown() {
    let engine = Engine::new(320, 240, 300_000, 10_000);
    let r = get_collision_between_two_colliders("banana".to_owned(), "abacate".to_owned(), &engine);
    assert_eq!(r, Err("Both elements don't exist".to_owned()));
}

#[test]
fn one_unknown_name_differs_from_two() {
    let mut engine = Engine::new(320, 240, 300_000, 10_000);
    engine.add_element("banana".to_owned(), tagged_rect(0, 0, 0));
    let one = get_collision_between_two_colliders("banana".to_owned(), "x".to_owned(), &engine);
    let other = get_collision_between_two_colliders("x".to_owned(), "banana".to_owned(), &engine);
    let two = get_collision_between_two_colliders("x".to_owned(), "y".to_owned(), &engine);
    assert!(one.is_err() && other.is_err() && two.is_err());
    assert_ne!(one, two);
    assert_ne!(other, two);
    assert_ne!(one, other);
}

#[test]
fn an_element_collides_with_itself_by_name() {
    let mut engine = Engine::new(320, 240, 300_000, 10_000);
    engine.add_element("banana".to_owned(), tagged_rect(0, 0, 0));
    let r = get_collision_between_two_colliders("banana".to_owned(), "banana".to_owned(), &engine);
    // Every edge is parallel to, or meets at a corner, an edge of the same box.
    assert_eq!(r, Ok(true));
}

#[test]
fn collision_is_symmetric() {
    let cases = [(39_900, 0), (41_000, 0), (0, 41_000), (20_000, 20_000), (40_000, 40_000)];
    for (x, y) in cases {
        let a = tagged_rect(0, 0, 3);
        let b = tagged_rect(x, y, 3);
        assert_eq!(elements_collide(&a, &b), elements_collide(&b, &a));
    }
    let a = tagged_rect(0, 0, 1);
    let b = tagged_rect(20_000, 20_000, 2);
    assert_eq!(elements_collide(&a, &b), elements_collide(&b, &a));
}

#[test]
fn overlapping_rectangles_collide() {
    let a = tagged_rect(0, 0, 3);
    let b = tagged_rect(20_000, 20_000, 3);
    assert!(elements_collide(&a, &b));
}

#[test]
fn disjoint_groups_never_collide() {
    let a = tagged_rect(0, 0, 1);
    let b = tagged_rect(20_000, 20_000, 2);
    assert!(!elements_collide(&a, &b));
}

#[test]
fn untagged_bodies_share_the_default_group() {
    let plain = |x: i32, y: i32| {
        Element::new(Some(CollisionBody::new(CollisionShape::RECT, 40, 40, 0, 0, None, None)), x, y)
    };
    assert!(elements_collide(&plain(0, 0), &plain(20_000, 20_000)));
    assert!(!elements_collide(&plain(0, 0), &tagged_rect(20_000, 20_000, 0)));
    assert!(!elements_collide(&tagged_rect(0, 0, 0), &plain(20_000, 20_000)));
}

#[test]
fn eligibility_of_tag_sets() {
    let set = |tags: &[i32]| -> HashSet<i32> { tags.iter().copied().collect() };
    assert!(collision_groups_eligible(&set(&[]), &set(&[])));
    assert!(!collision_groups_eligible(&set(&[]), &set(&[1])));
    assert!(!collision_groups_eligible(&set(&[1]), &set(&[])));
    assert!(collision_groups_eligible(&set(&[1, 2]), &set(&[2, 3])));
    assert!(!collision_groups_eligible(&set(&[1, 2]), &set(&[3, 4])));
    assert!(collision_groups_eligible(&set(&[-7]), &set(&[-7])));
}

#[test]
fn circles_never_collide() {
    let circle = || CollisionBody::new(CollisionShape::CIRCLE, 40, 40, 0, 0, None, Some(0));
    let rect = || CollisionBody::new(CollisionShape::RECT, 40, 40, 0, 0, None, Some(0));
    let at = vec2(0, 0);
    assert!(!bodies_collide(&circle(), at, &circle(), at));
    assert!(!bodies_collide(&circle(), at, &rect(), vec2(10_000, 10_000)));
    assert!(!bodies_collide(&rect(), vec2(10_000, 10_000), &circle(), at));
    assert!(bodies_collide(&rect(), vec2(10_000, 10_000), &rect(), at));
    let a = Element::new(Some(circle()), 0, 0);
    let b = Element::new(Some(rect()), 10_000, 10_000);
    assert!(!elements_collide(&a, &b));
    assert!(!elements_collide(&b, &a));
}

#[test]
fn any_colliding_pair_of_bodies_is_enough() {
    let mut a = Element::new(
        Some(CollisionBody::new(CollisionShape::RECT, 40, 40, 0, 0, None, Some(1))),
        0,
        0,
    );
    a.add_collision_body(CollisionBody::new(CollisionShape::RECT, 40, 40, 0, 0, None, Some(2)));
    let mut b = Element::new(
        Some(CollisionBody::new(CollisionShape::RECT, 40, 40, 0, 0, None, Some(2))),
        20_000,
        20_000,
    );
    // The pair that is tested last is not eligible; the verdict stays.
    b.add_collision_body(CollisionBody::new(CollisionShape::CIRCLE, 40, 40, 0, 0, None, Some(9)));
    assert!(elements_collide(&a, &b));
    assert!(elements_collide(&b, &a));
}

#[test]
fn elements_without_bodies_do_not_collide() {
    let empty = Element::default();
    assert!(!elements_collide(&empty, &empty));
    assert!(!elements_collide(&empty, &tagged_rect(0, 0, 0)));
    assert!(!elements_collide(&tagged_rect(0, 0, 0), &empty));
}

#[test]
fn a_box_inside_another_does_not_collide() {
    let outer = tagged_rect(0, 0, 0);
    let inner = Element::new(
        Some(CollisionBody::new(CollisionShape::RECT, 10, 10, 0, 0, None, Some(0))),
        15_000,
        15_000,
    );
    assert!(!elements_collide(&outer, &inner));
}

#[test]
fn a_rotated_box_reaches_further() {
    let still = tagged_rect(0, 0, 0);
    let plain = tagged_rect(45_000, 0, 0);
    assert!(!elements_collide(&still, &plain));
    let quarter = Rotation { degrees: 45_000, sin: 707_107, cos: 707_107 };
    let turned = Element::new(
        Some(CollisionBody::new(CollisionShape::RECT, 40, 40, 0, 0, Some(quarter), Some(0))),
        45_000,
        0,
    );
    // The left corner of the diamond lies at about x = 36.7.
    assert!(elements_collide(&still, &turned));
    assert!(elements_collide(&turned, &still));
}

#[test]
fn crossing_segments() {
    assert!(line_segments_collide(vec2(0, 0), vec2(10, 10), vec2(0, 10), vec2(10, 0)));
    assert!(line_segments_collide(vec2(0, 10), vec2(10, 0), vec2(0, 0), vec2(10, 10)));
    assert!(!line_segments_collide(vec2(0, 0), vec2(10, 10), vec2(20, 0), vec2(20, 5)));
    assert!(!line_segments_collide(vec2(0, 0), vec2(4, 4), vec2(0, 10), vec2(10, 0)));
}

#[test]
fn touching_ends_count_as_crossing() {
    assert!(line_segments_collide(vec2(0, 0), vec2(10, 0), vec2(10, 0), vec2(10, 10)));
    assert!(line_segments_collide(vec2(0, 0), vec2(10, 0), vec2(5, 0), vec2(5, 10)));
    assert!(line_segments_collide(vec2(0, 0), vec2(10, 0), vec2(5, -10), vec2(5, 0)));
    assert!(!line_segments_collide(vec2(0, 0), vec2(10, 0), vec2(5, 1), vec2(5, 10)));
    assert!(!line_segments_collide(vec2(0, 0), vec2(10, 0), vec2(11, 0), vec2(11, 10)));
}

#[test]
fn parallel_segments_never_cross() {
    assert!(!line_segments_collide(vec2(0, 0), vec2(10, 0), vec2(0, 5), vec2(10, 5)));
    // Collinear and overlapping.
    assert!(!line_segments_collide(vec2(0, 0), vec2(10, 0), vec2(5, 0), vec2(15, 0)));
    // One and the same segment.
    assert!(!line_segments_collide(vec2(0, 0), vec2(10, 10), vec2(0, 0), vec2(10, 10)));
    // A segment of length zero has no direction.
    assert!(!line_segments_collide(vec2(0, 0), vec2(0, 0), vec2(-5, 0), vec2(5, 0)));
    assert!(!line_segments_collide(vec2(0, 0), vec2(0, 0), vec2(0, 0), vec2(0, 0)));
}

#[test]
fn crossing_test_at_the_coordinate_limit() {
    let m: i64 = 1 << 60;
    assert!(line_segments_collide(vec2(-m, -m), vec2(m, m), vec2(-m, m), vec2(m, -m)));
    assert!(!line_segments_collide(vec2(-m, -m), vec2(m, -m), vec2(-m, m), vec2(m, m)));
    assert!(line_segments_collide(vec2(-m, -m), vec2(m, -m), vec2(m, -m), vec2(m, m)));
}
