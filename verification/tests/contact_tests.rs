use one_way_filter::contact::{
    ContactData, ContactManifold, Contacts, RelevantNormal, Vector, ALIGNMENT_THRESHOLD,
    NORMAL_EPSILON, UNITS_PER_ONE,
};

fn to_units(value: f64) -> i32 {
    (value * UNITS_PER_ONE as f64).round() as i32
}

fn direction(x: f64, y: f64) -> Vector {
    Vector { x: to_units(x), y: to_units(y) }
}

fn manifold_with(normal1: Vector, normal2: Vector, penetrations: &[i64]) -> ContactManifold {
    ContactManifold {
        normal1,
        normal2,
        contacts: penetrations.iter().map(|p| ContactData { penetration: *p }).collect(),
    }
}

#[test]
fn constants_have_their_values() {
    assert_eq!(UNITS_PER_ONE, 8_388_608);
    assert_eq!(NORMAL_EPSILON, 1);
    assert_eq!(ALIGNMENT_THRESHOLD * 2, UNITS_PER_ONE);
}

#[test]
fn straight_up_is_aligned() {
    assert!(direction(0.0, 1.0).is_aligned());
}

#[test]
fn straight_down_and_sideways_are_not_aligned() {
    assert!(!direction(0.0, -1.0).is_aligned());
    assert!(!direction(1.0, 0.0).is_aligned());
    assert!(!direction(-1.0, 0.0).is_aligned());
}

#[test]
fn sixty_degrees_from_up_is_the_limit() {
    // cos(60 degrees) is one half: exactly at the threshold counts as aligned.
    let at_limit = Vector { x: to_units(0.866_025_4), y: ALIGNMENT_THRESHOLD as i32 };
    assert!(at_limit.is_aligned());
    let just_below = Vector { x: to_units(0.866_025_4), y: ALIGNMENT_THRESHOLD as i32 - 1 };
    assert!(!just_below.is_aligned());
    assert!(direction(0.5, 0.866).is_aligned());
    assert!(!direction(0.9, 0.436).is_aligned());
}

#[test]
fn zero_length_normal_is_not_aligned() {
    assert!(!Vector { x: 0, y: 0 }.is_aligned());
}

#[test]
fn normal_no_longer_than_epsilon_is_not_aligned() {
    assert!(!Vector { x: 0, y: 1 }.is_aligned());
    assert!(!Vector { x: 1, y: 0 }.is_aligned());
}

#[test]
fn extreme_components_do_not_overflow() {
    assert!(Vector { x: i32::MIN, y: i32::MAX }.is_aligned());
    assert!(Vector { x: i32::MAX, y: i32::MAX }.is_aligned());
    assert!(!Vector { x: i32::MIN, y: i32::MIN }.is_aligned());
    assert!(!Vector { x: i32::MAX, y: i32::MIN }.is_aligned());
}

#[test]
fn manifold_penetrates_when_some_point_does() {
    let up = direction(0.0, 1.0);
    assert!(!manifold_with(up, up, &[]).any_penetrating());
    assert!(!manifold_with(up, up, &[0]).any_penetrating());
    assert!(!manifold_with(up, up, &[-5, 0, -1]).any_penetrating());
    assert!(manifold_with(up, up, &[-5, 0, 1]).any_penetrating());
    assert!(manifold_with(up, up, &[1]).any_penetrating());
    assert!(manifold_with(up, up, &[i64::MAX, i64::MIN]).any_penetrating());
}

#[test]
fn relevant_normal_picks_the_platform_side() {
    let up = direction(0.0, 1.0);
    let down = direction(0.0, -1.0);
    let manifold = manifold_with(up, down, &[]);
    assert_eq!(manifold.relevant_normal(RelevantNormal::Normal1), up);
    assert_eq!(manifold.relevant_normal(RelevantNormal::Normal2), down);
}

#[test]
fn pair_penetrates_when_some_manifold_does() {
    let up = direction(0.0, 1.0);
    let none = Contacts { entity1: 1, entity2: 2, manifolds: vec![] };
    assert!(!none.any_penetrating());
    let touching = Contacts {
        entity1: 1,
        entity2: 2,
        manifolds: vec![manifold_with(up, up, &[0]), manifold_with(up, up, &[-3, 0])],
    };
    assert!(!touching.any_penetrating());
    let overlapping = Contacts {
        entity1: 1,
        entity2: 2,
        manifolds: vec![manifold_with(up, up, &[0]), manifold_with(up, up, &[-3, 2])],
    };
    assert!(overlapping.any_penetrating());
}

#[test]
fn pair_is_aligned_when_every_manifold_is() {
    let up = direction(0.0, 1.0);
    let down = direction(0.0, -1.0);
    let pair = Contacts {
        entity1: 1,
        entity2: 2,
        manifolds: vec![manifold_with(up, down, &[]), manifold_with(up, up, &[])],
    };
    assert!(pair.all_aligned(RelevantNormal::Normal1));
    assert!(!pair.all_aligned(RelevantNormal::Normal2));
}

#[test]
fn pair_without_manifolds_is_aligned() {
    let pair = Contacts { entity1: 1, entity2: 2, manifolds: vec![] };
    assert!(pair.all_aligned(RelevantNormal::Normal1));
    assert!(pair.all_aligned(RelevantNormal::Normal2));
}
