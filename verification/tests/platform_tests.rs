use one_way_filter::platform::OneWayPlatform;

#[test]
fn new_platform_lets_nothing_through() {
    let platform = OneWayPlatform::default();
    assert!(!platform.contains(0));
    assert!(!platform.contains(7));
    assert!(!platform.contains(u64::MAX));
}

#[test]
fn insert_adds_only_the_given_entity() {
    let mut platform = OneWayPlatform::default();
    assert!(platform.insert(7));
    assert!(platform.contains(7));
    assert!(!platform.contains(8));
    assert!(!platform.insert(7));
    assert!(platform.contains(7));
}

#[test]
fn remove_takes_out_only_the_given_entity() {
    let mut platform = OneWayPlatform::default();
    platform.insert(1);
    platform.insert(2);
    assert!(platform.remove(1));
    assert!(!platform.contains(1));
    assert!(platform.contains(2));
    assert!(!platform.remove(1));
    assert!(platform.contains(2));
}

#[test]
fn clone_has_the_same_pass_set_and_a_life_of_its_own() {
    let mut platform = OneWayPlatform::default();
    platform.insert(5);
    let mut copy = platform.clone();
    assert_eq!(copy, platform);
    assert!(copy.contains(5));
    copy.insert(6);
    copy.remove(5);
    assert!(platform.contains(5));
    assert!(!platform.contains(6));
    assert_ne!(copy, platform);
}

#[test]
fn platforms_are_equal_when_their_pass_sets_are() {
    let mut a = OneWayPlatform::default();
    let mut b = OneWayPlatform::default();
    assert_eq!(a, b);
    a.insert(1);
    a.insert(2);
    b.insert(2);
    assert_ne!(a, b);
    b.insert(1);
    assert_eq!(a, b);
}
