use one_way_filter::demo_state::{handle_edit_demo_state, DemoState};
use one_way_filter::magnet::{toggle_oscillating_magnets, MagnetPolarity};
use one_way_filter::policy::{pass_through_one_way_platform, PassThroughOneWayPlatform};

#[test]
fn default_policy_is_by_normal() {
    assert_eq!(PassThroughOneWayPlatform::default(), PassThroughOneWayPlatform::ByNormal);
}

#[test]
fn drop_request_sets_always() {
    assert_eq!(pass_through_one_way_platform(true), PassThroughOneWayPlatform::Always);
    assert_eq!(pass_through_one_way_platform(false), PassThroughOneWayPlatform::ByNormal);
}

#[test]
fn first_demo_is_home() {
    assert_eq!(DemoState::default(), DemoState::Home);
}

#[test]
fn demos_follow_in_order() {
    assert_eq!(DemoState::Home.next(), DemoState::Colliders);
    assert_eq!(DemoState::Colliders.next(), DemoState::ConveyorBelt);
    assert_eq!(DemoState::ConveyorBelt.next(), DemoState::Magnet);
    assert_eq!(DemoState::Magnet.next(), DemoState::Destructible);
    assert_eq!(DemoState::Destructible.next(), DemoState::Home);
}

#[test]
fn five_steps_lead_back() {
    let all = [
        DemoState::Home,
        DemoState::Colliders,
        DemoState::ConveyorBelt,
        DemoState::Magnet,
        DemoState::Destructible,
    ];
    for start in all {
        let mut state = start;
        for _ in 0..4 {
            state = state.next();
            assert_ne!(state, start);
        }
        assert_eq!(state.next(), start);
    }
}

#[test]
fn demo_changes_only_on_request() {
    assert_eq!(handle_edit_demo_state(DemoState::Magnet, 0), None);
    assert_eq!(handle_edit_demo_state(DemoState::Magnet, 1), Some(DemoState::Destructible));
}

#[test]
fn several_requests_move_on_by_one() {
    assert_eq!(handle_edit_demo_state(DemoState::Home, 3), Some(DemoState::Colliders));
    assert_eq!(handle_edit_demo_state(DemoState::Destructible, usize::MAX), Some(DemoState::Home));
}

#[test]
fn polarity_coefficients() {
    assert_eq!(MagnetPolarity::Positive.coefficient(), 1);
    assert_eq!(MagnetPolarity::Negative.coefficient(), -1);
    assert_eq!(MagnetPolarity::Neutral.coefficient(), 0);
}

#[test]
fn polarity_goes_round_in_three() {
    assert_eq!(MagnetPolarity::Positive.next(), MagnetPolarity::Negative);
    assert_eq!(MagnetPolarity::Negative.next(), MagnetPolarity::Neutral);
    assert_eq!(MagnetPolarity::Neutral.next(), MagnetPolarity::Positive);
}

#[test]
fn magnet_toggles_only_when_its_timer_ran_out() {
    assert_eq!(toggle_oscillating_magnets(MagnetPolarity::Neutral, false), MagnetPolarity::Neutral);
    assert_eq!(toggle_oscillating_magnets(MagnetPolarity::Neutral, true), MagnetPolarity::Positive);
    assert_eq!(toggle_oscillating_magnets(MagnetPolarity::Positive, true), MagnetPolarity::Negative);
    assert_eq!(toggle_oscillating_magnets(MagnetPolarity::Negative, true), MagnetPolarity::Neutral);
}
