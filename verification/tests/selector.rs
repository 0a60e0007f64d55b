use mm3sim::carousel::CarouselState;
use mm3sim::instrument::orient_collision;
use mm3sim::layers::{marble_layers, GameLayer};
use mm3sim::wheel::{marble_kind, MarbleKind};

#[test]
fn carousel_quarter_turns_pick_the_slot() {
    let mut c = CarouselState::default();
    assert!(!c.start_pending());
    c.pending_advances = 3;
    assert!(c.start_pending());
    assert!(c.is_animating);
    assert_eq!(c.pending_advances, 0);
    assert_eq!(c.target_quarters, 3);
    c.pending_advances = 2;
    assert!(!c.start_pending(), "no new rotation while animating");
    c.finish_rotation();
    assert_eq!(c.current_slot, 3);
    assert!(c.start_pending());
    c.finish_rotation();
    assert_eq!(c.current_slot, 1);
    assert_eq!(c.target_quarters, 5);
}

#[test]
fn carousel_turn_count_wraps_without_changing_the_slot() {
    let mut c = CarouselState::default();
    c.target_quarters = u64::MAX;
    c.current_slot = 3;
    c.pending_advances = 2;
    assert!(c.start_pending());
    assert_eq!(c.target_quarters, 1);
    c.finish_rotation();
    assert_eq!(c.current_slot, 1);
}

#[test]
fn marble_kinds_by_channel() {
    assert_eq!(marble_kind(0), MarbleKind::Chute);
    assert_eq!(marble_kind(6), MarbleKind::Snare);
    assert_eq!(marble_kind(13), MarbleKind::Vib);
    assert_eq!(marble_kind(50), MarbleKind::HiHat);
    assert_eq!(marble_kind(56), MarbleKind::HiHat);
    assert_eq!(marble_kind(57), MarbleKind::Kick);
    assert_eq!(marble_kind(68), MarbleKind::Ride);
    assert_eq!(marble_kind(500), MarbleKind::Snare);
    assert!(MarbleKind::Vib.uses_low_floor());
    assert!(!MarbleKind::Snare.uses_low_floor());
}

#[test]
fn marble_collision_layers() {
    assert_eq!(marble_layers(true), (GameLayer::Marble, vec![GameLayer::Default, GameLayer::Marble]));
    assert_eq!(marble_layers(false), (GameLayer::Marble, vec![GameLayer::Default]));
}

#[test]
fn collisions_are_oriented_marble_first() {
    assert_eq!(orient_collision(1, 2, true, false, false, true), Some((1, 2)));
    assert_eq!(orient_collision(1, 2, false, true, true, false), Some((2, 1)));
    assert_eq!(orient_collision(1, 2, true, false, true, false), None);
    assert_eq!(orient_collision(1, 2, false, false, false, false), None);
}
