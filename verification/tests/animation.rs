use short_flight::animation::{
    cardinal, AnimType, AnimationData, AnimationDirLabel, Cardinal, DirectionClass, Flip, Sign,
};

fn dir(x: Sign, y: Sign, x_dominant: bool) -> DirectionClass {
    DirectionClass { x, y, x_dominant }
}

const NONE: Flip = Flip { x: false, y: false };
const FX: Flip = Flip { x: true, y: false };
const FY: Flip = Flip { x: false, y: true };

#[test]
fn idle_and_walking_can_always_be_interrupted() {
    for other in [None, Some(AnimType::Hurt), Some(AnimType::Walking), Some(AnimType::Fainted)] {
        assert!(AnimType::Idle.can_interrupt(other));
        assert!(AnimType::Walking.can_interrupt(other));
    }
}

#[test]
fn attacks_are_only_interrupted_by_getting_hurt() {
    for attack in [AnimType::AttackSwipe, AnimType::AttackTackle, AnimType::AttackShoot] {
        assert!(attack.can_interrupt(Some(AnimType::Hurt)));
        assert!(!attack.can_interrupt(Some(AnimType::Walking)));
        assert!(!attack.can_interrupt(None));
    }
    assert!(!AnimType::Hurt.can_interrupt(Some(AnimType::Hurt)));
    assert!(!AnimType::Fainting.can_interrupt(Some(AnimType::Hurt)));
}

#[test]
fn blocking_and_timer_reset_by_variant() {
    assert!(!AnimType::Idle.blocks());
    assert!(!AnimType::Walking.blocks());
    assert!(AnimType::AttackShoot.blocks());
    assert!(AnimType::Fainted.blocks());
    assert!(!AnimType::Idle.reset_timer());
    assert!(AnimType::Walking.reset_timer());
    assert!(AnimType::Down.reset_timer());
}

#[test]
fn every_blocking_animation_resets_its_timer() {
    let all = [
        AnimType::Idle,
        AnimType::Walking,
        AnimType::AttackSwipe,
        AnimType::AttackTackle,
        AnimType::AttackShoot,
        AnimType::Hurt,
        AnimType::Down,
        AnimType::Fainting,
        AnimType::Fainted,
    ];
    for a in all {
        if a.blocks() {
            assert!(a.reset_timer());
        }
    }
}

#[test]
fn create_data_has_no_override() {
    let d = AnimType::Hurt.create_data(3, AnimationDirLabel::FlipVariants);
    assert_eq!(
        d,
        AnimationData {
            variant: AnimType::Hurt,
            frames: 3,
            direction_label: AnimationDirLabel::FlipVariants,
            blocking_override: None,
        }
    );
    // a hurt animation does not let the entity move
    assert!(!d.is_blocking());
}

#[test]
fn blocking_override_wins() {
    let mut d = AnimType::AttackShoot.create_data(2, AnimationDirLabel::Undirected);
    assert!(!d.is_blocking());
    d.blocking_override = Some(true);
    assert!(d.is_blocking());
    let mut w = AnimType::Walking.create_data(2, AnimationDirLabel::Undirected);
    assert!(w.is_blocking());
    assert!(AnimType::Idle.create_data(1, AnimationDirLabel::Undirected).is_blocking());
    w.blocking_override = Some(false);
    assert!(!w.is_blocking());
}

#[test]
fn sprite_counts() {
    assert_eq!(AnimationDirLabel::Undirected.directional_sprite_count(), 1);
    assert_eq!(AnimationDirLabel::Vertical.directional_sprite_count(), 2);
    assert_eq!(AnimationDirLabel::Horizontal.directional_sprite_count(), 2);
    assert_eq!(AnimationDirLabel::FlipVariants.directional_sprite_count(), 2);
    assert_eq!(AnimationDirLabel::FrontBackAndHorizontal.directional_sprite_count(), 3);
    assert_eq!(AnimationDirLabel::FullyDirectional.directional_sprite_count(), 4);
}

#[test]
fn cardinal_snaps_to_dominant_axis() {
    assert_eq!(cardinal(dir(Sign::Positive, Sign::Zero, true)), Cardinal::East);
    assert_eq!(cardinal(dir(Sign::Negative, Sign::Positive, true)), Cardinal::West);
    assert_eq!(cardinal(dir(Sign::Negative, Sign::Positive, false)), Cardinal::North);
    assert_eq!(cardinal(dir(Sign::Zero, Sign::Negative, false)), Cardinal::South);
    assert_eq!(cardinal(DirectionClass::east()), Cardinal::East);
    assert_eq!(cardinal(DirectionClass::south()), Cardinal::South);
}

#[test]
fn index_offsets_of_fully_directional_sprites() {
    let label = AnimationDirLabel::FullyDirectional;
    assert_eq!(label.get_index_offset(&dir(Sign::Positive, Sign::Zero, true)), (0, NONE));
    assert_eq!(label.get_index_offset(&dir(Sign::Zero, Sign::Positive, false)), (1, NONE));
    assert_eq!(label.get_index_offset(&dir(Sign::Negative, Sign::Zero, true)), (2, NONE));
    assert_eq!(label.get_index_offset(&dir(Sign::Zero, Sign::Negative, false)), (3, NONE));
}

#[test]
fn index_offsets_with_flips() {
    let west = dir(Sign::Negative, Sign::Negative, true);
    let north = dir(Sign::Negative, Sign::Positive, false);
    let south = dir(Sign::Positive, Sign::Negative, false);
    let east = dir(Sign::Positive, Sign::Positive, true);
    assert_eq!(AnimationDirLabel::Undirected.get_index_offset(&west), (0, NONE));
    assert_eq!(AnimationDirLabel::Horizontal.get_index_offset(&west), (0, FX));
    assert_eq!(AnimationDirLabel::Horizontal.get_index_offset(&south), (0, NONE));
    assert_eq!(AnimationDirLabel::Vertical.get_index_offset(&north), (0, FY));
    assert_eq!(AnimationDirLabel::Vertical.get_index_offset(&east), (0, FY));
    assert_eq!(AnimationDirLabel::Vertical.get_index_offset(&south), (0, NONE));
    assert_eq!(AnimationDirLabel::FlipVariants.get_index_offset(&north), (0, FY));
    assert_eq!(AnimationDirLabel::FlipVariants.get_index_offset(&south), (0, NONE));
    assert_eq!(AnimationDirLabel::FlipVariants.get_index_offset(&east), (1, NONE));
    assert_eq!(AnimationDirLabel::FlipVariants.get_index_offset(&west), (1, FX));
    assert_eq!(AnimationDirLabel::FrontBackAndHorizontal.get_index_offset(&north), (0, NONE));
    assert_eq!(AnimationDirLabel::FrontBackAndHorizontal.get_index_offset(&south), (1, NONE));
    assert_eq!(AnimationDirLabel::FrontBackAndHorizontal.get_index_offset(&east), (2, NONE));
    assert_eq!(AnimationDirLabel::FrontBackAndHorizontal.get_index_offset(&west), (2, FX));
}

#[test]
fn index_offset_stays_within_the_rows_of_the_label() {
    let labels = [
        AnimationDirLabel::Undirected,
        AnimationDirLabel::Vertical,
        AnimationDirLabel::Horizontal,
        AnimationDirLabel::FlipVariants,
        AnimationDirLabel::FrontBackAndHorizontal,
        AnimationDirLabel::FullyDirectional,
    ];
    let signs = [Sign::Negative, Sign::Zero, Sign::Positive];
    for label in labels {
        for x in signs {
            for y in signs {
                for x_dominant in [false, true] {
                    let d = dir(x, y, x_dominant);
                    let valid = (x != Sign::Zero || !x_dominant) && (y != Sign::Zero || x_dominant);
                    if valid {
                        let (offset, _) = label.get_index_offset(&d);
                        assert!((offset as u32) < label.directional_sprite_count());
                    }
                }
            }
        }
    }
}

#[test]
fn defaults() {
    assert_eq!(AnimType::default(), AnimType::Idle);
    assert_eq!(AnimationDirLabel::default(), AnimationDirLabel::Undirected);
    let d = AnimationData::default();
    assert_eq!(d.frames, 0);
    assert_eq!(d.variant, AnimType::Idle);
    assert_eq!(d.blocking_override, None);
}
