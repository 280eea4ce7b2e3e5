use short_flight::animation::{AnimType, Cardinal};
use short_flight::moves::{MagicalLeaf, Move, Projectile};
use short_flight::npc::animation::AnimationHandler;
use short_flight::shaymin::{begin_control, player_spritesheet, steer, ControlStep};

fn player(current: AnimType) -> AnimationHandler {
    let mut h = AnimationHandler::new(player_spritesheet());
    h.start_animation(current);
    h
}

#[test]
fn move_keys_start_the_shooting_animation() {
    let mut h = player(AnimType::Walking);
    assert_eq!(begin_control(&mut h, false, true), ControlStep::UseMove(Move::Tackle));
    assert_eq!(h.current(), AnimType::AttackShoot);
    assert_eq!(begin_control(&mut h, true, false), ControlStep::Blocked);
    let mut both = player(AnimType::Idle);
    assert_eq!(begin_control(&mut both, true, true), ControlStep::UseMove(Move::MagicalLeaf));
    let mut free = player(AnimType::Idle);
    assert_eq!(begin_control(&mut free, false, false), ControlStep::Free);
    assert_eq!(free.current(), AnimType::Idle);
    let mut inactive = player(AnimType::Hurt);
    assert_eq!(begin_control(&mut inactive, true, false), ControlStep::Inactive);
}

#[test]
fn steering_picks_the_walking_animation() {
    let mut h = player(AnimType::Idle);
    assert!(steer(&mut h, true, Cardinal::East, Cardinal::East, false));
    assert_eq!(h.current(), AnimType::Walking);
    assert!(h.looping);
    assert!(!steer(&mut h, true, Cardinal::East, Cardinal::East, false));
    assert_eq!(h.current(), AnimType::Walking);
    assert!(steer(&mut h, true, Cardinal::North, Cardinal::East, false));
    assert!(h.looping);
    assert!(steer(&mut h, true, Cardinal::East, Cardinal::East, true));
    assert_eq!(h.current(), AnimType::Idle);
    assert!(!h.looping);
    assert!(steer(&mut h, false, Cardinal::East, Cardinal::East, false));
    assert_eq!(h.current(), AnimType::Idle);
}

#[test]
fn move_markers_and_defaults() {
    assert_eq!(Move::default(), Move::Void);
    assert_eq!(Projectile::default(), Projectile::Void);
    assert_eq!(MagicalLeaf, MagicalLeaf);
}
