use short_flight::animation::{AnimType, AnimationDirLabel, DirectionClass, Flip, Sign};
use short_flight::assets::{AnimationAssets, AnimationSpritesheet, PixelSize};
use short_flight::collision::CollisionLayers;
use short_flight::moves::Move;
use short_flight::npc::ai::{can_aggro, commit_attack, plan_decision, Assessment, NPCActions, NPCDesicion};
use short_flight::npc::animation::{AnimationError, AnimationHandler};
use short_flight::npc::stats::{Damage, Health};
use short_flight::npc::{NPCInfo, SpawnedComponents, NPC};
use short_flight::shaymin::player_spritesheet;

fn north() -> DirectionClass {
    DirectionClass { x: Sign::Zero, y: Sign::Positive, x_dominant: false }
}

fn handler_with(current: AnimType) -> AnimationHandler {
    let mut h = AnimationHandler::new(player_spritesheet());
    h.start_animation(current);
    h
}

#[test]
fn npc_kinds_by_position() {
    assert_eq!(NPC::try_from(0), Ok(NPC::Void));
    assert_eq!(NPC::try_from(1), Ok(NPC::Geodude));
    assert_eq!(NPC::try_from(2), Err(()));
    assert_eq!(NPC::try_from(3), Err(()));
    assert_eq!(NPC::try_from(usize::MAX), Err(()));
    assert_eq!(NPC::Geodude.index(), 1);
    assert_eq!(NPC::try_from(NPC::Geodude.index()), Ok(NPC::Geodude));
    assert_eq!(NPC::default(), NPC::Void);
}

#[test]
fn aggro_between_enemies_and_team() {
    assert!(can_aggro(&NPCInfo::Enemy {}, &NPCInfo::Team));
    assert!(can_aggro(&NPCInfo::Team, &NPCInfo::Enemy {}));
    assert!(!can_aggro(&NPCInfo::Enemy {}, &NPCInfo::Enemy {}));
    assert!(!can_aggro(&NPCInfo::Team, &NPCInfo::Team));
    assert!(!can_aggro(&NPCInfo::Silent, &NPCInfo::Team));
    assert!(!can_aggro(&NPCInfo::Inert, &NPCInfo::Enemy {}));
}

#[test]
fn aggro_is_symmetric() {
    let kinds = [NPCInfo::Inert, NPCInfo::Silent, NPCInfo::Enemy {}, NPCInfo::Team];
    for a in kinds {
        for b in kinds {
            assert_eq!(can_aggro(&a, &b), can_aggro(&b, &a));
        }
        assert!(!can_aggro(&a, &a));
    }
}

#[test]
fn spawned_components_by_kind() {
    assert_eq!(
        NPCInfo::Inert.spawned_components(false),
        SpawnedComponents { animation: false, stats: false }
    );
    assert_eq!(
        NPCInfo::Silent.spawned_components(true),
        SpawnedComponents { animation: true, stats: false }
    );
    assert_eq!(
        NPCInfo::Enemy {}.spawned_components(true),
        SpawnedComponents { animation: true, stats: true }
    );
    assert_eq!(NPCInfo::Team.spawned_components(true), SpawnedComponents { animation: true, stats: true });
}

#[test]
fn only_projectiles_and_attacks_hurt() {
    let mut health = Health::new(50);
    assert!(!health.is_dead());
    assert!(!health.take_hits(&CollisionLayers::npc(), &Damage(20)));
    assert_eq!(health.hp(), 50);
    assert!(health.take_hits(&CollisionLayers::projectile(), &Damage(20)));
    assert_eq!(health.hp(), 30);
    assert!(health.take_hits(&CollisionLayers::attack().union(CollisionLayers::npc()), &Damage(30)));
    assert_eq!(health.hp(), 0);
    assert!(health.is_dead());
    assert!(!health.take_hits(&CollisionLayers::empty(), &Damage(5)));
    assert_eq!(Health::default().hp(), 0);
    assert_eq!(Damage::default(), Damage(0));
}

#[test]
fn atlas_rows_of_the_player_animations() {
    let east = DirectionClass::east();
    assert_eq!(handler_with(AnimType::Idle).get_atlas_index(&east), Ok((0, Flip { x: false, y: false })));
    assert_eq!(handler_with(AnimType::Walking).get_atlas_index(&north()), Ok((5, Flip { x: false, y: false })));
    assert_eq!(handler_with(AnimType::AttackShoot).get_atlas_index(&east), Ok((8, Flip { x: false, y: false })));
    assert_eq!(handler_with(AnimType::AttackTackle).get_atlas_index(&east), Ok((9, Flip { x: false, y: false })));
}

#[test]
fn atlas_index_of_an_unlisted_animation() {
    let h = handler_with(AnimType::Hurt);
    assert!(h.check_rows_known());
    assert_eq!(h.get_atlas_index(&north()), Err(AnimationError::AnimationNotIncluded(AnimType::Hurt)));
}

#[test]
fn atlas_index_without_listed_animations() {
    let h = AnimationHandler {
        current: AnimType::Idle,
        animations: AnimationAssets::new(),
        spritesheet: AnimationSpritesheet::default(),
        looping: false,
    };
    assert!(h.check_rows_known());
    assert_eq!(h.get_atlas_index(&north()), Err(AnimationError::NoAnimationsListed));
}

#[test]
fn atlas_index_of_a_listed_animation_without_data() {
    let mut sheet = player_spritesheet();
    sheet.animations.push(AnimType::Hurt);
    let h = AnimationHandler {
        current: AnimType::Hurt,
        animations: sheet.data,
        spritesheet: sheet,
        looping: false,
    };
    assert!(h.check_rows_known());
    assert_eq!(h.get_atlas_index(&north()), Err(AnimationError::ListedAnimationMissingData(AnimType::Hurt)));
}

#[test]
fn atlas_scan_stops_at_the_first_copy_of_the_last_entry() {
    let data = vec![
        (AnimType::Walking, AnimType::Walking.create_data(2, AnimationDirLabel::Vertical)),
        (AnimType::Idle, AnimType::Idle.create_data(1, AnimationDirLabel::Undirected)),
        (AnimType::Walking, AnimType::Walking.create_data(2, AnimationDirLabel::Vertical)),
    ];
    let sheet = AnimationSpritesheet::new(data, PixelSize { x: 32, y: 32 });
    let mut h = AnimationHandler::new(sheet);
    assert_eq!(h.get_atlas_index(&north()), Err(AnimationError::AnimationNotIncluded(AnimType::Idle)));
    h.start_animation(AnimType::Walking);
    assert_eq!(h.get_atlas_index(&north()), Ok((0, Flip { x: false, y: true })));
}

#[test]
fn rows_with_missing_data_are_detected() {
    let mut sheet = player_spritesheet();
    sheet.animations.insert(0, AnimType::Down);
    let h = AnimationHandler {
        current: AnimType::Walking,
        animations: player_spritesheet().data,
        spritesheet: sheet,
        looping: false,
    };
    assert!(!h.check_rows_known());
}

#[test]
fn current_atlas_index_counts_frames_across_rows() {
    let h = handler_with(AnimType::Walking);
    assert_eq!(h.get_current_atlas(1, &north()), Ok(11));
    assert_eq!(handler_with(AnimType::Idle).get_current_atlas(0, &DirectionClass::south()), Ok(6));
    assert_eq!(
        handler_with(AnimType::Fainted).get_current_atlas(0, &north()),
        Err(AnimationError::AnimationNotIncluded(AnimType::Fainted))
    );
}

#[test]
fn new_handler_starts_idle() {
    let h = AnimationHandler::new(player_spritesheet());
    assert_eq!(h.current(), AnimType::Idle);
    assert!(!h.looping);
    assert_eq!(h.animation_data().unwrap().frames, 1);
    assert_eq!(h.get_animation_data().unwrap().variant, AnimType::Idle);
    assert_eq!(h.timing_data().unwrap().frames, 1);
}

#[test]
fn ending_a_cycle_returns_to_idle_unless_looping() {
    let mut h = handler_with(AnimType::Walking);
    assert!(h.end_cycle());
    assert_eq!(h.current(), AnimType::Idle);
    let mut l = handler_with(AnimType::Walking);
    l.looping = true;
    assert!(!l.end_cycle());
    assert_eq!(l.current(), AnimType::Walking);
    assert!(l.looping);
}

fn assessment(focus_info: NPCInfo, ranged_move: Option<(Move, bool)>, explore_is_zero: bool) -> Assessment<(i32, i32), u8> {
    Assessment {
        focus_info,
        ranged_move,
        toward_focus: (1, 0),
        attack_direction: Some(7),
        away_from_foes: (-1, 0),
        explore_is_zero,
    }
}

fn is_move(d: &Option<NPCDesicion<(i32, i32), u8>>, target: (i32, i32)) -> bool {
    matches!(d, Some(NPCDesicion::Move { target: t }) if *t == target)
}

#[test]
fn offensive_npcs_attack_within_range() {
    let anim = handler_with(AnimType::Idle);
    let enemy = NPCInfo::Enemy {};
    let offensive: NPCActions<(i32, i32)> = NPCActions::Offensive { focus: 9 };
    let d = plan_decision(&enemy, &anim, &offensive, assessment(NPCInfo::Team, Some((Move::Tackle, true)), true));
    assert!(matches!(d, Some(NPCDesicion::BasicAttack { direction: Some(7), move_id: Move::Tackle })));
    let d = plan_decision(&enemy, &anim, &offensive, assessment(NPCInfo::Team, Some((Move::Tackle, false)), true));
    assert!(is_move(&d, (1, 0)));
    let d = plan_decision(&enemy, &anim, &offensive, assessment(NPCInfo::Team, None, true));
    assert!(is_move(&d, (1, 0)));
    let d = plan_decision(&enemy, &anim, &offensive, assessment(NPCInfo::Enemy {}, Some((Move::Tackle, true)), true));
    assert!(matches!(d, Some(NPCDesicion::SetAnimation(AnimType::Idle))));
}

#[test]
fn defensive_and_idle_npcs() {
    let anim = handler_with(AnimType::Walking);
    let enemy = NPCInfo::Enemy {};
    let defensive: NPCActions<(i32, i32)> = NPCActions::Defensive;
    assert!(is_move(&plan_decision(&enemy, &anim, &defensive, assessment(NPCInfo::Team, None, true)), (-1, 0)));
    let idle: NPCActions<(i32, i32)> = NPCActions::Idle { explore: (0, 3) };
    assert!(is_move(&plan_decision(&enemy, &anim, &idle, assessment(NPCInfo::Team, None, false)), (0, 3)));
    assert!(matches!(plan_decision(&enemy, &anim, &idle, assessment(NPCInfo::Team, None, true)), Some(NPCDesicion::Idle)));
}

#[test]
fn blocking_animations_skip_the_ai() {
    let anim = handler_with(AnimType::AttackShoot);
    let idle: NPCActions<(i32, i32)> = NPCActions::Idle { explore: (0, 3) };
    assert!(plan_decision(&NPCInfo::Team, &anim, &idle, assessment(NPCInfo::Enemy {}, None, false)).is_none());
}

#[test]
fn attacks_start_only_from_non_blocking_animations() {
    let mut anim = handler_with(AnimType::Walking);
    anim.looping = true;
    assert!(commit_attack(&mut anim));
    assert_eq!(anim.current(), AnimType::AttackTackle);
    assert!(!anim.looping);
    assert!(!commit_attack(&mut anim));
    assert_eq!(anim.current(), AnimType::AttackTackle);
    let mut missing = handler_with(AnimType::Down);
    assert!(!commit_attack(&mut missing));
    assert_eq!(missing.current(), AnimType::Down);
}
