use short_flight::animation::{AnimType, AnimationDirLabel};
use short_flight::assets::{
    AnimationAssets, AnimationSpritesheet, AtlasGrid, PixelSize, ShortFlightLoadingState,
};
use short_flight::shaymin::{fallback_animations, player_animations, player_spritesheet};

#[test]
fn loading_states_that_are_done() {
    assert!(ShortFlightLoadingState::Done.done());
    assert!(ShortFlightLoadingState::FailState.done());
    assert!(!ShortFlightLoadingState::First.done());
    assert!(!ShortFlightLoadingState::Retry.done());
    assert!(!ShortFlightLoadingState::LoadNPCAssets.done());
    assert_eq!(ShortFlightLoadingState::default(), ShortFlightLoadingState::First);
}

#[test]
fn successful_loading_walks_the_stages_to_done() {
    let mut state = ShortFlightLoadingState::First;
    let mut steps = 0;
    while let Some(next) = state.after_loading(true) {
        state = next;
        steps += 1;
    }
    assert_eq!(state, ShortFlightLoadingState::Done);
    assert_eq!(steps, 4);
}

#[test]
fn failed_loading_goes_to_the_failure_stage() {
    for s in [
        ShortFlightLoadingState::First,
        ShortFlightLoadingState::PlayerLoading,
        ShortFlightLoadingState::LoadNPCAssets,
        ShortFlightLoadingState::SpawnWithAssets,
    ] {
        assert_eq!(s.after_loading(false), Some(ShortFlightLoadingState::FailState));
    }
    assert_eq!(ShortFlightLoadingState::FailState.after_loading(true), None);
    assert_eq!(ShortFlightLoadingState::Done.after_loading(false), None);
    assert_eq!(ShortFlightLoadingState::Retry.after_loading(true), None);
}

#[test]
fn later_pairs_replace_earlier_ones() {
    let pairs = vec![
        (AnimType::Idle, AnimType::Idle.create_data(1, AnimationDirLabel::Undirected)),
        (AnimType::Walking, AnimType::Walking.create_data(2, AnimationDirLabel::Vertical)),
        (AnimType::Idle, AnimType::Idle.create_data(5, AnimationDirLabel::Horizontal)),
    ];
    let assets = AnimationAssets::from_pairs(&pairs);
    assert_eq!(assets.get(AnimType::Idle).unwrap().frames, 5);
    assert_eq!(assets.get(AnimType::Walking).unwrap().frames, 2);
    assert_eq!(assets.get(AnimType::Hurt), None);
    assert!(assets.contains_key(AnimType::Walking));
    assert!(!assets.contains_key(AnimType::Down));
    assert_eq!(assets.max_frames(), 5);
    assert_eq!(assets.total_rows(), 4);
}

#[test]
fn empty_assets_have_an_empty_grid() {
    let assets = AnimationAssets::new();
    assert_eq!(assets.max_frames(), 0);
    assert_eq!(assets.total_rows(), 0);
    let sheet = AnimationSpritesheet::default();
    assert_eq!(sheet.max_frames, 0);
    assert_eq!(sheet.total_variants, 0);
}

#[test]
fn spritesheet_lays_out_the_player_animations() {
    let mut sheet = player_spritesheet();
    assert_eq!(
        sheet.animations,
        vec![AnimType::Idle, AnimType::Walking, AnimType::AttackShoot, AnimType::AttackTackle]
    );
    assert_eq!(sheet.max_frames, 2);
    assert_eq!(sheet.total_variants, 10);
    assert_eq!(
        sheet.get_atlas_layout(),
        AtlasGrid { tile_size: PixelSize { x: 32, y: 32 }, columns: 2, rows: 10 }
    );
    assert_eq!(sheet.index(AnimType::Walking).frames, 2);
    assert_eq!(player_animations().len(), 4);
}

#[test]
fn spritesheet_keeps_duplicate_entries_in_its_list() {
    let data = vec![
        (AnimType::Idle, AnimType::Idle.create_data(1, AnimationDirLabel::FullyDirectional)),
        (AnimType::Idle, AnimType::Idle.create_data(3, AnimationDirLabel::Undirected)),
    ];
    let sheet = AnimationSpritesheet::new(data, PixelSize { x: 16, y: 24 });
    assert_eq!(sheet.animations, vec![AnimType::Idle, AnimType::Idle]);
    assert_eq!(sheet.max_frames, 3);
    assert_eq!(sheet.total_variants, 1);
    assert_eq!(sheet.sprite_size, PixelSize { x: 16, y: 24 });
}

#[test]
fn fallback_animations_are_single_frames() {
    let assets = fallback_animations();
    for a in [
        AnimType::Idle,
        AnimType::Walking,
        AnimType::Hurt,
        AnimType::Down,
        AnimType::AttackSwipe,
        AnimType::AttackTackle,
    ] {
        let d = assets.get(a).unwrap();
        assert_eq!(d.frames, 1);
        assert_eq!(d.variant, a);
    }
    assert_eq!(assets.get(AnimType::AttackShoot), None);
    assert_eq!(assets.total_rows(), 6);
    assert_eq!(assets.max_frames(), 1);
}
