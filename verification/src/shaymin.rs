use vstd::prelude::*;

use crate::animation::{AnimType, AnimationData, AnimationDirLabel, Cardinal};
use crate::assets::{spec_last_value, AnimationAssets, AnimationSpritesheet, PixelSize};
use crate::moves::Move;
use crate::npc::animation::AnimationHandler;

verus! {

/// The first step of controlling the player's animation in a frame.
#[derive(Debug, Clone, Copy, PartialEq, Eq, Structural)]
pub enum ControlStep {
    /// The current animation has no data: the player is not controlled.
    Inactive,
    /// The current animation blocks: only the facing direction follows the input.
    Blocked,
    /// A move key is pressed: the shooting animation started and the move is used.
    UseMove(Move),
    /// The player moves freely.
    Free,
}

/// The move bound to the first pressed move key: Magical Leaf, then Tackle.
pub open spec fn spec_pick_move(magical_leaf_key: bool, tackle_key: bool) -> Option<Move> {
    if magical_leaf_key {
        Some(Move::MagicalLeaf)
    } else if tackle_key {
        Some(Move::Tackle)
    } else {
        None
    }
}

/// Starts the player's control step: nothing happens without animation data or while
/// the animation blocks; otherwise a pressed move key starts the shooting animation
/// and uses its move.
pub fn begin_control(anim: &mut AnimationHandler, magical_leaf_key: bool, tackle_key: bool) -> (r:
    ControlStep)
    ensures
        match old(anim).spritesheet.data.spec_get(old(anim).spec_current()) {
            None => r == ControlStep::Inactive && *final(anim) == *old(anim),
            Some(data) => if !data.spec_is_blocking() {
                r == ControlStep::Blocked && *final(anim) == *old(anim)
            } else {
                match spec_pick_move(magical_leaf_key, tackle_key) {
                    Some(m) => r == ControlStep::UseMove(m) && final(anim).spec_current()
                        == AnimType::AttackShoot && !final(anim).looping && final(anim).animations
                        == old(anim).animations && final(anim).spritesheet == old(
                        anim,
                    ).spritesheet,
                    None => r == ControlStep::Free && *final(anim) == *old(anim),
                }
            },
        },
{
    let data = match anim.animation_data() {
        Some(data) => data,
        None => {
            return ControlStep::Inactive;
        },
    };
    if !data.is_blocking() {
        return ControlStep::Blocked;
    }
    let picked = if magical_leaf_key {
        Some(Move::MagicalLeaf)
    } else if tackle_key {
        Some(Move::Tackle)
    } else {
        None
    };
    match picked {
        Some(move_id) => {
            anim.start_animation(AnimType::AttackShoot);
            ControlStep::UseMove(move_id)
        },
        None => ControlStep::Free,
    }
}

/// Picks the player's animation from its movement: idle when there is no input;
/// walking (looping) when it turns to another cardinal direction or was not walking;
/// idle when it has come to rest; otherwise the walk keeps looping.
/// Returns whether an animation was started, so that the caller restarts its clock.
pub fn steer(
    anim: &mut AnimationHandler,
    has_input: bool,
    input_cardinal: Cardinal,
    facing_cardinal: Cardinal,
    at_rest: bool,
) -> (r: bool)
    ensures
        final(anim).animations == old(anim).animations,
        final(anim).spritesheet == old(anim).spritesheet,
        !has_input ==> r && final(anim).spec_current() == AnimType::Idle && !final(anim).looping,
        has_input && (input_cardinal != facing_cardinal || old(anim).spec_current()
            != AnimType::Walking) ==> r && final(anim).spec_current() == AnimType::Walking
            && final(anim).looping,
        has_input && input_cardinal == facing_cardinal && old(anim).spec_current()
            == AnimType::Walking && at_rest ==> r && final(anim).spec_current() == AnimType::Idle
            && !final(anim).looping,
        has_input && input_cardinal == facing_cardinal && old(anim).spec_current()
            == AnimType::Walking && !at_rest ==> !r && final(anim).spec_current()
            == AnimType::Walking && final(anim).looping,
{
    if !has_input {
        anim.start_animation(AnimType::Idle);
        anim.looping = false;
        return true;
    }
    let new_cardinal = input_cardinal != facing_cardinal || anim.current() != AnimType::Walking;
    if new_cardinal {
        anim.start_animation(AnimType::Walking);
        anim.looping = true;
        true
    } else if at_rest {
        anim.start_animation(AnimType::Idle);
        true
    } else {
        anim.looping = true;
        false
    }
}

/// The player's animations: idle and walking in all four directions, shooting and
/// tackling without direction.
pub fn player_animations() -> (r: Vec<(AnimType, AnimationData)>)
    ensures
        r@ == seq![
            (AnimType::Idle, AnimType::Idle.create_data_spec(1, AnimationDirLabel::FullyDirectional)),
            (AnimType::Walking, AnimType::Walking.create_data_spec(2, AnimationDirLabel::FullyDirectional)),
            (AnimType::AttackShoot, AnimType::AttackShoot.create_data_spec(2, AnimationDirLabel::Undirected)),
            (AnimType::AttackTackle, AnimType::AttackTackle.create_data_spec(2, AnimationDirLabel::Undirected)),
        ],
{
    let mut r: Vec<(AnimType, AnimationData)> = Vec::new();
    r.push((AnimType::Idle, AnimType::Idle.create_data(1, AnimationDirLabel::FullyDirectional)));
    r.push((AnimType::Walking, AnimType::Walking.create_data(2, AnimationDirLabel::FullyDirectional)));
    r.push((AnimType::AttackShoot, AnimType::AttackShoot.create_data(2, AnimationDirLabel::Undirected)));
    r.push((AnimType::AttackTackle, AnimType::AttackTackle.create_data(2, AnimationDirLabel::Undirected)));
    r
}

/// The player's spritesheet: its animations on 32 by 32 pixel sprites.
pub fn player_spritesheet() -> (r: AnimationSpritesheet)
    ensures
        r.sprite_size == (PixelSize { x: 32, y: 32 }),
        r.animations@ == seq![AnimType::Idle, AnimType::Walking, AnimType::AttackShoot, AnimType::AttackTackle],
        r.max_frames == 2,
        r.total_variants == 10,
        r.data.spec_get(AnimType::Idle) == Some(
            AnimType::Idle.create_data_spec(1, AnimationDirLabel::FullyDirectional),
        ),
        r.data.spec_get(AnimType::Walking) == Some(
            AnimType::Walking.create_data_spec(2, AnimationDirLabel::FullyDirectional),
        ),
        r.data.spec_get(AnimType::AttackShoot) == Some(
            AnimType::AttackShoot.create_data_spec(2, AnimationDirLabel::Undirected),
        ),
        r.data.spec_get(AnimType::AttackTackle) == Some(
            AnimType::AttackTackle.create_data_spec(2, AnimationDirLabel::Undirected),
        ),
        forall|k: AnimType|
            k != AnimType::Idle && k != AnimType::Walking && k != AnimType::AttackShoot && k
                != AnimType::AttackTackle ==> #[trigger] r.data.spec_get(k) is None,
{
    let data = player_animations();
    let ghost pairs = data@;
    let r = AnimationSpritesheet::new(data, PixelSize { x: 32, y: 32 });
    proof {
        reveal_with_fuel(spec_last_value, 5);
        assert(r.data.spec_get(AnimType::Idle) == Some(AnimType::Idle.create_data_spec(1, AnimationDirLabel::FullyDirectional)));
        assert(r.data.spec_get(AnimType::Walking) == Some(AnimType::Walking.create_data_spec(2, AnimationDirLabel::FullyDirectional)));
        assert(r.data.spec_get(AnimType::AttackSwipe) == spec_last_value(pairs, AnimType::AttackSwipe));
        assert(r.data.spec_get(AnimType::AttackSwipe) is None);
        assert(r.data.spec_get(AnimType::AttackTackle) == Some(AnimType::AttackTackle.create_data_spec(2, AnimationDirLabel::Undirected)));
        assert(r.data.spec_get(AnimType::AttackShoot) == Some(AnimType::AttackShoot.create_data_spec(2, AnimationDirLabel::Undirected)));
        assert(r.data.spec_get(AnimType::Hurt) == spec_last_value(pairs, AnimType::Hurt));
        assert(r.data.spec_get(AnimType::Down) == spec_last_value(pairs, AnimType::Down));
        assert(r.data.spec_get(AnimType::Fainting) == spec_last_value(pairs, AnimType::Fainting));
        assert(r.data.spec_get(AnimType::Fainted) == spec_last_value(pairs, AnimType::Fainted));
        assert(r.animations@ =~= seq![AnimType::Idle, AnimType::Walking, AnimType::AttackShoot, AnimType::AttackTackle]);
        reveal_with_fuel(spec_last_value, 5);
        reveal_with_fuel(crate::assets::spec_rows_upto, 10);
        reveal_with_fuel(crate::assets::spec_frames_upto, 10);
        assert forall|k: AnimType|
            k != AnimType::Idle && k != AnimType::Walking && k != AnimType::AttackShoot && k
                != AnimType::AttackTackle implies #[trigger] r.data.spec_get(k) is None by {
            reveal_with_fuel(spec_last_value, 5);
            assert(r.data.spec_get(k) == spec_last_value(pairs, k));
        }
    }
    r
}

/// The fallback animations used when the player's assets cannot be loaded: one frame,
/// without direction, for idling, walking, getting hurt, falling down, swiping and
/// tackling.
pub fn fallback_animations() -> (r: AnimationAssets)
    ensures
        r@.dom() == set![
            AnimType::Idle,
            AnimType::Walking,
            AnimType::Hurt,
            AnimType::Down,
            AnimType::AttackSwipe,
            AnimType::AttackTackle,
        ],
        forall|a: AnimType| #[trigger] r@.contains_key(a) ==> r@[a] == a.create_data_spec(1, AnimationDirLabel::Undirected),
{
    let mut r = AnimationAssets::new();
    r.insert(AnimType::Idle, AnimType::Idle.create_data(1, AnimationDirLabel::Undirected));
    r.insert(AnimType::Walking, AnimType::Walking.create_data(1, AnimationDirLabel::Undirected));
    r.insert(AnimType::Hurt, AnimType::Hurt.create_data(1, AnimationDirLabel::Undirected));
    r.insert(AnimType::Down, AnimType::Down.create_data(1, AnimationDirLabel::Undirected));
    r.insert(AnimType::AttackSwipe, AnimType::AttackSwipe.create_data(1, AnimationDirLabel::Undirected));
    r.insert(AnimType::AttackTackle, AnimType::AttackTackle.create_data(1, AnimationDirLabel::Undirected));
    proof {
        assert(r@.dom() =~= set![
            AnimType::Idle,
            AnimType::Walking,
            AnimType::Hurt,
            AnimType::Down,
            AnimType::AttackSwipe,
            AnimType::AttackTackle,
        ]);
    }
    r
}

} // verus!
