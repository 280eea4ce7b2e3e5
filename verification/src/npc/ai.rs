use vstd::prelude::*;

use crate::animation::AnimType;
use crate::moves::Move;
use crate::npc::animation::AnimationHandler;
use crate::npc::NPCInfo;

verus! {

/// The state an NPC is in, which influences the decisions of its AI.
/// `V` is the type of positions and offsets in the world.
#[derive(Debug, Clone, Copy)]
pub enum NPCActions<V> {
    /// Will try to maneuver so as to give its focus little room to breathe.
    Offensive { focus: u64 },
    /// Will try to get some distance from those it can aggro.
    Defensive,
    /// Will do nothing, unless `explore` is non-zero: then it heads that way.
    Idle { explore: V },
}

/// What an NPC does in a given frame. `V` is the type of offsets in the world and `D`
/// the type of directions in the plane.
#[derive(Debug, Clone, Copy)]
pub enum NPCDesicion<V, D> {
    /// Nothing extra, though the NPC may be in the middle of an animation.
    Idle,
    SetAnimation(AnimType),
    /// Move towards `target`, relative to the current position.
    Move { target: V },
    /// Use a move to attack.
    BasicAttack { direction: Option<D>, move_id: Move },
}

/// What the AI found out about an NPC's surroundings this frame.
#[derive(Debug, Clone, Copy)]
pub struct Assessment<V, D> {
    /// The kind of the NPC's focus (the player counts as a team member).
    pub focus_info: NPCInfo,
    /// The first of the NPC's moves that has a range, and whether the focus is within it.
    pub ranged_move: Option<(Move, bool)>,
    /// The unit offset towards the focus.
    pub toward_focus: V,
    /// The direction of an attack at the focus, if there is one.
    pub attack_direction: Option<D>,
    /// The unit offset away from everyone the NPC can aggro.
    pub away_from_foes: V,
    /// Whether the exploration offset of an idle NPC is zero.
    pub explore_is_zero: bool,
}

/// Whether `npc` is hostile to `other`: enemies to team members and the reverse.
pub open spec fn spec_can_aggro(npc: NPCInfo, other: NPCInfo) -> bool {
    (npc is Enemy && other is Team) || (npc is Team && other is Enemy)
}

/// Whether `npc` is hostile to `other`: enemies to team members and the reverse.
pub fn can_aggro(npc: &NPCInfo, other_npc: &NPCInfo) -> (r: bool)
    ensures
        r == spec_can_aggro(*npc, *other_npc),
{
    match npc {
        NPCInfo::Enemy {} => match other_npc {
            NPCInfo::Team => true,
            _ => false,
        },
        NPCInfo::Team => match other_npc {
            NPCInfo::Enemy {} => true,
            _ => false,
        },
        _ => false,
    }
}

/// Hostility goes both ways, and nobody is hostile to its own kind.
pub proof fn lemma_aggro_symmetric(a: NPCInfo, b: NPCInfo)
    ensures
        spec_can_aggro(a, b) == spec_can_aggro(b, a),
        !spec_can_aggro(a, a),
{
}

/// The decision of the AI of an NPC of kind `npc` in state `actions`, or `None` when
/// its current animation blocks and it decides nothing.
///
/// An offensive NPC idles when it cannot aggro its focus, attacks with its first ranged
/// move when the focus is within range, and moves towards the focus otherwise. A
/// defensive NPC moves away from its foes. An idle NPC explores, if it has a non-zero
/// exploration offset.
pub open spec fn spec_decision<V, D>(
    npc: NPCInfo,
    blocking: bool,
    actions: NPCActions<V>,
    a: Assessment<V, D>,
) -> Option<NPCDesicion<V, D>> {
    if blocking {
        None
    } else {
        Some(
            match actions {
                NPCActions::Offensive { focus } => if !spec_can_aggro(npc, a.focus_info) {
                    NPCDesicion::SetAnimation(AnimType::Idle)
                } else {
                    match a.ranged_move {
                        Some((move_id, true)) => NPCDesicion::BasicAttack {
                            direction: a.attack_direction,
                            move_id,
                        },
                        _ => NPCDesicion::Move { target: a.toward_focus },
                    }
                },
                NPCActions::Defensive => NPCDesicion::Move { target: a.away_from_foes },
                NPCActions::Idle { explore } => if a.explore_is_zero {
                    NPCDesicion::Idle
                } else {
                    NPCDesicion::Move { target: explore }
                },
            },
        )
    }
}

/// Decides what an NPC does this frame; see [`spec_decision`]. The NPC's animation
/// blocks when its data says so.
pub fn plan_decision<V: Copy, D: Copy>(
    npc: &NPCInfo,
    anim: &AnimationHandler,
    actions: &NPCActions<V>,
    assessment: Assessment<V, D>,
) -> (r: Option<NPCDesicion<V, D>>)
    ensures
        r == spec_decision(
            *npc,
            match anim.spritesheet.data.spec_get(anim.spec_current()) {
                Some(data) => !data.spec_is_blocking(),
                None => false,
            },
            *actions,
            assessment,
        ),
{
    let blocking = match anim.animation_data() {
        Some(data) => !data.is_blocking(),
        None => false,
    };
    if blocking {
        return None;
    }
    let decision = match actions {
        NPCActions::Offensive { focus: _ } => {
            if !can_aggro(npc, &assessment.focus_info) {
                NPCDesicion::SetAnimation(AnimType::Idle)
            } else {
                match assessment.ranged_move {
                    Some((move_id, in_range)) => {
                        if in_range {
                            NPCDesicion::BasicAttack {
                                direction: assessment.attack_direction,
                                move_id,
                            }
                        } else {
                            NPCDesicion::Move { target: assessment.toward_focus }
                        }
                    },
                    None => NPCDesicion::Move { target: assessment.toward_focus },
                }
            }
        },
        NPCActions::Defensive => NPCDesicion::Move { target: assessment.away_from_foes },
        NPCActions::Idle { explore } => {
            if assessment.explore_is_zero {
                NPCDesicion::Idle
            } else {
                NPCDesicion::Move { target: *explore }
            }
        },
    };
    Some(decision)
}

/// Carries out the animation part of an attack decision: when the current animation
/// has data and does not block, the tackle animation starts (in case the move does not
/// set one) and the attack goes ahead. Returns whether it does.
pub fn commit_attack(anim: &mut AnimationHandler) -> (r: bool)
    ensures
        r == match old(anim).spritesheet.data.spec_get(old(anim).spec_current()) {
            Some(data) => data.spec_is_blocking(),
            None => false,
        },
        r ==> final(anim).spec_current() == AnimType::AttackTackle && !final(anim).looping,
        r ==> final(anim).animations == old(anim).animations && final(anim).spritesheet == old(
            anim,
        ).spritesheet,
        !r ==> *final(anim) == *old(anim),
{
    match anim.animation_data() {
        Some(data) => {
            if data.is_blocking() {
                anim.start_animation(AnimType::AttackTackle);
                true
            } else {
                false
            }
        },
        None => false,
    }
}

} // verus!
