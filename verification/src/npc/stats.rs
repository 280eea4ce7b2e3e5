use vstd::prelude::*;

use crate::collision::CollisionLayers;

verus! {

/// Hit points. When they reach 0, the entity is despawned unless that is handled.
#[derive(Debug, Clone, Copy)]
pub struct Health {
    pub hp: i64,
    /// Can be set to true, but never back to false after initialization.
    do_not_despawn_on_faint: bool,
    currently_handling: bool,
}

impl Health {
    /// The hit points.
    pub closed spec fn spec_hp(self) -> i64 {
        self.hp
    }

    /// Whether the entity is kept when it faints.
    pub closed spec fn spec_keeps_on_faint(self) -> bool {
        self.do_not_despawn_on_faint
    }

    /// Whether its fainting is being handled.
    pub closed spec fn spec_handling(self) -> bool {
        self.currently_handling
    }

    /// Full health of `hp` points.
    pub fn new(hp: i64) -> (r: Self)
        ensures
            r.spec_hp() == hp,
            !r.spec_keeps_on_faint(),
            !r.spec_handling(),
    {
        Health { hp, do_not_despawn_on_faint: false, currently_handling: false }
    }

    /// The hit points.
    pub fn hp(&self) -> (r: i64)
        ensures
            r == self.spec_hp(),
    {
        self.hp
    }

    /// Whether the entity has run out of hit points.
    pub fn is_dead(&self) -> (r: bool)
        ensures
            r == (self.spec_hp() <= 0),
    {
        self.hp <= 0
    }

    /// The layers whose colliders hurt: projectiles and attacks.
    pub open spec fn hurting_layers() -> u32 {
        8u32 | 16u32
    }

    /// Takes a hit from a collider on `attacker` layers dealing `damage`: only
    /// projectiles and attacks hurt. Returns whether the hit counted.
    pub fn take_hits(&mut self, attacker: &CollisionLayers, damage: &Damage) -> (r: bool)
        requires
            attacker.bits & Self::hurting_layers() != 0 ==> i64::MIN <= old(self).spec_hp()
                - damage.0 <= i64::MAX,
        ensures
            r == (attacker.bits & Self::hurting_layers() != 0),
            final(self).spec_hp() == (if r {
                old(self).spec_hp() - damage.0
            } else {
                old(self).spec_hp() as int
            }),
            final(self).spec_keeps_on_faint() == old(self).spec_keeps_on_faint(),
            final(self).spec_handling() == old(self).spec_handling(),
    {
        let hurting = CollisionLayers::projectile().union(CollisionLayers::attack());
        if !attacker.intersects(&hurting) {
            return false;
        }
        self.hp = self.hp - damage.0;
        true
    }
}

impl Default for Health {
    fn default() -> (r: Self)
        ensures
            r.spec_hp() == 0,
            !r.spec_keeps_on_faint(),
            !r.spec_handling(),
    {
        Health::new(0)
    }
}

/// The damage an entity deals with its attacks.
#[derive(Debug, Clone, Copy, PartialEq, Eq, Structural)]
pub struct Damage(pub i64);

impl Default for Damage {
    fn default() -> (r: Self)
        ensures
            r.0 == 0,
    {
        Damage(0)
    }
}

} // verus!
