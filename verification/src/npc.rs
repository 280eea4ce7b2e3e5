use vstd::prelude::*;

pub mod ai;
pub mod animation;
pub mod stats;

verus! {

/// Identifies the kind of an in-world NPC, which can interact with the player and the
/// world via collision, player interaction and contact damage, and acts through its AI.
#[derive(Debug, Clone, Copy, PartialEq, Eq, Structural, Hash)]
pub enum NPC {
    /// An NPC missing its identifier.
    Void,
    Geodude,
}

impl Default for NPC {
    fn default() -> (r: Self)
        ensures
            r == NPC::Void,
    {
        NPC::Void
    }
}

/// The number of NPC kinds.
pub open spec fn npc_count() -> nat {
    2
}

/// The position of an NPC kind in declaration order.
pub open spec fn npc_index(npc: NPC) -> nat {
    match npc {
        NPC::Void => 0,
        NPC::Geodude => 1,
    }
}

impl NPC {
    /// The NPC kind at position `value` in declaration order; an error when there is
    /// no kind at that position.
    pub fn try_from(value: usize) -> (r: Result<NPC, ()>)
        ensures
            match r {
                Ok(npc) => value < npc_count() && npc_index(npc) == value,
                Err(()) => value >= npc_count(),
            },
    {
        if value >= 2 {
            return Err(());
        }
        if value == 0 {
            Ok(NPC::Void)
        } else {
            Ok(NPC::Geodude)
        }
    }

    /// The position of this kind in declaration order.
    pub fn index(self) -> (r: usize)
        ensures
            r == npc_index(self),
    {
        match self {
            NPC::Void => 0,
            NPC::Geodude => 1,
        }
    }
}

/// Every NPC kind has a position below the number of kinds, and no two kinds share
/// one: converting a kind's position back gives the kind.
pub proof fn lemma_npc_index_roundtrip(a: NPC, b: NPC)
    ensures
        npc_index(a) < npc_count(),
        npc_index(a) == npc_index(b) ==> a == b,
{
}

/// What kind of NPC this is.
#[derive(Debug, Clone, Copy, PartialEq, Eq, Structural)]
pub enum NPCInfo {
    /// This NPC does no kind of in-world interaction.
    Inert,
    /// This NPC can be collided with, but does nothing.
    Silent,
    /// This NPC can deal damage to the player.
    Enemy {},
    Team,
}

impl Default for NPCInfo {
    fn default() -> (r: Self)
        ensures
            r == NPCInfo::Inert,
    {
        NPCInfo::Inert
    }
}

/// Which components a spawned NPC receives besides its basic ones.
#[derive(Debug, Clone, Copy, PartialEq, Eq, Structural)]
pub struct SpawnedComponents {
    /// The animation and AI state.
    pub animation: bool,
    /// Health and damage.
    pub stats: bool,
}

impl NPCInfo {
    /// Whether an NPC of this kind needs stats (health and damage) to be spawned.
    pub open spec fn needs_stats(self) -> bool {
        self is Enemy || self is Team
    }

    /// The components an NPC of this kind receives when spawned, given whether its
    /// data provides stats. Enemies and team members must come with stats.
    pub fn spawned_components(&self, has_stats: bool) -> (r: SpawnedComponents)
        requires
            self.needs_stats() ==> has_stats,
        ensures
            r.animation == !(*self is Inert),
            r.stats == self.needs_stats(),
    {
        match self {
            NPCInfo::Inert => SpawnedComponents { animation: false, stats: false },
            NPCInfo::Silent => SpawnedComponents { animation: true, stats: false },
            NPCInfo::Enemy {} => SpawnedComponents { animation: true, stats: true },
            NPCInfo::Team => SpawnedComponents { animation: true, stats: true },
        }
    }
}

} // verus!
