use std::collections::HashSet;
use vstd::prelude::*;

verus! {

broadcast use vstd::std_specs::hash::group_hash_axioms;

/// A body pushed around by collisions: the tiles it stands on, the tiles it is blocked
/// by, and its motion (of vector type `V`).
#[derive(Debug)]
pub struct Rigidbody<V> {
    pub ground: HashSet<u64>,
    pub wall: HashSet<u64>,
    pub velocity: V,
    pub previous_position: V,
    pub last_push: V,
}

impl<V> Rigidbody<V> {
    /// A body touching nothing, with the given motion.
    pub fn new(velocity: V, previous_position: V, last_push: V) -> (r: Self)
        ensures
            r.ground@ == Set::<u64>::empty(),
            r.wall@ == Set::<u64>::empty(),
            r.velocity == velocity,
            r.previous_position == previous_position,
            r.last_push == last_push,
    {
        Rigidbody { ground: HashSet::new(), wall: HashSet::new(), velocity, previous_position, last_push }
    }

    /// Records a collision with the tile `other`: the body stands on it when it came
    /// from above its surface, and is blocked by it as a wall otherwise.
    pub fn touch(&mut self, other: u64, from_above: bool)
        ensures
            final(self).ground@ == (if from_above {
                old(self).ground@.insert(other)
            } else {
                old(self).ground@
            }),
            final(self).wall@ == (if from_above {
                old(self).wall@
            } else {
                old(self).wall@.insert(other)
            }),
            final(self).velocity == old(self).velocity,
            final(self).previous_position == old(self).previous_position,
            final(self).last_push == old(self).last_push,
    {
        if from_above {
            self.ground.insert(other);
        } else {
            self.wall.insert(other);
        }
    }

    /// Forgets the tile `other` once the body no longer collides with it.
    pub fn unground_on_leave(&mut self, other: u64)
        ensures
            final(self).ground@ == old(self).ground@.remove(other),
            final(self).wall@ == old(self).wall@.remove(other),
            final(self).velocity == old(self).velocity,
            final(self).previous_position == old(self).previous_position,
            final(self).last_push == old(self).last_push,
    {
        self.ground.remove(&other);
        self.wall.remove(&other);
    }
}

/// The tiles a tilemap-bound body stands on and is blocked by.
#[derive(Debug)]
pub struct TilemapRigidbody {
    pub ground: HashSet<u64>,
    pub wall: HashSet<u64>,
}

impl TilemapRigidbody {
    /// A body touching no tile.
    pub fn new() -> (r: Self)
        ensures
            r.ground@ == Set::<u64>::empty(),
            r.wall@ == Set::<u64>::empty(),
    {
        TilemapRigidbody { ground: HashSet::new(), wall: HashSet::new() }
    }
}

/// Touching a tile and then leaving it forgets it again, whether it was ground or wall.
pub proof fn lemma_touch_then_leave(ground: Set<u64>, wall: Set<u64>, other: u64, from_above: bool)
    ensures
        (if from_above {
            ground.insert(other)
        } else {
            ground
        }).remove(other) == ground.remove(other),
        (if from_above {
            wall
        } else {
            wall.insert(other)
        }).remove(other) == wall.remove(other),
{
    assert(ground.insert(other).remove(other) =~= ground.remove(other));
    assert(wall.insert(other).remove(other) =~= wall.remove(other));
}

} // verus!
