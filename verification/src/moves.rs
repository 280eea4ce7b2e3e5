use vstd::prelude::*;

verus! {

/// A move, that is an attack, that temporarily exists in the world.
#[derive(Debug, Clone, Copy, PartialEq, Eq, Structural, Hash)]
pub enum Move {
    Void,
    Tackle,
    MagicalLeaf,
}

impl Default for Move {
    fn default() -> (r: Self)
        ensures
            r == Move::Void,
    {
        Move::Void
    }
}

/// The moves an NPC knows, in order of preference.
#[derive(Debug, Clone, Default)]
pub struct Moves(pub Vec<Move>);

/// Marker of a Magical Leaf move: it shoots a leaf projectile.
#[derive(Debug, Clone, Copy, PartialEq, Eq, Structural)]
pub struct MagicalLeaf;

/// Marker of a Tackle move: its user charges forward.
#[derive(Debug, Clone, Copy, PartialEq, Eq, Structural)]
pub struct Tackle;

/// Marker of the move that does nothing.
#[derive(Debug, Clone, Copy, PartialEq, Eq, Structural)]
pub struct VoidedMove;

/// A kind of projectile.
#[derive(Debug, Clone, Copy, PartialEq, Eq, Structural, Hash)]
pub enum Projectile {
    Void,
    LeafAttack,
}

impl Default for Projectile {
    fn default() -> (r: Self)
        ensures
            r == Projectile::Void,
    {
        Projectile::Void
    }
}

} // verus!
