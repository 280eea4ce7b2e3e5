//! Game logic of a top-down action game: animations, collisions, NPCs and tilemaps.
use vstd::prelude::*;

pub mod animation;
pub mod assets;
pub mod npc;
pub mod collision;
pub mod editor;
pub mod ldtk;
pub mod mesh;
pub mod moves;
pub mod physics;
pub mod shaymin;
pub mod tile;
pub mod tilemap;

verus! {

/// The conversion rate from LDtk pixels to in-game world units (minsteps).
pub const LDTK_PX_TO_WORLD: u32 = 32;

/// Pixels to minsteps, rounding towards zero.
pub open spec fn spec_to_minsteps(input: int) -> int {
    if input >= 0 {
        input / 32
    } else {
        -((-input) / 32)
    }
}

/// Pixels to minsteps.
pub fn to_minsteps_u32(input: u32) -> (r: u32)
    ensures
        r == input / 32,
{
    input / LDTK_PX_TO_WORLD
}

/// Pixels to minsteps, rounding towards zero.
pub fn to_minsteps_i32(input: i32) -> (r: i32)
    ensures
        r == spec_to_minsteps(input as int),
{
    input / (LDTK_PX_TO_WORLD as i32)
}

} // verus!
