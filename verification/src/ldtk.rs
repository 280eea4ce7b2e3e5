use vstd::prelude::*;

use crate::tile::{all_tile_flag_bits, TileFlags};
use crate::tilemap::LevelGeometry;

verus! {

/// A change to a loaded map asset, identified by the asset's id.
#[derive(Debug, Clone, Copy, PartialEq, Eq, Structural)]
pub enum MapAssetEvent {
    Added(u64),
    Modified(u64),
    Removed(u64),
    /// Any other asset event, which is ignored.
    Other,
}

/// The maps to respawn after a batch of asset events: each addition or modification
/// lists its map, and a removal drops the entries listed so far for the removed map,
/// so that a map changed and then removed in the same batch is not respawned.
pub open spec fn spec_changed_maps(events: Seq<MapAssetEvent>) -> Seq<u64>
    decreases events.len(),
{
    if events.len() == 0 {
        Seq::empty()
    } else {
        let rest = spec_changed_maps(events.drop_last());
        match events.last() {
            MapAssetEvent::Added(id) => rest.push(id),
            MapAssetEvent::Modified(id) => rest.push(id),
            MapAssetEvent::Removed(id) => rest.filter(|x: u64| x != id),
            MapAssetEvent::Other => rest,
        }
    }
}

/// Whether map `x` is added or modified by some event of the batch that no later
/// removal of `x` cancels.
pub open spec fn spec_respawned(events: Seq<MapAssetEvent>, x: u64) -> bool {
    exists|i: int|
        0 <= i < events.len() && (events[i] == MapAssetEvent::Added(x) || events[i]
            == MapAssetEvent::Modified(x)) && forall|j: int|
            i < j < events.len() ==> events[j] != MapAssetEvent::Removed(x)
}

/// A map is respawned after a batch exactly when it is added or modified and no later
/// removal of that map cancels it; removals of other maps leave it alone.
pub proof fn lemma_changed_maps_respawned(events: Seq<MapAssetEvent>, x: u64)
    ensures
        spec_changed_maps(events).contains(x) <==> spec_respawned(events, x),
    decreases events.len(),
{
    broadcast use vstd::seq_lib::group_seq_properties;

    if events.len() > 0 {
        let rest = events.drop_last();
        let n = events.len() - 1;
        lemma_changed_maps_respawned(rest, x);
        let r = spec_changed_maps(rest);
        if spec_respawned(rest, x) {
            let i = choose|i: int|
                0 <= i < rest.len() && (rest[i] == MapAssetEvent::Added(x) || rest[i]
                    == MapAssetEvent::Modified(x)) && forall|j: int|
                    i < j < rest.len() ==> rest[j] != MapAssetEvent::Removed(x);
            assert(events[i] == rest[i]);
            if events.last() != MapAssetEvent::Removed(x) {
                assert forall|j: int| i < j < events.len() implies events[j]
                    != MapAssetEvent::Removed(x) by {
                    if j < n {
                        assert(events[j] == rest[j]);
                    }
                }
            }
        }
        if spec_respawned(events, x) {
            let i = choose|i: int|
                0 <= i < events.len() && (events[i] == MapAssetEvent::Added(x) || events[i]
                    == MapAssetEvent::Modified(x)) && forall|j: int|
                    i < j < events.len() ==> events[j] != MapAssetEvent::Removed(x);
            if i < n {
                assert(rest[i] == events[i]);
                assert forall|j: int| i < j < rest.len() implies rest[j] != MapAssetEvent::Removed(
                    x,
                ) by {
                    assert(rest[j] == events[j]);
                }
            }
        }
        match events.last() {
            MapAssetEvent::Added(id) => {
                assert(r.push(id).contains(x) <==> (r.contains(x) || x == id));
                if x == id {
                    assert(events[n] == MapAssetEvent::Added(x));
                }
            },
            MapAssetEvent::Modified(id) => {
                assert(r.push(id).contains(x) <==> (r.contains(x) || x == id));
                if x == id {
                    assert(events[n] == MapAssetEvent::Modified(x));
                }
            },
            MapAssetEvent::Removed(id) => {
                let pred = |y: u64| y != id;
                if r.filter(pred).contains(x) {
                    let k = choose|k: int| 0 <= k < r.filter(pred).len() && r.filter(pred)[k] == x;
                    r.lemma_filter_pred(pred, k);
                    r.lemma_filter_contains_rev(pred, x);
                } else if r.contains(x) && x != id {
                    let k = choose|k: int| 0 <= k < r.len() && r[k] == x;
                    r.lemma_filter_contains(pred, k);
                }
            },
            MapAssetEvent::Other => {},
        }
    }
}

/// Collects the maps to respawn from a batch of asset events; see [`spec_changed_maps`].
pub fn changed_maps(events: &Vec<MapAssetEvent>) -> (r: Vec<u64>)
    ensures
        r@ == spec_changed_maps(events@),
{
    let mut r: Vec<u64> = Vec::new();
    let mut i: usize = 0;
    while i < events.len()
        invariant
            0 <= i <= events.len(),
            r@ == spec_changed_maps(events@.take(i as int)),
        decreases events.len() - i,
    {
        proof {
            assert(events@.take(i + 1).drop_last() =~= events@.take(i as int));
        }
        match events[i] {
            MapAssetEvent::Added(id) => r.push(id),
            MapAssetEvent::Modified(id) => r.push(id),
            MapAssetEvent::Removed(id) => {
                let ghost before = r@;
                let mut kept: Vec<u64> = Vec::new();
                let mut j: usize = 0;
                while j < r.len()
                    invariant
                        0 <= j <= r.len(),
                        r@ == before,
                        kept@ == before.take(j as int).filter(|x: u64| x != id),
                    decreases r.len() - j,
                {
                    proof {
                        assert(before.take(j + 1).drop_last() =~= before.take(j as int));
                        reveal_with_fuel(Seq::<u64>::filter, 1);
                    }
                    if r[j] != id {
                        kept.push(r[j]);
                    }
                    j = j + 1;
                }
                proof {
                    assert(before.take(before.len() as int) =~= before);
                }
                r = kept;
            },
            MapAssetEvent::Other => {},
        }
        i = i + 1;
    }
    proof {
        assert(events@.take(events@.len() as int) =~= events@);
    }
    r
}

/// `a / b` rounded towards zero (Rust's integer division), for `b != 0`.
pub open spec fn spec_div_toward_zero(a: int, b: int) -> int {
    let q = (if a >= 0 { a } else { -a }) / (if b >= 0 { b } else { -b });
    if (a >= 0) == (b > 0) {
        q
    } else {
        -q
    }
}

/// The position on the tile grid of a tile at pixel position `(px_x, px_y)`, for
/// tiles `grid` pixels wide: the pixel position divided by `grid` (rounded towards
/// zero) and taken as a `u32` (wrapping around, for positions outside the grid's
/// range).
pub fn tile_grid_position(px_x: i64, px_y: i64, grid: i64) -> (r: (u32, u32))
    requires
        grid != 0,
        !(px_x == i64::MIN && grid == -1),
        !(px_y == i64::MIN && grid == -1),
    ensures
        r == (
            spec_div_toward_zero(px_x as int, grid as int) as u32,
            spec_div_toward_zero(px_y as int, grid as int) as u32,
        ),
{
    (quotient_toward_zero(px_x, grid) as u32, quotient_toward_zero(px_y, grid) as u32)
}

/// Rust's quotient `a / b`, computed on magnitudes.
fn quotient_toward_zero(a: i64, b: i64) -> (q: i128)
    requires
        b != 0,
    ensures
        q == spec_div_toward_zero(a as int, b as int),
{
    let wide_a = a as i128;
    let wide_b = b as i128;
    let magnitude_a: u128 = if wide_a >= 0 { wide_a as u128 } else { (-wide_a) as u128 };
    let magnitude_b: u128 = if wide_b >= 0 { wide_b as u128 } else { (-wide_b) as u128 };
    let magnitude = magnitude_a / magnitude_b;
    assert(magnitude <= magnitude_a) by (nonlinear_arith)
        requires
            magnitude == magnitude_a / magnitude_b,
            magnitude_b >= 1,
    ;
    if (a >= 0) == (b > 0) {
        magnitude as i128
    } else {
        -(magnitude as i128)
    }
}

/// The flags of a tile: the ones saved for it, if any, or else the flip bits LDtk
/// gives it (bits naming no flag make LDtk's bits count for nothing).
pub fn resolve_tile_flags(saved: Option<TileFlags>, ldtk_bits: u32) -> (r: TileFlags)
    ensures
        r == match saved {
            Some(f) => f,
            None => if ldtk_bits & !all_tile_flag_bits() == 0 {
                TileFlags { bits: ldtk_bits }
            } else {
                TileFlags { bits: 0 }
            },
        },
{
    match saved {
        Some(f) => f,
        None => {
            let from_ldtk = match TileFlags::from_bits(ldtk_bits) {
                Some(f) => f,
                None => TileFlags::empty(),
            };
            let r = TileFlags::empty().union(from_ldtk);
            proof {
                assert(0u32 | from_ldtk.bits == from_ldtk.bits) by (bit_vector);
            }
            r
        },
    }
}


/// A level as an LDtk project file gives it: its id and where it lies, in pixels.
#[derive(Debug, Clone, Copy, PartialEq, Eq, Structural)]
pub struct LdtkLevel {
    pub uid: i64,
    pub world_x: i64,
    pub world_y: i64,
    pub px_wid: i64,
    pub px_hei: i64,
}

/// What the library reads of an LDtk project: the default size of a tile in pixels,
/// the size of a cell of the world grid (absent outside grid-vania layouts) and the
/// levels, in the file's order.
#[derive(Debug, Clone)]
pub struct LdtkLayout {
    pub default_grid_size: i64,
    pub world_grid_width: Option<i64>,
    pub world_grid_height: Option<i64>,
    pub levels: Vec<LdtkLevel>,
}

/// The layout of the LDtk project that `bytes` hold as JSON (default grid size, world
/// grid width and height, levels), or nothing when they hold none.
pub uninterp spec fn spec_ldtk_layout(bytes: Seq<u8>) -> Option<
    (i64, Option<i64>, Option<i64>, Seq<LdtkLevel>),
>;

#[verifier::external_type_specification]
#[verifier::external_body]
pub struct ExLdtkProject(ldtk_rust::Project);

/// Parses an LDtk project file with `serde_json::from_slice` into an
/// `ldtk_rust::Project`, and picks the fields of its layout. The parse is a function
/// of the bytes alone, named by `spec_ldtk_layout`; the project itself is handed on
/// untouched and nothing is said of the fields not picked.
#[verifier::external_body]
fn parse_ldtk_project(bytes: &Vec<u8>) -> (r: Option<(ldtk_rust::Project, LdtkLayout)>)
    ensures
        r is None <==> spec_ldtk_layout(bytes@) is None,
        r matches Some((_, layout)) ==> spec_ldtk_layout(bytes@) == Some(
            (
                layout.default_grid_size,
                layout.world_grid_width,
                layout.world_grid_height,
                layout.levels@,
            ),
        ),
{
    let project: ldtk_rust::Project = serde_json::from_slice(bytes).ok()?;
    let levels = project.levels.iter().map(|level| LdtkLevel {
        uid: level.uid,
        world_x: level.world_x,
        world_y: level.world_y,
        px_wid: level.px_wid,
        px_hei: level.px_hei,
    }).collect();
    let layout = LdtkLayout {
        default_grid_size: project.default_grid_size,
        world_grid_width: project.world_grid_width,
        world_grid_height: project.world_grid_height,
        levels,
    };
    Some((project, layout))
}

/// A loaded LDtk project: the parsed file, and the layout the library reads of it.
pub struct LdtkProject {
    pub project: ldtk_rust::Project,
    pub layout: LdtkLayout,
}

/// Loads an LDtk project from the bytes of its file: nothing when they hold no LDtk
/// project, else the project and its layout (see [`spec_ldtk_layout`]).
pub fn load_ldtk_project(bytes: &Vec<u8>) -> (r: Option<LdtkProject>)
    ensures
        r is None <==> spec_ldtk_layout(bytes@) is None,
        r matches Some(p) ==> spec_ldtk_layout(bytes@) == Some(
            (
                p.layout.default_grid_size,
                p.layout.world_grid_width,
                p.layout.world_grid_height,
                p.layout.levels@,
            ),
        ),
{
    match parse_ldtk_project(bytes) {
        Some((project, layout)) => Some(LdtkProject { project, layout }),
        None => None,
    }
}

/// A level's geometry in the library's units, each pixel value taken as an `i32`.
pub open spec fn spec_level_geometry(level: LdtkLevel) -> LevelGeometry {
    LevelGeometry {
        world_x: level.world_x as i32,
        world_y: level.world_y as i32,
        px_wid: level.px_wid as i32,
        px_hei: level.px_hei as i32,
    }
}

/// The world grid cell size and the levels' geometry of a project, each value taken as
/// an `i32`; nothing when the project has no world grid.
pub fn level_geometries(layout: &LdtkLayout) -> (r: Option<(i32, i32, Vec<LevelGeometry>)>)
    ensures
        r is None <==> layout.world_grid_width is None || layout.world_grid_height is None,
        r matches Some((width, height, levels)) ==> {
            &&& width == layout.world_grid_width->0 as i32
            &&& height == layout.world_grid_height->0 as i32
            &&& levels@.len() == layout.levels@.len()
            &&& forall|i: int|
                0 <= i < levels@.len() ==> #[trigger] levels@[i] == spec_level_geometry(
                    layout.levels@[i],
                )
        },
{
    let width = match layout.world_grid_width {
        Some(w) => w as i32,
        None => {
            return None;
        },
    };
    let height = match layout.world_grid_height {
        Some(h) => h as i32,
        None => {
            return None;
        },
    };
    let mut levels: Vec<LevelGeometry> = Vec::new();
    let mut i: usize = 0;
    while i < layout.levels.len()
        invariant
            0 <= i <= layout.levels@.len(),
            levels@.len() == i,
            forall|j: int|
                0 <= j < i ==> #[trigger] levels@[j] == spec_level_geometry(layout.levels@[j]),
        decreases layout.levels@.len() - i,
    {
        let level = layout.levels[i];
        levels.push(
            LevelGeometry {
                world_x: level.world_x as i32,
                world_y: level.world_y as i32,
                px_wid: level.px_wid as i32,
                px_hei: level.px_hei as i32,
            },
        );
        i = i + 1;
    }
    Some((width, height, levels))
}

} // verus!
