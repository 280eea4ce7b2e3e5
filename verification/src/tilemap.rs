use vstd::prelude::*;

use crate::{spec_to_minsteps, to_minsteps_i32};

verus! {

/// Converts a coordinate in minstep units to the coarser tilemap units (eight minsteps
/// each), rounding down.
pub open spec fn spec_minstep_to_tilemap(input: int) -> int {
    input / 8
}

/// Converts a coordinate in minstep units to the coarser tilemap units (eight minsteps
/// each), rounding down.
pub fn minstep_to_tilemap(input: i32) -> (r: i32)
    ensures
        r == spec_minstep_to_tilemap(input as int),
        8 * r <= input < 8 * r + 8,
{
    let q = input / 8;
    let m = input % 8;
    if m < 0 {
        q - 1
    } else {
        q
    }
}

/// A point of the tile grid.
#[derive(Debug, Clone, Copy, PartialEq, Eq, Structural)]
pub struct IPoint {
    pub x: i32,
    pub y: i32,
}

/// A width and a height of the tile grid.
#[derive(Debug, Clone, Copy, PartialEq, Eq, Structural)]
pub struct GridSize {
    pub x: u32,
    pub y: u32,
}

/// A rectangle of the tile grid, from `min` (inclusive) to `max` (exclusive).
#[derive(Debug, Clone, Copy, PartialEq, Eq, Structural)]
pub struct TileRect {
    pub min: IPoint,
    pub max: IPoint,
}

/// The smaller of two integers.
pub open spec fn min_int(a: int, b: int) -> int {
    if a <= b {
        a
    } else {
        b
    }
}

/// The larger of two integers.
pub open spec fn max_int(a: int, b: int) -> int {
    if a >= b {
        a
    } else {
        b
    }
}

fn min_i32(a: i32, b: i32) -> (r: i32)
    ensures
        r == min_int(a as int, b as int),
{
    if a <= b {
        a
    } else {
        b
    }
}

fn max_i32(a: i32, b: i32) -> (r: i32)
    ensures
        r == max_int(a as int, b as int),
{
    if a >= b {
        a
    } else {
        b
    }
}

/// The rectangle containing no point, the neutral element of [`TileRect::union`].
pub open spec fn spec_empty_rect() -> TileRect {
    TileRect { min: IPoint { x: i32::MAX, y: i32::MAX }, max: IPoint { x: i32::MIN, y: i32::MIN } }
}

/// The smallest rectangle covering both rectangles.
pub open spec fn spec_union(a: TileRect, b: TileRect) -> TileRect {
    TileRect {
        min: IPoint {
            x: min_int(a.min.x as int, b.min.x as int) as i32,
            y: min_int(a.min.y as int, b.min.y as int) as i32,
        },
        max: IPoint {
            x: max_int(a.max.x as int, b.max.x as int) as i32,
            y: max_int(a.max.y as int, b.max.y as int) as i32,
        },
    }
}

impl TileRect {
    /// The rectangle containing no point.
    pub fn empty() -> (r: Self)
        ensures
            r == spec_empty_rect(),
    {
        TileRect { min: IPoint { x: i32::MAX, y: i32::MAX }, max: IPoint { x: i32::MIN, y: i32::MIN } }
    }

    /// The rectangle spanned by two opposite corners.
    pub fn from_corners(p0: IPoint, p1: IPoint) -> (r: Self)
        ensures
            r.min.x == min_int(p0.x as int, p1.x as int),
            r.min.y == min_int(p0.y as int, p1.y as int),
            r.max.x == max_int(p0.x as int, p1.x as int),
            r.max.y == max_int(p0.y as int, p1.y as int),
    {
        TileRect {
            min: IPoint { x: min_i32(p0.x, p1.x), y: min_i32(p0.y, p1.y) },
            max: IPoint { x: max_i32(p0.x, p1.x), y: max_i32(p0.y, p1.y) },
        }
    }

    /// The smallest rectangle covering both rectangles.
    pub fn union(self, other: Self) -> (r: Self)
        ensures
            r == spec_union(self, other),
    {
        TileRect {
            min: IPoint { x: min_i32(self.min.x, other.min.x), y: min_i32(self.min.y, other.min.y) },
            max: IPoint { x: max_i32(self.max.x, other.max.x), y: max_i32(self.max.y, other.max.y) },
        }
    }
}

/// The union of two rectangles covers both and does not depend on their order;
/// the empty rectangle changes nothing.
pub proof fn lemma_union_laws(a: TileRect, b: TileRect, c: TileRect)
    ensures
        spec_union(a, b) == spec_union(b, a),
        spec_union(spec_union(a, b), c) == spec_union(a, spec_union(b, c)),
        spec_union(spec_empty_rect(), a) == a,
        spec_union(a, b).min.x <= a.min.x && spec_union(a, b).min.y <= a.min.y,
        spec_union(a, b).max.x >= a.max.x && spec_union(a, b).max.y >= a.max.y,
{
}

/// Where a level lies in the world, in LDtk pixels.
#[derive(Debug, Clone, Copy, PartialEq, Eq, Structural)]
pub struct LevelGeometry {
    pub world_x: i32,
    pub world_y: i32,
    pub px_wid: i32,
    pub px_hei: i32,
}

/// A pixel coordinate in tilemap units.
pub open spec fn spec_px_to_tilemap(px: int) -> int {
    spec_minstep_to_tilemap(spec_to_minsteps(px))
}

/// The corner of a level in tilemap units.
pub open spec fn spec_level_pos(level: LevelGeometry) -> IPoint {
    IPoint {
        x: spec_px_to_tilemap(level.world_x as int) as i32,
        y: spec_px_to_tilemap(level.world_y as int) as i32,
    }
}

/// The width and height of a level in tilemap units.
pub open spec fn spec_level_size(level: LevelGeometry) -> (int, int) {
    (spec_px_to_tilemap(level.px_wid as int), spec_px_to_tilemap(level.px_hei as int))
}

/// The rectangle of the tile grid a level covers.
pub open spec fn spec_level_chunk(level: LevelGeometry) -> TileRect {
    let pos = spec_level_pos(level);
    let (w, h) = spec_level_size(level);
    TileRect {
        min: IPoint {
            x: min_int(pos.x as int, pos.x + w) as i32,
            y: min_int(pos.y as int, pos.y + h) as i32,
        },
        max: IPoint {
            x: max_int(pos.x as int, pos.x + w) as i32,
            y: max_int(pos.y as int, pos.y + h) as i32,
        },
    }
}

/// The rectangle covering all the given levels.
pub open spec fn spec_levels_bounds(levels: Seq<LevelGeometry>) -> TileRect
    decreases levels.len(),
{
    if levels.len() == 0 {
        spec_empty_rect()
    } else {
        spec_union(spec_levels_bounds(levels.drop_last()), spec_level_chunk(levels.last()))
    }
}

/// Pixel coordinates become small tilemap coordinates.
proof fn lemma_px_to_tilemap_bounds(px: i32)
    ensures
        -8388608 <= spec_px_to_tilemap(px as int) <= 8388607,
{
    let m = spec_to_minsteps(px as int);
    assert(-67108864 <= m <= 67108863) by {
        if px >= 0 {
            assert(px / 32 <= 67108863) by (nonlinear_arith)
                requires
                    0 <= px <= 2147483647,
            ;
        } else {
            assert((-px) / 32 <= 67108864) by (nonlinear_arith)
                requires
                    0 < -px <= 2147483648,
            ;
        }
    }
}

/// The corner of a level in tilemap units.
pub fn level_pos(level: &LevelGeometry) -> (r: IPoint)
    ensures
        r == spec_level_pos(*level),
        -8388608 <= r.x <= 8388607,
        -8388608 <= r.y <= 8388607,
{
    proof {
        lemma_px_to_tilemap_bounds(level.world_x);
        lemma_px_to_tilemap_bounds(level.world_y);
    }
    IPoint {
        x: minstep_to_tilemap(to_minsteps_i32(level.world_x)),
        y: minstep_to_tilemap(to_minsteps_i32(level.world_y)),
    }
}

/// The rectangle of the tile grid a level covers.
pub fn level_chunk(level: &LevelGeometry) -> (r: TileRect)
    ensures
        r == spec_level_chunk(*level),
        -16777216 <= r.min.x <= r.max.x <= 16777216,
        -16777216 <= r.min.y <= r.max.y <= 16777216,
{
    proof {
        lemma_px_to_tilemap_bounds(level.px_wid);
        lemma_px_to_tilemap_bounds(level.px_hei);
    }
    let pos = level_pos(level);
    let w = minstep_to_tilemap(to_minsteps_i32(level.px_wid));
    let h = minstep_to_tilemap(to_minsteps_i32(level.px_hei));
    TileRect::from_corners(pos, IPoint { x: pos.x + w, y: pos.y + h })
}

/// The part of the tile grid covered by the levels of a project: where it starts
/// (`offset`), how large it is (`size`, in tilemap units), and the size of a tilemap
/// unit in minsteps (`cell_size`).
#[derive(Debug, Clone, Copy, PartialEq, Eq, Structural)]
pub struct TilemapBounds {
    pub offset: IPoint,
    pub size: GridSize,
    pub cell_size: IPoint,
}

proof fn lemma_chunk_range(l: LevelGeometry)
    ensures
        -16777216 <= spec_level_chunk(l).min.x <= spec_level_chunk(l).max.x <= 16777216,
        -16777216 <= spec_level_chunk(l).min.y <= spec_level_chunk(l).max.y <= 16777216,
{
    lemma_px_to_tilemap_bounds(l.world_x);
    lemma_px_to_tilemap_bounds(l.world_y);
    lemma_px_to_tilemap_bounds(l.px_wid);
    lemma_px_to_tilemap_bounds(l.px_hei);
    let pos = spec_level_pos(l);
    assert(pos.x == spec_px_to_tilemap(l.world_x as int));
    assert(pos.y == spec_px_to_tilemap(l.world_y as int));
}

proof fn lemma_bounds_range(levels: Seq<LevelGeometry>)
    requires
        levels.len() > 0,
    ensures
        -16777216 <= spec_levels_bounds(levels).min.x <= spec_levels_bounds(levels).max.x
            <= 16777216,
        -16777216 <= spec_levels_bounds(levels).min.y <= spec_levels_bounds(levels).max.y
            <= 16777216,
    decreases levels.len(),
{
    let c = spec_level_chunk(levels.last());
    lemma_chunk_range(levels.last());
    let rest = spec_levels_bounds(levels.drop_last());
    assert(spec_levels_bounds(levels) == spec_union(rest, c));
    if levels.len() > 1 {
        lemma_bounds_range(levels.drop_last());
    } else {
        assert(rest == spec_empty_rect());
    }
}


proof fn lemma_chunk_in_bounds(levels: Seq<LevelGeometry>, i: int)
    requires
        0 <= i < levels.len(),
    ensures
        spec_levels_bounds(levels).min.x <= spec_level_chunk(levels[i]).min.x,
        spec_levels_bounds(levels).min.y <= spec_level_chunk(levels[i]).min.y,
        spec_level_chunk(levels[i]).max.x <= spec_levels_bounds(levels).max.x,
        spec_level_chunk(levels[i]).max.y <= spec_levels_bounds(levels).max.y,
    decreases levels.len(),
{
    lemma_chunk_range(levels.last());
    let rest = spec_levels_bounds(levels.drop_last());
    if levels.len() > 1 {
        lemma_bounds_range(levels.drop_last());
    }
    if i < levels.len() - 1 {
        lemma_chunk_in_bounds(levels.drop_last(), i);
        assert(levels.drop_last()[i] == levels[i]);
    }
}

/// Every tile position of a level's chunk lies within the grid covering the project's
/// levels: filling in the chunks of a project's levels never leaves the grid.
pub proof fn lemma_chunk_positions_in_grid(levels: Seq<LevelGeometry>, i: int, x: int, y: int)
    requires
        0 <= i < levels.len(),
        levels[i].px_wid >= 0,
        levels[i].px_hei >= 0,
        0 <= x < spec_level_size(levels[i]).0,
        0 <= y < spec_level_size(levels[i]).1,
    ensures
        ({
            let b = spec_levels_bounds(levels);
            let pos = spec_level_pos(levels[i]);
            &&& b.min.x <= pos.x
            &&& b.min.y <= pos.y
            &&& 0 <= pos.x - b.min.x + x < b.max.x - b.min.x
            &&& 0 <= pos.y - b.min.y + y < b.max.y - b.min.y
        }),
{
    let l = levels[i];
    lemma_chunk_in_bounds(levels, i);
    lemma_chunk_range(l);
    lemma_px_to_tilemap_bounds(l.world_x);
    lemma_px_to_tilemap_bounds(l.world_y);
    lemma_px_to_tilemap_bounds(l.px_wid);
    lemma_px_to_tilemap_bounds(l.px_hei);
    assert(spec_px_to_tilemap(l.px_wid as int) >= 0);
    assert(spec_px_to_tilemap(l.px_hei as int) >= 0);
}

impl TilemapBounds {
    /// The grid covering all `levels` of a project whose world grid cells are
    /// `grid_width` by `grid_height` pixels.
    pub fn from_project(grid_width: i32, grid_height: i32, levels: &Vec<LevelGeometry>) -> (r: Self)
        requires
            levels@.len() > 0,
        ensures
            r.offset == spec_levels_bounds(levels@).min,
            r.size.x == spec_levels_bounds(levels@).max.x - spec_levels_bounds(levels@).min.x,
            r.size.y == spec_levels_bounds(levels@).max.y - spec_levels_bounds(levels@).min.y,
            r.cell_size == (IPoint {
                x: spec_to_minsteps(grid_width as int) as i32,
                y: spec_to_minsteps(grid_height as int) as i32,
            }),
    {
        let cell_size = IPoint { x: to_minsteps_i32(grid_width), y: to_minsteps_i32(grid_height) };
        let mut container = TileRect::empty();
        let mut i: usize = 0;
        while i < levels.len()
            invariant
                0 <= i <= levels.len(),
                container == spec_levels_bounds(levels@.take(i as int)),
            decreases levels.len() - i,
        {
            let chunk = level_chunk(&levels[i]);
            proof {
                assert(levels@.take(i + 1).drop_last() =~= levels@.take(i as int));
            }
            container = container.union(chunk);
            i = i + 1;
        }
        proof {
            assert(levels@.take(levels@.len() as int) =~= levels@);
            lemma_bounds_range(levels@);
        }
        TilemapBounds {
            offset: container.min,
            size: GridSize {
                x: (container.max.x - container.min.x) as u32,
                y: (container.max.y - container.min.y) as u32,
            },
            cell_size,
        }
    }

    /// The tile position of the chunk of `level` in the grid.
    pub open spec fn spec_chunk_origin(self, level: LevelGeometry) -> (int, int) {
        (spec_level_pos(level).x - self.offset.x, spec_level_pos(level).y - self.offset.y)
    }

    /// The tile positions covered by the chunk of `level`, row after row of constant
    /// `x`: entry `x * h + y` is the position `(x0 + x, y0 + y)`, where `(x0, y0)` is
    /// the chunk's position in the grid and `w` by `h` its size.
    pub fn chunk_positions(&self, level: &LevelGeometry) -> (r: Vec<(u32, u32)>)
        requires
            spec_level_pos(*level).x >= self.offset.x,
            spec_level_pos(*level).y >= self.offset.y,
            level.px_wid >= 0,
            level.px_hei >= 0,
            -16777216 <= self.offset.x,
            -16777216 <= self.offset.y,
        ensures
            ({
                let (x0, y0) = self.spec_chunk_origin(*level);
                let (w, h) = spec_level_size(*level);
                &&& r@.len() == w * h
                &&& forall|x: int, y: int|
                    0 <= x < w && 0 <= y < h ==> #[trigger] r@[x * h + y] == (
                        (x0 + x) as u32,
                        (y0 + y) as u32,
                    )
            }),
    {
        proof {
            lemma_px_to_tilemap_bounds(level.px_wid);
            lemma_px_to_tilemap_bounds(level.px_hei);
        }
        let pos = level_pos(level);
        let x0 = (pos.x - self.offset.x) as u32;
        let y0 = (pos.y - self.offset.y) as u32;
        let w = minstep_to_tilemap(to_minsteps_i32(level.px_wid)) as u32;
        let h = minstep_to_tilemap(to_minsteps_i32(level.px_hei)) as u32;
        let mut r: Vec<(u32, u32)> = Vec::new();
        let mut x: u32 = 0;
        while x < w
            invariant
                0 <= x <= w,
                w == spec_level_size(*level).0,
                h == spec_level_size(*level).1,
                w <= 8388607,
                h <= 8388607,
                x0 <= 25165823,
                y0 <= 25165823,
                x0 == self.spec_chunk_origin(*level).0,
                y0 == self.spec_chunk_origin(*level).1,
                r@.len() == x * h,
                forall|a: int, b: int|
                    0 <= a < x && 0 <= b < h ==> #[trigger] r@[a * h + b] == (
                        (x0 + a) as u32,
                        (y0 + b) as u32,
                    ),
            decreases w - x,
        {
            let mut y: u32 = 0;
            while y < h
                invariant
                    0 <= x < w,
                    0 <= y <= h,
                    w <= 8388607,
                    h <= 8388607,
                    x0 <= 25165823,
                    y0 <= 25165823,
                    r@.len() == x * h + y,
                    forall|a: int, b: int|
                        0 <= a < x && 0 <= b < h ==> #[trigger] r@[a * h + b] == (
                            (x0 + a) as u32,
                            (y0 + b) as u32,
                        ),
                    forall|b: int|
                        0 <= b < y ==> #[trigger] r@[x * h + b] == ((x0 + x) as u32, (y0
                            + b) as u32),
                decreases h - y,
            {
                proof {
                    assert(x * h + y < (x + 1) * h) by (nonlinear_arith)
                        requires
                            y < h,
                    ;
                }
                let ghost before = r@;
                r.push((x0 + x, y0 + y));
                proof {
                    assert forall|a: int, b: int|
                        0 <= a < x && 0 <= b < h implies #[trigger] r@[a * h + b] == (
                        (x0 + a) as u32,
                        (y0 + b) as u32,
                    ) by {
                        assert(a * h + b < x * h) by (nonlinear_arith)
                            requires
                                0 <= a < x,
                                0 <= b < h,
                        ;
                        assert(r@[a * h + b] == before[a * h + b]);
                    }
                }
                y = y + 1;
            }
            proof {
                assert(r@.len() == (x + 1) * h) by (nonlinear_arith)
                    requires
                        r@.len() == x * h + h,
                ;
                assert forall|a: int, b: int|
                    0 <= a < x + 1 && 0 <= b < h implies #[trigger] r@[a * h + b] == (
                    (x0 + a) as u32,
                    (y0 + b) as u32,
                ) by {
                    if a == x {
                    }
                }
            }
            x = x + 1;
        }
        r
    }

    /// The tile position under a world position whose coordinates, rounded to whole
    /// minsteps, are `rounded`: relative to the grid's offset, and only if it lies
    /// within the grid.
    pub fn tile_at(&self, rounded: IPoint) -> (r: Option<(u32, u32)>)
        requires
            -16777216 <= self.offset.x <= 16777216,
            -16777216 <= self.offset.y <= 16777216,
        ensures
            ({
                let x = spec_minstep_to_tilemap(rounded.x as int) - self.offset.x;
                let y = spec_minstep_to_tilemap(rounded.y as int) - self.offset.y;
                r == if 0 <= x < self.size.x && 0 <= y < self.size.y {
                    Some((x as u32, y as u32))
                } else {
                    None::<(u32, u32)>
                }
            }),
    {
        let x = minstep_to_tilemap(rounded.x) - self.offset.x;
        let y = minstep_to_tilemap(rounded.y) - self.offset.y;
        if x < 0 || y < 0 {
            return None;
        }
        let ux = x as u32;
        let uy = y as u32;
        if ux < self.size.x && uy < self.size.y {
            Some((ux, uy))
        } else {
            None
        }
    }
}

} // verus!
