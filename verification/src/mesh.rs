use vstd::prelude::*;

use crate::tile::{TileDepth, TileFlags};

verus! {

/// The layout of the top face of a tile mesh. Vertex `i` lies at the corner
/// `corners[i]` of the tile (0: top left, 1: top right, 2: bottom right, 3: bottom
/// left) and takes the texture coordinates `uvs[i]` (0: `(1, 0)`, 1: `(0, 0)`,
/// 2: `(0, 1)`, 3: `(1, 1)`); `indices` lists the triangles, three vertices each.
#[derive(Debug, Clone)]
pub struct TopFace {
    pub corners: Vec<usize>,
    pub uvs: Vec<usize>,
    pub indices: Vec<u32>,
}

/// Whether any flag of `mask` is set in `flags`.
pub open spec fn has_flag(flags: TileFlags, mask: u32) -> bool {
    flags.bits & mask != 0
}

/// The texture coordinates of the four base vertices after the flips of `flags`.
pub open spec fn spec_base_uvs(flags: TileFlags) -> Seq<usize> {
    let start = seq![0usize, 1usize, 2usize, 3usize];
    let flipped_x = if has_flag(flags, 1) {
        seq![start[1], start[0], start[3], start[2]]
    } else {
        start
    };
    if has_flag(flags, 2) {
        seq![flipped_x[3], flipped_x[2], flipped_x[1], flipped_x[0]]
    } else {
        flipped_x
    }
}

/// `top_vertices` as a mathematical function: four vertices (top right, top left,
/// bottom left, bottom right) split along one diagonal, or along the other with
/// `FlipTriangles`; `Fold` duplicates two vertices so that each triangle has its own
/// texture orientation. `FlipX` and `FlipY` mirror the texture coordinates.
pub open spec fn spec_top_face(flags: TileFlags) -> (Seq<usize>, Seq<usize>, Seq<u32>) {
    let uvs = spec_base_uvs(flags);
    if has_flag(flags, 64) {
        (
            seq![1usize, 0usize, 3usize, 2usize, 1usize, 3usize],
            uvs + seq![uvs[0], uvs[2]],
            seq![0u32, 1u32, 2u32, 5u32, 3u32, 4u32],
        )
    } else if has_flag(flags, 16) {
        (seq![1usize, 0usize, 3usize, 2usize], uvs, seq![1u32, 2u32, 3u32, 3u32, 0u32, 1u32])
    } else {
        (seq![1usize, 0usize, 3usize, 2usize], uvs, seq![0u32, 1u32, 2u32, 2u32, 3u32, 0u32])
    }
}

/// Exchanges two entries of a list.
fn swap_entries(v: &mut Vec<usize>, i: usize, j: usize)
    requires
        i < old(v)@.len(),
        j < old(v)@.len(),
    ensures
        final(v)@ == old(v)@.update(i as int, old(v)@[j as int]).update(j as int, old(v)@[i as int]),
{
    let a = v[i];
    let b = v[j];
    v.set(i, b);
    v.set(j, a);
}

/// The layout of the top face of a tile with the given flags; see [`spec_top_face`].
pub fn top_vertices(flags: TileFlags) -> (r: TopFace)
    ensures
        (r.corners@, r.uvs@, r.indices@) == spec_top_face(flags),
{
    let mut uvs: Vec<usize> = vec![0, 1, 2, 3];
    if flags.bits & 1 != 0 {
        swap_entries(&mut uvs, 1, 0);
        swap_entries(&mut uvs, 2, 3);
    }
    if flags.bits & 2 != 0 {
        swap_entries(&mut uvs, 1, 2);
        swap_entries(&mut uvs, 0, 3);
    }
    let mut corners: Vec<usize> = vec![1, 0, 3, 2];
    let mut indices: Vec<u32> = vec![0, 1, 2, 2, 3, 0];
    if flags.bits & 16 != 0 {
        indices = vec![1, 2, 3, 3, 0, 1];
    }
    if flags.bits & 64 != 0 {
        let c0 = corners[0];
        let c2 = corners[2];
        corners.push(c0);
        corners.push(c2);
        let u0 = uvs[0];
        let u2 = uvs[2];
        uvs.push(u0);
        uvs.push(u2);
        indices = vec![0, 1, 2, 5, 3, 4];
    }
    proof {
        let u = spec_base_uvs(flags);
        assert(corners@ =~= spec_top_face(flags).0);
        assert(uvs@ =~= spec_top_face(flags).1);
        assert(indices@ =~= spec_top_face(flags).2);
    }
    TopFace { corners, uvs, indices }
}

/// The top face of every tile is well formed: as many texture coordinates as vertices,
/// whole triangles, and every index naming a vertex, the highest one the last vertex.
pub proof fn lemma_top_face_well_formed(flags: TileFlags)
    ensures
        ({
            let (corners, uvs, indices) = spec_top_face(flags);
            &&& corners.len() == uvs.len()
            &&& indices.len() % 3 == 0
            &&& forall|i: int| 0 <= i < indices.len() ==> indices[i] < corners.len()
            &&& exists|i: int| 0 <= i < indices.len() && indices[i] == corners.len() - 1
            &&& forall|i: int| 0 <= i < corners.len() ==> corners[i] < 4
            &&& forall|i: int| 0 <= i < uvs.len() ==> uvs[i] < 4
        }),
{
    let (corners, uvs, indices) = spec_top_face(flags);
    if has_flag(flags, 64) {
        assert(indices[3] == corners.len() - 1);
    } else if has_flag(flags, 16) {
        assert(indices[2] == corners.len() - 1);
    } else {
        assert(indices[4] == corners.len() - 1);
    }
}

/// The largest index plus one, or 0 for no index.
pub open spec fn spec_index_span(indices: Seq<u32>) -> nat
    decreases indices.len(),
{
    if indices.len() == 0 {
        0
    } else {
        let rest = spec_index_span(indices.drop_last());
        let here = indices.last() as nat + 1;
        if rest >= here {
            rest
        } else {
            here
        }
    }
}

/// Shifts the indices of a mesh part by `index_offset`, then moves the offset past
/// the vertices the part uses (its largest index plus one), so that the next part
/// appended after it does not reuse them.
pub fn offset_indices(indices: Vec<u32>, index_offset: &mut u32) -> (r: Vec<u32>)
    requires
        *old(index_offset) + spec_index_span(indices@) <= u32::MAX,
    ensures
        r@.len() == indices@.len(),
        forall|i: int| 0 <= i < r@.len() ==> r@[i] == indices@[i] + *old(index_offset),
        *final(index_offset) == *old(index_offset) + spec_index_span(indices@),
{
    let mut span: u32 = 0;
    let mut i: usize = 0;
    while i < indices.len()
        invariant
            0 <= i <= indices.len(),
            span == spec_index_span(indices@.take(i as int)),
            *index_offset + spec_index_span(indices@) <= u32::MAX,
            forall|j: int| 0 <= j < i ==> indices@[j] < span,
            span <= spec_index_span(indices@),
        decreases indices.len() - i,
    {
        proof {
            assert(indices@.take(i + 1).drop_last() =~= indices@.take(i as int));
            lemma_span_prefix(indices@, i as int + 1);
        }
        if indices[i] >= span {
            span = indices[i] + 1;
        }
        i = i + 1;
    }
    proof {
        assert(indices@.take(indices@.len() as int) =~= indices@);
    }
    let offset = *index_offset;
    let mut r: Vec<u32> = Vec::new();
    let mut k: usize = 0;
    while k < indices.len()
        invariant
            0 <= k <= indices.len(),
            span == spec_index_span(indices@),
            offset + span <= u32::MAX,
            forall|j: int| 0 <= j < indices@.len() ==> indices@[j] < span,
            r@.len() == k,
            forall|j: int| 0 <= j < k ==> r@[j] == indices@[j] + offset,
        decreases indices.len() - k,
    {
        r.push(indices[k] + offset);
        k = k + 1;
    }
    *index_offset = offset + span;
    r
}

proof fn lemma_span_prefix(indices: Seq<u32>, n: int)
    requires
        0 <= n <= indices.len(),
    ensures
        spec_index_span(indices.take(n)) <= spec_index_span(indices),
    decreases indices.len() - n,
{
    if n < indices.len() {
        lemma_span_prefix(indices, n + 1);
        assert(indices.take(n + 1).drop_last() =~= indices.take(n));
    } else {
        assert(indices.take(n) =~= indices);
    }
}

/// The top-left corners of the tiles a tileset texture is cut into, row after row:
/// entry `y * columns + x` is `(x * tile_width, y * tile_height)`, for the whole tiles
/// that fit in the texture. Every tile lies within the texture.
pub fn texture_tile_origins(image_width: u32, image_height: u32, tile_width: u32, tile_height: u32) -> (r:
    Vec<(u32, u32)>)
    requires
        tile_width > 0,
        tile_height > 0,
    ensures
        ({
            let columns = image_width / tile_width;
            let rows = image_height / tile_height;
            &&& r@.len() == rows * columns
            &&& forall|y: int, x: int|
                0 <= y < rows && 0 <= x < columns ==> #[trigger] r@[y * columns + x] == (
                    (x * tile_width) as u32,
                    (y * tile_height) as u32,
                )
            &&& forall|i: int|
                0 <= i < r@.len() ==> r@[i].0 + tile_width <= image_width && r@[i].1 + tile_height
                    <= image_height
        }),
{
    let columns = image_width / tile_width;
    let rows = image_height / tile_height;
    proof {
        assert(columns * tile_width <= image_width) by (nonlinear_arith)
            requires
                columns == image_width / tile_width,
                tile_width > 0,
        ;
        assert(rows * tile_height <= image_height) by (nonlinear_arith)
            requires
                rows == image_height / tile_height,
                tile_height > 0,
        ;
    }
    let mut r: Vec<(u32, u32)> = Vec::new();
    let mut y: u32 = 0;
    while y < rows
        invariant
            0 <= y <= rows,
            columns * tile_width <= image_width,
            rows * tile_height <= image_height,
            r@.len() == y * columns,
            forall|b: int, a: int|
                0 <= b < y && 0 <= a < columns ==> #[trigger] r@[b * columns + a] == (
                    (a * tile_width) as u32,
                    (b * tile_height) as u32,
                ),
            forall|i: int|
                0 <= i < r@.len() ==> r@[i].0 + tile_width <= image_width && r@[i].1 + tile_height
                    <= image_height,
        decreases rows - y,
    {
        let mut x: u32 = 0;
        while x < columns
            invariant
                0 <= y < rows,
                0 <= x <= columns,
                columns * tile_width <= image_width,
                rows * tile_height <= image_height,
                r@.len() == y * columns + x,
                forall|b: int, a: int|
                    0 <= b < y && 0 <= a < columns ==> #[trigger] r@[b * columns + a] == (
                        (a * tile_width) as u32,
                        (b * tile_height) as u32,
                    ),
                forall|a: int|
                    0 <= a < x ==> #[trigger] r@[y * columns + a] == (
                        (a * tile_width) as u32,
                        (y * tile_height) as u32,
                    ),
                forall|i: int|
                    0 <= i < r@.len() ==> r@[i].0 + tile_width <= image_width && r@[i].1
                        + tile_height <= image_height,
            decreases columns - x,
        {
            proof {
                assert(x * tile_width + tile_width <= image_width) by (nonlinear_arith)
                    requires
                        x < columns,
                        columns * tile_width <= image_width,
                ;
                assert(y * tile_height + tile_height <= image_height) by (nonlinear_arith)
                    requires
                        y < rows,
                        rows * tile_height <= image_height,
                ;
            }
            let ghost before = r@;
            r.push((x * tile_width, y * tile_height));
            proof {
                assert forall|b: int, a: int|
                    0 <= b < y && 0 <= a < columns implies #[trigger] r@[b * columns + a] == (
                    (a * tile_width) as u32,
                    (b * tile_height) as u32,
                ) by {
                    assert(b * columns + a < y * columns) by (nonlinear_arith)
                        requires
                            0 <= b < y,
                            0 <= a < columns,
                    ;
                    assert(r@[b * columns + a] == before[b * columns + a]);
                }
            }
            x = x + 1;
        }
        proof {
            assert(r@.len() == (y + 1) * columns) by (nonlinear_arith)
                requires
                    r@.len() == y * columns + columns,
            ;
        }
        y = y + 1;
    }
    r
}


/// What `spec_index_span` is: above every index, and one past some index when there is one.
pub proof fn lemma_index_span_bounds(indices: Seq<u32>)
    ensures
        forall|i: int| 0 <= i < indices.len() ==> indices[i] < spec_index_span(indices),
        indices.len() == 0 ==> spec_index_span(indices) == 0,
        indices.len() > 0 ==> exists|i: int|
            0 <= i < indices.len() && indices[i] + 1 == spec_index_span(indices),
    decreases indices.len(),
{
    if indices.len() > 0 {
        let rest = indices.drop_last();
        lemma_index_span_bounds(rest);
        let last = indices.len() - 1;
        if spec_index_span(rest) >= indices.last() as nat + 1 {
            let w = choose|i: int| 0 <= i < rest.len() && rest[i] + 1 == spec_index_span(rest);
            assert(indices[w] + 1 == spec_index_span(indices));
        } else {
            assert(indices[last] + 1 == spec_index_span(indices));
        }
        assert forall|i: int| 0 <= i < indices.len() implies indices[i] < spec_index_span(
            indices,
        ) by {
            if i < last {
                assert(indices[i] == rest[i]);
            }
        }
    }
}

/// The two triangles of a quad of four vertices.
pub open spec fn quad_indices() -> Seq<u32> {
    seq![0u32, 1u32, 2u32, 2u32, 3u32, 0u32]
}

/// The one triangle of three vertices.
pub open spec fn triangle_indices() -> Seq<u32> {
    seq![0u32, 1u32, 2u32]
}

proof fn lemma_part_spans()
    ensures
        spec_index_span(quad_indices()) == 4,
        spec_index_span(triangle_indices()) == 3,
{
    let q = quad_indices();
    lemma_index_span_bounds(q);
    assert(q[4] + 1 == 4);
    let t = triangle_indices();
    lemma_index_span_bounds(t);
    assert(t[2] + 1 == 3);
}

/// A vertex of the side mesh of a tile, by where it lies. Side meshes number the corners
/// of a tile 0 to 3 at `(x, z)` = `(0, 0)`, `(0, 1)`, `(1, 1)`, `(1, 0)`, and their
/// texture coordinates 0 to 3 as `(0, 0)`, `(0, 1)`, `(1, 1)`, `(1, 0)`.
#[derive(Debug, Clone, Copy, PartialEq, Eq, Structural)]
pub enum SideVertex {
    /// On a sloped wall: at `corner`, at the height of that corner of the top face or,
    /// when `lowered`, at the height of the lowest corner.
    Slope { corner: usize, lowered: bool, uv: usize },
    /// On a wall below the tile: at `corner`, `drop` units below the base height of the
    /// slope.
    Wall { corner: usize, drop: u32, uv: usize },
}

/// A mesh of side vertices: the vertices and the triangles over them.
pub type SideMesh = (Seq<SideVertex>, Seq<u32>);

/// Appends a part to a mesh: its vertices after the mesh's, and its indices shifted past
/// the vertices already there.
pub open spec fn append_part(mesh: SideMesh, part: SideMesh) -> SideMesh {
    (mesh.0 + part.0, mesh.1 + part.1.map_values(|i: u32| (i + mesh.0.len()) as u32))
}

/// Whole triangles, each index naming a vertex of the mesh.
pub open spec fn side_mesh_well_formed(mesh: SideMesh) -> bool {
    &&& mesh.1.len() % 3 == 0
    &&& forall|k: int| 0 <= k < mesh.1.len() ==> mesh.1[k] < mesh.0.len()
}

/// The sloped wall under the edge from corner `e` to the next corner, given which
/// corners lie above the lowest one: a quad where both ends are raised, a triangle where
/// one is, nothing where neither is.
pub open spec fn spec_slope_edge(raised: Seq<bool>, e: int) -> SideMesh {
    let c1 = e as usize;
    let c2 = ((e + 1) % 4) as usize;
    if raised[e] && raised[(e + 1) % 4] {
        (
            seq![
                SideVertex::Slope { corner: c1, lowered: false, uv: 0 },
                SideVertex::Slope { corner: c2, lowered: false, uv: 1 },
                SideVertex::Slope { corner: c1, lowered: true, uv: 2 },
                SideVertex::Slope { corner: c2, lowered: true, uv: 3 },
            ],
            quad_indices(),
        )
    } else if raised[e] {
        (
            seq![
                SideVertex::Slope { corner: c1, lowered: false, uv: 0 },
                SideVertex::Slope { corner: c1, lowered: true, uv: 2 },
                SideVertex::Slope { corner: c2, lowered: true, uv: 3 },
            ],
            triangle_indices(),
        )
    } else if raised[(e + 1) % 4] {
        (
            seq![
                SideVertex::Slope { corner: c2, lowered: false, uv: 1 },
                SideVertex::Slope { corner: c1, lowered: true, uv: 2 },
                SideVertex::Slope { corner: c2, lowered: true, uv: 3 },
            ],
            triangle_indices(),
        )
    } else {
        (Seq::empty(), Seq::empty())
    }
}

/// The sloped walls under the first `n` edges of the top face, edge `e` running from
/// corner `e` to corner `e + 1` (corner 3 back to corner 0).
pub open spec fn spec_slope_walls(raised: Seq<bool>, n: nat) -> SideMesh
    decreases n,
{
    if n == 0 {
        (Seq::empty(), Seq::empty())
    } else {
        append_part(spec_slope_walls(raised, (n - 1) as nat), spec_slope_edge(raised, n - 1))
    }
}

/// The sloped walls that close the gap between a sloped top face and its lowest corner;
/// `raised[c]` tells whether corner `c` lies above the lowest corner.
pub fn slope_walls(raised: [bool; 4]) -> (r: (Vec<SideVertex>, Vec<u32>))
    ensures
        (r.0@, r.1@) == spec_slope_walls(raised@, 4),
{
    proof {
        lemma_part_spans();
    }
    let mut vertices: Vec<SideVertex> = Vec::new();
    let mut indices: Vec<u32> = Vec::new();
    let mut index_offset: u32 = 0;
    let mut e: usize = 0;
    while e < 4
        invariant
            0 <= e <= 4,
            (vertices@, indices@) == spec_slope_walls(raised@, e as nat),
            index_offset == vertices@.len(),
            vertices@.len() <= 4 * e,
            spec_index_span(quad_indices()) == 4,
            spec_index_span(triangle_indices()) == 3,
        decreases 4 - e,
    {
        let c1 = e;
        let c2 = (e + 1) % 4;
        let ghost before: SideMesh = (vertices@, indices@);
        let mut part: Vec<u32>;
        if raised[c1] && raised[c2] {
            vertices.push(SideVertex::Slope { corner: c1, lowered: false, uv: 0 });
            vertices.push(SideVertex::Slope { corner: c2, lowered: false, uv: 1 });
            vertices.push(SideVertex::Slope { corner: c1, lowered: true, uv: 2 });
            vertices.push(SideVertex::Slope { corner: c2, lowered: true, uv: 3 });
            let quad: Vec<u32> = vec![0, 1, 2, 2, 3, 0];
            assert(quad@ =~= quad_indices());
            part = offset_indices(quad, &mut index_offset);
            assert(part@ =~= quad_indices().map_values(|i: u32| (i + before.0.len()) as u32));
        } else if raised[c1] {
            vertices.push(SideVertex::Slope { corner: c1, lowered: false, uv: 0 });
            vertices.push(SideVertex::Slope { corner: c1, lowered: true, uv: 2 });
            vertices.push(SideVertex::Slope { corner: c2, lowered: true, uv: 3 });
            let triangle: Vec<u32> = vec![0, 1, 2];
            assert(triangle@ =~= triangle_indices());
            part = offset_indices(triangle, &mut index_offset);
            assert(part@ =~= triangle_indices().map_values(|i: u32| (i + before.0.len()) as u32));
        } else if raised[c2] {
            vertices.push(SideVertex::Slope { corner: c2, lowered: false, uv: 1 });
            vertices.push(SideVertex::Slope { corner: c1, lowered: true, uv: 2 });
            vertices.push(SideVertex::Slope { corner: c2, lowered: true, uv: 3 });
            let triangle: Vec<u32> = vec![0, 1, 2];
            assert(triangle@ =~= triangle_indices());
            part = offset_indices(triangle, &mut index_offset);
            assert(part@ =~= triangle_indices().map_values(|i: u32| (i + before.0.len()) as u32));
        } else {
            part = Vec::new();
        }
        indices.append(&mut part);
        proof {
            let edge = spec_slope_edge(raised@, e as int);
            assert(vertices@ =~= before.0 + edge.0);
            assert(indices@ =~= append_part(before, edge).1);
        }
        e = e + 1;
    }
    (vertices, indices)
}

/// The quad of wall number `wall` (counted down from the base) under side `side`, the
/// side running from corner `side` to the next corner.
pub open spec fn spec_wall_quad(side: int, wall: int) -> Seq<SideVertex> {
    let c1 = side as usize;
    let c2 = ((side + 1) % 4) as usize;
    seq![
        SideVertex::Wall { corner: c2, drop: wall as u32, uv: 1 },
        SideVertex::Wall { corner: c1, drop: wall as u32, uv: 0 },
        SideVertex::Wall { corner: c1, drop: (wall + 1) as u32, uv: 3 },
        SideVertex::Wall { corner: c2, drop: (wall + 1) as u32, uv: 2 },
    ]
}

/// `mesh` with the walls under the sides before `side` appended, `counts[s]` of them
/// under side `s`, and then the first `wall` walls under side `side`.
pub open spec fn spec_side_walls(counts: Seq<u32>, side: nat, wall: nat, mesh: SideMesh) -> SideMesh
    decreases side, wall,
{
    if wall > 0 {
        append_part(
            spec_side_walls(counts, side, (wall - 1) as nat, mesh),
            (spec_wall_quad(side as int, wall - 1), quad_indices()),
        )
    } else if side > 0 {
        spec_side_walls(counts, (side - 1) as nat, counts[side - 1] as nat, mesh)
    } else {
        mesh
    }
}

/// The number of walls under the first `n` sides.
pub open spec fn spec_wall_total(counts: Seq<u32>, n: nat) -> nat
    decreases n,
{
    if n == 0 {
        0
    } else {
        spec_wall_total(counts, (n - 1) as nat) + counts[n - 1] as nat
    }
}

proof fn lemma_wall_total_grows(counts: Seq<u32>, a: nat, b: nat)
    requires
        a <= b,
    ensures
        spec_wall_total(counts, a) <= spec_wall_total(counts, b),
    decreases b - a,
{
    if a < b {
        lemma_wall_total_grows(counts, a, (b - 1) as nat);
    }
}

/// The two meshes of a tile: the top face, and the sides (sloped walls, then the walls
/// under each side).
#[derive(Debug, Clone)]
pub struct TileMesh {
    pub top: TopFace,
    pub side_vertices: Vec<SideVertex>,
    pub side_indices: Vec<u32>,
}

/// The meshes of a tile with the given flags, whose top corners are raised above the
/// lowest one as `raised` says, with `wall_counts[s]` walls under side `s`.
pub fn calculate_mesh_data(raised: [bool; 4], wall_counts: [u32; 4], flags: TileFlags) -> (r:
    TileMesh)
    requires
        16 + 4 * spec_wall_total(wall_counts@, 4) <= u32::MAX,
    ensures
        (r.top.corners@, r.top.uvs@, r.top.indices@) == spec_top_face(flags),
        (r.side_vertices@, r.side_indices@) == spec_side_walls(
            wall_counts@,
            4,
            0,
            spec_slope_walls(raised@, 4),
        ),
{
    let top = top_vertices(flags);
    let (mut vertices, mut indices) = slope_walls(raised);
    let ghost slope: SideMesh = (vertices@, indices@);
    proof {
        lemma_part_spans();
        lemma_slope_walls_well_formed(raised@, 4);
        lemma_wall_total_grows(wall_counts@, 0, 4);
    }
    let mut index_offset: u32 = vertices.len() as u32;
    let mut side: usize = 0;
    while side < 4
        invariant
            0 <= side <= 4,
            slope == spec_slope_walls(raised@, 4),
            slope.0.len() <= 16,
            (vertices@, indices@) == spec_side_walls(wall_counts@, side as nat, 0, slope),
            index_offset == vertices@.len(),
            vertices@.len() == slope.0.len() + 4 * spec_wall_total(wall_counts@, side as nat),
            16 + 4 * spec_wall_total(wall_counts@, 4) <= u32::MAX,
            spec_index_span(quad_indices()) == 4,
        decreases 4 - side,
    {
        let count = wall_counts[side];
        let c2 = (side + 1) % 4;
        proof {
            lemma_wall_total_grows(wall_counts@, (side + 1) as nat, 4);
        }
        let mut wall: u32 = 0;
        while wall < count
            invariant
                0 <= side < 4,
                count == wall_counts@[side as int],
                c2 == (side + 1) % 4,
                0 <= wall <= count,
                slope.0.len() <= 16,
                (vertices@, indices@) == spec_side_walls(
                    wall_counts@,
                    side as nat,
                    wall as nat,
                    slope,
                ),
                index_offset == vertices@.len(),
                vertices@.len() == slope.0.len() + 4 * (spec_wall_total(wall_counts@, side as nat)
                    + wall),
                spec_wall_total(wall_counts@, (side + 1) as nat) <= spec_wall_total(
                    wall_counts@,
                    4,
                ),
                spec_wall_total(wall_counts@, (side + 1) as nat) == spec_wall_total(
                    wall_counts@,
                    side as nat,
                ) + count,
                16 + 4 * spec_wall_total(wall_counts@, 4) <= u32::MAX,
                spec_index_span(quad_indices()) == 4,
            decreases count - wall,
        {
            let ghost before: SideMesh = (vertices@, indices@);
            vertices.push(SideVertex::Wall { corner: c2, drop: wall, uv: 1 });
            vertices.push(SideVertex::Wall { corner: side, drop: wall, uv: 0 });
            vertices.push(SideVertex::Wall { corner: side, drop: wall + 1, uv: 3 });
            vertices.push(SideVertex::Wall { corner: c2, drop: wall + 1, uv: 2 });
            let quad: Vec<u32> = vec![0, 1, 2, 2, 3, 0];
            assert(quad@ =~= quad_indices());
            let mut part = offset_indices(quad, &mut index_offset);
            indices.append(&mut part);
            proof {
                let q = (spec_wall_quad(side as int, wall as int), quad_indices());
                assert(vertices@ =~= before.0 + q.0);
                assert(indices@ =~= append_part(before, q).1);
            }
            wall = wall + 1;
        }
        side = side + 1;
    }
    TileMesh { top, side_vertices: vertices, side_indices: indices }
}

proof fn lemma_append_well_formed(mesh: SideMesh, part: SideMesh)
    requires
        side_mesh_well_formed(mesh),
        side_mesh_well_formed(part),
        mesh.0.len() + part.0.len() <= u32::MAX,
    ensures
        side_mesh_well_formed(append_part(mesh, part)),
        append_part(mesh, part).0.len() == mesh.0.len() + part.0.len(),
{
    let r = append_part(mesh, part);
    assert forall|k: int| 0 <= k < r.1.len() implies r.1[k] < r.0.len() by {
        if k >= mesh.1.len() {
            assert(part.1[k - mesh.1.len()] < part.0.len());
        }
    }
}

proof fn lemma_slope_walls_well_formed(raised: Seq<bool>, n: nat)
    requires
        n <= 4,
    ensures
        side_mesh_well_formed(spec_slope_walls(raised, n)),
        spec_slope_walls(raised, n).0.len() <= 4 * n,
    decreases n,
{
    if n > 0 {
        lemma_slope_walls_well_formed(raised, (n - 1) as nat);
        let edge = spec_slope_edge(raised, n - 1);
        assert(side_mesh_well_formed(edge));
        lemma_append_well_formed(spec_slope_walls(raised, (n - 1) as nat), edge);
    }
}

proof fn lemma_side_walls_well_formed(counts: Seq<u32>, side: nat, wall: nat, mesh: SideMesh)
    requires
        side <= 4,
        side < 4 ==> wall <= counts[side as int],
        side == 4 ==> wall == 0,
        side_mesh_well_formed(mesh),
        mesh.0.len() + 4 * spec_wall_total(counts, 4) <= u32::MAX,
    ensures
        side_mesh_well_formed(spec_side_walls(counts, side, wall, mesh)),
        spec_side_walls(counts, side, wall, mesh).0.len() == mesh.0.len() + 4 * (
        spec_wall_total(counts, side) + wall),
    decreases side, wall,
{
    if wall > 0 {
        lemma_side_walls_well_formed(counts, side, (wall - 1) as nat, mesh);
        lemma_wall_total_grows(counts, side + 1, 4);
        let q = (spec_wall_quad(side as int, wall - 1), quad_indices());
        assert(side_mesh_well_formed(q));
        lemma_append_well_formed(spec_side_walls(counts, side, (wall - 1) as nat, mesh), q);
    } else if side > 0 {
        lemma_side_walls_well_formed(counts, (side - 1) as nat, counts[side - 1] as nat, mesh);
    }
}

/// Both meshes of every tile are well formed: whole triangles, each index naming one
/// of the mesh's vertices; the side mesh holds the sloped walls and four vertices for
/// each wall under the sides.
pub proof fn lemma_tile_mesh_well_formed(raised: Seq<bool>, counts: Seq<u32>, flags: TileFlags)
    requires
        16 + 4 * spec_wall_total(counts, 4) <= u32::MAX,
    ensures
        ({
            let (corners, uvs, indices) = spec_top_face(flags);
            &&& indices.len() % 3 == 0
            &&& forall|i: int| 0 <= i < indices.len() ==> indices[i] < corners.len()
        }),
        side_mesh_well_formed(spec_side_walls(counts, 4, 0, spec_slope_walls(raised, 4))),
        spec_side_walls(counts, 4, 0, spec_slope_walls(raised, 4)).0.len() == spec_slope_walls(
            raised,
            4,
        ).0.len() + 4 * spec_wall_total(counts, 4),
{
    lemma_top_face_well_formed(flags);
    lemma_slope_walls_well_formed(raised, 4);
    lemma_side_walls_well_formed(counts, 4, 0, spec_slope_walls(raised, 4));
}

/// How many walls hang under a side of a tile of depth `depth`: as many as it stands
/// above its neighbour on that side (none where the neighbour is as high or higher, at
/// most `u32::MAX`), and two where there is no neighbour.
pub open spec fn spec_wall_count(depth: int, neighbor: Option<int>) -> int {
    match neighbor {
        None => 2,
        Some(n) => if depth <= n {
            0
        } else if depth - n > u32::MAX {
            u32::MAX as int
        } else {
            depth - n
        },
    }
}

/// The number of walls under a side of a tile; see [`spec_wall_count`].
pub fn wall_count(depth: &TileDepth, neighbor: Option<&TileDepth>) -> (r: u32)
    ensures
        r == spec_wall_count(
            depth.0 as int,
            match neighbor {
                Some(n) => Some(n.0 as int),
                None => None,
            },
        ),
{
    match neighbor {
        None => 2,
        Some(n) => {
            let difference: i128 = depth.0 as i128 - n.0 as i128;
            if difference <= 0 {
                0
            } else if difference > u32::MAX as i128 {
                u32::MAX
            } else {
                difference as u32
            }
        },
    }
}


/// The RGBA8 pixels of the part of a `width` by `height` RGBA8 image (`data`, rows of
/// four-byte pixels from the top) at `(x, y)` of `w` by `h` pixels, the part cut down to
/// the image's bounds.
pub open spec fn spec_cropped_rgba8(
    data: Seq<u8>,
    width: int,
    height: int,
    x: int,
    y: int,
    w: int,
    h: int,
) -> Seq<u8> {
    let x0 = if x < width { x } else { width };
    let y0 = if y < height { y } else { height };
    let cw = if w < width - x0 { w } else { width - x0 };
    let ch = if h < height - y0 { h } else { height - y0 };
    Seq::new(
        (4 * cw * ch) as nat,
        |k: int| data[4 * ((y0 + (k / 4) / cw) * width + x0 + (k / 4) % cw) + k % 4],
    )
}

/// Cuts a part out of an RGBA8 image through the `image` crate: `RgbaImage::from_raw`
/// reads `data` as a `width` by `height` image, failing when `data` is shorter than that;
/// `DynamicImage::crop_imm` copies the part at `(x, y)` of `w` by `h` pixels, cut down to
/// the image's bounds, which `into_rgba8` and `into_raw` hand back as bytes.
#[verifier::external_body]
fn crop_rgba8(data: &Vec<u8>, width: u32, height: u32, x: u32, y: u32, w: u32, h: u32) -> (r:
    Option<Vec<u8>>)
    ensures
        r is Some <==> 4 * width * height <= data@.len(),
        r matches Some(pixels) ==> pixels@ == spec_cropped_rgba8(
            data@,
            width as int,
            height as int,
            x as int,
            y as int,
            w as int,
            h as int,
        ),
{
    let image = image::RgbaImage::from_raw(width, height, data.clone())?;
    Some(image::DynamicImage::ImageRgba8(image).crop_imm(x, y, w, h).into_rgba8().into_raw())
}

/// Cuts a tileset texture (RGBA8 pixels) into its tiles, row after row: tile
/// `y * columns + x` holds the pixels of the tile whose top-left corner is
/// `(x * tile_width, y * tile_height)`, for the whole tiles that fit in the texture.
/// Nothing when `data` is too short for the texture.
pub fn splice_tileset(
    data: &Vec<u8>,
    image_width: u32,
    image_height: u32,
    tile_width: u32,
    tile_height: u32,
) -> (r: Option<Vec<Vec<u8>>>)
    requires
        tile_width > 0,
        tile_height > 0,
    ensures
        r is Some <==> 4 * image_width * image_height <= data@.len(),
        r matches Some(tiles) ==> {
            let columns = image_width / tile_width;
            let rows = image_height / tile_height;
            &&& tiles@.len() == rows * columns
            &&& forall|y: int, x: int|
                0 <= y < rows && 0 <= x < columns ==> (#[trigger] tiles@[y * columns + x])@
                    == spec_cropped_rgba8(
                    data@,
                    image_width as int,
                    image_height as int,
                    x * tile_width,
                    y * tile_height,
                    tile_width as int,
                    tile_height as int,
                )
        },
{
    let wide_width = image_width as u128;
    let wide_height = image_height as u128;
    assert(4 * wide_width * wide_height <= 4 * 0xffff_ffffu128 * 0xffff_ffffu128) by (nonlinear_arith)
        requires
            wide_width <= 0xffff_ffffu128,
            wide_height <= 0xffff_ffffu128,
    ;
    let needed: u128 = 4 * wide_width * wide_height;
    if (data.len() as u128) < needed {
        return None;
    }
    let origins = texture_tile_origins(image_width, image_height, tile_width, tile_height);
    let ghost columns = image_width / tile_width;
    let ghost rows = image_height / tile_height;
    let mut tiles: Vec<Vec<u8>> = Vec::new();
    let mut k: usize = 0;
    while k < origins.len()
        invariant
            0 <= k <= origins.len(),
            4 * image_width * image_height <= data@.len(),
            origins@.len() == rows * columns,
            tiles@.len() == k,
            forall|j: int|
                0 <= j < k ==> (#[trigger] tiles@[j])@ == spec_cropped_rgba8(
                    data@,
                    image_width as int,
                    image_height as int,
                    origins@[j].0 as int,
                    origins@[j].1 as int,
                    tile_width as int,
                    tile_height as int,
                ),
        decreases origins.len() - k,
    {
        let (x, y) = origins[k];
        match crop_rgba8(data, image_width, image_height, x, y, tile_width, tile_height) {
            Some(pixels) => {
                tiles.push(pixels);
            },
            None => {
                return None;
            },
        }
        k = k + 1;
    }
    proof {
        assert forall|y: int, x: int|
            0 <= y < rows && 0 <= x < columns implies (#[trigger] tiles@[y * columns + x])@
            == spec_cropped_rgba8(
            data@,
            image_width as int,
            image_height as int,
            x * tile_width,
            y * tile_height,
            tile_width as int,
            tile_height as int,
        ) by {
            assert(0 <= y * columns + x < rows * columns) by (nonlinear_arith)
                requires
                    0 <= y < rows,
                    0 <= x < columns,
            ;
            assert(origins@[y * columns + x] == ((x * tile_width) as u32, (y * tile_height) as u32));
            assert(x * tile_width + tile_width <= image_width) by (nonlinear_arith)
                requires
                    0 <= x < columns,
                    columns == image_width / tile_width,
                    tile_width > 0,
            ;
            assert(y * tile_height + tile_height <= image_height) by (nonlinear_arith)
                requires
                    0 <= y < rows,
                    rows == image_height / tile_height,
                    tile_height > 0,
            ;
        }
    }
    Some(tiles)
}


/// The top face of a tile: its four base vertices at corners 1, 0, 3, 2; the texture
/// coordinates `[0, 1, 2, 3]` mirrored by `FlipX` (0 and 1, 2 and 3 exchanged) and then,
/// whatever `FlipX` did, by `FlipY` (1 and 2, 0 and 3 exchanged), so both together turn
/// the texture by half a turn; the triangles split along one diagonal, along the other
/// with `FlipTriangles`, and with `Fold` two extra vertices repeating vertices 0 and 2.
pub proof fn lemma_top_face_layout(flags: TileFlags)
    ensures
        ({
            let (corners, uvs, indices) = spec_top_face(flags);
            let fx = flags.bits & 1 != 0;
            let fy = flags.bits & 2 != 0;
            &&& corners.subrange(0, 4) == seq![1usize, 0usize, 3usize, 2usize]
            &&& !fx && !fy ==> uvs.subrange(0, 4) == seq![0usize, 1usize, 2usize, 3usize]
            &&& fx && !fy ==> uvs.subrange(0, 4) == seq![1usize, 0usize, 3usize, 2usize]
            &&& !fx && fy ==> uvs.subrange(0, 4) == seq![3usize, 2usize, 1usize, 0usize]
            &&& fx && fy ==> uvs.subrange(0, 4) == seq![2usize, 3usize, 0usize, 1usize]
            &&& flags.bits & 64 != 0 ==> {
                &&& corners.len() == 6 && uvs.len() == 6
                &&& corners[4] == corners[0] && corners[5] == corners[2]
                &&& uvs[4] == uvs[0] && uvs[5] == uvs[2]
                &&& indices == seq![0u32, 1u32, 2u32, 5u32, 3u32, 4u32]
            }
            &&& flags.bits & 64 == 0 ==> corners.len() == 4 && uvs.len() == 4
            &&& flags.bits & 64 == 0 && flags.bits & 16 != 0 ==> indices == seq![
                1u32,
                2u32,
                3u32,
                3u32,
                0u32,
                1u32,
            ]
            &&& flags.bits & 64 == 0 && flags.bits & 16 == 0 ==> indices == seq![
                0u32,
                1u32,
                2u32,
                2u32,
                3u32,
                0u32,
            ]
        }),
{
    let (corners, uvs, indices) = spec_top_face(flags);
    assert(corners.subrange(0, 4) =~= seq![1usize, 0usize, 3usize, 2usize]);
    let fx = flags.bits & 1 != 0;
    let fy = flags.bits & 2 != 0;
    if !fx && !fy {
        assert(uvs.subrange(0, 4) =~= seq![0usize, 1usize, 2usize, 3usize]);
    }
    if fx && !fy {
        assert(uvs.subrange(0, 4) =~= seq![1usize, 0usize, 3usize, 2usize]);
    }
    if !fx && fy {
        assert(uvs.subrange(0, 4) =~= seq![3usize, 2usize, 1usize, 0usize]);
    }
    if fx && fy {
        assert(uvs.subrange(0, 4) =~= seq![2usize, 3usize, 0usize, 1usize]);
    }
}

/// Whether every vertex of a list is a sloped-wall vertex at a corner of the tile, with
/// one of the four texture coordinates, lowered to the lowest corner exactly when it is
/// on the bottom row of the texture (coordinates 2 and 3), and, when not lowered, at a
/// raised corner.
pub open spec fn slope_vertices_well_placed(vertices: Seq<SideVertex>, raised: Seq<bool>) -> bool {
    forall|k: int|
        0 <= k < vertices.len() ==> match #[trigger] vertices[k] {
            SideVertex::Slope { corner, lowered, uv } => {
                &&& corner < 4
                &&& uv < 4
                &&& lowered <==> uv >= 2
                &&& !lowered ==> raised[corner as int]
            },
            SideVertex::Wall { .. } => false,
        }
}

/// Whether a vertex is a sloped-wall vertex lowered to the lowest corner.
pub open spec fn vertex_lowered(v: SideVertex) -> bool {
    v matches SideVertex::Slope { lowered, .. } && lowered
}

/// Whether a vertex is a sloped-wall vertex at its corner's own height.
pub open spec fn vertex_at_height(v: SideVertex) -> bool {
    v matches SideVertex::Slope { lowered, .. } && !lowered
}

/// Whether triangle `t` of a mesh has a vertex lowered to the lowest corner and one
/// that is not, so that it does not lie flat along the top edge or the bottom.
pub open spec fn triangle_upright(mesh: SideMesh, t: int) -> bool {
    &&& exists|j: int|
        3 * t <= j < 3 * t + 3 && vertex_lowered(mesh.0[#[trigger] mesh.1[j] as int])
    &&& exists|j: int|
        3 * t <= j < 3 * t + 3 && vertex_at_height(mesh.0[#[trigger] mesh.1[j] as int])
}

/// Whether every triangle of a mesh stands upright (see [`triangle_upright`]).
pub open spec fn slope_triangles_upright(mesh: SideMesh) -> bool {
    forall|t: int| 0 <= t < mesh.1.len() / 3 ==> #[trigger] triangle_upright(mesh, t)
}

proof fn lemma_slope_edge_placed(raised: Seq<bool>, e: int)
    requires
        raised.len() == 4,
        0 <= e < 4,
    ensures
        slope_vertices_well_placed(spec_slope_edge(raised, e).0, raised),
        slope_triangles_upright(spec_slope_edge(raised, e)),
{
    let edge = spec_slope_edge(raised, e);
    assert forall|t: int| 0 <= t < edge.1.len() / 3 implies #[trigger] triangle_upright(edge, t) by {
        if edge.1.len() == 6 && t == 1 {
            assert(vertex_lowered(edge.0[edge.1[3] as int]));
            assert(vertex_at_height(edge.0[edge.1[5] as int]));
        } else {
            assert(vertex_lowered(edge.0[edge.1[2] as int]));
            assert(vertex_at_height(edge.0[edge.1[0] as int]));
        }
    }
}

proof fn lemma_append_placed(prev: SideMesh, part: SideMesh, raised: Seq<bool>)
    requires
        slope_vertices_well_placed(prev.0, raised),
        slope_vertices_well_placed(part.0, raised),
    ensures
        slope_vertices_well_placed(append_part(prev, part).0, raised),
{
    let all = append_part(prev, part);
    assert forall|k: int| 0 <= k < all.0.len() implies match #[trigger] all.0[k] {
        SideVertex::Slope { corner, lowered, uv } => {
            &&& corner < 4
            &&& uv < 4
            &&& lowered <==> uv >= 2
            &&& !lowered ==> raised[corner as int]
        },
        SideVertex::Wall { .. } => false,
    } by {
        if k < prev.0.len() {
            assert(all.0[k] == prev.0[k]);
        } else {
            assert(all.0[k] == part.0[k - prev.0.len()]);
        }
    }
}

proof fn lemma_append_upright(prev: SideMesh, part: SideMesh)
    requires
        side_mesh_well_formed(prev),
        side_mesh_well_formed(part),
        prev.0.len() + part.0.len() <= u32::MAX,
        slope_triangles_upright(prev),
        slope_triangles_upright(part),
    ensures
        slope_triangles_upright(append_part(prev, part)),
{
    let all = append_part(prev, part);
    let off = prev.0.len();
    let pt = prev.1.len() / 3;
    assert(prev.1.len() == 3 * pt);
    assert forall|t: int| 0 <= t < all.1.len() / 3 implies #[trigger] triangle_upright(all, t) by {
        if t < pt {
            assert(triangle_upright(prev, t));
            let j1 = choose|j: int|
                3 * t <= j < 3 * t + 3 && vertex_lowered(prev.0[#[trigger] prev.1[j] as int]);
            let j2 = choose|j: int|
                3 * t <= j < 3 * t + 3 && vertex_at_height(prev.0[#[trigger] prev.1[j] as int]);
            assert(all.1[j1] == prev.1[j1]);
            assert(all.1[j2] == prev.1[j2]);
            assert(all.0[all.1[j1] as int] == prev.0[prev.1[j1] as int]);
            assert(all.0[all.1[j2] as int] == prev.0[prev.1[j2] as int]);
        } else {
            let u = t - pt;
            assert(0 <= u < part.1.len() / 3);
            assert(triangle_upright(part, u));
            let j1 = choose|j: int|
                3 * u <= j < 3 * u + 3 && vertex_lowered(part.0[#[trigger] part.1[j] as int]);
            let j2 = choose|j: int|
                3 * u <= j < 3 * u + 3 && vertex_at_height(part.0[#[trigger] part.1[j] as int]);
            assert(all.1[3 * pt + j1] == part.1.map_values(|x: u32| (x + off) as u32)[j1]);
            assert(all.1[3 * pt + j2] == part.1.map_values(|x: u32| (x + off) as u32)[j2]);
            assert(all.0[all.1[3 * pt + j1] as int] == part.0[part.1[j1] as int]);
            assert(all.0[all.1[3 * pt + j2] as int] == part.0[part.1[j2] as int]);
        }
    }
}

proof fn lemma_slope_walls_placed(raised: Seq<bool>, n: nat)
    requires
        raised.len() == 4,
        n <= 4,
    ensures
        slope_vertices_well_placed(spec_slope_walls(raised, n).0, raised),
        slope_triangles_upright(spec_slope_walls(raised, n)),
    decreases n,
{
    if n > 0 {
        let prev = spec_slope_walls(raised, (n - 1) as nat);
        let edge = spec_slope_edge(raised, n - 1);
        lemma_slope_walls_placed(raised, (n - 1) as nat);
        lemma_slope_walls_well_formed(raised, (n - 1) as nat);
        lemma_slope_edge_placed(raised, n - 1);
        assert(side_mesh_well_formed(edge));
        lemma_append_placed(prev, edge, raised);
        lemma_append_upright(prev, edge);
    }
}

/// The sloped walls stand upright: every vertex is on a corner of the tile, lowered to
/// the lowest corner exactly when it is on the bottom row of its texture (coordinates 2
/// and 3) and, when not lowered, at a raised corner; and every triangle has both a
/// lowered vertex and one that is not.
pub proof fn lemma_slope_walls_upright(raised: Seq<bool>)
    requires
        raised.len() == 4,
    ensures
        slope_vertices_well_placed(spec_slope_walls(raised, 4).0, raised),
        slope_triangles_upright(spec_slope_walls(raised, 4)),
{
    lemma_slope_walls_placed(raised, 4);
}
} // verus!
