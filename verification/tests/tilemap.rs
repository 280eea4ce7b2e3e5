use short_flight::tilemap::{
    level_chunk, level_pos, minstep_to_tilemap, GridSize, IPoint, LevelGeometry, TileRect, TilemapBounds,
};
use short_flight::{to_minsteps_i32, to_minsteps_u32, LDTK_PX_TO_WORLD};

fn level(world_x: i32, world_y: i32, px_wid: i32, px_hei: i32) -> LevelGeometry {
    LevelGeometry { world_x, world_y, px_wid, px_hei }
}

#[test]
fn pixel_and_minstep_conversions() {
    assert_eq!(LDTK_PX_TO_WORLD, 32);
    assert_eq!(to_minsteps_u32(1024), 32);
    assert_eq!(to_minsteps_u32(31), 0);
    assert_eq!(to_minsteps_i32(-33), -1);
    assert_eq!(to_minsteps_i32(-31), 0);
    assert_eq!(minstep_to_tilemap(32), 4);
    assert_eq!(minstep_to_tilemap(7), 0);
    assert_eq!(minstep_to_tilemap(-1), -1);
    assert_eq!(minstep_to_tilemap(-8), -1);
    assert_eq!(minstep_to_tilemap(-9), -2);
    assert_eq!(minstep_to_tilemap(i32::MIN), i32::MIN / 8);
}

#[test]
fn level_geometry_in_tilemap_units() {
    // 1024 px = 32 minsteps = 4 tilemap units; 512 px = 2 units
    assert_eq!(level_pos(&level(1024, -512, 512, 512)), IPoint { x: 4, y: -2 });
    assert_eq!(
        level_chunk(&level(1024, -512, 512, 256)),
        TileRect { min: IPoint { x: 4, y: -2 }, max: IPoint { x: 6, y: -1 } }
    );
}

#[test]
fn rect_union() {
    let a = TileRect { min: IPoint { x: 0, y: 0 }, max: IPoint { x: 2, y: 2 } };
    let b = TileRect { min: IPoint { x: -1, y: 1 }, max: IPoint { x: 1, y: 5 } };
    let u = TileRect { min: IPoint { x: -1, y: 0 }, max: IPoint { x: 2, y: 5 } };
    assert_eq!(a.union(b), u);
    assert_eq!(b.union(a), u);
    assert_eq!(TileRect::empty().union(a), a);
    assert_eq!(TileRect::from_corners(IPoint { x: 3, y: -1 }, IPoint { x: 0, y: 4 }),
        TileRect { min: IPoint { x: 0, y: -1 }, max: IPoint { x: 3, y: 4 } });
}

#[test]
fn project_bounds_cover_all_levels() {
    let levels = vec![level(0, 0, 512, 512), level(512, 0, 512, 512), level(-256, 1024, 256, 512)];
    let b = TilemapBounds::from_project(256, 256, &levels);
    assert_eq!(b.offset, IPoint { x: -1, y: 0 });
    assert_eq!(b.size, GridSize { x: 5, y: 6 });
    assert_eq!(b.cell_size, IPoint { x: 8, y: 8 });
}

#[test]
fn chunk_positions_fill_the_level_inside_the_grid() {
    let levels = vec![level(0, 0, 512, 512), level(512, 0, 512, 256), level(-256, 1024, 256, 512)];
    let b = TilemapBounds::from_project(256, 256, &levels);
    assert_eq!(b.chunk_positions(&levels[1]), vec![(3, 0), (4, 0)]);
    assert_eq!(b.chunk_positions(&levels[2]), vec![(0, 4), (0, 5)]);
    assert_eq!(b.chunk_positions(&levels[0]), vec![(1, 0), (1, 1), (2, 0), (2, 1)]);
    for l in &levels {
        for (x, y) in b.chunk_positions(l) {
            assert!(x < b.size.x && y < b.size.y);
        }
    }
}

#[test]
fn tile_under_a_world_position() {
    let levels = vec![level(0, 0, 512, 512), level(512, 0, 512, 512)];
    let b = TilemapBounds::from_project(256, 256, &levels);
    assert_eq!(b.tile_at(IPoint { x: 0, y: 0 }), Some((0, 0)));
    assert_eq!(b.tile_at(IPoint { x: 17, y: 9 }), Some((2, 1)));
    assert_eq!(b.tile_at(IPoint { x: -1, y: 0 }), None);
    assert_eq!(b.tile_at(IPoint { x: 32, y: 0 }), None);
    assert_eq!(b.tile_at(IPoint { x: 31, y: 15 }), Some((3, 1)));
    assert_eq!(b.tile_at(IPoint { x: 31, y: 16 }), None);
}
