use short_flight::ldtk::{
    changed_maps, level_geometries, load_ldtk_project, resolve_tile_flags, tile_grid_position, LdtkLevel,
    MapAssetEvent,
};
use short_flight::tilemap::LevelGeometry;
use short_flight::mesh::{
    calculate_mesh_data, slope_walls, splice_tileset, texture_tile_origins, wall_count,
    SideVertex,
};
use short_flight::tile::{TileDepth, TileFlags};

#[test]
fn changed_maps_collects_and_filters() {
    let events = vec![
        MapAssetEvent::Added(1),
        MapAssetEvent::Modified(2),
        MapAssetEvent::Other,
        MapAssetEvent::Added(3),
    ];
    assert_eq!(changed_maps(&events), vec![1, 2, 3]);
    // a removal drops the earlier entries of the removed map only
    let events = vec![MapAssetEvent::Added(1), MapAssetEvent::Added(2), MapAssetEvent::Removed(1)];
    assert_eq!(changed_maps(&events), vec![2]);
    let events = vec![
        MapAssetEvent::Modified(3),
        MapAssetEvent::Removed(3),
        MapAssetEvent::Added(3),
        MapAssetEvent::Added(4),
    ];
    assert_eq!(changed_maps(&events), vec![3, 4]);
    assert_eq!(changed_maps(&vec![]), Vec::<u64>::new());
}

#[test]
fn grid_positions_and_flags() {
    assert_eq!(tile_grid_position(96, 33, 32), (3, 1));
    assert_eq!(tile_grid_position(0, 0, 16), (0, 0));
    let saved = TileFlags::fold();
    assert_eq!(resolve_tile_flags(Some(saved), 3), saved);
    assert_eq!(resolve_tile_flags(None, 3).bits(), 3);
    // bits that name no flag make LDtk's bits count for nothing
    assert_eq!(resolve_tile_flags(None, 1 << 7).bits(), 0);
}

#[test]
fn texture_tiles_cover_whole_tiles_only() {
    let origins = texture_tile_origins(100, 70, 32, 32);
    assert_eq!(origins, vec![(0, 0), (32, 0), (64, 0), (0, 32), (32, 32), (64, 32)]);
    assert_eq!(texture_tile_origins(31, 64, 32, 32), vec![]);
}

#[test]
fn slope_walls_follow_the_raised_corners() {
    let (vertices, indices) = slope_walls([false, false, false, false]);
    assert!(vertices.is_empty() && indices.is_empty());

    // corner 1 raised: a triangle under edge 0-1 and one under edge 1-2
    let (vertices, indices) = slope_walls([false, true, false, false]);
    assert_eq!(
        vertices,
        vec![
            SideVertex::Slope { corner: 1, lowered: false, uv: 1 },
            SideVertex::Slope { corner: 0, lowered: true, uv: 2 },
            SideVertex::Slope { corner: 1, lowered: true, uv: 3 },
            SideVertex::Slope { corner: 1, lowered: false, uv: 0 },
            SideVertex::Slope { corner: 1, lowered: true, uv: 2 },
            SideVertex::Slope { corner: 2, lowered: true, uv: 3 },
        ]
    );
    assert_eq!(indices, vec![0, 1, 2, 3, 4, 5]);

    // corners 0 and 1 raised: a quad under their edge and triangles beside it
    let (vertices, indices) = slope_walls([true, true, false, false]);
    assert_eq!(vertices.len(), 10);
    assert_eq!(indices, vec![0, 1, 2, 2, 3, 0, 4, 5, 6, 7, 8, 9]);
}

#[test]
fn wall_counts_from_neighbours() {
    let d = |v: i64| TileDepth::from_i64(v);
    assert_eq!(wall_count(&d(3), None), 2);
    assert_eq!(wall_count(&d(3), Some(&d(1))), 2);
    assert_eq!(wall_count(&d(5), Some(&d(-2))), 7);
    assert_eq!(wall_count(&d(1), Some(&d(3))), 0);
    assert_eq!(wall_count(&d(2), Some(&d(2))), 0);
    assert_eq!(wall_count(&d(i64::MAX), Some(&d(i64::MIN))), u32::MAX);
}

#[test]
fn tile_mesh_adds_walls_after_the_slopes() {
    let mesh = calculate_mesh_data([false; 4], [0, 2, 0, 1], TileFlags::empty());
    assert_eq!(mesh.top.indices, vec![0, 1, 2, 2, 3, 0]);
    assert_eq!(mesh.side_vertices.len(), 12);
    assert_eq!(
        &mesh.side_vertices[0..4],
        &[
            SideVertex::Wall { corner: 2, drop: 0, uv: 1 },
            SideVertex::Wall { corner: 1, drop: 0, uv: 0 },
            SideVertex::Wall { corner: 1, drop: 1, uv: 3 },
            SideVertex::Wall { corner: 2, drop: 1, uv: 2 },
        ]
    );
    assert_eq!(mesh.side_vertices[4], SideVertex::Wall { corner: 2, drop: 1, uv: 1 });
    assert_eq!(mesh.side_vertices[8], SideVertex::Wall { corner: 0, drop: 0, uv: 1 });
    assert_eq!(mesh.side_indices.len(), 18);
    assert_eq!(&mesh.side_indices[12..18], &[8, 9, 10, 10, 11, 8]);
    // every index names a vertex
    assert!(mesh.side_indices.iter().all(|&i| (i as usize) < mesh.side_vertices.len()));

    let sloped = calculate_mesh_data([true, false, false, false], [1, 0, 0, 0], TileFlags::empty());
    assert_eq!(sloped.side_vertices.len(), 10);
    assert_eq!(&sloped.side_indices[6..12], &[6, 7, 8, 8, 9, 6]);
}

#[test]
fn splicing_a_tileset_cuts_whole_tiles() {
    // a 3 by 2 texture cut into 2 by 1 tiles: one column, two rows
    let data: Vec<u8> = (0..24).collect();
    let tiles = splice_tileset(&data, 3, 2, 2, 1).unwrap();
    assert_eq!(tiles, vec![(0..8).collect::<Vec<u8>>(), (12..20).collect::<Vec<u8>>()]);
    // too little data for the texture
    assert_eq!(splice_tileset(&data[..23].to_vec(), 3, 2, 2, 1), None);
    // a texture smaller than a tile has no tiles
    assert_eq!(splice_tileset(&data, 3, 2, 4, 4), Some(vec![]));
}

const LDTK_PROJECT: &str = r##"{
  "appBuildId": 473703, "backupLimit": 10, "backupOnSave": false, "bgColor": "#40465B",
  "defaultGridSize": 16, "defaultLevelBgColor": "#696A79", "defaultPivotX": 0, "defaultPivotY": 0,
  "defs": { "entities": [], "enums": [], "externalEnums": [], "layers": [], "levelFields": [], "tilesets": [] },
  "exportTiled": false, "externalLevels": false, "flags": [], "identifierStyle": "Capitalize",
  "imageExportMode": "None", "jsonVersion": "1.1.3", "levelNamePattern": "Level_%idx",
  "levels": [
    { "__bgColor": "#696A79", "__neighbours": [], "__smartColor": "#ADADB5", "bgPivotX": 0.5,
      "bgPivotY": 0.5, "fieldInstances": [], "identifier": "Level_0", "iid": "a",
      "layerInstances": [], "pxHei": 512, "pxWid": 1024, "uid": 0, "useAutoIdentifier": true,
      "worldDepth": 0, "worldX": -256, "worldY": 5000000000 }
  ],
  "minifyJson": false, "nextUid": 1, "simplifiedExport": false, "worlds": [],
  "worldGridWidth": 256, "worldGridHeight": 128
}"##;

#[test]
fn ldtk_project_layout_and_levels() {
    let project = load_ldtk_project(&LDTK_PROJECT.as_bytes().to_vec()).unwrap();
    let layout = &project.layout;
    assert_eq!(layout.default_grid_size, 16);
    assert_eq!(layout.world_grid_width, Some(256));
    assert_eq!(layout.world_grid_height, Some(128));
    assert_eq!(
        layout.levels,
        vec![LdtkLevel { uid: 0, world_x: -256, world_y: 5000000000, px_wid: 1024, px_hei: 512 }]
    );
    assert_eq!(project.project.levels.len(), 1);

    let (width, height, levels) = level_geometries(layout).unwrap();
    assert_eq!((width, height), (256, 128));
    // each value taken as an i32: 5000000000 wraps around
    assert_eq!(
        levels,
        vec![LevelGeometry { world_x: -256, world_y: 5000000000i64 as i32, px_wid: 1024, px_hei: 512 }]
    );

    let mut no_grid = layout.clone();
    no_grid.world_grid_height = None;
    assert_eq!(level_geometries(&no_grid), None);

    assert!(load_ldtk_project(&b"{ not json".to_vec()).is_none());
    assert!(load_ldtk_project(&b"{}".to_vec()).is_none());
}

#[test]
fn grid_positions_wrap_like_casts() {
    // rounded towards zero, then taken as a u32
    assert_eq!(tile_grid_position(-33, 31, 32), (u32::MAX, 0));
    assert_eq!(tile_grid_position(-31, -64, 32), (0, u32::MAX - 1));
    assert_eq!(tile_grid_position(i64::MAX, 32, 1), (u32::MAX, 32));
    // a negative grid size divides the same way
    assert_eq!(tile_grid_position(33, -33, -32), (u32::MAX, 1));
    assert_eq!(tile_grid_position(i64::MIN, 0, 1), (0, 0));
}

#[test]
fn flags_text_form() {
    assert_eq!(TileFlags::empty().to_text(), "");
    assert_eq!(TileFlags::fold().union(TileFlags::flip_x()).to_text(), "FlipX, Fold, ");
    assert_eq!(
        TileFlags::from_bits(0b1111111).unwrap().to_text(),
        "FlipX, FlipY, RotateClockwise, RotateCounterClockwise, FlipTriangles, Exclusive, Fold, "
    );
    // bits that name no flag have no name
    assert_eq!(TileFlags { bits: 1 << 7 | 1 << 1 }.to_text(), "FlipY, ");
}
