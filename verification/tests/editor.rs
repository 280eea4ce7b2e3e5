use short_flight::editor::{EditorAction, EditorKeys, SlopeChange, TilePickedMode};
use short_flight::mesh::{offset_indices, top_vertices};
use short_flight::tile::TileFlags;

fn keys() -> EditorKeys {
    EditorKeys {
        stop_painting: false,
        paint: false,
        modify: true,
        slope_decrease_x: false,
        slope_increase_x: false,
        slope_increase_z: false,
        slope_decrease_z: false,
        start_painting: false,
        flag_keys: [false; 8],
    }
}

#[test]
fn setting_the_picked_mode() {
    let mut m = TilePickedMode::default();
    m.set(TilePickedMode::Drag { tile: 3 });
    assert_eq!(m, TilePickedMode::Drag { tile: 3 });
    m.set(TilePickedMode::Move { tile: 4 });
    assert_eq!(m, TilePickedMode::Drag { tile: 3 });
    m.set(TilePickedMode::Idle);
    assert_eq!(m, TilePickedMode::Idle);
    let mut p = TilePickedMode::Paint { selected: 1, painting: None };
    p.set(TilePickedMode::Idle);
    assert_eq!(p, TilePickedMode::Paint { selected: 1, painting: None });
}

#[test]
fn selecting_tiles() {
    let mut m = TilePickedMode::Idle;
    assert!(!m.select_tile_for_modifying(5, true, false));
    assert!(!m.select_tile_for_modifying(5, false, true));
    assert!(m.select_tile_for_modifying(5, true, true));
    assert_eq!(m, TilePickedMode::Move { tile: 5 });
    assert!(!m.select_tile_for_modifying(6, true, true));
    let mut p = TilePickedMode::Paint { selected: 1, painting: None };
    p.select_tile_for_painting(1);
    assert_eq!(p, TilePickedMode::Paint { selected: 1, painting: None });
    p.select_tile_for_painting(2);
    assert_eq!(p, TilePickedMode::Paint { selected: 1, painting: Some(2) });
}

#[test]
fn keystrokes_adjust_the_moved_tile() {
    let mut m = TilePickedMode::Move { tile: 9 };
    let mut k = keys();
    k.slope_increase_z = true;
    k.slope_decrease_z = true;
    assert_eq!(
        m.adjust_tiles_via_keystrokes(&k),
        EditorAction::AdjustSlope { tile: 9, change: SlopeChange::IncreaseZ }
    );
    let mut unmodified = keys();
    unmodified.modify = false;
    unmodified.slope_decrease_x = true;
    assert_eq!(m.adjust_tiles_via_keystrokes(&unmodified), EditorAction::Nothing);
    let mut f = keys();
    f.flag_keys[0] = true;
    f.flag_keys[4] = true;
    f.flag_keys[7] = true;
    assert_eq!(
        m.adjust_tiles_via_keystrokes(&f),
        EditorAction::ToggleFlags { tile: 9, flags: TileFlags { bits: 0b10001 }, presses: 3 }
    );
    assert_eq!(m.adjust_tiles_via_keystrokes(&keys()), EditorAction::Nothing);
    let mut q = keys();
    q.start_painting = true;
    assert_eq!(m.adjust_tiles_via_keystrokes(&q), EditorAction::StartPainting { tile: 9 });
    assert_eq!(m, TilePickedMode::Paint { selected: 9, painting: None });
}

#[test]
fn painting_copies_and_stops() {
    let mut m = TilePickedMode::Paint { selected: 9, painting: Some(3) };
    let mut space = keys();
    space.paint = true;
    assert_eq!(m.adjust_tiles_via_keystrokes(&space), EditorAction::PaintOver { from: 9, to: 3 });
    assert_eq!(m, TilePickedMode::Paint { selected: 9, painting: None });
    assert_eq!(m.adjust_tiles_via_keystrokes(&space), EditorAction::Nothing);
    let mut stop = keys();
    stop.stop_painting = true;
    assert_eq!(m.adjust_tiles_via_keystrokes(&stop), EditorAction::StopPainting);
    assert_eq!(m, TilePickedMode::Idle);
    assert_eq!(m.adjust_tiles_via_keystrokes(&space), EditorAction::Nothing);
}

#[test]
fn top_face_layouts() {
    let plain = top_vertices(TileFlags::empty());
    assert_eq!(plain.corners, vec![1, 0, 3, 2]);
    assert_eq!(plain.uvs, vec![0, 1, 2, 3]);
    assert_eq!(plain.indices, vec![0, 1, 2, 2, 3, 0]);
    let flipped = top_vertices(TileFlags::flip_triangles().union(TileFlags::flip_x()));
    assert_eq!(flipped.uvs, vec![1, 0, 3, 2]);
    assert_eq!(flipped.indices, vec![1, 2, 3, 3, 0, 1]);
    let folded = top_vertices(TileFlags::fold().union(TileFlags::flip_y()).union(TileFlags::flip_triangles()));
    assert_eq!(folded.corners, vec![1, 0, 3, 2, 1, 3]);
    assert_eq!(folded.uvs, vec![3, 2, 1, 0, 3, 1]);
    assert_eq!(folded.indices, vec![0, 1, 2, 5, 3, 4]);
}

#[test]
fn offsetting_indices() {
    let mut offset = 4;
    assert_eq!(offset_indices(vec![0, 1, 2, 2, 3, 0], &mut offset), vec![4, 5, 6, 6, 7, 4]);
    assert_eq!(offset, 8);
    assert_eq!(offset_indices(vec![], &mut offset), Vec::<u32>::new());
    assert_eq!(offset, 8);
    assert_eq!(offset_indices(vec![2, 0], &mut offset), vec![10, 8]);
    assert_eq!(offset, 11);
}
