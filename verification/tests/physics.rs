use short_flight::physics::{Rigidbody, TilemapRigidbody};
use short_flight::tile::{TileDepth, TileFlags};

#[test]
fn touching_and_leaving_tiles() {
    let mut body = Rigidbody::new((0, 0), (0, 0), (0, 0));
    body.touch(1, true);
    body.touch(2, false);
    assert!(body.ground.contains(&1) && !body.wall.contains(&1));
    assert!(body.wall.contains(&2) && !body.ground.contains(&2));
    body.unground_on_leave(1);
    body.unground_on_leave(2);
    assert!(body.ground.is_empty() && body.wall.is_empty());
    assert_eq!(body.velocity, (0, 0));
    let t = TilemapRigidbody::new();
    assert!(t.ground.is_empty() && t.wall.is_empty());
}

#[test]
fn tile_depths() {
    assert_eq!(TileDepth::from_i64(-3).i64(), -3);
    assert_eq!(TileDepth::default().i64(), 0);
}

#[test]
fn tile_flag_bits() {
    assert_eq!(TileFlags::flip_x().bits(), 1);
    assert_eq!(TileFlags::fold().bits(), 64);
    assert_eq!(TileFlags::from_bits(0b1111111), Some(TileFlags { bits: 127 }));
    assert_eq!(TileFlags::from_bits(128), None);
    let mut f = TileFlags::exclusive().union(TileFlags::flip_y());
    assert!(f.contains(&TileFlags::flip_y()));
    assert!(f.intersects(&TileFlags::exclusive()));
    assert!(!f.intersects(&TileFlags::fold()));
    assert_eq!(f.set_positions(), vec![1, 5]);
    f.toggle(TileFlags::flip_y());
    assert_eq!(f, TileFlags::exclusive());
    f.toggle(TileFlags::flip_y());
    f.toggle(TileFlags::flip_y());
    assert_eq!(f, TileFlags::exclusive());
    assert_eq!(TileFlags::nth_flag(3), TileFlags::rotate_counter_clockwise());
    assert_eq!(TileFlags::nth_flag(7), TileFlags::empty());
    assert!(TileFlags::default().is_empty());
    assert_eq!(TileFlags::rotate_clockwise().bits(), 4);
    assert_eq!(TileFlags::flip_triangles().bits(), 16);
}
