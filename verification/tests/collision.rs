use std::collections::{HashMap, HashSet};

use short_flight::collision::{
    register_collider_overlaps, register_tile_overlaps, BasicCollider, CollisionEvent,
    CollisionEventTracker, CollisionLayers, CollisionTracker, DeferColliderUpdate, OverlapCandidate,
};

fn collider(colliding: &[u64]) -> BasicCollider<()> {
    let mut c = BasicCollider::new(
        true,
        (),
        CollisionLayers::npc(),
        CollisionLayers::wall().union(CollisionLayers::npc()).union(CollisionLayers::projectile()),
    );
    for e in colliding {
        DeferColliderUpdate { enter: true, other: *e }.apply(&mut c);
    }
    c
}

fn changes(tracker: &CollisionTracker, entity: u64) -> HashMap<u64, bool> {
    let t = tracker.changes(entity).expect("entity has an entry");
    t.entities().into_iter().map(|e| (e, t.get(e).unwrap())).collect()
}

#[test]
fn layer_operations() {
    assert_eq!(CollisionLayers::default().bits(), 1);
    assert_eq!(CollisionLayers::default_layer().bits(), 1);
    assert_eq!(CollisionLayers::all().bits(), 0b11111);
    assert!(CollisionLayers::empty().is_empty());
    let wall_npc = CollisionLayers::wall().union(CollisionLayers::npc());
    assert_eq!(wall_npc.bits(), 6);
    assert!(wall_npc.intersects(&CollisionLayers::npc()));
    assert!(!wall_npc.intersects(&CollisionLayers::attack()));
    assert!(wall_npc.contains(&CollisionLayers::wall()));
    assert!(!CollisionLayers::wall().contains(&wall_npc));
    assert_eq!(CollisionLayers::from_bits(0b10000), Some(CollisionLayers::attack()));
    assert_eq!(CollisionLayers::from_bits(0b100000), None);
    assert!(CollisionLayers::projectile().intersection(CollisionLayers::attack()).is_empty());
}

#[test]
fn event_tracker_registers_and_clears() {
    let mut t = CollisionEventTracker::default();
    t.register_overlap(4, true);
    t.register_overlap(5, false);
    t.register_overlap(4, false);
    assert_eq!(t.get(4), Some(false));
    assert_eq!(t.get(5), Some(false));
    assert_eq!(t.get(6), None);
    let mut es = t.entities();
    es.sort();
    assert_eq!(es, vec![4, 5]);
    let copy = t.duplicate();
    t.clear();
    assert_eq!(t.get(4), None);
    assert_eq!(copy.get(4), Some(false));
}

#[test]
fn sync_merges_and_drains() {
    let mut main: CollisionTracker = CollisionTracker::default();
    main.register(1, 10, true);
    main.register(2, 20, true);
    let mut tiles: CollisionTracker<u8> = CollisionTracker::default();
    tiles.register(2, 21, false);
    tiles.register(3, 30, true);
    main.sync(&mut tiles);
    assert!(tiles.entities().is_empty());
    assert_eq!(changes(&main, 1), HashMap::from([(10, true)]));
    assert_eq!(changes(&main, 2), HashMap::from([(21, false)]));
    assert_eq!(changes(&main, 3), HashMap::from([(30, true)]));
}

#[test]
fn cleanup_keeps_entries_but_clears_changes() {
    let mut main: CollisionTracker = CollisionTracker::default();
    main.register(1, 10, true);
    main.register(2, 20, false);
    main.track(3);
    main.cleanup();
    let mut es = main.entities();
    es.sort();
    assert_eq!(es, vec![1, 2, 3]);
    assert!(changes(&main, 1).is_empty());
    assert!(main.pending_events().is_empty());
    assert_eq!(main.current_collisions().len(), 3);
}

#[test]
fn pending_events_report_each_change_once() {
    let mut main: CollisionTracker = CollisionTracker::default();
    main.register(1, 10, true);
    main.register(1, 11, false);
    main.register(2, 10, true);
    main.track(3);
    let events: HashSet<(u64, u64, bool)> =
        main.pending_events().into_iter().map(|e: CollisionEvent| (e.this, e.other, e.enter)).collect();
    assert_eq!(main.pending_events().len(), 3);
    assert_eq!(events, HashSet::from([(1, 10, true), (1, 11, false), (2, 10, true)]));
}

#[test]
fn collider_overlaps_register_changes_only() {
    let c = collider(&[7]);
    let candidates = vec![
        // starts overlapping, heights intersect: entered
        OverlapCandidate { entity: 5, layers: CollisionLayers::npc(), overlapping: true, z_intersecting: true },
        // starts overlapping but heights apart: not colliding, nothing
        OverlapCandidate { entity: 6, layers: CollisionLayers::wall(), overlapping: true, z_intersecting: false },
        // already colliding and still overlapping: nothing
        OverlapCandidate { entity: 7, layers: CollisionLayers::npc(), overlapping: true, z_intersecting: true },
        // not interacting layer: nothing
        OverlapCandidate { entity: 8, layers: CollisionLayers::attack(), overlapping: true, z_intersecting: true },
        // itself: nothing
        OverlapCandidate { entity: 1, layers: CollisionLayers::npc(), overlapping: true, z_intersecting: true },
        // not overlapping and not colliding: nothing
        OverlapCandidate { entity: 9, layers: CollisionLayers::npc(), overlapping: false, z_intersecting: true },
    ];
    let mut tracker: CollisionTracker = CollisionTracker::default();
    register_collider_overlaps(&mut tracker, 1, &c, &candidates);
    assert_eq!(changes(&tracker, 1), HashMap::from([(5, true)]));

    let leaving = vec![OverlapCandidate { entity: 7, layers: CollisionLayers::npc(), overlapping: false, z_intersecting: true }];
    let mut tracker2: CollisionTracker = CollisionTracker::default();
    register_collider_overlaps(&mut tracker2, 1, &c, &leaving);
    assert_eq!(changes(&tracker2, 1), HashMap::from([(7, false)]));

    // still overlapping in the plane but the heights moved apart: left
    let rising = vec![OverlapCandidate { entity: 7, layers: CollisionLayers::npc(), overlapping: true, z_intersecting: false }];
    let mut tracker4: CollisionTracker = CollisionTracker::default();
    register_collider_overlaps(&mut tracker4, 1, &c, &rising);
    assert_eq!(changes(&tracker4, 1), HashMap::from([(7, false)]));

    let mut tracker3: CollisionTracker = CollisionTracker::default();
    register_collider_overlaps(&mut tracker3, 2, &c, &Vec::new());
    assert!(changes(&tracker3, 2).is_empty());
}

#[test]
fn tile_overlaps_enter_and_leave() {
    // currently colliding with tiles 100, 101 and 105 and with the collider 7
    let c = collider(&[100, 101, 105, 7]);
    let known_tiles: HashSet<u64> = HashSet::from([100, 101, 105]);
    let tiles: HashMap<u64, Option<bool>> = HashMap::from([
        (100, Some(true)),  // still colliding: nothing
        (101, Some(false)), // below the collider now: left
        (102, Some(true)),  // new tile: entered
        (103, Some(false)), // new tile out of reach: nothing
        (104, None),        // no height data: nothing
    ]);
    let mut tracker: CollisionTracker<u8> = CollisionTracker::default();
    register_tile_overlaps(&mut tracker, 1, &c, &tiles, &known_tiles);
    let t = tracker.changes(1).unwrap();
    let got: HashMap<u64, bool> = t.entities().into_iter().map(|e| (e, t.get(e).unwrap())).collect();
    // tile 105 is no longer overlapped: left; the collider 7 is no tile: untouched
    assert_eq!(got, HashMap::from([(101, false), (102, true), (105, false)]));
}

#[test]
fn deferred_updates_enter_and_leave() {
    let mut c = collider(&[]);
    DeferColliderUpdate { enter: true, other: 3 }.apply(&mut c);
    assert!(c.currently_colliding.contains(&3));
    DeferColliderUpdate { enter: false, other: 3 }.apply(&mut c);
    assert!(!c.currently_colliding.contains(&3));
    assert!(c.interacts_with(&CollisionLayers::projectile()));
    assert!(!c.interacts_with(&CollisionLayers::attack()));
    assert!(c.dynamic);
}
