use std::collections::{HashMap, HashSet};
use std::marker::PhantomData;
use vstd::prelude::*;
use vstd::std_specs::iter::IteratorSpec;

verus! {

broadcast use vstd::std_specs::hash::group_hash_axioms;

/// The keys of a map, each once.
pub fn map_keys<V>(m: &HashMap<u64, V>) -> (r: Vec<u64>)
    ensures
        r@.to_set() == m@.dom(),
        r@.no_duplicates(),
{
    let mut r: Vec<u64> = Vec::new();
    let ghost keys: Seq<u64> = m.keys().remaining().unref();
    for k in it: m.keys()
        invariant
            it.seq().unref() == keys,
            keys.to_set() == m@.dom(),
            keys.no_duplicates(),
            r@.len() == it.index(),
            forall|i: int| 0 <= i < it.index() ==> r@[i] == keys[i],
    {
        assert(it.index() <= it.seq().len());
        r.push(*k);
    }
    proof {
        assert(r@ =~= keys);
    }
    r
}

/// The elements of a set, each once.
pub fn set_elements(s: &HashSet<u64>) -> (r: Vec<u64>)
    ensures
        r@.to_set() == s@,
        r@.no_duplicates(),
{
    let mut r: Vec<u64> = Vec::new();
    let ghost elements: Seq<u64> = s.iter().remaining().unref();
    for k in it: s.iter()
        invariant
            it.seq().unref() == elements,
            elements.to_set() == s@,
            elements.no_duplicates(),
            r@.len() == it.index(),
            forall|i: int| 0 <= i < it.index() ==> r@[i] == elements[i],
    {
        assert(it.index() <= it.seq().len());
        r.push(*k);
    }
    proof {
        assert(r@ =~= elements);
    }
    r
}

/// The collision layers an object belongs to, or can interact with, as a set of bits:
///
/// * `Default`    = 0b00000001
/// * `Wall`       = 0b00000010
/// * `NPC`        = 0b00000100
/// * `Projectile` = 0b00001000
/// * `Attack`     = 0b00010000
#[derive(Debug, Clone, Copy, PartialEq, Eq, Structural)]
pub struct CollisionLayers {
    pub bits: u32,
}

/// The bits of all known layers.
pub open spec fn all_layer_bits() -> u32 {
    0b11111
}

impl Default for CollisionLayers {
    /// The `Default` layer.
    fn default() -> (r: Self)
        ensures
            r.bits == 1,
    {
        CollisionLayers { bits: 1 }
    }
}

impl CollisionLayers {
    /// No layer.
    pub fn empty() -> (r: Self)
        ensures
            r.bits == 0,
    {
        CollisionLayers { bits: 0 }
    }

    /// The `Default` layer.
    pub fn default_layer() -> (r: Self)
        ensures
            r.bits == 1,
    {
        CollisionLayers { bits: 1 }
    }

    /// The `Wall` layer.
    pub fn wall() -> (r: Self)
        ensures
            r.bits == 2,
    {
        CollisionLayers { bits: 2 }
    }

    /// The `NPC` layer.
    pub fn npc() -> (r: Self)
        ensures
            r.bits == 4,
    {
        CollisionLayers { bits: 4 }
    }

    /// The `Projectile` layer.
    pub fn projectile() -> (r: Self)
        ensures
            r.bits == 8,
    {
        CollisionLayers { bits: 8 }
    }

    /// The `Attack` layer.
    pub fn attack() -> (r: Self)
        ensures
            r.bits == 16,
    {
        CollisionLayers { bits: 16 }
    }

    /// Every known layer.
    pub fn all() -> (r: Self)
        ensures
            r.bits == all_layer_bits(),
    {
        CollisionLayers { bits: 0b11111 }
    }

    /// The layers given by `bits`, or `None` if a bit names no known layer.
    pub fn from_bits(bits: u32) -> (r: Option<Self>)
        ensures
            r == (if bits & !all_layer_bits() == 0 {
                Some(CollisionLayers { bits })
            } else {
                None
            }),
    {
        if bits & !0b11111u32 == 0 {
            Some(CollisionLayers { bits })
        } else {
            None
        }
    }

    /// The raw bits.
    pub fn bits(&self) -> (r: u32)
        ensures
            r == self.bits,
    {
        self.bits
    }

    /// Whether no layer is set.
    pub fn is_empty(&self) -> (r: bool)
        ensures
            r == (self.bits == 0),
    {
        self.bits == 0
    }

    /// Whether the two sets share a layer.
    pub fn intersects(&self, other: &Self) -> (r: bool)
        ensures
            r == (self.bits & other.bits != 0),
    {
        self.bits & other.bits != 0
    }

    /// Whether every layer of `other` is in `self`.
    pub fn contains(&self, other: &Self) -> (r: bool)
        ensures
            r == (self.bits & other.bits == other.bits),
    {
        self.bits & other.bits == other.bits
    }

    /// The layers in either set.
    pub fn union(self, other: Self) -> (r: Self)
        ensures
            r.bits == self.bits | other.bits,
    {
        CollisionLayers { bits: self.bits | other.bits }
    }

    /// The layers in both sets.
    pub fn intersection(self, other: Self) -> (r: Self)
        ensures
            r.bits == self.bits & other.bits,
    {
        CollisionLayers { bits: self.bits & other.bits }
    }
}

/// The overlap changes registered for one entity during a collision step: for each
/// other entity, whether the two now overlap (`true`) or stopped overlapping (`false`).
#[derive(Debug)]
pub struct CollisionEventTracker {
    overlaps: HashMap<u64, bool>,
}

impl View for CollisionEventTracker {
    type V = Map<u64, bool>;

    closed spec fn view(&self) -> Map<u64, bool> {
        self.overlaps@
    }
}

impl Default for CollisionEventTracker {
    fn default() -> (r: Self)
        ensures
            r@ == Map::<u64, bool>::empty(),
    {
        CollisionEventTracker { overlaps: HashMap::new() }
    }
}

impl CollisionEventTracker {
    /// Registers a change of overlap with `entity`.
    ///
    /// This should only be called once per overlap or end of overlap, right when it happens.
    pub fn register_overlap(&mut self, entity: u64, is_overlapping: bool)
        ensures
            final(self)@ == old(self)@.insert(entity, is_overlapping),
    {
        self.overlaps.insert(entity, is_overlapping);
    }

    /// Clears the registered changes.
    pub fn clear(&mut self)
        ensures
            final(self)@ == Map::<u64, bool>::empty(),
    {
        self.overlaps.clear();
    }

    /// The registered change for `entity`, if any.
    pub fn get(&self, entity: u64) -> (r: Option<bool>)
        ensures
            r == (if self@.contains_key(entity) {
                Some(self@[entity])
            } else {
                None
            }),
    {
        match self.overlaps.get(&entity) {
            Some(b) => Some(*b),
            None => None,
        }
    }

    /// The entities with a registered change, each once.
    pub fn entities(&self) -> (r: Vec<u64>)
        ensures
            r@.to_set() == self@.dom(),
            r@.no_duplicates(),
    {
        map_keys(&self.overlaps)
    }

    /// A copy of the registered changes.
    pub fn duplicate(&self) -> (r: Self)
        ensures
            r@ == self@,
    {
        CollisionEventTracker { overlaps: self.overlaps.clone() }
    }
}

/// Parallelizable tracker of collision changes, per entity.
///
/// Different marker types `T` give distinct trackers that can be filled in parallel and
/// later merged into the main one, whose marker is `()`.
#[derive(Debug)]
pub struct CollisionTracker<T = ()> {
    event_trackers: HashMap<u64, CollisionEventTracker>,
    marker: PhantomData<T>,
}

impl<T> View for CollisionTracker<T> {
    type V = Map<u64, Map<u64, bool>>;

    closed spec fn view(&self) -> Map<u64, Map<u64, bool>> {
        Map::new(
            |e: u64| self.event_trackers@.contains_key(e),
            |e: u64| self.event_trackers@[e]@,
        )
    }
}

impl<T> Default for CollisionTracker<T> {
    fn default() -> (r: Self)
        ensures
            r@ == Map::<u64, Map<u64, bool>>::empty(),
    {
        let r = CollisionTracker { event_trackers: HashMap::new(), marker: PhantomData };
        assert(r@ =~= Map::<u64, Map<u64, bool>>::empty());
        r
    }
}

/// The changes registered for `entity` in a tracker, empty if there are none.
pub open spec fn changes_of(tracker: Map<u64, Map<u64, bool>>, entity: u64) -> Map<u64, bool> {
    if tracker.contains_key(entity) {
        tracker[entity]
    } else {
        Map::empty()
    }
}

impl<T> CollisionTracker<T> {
    /// The registered changes of `entity`, if it has an entry.
    pub fn changes(&self, entity: u64) -> (r: Option<&CollisionEventTracker>)
        ensures
            match r {
                Some(t) => self@.contains_key(entity) && t@ == self@[entity],
                None => !self@.contains_key(entity),
            },
    {
        self.event_trackers.get(&entity)
    }

    /// The entities with an entry, each once.
    pub fn entities(&self) -> (r: Vec<u64>)
        ensures
            r@.to_set() == self@.dom(),
            r@.no_duplicates(),
    {
        map_keys(&self.event_trackers)
    }

    /// Registers a change of overlap between `entity` and `other`, giving `entity` an
    /// entry if it has none.
    pub fn register(&mut self, entity: u64, other: u64, is_overlapping: bool)
        ensures
            final(self)@ == old(self)@.insert(
                entity,
                changes_of(old(self)@, entity).insert(other, is_overlapping),
            ),
    {
        let mut tracker = match self.event_trackers.get(&entity) {
            Some(t) => t.duplicate(),
            None => CollisionEventTracker::default(),
        };
        tracker.register_overlap(other, is_overlapping);
        let ghost before = self@;
        self.event_trackers.insert(entity, tracker);
        proof {
            assert(self@ =~= before.insert(entity, changes_of(before, entity).insert(other, is_overlapping)));
        }
    }

    /// Gives `entity` an entry if it has none.
    pub fn track(&mut self, entity: u64)
        ensures
            final(self)@ == old(self)@.insert(entity, changes_of(old(self)@, entity)),
    {
        let ghost before = self@;
        if !self.event_trackers.contains_key(&entity) {
            self.event_trackers.insert(entity, CollisionEventTracker::default());
        }
        proof {
            assert(self@ =~= before.insert(entity, changes_of(before, entity)));
        }
    }
}

impl CollisionTracker {
    /// The registered changes, per entity.
    pub fn current_collisions(&self) -> (r: &HashMap<u64, CollisionEventTracker>)
        ensures
            r@.dom() == self@.dom(),
            forall|e: u64| #[trigger] r@.contains_key(e) ==> r@[e]@ == self@[e],
    {
        &self.event_trackers
    }

    /// Clears the registered changes of every entity, keeping their entries.
    pub fn cleanup(&mut self)
        ensures
            final(self)@.dom() == old(self)@.dom(),
            forall|e: u64| #[trigger] final(self)@.contains_key(e) ==> final(self)@[e] == Map::<
                u64,
                bool,
            >::empty(),
    {
        let entities = map_keys(&self.event_trackers);
        let ghost before = self@;
        let mut i: usize = 0;
        while i < entities.len()
            invariant
                0 <= i <= entities.len(),
                entities@.to_set() == before.dom(),
                self@.dom() == before.dom(),
                forall|j: int| 0 <= j < i ==> #[trigger] self@[entities@[j]] == Map::<u64, bool>::empty(),
            decreases entities.len() - i,
        {
            let e = entities[i];
            proof {
                assert(entities@.to_set().contains(entities@[i as int]));
            }
            let ghost mid = self@;
            self.event_trackers.insert(e, CollisionEventTracker::default());
            proof {
                assert(self@.dom() =~= before.dom());
                assert forall|j: int| 0 <= j <= i implies #[trigger] self@[entities@[j]] == Map::<u64, bool>::empty() by {
                    if entities@[j] != e {
                        assert(self@[entities@[j]] == mid[entities@[j]]);
                    }
                }
            }
            i = i + 1;
        }
        proof {
            assert forall|e: u64| #[trigger] self@.contains_key(e) implies self@[e] == Map::<u64, bool>::empty() by {
                assert(entities@.to_set().contains(e));
                let j = choose|j: int| 0 <= j < entities@.len() && entities@[j] == e;
                assert(self@[entities@[j]] == Map::<u64, bool>::empty());
            }
        }
    }

    /// Merges the changes of another tracker into this one, leaving the other empty.
    /// An entity tracked by both ends up with the other tracker's changes.
    pub fn sync<U>(&mut self, other: &mut CollisionTracker<U>)
        ensures
            final(self)@ == old(self)@.union_prefer_right(old(other)@),
            final(other)@ == Map::<u64, Map<u64, bool>>::empty(),
    {
        let entities = map_keys(&other.event_trackers);
        let ghost before = self@;
        let ghost theirs = other@;
        let mut i: usize = 0;
        while i < entities.len()
            invariant
                0 <= i <= entities.len(),
                entities@.to_set() == theirs.dom(),
                entities@.no_duplicates(),
                other@ == theirs,
                self@ == before.union_prefer_right(
                    theirs.restrict(entities@.take(i as int).to_set()),
                ),
            decreases entities.len() - i,
        {
            let e = entities[i];
            proof {
                assert(entities@.to_set().contains(entities@[i as int]));
            }
            let copy = other.event_trackers.get(&e).unwrap().duplicate();
            assert(copy@ == theirs[e]);
            let ghost mid = self@;
            self.event_trackers.insert(e, copy);
            proof {
                assert(self@ =~= mid.insert(e, theirs[e]));
                assert(entities@.take(i + 1).to_set() =~= entities@.take(i as int).to_set().insert(e)) by {
                    assert(entities@.take(i + 1) =~= entities@.take(i as int).push(e));
                    broadcast use vstd::seq_lib::group_seq_properties;
                }
                assert(self@ =~= before.union_prefer_right(
                    theirs.restrict(entities@.take(i + 1).to_set()),
                ));
            }
            i = i + 1;
        }
        proof {
            assert(entities@.take(entities@.len() as int) =~= entities@);
            assert(theirs.restrict(entities@.to_set()) =~= theirs);
        }
        other.event_trackers.clear();
        proof {
            assert(other@ =~= Map::<u64, Map<u64, bool>>::empty());
        }
    }
}

/// A collider: its shape (of type `S`), the layers it belongs to and can interact
/// with, and the entities it currently collides with.
#[derive(Debug)]
pub struct BasicCollider<S> {
    pub dynamic: bool,
    pub shape: S,
    pub layers: CollisionLayers,
    pub can_interact: CollisionLayers,
    pub currently_colliding: HashSet<u64>,
}

impl<S> BasicCollider<S> {
    /// A collider that collides with nothing yet.
    pub fn new(dynamic: bool, shape: S, layers: CollisionLayers, can_interact: CollisionLayers) -> (r:
        Self)
        ensures
            r.dynamic == dynamic,
            r.shape == shape,
            r.layers == layers,
            r.can_interact == can_interact,
            r.currently_colliding@ == Set::<u64>::empty(),
    {
        BasicCollider { dynamic, shape, layers, can_interact, currently_colliding: HashSet::new() }
    }

    /// Whether this collider interacts with objects on the given layers.
    pub fn interacts_with(&self, layers: &CollisionLayers) -> (r: bool)
        ensures
            r == (self.can_interact.bits & layers.bits != 0),
    {
        self.can_interact.intersects(layers)
    }
}

/// A deferred update of a collider's set of current collisions, applied once the
/// collision events of a step have been sent.
#[derive(Debug, Clone, Copy, PartialEq, Eq, Structural)]
pub struct DeferColliderUpdate {
    pub enter: bool,
    pub other: u64,
}

impl DeferColliderUpdate {
    /// Adds `other` to the collider's current collisions when entering, removes it
    /// when leaving.
    pub fn apply<S>(self, collider: &mut BasicCollider<S>)
        ensures
            final(collider).currently_colliding@ == (if self.enter {
                old(collider).currently_colliding@.insert(self.other)
            } else {
                old(collider).currently_colliding@.remove(self.other)
            }),
            final(collider).dynamic == old(collider).dynamic,
            final(collider).shape == old(collider).shape,
            final(collider).layers == old(collider).layers,
            final(collider).can_interact == old(collider).can_interact,
    {
        if self.enter {
            collider.currently_colliding.insert(self.other);
        } else {
            collider.currently_colliding.remove(&self.other);
        }
    }
}

/// What the collision step found out about another collider: the entity, its layers,
/// whether the two shapes overlap in the plane, and whether their height ranges intersect.
#[derive(Debug, Clone, Copy, PartialEq, Eq, Structural)]
pub struct OverlapCandidate {
    pub entity: u64,
    pub layers: CollisionLayers,
    pub overlapping: bool,
    pub z_intersecting: bool,
}

/// Whether a candidate is another entity the collider interacts with, whose collision
/// state (overlapping in the plane and in height) differs from what the collider records.
pub open spec fn candidate_changes(
    entity: u64,
    can_interact: CollisionLayers,
    colliding: Set<u64>,
    c: OverlapCandidate,
) -> bool {
    &&& c.entity != entity
    &&& can_interact.bits & c.layers.bits != 0
    &&& colliding.contains(c.entity) != (c.overlapping && c.z_intersecting)
}

/// The overlap changes the collider of `entity` registers for a list of candidates:
/// a candidate collides when it overlaps in the plane and the height ranges intersect,
/// and it is registered, with that state, only when the state differs from what the
/// collider records.
pub open spec fn collider_changes(
    entity: u64,
    can_interact: CollisionLayers,
    colliding: Set<u64>,
    candidates: Seq<OverlapCandidate>,
) -> Map<u64, bool>
    decreases candidates.len(),
{
    if candidates.len() == 0 {
        Map::empty()
    } else {
        let rest = collider_changes(entity, can_interact, colliding, candidates.drop_last());
        let c = candidates.last();
        if candidate_changes(entity, can_interact, colliding, c) {
            rest.insert(c.entity, c.overlapping && c.z_intersecting)
        } else {
            rest
        }
    }
}

/// Registers, for the dynamic collider of `entity`, every change of overlap with the
/// other colliders it interacts with. The entity gets an entry in the tracker even
/// when nothing changes.
pub fn register_collider_overlaps<S>(
    tracker: &mut CollisionTracker,
    entity: u64,
    collider: &BasicCollider<S>,
    candidates: &Vec<OverlapCandidate>,
)
    requires
        forall|i: int, j: int|
            0 <= i < j < candidates@.len() ==> candidates@[i].entity != candidates@[j].entity,
    ensures
        final(tracker)@ == old(tracker)@.insert(
            entity,
            changes_of(old(tracker)@, entity).union_prefer_right(
                collider_changes(
                    entity,
                    collider.can_interact,
                    collider.currently_colliding@,
                    candidates@,
                ),
            ),
        ),
{
    let ghost start = tracker@;
    tracker.track(entity);
    let mut i: usize = 0;
    proof {
        assert(candidates@.take(0) =~= Seq::<OverlapCandidate>::empty());
        assert(changes_of(start, entity).union_prefer_right(Map::empty()) =~= changes_of(start, entity));
    }
    while i < candidates.len()
        invariant
            0 <= i <= candidates.len(),
            tracker@ == start.insert(
                entity,
                changes_of(start, entity).union_prefer_right(
                    collider_changes(
                        entity,
                        collider.can_interact,
                        collider.currently_colliding@,
                        candidates@.take(i as int),
                    ),
                ),
            ),
        decreases candidates.len() - i,
    {
        let c = candidates[i];
        proof {
            assert(candidates@.take(i + 1).drop_last() =~= candidates@.take(i as int));
            assert(candidates@.take(i + 1).last() == c);
        }
        if c.entity != entity && collider.interacts_with(&c.layers)
            && collider.currently_colliding.contains(&c.entity) != (c.overlapping
            && c.z_intersecting) {
            let ghost before = tracker@;
            tracker.register(entity, c.entity, c.overlapping && c.z_intersecting);
            proof {
                assert(changes_of(before, entity) =~= changes_of(start, entity).union_prefer_right(
                    collider_changes(
                        entity,
                        collider.can_interact,
                        collider.currently_colliding@,
                        candidates@.take(i as int),
                    ),
                ));
                assert(changes_of(before, entity).insert(c.entity, c.overlapping && c.z_intersecting)
                    =~= changes_of(start, entity).union_prefer_right(
                    collider_changes(
                        entity,
                        collider.can_interact,
                        collider.currently_colliding@,
                        candidates@.take(i + 1),
                    ),
                ));
                assert(tracker@ =~= start.insert(
                    entity,
                    changes_of(start, entity).union_prefer_right(
                        collider_changes(
                            entity,
                            collider.can_interact,
                            collider.currently_colliding@,
                            candidates@.take(i + 1),
                        ),
                    ),
                ));
            }
        }
        i = i + 1;
    }
    proof {
        assert(candidates@.take(candidates@.len() as int) =~= candidates@);
    }
}

/// The overlap changes the collider of an entity registers against tiles: `tiles` maps
/// each tile the collider overlaps in the plane to whether their height ranges
/// intersect (`None` when the tile has no height data).
///
/// An overlapped tile whose height range intersects and that the collider does not yet
/// collide with is entered. A tile (an entity of `known_tiles`) the collider collides
/// with is left when it is no longer overlapped, or when its height range no longer
/// intersects; the collider's other collisions are left alone.
pub open spec fn tile_changes(
    colliding: Set<u64>,
    known_tiles: Set<u64>,
    tiles: Map<u64, Option<bool>>,
) -> Map<u64, bool> {
    Map::new(
        |k: u64|
            (tiles.contains_key(k) && tiles[k] == Some(true) && !colliding.contains(k)) || (
            colliding.contains(k) && known_tiles.contains(k) && (!tiles.contains_key(k) || tiles[k]
                == Some(false))),
        |k: u64| !colliding.contains(k),
    )
}

/// The tiles a collider starts colliding with.
pub open spec fn tiles_entered(colliding: Set<u64>, tiles: Map<u64, Option<bool>>) -> Map<u64, bool> {
    Map::new(
        |k: u64| tiles.contains_key(k) && tiles[k] == Some(true) && !colliding.contains(k),
        |k: u64| true,
    )
}

/// The tiles a collider stops colliding with, as seen from the tiles it overlaps.
pub open spec fn tiles_left(
    colliding: Set<u64>,
    known_tiles: Set<u64>,
    tiles: Map<u64, Option<bool>>,
) -> Map<u64, bool> {
    Map::new(
        |k: u64|
            colliding.contains(k) && known_tiles.contains(k) && (!tiles.contains_key(k) || tiles[k]
                == Some(false)),
        |k: u64| false,
    )
}

/// Registers, for the collider of `entity`, the changes of overlap with tiles given the
/// tiles it overlaps and which of the entities it collides with are tiles (see
/// [`tile_changes`]). The entity gets an entry in the tracker even when nothing changes.
pub fn register_tile_overlaps<T, S>(
    tracker: &mut CollisionTracker<T>,
    entity: u64,
    collider: &BasicCollider<S>,
    tiles: &HashMap<u64, Option<bool>>,
    known_tiles: &HashSet<u64>,
)
    ensures
        final(tracker)@ == old(tracker)@.insert(
            entity,
            changes_of(old(tracker)@, entity).union_prefer_right(
                tile_changes(collider.currently_colliding@, known_tiles@, tiles@),
            ),
        ),
{
    let ghost start = tracker@;
    let ghost base = changes_of(start, entity);
    let ghost cc = collider.currently_colliding@;
    let ghost entered = tiles_entered(cc, tiles@);
    let ghost left = tiles_left(cc, known_tiles@, tiles@);
    tracker.track(entity);
    let keys = map_keys(tiles);
    let mut i: usize = 0;
    proof {
        assert(entered.restrict(keys@.take(0).to_set()) =~= Map::empty());
        assert(base.union_prefer_right(Map::empty()) =~= base);
    }
    while i < keys.len()
        invariant
            0 <= i <= keys.len(),
            keys@.to_set() == tiles@.dom(),
            cc == collider.currently_colliding@,
            entered == tiles_entered(cc, tiles@),
            tracker@ == start.insert(
                entity,
                base.union_prefer_right(entered.restrict(keys@.take(i as int).to_set())),
            ),
        decreases keys.len() - i,
    {
        let t = keys[i];
        proof {
            assert(keys@.take(i + 1).to_set() =~= keys@.take(i as int).to_set().insert(t)) by {
                assert(keys@.take(i + 1) =~= keys@.take(i as int).push(t));
                broadcast use vstd::seq_lib::group_seq_properties;
            }
            assert(keys@.to_set().contains(keys@[i as int]));
        }
        let z = *tiles.get(&t).unwrap();
        let ghost before = tracker@;
        if z == Some(true) && !collider.currently_colliding.contains(&t) {
            tracker.register(entity, t, true);
            proof {
                assert(changes_of(before, entity) == base.union_prefer_right(entered.restrict(keys@.take(i as int).to_set())));
                assert(changes_of(before, entity).insert(t, true) =~= base.union_prefer_right(entered.restrict(keys@.take(i as int).to_set()).insert(t, true)));
                assert(entered.restrict(keys@.take(i + 1).to_set()) =~= entered.restrict(
                    keys@.take(i as int).to_set(),
                ).insert(t, true));
                assert(tracker@ =~= start.insert(
                    entity,
                    base.union_prefer_right(entered.restrict(keys@.take(i + 1).to_set())),
                ));
            }
        } else {
            proof {
                assert(entered.restrict(keys@.take(i + 1).to_set()) =~= entered.restrict(
                    keys@.take(i as int).to_set(),
                ));
            }
        }
        i = i + 1;
    }
    proof {
        assert(keys@.take(keys@.len() as int) =~= keys@);
        assert(entered.restrict(keys@.to_set()) =~= entered);
    }
    let held = set_elements(&collider.currently_colliding);
    let mut j: usize = 0;
    proof {
        assert(base.union_prefer_right(entered).union_prefer_right(
            left.restrict(held@.take(0).to_set()),
        ) =~= base.union_prefer_right(entered));
    }
    while j < held.len()
        invariant
            0 <= j <= held.len(),
            held@.to_set() == cc,
            cc == collider.currently_colliding@,
            left == tiles_left(cc, known_tiles@, tiles@),
            tracker@ == start.insert(
                entity,
                base.union_prefer_right(entered).union_prefer_right(
                    left.restrict(held@.take(j as int).to_set()),
                ),
            ),
        decreases held.len() - j,
    {
        let e = held[j];
        proof {
            assert(held@.take(j + 1).to_set() =~= held@.take(j as int).to_set().insert(e)) by {
                assert(held@.take(j + 1) =~= held@.take(j as int).push(e));
                broadcast use vstd::seq_lib::group_seq_properties;
            }
            assert(held@.to_set().contains(held@[j as int]));
        }
        let leaves = known_tiles.contains(&e) && match tiles.get(&e) {
            None => true,
            Some(z) => match z {
                None => false,
                Some(intersecting) => !*intersecting,
            },
        };
        let ghost before = tracker@;
        if leaves {
            tracker.register(entity, e, false);
            proof {
                let prev = left.restrict(held@.take(j as int).to_set());
                assert(changes_of(before, entity) == base.union_prefer_right(entered).union_prefer_right(prev));
                assert(changes_of(before, entity).insert(e, false) =~= base.union_prefer_right(entered).union_prefer_right(prev.insert(e, false)));
                assert(left.restrict(held@.take(j + 1).to_set()) =~= left.restrict(
                    held@.take(j as int).to_set(),
                ).insert(e, false));
                assert(tracker@ =~= start.insert(
                    entity,
                    base.union_prefer_right(entered).union_prefer_right(
                        left.restrict(held@.take(j + 1).to_set()),
                    ),
                ));
            }
        } else {
            proof {
                assert(left.restrict(held@.take(j + 1).to_set()) =~= left.restrict(
                    held@.take(j as int).to_set(),
                ));
            }
        }
        j = j + 1;
    }
    proof {
        assert(held@.take(held@.len() as int) =~= held@);
        assert(left.restrict(held@.to_set()) =~= left);
        assert(base.union_prefer_right(entered).union_prefer_right(left) =~= base.union_prefer_right(
            tile_changes(cc, known_tiles@, tiles@),
        ));
    }
}

/// A collision event to send: `this` started (`enter`) or stopped colliding with `other`.
#[derive(Debug, Clone, Copy, PartialEq, Eq, Structural)]
pub struct CollisionEvent {
    pub this: u64,
    pub other: u64,
    pub enter: bool,
}

/// Whether `ev` reports a change registered in `tracker`.
pub open spec fn is_registered_event(tracker: Map<u64, Map<u64, bool>>, ev: CollisionEvent) -> bool {
    &&& tracker.contains_key(ev.this)
    &&& tracker[ev.this].contains_key(ev.other)
    &&& tracker[ev.this][ev.other] == ev.enter
}

impl CollisionTracker {
    /// One event per registered change: an entering event for each new overlap and a
    /// leaving event for each ended one, each reported once (in no particular order).
    pub fn pending_events(&self) -> (r: Vec<CollisionEvent>)
        ensures
            forall|ev: CollisionEvent| r@.contains(ev) <==> is_registered_event(self@, ev),
            r@.no_duplicates(),
    {
        let entities = map_keys(&self.event_trackers);
        let mut r: Vec<CollisionEvent> = Vec::new();
        let mut i: usize = 0;
        while i < entities.len()
            invariant
                0 <= i <= entities.len(),
                entities@.to_set() == self@.dom(),
                entities@.no_duplicates(),
                r@.no_duplicates(),
                forall|ev: CollisionEvent|
                    r@.contains(ev) <==> (entities@.take(i as int).contains(ev.this)
                        && is_registered_event(self@, ev)),
            decreases entities.len() - i,
        {
            let e = entities[i];
            proof {
                assert(entities@.to_set().contains(entities@[i as int]));
            }
            let tracker = self.event_trackers.get(&e).unwrap();
            let others = tracker.entities();
            let mut j: usize = 0;
            while j < others.len()
                invariant
                    0 <= i < entities.len(),
                    e == entities@[i as int],
                    entities@.no_duplicates(),
                    self@.contains_key(e),
                    tracker@ == self@[e],
                    0 <= j <= others.len(),
                    others@.to_set() == tracker@.dom(),
                    others@.no_duplicates(),
                    r@.no_duplicates(),
                    forall|ev: CollisionEvent|
                        r@.contains(ev) <==> ((entities@.take(i as int).contains(ev.this)
                            && is_registered_event(self@, ev)) || (ev.this == e
                            && others@.take(j as int).contains(ev.other)
                            && is_registered_event(self@, ev))),
                decreases others.len() - j,
            {
                let o = others[j];
                proof {
                    assert(others@.to_set().contains(others@[j as int]));
                }
                let enter = tracker.get(o).unwrap();
                let ev = CollisionEvent { this: e, other: o, enter };
                proof {
                    if r@.contains(ev) {
                        if entities@.take(i as int).contains(e) {
                            let k = choose|k: int| 0 <= k < i && entities@[k] == e;
                            assert(entities@[k] == entities@[i as int]);
                        } else {
                            let k = choose|k: int| 0 <= k < j && others@[k] == o;
                            assert(others@[k] == others@[j as int]);
                        }
                    }
                }
                let ghost r_old = r@;
                r.push(ev);
                proof {
                    broadcast use vstd::seq_lib::group_seq_properties;
                    assert(is_registered_event(self@, ev));
                    assert(others@.take(j + 1) =~= others@.take(j as int).push(o));
                    assert forall|y: u64|
                        #[trigger] others@.take(j + 1).contains(y) == (others@.take(j as int).contains(y)
                            || y == o) by {}
                    assert forall|x: CollisionEvent|
                        #[trigger] r@.contains(x) == (r_old.contains(x) || x == ev) by {}
                    assert forall|x: CollisionEvent|
                        r@.contains(x) <==> ((entities@.take(i as int).contains(x.this)
                            && is_registered_event(self@, x)) || (x.this == e
                            && others@.take(j + 1).contains(x.other)
                            && is_registered_event(self@, x))) by {
                        if x.this == e && x.other == o && is_registered_event(self@, x) {
                            assert(x == ev);
                        }
                    }
                }
                j = j + 1;
            }
            proof {
                broadcast use vstd::seq_lib::group_seq_properties;
                assert(entities@.take(i + 1) =~= entities@.take(i as int).push(e));
                assert forall|y: u64|
                    #[trigger] entities@.take(i + 1).contains(y) == (entities@.take(i as int).contains(y)
                        || y == e) by {}
                assert(others@.take(others@.len() as int) =~= others@);
                assert forall|x: CollisionEvent|
                    r@.contains(x) <==> (entities@.take(i + 1).contains(x.this)
                        && is_registered_event(self@, x)) by {
                    if x.this == e && is_registered_event(self@, x) {
                        assert(others@.to_set().contains(x.other));
                    }
                    if entities@.take(i + 1).contains(x.this) && x.this != e {
                        let k = choose|k: int| 0 <= k < i + 1 && #[trigger] entities@.take(i + 1)[k] == x.this;
                        assert(entities@.take(i as int)[k] == x.this);
                    }
                }
            }
            i = i + 1;
        }
        proof {
            assert(entities@.take(entities@.len() as int) =~= entities@);
            assert forall|ev: CollisionEvent| is_registered_event(self@, ev) implies r@.contains(ev) by {
                assert(entities@.to_set().contains(ev.this));
            }
        }
        r
    }
}

/// Entering a collision and then leaving it again forgets the other entity, whatever
/// the collider held before; entering twice is the same as entering once.
pub proof fn lemma_defer_update_undo(colliding: Set<u64>, other: u64)
    ensures
        colliding.insert(other).remove(other) == colliding.remove(other),
        colliding.insert(other).insert(other) == colliding.insert(other),
{
    assert(colliding.insert(other).remove(other) =~= colliding.remove(other));
    assert(colliding.insert(other).insert(other) =~= colliding.insert(other));
}

/// Every registered change flips the collision state: an entity the collider does not
/// collide with can only be entered, and one it collides with can only be left. Against
/// tiles, only tiles are left; against other colliders, never the collider itself.
pub proof fn lemma_changes_flip_state(
    entity: u64,
    can_interact: CollisionLayers,
    colliding: Set<u64>,
    known_tiles: Set<u64>,
    tiles: Map<u64, Option<bool>>,
    candidates: Seq<OverlapCandidate>,
    k: u64,
)
    ensures
        tile_changes(colliding, known_tiles, tiles).contains_key(k) ==> tile_changes(
            colliding,
            known_tiles,
            tiles,
        )[k] == !colliding.contains(k),
        tile_changes(colliding, known_tiles, tiles).contains_key(k) && colliding.contains(k)
            ==> known_tiles.contains(k),
        collider_changes(entity, can_interact, colliding, candidates).contains_key(k) ==> collider_changes(
            entity,
            can_interact,
            colliding,
            candidates,
        )[k] == !colliding.contains(k),
        collider_changes(entity, can_interact, colliding, candidates).contains_key(k) ==> k != entity,
    decreases candidates.len(),
{
    if candidates.len() > 0 {
        lemma_changes_flip_state(
            entity,
            can_interact,
            colliding,
            known_tiles,
            tiles,
            candidates.drop_last(),
            k,
        );
    }
}

/// The changes registered against other colliders are exactly the changes of state:
/// each registered entity is a candidate the collider interacts with, not the collider
/// itself, whose state (overlapping in the plane and in height) differs from the
/// recorded one, registered with that state; and every such candidate is registered.
pub proof fn lemma_collider_changes_exact(
    entity: u64,
    can_interact: CollisionLayers,
    colliding: Set<u64>,
    candidates: Seq<OverlapCandidate>,
)
    requires
        forall|i: int, j: int|
            0 <= i < j < candidates.len() ==> candidates[i].entity != candidates[j].entity,
    ensures
        forall|k: u64|
            #[trigger] collider_changes(entity, can_interact, colliding, candidates).contains_key(k)
                ==> exists|i: int|
                0 <= i < candidates.len() && candidates[i].entity == k && candidate_changes(
                    entity,
                    can_interact,
                    colliding,
                    candidates[i],
                ) && collider_changes(entity, can_interact, colliding, candidates)[k] == (
                candidates[i].overlapping && candidates[i].z_intersecting),
        forall|i: int|
            0 <= i < candidates.len() && #[trigger] candidate_changes(
                entity,
                can_interact,
                colliding,
                candidates[i],
            ) ==> collider_changes(entity, can_interact, colliding, candidates).contains_key(
                candidates[i].entity,
            ) && collider_changes(entity, can_interact, colliding, candidates)[candidates[i].entity]
                == (candidates[i].overlapping && candidates[i].z_intersecting),
    decreases candidates.len(),
{
    if candidates.len() > 0 {
        let rest = candidates.drop_last();
        let n = candidates.len() - 1;
        let c = candidates.last();
        lemma_collider_changes_exact(entity, can_interact, colliding, rest);
        let m = collider_changes(entity, can_interact, colliding, candidates);
        let mr = collider_changes(entity, can_interact, colliding, rest);
        assert forall|k: u64| #[trigger] m.contains_key(k) implies exists|i: int|
            0 <= i < candidates.len() && candidates[i].entity == k && candidate_changes(
                entity,
                can_interact,
                colliding,
                candidates[i],
            ) && m[k] == (candidates[i].overlapping && candidates[i].z_intersecting) by {
            if candidate_changes(entity, can_interact, colliding, c) && k == c.entity {
                assert(candidates[n] == c);
            } else {
                assert(mr.contains_key(k));
                let i = choose|i: int|
                    0 <= i < rest.len() && rest[i].entity == k && candidate_changes(
                        entity,
                        can_interact,
                        colliding,
                        rest[i],
                    ) && mr[k] == (rest[i].overlapping && rest[i].z_intersecting);
                assert(candidates[i] == rest[i]);
            }
        }
        assert forall|i: int|
            0 <= i < candidates.len() && #[trigger] candidate_changes(
                entity,
                can_interact,
                colliding,
                candidates[i],
            ) implies m.contains_key(candidates[i].entity) && m[candidates[i].entity] == (
            candidates[i].overlapping && candidates[i].z_intersecting) by {
            if i < n {
                assert(candidates[i] == rest[i]);
                assert(candidate_changes(entity, can_interact, colliding, rest[i]));
                assert(candidates[i].entity != c.entity);
            }
        }
    }
}

/// Once the trackers are cleaned up, no event is pending.
pub proof fn lemma_cleanup_silences_events(tracker: Map<u64, Map<u64, bool>>, ev: CollisionEvent)
    requires
        forall|e: u64| #[trigger] tracker.contains_key(e) ==> tracker[e] == Map::<u64, bool>::empty(),
    ensures
        !is_registered_event(tracker, ev),
{
}

} // verus!
