use vstd::prelude::*;

use crate::animation::{anim_type_index, spec_sprite_count, AnimType, AnimationData};

verus! {

/// The stages the game goes through while its assets load.
#[derive(Debug, Clone, Copy, PartialEq, Eq, Structural, Hash)]
pub enum ShortFlightLoadingState {
    FailState,
    Retry,
    First,
    PlayerLoading,
    LoadNPCAssets,
    SpawnWithAssets,
    Done,
}

impl Default for ShortFlightLoadingState {
    fn default() -> (r: Self)
        ensures
            r == ShortFlightLoadingState::First,
    {
        ShortFlightLoadingState::First
    }
}

/// `done` as a mathematical function.
pub open spec fn spec_loading_done(s: ShortFlightLoadingState) -> bool {
    s == ShortFlightLoadingState::Done || s == ShortFlightLoadingState::FailState
}

/// The stage a loading stage continues to once its assets have loaded (`succeeded`)
/// or failed to load; `None` for a stage that loads nothing further.
pub open spec fn spec_after_loading(s: ShortFlightLoadingState, succeeded: bool) -> Option<
    ShortFlightLoadingState,
> {
    match s {
        ShortFlightLoadingState::First => Some(
            if succeeded {
                ShortFlightLoadingState::PlayerLoading
            } else {
                ShortFlightLoadingState::FailState
            },
        ),
        ShortFlightLoadingState::PlayerLoading => Some(
            if succeeded {
                ShortFlightLoadingState::LoadNPCAssets
            } else {
                ShortFlightLoadingState::FailState
            },
        ),
        ShortFlightLoadingState::LoadNPCAssets => Some(
            if succeeded {
                ShortFlightLoadingState::SpawnWithAssets
            } else {
                ShortFlightLoadingState::FailState
            },
        ),
        ShortFlightLoadingState::SpawnWithAssets => Some(
            if succeeded {
                ShortFlightLoadingState::Done
            } else {
                ShortFlightLoadingState::FailState
            },
        ),
        _ => None,
    }
}

/// The stage reached from `s` after `n` stages that all loaded successfully
/// (staying put where loading stops).
pub open spec fn spec_after_successes(s: ShortFlightLoadingState, n: nat) -> ShortFlightLoadingState
    decreases n,
{
    if n == 0 {
        s
    } else {
        match spec_after_loading(s, true) {
            Some(next) => spec_after_successes(next, (n - 1) as nat),
            None => s,
        }
    }
}

impl ShortFlightLoadingState {
    /// Whether loading is over, successfully or not.
    pub fn done(&self) -> (r: bool)
        ensures
            r == spec_loading_done(*self),
    {
        match self {
            ShortFlightLoadingState::Done => true,
            ShortFlightLoadingState::FailState => true,
            _ => false,
        }
    }

    /// The stage that follows this loading stage, depending on whether its assets
    /// loaded; `None` where no further loading is configured.
    pub fn after_loading(&self, succeeded: bool) -> (r: Option<ShortFlightLoadingState>)
        ensures
            r == spec_after_loading(*self, succeeded),
    {
        match self {
            ShortFlightLoadingState::First => Some(
                if succeeded {
                    ShortFlightLoadingState::PlayerLoading
                } else {
                    ShortFlightLoadingState::FailState
                },
            ),
            ShortFlightLoadingState::PlayerLoading => Some(
                if succeeded {
                    ShortFlightLoadingState::LoadNPCAssets
                } else {
                    ShortFlightLoadingState::FailState
                },
            ),
            ShortFlightLoadingState::LoadNPCAssets => Some(
                if succeeded {
                    ShortFlightLoadingState::SpawnWithAssets
                } else {
                    ShortFlightLoadingState::FailState
                },
            ),
            ShortFlightLoadingState::SpawnWithAssets => Some(
                if succeeded {
                    ShortFlightLoadingState::Done
                } else {
                    ShortFlightLoadingState::FailState
                },
            ),
            _ => None,
        }
    }
}

/// Loading ends in a finished stage: a stage from which loading continues is not
/// finished, a failure always leads to the failure stage, which counts as finished,
/// and the stages that count as finished load nothing further.
pub proof fn lemma_loading_terminates(s: ShortFlightLoadingState, succeeded: bool)
    ensures
        spec_after_loading(s, succeeded) is Some ==> !spec_loading_done(s),
        spec_after_loading(s, succeeded) is Some && !succeeded ==> spec_after_loading(
            s,
            succeeded,
        ) == Some(ShortFlightLoadingState::FailState),
        spec_loading_done(s) ==> spec_after_loading(s, succeeded) is None,
{
}

/// When every stage loads successfully, the game goes from its first stage to the
/// finished stage in exactly four steps, passing no finished stage before.
pub proof fn lemma_successful_loading_reaches_done()
    ensures
        spec_after_successes(ShortFlightLoadingState::First, 4) == ShortFlightLoadingState::Done,
        forall|n: nat|
            n < 4 ==> !spec_loading_done(
                #[trigger] spec_after_successes(ShortFlightLoadingState::First, n),
            ),
{
    reveal_with_fuel(spec_after_successes, 5);
    assert forall|n: nat|
        n < 4 implies !spec_loading_done(
        #[trigger] spec_after_successes(ShortFlightLoadingState::First, n),
    ) by {
        reveal_with_fuel(spec_after_successes, 5);
        if n == 0 {
        } else if n == 1 {
        } else if n == 2 {
        } else {
        }
    }
}

/// The slot of a variant in a table indexed by animation variant.
pub fn anim_type_slot(a: AnimType) -> (r: usize)
    ensures
        r == anim_type_index(a),
        r < 9,
{
    match a {
        AnimType::Idle => 0,
        AnimType::Walking => 1,
        AnimType::AttackSwipe => 2,
        AnimType::AttackTackle => 3,
        AnimType::AttackShoot => 4,
        AnimType::Hurt => 5,
        AnimType::Down => 6,
        AnimType::Fainting => 7,
        AnimType::Fainted => 8,
    }
}

/// The variant in a given slot.
pub fn anim_type_at(i: usize) -> (r: AnimType)
    requires
        i < 9,
    ensures
        anim_type_index(r) == i,
{
    if i == 0 {
        AnimType::Idle
    } else if i == 1 {
        AnimType::Walking
    } else if i == 2 {
        AnimType::AttackSwipe
    } else if i == 3 {
        AnimType::AttackTackle
    } else if i == 4 {
        AnimType::AttackShoot
    } else if i == 5 {
        AnimType::Hurt
    } else if i == 6 {
        AnimType::Down
    } else if i == 7 {
        AnimType::Fainting
    } else {
        AnimType::Fainted
    }
}

/// The variant in a given slot of a table indexed by animation variant.
pub open spec fn anim_type_of_index(i: int) -> AnimType {
    if i == 0 {
        AnimType::Idle
    } else if i == 1 {
        AnimType::Walking
    } else if i == 2 {
        AnimType::AttackSwipe
    } else if i == 3 {
        AnimType::AttackTackle
    } else if i == 4 {
        AnimType::AttackShoot
    } else if i == 5 {
        AnimType::Hurt
    } else if i == 6 {
        AnimType::Down
    } else if i == 7 {
        AnimType::Fainting
    } else {
        AnimType::Fainted
    }
}

/// Slots and variants correspond one to one.
pub proof fn lemma_slot_roundtrip(i: int, a: AnimType)
    ensures
        0 <= i < 9 ==> anim_type_index(anim_type_of_index(i)) == i,
        anim_type_of_index(anim_type_index(a)) == a,
        0 <= anim_type_index(a) < 9,
{
}

/// The sprite rows used by the animations stored for the first `n` variants
/// (in declaration order).
pub open spec fn spec_rows_upto(m: Map<AnimType, AnimationData>, n: nat) -> nat
    decreases n,
{
    if n == 0 {
        0
    } else {
        let a = anim_type_of_index(n - 1);
        spec_rows_upto(m, (n - 1) as nat) + if m.contains_key(a) {
            spec_sprite_count(m[a].direction_label)
        } else {
            0
        }
    }
}

/// The greatest length among the animations stored for the first `n` variants, or 0.
pub open spec fn spec_frames_upto(m: Map<AnimType, AnimationData>, n: nat) -> nat
    decreases n,
{
    if n == 0 {
        0
    } else {
        let a = anim_type_of_index(n - 1);
        let rest = spec_frames_upto(m, (n - 1) as nat);
        let here: nat = if m.contains_key(a) {
            m[a].frames as nat
        } else {
            0
        };
        if rest >= here {
            rest
        } else {
            here
        }
    }
}

/// The total number of sprite rows used by the stored animations.
pub open spec fn spec_total_variants(m: Map<AnimType, AnimationData>) -> nat {
    spec_rows_upto(m, 9)
}

/// The greatest animation length among the stored animations, or 0 when there is none.
pub open spec fn spec_max_frames(m: Map<AnimType, AnimationData>) -> nat {
    spec_frames_upto(m, 9)
}

/// No stored animation is longer than the greatest length, and the greatest length
/// is that of a stored animation, unless nothing is stored.
pub proof fn lemma_max_frames_bounds(m: Map<AnimType, AnimationData>)
    ensures
        forall|a: AnimType| #[trigger] m.contains_key(a) ==> m[a].frames <= spec_max_frames(m),
        spec_max_frames(m) == 0 || exists|a: AnimType|
            #[trigger] m.contains_key(a) && m[a].frames == spec_max_frames(m),
{
    lemma_frames_upto_bounds(m, 9);
    assert forall|a: AnimType| #[trigger] m.contains_key(a) implies m[a].frames <= spec_max_frames(
        m,
    ) by {
        lemma_slot_roundtrip(0, a);
    }
}

proof fn lemma_frames_upto_bounds(m: Map<AnimType, AnimationData>, n: nat)
    requires
        n <= 9,
    ensures
        forall|i: int|
            0 <= i < n && #[trigger] m.contains_key(anim_type_of_index(i)) ==> m[anim_type_of_index(
                i,
            )].frames <= spec_frames_upto(m, n),
        spec_frames_upto(m, n) == 0 || exists|a: AnimType|
            #[trigger] m.contains_key(a) && m[a].frames == spec_frames_upto(m, n),
    decreases n,
{
    if n > 0 {
        lemma_frames_upto_bounds(m, (n - 1) as nat);
    }
}

/// Every stored animation uses between one and four sprite rows, so all of them
/// together use at most 36.
pub proof fn lemma_rows_upto_bound(m: Map<AnimType, AnimationData>, n: nat)
    ensures
        spec_rows_upto(m, n) <= 4 * n,
    decreases n,
{
    if n > 0 {
        lemma_rows_upto_bound(m, (n - 1) as nat);
    }
}


/// The sprite rows used by the stored animations of the variants in `chosen`, among
/// the first `n` variants.
pub open spec fn spec_rows_in(m: Map<AnimType, AnimationData>, chosen: Set<AnimType>, n: nat) -> nat
    decreases n,
{
    if n == 0 {
        0
    } else {
        let a = anim_type_of_index(n - 1);
        spec_rows_in(m, chosen, (n - 1) as nat) + if m.contains_key(a) && chosen.contains(a) {
            spec_sprite_count(m[a].direction_label)
        } else {
            0
        }
    }
}

/// Some of the stored animations use no more rows than all of them.
pub proof fn lemma_rows_in_bound(m: Map<AnimType, AnimationData>, chosen: Set<AnimType>, n: nat)
    ensures
        spec_rows_in(m, chosen, n) <= spec_rows_upto(m, n),
    decreases n,
{
    if n > 0 {
        lemma_rows_in_bound(m, chosen, (n - 1) as nat);
    }
}

/// Choosing one more stored animation adds its rows.
pub proof fn lemma_rows_in_insert(
    m: Map<AnimType, AnimationData>,
    chosen: Set<AnimType>,
    a: AnimType,
    n: nat,
)
    requires
        !chosen.contains(a),
        m.contains_key(a),
        n <= 9,
    ensures
        spec_rows_in(m, chosen.insert(a), n) == spec_rows_in(m, chosen, n) + if anim_type_index(a)
            < n {
            spec_sprite_count(m[a].direction_label)
        } else {
            0
        },
    decreases n,
{
    if n > 0 {
        lemma_rows_in_insert(m, chosen, a, (n - 1) as nat);
        lemma_slot_roundtrip((n - 1) as int, a);
        let b = anim_type_of_index(n - 1);
        if b == a {
            assert(anim_type_index(a) == n - 1);
        } else {
            assert(anim_type_index(a) != n - 1) by {
                if anim_type_index(a) == n - 1 {
                    lemma_slot_roundtrip(anim_type_index(a), a);
                }
            }
        }
    }
}

/// The last value given for `key` in a list of key-value pairs, as collecting the list
/// into a map keeps it.
pub open spec fn spec_last_value(pairs: Seq<(AnimType, AnimationData)>, key: AnimType) -> Option<
    AnimationData,
>
    decreases pairs.len(),
{
    if pairs.len() == 0 {
        None
    } else if pairs.last().0 == key {
        Some(pairs.last().1)
    } else {
        spec_last_value(pairs.drop_last(), key)
    }
}

/// The animation data of a spritesheet, keyed by animation variant.
#[derive(Debug, Clone, Copy)]
pub struct AnimationAssets {
    slots: [Option<AnimationData>; 9],
}

impl View for AnimationAssets {
    type V = Map<AnimType, AnimationData>;

    closed spec fn view(&self) -> Map<AnimType, AnimationData> {
        Map::new(
            |k: AnimType| self.slots@[anim_type_index(k)] is Some,
            |k: AnimType| self.slots@[anim_type_index(k)]->0,
        )
    }
}

/// Distinct variants occupy distinct slots.
proof fn lemma_slot_injective(a: AnimType, b: AnimType)
    ensures
        anim_type_index(a) == anim_type_index(b) ==> a == b,
{
}

impl AnimationAssets {
    /// The value stored for `key`, if any.
    pub open spec fn spec_get(self, key: AnimType) -> Option<AnimationData> {
        if self@.contains_key(key) {
            Some(self@[key])
        } else {
            None
        }
    }

    /// An empty collection.
    pub fn new() -> (r: Self)
        ensures
            r@ == Map::<AnimType, AnimationData>::empty(),
    {
        let r = AnimationAssets { slots: [None, None, None, None, None, None, None, None, None] };
        assert(r@ =~= Map::<AnimType, AnimationData>::empty());
        r
    }

    /// The animation data stored for `key`, if any.
    pub fn get(&self, key: AnimType) -> (r: Option<AnimationData>)
        ensures
            r == self.spec_get(key),
    {
        self.slots[anim_type_slot(key)]
    }

    /// Whether animation data is stored for `key`.
    pub fn contains_key(&self, key: AnimType) -> (r: bool)
        ensures
            r == self@.contains_key(key),
    {
        self.get(key).is_some()
    }

    /// Stores `value` for `key`, replacing what was stored for it.
    pub fn insert(&mut self, key: AnimType, value: AnimationData)
        ensures
            final(self)@ == old(self)@.insert(key, value),
    {
        let slot = anim_type_slot(key);
        let ghost before = self@;
        self.slots[slot] = Some(value);
        proof {
            assert forall|k: AnimType| anim_type_index(k) == anim_type_index(key) implies k
                == key by {
                lemma_slot_injective(k, key);
            }
            assert(self@ =~= before.insert(key, value));
        }
    }

    /// The total number of sprite rows used by the stored animations.
    pub fn total_rows(&self) -> (r: u32)
        ensures
            r == spec_total_variants(self@),
            r <= 36,
    {
        let mut total: u32 = 0;
        let mut i: usize = 0;
        while i < 9
            invariant
                i <= 9,
                total == spec_rows_upto(self@, i as nat),
                total <= 4 * i,
            decreases 9 - i,
        {
            proof {
                lemma_slot_roundtrip(i as int, AnimType::Idle);
            }
            match self.slots[i] {
                Some(data) => {
                    total = total + data.direction_label.directional_sprite_count();
                },
                None => {},
            }
            i = i + 1;
        }
        total
    }

    /// The greatest length among the stored animations, or 0 when there is none.
    pub fn max_frames(&self) -> (r: u32)
        ensures
            r == spec_max_frames(self@),
    {
        let mut best: u32 = 0;
        let mut i: usize = 0;
        while i < 9
            invariant
                i <= 9,
                best == spec_frames_upto(self@, i as nat),
            decreases 9 - i,
        {
            proof {
                lemma_slot_roundtrip(i as int, AnimType::Idle);
            }
            match self.slots[i] {
                Some(data) => {
                    if data.frames > best {
                        best = data.frames;
                    }
                },
                None => {},
            }
            i = i + 1;
        }
        best
    }

    /// Collects key-value pairs into a map: a later pair for the same key replaces
    /// an earlier one.
    pub fn from_pairs(pairs: &Vec<(AnimType, AnimationData)>) -> (r: Self)
        ensures
            forall|k: AnimType| #[trigger] r.spec_get(k) == spec_last_value(pairs@, k),
    {
        let mut r = AnimationAssets::new();
        let mut i: usize = 0;
        while i < pairs.len()
            invariant
                i <= pairs.len(),
                forall|k: AnimType| #[trigger] r.spec_get(k) == spec_last_value(pairs@.take(i as int), k),
            decreases pairs.len() - i,
        {
            let (key, value) = pairs[i];
            let ghost before = r;
            r.insert(key, value);
            proof {
                let prefix = pairs@.take(i + 1);
                assert(prefix.drop_last() =~= pairs@.take(i as int));
                assert(prefix.last() == (key, value));
                assert forall|k: AnimType| #[trigger] r.spec_get(k) == spec_last_value(
                    pairs@.take(i + 1),
                    k,
                ) by {
                    assert(before.spec_get(k) == spec_last_value(pairs@.take(i as int), k));
                    if k == key {
                        assert(r@.contains_key(k) && r@[k] == value);
                    } else {
                        assert(r@.contains_key(k) == before@.contains_key(k));
                    }
                }
            }
            i = i + 1;
        }
        assert(pairs@.take(pairs.len() as int) =~= pairs@);
        r
    }
}

/// A width and a height in pixels.
#[derive(Debug, Clone, Copy, PartialEq, Eq, Structural)]
pub struct PixelSize {
    pub x: u32,
    pub y: u32,
}

/// The grid a spritesheet texture is cut into: one column per frame and one row per
/// directional variant of each animation.
#[derive(Debug, Clone, Copy, PartialEq, Eq, Structural)]
pub struct AtlasGrid {
    pub tile_size: PixelSize,
    pub columns: u32,
    pub rows: u32,
}

/// An ordered layout of the animations contained in a spritesheet texture.
#[derive(Debug, Clone)]
pub struct AnimationSpritesheet {
    /// The animations in the order of their rows in the texture.
    pub animations: Vec<AnimType>,
    pub sprite_size: PixelSize,
    pub data: AnimationAssets,
    /// The number of columns of the texture grid, set by [`AnimationSpritesheet::get_atlas_layout`].
    pub max_frames: u32,
    /// The number of rows of the texture grid, set by [`AnimationSpritesheet::get_atlas_layout`].
    pub total_variants: u32,
}

impl Default for AnimationSpritesheet {
    fn default() -> (r: Self)
        ensures
            r.animations@ == Seq::<AnimType>::empty(),
            r.sprite_size == (PixelSize { x: 0, y: 0 }),
            r.data@ == Map::<AnimType, AnimationData>::empty(),
            r.max_frames == 0,
            r.total_variants == 0,
    {
        AnimationSpritesheet {
            animations: Vec::new(),
            sprite_size: PixelSize { x: 0, y: 0 },
            data: AnimationAssets::new(),
            max_frames: 0,
            total_variants: 0,
        }
    }
}

impl AnimationSpritesheet {
    /// Lays out the given animations in order; the texture grid is computed at once.
    pub fn new(data: Vec<(AnimType, AnimationData)>, sprite_size: PixelSize) -> (r: Self)
        ensures
            r.animations@ == data@.map_values(|p: (AnimType, AnimationData)| p.0),
            forall|k: AnimType| #[trigger] r.data.spec_get(k) == spec_last_value(data@, k),
            r.sprite_size == sprite_size,
            r.max_frames == spec_max_frames(r.data@),
            r.total_variants == spec_total_variants(r.data@),
    {
        let mut animations: Vec<AnimType> = Vec::new();
        let mut i: usize = 0;
        while i < data.len()
            invariant
                i <= data.len(),
                animations@ == data@.take(i as int).map_values(
                    |p: (AnimType, AnimationData)| p.0,
                ),
            decreases data.len() - i,
        {
            animations.push(data[i].0);
            proof {
                assert(data@.take(i + 1) =~= data@.take(i as int).push(data@[i as int]));
            }
            i = i + 1;
        }
        assert(data@.take(data.len() as int) =~= data@);
        let assets = AnimationAssets::from_pairs(&data);
        let mut spritesheet = AnimationSpritesheet {
            animations,
            sprite_size,
            data: assets,
            max_frames: 0,
            total_variants: 0,
        };
        spritesheet.get_atlas_layout();
        spritesheet
    }

    /// The data of a stored animation.
    pub fn index(&self, index: AnimType) -> (r: AnimationData)
        requires
            self.data@.contains_key(index),
        ensures
            r == self.data@[index],
    {
        self.data.get(index).unwrap()
    }

    /// Computes the texture grid: as many columns as the longest animation has frames
    /// and as many rows as the directional variants of all animations together.
    /// The two numbers are kept in `max_frames` and `total_variants`.
    pub fn get_atlas_layout(&mut self) -> (r: AtlasGrid)
        ensures
            final(self).max_frames == spec_max_frames(old(self).data@),
            final(self).total_variants == spec_total_variants(old(self).data@),
            final(self).animations == old(self).animations,
            final(self).sprite_size == old(self).sprite_size,
            final(self).data == old(self).data,
            r == (AtlasGrid {
                tile_size: old(self).sprite_size,
                columns: final(self).max_frames,
                rows: final(self).total_variants,
            }),
    {
        self.max_frames = self.data.max_frames();
        self.total_variants = self.data.total_rows();
        AtlasGrid { tile_size: self.sprite_size, columns: self.max_frames, rows: self.total_variants }
    }
}

} // verus!
