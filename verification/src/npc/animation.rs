use vstd::prelude::*;

use crate::animation::{
    spec_index_offset, spec_sprite_count, AnimType, AnimationData, DirectionClass, Flip,
};
use crate::assets::{
    lemma_rows_in_bound, lemma_rows_in_insert, lemma_slot_roundtrip, spec_rows_in,
    spec_total_variants, AnimationAssets, AnimationSpritesheet,
};

verus! {

/// Why the sprite of an animation could not be found.
#[derive(Debug, Clone, Copy, PartialEq, Eq, Structural)]
pub enum AnimationError {
    AnimationDataAssetMissing,
    SpritesheetAssetMissing,
    SpritesheetMissing,
    /// The spritesheet lists no animation.
    NoAnimationsListed,
    /// The animation is not listed in the spritesheet.
    AnimationNotIncluded(AnimType),
    /// The listed animation has no corresponding animation data.
    ListedAnimationMissingData(AnimType),
}

/// The animation state of an NPC: which animation plays, whether it loops, and the
/// spritesheet it is drawn from.
#[derive(Debug, Clone)]
pub struct AnimationHandler {
    /// The animation currently playing; switch it with [`AnimationHandler::start_animation`].
    pub current: AnimType,
    pub animations: AnimationAssets,
    pub spritesheet: AnimationSpritesheet,
    pub looping: bool,
}

/// Whether the row scan over `list` for `current` stops at index `i`: the listed
/// animation is the current one, or it equals the last listed animation.
pub open spec fn scan_stops_at(list: Seq<AnimType>, current: AnimType, i: int) -> bool {
    0 <= i < list.len() && (list[i] == current || list[i] == list.last())
}

/// The index at which the row scan stops (the first index where it may stop; every
/// non-empty list has one, its last index at the latest).
pub open spec fn scan_stop(list: Seq<AnimType>, current: AnimType) -> int {
    choose|k: int|
        #![trigger list[k]]
        scan_stops_at(list, current, k) && forall|j: int|
            0 <= j < k ==> !scan_stops_at(list, current, j)
}

/// The sprite rows taken by the first `k` listed animations, their data looked up in `data`.
pub open spec fn rows_before(list: Seq<AnimType>, data: Map<AnimType, AnimationData>, k: int) -> nat
    decreases k,
{
    if k <= 0 {
        0
    } else {
        rows_before(list, data, k - 1) + spec_sprite_count(data[list[k - 1]].direction_label)
    }
}

proof fn lemma_scan_stop_exists(list: Seq<AnimType>, current: AnimType)
    requires
        list.len() > 0,
    ensures
        scan_stops_at(list, current, scan_stop(list, current)),
        forall|j: int| 0 <= j < scan_stop(list, current) ==> !scan_stops_at(list, current, j),
{
    let witness = first_stop_from(list, current, 0);
    assert(scan_stops_at(list, current, witness));
}

proof fn first_stop_from(list: Seq<AnimType>, current: AnimType, i: int) -> (k: int)
    requires
        list.len() > 0,
        0 <= i < list.len(),
        forall|j: int| 0 <= j < i ==> !scan_stops_at(list, current, j),
    ensures
        i <= k < list.len(),
        scan_stops_at(list, current, k),
        forall|j: int| 0 <= j < k ==> !scan_stops_at(list, current, j),
    decreases list.len() - i,
{
    if scan_stops_at(list, current, i) {
        i
    } else {
        first_stop_from(list, current, i + 1)
    }
}

proof fn lemma_scan_stop_unique(list: Seq<AnimType>, current: AnimType, i: int)
    requires
        scan_stops_at(list, current, i),
        forall|j: int| 0 <= j < i ==> !scan_stops_at(list, current, j),
    ensures
        scan_stop(list, current) == i,
{
    lemma_scan_stop_exists(list, current);
    let k = scan_stop(list, current);
    if k < i {
        assert(!scan_stops_at(list, current, k));
    } else if k > i {
        assert(!scan_stops_at(list, current, i));
    }
}

proof fn lemma_rows_before_bound(list: Seq<AnimType>, data: Map<AnimType, AnimationData>, k: int)
    ensures
        rows_before(list, data, k) <= 4 * (if k < 0 {
            0
        } else {
            k
        }),
    decreases k,
{
    if k > 0 {
        lemma_rows_before_bound(list, data, k - 1);
    }
}


/// The rows of the first `k` listed animations, when these are distinct and stored,
/// are the rows of the set of them.
proof fn lemma_rows_before_as_set(list: Seq<AnimType>, m: Map<AnimType, AnimationData>, k: int)
    requires
        0 <= k <= list.len(),
        list.no_duplicates(),
        forall|j: int| 0 <= j < list.len() ==> m.contains_key(#[trigger] list[j]),
    ensures
        rows_before(list, m, k) == spec_rows_in(m, list.take(k).to_set(), 9),
    decreases k,
{
    if k == 0 {
        assert(list.take(0).to_set() =~= Set::<AnimType>::empty());
        lemma_rows_in_empty(m, 9);
    } else {
        lemma_rows_before_as_set(list, m, k - 1);
        let a = list[k - 1];
        assert(list.take(k) =~= list.take(k - 1).push(a));
        assert(list.take(k).to_set() =~= list.take(k - 1).to_set().insert(a)) by {
            broadcast use vstd::seq_lib::group_seq_properties;
        }
        assert(!list.take(k - 1).to_set().contains(a)) by {
            broadcast use vstd::seq_lib::group_seq_properties;
            if list.take(k - 1).contains(a) {
                let j = choose|j: int| 0 <= j < k - 1 && #[trigger] list.take(k - 1)[j] == a;
                assert(list[j] == list[k - 1]);
            }
        }
        lemma_rows_in_insert(m, list.take(k - 1).to_set(), a, 9);
        lemma_slot_roundtrip(0, a);
    }
}

proof fn lemma_rows_in_empty(m: Map<AnimType, AnimationData>, n: nat)
    ensures
        spec_rows_in(m, Set::empty(), n) == 0,
    decreases n,
{
    if n > 0 {
        lemma_rows_in_empty(m, (n - 1) as nat);
    }
}

/// The texture row of the current animation lies within the spritesheet's grid, when
/// the listed animations are distinct, all have data, the handler's data is the
/// spritesheet's, and the grid was computed from that data.
pub proof fn lemma_atlas_row_in_grid(h: AnimationHandler, direction: DirectionClass)
    requires
        direction.wf(),
        h.animations@ == h.spritesheet.data@,
        h.spritesheet.animations@.no_duplicates(),
        forall|j: int|
            0 <= j < h.spritesheet.animations@.len() ==> h.animations@.contains_key(
                #[trigger] h.spritesheet.animations@[j],
            ),
        h.spritesheet.total_variants == spec_total_variants(h.spritesheet.data@),
    ensures
        h.spec_atlas_index(direction) matches Ok((row, _)) ==> row < h.spritesheet.total_variants,
{
    let list = h.spritesheet.animations@;
    let m = h.animations@;
    if list.len() > 0 {
        lemma_scan_stop_exists(list, h.current);
        let k = scan_stop(list, h.current);
        if list[k] == h.current && m.contains_key(h.current) {
            lemma_rows_before_as_set(list, m, k + 1);
            lemma_rows_in_bound(m, list.take(k + 1).to_set(), 9);
            assert(rows_before(list, m, k + 1) == rows_before(list, m, k) + spec_sprite_count(
                m[h.current].direction_label,
            ));
        }
    }
}

impl AnimationHandler {
    /// The animation currently playing.
    pub open spec fn spec_current(&self) -> AnimType {
        self.current
    }

    /// Every listed animation the row scan passes over (up to and including the
    /// stop, unless it is the current animation) has data in `animations`; looking up
    /// a missing one is a fault.
    pub open spec fn rows_known(&self) -> bool {
        let list = self.spritesheet.animations@;
        list.len() > 0 ==> forall|j: int|
            #![trigger list[j]]
            0 <= j <= scan_stop(list, self.spec_current()) && list[j] != self.spec_current()
                ==> self.animations@.contains_key(list[j])
    }

    /// `get_atlas_index` as a mathematical function: the texture row of the current
    /// animation for an entity facing `direction`, and whether the sprite is mirrored.
    pub open spec fn spec_atlas_index(&self, direction: DirectionClass) -> Result<
        (nat, Flip),
        AnimationError,
    > {
        let list = self.spritesheet.animations@;
        let current = self.spec_current();
        if list.len() == 0 {
            Err(AnimationError::NoAnimationsListed)
        } else {
            let k = scan_stop(list, current);
            if list[k] != current {
                Err(AnimationError::AnimationNotIncluded(current))
            } else if !self.spritesheet.data@.contains_key(current) {
                Err(AnimationError::ListedAnimationMissingData(current))
            } else {
                let (offset, flip) = spec_index_offset(
                    self.spritesheet.data@[current].direction_label,
                    direction,
                );
                Ok((rows_before(list, self.animations@, k) + offset, flip))
            }
        }
    }

    /// Starts with the idle animation, not looping, with a copy of the spritesheet's
    /// animation data.
    pub fn new(spritesheet: AnimationSpritesheet) -> (r: AnimationHandler)
        requires
            spritesheet.data@.contains_key(AnimType::Idle),
        ensures
            r.spec_current() == AnimType::Idle,
            r.animations == spritesheet.data,
            r.spritesheet == spritesheet,
            !r.looping,
    {
        AnimationHandler {
            current: AnimType::Idle,
            animations: spritesheet.data,
            spritesheet,
            looping: false,
        }
    }

    /// The animation currently playing.
    pub fn current(&self) -> (r: AnimType)
        ensures
            r == self.spec_current(),
    {
        self.current
    }

    /// The spritesheet's data for the current animation.
    pub fn animation_data(&self) -> (r: Option<AnimationData>)
        ensures
            r == self.spritesheet.data.spec_get(self.spec_current()),
    {
        self.spritesheet.data.get(self.current)
    }

    /// The spritesheet's data for the current animation.
    pub fn get_animation_data(&self) -> (r: Option<AnimationData>)
        ensures
            r == self.spritesheet.data.spec_get(self.spec_current()),
    {
        self.spritesheet.data.get(self.current)
    }

    /// Switches to `animation`, not looping. The caller restarts its clock.
    /// Meant for when the current animation does not block.
    pub fn start_animation(&mut self, animation: AnimType)
        ensures
            final(self).spec_current() == animation,
            !final(self).looping,
            final(self).animations == old(self).animations,
            final(self).spritesheet == old(self).spritesheet,
    {
        self.looping = false;
        self.current = animation;
    }

    /// The data used to time the current animation, from the handler's own copy.
    pub fn timing_data(&self) -> (r: Option<AnimationData>)
        ensures
            r == self.animations.spec_get(self.spec_current()),
    {
        self.animations.get(self.current)
    }

    /// Called when the current animation has played through (or has no timing data):
    /// unless it loops, the idle animation starts. Returns whether an animation was
    /// started, so that the caller restarts its clock.
    pub fn end_cycle(&mut self) -> (r: bool)
        ensures
            r == !old(self).looping,
            r ==> final(self).spec_current() == AnimType::Idle && !final(self).looping,
            !r ==> *final(self) == *old(self),
    {
        if !self.looping {
            self.start_animation(AnimType::Idle);
            true
        } else {
            false
        }
    }

    /// Checks whether the row scan of [`AnimationHandler::get_atlas_index`] only meets
    /// animations with data.
    pub fn check_rows_known(&self) -> (r: bool)
        ensures
            r == self.rows_known(),
    {
        let list = &self.spritesheet.animations;
        let n = list.len();
        if n == 0 {
            return true;
        }
        let last = list[n - 1];
        let mut i: usize = 0;
        while i < n
            invariant
                n == list@.len(),
                n > 0,
                last == list@.last(),
                0 <= i <= n,
                list == &self.spritesheet.animations,
                forall|j: int| 0 <= j < i ==> !scan_stops_at(list@, self.current, j),
                forall|j: int|
                    #![trigger list@[j]]
                    0 <= j < i ==> self.animations@.contains_key(list@[j]),
            decreases n - i,
        {
            let id = list[i];
            if id == self.current {
                proof {
                    lemma_scan_stop_unique(list@, self.current, i as int);
                }
                return true;
            }
            if !self.animations.contains_key(id) {
                proof {
                    first_stop_from(list@, self.current, i as int);
                    lemma_scan_stop_exists(list@, self.current);
                }
                return false;
            }
            if id == last {
                proof {
                    lemma_scan_stop_unique(list@, self.current, i as int);
                }
                return true;
            }
            i = i + 1;
        }
        proof {
            assert(scan_stops_at(list@, self.current, n - 1));
        }
        true
    }

    /// The texture row of the current animation for an entity facing `direction`, and
    /// whether its sprite is mirrored: the rows of the animations listed before it,
    /// plus the offset of the direction within its own rows.
    pub fn get_atlas_index(&self, direction: &DirectionClass) -> (r: Result<(usize, Flip), AnimationError>)
        requires
            direction.wf(),
            self.rows_known(),
            4 * self.spritesheet.animations@.len() + 4 <= usize::MAX,
        ensures
            match r {
                Ok((index, flip)) => self.spec_atlas_index(*direction) == Ok::<
                    (nat, Flip),
                    AnimationError,
                >((index as nat, flip)),
                Err(e) => self.spec_atlas_index(*direction) == Err::<(nat, Flip), AnimationError>(
                    e,
                ),
            },
    {
        let list = &self.spritesheet.animations;
        let n = list.len();
        let mut index: usize = 0;
        let mut i: usize = 0;
        while i < n
            invariant
                n == list@.len(),
                4 * n + 4 <= usize::MAX,
                list == &self.spritesheet.animations,
                self.rows_known(),
                0 <= i <= n,
                forall|j: int| 0 <= j < i ==> !scan_stops_at(list@, self.current, j),
                index == rows_before(list@, self.animations@, i as int),
                index <= 4 * i,
            ensures
                n > 0 ==> i < n && scan_stops_at(list@, self.current, i as int),
                index == rows_before(list@, self.animations@, i as int),
                index <= 4 * i,
                n > 0 ==> list@[i as int] == self.current,
            decreases n - i,
        {
            let id = list[i];
            if self.current == id {
                break;
            }
            proof {
                lemma_scan_stop_exists(list@, self.current);
                if i as int > scan_stop(list@, self.current) {
                    assert(!scan_stops_at(list@, self.current, scan_stop(list@, self.current)));
                }
            }
            let data = self.animations.get(id).unwrap();
            index = index + data.direction_label.directional_sprite_count() as usize;
            if id == list[n - 1] {
                proof {
                    lemma_scan_stop_unique(list@, self.current, i as int);
                }
                return Err(AnimationError::AnimationNotIncluded(self.current));
            }
            i = i + 1;
        }
        if n == 0 {
            return Err(AnimationError::NoAnimationsListed);
        }
        proof {
            lemma_scan_stop_unique(list@, self.current, i as int);
        }
        let data = match self.animation_data() {
            Some(data) => data,
            None => {
                return Err(AnimationError::ListedAnimationMissingData(self.current));
            },
        };
        let (offset, flip) = data.direction_label.get_index_offset(direction);
        Ok((index + offset, flip))
    }

    /// The texture index of the sprite to show: the current frame (`frame`, counted
    /// from 0) in the row given by [`AnimationHandler::get_atlas_index`], rows being
    /// `max_frames` wide.
    pub fn get_current_atlas(&self, frame: usize, direction: &DirectionClass) -> (r: Result<
        usize,
        AnimationError,
    >)
        requires
            direction.wf(),
            self.rows_known(),
            4 * self.spritesheet.animations@.len() + 4 <= usize::MAX,
            self.spec_atlas_index(*direction) matches Ok((row, _)) ==> frame + row
                * self.spritesheet.max_frames <= usize::MAX,
        ensures
            match r {
                Ok(index) => self.spec_atlas_index(*direction) matches Ok((row, _)) && index
                    == frame + row * self.spritesheet.max_frames,
                Err(e) => self.spec_atlas_index(*direction) == Err::<(nat, Flip), AnimationError>(
                    e,
                ),
            },
    {
        let (row, _flip) = match self.get_atlas_index(direction) {
            Ok(found) => found,
            Err(e) => {
                return Err(e);
            },
        };
        let width = self.spritesheet.max_frames as usize;
        proof {
            assert(row * width <= frame + row * width);
        }
        Ok(frame + row * width)
    }
}

} // verus!
