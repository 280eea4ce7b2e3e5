use vstd::prelude::*;

verus! {

/// Lightweight identifier for the variants of animations.
/// The data common to an animation is stored separately in [`AnimationData`].
#[derive(Debug, Clone, Copy, PartialEq, Eq, Structural, Hash)]
pub enum AnimType {
    /// The default animation.
    Idle,
    Walking,
    AttackSwipe,
    AttackTackle,
    AttackShoot,
    Hurt,
    Down,
    /// The NPC has lost all HP and is playing its faint animation.
    Fainting,
    /// Plays if the NPC does not despawn on faint.
    Fainted,
}

/// Position of a variant in declaration order.
pub open spec fn anim_type_index(a: AnimType) -> int {
    match a {
        AnimType::Idle => 0,
        AnimType::Walking => 1,
        AnimType::AttackSwipe => 2,
        AnimType::AttackTackle => 3,
        AnimType::AttackShoot => 4,
        AnimType::Hurt => 5,
        AnimType::Down => 6,
        AnimType::Fainting => 7,
        AnimType::Fainted => 8,
    }
}

/// The number of animation variants.
pub open spec fn anim_type_count() -> nat {
    9
}

/// Every animation variant, in declaration order.
pub open spec fn all_anim_types() -> Set<AnimType> {
    set![
        AnimType::Idle,
        AnimType::Walking,
        AnimType::AttackSwipe,
        AnimType::AttackTackle,
        AnimType::AttackShoot,
        AnimType::Hurt,
        AnimType::Down,
        AnimType::Fainting,
        AnimType::Fainted,
    ]
}

/// `can_interrupt` as a mathematical function.
pub open spec fn spec_can_interrupt(current: AnimType, other: Option<AnimType>) -> bool {
    match current {
        AnimType::Idle | AnimType::Walking => true,
        AnimType::AttackSwipe | AnimType::AttackTackle | AnimType::AttackShoot => other == Some(
            AnimType::Hurt,
        ),
        _ => false,
    }
}

/// `blocks` as a mathematical function.
pub open spec fn spec_blocks(a: AnimType) -> bool {
    !(a == AnimType::Idle || a == AnimType::Walking)
}

/// `reset_timer` as a mathematical function.
pub open spec fn spec_reset_timer(a: AnimType) -> bool {
    a != AnimType::Idle
}

impl Default for AnimType {
    fn default() -> (r: Self)
        ensures
            r == AnimType::Idle,
    {
        AnimType::Idle
    }
}

impl AnimType {
    /// Whether the animation `self` may be cut short by `other`
    /// (`None` stands for the default animation, [`AnimType::Idle`]).
    pub fn can_interrupt(self, other: Option<Self>) -> (r: bool)
        ensures
            r == spec_can_interrupt(self, other),
    {
        let other_is_hurt = match other {
            Some(AnimType::Hurt) => true,
            _ => false,
        };
        match self {
            AnimType::Idle => true,
            AnimType::Walking => true,
            AnimType::AttackSwipe => other_is_hurt,
            AnimType::AttackTackle => other_is_hurt,
            AnimType::AttackShoot => other_is_hurt,
            _ => false,
        }
    }

    /// If `true`, then the NPC cannot perform different actions until this animation is over.
    pub fn blocks(self) -> (r: bool)
        ensures
            r == spec_blocks(self),
    {
        match self {
            AnimType::Idle => false,
            AnimType::Walking => false,
            _ => true,
        }
    }

    /// Whether the animation is switched back to idle once it has played through.
    pub fn reset_timer(self) -> (r: bool)
        ensures
            r == spec_reset_timer(self),
    {
        match self {
            AnimType::Idle => false,
            _ => true,
        }
    }

    /// Animation data for this variant with the given length and directional layout,
    /// without a blocking override.
    pub open spec fn create_data_spec(self, frames: u32, directions: AnimationDirLabel) -> AnimationData {
        AnimationData { variant: self, frames, direction_label: directions, blocking_override: None }
    }

    /// Animation data for this variant with the given length and directional layout,
    /// without a blocking override.
    pub fn create_data(self, frames: u32, directions: AnimationDirLabel) -> (r: AnimationData)
        ensures
            r == self.create_data_spec(frames, directions),
    {
        AnimationData { variant: self, frames, direction_label: directions, blocking_override: None }
    }
}

/// The common data of one animation.
#[derive(Debug, Clone, Copy, PartialEq, Eq, Structural)]
pub struct AnimationData {
    pub variant: AnimType,
    /// The length of the animation.
    pub frames: u32,
    pub direction_label: AnimationDirLabel,
    /// The animation's `can_move` value: when set, whether the animation lets the entity
    /// move, in place of what its kind decides.
    pub blocking_override: Option<bool>,
}

impl Default for AnimationData {
    fn default() -> (r: Self)
        ensures
            r == (AnimationData {
                variant: AnimType::Idle,
                frames: 0,
                direction_label: AnimationDirLabel::Undirected,
                blocking_override: None,
            }),
    {
        AnimationData {
            variant: AnimType::Idle,
            frames: 0,
            direction_label: AnimationDirLabel::Undirected,
            blocking_override: None,
        }
    }
}

impl AnimationData {
    /// `is_blocking` as a mathematical function: the `can_move` override when set, else
    /// whether the animation's kind does not block (idle and walking).
    pub open spec fn spec_is_blocking(self) -> bool {
        match self.blocking_override {
            Some(b) => b,
            None => !spec_blocks(self.variant),
        }
    }

    /// Returns `true` if this animation allows the entity to move (and act).
    pub fn is_blocking(&self) -> (r: bool)
        ensures
            r == self.spec_is_blocking(),
    {
        if let Some(ovr) = self.blocking_override {
            return ovr;
        }
        !self.variant.blocks()
    }
}

/// Every animation that blocks other actions also hands back to idle when it has played
/// through, and an animation that can be interrupted by anything does not block.
pub proof fn lemma_blocking_animations_end(a: AnimType)
    ensures
        spec_blocks(a) ==> spec_reset_timer(a),
        (forall|other: Option<AnimType>| #[trigger] spec_can_interrupt(a, other)) ==> !spec_blocks(a),
{
    if forall|other: Option<AnimType>| #[trigger] spec_can_interrupt(a, other) {
        assert(spec_can_interrupt(a, None));
    }
}

/// Label for what direction(s) an animation is facing.
///
/// Horizontal variants face east and vertical (or non-directional) variants face south
/// when not flipped.
#[derive(Debug, Clone, Copy, PartialEq, Eq, Structural)]
pub enum AnimationDirLabel {
    /// This animation always appears like this regardless of orientation.
    Undirected,
    /// Has a secondary, vertical variant.
    Vertical,
    /// Has a secondary, horizontal variant.
    Horizontal,
    /// Has both a horizontal and vertical variant, which can be flipped to get opposite directions.
    FlipVariants,
    /// Has a "front" and "back" variant, as well as a "side" variant that is flipped for side views.
    FrontBackAndHorizontal,
    /// No need to flip, all four directions are contained.
    FullyDirectional,
}

impl Default for AnimationDirLabel {
    fn default() -> (r: Self)
        ensures
            r == AnimationDirLabel::Undirected,
    {
        AnimationDirLabel::Undirected
    }
}

/// The number of sprite rows an animation with the given label occupies.
pub open spec fn spec_sprite_count(label: AnimationDirLabel) -> nat {
    match label {
        AnimationDirLabel::Undirected => 1,
        AnimationDirLabel::Vertical => 2,
        AnimationDirLabel::Horizontal => 2,
        AnimationDirLabel::FlipVariants => 2,
        AnimationDirLabel::FrontBackAndHorizontal => 3,
        AnimationDirLabel::FullyDirectional => 4,
    }
}

/// One of the four compass directions of the top-down plane.
#[derive(Debug, Clone, Copy, PartialEq, Eq, Structural)]
pub enum Cardinal {
    North,
    East,
    South,
    West,
}

/// The sign of a coordinate.
#[derive(Debug, Clone, Copy, PartialEq, Eq, Structural)]
pub enum Sign {
    Negative,
    Zero,
    Positive,
}

/// What the animation logic reads of a facing direction (a unit vector in the plane,
/// north being positive `y`): the sign of each coordinate and whether the `x`
/// coordinate is at least as large as the `y` coordinate in magnitude.
#[derive(Debug, Clone, Copy, PartialEq, Eq, Structural)]
pub struct DirectionClass {
    pub x: Sign,
    pub y: Sign,
    pub x_dominant: bool,
}

impl DirectionClass {
    /// The class can stem from a unit vector: it is not the zero vector, and a zero
    /// coordinate is never the dominant one.
    pub open spec fn wf(self) -> bool {
        &&& self.x == Sign::Zero ==> !self.x_dominant
        &&& self.y == Sign::Zero ==> self.x_dominant
    }

    /// The class of the unit vector pointing east.
    pub fn east() -> (r: Self)
        ensures
            r.wf(),
            r == (DirectionClass { x: Sign::Positive, y: Sign::Zero, x_dominant: true }),
    {
        DirectionClass { x: Sign::Positive, y: Sign::Zero, x_dominant: true }
    }

    /// The class of the unit vector pointing south, the default facing.
    pub fn south() -> (r: Self)
        ensures
            r.wf(),
            r == (DirectionClass { x: Sign::Zero, y: Sign::Negative, x_dominant: false }),
    {
        DirectionClass { x: Sign::Zero, y: Sign::Negative, x_dominant: false }
    }
}

/// The cardinal direction closest to a direction: the horizontal one when `x`
/// dominates, the vertical one otherwise.
pub open spec fn spec_cardinal(dir: DirectionClass) -> Cardinal {
    if dir.x_dominant {
        if dir.x == Sign::Positive {
            Cardinal::East
        } else {
            Cardinal::West
        }
    } else {
        if dir.y == Sign::Positive {
            Cardinal::North
        } else {
            Cardinal::South
        }
    }
}

/// Snaps a direction to the closest cardinal direction.
pub fn cardinal(input: DirectionClass) -> (r: Cardinal)
    requires
        input.wf(),
    ensures
        r == spec_cardinal(input),
        input.x_dominant ==> (r == Cardinal::East <==> input.x == Sign::Positive) && (r
            == Cardinal::West <==> input.x == Sign::Negative),
        !input.x_dominant ==> (r == Cardinal::North <==> input.y == Sign::Positive) && (r
            == Cardinal::South <==> input.y == Sign::Negative),
{
    if input.x_dominant {
        match input.x {
            Sign::Positive => Cardinal::East,
            _ => Cardinal::West,
        }
    } else {
        match input.y {
            Sign::Positive => Cardinal::North,
            _ => Cardinal::South,
        }
    }
}

/// Whether a sprite is mirrored along each axis.
#[derive(Debug, Clone, Copy, PartialEq, Eq, Structural)]
pub struct Flip {
    pub x: bool,
    pub y: bool,
}

/// No mirroring.
pub open spec fn no_flip() -> Flip {
    Flip { x: false, y: false }
}

/// Mirrored across the vertical axis.
pub open spec fn flip_x() -> Flip {
    Flip { x: true, y: false }
}

/// Mirrored across the horizontal axis.
pub open spec fn flip_y() -> Flip {
    Flip { x: false, y: true }
}

/// The sprite row offset and the mirroring used to show an animation with the given
/// directional layout facing `dir`.
pub open spec fn spec_index_offset(label: AnimationDirLabel, dir: DirectionClass) -> (nat, Flip) {
    let west = dir.x == Sign::Negative;
    let north = dir.y == Sign::Positive;
    match label {
        AnimationDirLabel::Undirected => (0, no_flip()),
        AnimationDirLabel::Horizontal => (0, if west { flip_x() } else { no_flip() }),
        AnimationDirLabel::Vertical => (0, if north { flip_y() } else { no_flip() }),
        AnimationDirLabel::FlipVariants => match spec_cardinal(dir) {
            Cardinal::North => (0, flip_y()),
            Cardinal::South => (0, no_flip()),
            Cardinal::East => (1, no_flip()),
            Cardinal::West => (1, flip_x()),
        },
        AnimationDirLabel::FrontBackAndHorizontal => match spec_cardinal(dir) {
            Cardinal::North => (0, no_flip()),
            Cardinal::South => (1, no_flip()),
            Cardinal::East => (2, no_flip()),
            Cardinal::West => (2, flip_x()),
        },
        AnimationDirLabel::FullyDirectional => match spec_cardinal(dir) {
            Cardinal::East => (0, no_flip()),
            Cardinal::North => (1, no_flip()),
            Cardinal::West => (2, no_flip()),
            Cardinal::South => (3, no_flip()),
        },
    }
}

impl AnimationDirLabel {
    /// The number of sprite rows an animation with this label occupies.
    pub fn directional_sprite_count(self) -> (r: u32)
        ensures
            r == spec_sprite_count(self),
            1 <= r <= 4,
    {
        match self {
            AnimationDirLabel::Undirected => 1,
            AnimationDirLabel::Vertical => 2,
            AnimationDirLabel::Horizontal => 2,
            AnimationDirLabel::FlipVariants => 2,
            AnimationDirLabel::FrontBackAndHorizontal => 3,
            AnimationDirLabel::FullyDirectional => 4,
        }
    }

    /// Returns the sprite row offset within this animation's rows, and whether the
    /// sprite is mirrored, for an entity facing `dir`.
    pub fn get_index_offset(self, dir: &DirectionClass) -> (r: (usize, Flip))
        requires
            dir.wf(),
        ensures
            (r.0 as nat, r.1) == spec_index_offset(self, *dir),
            r.0 < spec_sprite_count(self),
    {
        let cardinal_dir = cardinal(*dir);
        let west = match dir.x {
            Sign::Negative => true,
            _ => false,
        };
        let north = match dir.y {
            Sign::Positive => true,
            _ => false,
        };
        let none = Flip { x: false, y: false };
        let fx = Flip { x: true, y: false };
        let fy = Flip { x: false, y: true };
        match self {
            AnimationDirLabel::Undirected => (0, none),
            AnimationDirLabel::Horizontal => (0, if west { fx } else { none }),
            AnimationDirLabel::Vertical => (0, if north { fy } else { none }),
            AnimationDirLabel::FlipVariants => match cardinal_dir {
                Cardinal::North => (0, fy),
                Cardinal::South => (0, none),
                Cardinal::East => (1, none),
                Cardinal::West => (1, fx),
            },
            AnimationDirLabel::FrontBackAndHorizontal => match cardinal_dir {
                Cardinal::North => (0, none),
                Cardinal::South => (1, none),
                Cardinal::East => (2, none),
                Cardinal::West => (2, fx),
            },
            AnimationDirLabel::FullyDirectional => match cardinal_dir {
                Cardinal::East => (0, none),
                Cardinal::North => (1, none),
                Cardinal::West => (2, none),
                Cardinal::South => (3, none),
            },
        }
    }
}


/// The animations that block are exactly those other than idle and walking: every
/// attack, being hurt, being down and fainting. An animation without a `can_move`
/// override lets the entity move exactly when it is idle or walking.
pub proof fn lemma_what_blocks(a: AnimType, data: AnimationData)
    ensures
        spec_blocks(a) <==> (a != AnimType::Idle && a != AnimType::Walking),
        spec_blocks(AnimType::AttackSwipe),
        spec_blocks(AnimType::AttackTackle),
        spec_blocks(AnimType::AttackShoot),
        data.blocking_override is None ==> (data.spec_is_blocking() <==> (data.variant
            == AnimType::Idle || data.variant == AnimType::Walking)),
        data.blocking_override matches Some(can_move) ==> data.spec_is_blocking() == can_move,
{
}

/// How each directional layout picks a sprite row and mirrors it. A side sprite faces
/// east and is mirrored along x exactly when the direction points west at all; a
/// vertical sprite faces south and is mirrored along y exactly when the direction
/// points north at all. The layouts with several rows pick by the closest compass
/// direction: flip variants use row 0 (south, mirrored for north) or row 1 (east,
/// mirrored for west); front, back and side use rows 0 (north), 1 (south) and 2 (east,
/// mirrored for west); fully directional layouts use rows 0 to 3 for east, north, west
/// and south and never mirror.
pub proof fn lemma_direction_offsets(dir: DirectionClass)
    requires
        dir.wf(),
    ensures
        spec_index_offset(AnimationDirLabel::Undirected, dir) == (0nat, Flip { x: false, y: false }),
        spec_index_offset(AnimationDirLabel::Horizontal, dir) == (
            0nat,
            Flip { x: dir.x == Sign::Negative, y: false },
        ),
        spec_index_offset(AnimationDirLabel::Vertical, dir) == (
            0nat,
            Flip { x: false, y: dir.y == Sign::Positive },
        ),
        spec_index_offset(AnimationDirLabel::FlipVariants, dir) == if dir.x_dominant {
            (1nat, Flip { x: dir.x == Sign::Negative, y: false })
        } else {
            (0nat, Flip { x: false, y: dir.y == Sign::Positive })
        },
        spec_index_offset(AnimationDirLabel::FrontBackAndHorizontal, dir) == if dir.x_dominant {
            (2nat, Flip { x: dir.x == Sign::Negative, y: false })
        } else if dir.y == Sign::Positive {
            (0nat, Flip { x: false, y: false })
        } else {
            (1nat, Flip { x: false, y: false })
        },
        spec_index_offset(AnimationDirLabel::FullyDirectional, dir) == (
            if dir.x_dominant && dir.x == Sign::Positive {
                0nat
            } else if !dir.x_dominant && dir.y == Sign::Positive {
                1nat
            } else if dir.x_dominant {
                2nat
            } else {
                3nat
            },
            Flip { x: false, y: false },
        ),
{
}
} // verus!
