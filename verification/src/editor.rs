use vstd::prelude::*;

use crate::tile::TileFlags;

verus! {

/// What the tile editor is doing with the tiles under the pointer.
#[derive(Debug, Clone, Copy, PartialEq, Eq, Structural)]
pub enum TilePickedMode {
    Idle,
    /// A tile is selected for modification.
    Move { tile: u64 },
    /// A tile is being dragged.
    Drag { tile: u64 },
    /// The data of `selected` is painted over the tile `painting` points at.
    Paint { selected: u64, painting: Option<u64> },
}

impl Default for TilePickedMode {
    fn default() -> (r: Self)
        ensures
            r == TilePickedMode::Idle,
    {
        TilePickedMode::Idle
    }
}

/// `set` as a mathematical function: an idle editor takes any mode; a moving or
/// dragging editor only goes back to idle; a painting editor stays as it is.
pub open spec fn spec_set_mode(current: TilePickedMode, mode: TilePickedMode) -> TilePickedMode {
    match current {
        TilePickedMode::Idle => mode,
        TilePickedMode::Move { .. } | TilePickedMode::Drag { .. } => if mode is Idle {
            TilePickedMode::Idle
        } else {
            current
        },
        TilePickedMode::Paint { .. } => current,
    }
}

/// How a keystroke changes the slope of the selected tile.
#[derive(Debug, Clone, Copy, PartialEq, Eq, Structural)]
pub enum SlopeChange {
    DecreaseX,
    IncreaseX,
    IncreaseZ,
    DecreaseZ,
}

/// The editor keys held or just pressed this frame.
#[derive(Debug, Clone, Copy)]
pub struct EditorKeys {
    /// Just pressed: stop painting.
    pub stop_painting: bool,
    /// Held: paint over the pointed tile.
    pub paint: bool,
    /// Held: keystrokes modify the selected tile.
    pub modify: bool,
    /// Just pressed: lower the slope along x.
    pub slope_decrease_x: bool,
    /// Just pressed: raise the slope along x.
    pub slope_increase_x: bool,
    /// Just pressed: raise the slope along z.
    pub slope_increase_z: bool,
    /// Just pressed: lower the slope along z.
    pub slope_decrease_z: bool,
    /// Just pressed: start painting with the selected tile.
    pub start_painting: bool,
    /// Just pressed: toggle the flag of each bit position.
    pub flag_keys: [bool; 8],
}

/// What the editor does to the tiles after a frame of keystrokes.
#[derive(Debug, Clone, Copy, PartialEq, Eq, Structural)]
pub enum EditorAction {
    Nothing,
    StopPainting,
    /// Copy the depth, slope and flags of `from` onto `to`.
    PaintOver { from: u64, to: u64 },
    AdjustSlope { tile: u64, change: SlopeChange },
    StartPainting { tile: u64 },
    /// Switch `flags` on `tile`; `presses` flag keys were pressed.
    ToggleFlags { tile: u64, flags: TileFlags, presses: u32 },
}

/// The flags switched by the pressed flag keys: every key switches the flag of its bit
/// position (the last key names no flag).
pub open spec fn spec_toggled_flags(keys: Seq<bool>, n: nat) -> u32
    decreases n,
{
    if n == 0 {
        0
    } else {
        let rest = spec_toggled_flags(keys, (n - 1) as nat);
        if keys[n - 1] && n - 1 < 7 {
            rest ^ (1u32 << ((n - 1) as u32))
        } else {
            rest
        }
    }
}

/// The number of pressed flag keys among the first `n`.
pub open spec fn spec_presses(keys: Seq<bool>, n: nat) -> nat
    decreases n,
{
    if n == 0 {
        0
    } else {
        spec_presses(keys, (n - 1) as nat) + if keys[n - 1] {
            1nat
        } else {
            0nat
        }
    }
}

/// The editor's next mode and action after a frame of keystrokes.
pub open spec fn spec_keystrokes(mode: TilePickedMode, keys: EditorKeys) -> (
    TilePickedMode,
    EditorAction,
) {
    match mode {
        TilePickedMode::Paint { selected, painting } => if keys.stop_painting {
            (TilePickedMode::Idle, EditorAction::StopPainting)
        } else if painting is Some && keys.paint {
            (
                TilePickedMode::Paint { selected, painting: None },
                EditorAction::PaintOver { from: selected, to: painting->0 },
            )
        } else {
            (mode, EditorAction::Nothing)
        },
        TilePickedMode::Move { tile } => if !keys.modify {
            (mode, EditorAction::Nothing)
        } else if keys.slope_decrease_x {
            (mode, EditorAction::AdjustSlope { tile, change: SlopeChange::DecreaseX })
        } else if keys.slope_increase_x {
            (mode, EditorAction::AdjustSlope { tile, change: SlopeChange::IncreaseX })
        } else if keys.slope_increase_z {
            (mode, EditorAction::AdjustSlope { tile, change: SlopeChange::IncreaseZ })
        } else if keys.slope_decrease_z {
            (mode, EditorAction::AdjustSlope { tile, change: SlopeChange::DecreaseZ })
        } else if keys.start_painting {
            (
                TilePickedMode::Paint { selected: tile, painting: None },
                EditorAction::StartPainting { tile },
            )
        } else if spec_presses(keys.flag_keys@, 8) > 0 {
            (
                mode,
                EditorAction::ToggleFlags {
                    tile,
                    flags: TileFlags { bits: spec_toggled_flags(keys.flag_keys@, 8) },
                    presses: spec_presses(keys.flag_keys@, 8) as u32,
                },
            )
        } else {
            (mode, EditorAction::Nothing)
        },
        _ => (mode, EditorAction::Nothing),
    }
}

impl TilePickedMode {
    /// Requests a mode change; see [`spec_set_mode`].
    pub fn set(&mut self, mode: TilePickedMode)
        ensures
            *final(self) == spec_set_mode(*old(self), mode),
    {
        match self {
            TilePickedMode::Idle => *self = mode,
            TilePickedMode::Move { tile: _ } => {
                if let TilePickedMode::Idle = mode {
                    *self = TilePickedMode::Idle
                }
            },
            TilePickedMode::Drag { tile: _ } => {
                if let TilePickedMode::Idle = mode {
                    *self = TilePickedMode::Idle
                }
            },
            TilePickedMode::Paint { selected: _, painting: _ } => {},
        }
    }

    /// A press on `tile` selects it for modification when the editor is idle, the tile
    /// has tile data and the modifier key is held. Returns whether it did.
    pub fn select_tile_for_modifying(&mut self, tile: u64, has_tile_data: bool, modify: bool) -> (r:
        bool)
        ensures
            r == (*old(self) is Idle && has_tile_data && modify),
            r ==> *final(self) == (TilePickedMode::Move { tile }),
            !r ==> *final(self) == *old(self),
    {
        if let TilePickedMode::Idle = self {
            if has_tile_data && modify {
                *self = TilePickedMode::Move { tile };
                return true;
            }
        }
        false
    }

    /// While painting, the pointer moving over a tile other than the selected one makes
    /// it the tile to paint over.
    pub fn select_tile_for_painting(&mut self, target: u64)
        ensures
            *final(self) == (match *old(self) {
                TilePickedMode::Paint { selected, painting } => if target == selected {
                    *old(self)
                } else {
                    TilePickedMode::Paint { selected, painting: Some(target) }
                },
                _ => *old(self),
            }),
    {
        if let TilePickedMode::Paint { selected, painting: _ } = *self {
            if target != selected {
                *self = TilePickedMode::Paint { selected, painting: Some(target) };
            }
        }
    }

    /// Applies a frame of editor keystrokes; see [`spec_keystrokes`].
    pub fn adjust_tiles_via_keystrokes(&mut self, keys: &EditorKeys) -> (r: EditorAction)
        ensures
            (*final(self), r) == spec_keystrokes(*old(self), *keys),
    {
        match *self {
            TilePickedMode::Paint { selected, painting } => {
                if keys.stop_painting {
                    *self = TilePickedMode::Idle;
                    return EditorAction::StopPainting;
                } else if painting.is_some() && keys.paint {
                    *self = TilePickedMode::Paint { selected, painting: None };
                    return EditorAction::PaintOver { from: selected, to: painting.unwrap() };
                }
                return EditorAction::Nothing;
            },
            TilePickedMode::Move { tile } => {
                if !keys.modify {
                    return EditorAction::Nothing;
                }
                if keys.slope_decrease_x {
                    return EditorAction::AdjustSlope { tile, change: SlopeChange::DecreaseX };
                } else if keys.slope_increase_x {
                    return EditorAction::AdjustSlope { tile, change: SlopeChange::IncreaseX };
                } else if keys.slope_increase_z {
                    return EditorAction::AdjustSlope { tile, change: SlopeChange::IncreaseZ };
                } else if keys.slope_decrease_z {
                    return EditorAction::AdjustSlope { tile, change: SlopeChange::DecreaseZ };
                } else if keys.start_painting {
                    *self = TilePickedMode::Paint { selected: tile, painting: None };
                    return EditorAction::StartPainting { tile };
                }
                let mut flags = TileFlags::empty();
                let mut presses: u32 = 0;
                let mut i: u32 = 0;
                while i < 8
                    invariant
                        i <= 8,
                        flags.bits == spec_toggled_flags(keys.flag_keys@, i as nat),
                        presses == spec_presses(keys.flag_keys@, i as nat),
                        presses <= i,
                    decreases 8 - i,
                {
                    if keys.flag_keys[i as usize] {
                        let ghost before = flags.bits;
                        flags.toggle(TileFlags::nth_flag(i));
                        proof {
                            if i >= 7 {
                                assert(before ^ 0u32 == before) by (bit_vector);
                            }
                        }
                        presses = presses + 1;
                    }
                    i = i + 1;
                }
                if presses > 0 {
                    EditorAction::ToggleFlags { tile, flags, presses }
                } else {
                    EditorAction::Nothing
                }
            },
            _ => EditorAction::Nothing,
        }
    }
}

/// Dropping a dragged or moved tile always returns the editor to idle, and a request
/// from an idle editor is always granted; only painting ignores requests.
pub proof fn lemma_release_returns_to_idle(current: TilePickedMode, mode: TilePickedMode)
    ensures
        !(current is Paint) ==> spec_set_mode(current, TilePickedMode::Idle) == TilePickedMode::Idle,
        current is Idle ==> spec_set_mode(current, mode) == mode,
        current is Paint ==> spec_set_mode(current, mode) == current,
{
}

/// The editor stops painting only through the stop key, and it paints over a tile at
/// most once per pointing.
pub proof fn lemma_painting_ends_only_on_stop(mode: TilePickedMode, keys: EditorKeys)
    requires
        mode is Paint,
    ensures
        spec_keystrokes(mode, keys).0 is Paint <==> !keys.stop_painting,
        spec_keystrokes(mode, keys).1 is PaintOver ==> spec_keystrokes(mode, keys).0 == (
        TilePickedMode::Paint { selected: mode->selected, painting: None }),
{
}


/// The slope keys change the selected tile's slope in the direction their names say.
/// With a tile selected for modification and the modifier held, the lower-x key lowers
/// the slope along x, the raise-x key raises it, then the raise-z and lower-z keys (in
/// that order of precedence), and the tile stays selected; without the modifier the
/// keys do nothing.
pub proof fn lemma_slope_keys_follow_their_names(tile: u64, keys: EditorKeys)
    ensures
        !keys.modify ==> spec_keystrokes(TilePickedMode::Move { tile }, keys) == (
            TilePickedMode::Move { tile },
            EditorAction::Nothing,
        ),
        keys.modify && keys.slope_decrease_x ==> spec_keystrokes(
            TilePickedMode::Move { tile },
            keys,
        ) == (
            TilePickedMode::Move { tile },
            EditorAction::AdjustSlope { tile, change: SlopeChange::DecreaseX },
        ),
        keys.modify && !keys.slope_decrease_x && keys.slope_increase_x ==> spec_keystrokes(
            TilePickedMode::Move { tile },
            keys,
        ) == (
            TilePickedMode::Move { tile },
            EditorAction::AdjustSlope { tile, change: SlopeChange::IncreaseX },
        ),
        keys.modify && !keys.slope_decrease_x && !keys.slope_increase_x && keys.slope_increase_z
            ==> spec_keystrokes(TilePickedMode::Move { tile }, keys) == (
            TilePickedMode::Move { tile },
            EditorAction::AdjustSlope { tile, change: SlopeChange::IncreaseZ },
        ),
        keys.modify && !keys.slope_decrease_x && !keys.slope_increase_x && !keys.slope_increase_z
            && keys.slope_decrease_z ==> spec_keystrokes(TilePickedMode::Move { tile }, keys) == (
            TilePickedMode::Move { tile },
            EditorAction::AdjustSlope { tile, change: SlopeChange::DecreaseZ },
        ),
{
}

/// A slope change only ever comes from a tile selected for modification with the
/// modifier held, changes that tile, and follows a key pressed for that very change.
pub proof fn lemma_slope_change_needs_its_key(mode: TilePickedMode, keys: EditorKeys)
    ensures
        spec_keystrokes(mode, keys).1 matches EditorAction::AdjustSlope { tile, change } ==> {
            &&& mode == TilePickedMode::Move { tile }
            &&& keys.modify
            &&& spec_keystrokes(mode, keys).0 == mode
            &&& change == SlopeChange::DecreaseX ==> keys.slope_decrease_x
            &&& change == SlopeChange::IncreaseX ==> keys.slope_increase_x
            &&& change == SlopeChange::IncreaseZ ==> keys.slope_increase_z
            &&& change == SlopeChange::DecreaseZ ==> keys.slope_decrease_z
        },
{
}
} // verus!
