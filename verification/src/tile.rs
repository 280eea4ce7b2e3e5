use vstd::prelude::*;

verus! {

/// How high up a tile is.
#[derive(Debug, Clone, Copy, PartialEq, Eq, Structural, Default)]
pub struct TileDepth(pub i64);

impl TileDepth {
    /// The depth as an integer.
    pub fn i64(&self) -> (r: i64)
        ensures
            r == self.0,
    {
        self.0
    }

    /// The depth given as an integer.
    pub fn from_i64(value: i64) -> (r: Self)
        ensures
            r.0 == value,
    {
        TileDepth(value)
    }
}

/// The bits of all tile flags.
pub open spec fn all_tile_flag_bits() -> u32 {
    0b1111111
}

/// Bit flags for how a tile is displayed and shaped:
///
/// * `FlipX` = 0b1: flip the texture across the x-axis.
/// * `FlipY` = 0b1 << 1: flip the texture across the y-axis.
/// * `RotateClockwise` = 0b1 << 2: rotate the texture by 90 degrees clockwise, after flips.
/// * `RotateCounterClockwise` = 0b1 << 3: rotate the texture by 90 degrees counterclockwise.
/// * `FlipTriangles` = 0b1 << 4: use the alternative layout of the top face's triangles.
/// * `Exclusive` = 0b1 << 5: use the exclusive way of computing slope corners.
/// * `Fold` = 0b1 << 6: rotate one triangle's texture, for corner slopes.
#[derive(Debug, Clone, Copy, PartialEq, Eq, Structural)]
pub struct TileFlags {
    pub bits: u32,
}

impl Default for TileFlags {
    fn default() -> (r: Self)
        ensures
            r.bits == 0,
    {
        TileFlags { bits: 0 }
    }
}

impl TileFlags {
    /// No flag.
    pub fn empty() -> (r: Self)
        ensures
            r.bits == 0,
    {
        TileFlags { bits: 0 }
    }

    /// `FlipX`.
    pub fn flip_x() -> (r: Self)
        ensures
            r.bits == 1,
    {
        TileFlags { bits: 1 }
    }

    /// `FlipY`.
    pub fn flip_y() -> (r: Self)
        ensures
            r.bits == 2,
    {
        TileFlags { bits: 2 }
    }

    /// `RotateClockwise`.
    pub fn rotate_clockwise() -> (r: Self)
        ensures
            r.bits == 4,
    {
        TileFlags { bits: 4 }
    }

    /// `RotateCounterClockwise`.
    pub fn rotate_counter_clockwise() -> (r: Self)
        ensures
            r.bits == 8,
    {
        TileFlags { bits: 8 }
    }

    /// `FlipTriangles`.
    pub fn flip_triangles() -> (r: Self)
        ensures
            r.bits == 16,
    {
        TileFlags { bits: 16 }
    }

    /// `Exclusive`.
    pub fn exclusive() -> (r: Self)
        ensures
            r.bits == 32,
    {
        TileFlags { bits: 32 }
    }

    /// `Fold`.
    pub fn fold() -> (r: Self)
        ensures
            r.bits == 64,
    {
        TileFlags { bits: 64 }
    }

    /// The flags given by `bits`, or `None` if a bit names no flag.
    pub fn from_bits(bits: u32) -> (r: Option<Self>)
        ensures
            r == (if bits & !all_tile_flag_bits() == 0 {
                Some(TileFlags { bits })
            } else {
                None
            }),
    {
        if bits & !0b1111111u32 == 0 {
            Some(TileFlags { bits })
        } else {
            None
        }
    }

    /// The raw bits.
    pub fn bits(&self) -> (r: u32)
        ensures
            r == self.bits,
    {
        self.bits
    }

    /// Whether no flag is set.
    pub fn is_empty(&self) -> (r: bool)
        ensures
            r == (self.bits == 0),
    {
        self.bits == 0
    }

    /// Whether the two share a flag.
    pub fn intersects(&self, other: &Self) -> (r: bool)
        ensures
            r == (self.bits & other.bits != 0),
    {
        self.bits & other.bits != 0
    }

    /// Whether every flag of `other` is set in `self`.
    pub fn contains(&self, other: &Self) -> (r: bool)
        ensures
            r == (self.bits & other.bits == other.bits),
    {
        self.bits & other.bits == other.bits
    }

    /// The flags set in either.
    pub fn union(self, other: Self) -> (r: Self)
        ensures
            r.bits == self.bits | other.bits,
    {
        TileFlags { bits: self.bits | other.bits }
    }

    /// Switches the flags of `other`: set ones are cleared and cleared ones set.
    pub fn toggle(&mut self, other: Self)
        ensures
            final(self).bits == old(self).bits ^ other.bits,
    {
        self.bits = self.bits ^ other.bits;
    }

    /// The single flag for bit `i` (counting from 0), or no flag when the bit names none.
    pub fn nth_flag(i: u32) -> (r: Self)
        requires
            i < 32,
        ensures
            r.bits == (if i < 7 {
                1u32 << i
            } else {
                0
            }),
    {
        if i < 7 {
            TileFlags { bits: 1u32 << i }
        } else {
            TileFlags::empty()
        }
    }

    /// The positions (from 0 to 6) of the set flags, in increasing order.
    pub fn set_positions(&self) -> (r: Vec<u32>)
        ensures
            forall|k: int| 0 <= k < r@.len() ==> r@[k] < 7,
            forall|k: int, l: int| 0 <= k < l < r@.len() ==> r@[k] < r@[l],
            forall|i: u32| i < 7 ==> (r@.contains(i) <==> self.bits & (1u32 << i) != 0),
    {
        let mut r: Vec<u32> = Vec::new();
        let mut i: u32 = 0;
        while i < 7
            invariant
                i <= 7,
                forall|k: int| 0 <= k < r@.len() ==> r@[k] < i,
                forall|k: int, l: int| 0 <= k < l < r@.len() ==> r@[k] < r@[l],
                forall|j: u32| j < i ==> (r@.contains(j) <==> self.bits & (1u32 << j) != 0),
                forall|j: u32| r@.contains(j) ==> j < i,
            decreases 7 - i,
        {
            let ghost before = r@;
            if self.bits & (1u32 << i) != 0 {
                r.push(i);
                proof {
                    assert forall|j: u32| r@.contains(j) implies j < i + 1 by {
                        if j != i {
                            let k = choose|k: int| 0 <= k < r@.len() && r@[k] == j;
                            assert(before[k] == j);
                        }
                    }
                    assert forall|j: u32| j < i + 1 implies (r@.contains(j) <==> self.bits & (1u32
                        << j) != 0) by {
                        if j < i {
                            if r@.contains(j) {
                                let k = choose|k: int| 0 <= k < r@.len() && r@[k] == j;
                                assert(k < before.len());
                                assert(before.contains(j));
                            }
                            if before.contains(j) {
                                let k = choose|k: int| 0 <= k < before.len() && before[k] == j;
                                assert(r@[k] == j);
                            }
                        } else {
                            assert(r@[r@.len() - 1] == i);
                        }
                    }
                }
            } else {
                proof {
                    assert(!r@.contains(i));
                }
            }
            i = i + 1;
        }
        r
    }
}

/// Switching the same flags twice gives back the flags as they were.
pub proof fn lemma_toggle_twice(bits: u32, other: u32)
    ensures
        (bits ^ other) ^ other == bits,
{
    assert((bits ^ other) ^ other == bits) by (bit_vector);
}


/// The name of the flag at bit `i` (from 0 to 6).
pub open spec fn spec_flag_name(i: int) -> Seq<char> {
    if i == 0 {
        seq!['F', 'l', 'i', 'p', 'X']
    } else if i == 1 {
        seq!['F', 'l', 'i', 'p', 'Y']
    } else if i == 2 {
        seq!['R', 'o', 't', 'a', 't', 'e', 'C', 'l', 'o', 'c', 'k', 'w', 'i', 's', 'e']
    } else if i == 3 {
        seq!['R', 'o', 't', 'a', 't', 'e', 'C', 'o', 'u', 'n', 't', 'e', 'r', 'C', 'l', 'o', 'c', 'k', 'w', 'i', 's', 'e']
    } else if i == 4 {
        seq!['F', 'l', 'i', 'p', 'T', 'r', 'i', 'a', 'n', 'g', 'l', 'e', 's']
    } else if i == 5 {
        seq!['E', 'x', 'c', 'l', 'u', 's', 'i', 'v', 'e']
    } else {
        seq!['F', 'o', 'l', 'd']
    }
}

/// The text form of the flags among the first `n` bits: the name of each set flag,
/// each followed by `", "`.
pub open spec fn spec_flags_text(bits: u32, n: nat) -> Seq<char>
    decreases n,
{
    if n == 0 {
        Seq::empty()
    } else {
        let before = spec_flags_text(bits, (n - 1) as nat);
        if bits & (1u32 << ((n - 1) as u32)) != 0 {
            before + spec_flag_name(n - 1) + seq![',', ' ']
        } else {
            before
        }
    }
}

fn flag_name(i: u32) -> (r: Vec<char>)
    requires
        i < 7,
    ensures
        r@ == spec_flag_name(i as int),
{
    let r = match i {
        0 => vec!['F', 'l', 'i', 'p', 'X'],
        1 => vec!['F', 'l', 'i', 'p', 'Y'],
        2 => vec!['R', 'o', 't', 'a', 't', 'e', 'C', 'l', 'o', 'c', 'k', 'w', 'i', 's', 'e'],
        3 => vec!['R', 'o', 't', 'a', 't', 'e', 'C', 'o', 'u', 'n', 't', 'e', 'r', 'C', 'l', 'o', 'c', 'k', 'w', 'i', 's', 'e'],
        4 => vec!['F', 'l', 'i', 'p', 'T', 'r', 'i', 'a', 'n', 'g', 'l', 'e', 's'],
        5 => vec!['E', 'x', 'c', 'l', 'u', 's', 'i', 'v', 'e'],
        _ => vec!['F', 'o', 'l', 'd'],
    };
    assert(r@ =~= spec_flag_name(i as int));
    r
}

/// Collects characters into a `String` with std's `FromIterator<char>` impl, which
/// keeps them in order.
#[verifier::external_body]
fn string_from_chars(chars: Vec<char>) -> (r: String)
    ensures
        r@ == chars@,
{
    chars.into_iter().collect()
}

impl TileFlags {
    /// The text form of the flags: the name of each set flag, in bit order, each
    /// followed by `", "`.
    pub fn to_text(&self) -> (r: String)
        ensures
            r@ == spec_flags_text(self.bits, 7),
    {
        let mut text: Vec<char> = Vec::new();
        let mut i: u32 = 0;
        while i < 7
            invariant
                i <= 7,
                text@ == spec_flags_text(self.bits, i as nat),
            decreases 7 - i,
        {
            if self.bits & (1u32 << i) != 0 {
                let mut name = flag_name(i);
                text.append(&mut name);
                text.push(',');
                text.push(' ');
                assert(text@ =~= spec_flags_text(self.bits, (i + 1) as nat));
            }
            i = i + 1;
        }
        string_from_chars(text)
    }
}

} // verus!
