//! The widths a backing word can have, and the choice of the smallest one
//! that holds a given number of bits.

use crate::integer::can_fit;
use crate::mask::low_mask;
use crate::mask::mask_of;
use vstd::prelude::*;

verus! {

/// The width of a backing word, which is also the tag of its integer type.
#[derive(Clone, Copy, Debug, PartialEq, Eq, Structural)]
pub enum Width {
    W8,
    W16,
    W32,
    W64,
    W128,
}

impl Width {
    /// The number of bits of the width.
    pub open spec fn bits(self) -> usize {
        match self {
            Width::W8 => 8,
            Width::W16 => 16,
            Width::W32 => 32,
            Width::W64 => 64,
            Width::W128 => 128,
        }
    }

    /// The width that a declared size stands for: 32 where none is declared,
    /// the size itself where it is 8, 16, 32, 64 or 128, and none otherwise.
    pub open spec fn resolved(size: Option<u128>) -> Option<Width> {
        match size {
            None => Some(Width::W32),
            Some(n) => if n == 8 {
                Some(Width::W8)
            } else if n == 16 {
                Some(Width::W16)
            } else if n == 32 {
                Some(Width::W32)
            } else if n == 64 {
                Some(Width::W64)
            } else if n == 128 {
                Some(Width::W128)
            } else {
                None
            },
        }
    }

    /// The smallest width of at least `n_bits` bits.
    pub open spec fn holding(n_bits: usize) -> Width {
        if n_bits <= 8 {
            Width::W8
        } else if n_bits <= 16 {
            Width::W16
        } else if n_bits <= 32 {
            Width::W32
        } else if n_bits <= 64 {
            Width::W64
        } else {
            Width::W128
        }
    }

    /// The largest value of a word of this width.
    pub open spec fn max_value(self) -> u128 {
        low_mask(self.bits() as u32)
    }

    /// Computes [`Width::bits`].
    #[verifier::when_used_as_spec(bits)]
    pub fn size(self) -> (n: usize)
        ensures
            n == self.bits(),
    {
        match self {
            Width::W8 => 8,
            Width::W16 => 16,
            Width::W32 => 32,
            Width::W64 => 64,
            Width::W128 => 128,
        }
    }

    /// Resolves the declared size of a layout to a width. Only 8, 16, 32, 64
    /// and 128 are sizes; a layout that declares none is 32 bits wide.
    pub fn resolve(size: Option<u128>) -> (width: Option<Width>)
        ensures
            width == Width::resolved(size),
    {
        match size {
            None => Some(Width::W32),
            Some(n) => if n == 8 {
                Some(Width::W8)
            } else if n == 16 {
                Some(Width::W16)
            } else if n == 32 {
                Some(Width::W32)
            } else if n == 64 {
                Some(Width::W64)
            } else if n == 128 {
                Some(Width::W128)
            } else {
                None
            },
        }
    }

    /// Whether `position` is a bit position of a word of this width.
    pub fn holds(self, position: usize) -> (inside: bool)
        ensures
            inside == (position < self.bits()),
    {
        match self {
            Width::W8 => can_fit::<u8>(position),
            Width::W16 => can_fit::<u16>(position),
            Width::W32 => can_fit::<u32>(position),
            Width::W64 => can_fit::<u64>(position),
            Width::W128 => can_fit::<u128>(position),
        }
    }

    /// Computes [`Width::max_value`].
    pub fn limit(self) -> (max: u128)
        ensures
            max == self.max_value(),
    {
        match self {
            Width::W8 => mask_of(8),
            Width::W16 => mask_of(16),
            Width::W32 => mask_of(32),
            Width::W64 => mask_of(64),
            Width::W128 => mask_of(128),
        }
    }

    /// The name of the unsigned integer type of this width.
    pub fn backing_type(self) -> (name: &'static str)
        ensures
            name@ == (match self {
                Width::W8 => "u8"@,
                Width::W16 => "u16"@,
                Width::W32 => "u32"@,
                Width::W64 => "u64"@,
                Width::W128 => "u128"@,
            }),
    {
        match self {
            Width::W8 => "u8",
            Width::W16 => "u16",
            Width::W32 => "u32",
            Width::W64 => "u64",
            Width::W128 => "u128",
        }
    }
}

/// Chooses the type in which the value of a field of `n_bits` bits is handed
/// over: the smallest of the five widths that holds that many bits.
pub fn get_holding_type(n_bits: usize) -> (holding: Width)
    requires
        1 <= n_bits <= 128,
    ensures
        holding == Width::holding(n_bits),
        n_bits <= holding.bits(),
        forall|other: Width| n_bits <= other.bits() ==> holding.bits() <= other.bits(),
{
    if n_bits <= 8 {
        Width::W8
    } else if n_bits <= 16 {
        Width::W16
    } else if n_bits <= 32 {
        Width::W32
    } else if n_bits <= 64 {
        Width::W64
    } else {
        Width::W128
    }
}

} // verus!
