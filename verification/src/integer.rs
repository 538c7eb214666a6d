//! Bit widths of the primitive integer types.

use vstd::prelude::*;

verus! {

/// A primitive integer type of a known bit width.
pub trait Integer {
    /// The number of bits in a value of the type.
    const SIZE: usize;

    /// The number of bits in a value of the type, as contracts speak of it.
    spec fn bits() -> usize;

    /// `SIZE` is the number of bits.
    proof fn lemma_size()
        ensures
            Self::SIZE == Self::bits(),
    ;
}

impl Integer for u8 {
    const SIZE: usize = 8;

    open spec fn bits() -> usize {
        8
    }

    proof fn lemma_size() {
    }
}

impl Integer for u16 {
    const SIZE: usize = 16;

    open spec fn bits() -> usize {
        16
    }

    proof fn lemma_size() {
    }
}

impl Integer for u32 {
    const SIZE: usize = 32;

    open spec fn bits() -> usize {
        32
    }

    proof fn lemma_size() {
    }
}

impl Integer for u64 {
    const SIZE: usize = 64;

    open spec fn bits() -> usize {
        64
    }

    proof fn lemma_size() {
    }
}

impl Integer for u128 {
    const SIZE: usize = 128;

    open spec fn bits() -> usize {
        128
    }

    proof fn lemma_size() {
    }
}

impl Integer for i8 {
    const SIZE: usize = 8;

    open spec fn bits() -> usize {
        8
    }

    proof fn lemma_size() {
    }
}

impl Integer for i16 {
    const SIZE: usize = 16;

    open spec fn bits() -> usize {
        16
    }

    proof fn lemma_size() {
    }
}

impl Integer for i32 {
    const SIZE: usize = 32;

    open spec fn bits() -> usize {
        32
    }

    proof fn lemma_size() {
    }
}

impl Integer for i64 {
    const SIZE: usize = 64;

    open spec fn bits() -> usize {
        64
    }

    proof fn lemma_size() {
    }
}

impl Integer for i128 {
    const SIZE: usize = 128;

    open spec fn bits() -> usize {
        128
    }

    proof fn lemma_size() {
    }
}

/// Whether bit position `width` lies inside a value of type `I`, that is,
/// whether it is below the number of bits of `I`.
pub fn can_fit<I: Integer>(width: usize) -> (fits: bool)
    ensures
        fits == (width < I::bits()),
{
    proof {
        I::lemma_size();
    }
    width < I::SIZE
}

/// A value that wraps one backing integer.
pub trait BitField {
    /// The backing integer type.
    type Ux;

    /// Gives up the wrapper and returns the backing integer.
    fn into_inner(self) -> Self::Ux;
}

} // verus!
