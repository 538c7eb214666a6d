//! The bits that a field owns.

use crate::mask::extracted;
use crate::mask::spliced;
use std::cmp::Ordering;
use vstd::prelude::*;
use vstd::std_specs::cmp::PartialEqSpecImpl;
use vstd::std_specs::cmp::PartialOrdSpecImpl;

verus! {

/// The bit span of a field: one bit, or the bits from a start to an end, both
/// included.
#[derive(Clone, Copy, Debug)]
pub enum Bits {
    Range(usize, usize),
    Single(usize),
}

impl Bits {
    /// The lowest bit of the span.
    pub open spec fn bottom(self) -> usize {
        match self {
            Bits::Range(start, _) => start,
            Bits::Single(position) => position,
        }
    }

    /// The highest bit of the span.
    pub open spec fn top(self) -> usize {
        match self {
            Bits::Range(_, end) => end,
            Bits::Single(position) => position,
        }
    }

    /// The number of bits of the span.
    pub open spec fn len(self) -> int {
        self.top() - self.bottom() + 1
    }

    /// Whether the span is written in its normal form: a range runs from a
    /// start to an end strictly above it.
    pub open spec fn normal(self) -> bool {
        match self {
            Bits::Range(start, end) => start < end,
            Bits::Single(_) => true,
        }
    }

    /// Whether every bit of the span lies in a word of `size` bits.
    pub open spec fn within(self, size: usize) -> bool {
        self.top() < size
    }

    /// Whether bit `position` belongs to the span.
    pub open spec fn contains(self, position: int) -> bool {
        self.bottom() <= position <= self.top()
    }

    /// Whether the two spans have no bit in common.
    pub open spec fn disjoint(self, other: Bits) -> bool {
        self.top() < other.bottom() || other.top() < self.bottom()
    }

    /// What the field that owns the span holds in `word`.
    pub open spec fn read(self, word: u128) -> u128 {
        extracted(word, self.bottom() as u32, self.len() as u32)
    }

    /// `word` after `value`, cut to the length of the span, has been written
    /// to the field that owns the span.
    pub open spec fn written(self, word: u128, value: u128) -> u128 {
        spliced(word, self.bottom() as u32, self.len() as u32, value)
    }

    /// How the span stands to `other` in the order of the lowest bits.
    pub open spec fn compared_to(self, other: Bits) -> Ordering {
        if self.bottom() < other.bottom() {
            Ordering::Less
        } else if self.bottom() == other.bottom() {
            Ordering::Equal
        } else {
            Ordering::Greater
        }
    }

    /// Computes [`Bits::bottom`].
    pub fn start(&self) -> (position: usize)
        ensures
            position == self.bottom(),
    {
        match self {
            Bits::Range(start, _) => *start,
            Bits::Single(position) => *position,
        }
    }

    /// Computes [`Bits::top`].
    pub fn end(&self) -> (position: usize)
        ensures
            position == self.top(),
    {
        match self {
            Bits::Range(_, end) => *end,
            Bits::Single(position) => *position,
        }
    }

    /// Computes [`Bits::len`] of a span in normal form.
    pub fn width(&self) -> (n: usize)
        requires
            self.normal(),
            self.top() < usize::MAX,
        ensures
            n == self.len(),
            n >= 1,
    {
        match self {
            Bits::Range(start, end) => *end - *start + 1,
            Bits::Single(_) => 1,
        }
    }

    /// Compares two spans by their lowest bits.
    pub fn cmp(&self, other: &Self) -> (o: Ordering)
        ensures
            o == self.compared_to(*other),
    {
        let a1 = self.start();
        let a2 = other.start();
        if a1 < a2 {
            Ordering::Less
        } else if a1 == a2 {
            Ordering::Equal
        } else {
            Ordering::Greater
        }
    }
}

/// Two spans are disjoint exactly when no bit belongs to both.
pub proof fn lemma_disjoint_spans(a: Bits, b: Bits)
    requires
        a.bottom() <= a.top(),
        b.bottom() <= b.top(),
    ensures
        a.disjoint(b) <==> forall|position: int| !(a.contains(position) && b.contains(position)),
{
    if !a.disjoint(b) {
        let shared = if a.bottom() <= b.bottom() {
            b.bottom() as int
        } else {
            a.bottom() as int
        };
        assert(a.contains(shared) && b.contains(shared));
    }
}

impl PartialOrd for Bits {
    /// Spans are ordered by their lowest bits alone.
    fn partial_cmp(&self, other: &Self) -> (o: Option<Ordering>) {
        let a1 = match self {
            Bits::Range(a, _) => *a,
            Bits::Single(a) => *a,
        };
        let a2 = match other {
            Bits::Range(a, _) => *a,
            Bits::Single(a) => *a,
        };
        if a1 < a2 {
            Some(Ordering::Less)
        } else if a1 == a2 {
            Some(Ordering::Equal)
        } else {
            Some(Ordering::Greater)
        }
    }
}

impl PartialOrdSpecImpl for Bits {
    open spec fn obeys_partial_cmp_spec() -> bool {
        true
    }

    open spec fn partial_cmp_spec(&self, other: &Self) -> Option<Ordering> {
        Some(self.compared_to(*other))
    }
}

impl Eq for Bits {

}

impl PartialEq for Bits {
    /// Two spans are equal when they are of the same form and hold the same
    /// positions.
    fn eq(&self, other: &Self) -> (same: bool) {
        match self {
            Bits::Range(a1, b1) => {
                if let Bits::Range(a2, b2) = other {
                    *a1 == *a2 && *b1 == *b2
                } else {
                    false
                }
            },
            Bits::Single(a1) => {
                if let Bits::Single(a2) = other {
                    *a1 == *a2
                } else {
                    false
                }
            },
        }
    }
}

impl PartialEqSpecImpl for Bits {
    open spec fn obeys_eq_spec() -> bool {
        true
    }

    open spec fn eq_spec(&self, other: &Self) -> bool {
        *self == *other
    }
}

} // verus!
