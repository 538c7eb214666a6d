//! The backing word of a layout.

use crate::integer::BitField;
use crate::width::Width;
use vstd::prelude::*;

verus! {

/// A backing word: an unsigned integer of one of the five widths. Every bit
/// pattern of the width is a word. Its bits change through writers only.
#[derive(Clone, Copy, Debug, PartialEq, Eq)]
pub struct Word {
    bits: u128,
    width: Width,
}

impl Word {
    /// The integer that the word holds.
    pub closed spec fn value(self) -> u128 {
        self.bits
    }

    /// The width of the word.
    pub closed spec fn width(self) -> Width {
        self.width
    }

    #[verifier::type_invariant]
    closed spec fn fits(self) -> bool {
        self.bits <= self.width.max_value()
    }

    /// Wraps an integer of the given width.
    pub fn wrap(width: Width, raw: u128) -> (word: Word)
        requires
            raw <= width.max_value(),
        ensures
            word.value() == raw,
            word.width() == width,
    {
        Word { bits: raw, width }
    }

    /// Wraps an integer if it is one of the given width.
    pub fn checked_wrap(width: Width, raw: u128) -> (word: Option<Word>)
        ensures
            match word {
                Some(word) => raw <= width.max_value() && word.value() == raw && word.width()
                    == width,
                None => raw > width.max_value(),
            },
    {
        if raw <= width.limit() {
            Some(Word::wrap(width, raw))
        } else {
            None
        }
    }

    /// The integer that the word holds.
    pub fn raw(&self) -> (raw: u128)
        ensures
            raw == self.value(),
            raw <= self.width().max_value(),
    {
        proof {
            use_type_invariant(self);
        }
        self.bits
    }

    /// The width of the word.
    pub fn word_width(&self) -> (width: Width)
        ensures
            width == self.width(),
    {
        self.width
    }

    /// Replaces the integer that the word holds.
    pub(crate) fn store(&mut self, raw: u128)
        requires
            raw <= old(self).width().max_value(),
        ensures
            final(self).value() == raw,
            final(self).width() == old(self).width(),
    {
        self.bits = raw;
    }
}

impl BitField for Word {
    type Ux = u128;

    /// Unwraps the integer that the word holds.
    fn into_inner(self) -> (raw: u128)
        ensures
            raw == self.value(),
    {
        self.bits
    }
}

} // verus!
