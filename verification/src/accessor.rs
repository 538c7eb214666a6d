//! The accessors of a field: a writer and a reader, each of the kind that
//! fits the field.
//!
//! A field of several bits is written and read as a number. A field of one
//! bit is set, cleared and tested. An accessor is used up by its one
//! operation. Every writer hands the word back, so that writes can follow
//! one another.

use crate::bits::Bits;
use crate::mask::bit_of;
use crate::mask::extract;
use crate::mask::extracted;
use crate::mask::lemma_low_mask_grows;
use crate::mask::lemma_one_bit_field;
use crate::mask::lemma_spliced_within;
use crate::mask::lemma_with_bit_within;
use crate::mask::low_mask;
use crate::mask::put_bit;
use crate::mask::splice;
use crate::mask::spliced;
use crate::mask::test_bit;
use crate::mask::with_bit;
use crate::width::get_holding_type;
use crate::width::Width;
use crate::word::Word;
use vstd::prelude::*;

verus! {

/// The place of a field of several bits in a word of a given width.
#[derive(Clone, Copy, Debug, PartialEq, Eq)]
pub struct Span {
    start: u32,
    len: u32,
    width: Width,
}

/// The place of a field of one bit in a word of a given width.
#[derive(Clone, Copy, Debug, PartialEq, Eq)]
pub struct Spot {
    pos: u32,
    width: Width,
}

/// Writes a field of several bits.
#[derive(Debug, PartialEq, Eq)]
pub struct RangeWriter {
    span: Span,
}

/// Reads a field of several bits.
#[derive(Debug, PartialEq, Eq)]
pub struct RangeReader {
    span: Span,
}

/// Writes a field of one bit.
#[derive(Debug, PartialEq, Eq)]
pub struct BitWriter {
    spot: Spot,
}

/// Reads a field of one bit.
#[derive(Debug, PartialEq, Eq)]
pub struct BitReader {
    spot: Spot,
}

/// The writer of a field.
#[derive(Debug, PartialEq, Eq)]
pub enum Writer {
    Range(RangeWriter),
    Single(BitWriter),
}

/// The reader of a field.
#[derive(Debug, PartialEq, Eq)]
pub enum Reader {
    Range(RangeReader),
    Single(BitReader),
}

impl Span {
    /// The lowest bit of the field.
    pub closed spec fn start(self) -> u32 {
        self.start
    }

    /// The number of bits of the field.
    pub closed spec fn len(self) -> u32 {
        self.len
    }

    /// The width of the words that the field belongs to.
    pub closed spec fn width(self) -> Width {
        self.width
    }

    #[verifier::type_invariant]
    closed spec fn inside(self) -> bool {
        self.len >= 1 && self.start + self.len <= self.width.bits()
    }

    /// Whether this is the place of the bits `bits` in a word of width
    /// `width`.
    pub open spec fn covers(self, bits: Bits, width: Width) -> bool {
        &&& self.start() == bits.bottom()
        &&& self.len() == bits.len()
        &&& self.width() == width
    }

    /// The mask of the field's value: as many low bits as the field has.
    pub fn mask(&self) -> (mask: u128)
        ensures
            mask == low_mask(self.len()),
    {
        crate::mask::mask_of(self.len)
    }

    /// The lowest bit of the field.
    pub fn offset(&self) -> (start: u32)
        ensures
            start == self.start(),
            start < self.width().bits(),
    {
        proof {
            use_type_invariant(self);
        }
        self.start
    }

    /// The number of bits of the field.
    pub fn bit_count(&self) -> (len: u32)
        ensures
            len == self.len(),
            1 <= len <= self.width().bits(),
    {
        proof {
            use_type_invariant(self);
        }
        self.len
    }

    /// The lowest bit and the number of bits of the field.
    pub fn extent(&self) -> (extent: (u32, u32))
        ensures
            extent.0 == self.start(),
            extent.1 == self.len(),
            extent.1 >= 1,
            extent.0 + extent.1 <= self.width().bits(),
    {
        proof {
            use_type_invariant(self);
        }
        (self.start, self.len)
    }

    /// The type in which the field's value is handed over: the smallest
    /// that holds as many bits as the field has.
    pub fn encoding(&self) -> (holding: Width)
        ensures
            holding == Width::holding(self.len() as usize),
            self.len() <= holding.bits(),
    {
        proof {
            use_type_invariant(self);
        }
        get_holding_type(self.len as usize)
    }
}

impl Spot {
    /// The position of the bit.
    pub closed spec fn pos(self) -> u32 {
        self.pos
    }

    /// The width of the words that the bit belongs to.
    pub closed spec fn width(self) -> Width {
        self.width
    }

    #[verifier::type_invariant]
    closed spec fn inside(self) -> bool {
        self.pos < self.width.bits()
    }

    /// Whether this is the place of the bits `bits` in a word of width
    /// `width`.
    pub open spec fn covers(self, bits: Bits, width: Width) -> bool {
        &&& bits is Single
        &&& self.pos() == bits.bottom()
        &&& self.width() == width
    }

    /// The position of the bit.
    pub fn offset(&self) -> (pos: u32)
        ensures
            pos == self.pos(),
            pos < self.width().bits(),
    {
        proof {
            use_type_invariant(self);
        }
        self.pos
    }
}

impl RangeWriter {
    /// The place of the field.
    pub closed spec fn span(self) -> Span {
        self.span
    }

    /// The place of the field.
    pub fn place(&self) -> (span: Span)
        ensures
            span == self.span(),
    {
        self.span
    }

    /// Writes `value`, cut to the length of the field, into the field of
    /// `word` and leaves the other bits of the word as they are.
    pub fn bits<'a>(self, word: &'a mut Word, value: u128) -> (out: &'a mut Word)
        requires
            old(word).width() == self.span().width(),
        ensures
            out.value() == spliced(
                old(word).value(),
                self.span().start(),
                self.span().len(),
                value,
            ),
            out.width() == old(word).width(),
            *final(word) == *final(out),
    {
        let (start, len) = self.span.extent();
        let before = word.raw();
        proof {
            lemma_spliced_within(before, start, len, value, word.width().bits() as u32);
        }
        word.store(splice(before, start, len, value));
        word
    }
}

impl RangeReader {
    /// The place of the field.
    pub closed spec fn span(self) -> Span {
        self.span
    }

    /// The place of the field.
    pub fn place(&self) -> (span: Span)
        ensures
            span == self.span(),
    {
        self.span
    }

    /// Reads the field of `word` as a number.
    pub fn get_bits(self, word: &Word) -> (value: u128)
        requires
            word.width() == self.span().width(),
        ensures
            value == extracted(word.value(), self.span().start(), self.span().len()),
            value <= low_mask(self.span().len()),
            value <= Width::holding(self.span().len() as usize).max_value(),
    {
        let (start, len) = self.span.extent();
        proof {
            lemma_low_mask_grows(len, Width::holding(len as usize).bits() as u32);
        }
        extract(word.raw(), start, len)
    }
}

impl BitWriter {
    /// The place of the bit.
    pub closed spec fn spot(self) -> Spot {
        self.spot
    }

    /// The place of the bit.
    pub fn place(&self) -> (spot: Spot)
        ensures
            spot == self.spot(),
    {
        self.spot
    }

    /// Sets the bit of `word` to `b` and leaves the other bits of the word as
    /// they are.
    pub fn bit<'a>(self, word: &'a mut Word, b: bool) -> (out: &'a mut Word)
        requires
            old(word).width() == self.spot().width(),
        ensures
            out.value() == with_bit(old(word).value(), self.spot().pos(), b),
            out.width() == old(word).width(),
            *final(word) == *final(out),
    {
        let pos = self.spot.offset();
        let before = word.raw();
        proof {
            lemma_with_bit_within(before, pos, b, word.width().bits() as u32);
        }
        word.store(put_bit(before, pos, b));
        word
    }

    /// Sets the bit of `word`.
    pub fn set_bit<'a>(self, word: &'a mut Word) -> (out: &'a mut Word)
        requires
            old(word).width() == self.spot().width(),
        ensures
            out.value() == with_bit(old(word).value(), self.spot().pos(), true),
            out.width() == old(word).width(),
            *final(word) == *final(out),
    {
        self.bit(word, true)
    }

    /// Clears the bit of `word`.
    pub fn clear_bit<'a>(self, word: &'a mut Word) -> (out: &'a mut Word)
        requires
            old(word).width() == self.spot().width(),
        ensures
            out.value() == with_bit(old(word).value(), self.spot().pos(), false),
            out.width() == old(word).width(),
            *final(word) == *final(out),
    {
        self.bit(word, false)
    }
}

impl BitReader {
    /// The place of the bit.
    pub closed spec fn spot(self) -> Spot {
        self.spot
    }

    /// The place of the bit.
    pub fn place(&self) -> (spot: Spot)
        ensures
            spot == self.spot(),
    {
        self.spot
    }

    /// Whether the bit of `word` is set.
    pub fn is_bit_set(self, word: &Word) -> (on: bool)
        requires
            word.width() == self.spot().width(),
        ensures
            on == bit_of(word.value(), self.spot().pos()),
    {
        let pos = self.spot.offset();
        test_bit(word.raw(), pos)
    }

    /// Whether the bit of `word` is clear.
    pub fn is_bit_clear(self, word: &Word) -> (off: bool)
        requires
            word.width() == self.spot().width(),
        ensures
            off == !bit_of(word.value(), self.spot().pos()),
    {
        let pos = self.spot.offset();
        !test_bit(word.raw(), pos)
    }

    /// The bit of `word`, as 1 or 0.
    pub fn get_bit(self, word: &Word) -> (bit: u8)
        requires
            word.width() == self.spot().width(),
        ensures
            bit == (if bit_of(word.value(), self.spot().pos()) { 1u8 } else { 0u8 }),
            bit == extracted(word.value(), self.spot().pos(), 1),
    {
        let pos = self.spot.offset();
        proof {
            lemma_one_bit_field(word.value(), pos, 0);
        }
        if test_bit(word.raw(), pos) {
            1
        } else {
            0
        }
    }
}

impl Writer {
    /// Whether this is the writer of the bits `bits` in a word of width
    /// `width`.
    pub open spec fn bound_to(self, bits: Bits, width: Width) -> bool {
        match self {
            Writer::Range(writer) => bits is Range && writer.span().covers(bits, width),
            Writer::Single(writer) => writer.spot().covers(bits, width),
        }
    }

    /// Makes the writer of a field from the field's bits.
    pub fn bind(bits: &Bits, width: Width) -> (writer: Writer)
        requires
            bits.normal(),
            bits.within(width.bits()),
        ensures
            writer.bound_to(*bits, width),
    {
        match bits {
            Bits::Range(start, end) => Writer::Range(
                RangeWriter {
                    span: Span { start: *start as u32, len: (*end - *start + 1) as u32, width },
                },
            ),
            Bits::Single(position) => Writer::Single(
                BitWriter { spot: Spot { pos: *position as u32, width } },
            ),
        }
    }
}

impl Reader {
    /// Whether this is the reader of the bits `bits` in a word of width
    /// `width`.
    pub open spec fn bound_to(self, bits: Bits, width: Width) -> bool {
        match self {
            Reader::Range(reader) => bits is Range && reader.span().covers(bits, width),
            Reader::Single(reader) => reader.spot().covers(bits, width),
        }
    }

    /// Makes the reader of a field from the field's bits.
    pub fn bind(bits: &Bits, width: Width) -> (reader: Reader)
        requires
            bits.normal(),
            bits.within(width.bits()),
        ensures
            reader.bound_to(*bits, width),
    {
        match bits {
            Bits::Range(start, end) => Reader::Range(
                RangeReader {
                    span: Span { start: *start as u32, len: (*end - *start + 1) as u32, width },
                },
            ),
            Bits::Single(position) => Reader::Single(
                BitReader { spot: Spot { pos: *position as u32, width } },
            ),
        }
    }
}

} // verus!
