//! Mask and shift arithmetic on a 128-bit word, with the facts about it that
//! the rest of the crate relies on.
//!
//! A field occupies `len` bits of a word, the lowest of them at bit `start`.

use vstd::prelude::*;

verus! {

/// The word whose `n` lowest bits are set and whose other bits are clear.
pub open spec fn low_mask(n: u32) -> u128 {
    if n >= 128 {
        u128::MAX
    } else {
        !(u128::MAX << n)
    }
}

/// The word in which exactly the bits of the field are set.
pub open spec fn field_mask(start: u32, len: u32) -> u128 {
    low_mask(len) << start
}

/// `word` with the field replaced by the `len` lowest bits of `value`.
pub open spec fn spliced(word: u128, start: u32, len: u32, value: u128) -> u128 {
    (word & !field_mask(start, len)) | ((value & low_mask(len)) << start)
}

/// The content of the field in `word`, moved down to bit 0.
pub open spec fn extracted(word: u128, start: u32, len: u32) -> u128 {
    (word & field_mask(start, len)) >> start
}

/// The word in which only bit `pos` is set.
pub open spec fn bit_mask(pos: u32) -> u128 {
    1u128 << pos
}

/// `word` with bit `pos` set to `on` and every other bit as it was.
pub open spec fn with_bit(word: u128, pos: u32, on: bool) -> u128 {
    if on {
        (word & !bit_mask(pos)) | bit_mask(pos)
    } else {
        word & !bit_mask(pos)
    }
}

/// Whether bit `pos` of `word` is set.
pub open spec fn bit_of(word: u128, pos: u32) -> bool {
    word & bit_mask(pos) != 0
}

/// The number of bits needed to write `v`: one more than the position of its
/// highest set bit, and 0 for 0.
pub open spec fn bit_length(v: u128) -> nat
    decreases v,
{
    if v == 0 {
        0
    } else {
        1 + bit_length(v / 2)
    }
}

/// Computes [`low_mask`].
pub fn mask_of(n: u32) -> (m: u128)
    ensures
        m == low_mask(n),
{
    if n >= 128 {
        u128::MAX
    } else {
        !(u128::MAX << n)
    }
}

/// Computes [`spliced`] for a field that lies inside the word.
pub fn splice(word: u128, start: u32, len: u32, value: u128) -> (out: u128)
    requires
        start + len <= 128,
        len >= 1,
    ensures
        out == spliced(word, start, len, value),
{
    let m = mask_of(len);
    (word & !(m << start)) | ((value & m) << start)
}

/// Computes [`extracted`] for a field that lies inside the word.
pub fn extract(word: u128, start: u32, len: u32) -> (out: u128)
    requires
        start + len <= 128,
        len >= 1,
    ensures
        out == extracted(word, start, len),
        out <= low_mask(len),
{
    let m = mask_of(len);
    proof {
        lemma_extracted_bound(word, start, len);
    }
    (word & (m << start)) >> start
}

/// Computes [`bit_length`].
pub fn bit_len(v: u128) -> (n: u32)
    ensures
        n == bit_length(v),
        n <= 128,
{
    let mut rest: u128 = v;
    let mut n: u32 = 0;
    while rest != 0
        invariant
            n + bit_length(rest) == bit_length(v),
            n <= 128,
            n < 128 ==> rest <= low_mask((128 - n) as u32),
            n == 128 ==> rest == 0,
        decreases rest,
    {
        proof {
            lemma_halved_bound(rest, n);
        }
        rest = rest / 2;
        n = n + 1;
    }
    n
}

/// Computes [`with_bit`].
pub fn put_bit(word: u128, pos: u32, on: bool) -> (out: u128)
    requires
        pos < 128,
    ensures
        out == with_bit(word, pos, on),
{
    if on {
        (word & !(1u128 << pos)) | (1u128 << pos)
    } else {
        word & !(1u128 << pos)
    }
}

/// Computes [`bit_of`].
pub fn test_bit(word: u128, pos: u32) -> (on: bool)
    requires
        pos < 128,
    ensures
        on == bit_of(word, pos),
{
    word & (1u128 << pos) != 0
}

// The facts below are settled by the bit-vector prover. Each is kept small:
// a claim with several shifts by unknown amounts is more than it can decide
// in the time it is given, so the laws further down are put together from
// these.

proof fn lemma_halved_bound(rest: u128, n: u32)
    by (bit_vector)
    requires
        n < 128,
        rest <= low_mask((128 - n) as u32),
        rest != 0,
    ensures
        n + 1 < 128 ==> rest / 2 <= low_mask((128 - (n + 1)) as u32),
        n + 1 == 128 ==> rest / 2 == 0,
{
}

#[verifier::rlimit(50)]
proof fn lemma_shift_back(x: u128, len: u32, start: u32)
    by (bit_vector)
    requires
        start + len <= 128,
        len >= 1,
        x <= low_mask(len),
    ensures
        (x << start) >> start == x,
{
}

proof fn lemma_masked_bound(value: u128, m: u128)
    by (bit_vector)
    ensures
        value & m <= m,
        (value & m) & !m == 0,
{
}

#[verifier::rlimit(50)]
proof fn lemma_shifted_within(x: u128, m: u128, start: u32)
    by (bit_vector)
    requires
        start < 128,
        x & !m == 0,
    ensures
        (x << start) & !(m << start) == 0,
{
}

proof fn lemma_splice_same(word: u128, f: u128, m: u128)
    by (bit_vector)
    requires
        f & !m == 0,
    ensures
        ((word & !m) | f) & m == f,
{
}

proof fn lemma_splice_apart(word: u128, f: u128, m: u128, other: u128)
    by (bit_vector)
    requires
        f & !m == 0,
        m & other == 0,
    ensures
        ((word & !m) | f) & other == word & other,
{
}

proof fn lemma_splice_inside(word: u128, f: u128, m: u128, all: u128)
    by (bit_vector)
    requires
        f & !m == 0,
        m & !all == 0,
        word & !all == 0,
    ensures
        ((word & !m) | f) & !all == 0,
{
}

proof fn lemma_masks_apart(start: u32, len: u32, start2: u32, len2: u32)
    by (bit_vector)
    requires
        start + len <= start2,
        start2 + len2 <= 128,
        len >= 1,
        len2 >= 1,
    ensures
        field_mask(start, len) & field_mask(start2, len2) == 0,
{
}

proof fn lemma_mask_inside(start: u32, len: u32, width: u32)
    by (bit_vector)
    requires
        start + len <= width,
        width <= 128,
        len >= 1,
    ensures
        field_mask(start, len) & !low_mask(width) == 0,
{
}

proof fn lemma_bound_as_mask(x: u128, width: u32)
    by (bit_vector)
    ensures
        x <= low_mask(width) <==> x & !low_mask(width) == 0,
{
}

proof fn lemma_bit_mask_is_field(pos: u32)
    by (bit_vector)
    requires
        pos < 128,
    ensures
        field_mask(pos, 1) == bit_mask(pos),
        low_mask(1) == 1,
{
}

proof fn lemma_low_bit(value: u128, pos: u32)
    by (bit_vector)
    requires
        pos < 128,
    ensures
        (value & 1 == 1) ==> ((value & 1) << pos) == bit_mask(pos),
        (value & 1 != 1) ==> ((value & 1) << pos) == 0,
{
}

proof fn lemma_single_bit_value(word: u128, pos: u32)
    by (bit_vector)
    requires
        pos < 128,
    ensures
        (word & bit_mask(pos) != 0) ==> (word & bit_mask(pos)) >> pos == 1,
        (word & bit_mask(pos) == 0) ==> (word & bit_mask(pos)) >> pos == 0,
{
}

proof fn lemma_bit_algebra(word: u128, b: u128)
    by (bit_vector)
    ensures
        ((word & !b) | b) & b == b,
        (word & !b) & b == 0,
        (((word & !b) | b) & !b) | b == (word & !b) | b,
        (word & !b) & !b == word & !b,
        (word & !b) | 0 == word & !b,
{
}

proof fn lemma_bit_mask_nonzero(pos: u32)
    by (bit_vector)
    requires
        pos < 128,
    ensures
        bit_mask(pos) != 0,
{
}

proof fn lemma_halves_fit(v: u128, n: u32)
    by (bit_vector)
    requires
        1 <= n <= 128,
        v / 2 <= low_mask((n - 1) as u32),
    ensures
        v <= low_mask(n),
{
}

/// A value read from a field fits in the field's length.
pub proof fn lemma_extracted_bound(word: u128, start: u32, len: u32)
    by (bit_vector)
    requires
        start + len <= 128,
        len >= 1,
    ensures
        extracted(word, start, len) <= low_mask(len),
{
}

/// Reading a field after writing it gives back what was written, cut to the
/// field's length.
pub proof fn lemma_extract_spliced(word: u128, start: u32, len: u32, value: u128)
    requires
        start + len <= 128,
        len >= 1,
    ensures
        extracted(spliced(word, start, len, value), start, len) == value & low_mask(len),
{
    let m = low_mask(len);
    let kept = value & m;
    lemma_masked_bound(value, m);
    lemma_shifted_within(kept, m, start);
    lemma_splice_same(word, kept << start, field_mask(start, len));
    lemma_shift_back(kept, len, start);
}

/// Writing a field leaves every field that shares no bit with it as it was.
pub proof fn lemma_extract_other(
    word: u128,
    start: u32,
    len: u32,
    value: u128,
    start2: u32,
    len2: u32,
)
    requires
        start + len <= 128,
        start2 + len2 <= 128,
        len >= 1,
        len2 >= 1,
        start + len <= start2 || start2 + len2 <= start,
    ensures
        extracted(spliced(word, start, len, value), start2, len2) == extracted(
            word,
            start2,
            len2,
        ),
{
    let m = low_mask(len);
    let kept = value & m;
    lemma_masked_bound(value, m);
    lemma_shifted_within(kept, m, start);
    if start + len <= start2 {
        lemma_masks_apart(start, len, start2, len2);
    } else {
        lemma_masks_apart(start2, len2, start, len);
        assert(field_mask(start, len) & field_mask(start2, len2) == field_mask(start2, len2)
            & field_mask(start, len)) by (bit_vector);
    }
    lemma_splice_apart(word, kept << start, field_mask(start, len), field_mask(start2, len2));
}

/// Writing a field of a word of `width` bits gives a word of `width` bits.
pub proof fn lemma_spliced_within(word: u128, start: u32, len: u32, value: u128, width: u32)
    requires
        start + len <= width,
        width <= 128,
        len >= 1,
        word <= low_mask(width),
    ensures
        spliced(word, start, len, value) <= low_mask(width),
{
    let m = low_mask(len);
    let kept = value & m;
    lemma_masked_bound(value, m);
    lemma_shifted_within(kept, m, start);
    lemma_mask_inside(start, len, width);
    lemma_bound_as_mask(word, width);
    lemma_splice_inside(word, kept << start, field_mask(start, len), low_mask(width));
    lemma_bound_as_mask(spliced(word, start, len, value), width);
}

/// A value of at most `n` bits is at most the mask of `n` bits.
pub proof fn lemma_bit_length_fits(v: u128, n: u32)
    requires
        bit_length(v) <= n,
        n <= 128,
    ensures
        v <= low_mask(n),
    decreases n,
{
    if v == 0 {
        assert(0u128 <= low_mask(n)) by (bit_vector);
    } else {
        lemma_bit_length_fits(v / 2, (n - 1) as u32);
        lemma_halves_fit(v, n);
    }
}

proof fn lemma_shifted_inside(v: u128, start: u32, len: u32)
    by (bit_vector)
    requires
        start + len <= 128,
        len >= 1,
        v <= low_mask(len),
    ensures
        (v << start) & !field_mask(start, len) == 0,
{
}

proof fn lemma_inside_inside(x: u128, m: u128, all: u128)
    by (bit_vector)
    requires
        x & !m == 0,
        m & !all == 0,
    ensures
        x & !all == 0,
{
}

/// A value of at most `len` bits, moved up to bit `start` of a word of
/// `width` bits, stays in the word and loses no bit.
pub proof fn lemma_shifted_fits(v: u128, start: u32, len: u32, width: u32)
    requires
        bit_length(v) <= len,
        len >= 1,
        start + len <= width,
        width <= 128,
    ensures
        (v << start) <= low_mask(width),
        (v << start) >> start == v,
        extracted(v << start, start, len) == v,
{
    lemma_bit_length_fits(v, len);
    lemma_shift_back(v, len, start);
    lemma_shifted_inside(v, start, len);
    lemma_mask_inside(start, len, width);
    lemma_inside_inside(v << start, field_mask(start, len), low_mask(width));
    lemma_bound_as_mask(v << start, width);
    assert((v << start) & field_mask(start, len) == v << start) by (bit_vector)
        requires
            (v << start) & !field_mask(start, len) == 0,
    ;
}

/// The union of two words of `width` bits is a word of `width` bits.
pub proof fn lemma_union_within(a: u128, b: u128, width: u32)
    by (bit_vector)
    requires
        a <= low_mask(width),
        b <= low_mask(width),
    ensures
        a | b <= low_mask(width),
{
}

/// A mask of fewer bits is the smaller mask.
pub proof fn lemma_low_mask_grows(n: u32, m: u32)
    by (bit_vector)
    requires
        n <= m,
    ensures
        low_mask(n) <= low_mask(m),
{
}

proof fn lemma_mask_of_union(a: u128, b: u128, m: u128)
    by (bit_vector)
    ensures
        (a | b) & m == (a & m) | (b & m),
{
}

#[verifier::rlimit(50)]
proof fn lemma_shift_of_union(x: u128, y: u128, start: u32)
    by (bit_vector)
    requires
        start < 128,
    ensures
        (x | y) >> start == (x >> start) | (y >> start),
{
}

proof fn lemma_extract_union(a: u128, b: u128, start: u32, len: u32)
    requires
        start + len <= 128,
        len >= 1,
    ensures
        extracted(a | b, start, len) == extracted(a, start, len) | extracted(b, start, len),
{
    let m = field_mask(start, len);
    lemma_mask_of_union(a, b, m);
    lemma_shift_of_union(a & m, b & m, start);
}

proof fn lemma_extract_nothing(x: u128, own: u128, start: u32, len: u32)
    by (bit_vector)
    requires
        start + len <= 128,
        len >= 1,
        x & !own == 0,
        own & field_mask(start, len) == 0,
    ensures
        extracted(x, start, len) == 0,
{
}

proof fn lemma_union_with_nothing(a: u128)
    by (bit_vector)
    ensures
        a | 0 == a,
        0 | a == a,
{
}

/// Reading a field from the union of two words gives the union of what the
/// field holds in each.
pub proof fn lemma_extract_from_union(a: u128, b: u128, start: u32, len: u32)
    requires
        start + len <= 128,
        len >= 1,
    ensures
        extracted(a | b, start, len) == extracted(a, start, len) | extracted(b, start, len),
        extracted(a, start, len) == 0 ==> extracted(a | b, start, len) == extracted(b, start, len),
        extracted(b, start, len) == 0 ==> extracted(a | b, start, len) == extracted(a, start, len),
{
    lemma_extract_union(a, b, start, len);
    lemma_union_with_nothing(extracted(a, start, len));
    lemma_union_with_nothing(extracted(b, start, len));
}

/// A value of at most `len` bits that has been moved up to bit `start`
/// leaves every field empty that shares no bit with the field at `start`.
pub proof fn lemma_shifted_apart(v: u128, start: u32, len: u32, start2: u32, len2: u32)
    requires
        bit_length(v) <= len,
        len >= 1,
        len2 >= 1,
        start + len <= 128,
        start2 + len2 <= 128,
        start + len <= start2 || start2 + len2 <= start,
    ensures
        extracted(v << start, start2, len2) == 0,
{
    lemma_bit_length_fits(v, len);
    lemma_shifted_inside(v, start, len);
    if start + len <= start2 {
        lemma_masks_apart(start, len, start2, len2);
    } else {
        lemma_masks_apart(start2, len2, start, len);
        assert(field_mask(start, len) & field_mask(start2, len2) == field_mask(start2, len2)
            & field_mask(start, len)) by (bit_vector);
    }
    lemma_extract_nothing(v << start, field_mask(start, len), start2, len2);
}

/// Setting or clearing a bit of a word of `width` bits gives a word of
/// `width` bits.
pub proof fn lemma_with_bit_within(word: u128, pos: u32, on: bool, width: u32)
    by (bit_vector)
    requires
        pos < width,
        width <= 128,
        word <= low_mask(width),
    ensures
        with_bit(word, pos, on) <= low_mask(width),
{
}

/// A field of one bit is the same thing as a single bit: writing it sets the
/// bit to the lowest bit of the value, and reading it gives 1 or 0 as the bit
/// is set or clear.
pub proof fn lemma_one_bit_field(word: u128, pos: u32, value: u128)
    requires
        pos < 128,
    ensures
        spliced(word, pos, 1, value) == with_bit(word, pos, value & 1 == 1),
        extracted(word, pos, 1) == (if bit_of(word, pos) { 1u128 } else { 0u128 }),
{
    lemma_bit_mask_is_field(pos);
    lemma_low_bit(value, pos);
    lemma_single_bit_value(word, pos);
    lemma_bit_algebra(word, bit_mask(pos));
}

/// Setting or clearing a bit leaves every field that the bit is not part of
/// as it was, and writing a field leaves every bit outside the field as it
/// was.
pub proof fn lemma_bit_apart(word: u128, pos: u32, on: bool, start: u32, len: u32, value: u128)
    requires
        pos < 128,
        len >= 1,
        start + len <= 128,
        pos < start || start + len <= pos,
    ensures
        extracted(with_bit(word, pos, on), start, len) == extracted(word, start, len),
        bit_of(spliced(word, start, len, value), pos) == bit_of(word, pos),
{
    let bit: u128 = if on {
        1
    } else {
        0
    };
    assert(bit & 1 == 1 <==> on) by (bit_vector)
        requires
            bit == (if on {
                1u128
            } else {
                0u128
            }),
    ;
    lemma_one_bit_field(word, pos, bit);
    lemma_extract_other(word, pos, 1, bit, start, len);
    lemma_one_bit_field(word, pos, 0);
    lemma_one_bit_field(spliced(word, start, len, value), pos, 0);
    lemma_extract_other(word, start, len, value, pos, 1);
}

/// Setting or clearing a bit leaves every other bit as it was.
pub proof fn lemma_other_bit(word: u128, pos: u32, on: bool, other: u32)
    requires
        pos < 128,
        other < 128,
        pos != other,
    ensures
        bit_of(with_bit(word, pos, on), other) == bit_of(word, other),
{
    lemma_bit_apart(word, pos, on, other, 1, 0);
    lemma_one_bit_field(word, other, 0);
    lemma_one_bit_field(with_bit(word, pos, on), other, 0);
}

/// Setting or clearing a bit twice is the same as doing it once, and the bit
/// then reads as it was written.
pub proof fn lemma_with_bit_idempotent(word: u128, pos: u32, on: bool)
    requires
        pos < 128,
    ensures
        with_bit(with_bit(word, pos, on), pos, on) == with_bit(word, pos, on),
        bit_of(with_bit(word, pos, on), pos) == on,
{
    lemma_bit_algebra(word, bit_mask(pos));
    lemma_bit_mask_nonzero(pos);
}

} // verus!
