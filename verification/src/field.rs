//! One field of a layout: as it is declared, and as it is after validation.

use crate::bits::Bits;
use crate::error::LayoutError;
use crate::mask::bit_len;
use crate::mask::bit_length;
use crate::mask::lemma_shifted_fits;
use crate::mask::low_mask;
use crate::names::uppercase;
use crate::names::Field;
use vstd::prelude::*;

verus! {

/// An integer literal of the description: its value, and its place in the
/// input.
#[derive(Clone, Copy, Debug, PartialEq, Eq, Structural)]
pub struct Lit {
    pub value: u128,
    pub at: usize,
}

/// A declared range, before any check.
#[derive(Clone, Copy, Debug, PartialEq, Eq, Structural)]
pub enum UCRange {
    /// `start..end`: the end is the first bit above the range.
    Open(Lit, Lit),
    /// `start..=end`: the end is the last bit of the range.
    Closed(Lit, Lit),
}

/// The declared bits of a field, before any check.
#[derive(Clone, Copy, Debug, PartialEq, Eq, Structural)]
pub enum UCBits {
    Range(UCRange),
    Single(Lit),
}

/// A field as it is declared.
#[derive(Clone, Debug, PartialEq, Eq)]
pub struct FieldDef {
    /// The name of the field.
    pub name: String,
    /// The place of the name in the input.
    pub at: usize,
    /// The bits that the field claims.
    pub bits: UCBits,
    /// The value that the field has in a new word, if one is declared.
    pub default: Option<Lit>,
}

/// A field after validation.
#[derive(Clone, Debug, PartialEq, Eq)]
pub struct Modifier {
    /// The name of the field.
    pub field: String,
    /// The type of the field's writer.
    pub writer: String,
    /// The type of the field's reader.
    pub reader: String,
    /// The bits of the field, in normal form.
    pub bits: Bits,
}

impl Modifier {
    /// A copy of the validated field.
    pub fn duplicate(&self) -> (copy: Modifier)
        ensures
            copy == *self,
    {
        Modifier {
            field: self.field.clone(),
            writer: self.writer.clone(),
            reader: self.reader.clone(),
            bits: self.bits,
        }
    }

    /// Whether this is the validated form of the declared field `field` in a
    /// word of `size` bits.
    pub open spec fn stands_for(self, field: FieldDef, size: usize) -> bool {
        &&& self.field == field.name
        &&& self.writer@ == uppercase(field.name@) + "_W"@
        &&& self.reader@ == uppercase(field.name@) + "_R"@
        &&& field.bits.normalized(size) == Ok::<Bits, LayoutError>(self.bits)
    }
}

impl UCBits {
    /// The declared bits in normal form for a word of `size` bits, or the
    /// reason they have none. A range must run from a start to an end
    /// strictly above it, and the last bit must lie in the word.
    pub open spec fn normalized(self, size: usize) -> Result<Bits, LayoutError> {
        match self {
            UCBits::Range(UCRange::Closed(start, end)) => {
                if start.value >= end.value {
                    Err(LayoutError::RangeOrder { at: start.at })
                } else if end.value >= size {
                    Err(LayoutError::RangeBounds { at: end.at })
                } else {
                    Ok(Bits::Range(start.value as usize, end.value as usize))
                }
            },
            UCBits::Range(UCRange::Open(start, end)) => {
                if start.value >= end.value - 1 {
                    Err(LayoutError::RangeOrder { at: start.at })
                } else if end.value - 1 >= size {
                    Err(LayoutError::RangeBounds { at: end.at })
                } else {
                    Ok(Bits::Range(start.value as usize, (end.value - 1) as usize))
                }
            },
            UCBits::Single(position) => {
                if position.value >= size {
                    Err(LayoutError::RangeBounds { at: position.at })
                } else {
                    Ok(Bits::Single(position.value as usize))
                }
            },
        }
    }

    /// Computes [`UCBits::normalized`].
    pub fn normalize(&self, size: usize) -> (bits: Result<Bits, LayoutError>)
        ensures
            bits == self.normalized(size),
            bits matches Ok(b) ==> b.normal() && b.within(size),
    {
        match self {
            UCBits::Range(UCRange::Closed(start, end)) => {
                if start.value >= end.value {
                    Err(LayoutError::RangeOrder { at: start.at })
                } else if end.value >= size as u128 {
                    Err(LayoutError::RangeBounds { at: end.at })
                } else {
                    Ok(Bits::Range(start.value as usize, end.value as usize))
                }
            },
            UCBits::Range(UCRange::Open(start, end)) => {
                if end.value == 0 || start.value >= end.value - 1 {
                    Err(LayoutError::RangeOrder { at: start.at })
                } else if end.value - 1 >= size as u128 {
                    Err(LayoutError::RangeBounds { at: end.at })
                } else {
                    Ok(Bits::Range(start.value as usize, (end.value - 1) as usize))
                }
            },
            UCBits::Single(position) => {
                if position.value >= size as u128 {
                    Err(LayoutError::RangeBounds { at: position.at })
                } else {
                    Ok(Bits::Single(position.value as usize))
                }
            },
        }
    }
}

impl FieldDef {
    /// The value that the field has in a new word: its default, or 0.
    pub open spec fn initial(self) -> u128 {
        match self.default {
            Some(literal) => literal.value,
            None => 0,
        }
    }

    /// What validation makes of the field in a word of `size` bits: its bits
    /// in normal form and its initial value moved to its lowest bit, or the
    /// reason it is refused. The bits are checked first; a default is refused
    /// when it needs more bits than the field has.
    pub open spec fn constrained(self, size: usize) -> Result<(Bits, u128), LayoutError> {
        match self.bits.normalized(size) {
            Err(e) => Err(e),
            Ok(bits) => match self.default {
                Some(literal) if bit_length(literal.value) > bits.len() => Err(
                    LayoutError::DefaultOverflow { at: literal.at },
                ),
                _ => Ok((bits, self.initial() << (bits.bottom() as u32))),
            },
        }
    }

    /// A copy of the declaration.
    pub fn duplicate(&self) -> (copy: FieldDef)
        ensures
            copy == *self,
    {
        FieldDef { name: self.name.clone(), at: self.at, bits: self.bits, default: self.default }
    }

    /// Validates the field for a word of `size` bits. On success it returns
    /// the validated field, the names of its accessors, and its initial value
    /// moved to its place in the word.
    pub fn constrain(self, size: usize) -> (out: Result<(Modifier, Field, u128), LayoutError>)
        requires
            size <= 128,
        ensures
            match out {
                Ok((modifier, names, default)) => {
                    &&& self.constrained(size) == Ok::<(Bits, u128), LayoutError>(
                        (modifier.bits, default),
                    )
                    &&& modifier.field == self.name
                    &&& modifier.writer@ == uppercase(self.name@) + "_W"@
                    &&& modifier.reader@ == uppercase(self.name@) + "_R"@
                    &&& names.named_after(self.name@)
                    &&& modifier.bits.normal()
                    &&& modifier.bits.within(size)
                    &&& default <= low_mask(size as u32)
                },
                Err(e) => self.constrained(size) == Err::<(Bits, u128), LayoutError>(e),
            },
    {
        let bits = match self.bits.normalize(size) {
            Ok(bits) => bits,
            Err(e) => {
                return Err(e);
            },
        };
        let initial = match self.default {
            Some(literal) => {
                if bit_len(literal.value) as usize > bits.width() {
                    return Err(LayoutError::DefaultOverflow { at: literal.at });
                }
                literal.value
            },
            None => 0,
        };
        let names = Field::of(self.name.as_str());
        let start = bits.start() as u32;
        proof {
            lemma_shifted_fits(initial, start, bits.len() as u32, size as u32);
        }
        let modifier = Modifier {
            field: self.name,
            writer: names.writer_s.clone(),
            reader: names.reader_s.clone(),
            bits,
        };
        Ok((modifier, names, initial << start))
    }
}

} // verus!
