//! What can be wrong with a layout description.
//!
//! A place in the input is the index of a token in the token sequence that
//! was handed in. An index equal to the length of the sequence stands for
//! the end of the input.

use vstd::prelude::*;

verus! {

/// The reason a layout description was refused, with the place of the token
/// that is responsible. Where two declarations conflict, the error carries
/// both places.
#[derive(Clone, Copy, Debug, PartialEq, Eq, Structural)]
pub enum LayoutError {
    /// The tokens do not have the shape of a layout description.
    Grammar { at: usize },
    /// The declared size is not 8, 16, 32, 64 or 128.
    Size { at: usize },
    /// A range whose start is not strictly below its end.
    RangeOrder { at: usize },
    /// A bit position or the end of a range that lies outside the word.
    RangeBounds { at: usize },
    /// A field name that an earlier field has already; `first` is the earlier
    /// declaration.
    DuplicateField { at: usize, first: usize },
    /// A field that shares a bit with the field declared at `with`.
    Overlap { at: usize, with: usize },
    /// A default that needs more bits than its field has.
    DefaultOverflow { at: usize },
}

impl LayoutError {
    /// The place of the token that the error is about.
    pub open spec fn place(self) -> usize {
        match self {
            LayoutError::Grammar { at } => at,
            LayoutError::Size { at } => at,
            LayoutError::RangeOrder { at } => at,
            LayoutError::RangeBounds { at } => at,
            LayoutError::DuplicateField { at, .. } => at,
            LayoutError::Overlap { at, .. } => at,
            LayoutError::DefaultOverflow { at } => at,
        }
    }

    /// The place of the other declaration, for an error about two of them.
    pub open spec fn other_place(self) -> Option<usize> {
        match self {
            LayoutError::DuplicateField { first, .. } => Some(first),
            LayoutError::Overlap { with, .. } => Some(with),
            _ => None,
        }
    }

    /// Computes [`LayoutError::place`].
    pub fn at(&self) -> (at: usize)
        ensures
            at == self.place(),
    {
        match self {
            LayoutError::Grammar { at } => *at,
            LayoutError::Size { at } => *at,
            LayoutError::RangeOrder { at } => *at,
            LayoutError::RangeBounds { at } => *at,
            LayoutError::DuplicateField { at, .. } => *at,
            LayoutError::Overlap { at, .. } => *at,
            LayoutError::DefaultOverflow { at } => *at,
        }
    }

    /// Computes [`LayoutError::other_place`].
    pub fn related(&self) -> (other: Option<usize>)
        ensures
            other == self.other_place(),
    {
        match self {
            LayoutError::DuplicateField { first, .. } => Some(*first),
            LayoutError::Overlap { with, .. } => Some(*with),
            _ => None,
        }
    }

    /// The text of the diagnostic.
    pub fn message(&self) -> (text: &'static str)
        ensures
            text@ == (match *self {
                LayoutError::Grammar { .. } => "Unexpected token"@,
                LayoutError::Size { .. } => "Expected a size of 8, 16, 32, 64 or 128"@,
                LayoutError::RangeOrder { .. } => "Start must be strictly less than end."@,
                LayoutError::RangeBounds { .. } => "End is out of bounds."@,
                LayoutError::DuplicateField { .. } => "Duplicate field name"@,
                LayoutError::Overlap { .. } => "Overlapping bit ranges"@,
                LayoutError::DefaultOverflow { .. } => "Default too large to fit in field"@,
            }),
    {
        match self {
            LayoutError::Grammar { .. } => "Unexpected token",
            LayoutError::Size { .. } => "Expected a size of 8, 16, 32, 64 or 128",
            LayoutError::RangeOrder { .. } => "Start must be strictly less than end.",
            LayoutError::RangeBounds { .. } => "End is out of bounds.",
            LayoutError::DuplicateField { .. } => "Duplicate field name",
            LayoutError::Overlap { .. } => "Overlapping bit ranges",
            LayoutError::DefaultOverflow { .. } => "Default too large to fit in field",
        }
    }

    /// The text that goes with the other declaration, for an error about two
    /// of them.
    pub fn related_message(&self) -> (text: Option<&'static str>)
        ensures
            match *self {
                LayoutError::DuplicateField { .. } => text matches Some(t) && t@
                    == "First declared here"@,
                LayoutError::Overlap { .. } => text matches Some(t) && t@ == "Collision here"@,
                _ => text is None,
            },
    {
        match self {
            LayoutError::DuplicateField { .. } => Some("First declared here"),
            LayoutError::Overlap { .. } => Some("Collision here"),
            _ => None,
        }
    }
}

} // verus!
