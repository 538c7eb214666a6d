//! The identifiers that are derived from a field's name.

use vstd::prelude::*;

verus! {

/// The upper-case form of a text, as `str::to_uppercase` gives it.
pub uninterp spec fn uppercase(text: Seq<char>) -> Seq<char>;

/// The lower-case form of a text, as `str::to_lowercase` gives it.
pub uninterp spec fn lowercase(text: Seq<char>) -> Seq<char>;

/// `str::to_uppercase` returns the upper-case form of the text by the case
/// mapping of Unicode, which the text alone decides. Not proved.
pub assume_specification[ str::to_uppercase ](text: &str) -> (upper: String)
    ensures
        upper@ == uppercase(text@),
;

/// `str::to_lowercase` returns the lower-case form of the text by the case
/// mapping of Unicode, which the text alone decides. Not proved.
pub assume_specification[ str::to_lowercase ](text: &str) -> (lower: String)
    ensures
        lower@ == lowercase(text@),
;

/// The names under which a field's accessors are reached.
#[derive(Clone, Debug, PartialEq, Eq)]
pub struct Field {
    /// The function that hands out the field's writer.
    pub writer: String,
    /// The type of the field's writer.
    pub writer_s: String,
    /// The function that hands out the field's reader.
    pub reader: String,
    /// The type of the field's reader.
    pub reader_s: String,
}

impl Field {
    /// Whether the names are those of a field whose name has the upper-case
    /// form `upper` and the lower-case form `lower`.
    pub open spec fn made_of(self, upper: Seq<char>, lower: Seq<char>) -> bool {
        &&& self.writer@ == "w_"@ + lower
        &&& self.writer_s@ == upper + "_W"@
        &&& self.reader@ == "r_"@ + lower
        &&& self.reader_s@ == upper + "_R"@
    }

    /// Whether the names are those of the field called `name`.
    pub open spec fn named_after(self, name: Seq<char>) -> bool {
        self.made_of(uppercase(name), lowercase(name))
    }

    /// Builds the names from the two case forms of a field's name.
    pub fn derive(upper: &str, lower: &str) -> (names: Field)
        ensures
            names.made_of(upper@, lower@),
    {
        Field {
            writer: String::from_str("w_").concat(lower),
            writer_s: String::from_str(upper).concat("_W"),
            reader: String::from_str("r_").concat(lower),
            reader_s: String::from_str(upper).concat("_R"),
        }
    }

    /// Builds the names of the field called `name`.
    pub fn of(name: &str) -> (names: Field)
        ensures
            names.named_after(name@),
    {
        let upper = name.to_uppercase();
        let lower = name.to_lowercase();
        Field::derive(upper.as_str(), lower.as_str())
    }
}

} // verus!
