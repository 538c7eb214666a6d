//! The validated layout and what holds of it.

use crate::accessor::Reader;
use crate::accessor::Writer;
use crate::bits::Bits;
use crate::field::FieldDef;
use crate::field::Modifier;
use crate::layout::aggregate;
use crate::layout::Description;
use crate::mask::lemma_extract_other;
use crate::mask::lemma_extract_spliced;
use crate::mask::low_mask;
use crate::names::Field;
use crate::width::Width;
use crate::word::Word;
use vstd::prelude::*;

verus! {

/// A validated layout: every field lies in the word, no two fields share a
/// bit or a name, and the default fits the word. It is made by validation
/// alone and does not change.
#[derive(Debug, PartialEq, Eq)]
pub struct BitFieldSpec {
    name: String,
    width: Width,
    modifiers: Vec<Modifier>,
    fields: Vec<Field>,
    default: u128,
}

/// What a validated layout holds: the view of a [`BitFieldSpec`], with
/// sequences in place of the vectors.
pub struct Layout {
    /// The name of the layout.
    pub name: String,
    /// The width of the backing word.
    pub width: Width,
    /// The validated fields, in the order of their bits.
    pub modifiers: Seq<Modifier>,
    /// The names of the fields' accessors, in the order of declaration.
    pub fields: Seq<Field>,
    /// The value of a new word.
    pub default: u128,
}

impl View for BitFieldSpec {
    type V = Layout;

    closed spec fn view(&self) -> Layout {
        Layout {
            name: self.name,
            width: self.width,
            modifiers: self.modifiers@,
            fields: self.fields@,
            default: self.default,
        }
    }
}

/// Whether one of `modifiers` is the validated form of `field`.
pub open spec fn has_modifier(modifiers: Seq<Modifier>, field: FieldDef, size: usize) -> bool {
    exists|k: int| 0 <= k < modifiers.len() && (#[trigger] modifiers[k]).stands_for(field, size)
}

/// Whether `modifier` is the validated form of one of `fields`.
pub open spec fn has_field(fields: Seq<FieldDef>, modifier: Modifier, size: usize) -> bool {
    exists|i: int| 0 <= i < fields.len() && modifier.stands_for(#[trigger] fields[i], size)
}

impl Layout {
    /// The invariant of a validated layout.
    pub open spec fn wf(self) -> bool {
        &&& self.fields.len() == self.modifiers.len()
        &&& forall|k: int|
            0 <= k < self.modifiers.len() ==> (#[trigger] self.modifiers[k]).bits.normal()
                && self.modifiers[k].bits.within(self.width.bits())
        &&& forall|a: int, b: int|
            0 <= a < b < self.modifiers.len() ==> (#[trigger] self.modifiers[a]).bits.top() < (
            #[trigger] self.modifiers[b]).bits.bottom()
        &&& forall|a: int, b: int|
            0 <= a < b < self.modifiers.len() ==> (#[trigger] self.modifiers[a]).field@ != (
            #[trigger] self.modifiers[b]).field@
        &&& self.default <= self.width.max_value()
    }

    /// Whether this is the layout that `def` describes: name and width are
    /// those declared, each declared field has its accessor names and its
    /// validated form, there is no validated field but these, and the default
    /// is the union of the fields' initial values, each moved to its field's
    /// lowest bit.
    pub open spec fn describes(self, def: Description) -> bool {
        &&& self.name == def.name
        &&& def.width() == Some(self.width)
        &&& self.modifiers.len() == def.fields.len()
        &&& self.fields.len() == def.fields.len()
        &&& forall|i: int|
            0 <= i < def.fields.len() ==> (#[trigger] self.fields[i]).named_after(
                def.fields[i].name@,
            )
        &&& forall|i: int|
            0 <= i < def.fields.len() ==> #[trigger] has_modifier(
                self.modifiers,
                def.fields[i],
                self.width.bits(),
            )
        &&& forall|k: int|
            0 <= k < self.modifiers.len() ==> #[trigger] has_field(
                def.fields,
                self.modifiers[k],
                self.width.bits(),
            )
        &&& self.default == aggregate(def.fields, self.width.bits(), def.fields.len() as int)
    }
}

impl BitFieldSpec {
    #[verifier::type_invariant]
    closed spec fn valid(self) -> bool {
        self@.wf()
    }

    /// Puts the parts of a validated layout together.
    pub(crate) fn assemble(
        name: String,
        width: Width,
        modifiers: Vec<Modifier>,
        fields: Vec<Field>,
        default: u128,
    ) -> (layout: BitFieldSpec)
        requires
            (Layout { name, width, modifiers: modifiers@, fields: fields@, default }).wf(),
        ensures
            layout@ == (Layout { name, width, modifiers: modifiers@, fields: fields@, default }),
    {
        BitFieldSpec { name, width, modifiers, fields, default }
    }

    /// The name of the layout.
    pub fn name(&self) -> (name: &String)
        ensures
            *name == self@.name,
    {
        &self.name
    }

    /// The width of the backing word.
    pub fn width(&self) -> (width: Width)
        ensures
            width == self@.width,
    {
        self.width
    }

    /// The validated fields, in the order of their bits.
    pub fn modifiers(&self) -> (modifiers: &Vec<Modifier>)
        ensures
            modifiers@ == self@.modifiers,
            self@.wf(),
    {
        proof {
            use_type_invariant(self);
        }
        &self.modifiers
    }

    /// The names of the fields' accessors, in the order of declaration.
    pub fn fields(&self) -> (fields: &Vec<Field>)
        ensures
            fields@ == self@.fields,
    {
        &self.fields
    }

    /// The value of a new word: the union of the fields' initial values, each
    /// at its field's place.
    pub fn default_value(&self) -> (default: u128)
        ensures
            default == self@.default,
            default <= self@.width.max_value(),
    {
        proof {
            use_type_invariant(self);
        }
        self.default
    }

    /// A new word of the layout: it holds the default.
    pub fn default_word(&self) -> (word: Word)
        ensures
            word.value() == self@.default,
            word.width() == self@.width,
    {
        proof {
            use_type_invariant(self);
        }
        Word::wrap(self.width, self.default)
    }

    /// Wraps an integer of the layout's width as a word of the layout. No bit
    /// pattern of that width is refused.
    pub fn wrap(&self, raw: u128) -> (word: Word)
        requires
            raw <= self@.width.max_value(),
        ensures
            word.value() == raw,
            word.width() == self@.width,
    {
        Word::wrap(self.width, raw)
    }

    /// Finds the field called `name` among the validated fields. No two of
    /// them have the same name.
    pub fn find(&self, name: &str) -> (found: Option<usize>)
        ensures
            match found {
                Some(k) => k < self@.modifiers.len() && self@.modifiers[k as int].field@ == name@,
                None => forall|a: int|
                    0 <= a < self@.modifiers.len() ==> (#[trigger] self@.modifiers[a]).field@
                        != name@,
            },
    {
        let wanted = String::from_str(name);
        let mut k: usize = 0;
        while k < self.modifiers.len()
            invariant
                k <= self.modifiers@.len(),
                self.modifiers@ == self@.modifiers,
                wanted@ == name@,
                forall|a: int| 0 <= a < k ==> (#[trigger] self@.modifiers[a]).field@ != name@,
            decreases self.modifiers@.len() - k,
        {
            if self.modifiers[k].field == wanted {
                return Some(k);
            }
            k = k + 1;
        }
        None
    }

    /// The writer of field `k`, counted in the order of the fields' bits.
    pub fn writer(&self, k: usize) -> (writer: Writer)
        requires
            k < self@.modifiers.len(),
        ensures
            writer.bound_to(self@.modifiers[k as int].bits, self@.width),
    {
        proof {
            use_type_invariant(self);
        }
        Writer::bind(&self.modifiers[k].bits, self.width)
    }

    /// The reader of field `k`, counted in the order of the fields' bits.
    pub fn reader(&self, k: usize) -> (reader: Reader)
        requires
            k < self@.modifiers.len(),
        ensures
            reader.bound_to(self@.modifiers[k as int].bits, self@.width),
    {
        proof {
            use_type_invariant(self);
        }
        Reader::bind(&self.modifiers[k].bits, self.width)
    }
}

/// No two fields of a validated layout have a bit in common.
pub proof fn lemma_fields_disjoint(layout: Layout, a: int, b: int)
    requires
        layout.wf(),
        0 <= a < layout.modifiers.len(),
        0 <= b < layout.modifiers.len(),
        a != b,
    ensures
        layout.modifiers[a].bits.disjoint(layout.modifiers[b].bits),
{
    if a < b {
        assert(layout.modifiers[a].bits.top() < layout.modifiers[b].bits.bottom());
    } else {
        assert(layout.modifiers[b].bits.top() < layout.modifiers[a].bits.bottom());
    }
}

/// In a word of a validated layout, a field that has been written reads as
/// the value that was written, cut to the length of the field.
pub proof fn lemma_field_round_trip(layout: Layout, a: int, word: u128, value: u128)
    requires
        layout.wf(),
        0 <= a < layout.modifiers.len(),
    ensures
        layout.modifiers[a].bits.read(layout.modifiers[a].bits.written(word, value)) == value
            & low_mask(layout.modifiers[a].bits.len() as u32),
{
    let bits = layout.modifiers[a].bits;
    lemma_extract_spliced(word, bits.bottom() as u32, bits.len() as u32, value);
}

/// In a word of a validated layout, writing one field leaves what every
/// other field holds as it was.
pub proof fn lemma_field_untouched(
    layout: Layout,
    a: int,
    b: int,
    word: u128,
    value: u128,
)
    requires
        layout.wf(),
        0 <= a < layout.modifiers.len(),
        0 <= b < layout.modifiers.len(),
        a != b,
    ensures
        layout.modifiers[b].bits.read(layout.modifiers[a].bits.written(word, value))
            == layout.modifiers[b].bits.read(word),
{
    let written = layout.modifiers[a].bits;
    let other = layout.modifiers[b].bits;
    lemma_fields_disjoint(layout, a, b);
    lemma_extract_other(
        word,
        written.bottom() as u32,
        written.len() as u32,
        value,
        other.bottom() as u32,
        other.len() as u32,
    );
}

} // verus!
