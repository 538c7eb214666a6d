//! The layout of a word: the declared description, its validation, and the
//! validated layout.

use crate::bits::Bits;
use crate::error::LayoutError;
use crate::field::FieldDef;
use crate::field::Lit;
use crate::field::Modifier;
use crate::mask::extracted;
use crate::mask::lemma_extract_from_union;
use crate::mask::lemma_shifted_apart;
use crate::mask::lemma_shifted_fits;
use crate::mask::lemma_union_within;
use crate::mask::low_mask;
use crate::names::uppercase;
use crate::names::Field;
use crate::order::arranged;
use crate::order::before;
use crate::order::clash;
use crate::order::clear_of_next;
use crate::order::first_clash;
use crate::order::lemma_first_clash;
use crate::order::lemma_first_clash_unique;
use crate::order::sort_fields;
use crate::order::lemma_no_clash;
use crate::order::listed;
use crate::order::pairwise_disjoint;
use crate::validated::has_field;
use crate::validated::has_modifier;
use crate::validated::BitFieldSpec;
use crate::validated::Layout;
use crate::width::Width;
use vstd::hash_map::StringHashMap;
use vstd::prelude::*;

verus! {

/// A layout as it is declared: a name, an optional size and the fields in the
/// order of their declaration.
#[derive(Clone, Debug, PartialEq, Eq)]
pub struct BitFieldDef {
    /// The name of the layout.
    pub name: String,
    /// The declared size of the word, if there is one.
    pub size: Option<Lit>,
    /// The declared fields.
    pub fields: Vec<FieldDef>,
}

/// What a declared layout says: the view of a [`BitFieldDef`], with a
/// sequence in place of the vector.
pub struct Description {
    /// The name of the layout.
    pub name: String,
    /// The declared size of the word, if there is one.
    pub size: Option<Lit>,
    /// The declared fields.
    pub fields: Seq<FieldDef>,
}

impl View for BitFieldDef {
    type V = Description;

    open spec fn view(&self) -> Description {
        Description { name: self.name, size: self.size, fields: self.fields@ }
    }
}

/// The index of the first field from `from` up to, not including, `to` that
/// is called `name`.
pub open spec fn first_named(fields: Seq<FieldDef>, name: Seq<char>, from: int, to: int) -> Option<
    int,
>
    decreases to - from,
{
    if from >= to {
        None
    } else if fields[from].name@ == name {
        Some(from)
    } else {
        first_named(fields, name, from + 1, to)
    }
}

/// What is wrong with field `i` of a word of `size` bits, given the fields
/// declared before it: its bits, then its name where an earlier field has
/// it, then its default.
pub open spec fn field_fault(fields: Seq<FieldDef>, i: int, size: usize) -> Option<LayoutError> {
    match fields[i].bits.normalized(size) {
        Err(e) => Some(e),
        Ok(_) => match first_named(fields, fields[i].name@, 0, i) {
            Some(j) => Some(LayoutError::DuplicateField { at: fields[i].at, first: fields[j].at }),
            None => match fields[i].constrained(size) {
                Err(e) => Some(e),
                Ok(_) => None,
            },
        },
    }
}

/// The first thing wrong with a field from `from` on, in the order of
/// declaration.
pub open spec fn first_fault(fields: Seq<FieldDef>, size: usize, from: int) -> Option<LayoutError>
    decreases fields.len() - from,
{
    if from >= fields.len() || from < 0 {
        None
    } else {
        match field_fault(fields, from, size) {
            Some(e) => Some(e),
            None => first_fault(fields, size, from + 1),
        }
    }
}

/// The bits of field `i` in normal form.
pub open spec fn span(fields: Seq<FieldDef>, size: usize, i: int) -> Bits {
    fields[i].bits.normalized(size)->Ok_0
}

/// The initial value of field `i`, moved to its place in the word.
pub open spec fn placed_default(fields: Seq<FieldDef>, size: usize, i: int) -> u128 {
    fields[i].initial() << (span(fields, size, i).bottom() as u32)
}

/// The union of the placed initial values of the first `n` fields.
pub open spec fn aggregate(fields: Seq<FieldDef>, size: usize, n: int) -> u128
    decreases n,
{
    if n <= 0 {
        0
    } else {
        aggregate(fields, size, n - 1) | placed_default(fields, size, n - 1)
    }
}

impl Description {
    /// The declared size, if there is one.
    pub open spec fn declared(self) -> Option<u128> {
        match self.size {
            Some(literal) => Some(literal.value),
            None => None,
        }
    }

    /// The width of the word, if the declared size is one.
    pub open spec fn width(self) -> Option<Width> {
        Width::resolved(self.declared())
    }

    /// The number of bits of the word.
    pub open spec fn size_bits(self) -> usize {
        self.width()->Some_0.bits()
    }

    /// The bits of the fields in normal form, in the order of declaration.
    pub open spec fn spans(self) -> Seq<Bits> {
        Seq::new(self.fields.len(), |i: int| span(self.fields, self.size_bits(), i))
    }

    /// Whether the layout is valid: its size is a width, no field is at
    /// fault, and no two fields have a bit in common.
    pub open spec fn accepted(self) -> bool {
        &&& self.width() is Some
        &&& first_fault(self.fields, self.size_bits(), 0) is None
        &&& pairwise_disjoint(self.spans())
    }

    /// Whether `e` is the error of the layout: that of its size; else the
    /// first fault of a field; else the first clash of two fields that are
    /// neighbours in the order of their bits, reported at the upper one.
    pub open spec fn refused_with(self, e: LayoutError) -> bool {
        match self.width() {
            None => e == LayoutError::Size { at: self.size->Some_0.at },
            Some(width) => match first_fault(self.fields, width.bits(), 0) {
                Some(fault) => e == fault,
                None => exists|p: int, q: int|
                    first_clash(self.spans(), p, q) && e == LayoutError::Overlap {
                        at: self.fields[q].at,
                        with: self.fields[p].at,
                    },
            },
        }
    }
}

/// No field before `to` is called `name` where [`first_named`] finds none.
pub proof fn lemma_none_named(fields: Seq<FieldDef>, name: Seq<char>, from: int, to: int, j: int)
    requires
        first_named(fields, name, from, to) is None,
        from <= j < to,
    ensures
        fields[j].name@ != name,
    decreases to - from,
{
    if from < j {
        lemma_none_named(fields, name, from + 1, to, j);
    }
}

/// [`first_named`] finds the field called `name` that has no field of that
/// name before it.
pub proof fn lemma_first_named(fields: Seq<FieldDef>, name: Seq<char>, from: int, to: int, j: int)
    requires
        0 <= from <= j < to,
        fields[j].name@ == name,
        forall|k: int| from <= k < j ==> (#[trigger] fields[k]).name@ != name,
    ensures
        first_named(fields, name, from, to) == Some(j),
    decreases j - from,
{
    if from < j {
        lemma_first_named(fields, name, from + 1, to, j);
    }
}

/// [`first_named`] finds nothing where no field is called `name`.
pub proof fn lemma_unnamed(fields: Seq<FieldDef>, name: Seq<char>, from: int, to: int)
    requires
        0 <= from,
        forall|k: int| from <= k < to ==> (#[trigger] fields[k]).name@ != name,
    ensures
        first_named(fields, name, from, to) is None,
    decreases to - from,
{
    if from < to {
        lemma_unnamed(fields, name, from + 1, to);
    }
}

/// Two fields of which the later one is not at fault have different names.
pub proof fn lemma_names_differ(fields: Seq<FieldDef>, size: usize, x: int, y: int)
    requires
        0 <= x < y < fields.len(),
        field_fault(fields, y, size) is None,
    ensures
        fields[x].name@ != fields[y].name@,
{
    lemma_none_named(fields, fields[y].name@, 0, y, x);
}

/// Whether `seen` holds the names of the first `n` fields, each with the
/// index of the first field that has it.
spec fn names_seen(seen: Map<Seq<char>, usize>, fields: Seq<FieldDef>, n: int) -> bool {
    &&& forall|k: int|
        0 <= k < n ==> seen.contains_key((#[trigger] fields[k]).name@) && seen[fields[k].name@]
            <= k
    &&& forall|name: Seq<char>| #[trigger]
        seen.contains_key(name) ==> seen[name] < n && fields[seen[name] as int].name@ == name
}

/// The names that have been seen stay in step when a field that is not at
/// fault is added.
proof fn lemma_name_seen(seen: Map<Seq<char>, usize>, fields: Seq<FieldDef>, i: usize, size: usize)
    requires
        names_seen(seen, fields, i as int),
        i < fields.len(),
        field_fault(fields, i as int, size) is None,
    ensures
        names_seen(seen.insert(fields[i as int].name@, i), fields, i + 1),
{
    let added = fields[i as int].name@;
    let next = seen.insert(added, i);
    assert forall|k: int| 0 <= k < i + 1 implies next.contains_key((#[trigger] fields[k]).name@)
        && next[fields[k].name@] <= k by {
        if k < i {
            lemma_names_differ(fields, size, k, i as int);
        }
    }
    assert forall|name: Seq<char>| #[trigger] next.contains_key(name) implies next[name] < i + 1
        && fields[next[name] as int].name@ == name by {
        if name != added {
            assert(seen.contains_key(name));
        }
    }
}

/// Whether `modifiers` and `names` are the validated forms and the accessor
/// names of the first `n` declared fields, none of which is at fault.
spec fn validated_upto(
    def: Description,
    width: Width,
    modifiers: Seq<Modifier>,
    names: Seq<Field>,
    n: int,
) -> bool {
    &&& def.width() == Some(width)
    &&& 0 <= n <= def.fields.len()
    &&& modifiers.len() == n
    &&& forall|k: int|
        0 <= k < n ==> (#[trigger] modifiers[k]).stands_for(def.fields[k], width.bits())
            && modifiers[k].bits.normal() && modifiers[k].bits.within(width.bits())
    &&& names.len() == n
    &&& forall|k: int| 0 <= k < n ==> (#[trigger] names[k]).named_after(def.fields[k].name@)
    &&& forall|k: int| 0 <= k < n ==> #[trigger] field_fault(def.fields, k, width.bits()) is None
    &&& first_fault(def.fields, width.bits(), 0) == first_fault(def.fields, width.bits(), n)
}

/// Where every field has been validated and, in the order of the bits, no
/// field starts at or below the highest bit of the field before it, the
/// layout is valid, and the validated fields in that order, with the accessor
/// names and the default, make the layout that was declared.
proof fn lemma_valid_layout(
    def: Description,
    width: Width,
    checked: Seq<Modifier>,
    order: Seq<usize>,
    modifiers: Seq<Modifier>,
    names: Seq<Field>,
    default: u128,
)
    requires
        validated_upto(def, width, checked, names, def.fields.len() as int),
        arranged(order, def.spans(), def.fields.len() as int),
        modifiers.len() == order.len(),
        forall|a: int| 0 <= a < order.len() ==> #[trigger] modifiers[a] == checked[order[a] as int],
        forall|a: int| 0 <= a < order.len() - 1 ==> #[trigger] clear_of_next(order, def.spans(), a),
        default == aggregate(def.fields, width.bits(), def.fields.len() as int),
        default <= low_mask(width.bits() as u32),
    ensures
        def.accepted(),
        (Layout { name: def.name, width, modifiers, fields: names, default }).describes(def),
        (Layout { name: def.name, width, modifiers, fields: names, default }).wf(),
{
    let spans = def.spans();
    let size = width.bits();
    assert forall|r: int| 0 <= r < spans.len() implies (#[trigger] spans[r]).bottom()
        <= spans[r].top() by {
        assert(checked[r].bits.normal());
    }
    lemma_no_clash(order, spans);
    assert forall|k: int| 0 <= k < modifiers.len() implies (#[trigger] modifiers[k]).bits.normal()
        && modifiers[k].bits.within(size) by {
        assert(checked[order[k] as int].bits.normal());
    }
    assert forall|a: int, b: int| 0 <= a < b < modifiers.len() implies (
    #[trigger] modifiers[a]).bits.top() < (#[trigger] modifiers[b]).bits.bottom() by {
        assert(checked[order[a] as int].stands_for(def.fields[order[a] as int], size));
        assert(checked[order[b] as int].stands_for(def.fields[order[b] as int], size));
        assert(spans[order[a] as int].top() < spans[order[b] as int].bottom());
    }
    assert forall|a: int, b: int| 0 <= a < b < modifiers.len() implies (
    #[trigger] modifiers[a]).field@ != (#[trigger] modifiers[b]).field@ by {
        let x = order[a] as int;
        let y = order[b] as int;
        assert(before(spans, x, y));
        assert(checked[x].stands_for(def.fields[x], size));
        assert(checked[y].stands_for(def.fields[y], size));
        if x < y {
            lemma_names_differ(def.fields, size, x, y);
        } else {
            lemma_names_differ(def.fields, size, y, x);
        }
    }
    assert forall|r: int| 0 <= r < def.fields.len() implies #[trigger] has_modifier(
        modifiers,
        def.fields[r],
        size,
    ) by {
        assert(listed(order, r));
        let a = choose|a: int| 0 <= a < order.len() && order[a] == r;
        assert(modifiers[a] == checked[r]);
        assert(modifiers[a].stands_for(def.fields[r], size));
    }
    assert forall|k: int| 0 <= k < modifiers.len() implies #[trigger] has_field(
        def.fields,
        modifiers[k],
        size,
    ) by {
        assert(checked[order[k] as int].stands_for(def.fields[order[k] as int], size));
    }
}

/// Validates field `i` against the word and the fields declared before it,
/// whose names are in `seen`.
fn check_field(fields: &Vec<FieldDef>, i: usize, size: usize, seen: &StringHashMap<usize>) -> (out:
    Result<(Modifier, Field, u128), LayoutError>)
    requires
        i < fields.len(),
        size <= 128,
        names_seen(seen@, fields@, i as int),
    ensures
        match out {
            Ok((modifier, names, default)) => {
                &&& field_fault(fields@, i as int, size) is None
                &&& modifier.stands_for(fields@[i as int], size)
                &&& modifier.bits == span(fields@, size, i as int)
                &&& modifier.bits.normal()
                &&& modifier.bits.within(size)
                &&& names.named_after(fields@[i as int].name@)
                &&& default == placed_default(fields@, size, i as int)
                &&& default <= low_mask(size as u32)
            },
            Err(e) => field_fault(fields@, i as int, size) == Some(e),
        },
{
    match fields[i].bits.normalize(size) {
        Err(e) => {
            return Err(e);
        },
        Ok(_) => {},
    }
    match seen.get(fields[i].name.as_str()) {
        Some(earlier) => {
            let j = *earlier;
            proof {
                assert forall|k: int| 0 <= k < j implies (#[trigger] fields@[k]).name@
                    != fields@[i as int].name@ by {
                    if fields@[k].name@ == fields@[i as int].name@ {
                        assert(seen@[fields@[k].name@] <= k);
                    }
                }
                lemma_first_named(fields@, fields@[i as int].name@, 0, i as int, j as int);
            }
            return Err(LayoutError::DuplicateField { at: fields[i].at, first: fields[j].at });
        },
        None => {
            proof {
                lemma_unnamed(fields@, fields@[i as int].name@, 0, i as int);
            }
        },
    }
    fields[i].duplicate().constrain(size)
}

/// Finds the first field, in the order of the bits, that starts at or below
/// the highest bit of the field before it.
fn find_clash(spans: &Vec<Bits>, order: &Vec<usize>) -> (found: Option<usize>)
    requires
        arranged(order@, spans@, spans.len() as int),
    ensures
        match found {
            Some(k) => {
                &&& k + 1 < order@.len()
                &&& !clear_of_next(order@, spans@, k as int)
                &&& forall|a: int| 0 <= a < k ==> #[trigger] clear_of_next(order@, spans@, a)
            },
            None => forall|a: int|
                0 <= a < order@.len() - 1 ==> #[trigger] clear_of_next(order@, spans@, a),
        },
{
    if order.len() == 0 {
        return None;
    }
    let last = order.len() - 1;
    let mut k: usize = 0;
    while k < last
        invariant
            arranged(order@, spans@, spans.len() as int),
            last == order@.len() - 1,
            k <= last,
            forall|a: int| 0 <= a < k ==> #[trigger] clear_of_next(order@, spans@, a),
        decreases last - k,
    {
        if spans[order[k]].end() >= spans[order[k + 1]].start() {
            return Some(k);
        }
        k = k + 1;
    }
    None
}

/// Puts the validated fields in the order `order`.
fn arrange(checked: &Vec<Modifier>, order: &Vec<usize>) -> (modifiers: Vec<Modifier>)
    requires
        forall|a: int| 0 <= a < order@.len() ==> #[trigger] order@[a] < checked@.len(),
    ensures
        modifiers@.len() == order@.len(),
        forall|a: int|
            0 <= a < order@.len() ==> #[trigger] modifiers@[a] == checked@[order@[a] as int],
{
    let mut modifiers: Vec<Modifier> = Vec::new();
    let mut k: usize = 0;
    while k < order.len()
        invariant
            k <= order@.len(),
            modifiers@.len() == k,
            forall|a: int| 0 <= a < order@.len() ==> #[trigger] order@[a] < checked@.len(),
            forall|a: int| 0 <= a < k ==> #[trigger] modifiers@[a] == checked@[order@[a] as int],
        decreases order@.len() - k,
    {
        modifiers.push(checked[order[k]].duplicate());
        k = k + 1;
    }
    modifiers
}

impl BitFieldDef {
    /// Validates the layout. The size is resolved first. Then the fields are
    /// checked in the order of their declaration, each for its bits, its name
    /// and its default. Last, the fields are put in the order of their bits
    /// and each is held against the one before it.
    pub fn validate(self) -> (out: Result<BitFieldSpec, LayoutError>)
        ensures
            match out {
                Ok(layout) => self@.accepted() && layout@.describes(self@) && layout@.wf(),
                Err(e) => self@.refused_with(e),
            },
    {
        let width = match self.size {
            Some(literal) => match Width::resolve(Some(literal.value)) {
                Some(width) => width,
                None => {
                    return Err(LayoutError::Size { at: literal.at });
                },
            },
            None => Width::resolve(None).unwrap(),
        };
        let size = width.size();
        let n = self.fields.len();
        let mut seen: StringHashMap<usize> = StringHashMap::new();
        let mut checked: Vec<Modifier> = Vec::new();
        let mut spans: Vec<Bits> = Vec::new();
        let mut fields: Vec<Field> = Vec::new();
        let mut default: u128 = 0;
        let mut i: usize = 0;
        while i < n
            invariant
                n == self.fields@.len(),
                size == width.bits(),
                i <= n,
                validated_upto(self@, width, checked@, fields@, i as int),
                names_seen(seen@, self.fields@, i as int),
                spans@.len() == i,
                forall|k: int| 0 <= k < i ==> #[trigger] spans@[k] == span(self.fields@, size, k),
                default == aggregate(self.fields@, size, i as int),
                default <= low_mask(size as u32),
            decreases n - i,
        {
            match check_field(&self.fields, i, size, &seen) {
                Err(e) => {
                    return Err(e);
                },
                Ok((modifier, names, placed)) => {
                    proof {
                        lemma_union_within(default, placed, size as u32);
                        lemma_name_seen(seen@, self.fields@, i, size);
                    }
                    seen.insert(self.fields[i].name.clone(), i);
                    spans.push(modifier.bits);
                    checked.push(modifier);
                    fields.push(names);
                    default = default | placed;
                },
            }
            i = i + 1;
        }
        proof {
            assert(spans@ =~= self@.spans());
        }
        let order = sort_fields(&spans);
        match find_clash(&spans, &order) {
            Some(k) => {
                let lower = order[k];
                let upper = order[k + 1];
                proof {
                    lemma_first_clash(order@, spans@, k as int);
                }
                Err(LayoutError::Overlap { at: self.fields[upper].at, with: self.fields[lower].at })
            },
            None => {
                let modifiers = arrange(&checked, &order);
                proof {
                    lemma_valid_layout(
                        self@,
                        width,
                        checked@,
                        order@,
                        modifiers@,
                        fields@,
                        default,
                    );
                }
                Ok(BitFieldSpec::assemble(self.name, width, modifiers, fields, default))
            },
        }
    }
}

/// A field that is not at fault has bits in normal form that lie in the word.
pub proof fn lemma_sound_span(fields: Seq<FieldDef>, size: usize, i: int)
    requires
        0 <= i < fields.len(),
        field_fault(fields, i, size) is None,
    ensures
        span(fields, size, i).normal(),
        span(fields, size, i).within(size),
        span(fields, size, i).bottom() <= span(fields, size, i).top(),
{
}

/// Where no field from `from` on is at fault, field `i` is not.
pub proof fn lemma_no_fault(fields: Seq<FieldDef>, size: usize, from: int, i: int)
    requires
        0 <= from <= i < fields.len(),
        first_fault(fields, size, from) is None,
    ensures
        field_fault(fields, i, size) is None,
    decreases i - from,
{
    if from < i {
        lemma_no_fault(fields, size, from + 1, i);
    }
}

/// A layout is valid or has an error, not both, and it has one error at
/// most.
pub proof fn lemma_one_verdict(description: Description, e1: LayoutError, e2: LayoutError)
    ensures
        description.accepted() ==> !description.refused_with(e1),
        description.refused_with(e1) && description.refused_with(e2) ==> e1 == e2,
{
    let spans = description.spans();
    if description.refused_with(e1) && description.refused_with(e2) {
        if description.width() is Some && first_fault(
            description.fields,
            description.size_bits(),
            0,
        ) is None {
            let (p1, q1) = choose|p: int, q: int|
                first_clash(spans, p, q) && e1 == LayoutError::Overlap {
                    at: description.fields[q].at,
                    with: description.fields[p].at,
                };
            let (p2, q2) = choose|p: int, q: int|
                first_clash(spans, p, q) && e2 == LayoutError::Overlap {
                    at: description.fields[q].at,
                    with: description.fields[p].at,
                };
            lemma_first_clash_unique(spans, p1, q1, p2, q2);
        }
    }
    if description.accepted() && description.refused_with(e1) {
        let (p, q) = choose|p: int, q: int|
            first_clash(spans, p, q) && e1 == LayoutError::Overlap {
                at: description.fields[q].at,
                with: description.fields[p].at,
            };
        assert(clash(spans, p, q));
        lemma_no_fault(description.fields, description.size_bits(), 0, q);
        lemma_sound_span(description.fields, description.size_bits(), q);
        assert(spans[p].disjoint(spans[q]));
    }
}

/// In the union of the placed initial values of the first `n` fields, field
/// `i` holds its initial value if it is one of them, and nothing otherwise.
proof fn lemma_aggregate_reads(description: Description, n: int, i: int)
    requires
        description.accepted(),
        0 <= i < description.fields.len(),
        0 <= n <= description.fields.len(),
    ensures
        description.spans()[i].read(
            aggregate(description.fields, description.size_bits(), n),
        ) == (if i < n {
            description.fields[i].initial()
        } else {
            0
        }),
    decreases n,
{
    let fields = description.fields;
    let size = description.size_bits();
    let spans = description.spans();
    let own = spans[i];
    lemma_no_fault(fields, size, 0, i);
    lemma_sound_span(fields, size, i);
    let start = own.bottom() as u32;
    let len = own.len() as u32;
    if n == 0 {
        assert(extracted(0, start, len) == 0) by (bit_vector);
    } else {
        let j = n - 1;
        lemma_aggregate_reads(description, j, i);
        lemma_no_fault(fields, size, 0, j);
        lemma_sound_span(fields, size, j);
        let other = spans[j];
        let value = fields[j].initial();
        lemma_extract_from_union(
            aggregate(fields, size, j),
            placed_default(fields, size, j),
            start,
            len,
        );
        if j == i {
            lemma_shifted_fits(value, start, len, size as u32);
        } else {
            assert(spans[j].disjoint(spans[i]));
            lemma_shifted_apart(value, other.bottom() as u32, other.len() as u32, start, len);
        }
    }
}

/// In a new word of a valid layout every field holds its initial value: its
/// default, or 0 where it has none.
pub proof fn lemma_default_reads_back(description: Description, layout: Layout, i: int)
    requires
        description.accepted(),
        layout.describes(description),
        0 <= i < description.fields.len(),
    ensures
        description.spans()[i].read(layout.default) == description.fields[i].initial(),
{
    lemma_aggregate_reads(description, description.fields.len() as int, i);
}

} // verus!
