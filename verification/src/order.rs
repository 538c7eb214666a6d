//! The order of the fields by their bits, in which overlaps are looked for.
//!
//! Fields are compared by their lowest bits; of two fields with the same
//! lowest bit the one declared first comes first. In that order it is enough
//! to hold each field against the one before it: where no field starts at or
//! below the highest bit of the field before it, no two fields share a bit.

use crate::bits::Bits;
use vstd::prelude::*;

verus! {

/// Whether field `p` comes before field `q` when the fields are put in the
/// order of their lowest bits; of two fields with the same lowest bit the one
/// declared first comes first.
pub open spec fn before(spans: Seq<Bits>, p: int, q: int) -> bool {
    spans[p].bottom() < spans[q].bottom() || (spans[p].bottom() == spans[q].bottom() && p < q)
}

/// Whether field `q` follows field `p` directly in that order.
pub open spec fn next_to(spans: Seq<Bits>, p: int, q: int) -> bool {
    &&& 0 <= p < spans.len()
    &&& 0 <= q < spans.len()
    &&& before(spans, p, q)
    &&& forall|r: int|
        0 <= r < spans.len() ==> !(#[trigger] before(spans, p, r) && before(spans, r, q))
}

/// Whether field `q` follows field `p` directly and starts at or below the
/// highest bit of `p`.
pub open spec fn clash(spans: Seq<Bits>, p: int, q: int) -> bool {
    next_to(spans, p, q) && spans[p].top() >= spans[q].bottom()
}

/// Whether `p` and `q` are the first two neighbours in the order that clash.
pub open spec fn first_clash(spans: Seq<Bits>, p: int, q: int) -> bool {
    &&& clash(spans, p, q)
    &&& forall|r: int, t: int| #[trigger] clash(spans, r, t) ==> !before(spans, t, q)
}

/// Whether no two of the spans have a bit in common.
pub open spec fn pairwise_disjoint(spans: Seq<Bits>) -> bool {
    forall|i: int, j: int|
        0 <= i < spans.len() && 0 <= j < spans.len() && i != j ==> (#[trigger] spans[i]).disjoint(
            #[trigger] spans[j],
        )
}

/// Whether field `r` occurs in `order`.
pub open spec fn listed(order: Seq<usize>, r: int) -> bool {
    exists|a: int| 0 <= a < order.len() && #[trigger] order[a] == r
}

/// Whether `order` lists the first `n` fields, each once, in the order of
/// their lowest bits.
pub open spec fn arranged(order: Seq<usize>, spans: Seq<Bits>, n: int) -> bool {
    &&& order.len() == n
    &&& n <= spans.len()
    &&& forall|a: int| 0 <= a < n ==> 0 <= #[trigger] order[a] < n
    &&& forall|a: int, b: int|
        0 <= a < b < n ==> before(spans, #[trigger] order[a] as int, #[trigger] order[b] as int)
    &&& forall|r: int| 0 <= r < n ==> #[trigger] listed(order, r)
}

/// Whether the field at place `a` of `order` ends below the lowest bit of the
/// field at the next place.
pub open spec fn clear_of_next(order: Seq<usize>, spans: Seq<Bits>, a: int) -> bool {
    spans[order[a] as int].top() < spans[order[a + 1] as int].bottom()
}

/// Where the first clash of neighbours is found among fields that are listed
/// in order, it is the first clash of the layout.
pub proof fn lemma_first_clash(order: Seq<usize>, spans: Seq<Bits>, k: int)
    requires
        arranged(order, spans, spans.len() as int),
        0 <= k < spans.len() - 1,
        spans[order[k] as int].top() >= spans[order[k + 1] as int].bottom(),
        forall|a: int| 0 <= a < k ==> #[trigger] clear_of_next(order, spans, a),
    ensures
        first_clash(spans, order[k] as int, order[k + 1] as int),
{
    let n = spans.len() as int;
    let p = order[k] as int;
    let q = order[k + 1] as int;
    assert(before(spans, p, q));
    assert forall|r: int| 0 <= r < n implies !(#[trigger] before(spans, p, r) && before(
        spans,
        r,
        q,
    )) by {
        assert(listed(order, r));
        let m = choose|m: int| 0 <= m < n && order[m] == r;
        if m < k {
            assert(before(spans, order[m] as int, order[k] as int));
        } else if m > k + 1 {
            assert(before(spans, order[k + 1] as int, order[m] as int));
        }
    }
    assert(next_to(spans, p, q));
    assert forall|r: int, t: int| #[trigger] clash(spans, r, t) implies !before(spans, t, q) by {
        if before(spans, t, q) {
            assert(listed(order, t) && listed(order, r));
            let mt = choose|m: int| 0 <= m < n && order[m] == t;
            let mr = choose|m: int| 0 <= m < n && order[m] == r;
            if mt > k + 1 {
                assert(before(spans, order[k + 1] as int, order[mt] as int));
            }
            assert(mt <= k);
            if mr > mt {
                assert(before(spans, order[mt] as int, order[mr] as int));
            }
            assert(mr < mt);
            if mr < mt - 1 {
                let mid = order[mt - 1] as int;
                assert(before(spans, order[mr] as int, order[mt - 1] as int));
                assert(before(spans, order[mt - 1] as int, order[mt] as int));
                assert(before(spans, r, mid) && before(spans, mid, t));
            }
            assert(mr == mt - 1);
            assert(clear_of_next(order, spans, mr));
        }
    }
}

/// Where no two neighbours clash among fields that are listed in order, no
/// two fields have a bit in common.
pub proof fn lemma_no_clash(order: Seq<usize>, spans: Seq<Bits>)
    requires
        arranged(order, spans, spans.len() as int),
        forall|i: int| 0 <= i < spans.len() ==> (#[trigger] spans[i]).bottom() <= spans[i].top(),
        forall|a: int| 0 <= a < spans.len() - 1 ==> #[trigger] clear_of_next(order, spans, a),
    ensures
        forall|a: int, b: int|
            0 <= a < b < spans.len() ==> spans[#[trigger] order[a] as int].top()
                < spans[#[trigger] order[b] as int].bottom(),
        pairwise_disjoint(spans),
{
    let n = spans.len() as int;
    assert forall|a: int, b: int| 0 <= a < b < n implies spans[#[trigger] order[a] as int].top()
        < spans[#[trigger] order[b] as int].bottom() by {
        lemma_chain(order, spans, a, b);
    }
    assert forall|i: int, j: int| 0 <= i < n && 0 <= j < n && i != j implies (
    #[trigger] spans[i]).disjoint(#[trigger] spans[j]) by {
        assert(listed(order, i) && listed(order, j));
        let a = choose|a: int| 0 <= a < n && order[a] == i;
        let b = choose|b: int| 0 <= b < n && order[b] == j;
        if a < b {
            assert(spans[order[a] as int].top() < spans[order[b] as int].bottom());
        } else {
            assert(spans[order[b] as int].top() < spans[order[a] as int].bottom());
        }
    }
}

/// Where no two neighbours clash, a field ends below the lowest bit of every
/// field behind it in the order.
proof fn lemma_chain(order: Seq<usize>, spans: Seq<Bits>, a: int, b: int)
    requires
        arranged(order, spans, spans.len() as int),
        forall|i: int| 0 <= i < spans.len() ==> (#[trigger] spans[i]).bottom() <= spans[i].top(),
        forall|a: int| 0 <= a < spans.len() - 1 ==> #[trigger] clear_of_next(order, spans, a),
        0 <= a < b < spans.len(),
    ensures
        spans[order[a] as int].top() < spans[order[b] as int].bottom(),
    decreases b - a,
{
    if b > a + 1 {
        lemma_chain(order, spans, a, b - 1);
        assert(clear_of_next(order, spans, b - 1));
        assert(spans[order[b - 1] as int].bottom() <= spans[order[b - 1] as int].top());
    } else {
        assert(clear_of_next(order, spans, a));
    }
}

/// A layout has at most one first clash.
pub proof fn lemma_first_clash_unique(spans: Seq<Bits>, p: int, q: int, p2: int, q2: int)
    requires
        first_clash(spans, p, q),
        first_clash(spans, p2, q2),
    ensures
        p == p2,
        q == q2,
{
    assert(clash(spans, p, q));
    assert(clash(spans, p2, q2));
    assert(!before(spans, q2, q));
    assert(!before(spans, q, q2));
    assert(q == q2);
    if p != p2 {
        if before(spans, p, p2) {
            assert(before(spans, p, p2) && before(spans, p2, q));
        } else {
            assert(before(spans, p2, p) && before(spans, p, q2));
        }
    }
}

/// Whether `order` lists fields in the order of their lowest bits.
pub open spec fn in_order(order: Seq<usize>, spans: Seq<Bits>) -> bool {
    forall|a: int, b: int|
        0 <= a < b < order.len() ==> before(
            spans,
            #[trigger] order[a] as int,
            #[trigger] order[b] as int,
        )
}

/// Whether every entry of `order` is a field from `lo` up to, not including,
/// `hi`.
pub open spec fn all_within(order: Seq<usize>, lo: int, hi: int) -> bool {
    forall|a: int| 0 <= a < order.len() ==> lo <= #[trigger] order[a] < hi
}

/// A field occurs in a list with one more entry if it occurs in the list or
/// is the entry.
proof fn lemma_listed_push(order: Seq<usize>, x: usize, r: int)
    ensures
        listed(order.push(x), r) <==> listed(order, r) || x == r,
{
    let longer = order.push(x);
    if listed(order, r) {
        let a = choose|a: int| 0 <= a < order.len() && order[a] == r;
        assert(longer[a] == r);
    }
    if x == r {
        assert(longer[order.len() as int] == r);
    }
    if listed(longer, r) {
        let a = choose|a: int| 0 <= a < longer.len() && longer[a] == r;
        if a < order.len() {
            assert(order[a] == r);
        }
    }
}

/// Computes [`before`].
pub fn comes_before(spans: &Vec<Bits>, p: usize, q: usize) -> (first: bool)
    requires
        p < spans.len(),
        q < spans.len(),
    ensures
        first == before(spans@, p as int, q as int),
{
    let low_p = spans[p].start();
    let low_q = spans[q].start();
    low_p < low_q || (low_p == low_q && p < q)
}

/// Merges two lists of fields, each in the order of the lowest bits, into
/// one list in that order.
fn merge(spans: &Vec<Bits>, left: &Vec<usize>, right: &Vec<usize>) -> (out: Vec<usize>)
    requires
        in_order(left@, spans@),
        in_order(right@, spans@),
        all_within(left@, 0, spans.len() as int),
        all_within(right@, 0, spans.len() as int),
        forall|a: int, b: int|
            0 <= a < left.len() && 0 <= b < right.len() ==> #[trigger] left[a] != #[trigger] right[b],
        left.len() + right.len() <= usize::MAX,
    ensures
        out.len() == left.len() + right.len(),
        in_order(out@, spans@),
        forall|r: int| listed(out@, r) <==> listed(left@, r) || listed(right@, r),
{
    let mut out: Vec<usize> = Vec::new();
    let mut i: usize = 0;
    let mut j: usize = 0;
    while i < left.len() || j < right.len()
        invariant
            i <= left.len(),
            j <= right.len(),
            out.len() == i + j,
            in_order(left@, spans@),
            in_order(right@, spans@),
            all_within(left@, 0, spans.len() as int),
            all_within(right@, 0, spans.len() as int),
            forall|a: int, b: int|
                0 <= a < left.len() && 0 <= b < right.len() ==> #[trigger] left[a]
                    != #[trigger] right[b],
            in_order(out@, spans@),
            forall|c: int, a: int|
                0 <= c < out.len() && i <= a < left.len() ==> before(
                    spans@,
                    #[trigger] out[c] as int,
                    #[trigger] left[a] as int,
                ),
            forall|c: int, b: int|
                0 <= c < out.len() && j <= b < right.len() ==> before(
                    spans@,
                    #[trigger] out[c] as int,
                    #[trigger] right[b] as int,
                ),
            forall|r: int|
                listed(out@, r) <==> listed(left@.take(i as int), r) || listed(
                    right@.take(j as int),
                    r,
                ),
        decreases left.len() - i + right.len() - j,
    {
        let take_left = if i >= left.len() {
            false
        } else if j >= right.len() {
            true
        } else {
            comes_before(spans, left[i], right[j])
        };
        let ghost old_out = out@;
        if take_left {
            let x = left[i];
            proof {
                assert(left@.take(i + 1) =~= left@.take(i as int).push(x));
                assert forall|r: int|
                    listed(old_out.push(x), r) <==> listed(left@.take(i + 1), r) || listed(
                        right@.take(j as int),
                        r,
                    ) by {
                    lemma_listed_push(old_out, x, r);
                    lemma_listed_push(left@.take(i as int), x, r);
                }
            }
            out.push(x);
            i = i + 1;
        } else {
            let x = right[j];
            proof {
                assert(right@.take(j + 1) =~= right@.take(j as int).push(x));
                assert forall|r: int|
                    listed(old_out.push(x), r) <==> listed(left@.take(i as int), r) || listed(
                        right@.take(j + 1),
                        r,
                    ) by {
                    lemma_listed_push(old_out, x, r);
                    lemma_listed_push(right@.take(j as int), x, r);
                }
            }
            out.push(x);
            j = j + 1;
        }
    }
    proof {
        assert(left@.take(i as int) =~= left@);
        assert(right@.take(j as int) =~= right@);
    }
    out
}

/// Lists the fields from `lo` up to, not including, `hi` in the order of
/// their lowest bits: each half is put in order, then the halves are merged.
pub fn sort_range(spans: &Vec<Bits>, lo: usize, hi: usize) -> (order: Vec<usize>)
    requires
        lo <= hi <= spans.len(),
    ensures
        order.len() == hi - lo,
        in_order(order@, spans@),
        all_within(order@, lo as int, hi as int),
        forall|r: int| listed(order@, r) <==> lo <= r < hi,
    decreases hi - lo,
{
    if hi - lo == 0 {
        let order: Vec<usize> = Vec::new();
        order
    } else if hi - lo == 1 {
        let mut order: Vec<usize> = Vec::new();
        order.push(lo);
        proof {
            assert forall|r: int| listed(order@, r) <==> lo <= r < hi by {
                lemma_listed_push(Seq::<usize>::empty(), lo, r);
                assert(order@ =~= Seq::<usize>::empty().push(lo));
            }
        }
        order
    } else {
        let mid = lo + (hi - lo) / 2;
        let left = sort_range(spans, lo, mid);
        let right = sort_range(spans, mid, hi);
        let order = merge(spans, &left, &right);
        proof {
            assert forall|a: int| 0 <= a < order@.len() implies lo <= #[trigger] order@[a] < hi by {
                assert(listed(order@, order@[a] as int));
            }
        }
        order
    }
}

/// Lists all fields in the order of their lowest bits.
pub fn sort_fields(spans: &Vec<Bits>) -> (order: Vec<usize>)
    ensures
        arranged(order@, spans@, spans.len() as int),
{
    sort_range(spans, 0, spans.len())
}

} // verus!
