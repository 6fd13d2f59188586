//! Selection algorithms used by the image filters.

use vstd::prelude::*;

use vstd::seq_lib::group_to_multiset_ensures;
use vstd::seq_lib::to_multiset_update;

verus! {

/// Positions outside `[lo, hi]` agree between the two sequences.
pub open spec fn unchanged_outside(a: Seq<u8>, b: Seq<u8>, lo: int, hi: int) -> bool {
    forall|i: int| 0 <= i < a.len() && !(lo <= i <= hi) ==> a[i] == b[i]
}

/// Every value of `s` within `[lo, hi]` is at most `b`.
pub open spec fn range_le(s: Seq<u8>, lo: int, hi: int, b: u8) -> bool {
    forall|i: int| #![trigger s[i]] lo <= i <= hi ==> s[i] <= b
}

/// Every value of `s` within `[lo, hi]` exceeds `b`.
pub open spec fn range_gt(s: Seq<u8>, lo: int, hi: int, b: u8) -> bool {
    forall|i: int| #![trigger s[i]] lo <= i <= hi ==> s[i] > b
}

/// Reordering a range can introduce no value above an upper bound nor at or
/// below a strict lower bound that the range did not already hold.
pub open spec fn bounds_kept(a: Seq<u8>, b: Seq<u8>, lo: int, hi: int) -> bool {
    &&& forall|v: u8| #[trigger] range_le(b, lo, hi, v) ==> range_le(a, lo, hi, v)
    &&& forall|v: u8| #[trigger] range_gt(b, lo, hi, v) ==> range_gt(a, lo, hi, v)
}

/// Exchanges two elements, keeping the multiset of values.
fn swap(array: &mut Vec<u8>, i: usize, j: usize)
    requires
        i < old(array)@.len(),
        j < old(array)@.len(),
    ensures
        final(array)@ == old(array)@.update(i as int, old(array)@[j as int]).update(
            j as int,
            old(array)@[i as int],
        ),
        final(array)@.to_multiset() == old(array)@.to_multiset(),
{
    broadcast use group_to_multiset_ensures;
    broadcast use to_multiset_update;

    let a = array[i];
    let b = array[j];
    array.set(i, b);
    array.set(j, a);
    proof {
        assert(array@.to_multiset() =~= old(array)@.to_multiset());
    }
}

/// A sequence that swapped two in-range positions keeps every range bound.
proof fn lemma_swap_keeps_bounds(a: Seq<u8>, b: Seq<u8>, i: int, j: int, lo: int, hi: int)
    requires
        a.len() == b.len(),
        0 <= lo,
        lo <= i <= hi,
        lo <= j <= hi,
        hi < a.len(),
        a == b.update(i, b[j]).update(j, b[i]),
    ensures
        bounds_kept(a, b, lo, hi),
{
    assert forall|v: u8| #[trigger] range_le(b, lo, hi, v) implies range_le(a, lo, hi, v) by {
        assert forall|k: int| #![trigger a[k]] lo <= k <= hi implies a[k] <= v by {
            if k == j {
                assert(a[k] == b[i] && b[i] <= v);
            } else if k == i {
                assert(a[k] == b[j] && b[j] <= v);
            } else {
                assert(a[k] == b[k] && b[k] <= v);
            }
        }
    }
    assert forall|v: u8| #[trigger] range_gt(b, lo, hi, v) implies range_gt(a, lo, hi, v) by {
        assert forall|k: int| #![trigger a[k]] lo <= k <= hi implies a[k] > v by {
            if k == j {
                assert(a[k] == b[i] && b[i] > v);
            } else if k == i {
                assert(a[k] == b[j] && b[j] > v);
            } else {
                assert(a[k] == b[k] && b[k] > v);
            }
        }
    }
}

/// Keeping bounds is transitive across an intermediate reordering.
proof fn lemma_bounds_kept_transitive(a: Seq<u8>, b: Seq<u8>, c: Seq<u8>, lo: int, hi: int)
    requires
        bounds_kept(a, b, lo, hi),
        bounds_kept(b, c, lo, hi),
    ensures
        bounds_kept(a, c, lo, hi),
{
}

/// A reordering that only touched a subrange and kept its bounds keeps the
/// bounds of any enclosing range.
proof fn lemma_bounds_kept_narrow(a: Seq<u8>, b: Seq<u8>, lo: int, hi: int, slo: int, shi: int)
    requires
        a.len() == b.len(),
        0 <= lo,
        lo <= slo,
        slo <= shi,
        shi <= hi,
        hi < a.len(),
        bounds_kept(a, b, slo, shi),
        unchanged_outside(a, b, slo, shi),
    ensures
        bounds_kept(a, b, lo, hi),
{
    assert forall|v: u8| #[trigger] range_le(b, lo, hi, v) implies range_le(a, lo, hi, v) by {
        assert(range_le(b, slo, shi, v));
        assert forall|k: int| #![trigger a[k]] lo <= k <= hi implies a[k] <= v by {
            if !(slo <= k <= shi) {
                assert(a[k] == b[k]);
            } else {
                assert(range_le(a, slo, shi, v));
            }
        }
    }
    assert forall|v: u8| #[trigger] range_gt(b, lo, hi, v) implies range_gt(a, lo, hi, v) by {
        assert(range_gt(b, slo, shi, v));
        assert forall|k: int| #![trigger a[k]] lo <= k <= hi implies a[k] > v by {
            if !(slo <= k <= shi) {
                assert(a[k] == b[k]);
            } else {
                assert(range_gt(a, slo, shi, v));
            }
        }
    }
}

/// Partitions the subrange around the value initially at its right end:
/// afterwards that pivot value stands at the returned position, everything
/// up to it is no larger than it, and everything after it within the range
/// is larger.
pub fn partition(array: &mut Vec<u8>, left_bound: usize, right_bound: usize) -> (m: usize)
    requires
        left_bound <= right_bound,
        right_bound < old(array)@.len(),
    ensures
        left_bound <= m <= right_bound,
        final(array)@[m as int] == old(array)@[right_bound as int],
        final(array)@.len() == old(array)@.len(),
        final(array)@.to_multiset() == old(array)@.to_multiset(),
        unchanged_outside(final(array)@, old(array)@, left_bound as int, right_bound as int),
        bounds_kept(final(array)@, old(array)@, left_bound as int, right_bound as int),
        forall|i: int| left_bound <= i <= m ==> final(array)@[i] <= final(array)@[m as int],
        forall|i: int| m < i <= right_bound ==> final(array)@[i] > final(array)@[m as int],
{
    let ghost orig = array@;
    let middle = array[right_bound];
    let mut index = left_bound;
    let mut j = left_bound;

    while j < right_bound
        invariant
            left_bound <= index <= j <= right_bound < array@.len(),
            array@.len() == orig.len(),
            array@[right_bound as int] == middle,
            array@.to_multiset() == orig.to_multiset(),
            unchanged_outside(array@, orig, left_bound as int, right_bound as int),
            bounds_kept(array@, orig, left_bound as int, right_bound as int),
            forall|i: int| left_bound <= i < index ==> array@[i] <= middle,
            forall|i: int| index <= i < j ==> array@[i] > middle,
        decreases right_bound - j,
    {
        if array[j] <= middle {
            let ghost before = array@;
            swap(array, index, j);
            proof {
                lemma_swap_keeps_bounds(array@, before, index as int, j as int,
                    left_bound as int, right_bound as int);
                lemma_bounds_kept_transitive(array@, before, orig, left_bound as int,
                    right_bound as int);
            }
            index = index + 1;
        }
        j = j + 1;
    }
    let ghost before = array@;
    swap(array, index, right_bound);
    proof {
        lemma_swap_keeps_bounds(array@, before, index as int, right_bound as int,
            left_bound as int, right_bound as int);
        lemma_bounds_kept_transitive(array@, before, orig, left_bound as int,
            right_bound as int);
    }
    index
}

/// Selection on a subrange: reorders it and returns the element that ends
/// at `pos`, which every element before it is no larger than and every
/// element after it within the range is no smaller than.
pub fn bquickselect(array: &mut Vec<u8>, left_bound: usize, right_bound: usize, pos: usize) -> (r:
    u8)
    requires
        left_bound <= pos <= right_bound,
        right_bound < old(array)@.len(),
    ensures
        final(array)@.len() == old(array)@.len(),
        final(array)@.to_multiset() == old(array)@.to_multiset(),
        unchanged_outside(final(array)@, old(array)@, left_bound as int, right_bound as int),
        bounds_kept(final(array)@, old(array)@, left_bound as int, right_bound as int),
        r == final(array)@[pos as int],
        forall|i: int| left_bound <= i < pos ==> final(array)@[i] <= r,
        forall|i: int| pos < i <= right_bound ==> final(array)@[i] >= r,
    decreases right_bound - left_bound,
{
    if left_bound == right_bound {
        return array[left_bound];
    }

    let ghost orig = array@;
    let middle = partition(array, left_bound, right_bound);
    let ghost mid_arr = array@;
    let ghost pivot = mid_arr[middle as int];

    if pos > middle {
        let r = bquickselect(array, middle + 1, right_bound, pos);
        proof {
            assert(range_gt(mid_arr, middle + 1, right_bound as int, pivot));
            assert(range_gt(array@, middle + 1, right_bound as int, pivot));
            assert forall|i: int| left_bound <= i < pos implies array@[i] <= r by {
                if i <= middle {
                    assert(array@[i] == mid_arr[i]);
                    assert(array@[pos as int] > pivot);
                }
            }
            lemma_bounds_kept_narrow(array@, mid_arr, left_bound as int, right_bound as int,
                middle as int + 1, right_bound as int);
            lemma_bounds_kept_transitive(array@, mid_arr, orig, left_bound as int,
                right_bound as int);
        }
        r
    } else if pos < middle {
        let r = bquickselect(array, left_bound, middle - 1, pos);
        proof {
            assert(range_le(mid_arr, left_bound as int, middle - 1, pivot));
            assert(range_le(array@, left_bound as int, middle - 1, pivot));
            assert forall|i: int| pos < i <= right_bound implies array@[i] >= r by {
                assert(array@[pos as int] <= pivot);
                if i >= middle {
                    assert(array@[i] == mid_arr[i]);
                }
            }
            lemma_bounds_kept_narrow(array@, mid_arr, left_bound as int, right_bound as int,
                left_bound as int, middle as int - 1);
            lemma_bounds_kept_transitive(array@, mid_arr, orig, left_bound as int,
                right_bound as int);
        }
        r
    } else {
        array[pos]
    }
}

/// Hoare selection, aka quickselect: reorders the vector and returns its
/// `k`-th smallest element, with everything before position `k` no larger
/// and everything after no smaller.
pub fn quickselect(v: &mut Vec<u8>, k: usize) -> (r: u8)
    requires
        old(v)@.len() > 0,
        k < old(v)@.len(),
    ensures
        final(v)@.len() == old(v)@.len(),
        final(v)@.to_multiset() == old(v)@.to_multiset(),
        r == final(v)@[k as int],
        forall|i: int| 0 <= i < k ==> final(v)@[i] <= r,
        forall|i: int| k < i < final(v)@.len() ==> final(v)@[i] >= r,
{
    let len = v.len();
    bquickselect(v, 0, len - 1, k)
}

} // verus!
