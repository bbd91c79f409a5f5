use vstd::prelude::*;
use rand::Rng;
use crate::sort::{
    lemma_permutation_contains, lemma_permutation_extend, lemma_push_multiset,
    lemma_split_multiset, permutation, sorted, sorted_between, swap, swap_within,
};

verus! {

/// Sorts `data` in ascending order by exchanges; see [`crate::sort::insertion_sort`].
pub fn insertion_sort(data: &mut [i32])
    ensures
        sorted(final(data)@),
        permutation(old(data)@, final(data)@),
{
    crate::sort::insertion_sort(data)
}

/// Insertion sort: each new element sinks past the larger ones before it.
pub fn insertion_sort_optimization(slice: &mut [i32])
    ensures
        sorted(final(slice)@),
        permutation(old(slice)@, final(slice)@),
{
    let len = slice.len();
    if len == 0 {
        return;
    }
    let mut i: usize = 1;
    while i < len
        invariant
            len == slice@.len(),
            1 <= i <= len,
            sorted_between(slice@, 0, i as int),
            permutation(old(slice)@, slice@),
        decreases len - i,
    {
        let key = slice[i];
        let mut j: usize = i;
        while j > 0 && key < slice[j - 1]
            invariant
                len == slice@.len(),
                1 <= i < len,
                j <= i,
                slice@[j as int] == key,
                forall|a: int, b: int|
                    0 <= a < b <= i && a != j && b != j ==> slice@[a] <= slice@[b],
                forall|k: int| j < k <= i ==> key < slice@[k],
                permutation(old(slice)@, slice@),
            decreases j,
        {
            swap(slice, j - 1, j);
            j = j - 1;
        }
        i = i + 1;
    }
}

/// Selection sort: each position receives the smallest element that follows it.
pub fn selection_sort(slice: &mut [i32])
    ensures
        sorted(final(slice)@),
        permutation(old(slice)@, final(slice)@),
{
    let len = slice.len();
    let mut i: usize = 0;
    while i < len
        invariant
            len == slice@.len(),
            i <= len,
            sorted_between(slice@, 0, i as int),
            forall|p: int, q: int| 0 <= p < i <= q < len ==> slice@[p] <= slice@[q],
            permutation(old(slice)@, slice@),
        decreases len - i,
    {
        let mut min_index: usize = i;
        let mut j: usize = i + 1;
        while j < len
            invariant
                len == slice@.len(),
                i < len,
                i <= min_index < j,
                j <= len,
                forall|k: int| i <= k < j ==> slice@[min_index as int] <= slice@[k],
            decreases len - j,
        {
            if slice[j] < slice[min_index] {
                min_index = j;
            }
            j = j + 1;
        }
        if min_index != i {
            swap(slice, i, min_index);
        }
        i = i + 1;
    }
}

/// Bubble sort: passes exchange neighbours out of order until a pass exchanges none.
pub fn bubble_sort(slice: &mut [i32])
    ensures
        sorted(final(slice)@),
        permutation(old(slice)@, final(slice)@),
{
    let len = slice.len();
    let mut i: usize = 0;
    let mut done = false;
    while i < len && !done
        invariant
            len == slice@.len(),
            i <= len,
            sorted_between(slice@, (len - i) as int, len as int),
            forall|p: int, q: int| 0 <= p < len - i <= q < len ==> slice@[p] <= slice@[q],
            done ==> sorted(slice@),
            permutation(old(slice)@, slice@),
        decreases len - i,
    {
        let mut swapped = false;
        let mut j: usize = 1;
        while j < len - i
            invariant
                len == slice@.len(),
                i < len,
                1 <= j <= len - i,
                sorted_between(slice@, (len - i) as int, len as int),
                forall|p: int, q: int| 0 <= p < len - i <= q < len ==> slice@[p] <= slice@[q],
                forall|k: int| 0 <= k < j ==> #[trigger] slice@[k] <= slice@[j - 1],
                !swapped ==> sorted_between(slice@, 0, j as int),
                permutation(old(slice)@, slice@),
            decreases len - i - j,
        {
            if slice[j - 1] > slice[j] {
                swap(slice, j - 1, j);
                swapped = true;
            }
            j = j + 1;
        }
        if !swapped {
            done = true;
        }
        i = i + 1;
    }
}

/// Lomuto partition of `[lo, hi)` around the element at `pivot`: smaller or
/// equal elements end before the returned position, larger ones after it.
fn lomuto_partition(slice: &mut [i32], lo: usize, hi: usize, pivot: usize) -> (p: usize)
    requires
        lo <= pivot < hi <= old(slice)@.len(),
    ensures
        lo <= p < hi,
        final(slice)@.len() == old(slice)@.len(),
        permutation(old(slice)@.subrange(lo as int, hi as int), final(slice)@.subrange(lo as int, hi as int)),
        forall|k: int| 0 <= k < old(slice)@.len() && !(lo <= k < hi) ==> final(slice)@[k] == old(slice)@[k],
        forall|k: int| lo <= k < p ==> final(slice)@[k] <= final(slice)@[p as int],
        forall|k: int| p < k < hi ==> final(slice)@[p as int] < final(slice)@[k],
{
    let ghost pre = slice@;
    let last = hi - 1;
    swap_within(slice, lo, hi, pivot, last);
    let pivot_value = slice[last];
    let mut i: usize = lo;
    let mut j: usize = lo;
    while j < last
        invariant
            lo <= i <= j <= last < hi <= slice@.len(),
            slice@.len() == pre.len(),
            slice@[last as int] == pivot_value,
            forall|k: int| lo <= k < i ==> slice@[k] <= pivot_value,
            forall|k: int| i <= k < j ==> pivot_value < slice@[k],
            permutation(pre.subrange(lo as int, hi as int), slice@.subrange(lo as int, hi as int)),
            forall|k: int| 0 <= k < pre.len() && !(lo <= k < hi) ==> slice@[k] == pre[k],
        decreases last - j,
    {
        if slice[j] <= pivot_value {
            swap_within(slice, lo, hi, i, j);
            i = i + 1;
        }
        j = j + 1;
    }
    swap_within(slice, lo, hi, i, last);
    i
}

/// Sorts `[lo, hi)` of `slice` by quicksort; `pick(n)` gives the offset of the
/// pivot in a range of `n` elements.
fn quick_sort_between<P: Fn(usize) -> usize>(slice: &mut [i32], lo: usize, hi: usize, pick: &P)
    requires
        lo <= hi <= old(slice)@.len(),
        forall|n: usize| n >= 2 ==> #[trigger] pick.requires((n,)),
        forall|n: usize, k: usize| n >= 2 && #[trigger] pick.ensures((n,), k) ==> k < n,
    ensures
        final(slice)@.len() == old(slice)@.len(),
        sorted_between(final(slice)@, lo as int, hi as int),
        permutation(old(slice)@.subrange(lo as int, hi as int), final(slice)@.subrange(lo as int, hi as int)),
        forall|k: int| 0 <= k < old(slice)@.len() && !(lo <= k < hi) ==> final(slice)@[k] == old(slice)@[k],
    decreases hi - lo,
{
    if hi - lo < 2 {
        return;
    }
    let offset = pick(hi - lo);
    let p = lomuto_partition(slice, lo, hi, lo + offset);
    let ghost s1 = slice@;
    quick_sort_between(slice, lo, p, pick);
    let ghost s2 = slice@;
    quick_sort_between(slice, p + 1, hi, pick);
    let ghost s3 = slice@;
    proof {
        lemma_permutation_contains(s1.subrange(lo as int, p as int), s2.subrange(lo as int, p as int));
        lemma_permutation_contains(s2.subrange(p + 1, hi as int), s3.subrange(p + 1, hi as int));
        assert forall|k: int| lo <= k < p implies s3[k] <= s3[p as int] by {
            assert(s3[k] == s2.subrange(lo as int, p as int)[k - lo]);
            let m = choose|m: int| 0 <= m < p - lo && #[trigger] s1.subrange(lo as int, p as int)[m] == s3[k];
            assert(s1[lo + m] <= s1[p as int]);
            assert(s3[p as int] == s1[p as int]);
        }
        assert forall|k: int| p < k < hi implies s3[p as int] < s3[k] by {
            assert(s3[k] == s3.subrange(p + 1, hi as int)[k - p - 1]);
            let m = choose|m: int| 0 <= m < hi - p - 1 && #[trigger] s2.subrange(p + 1, hi as int)[m] == s3[k];
            assert(s2[p + 1 + m] == s1[p + 1 + m]);
        }
        lemma_permutation_extend(s1, s2, lo as int, lo as int, p as int, hi as int);
        lemma_permutation_extend(s2, s3, lo as int, p + 1, hi as int, hi as int);
    }
}

fn last_index(n: usize) -> (k: usize)
    requires
        n >= 1,
    ensures
        k == n - 1,
{
    n - 1
}

/// Quicksort with a pivot chosen by `partition_strategy` from the length of the
/// range being split.
pub fn quick_sort_with_custom_part<P: Fn(usize) -> usize>(slice: &mut [i32], partition_strategy: &P)
    requires
        forall|n: usize| n >= 2 ==> #[trigger] partition_strategy.requires((n,)),
        forall|n: usize, k: usize| n >= 2 && #[trigger] partition_strategy.ensures((n,), k) ==> k < n,
    ensures
        sorted(final(slice)@),
        permutation(old(slice)@, final(slice)@),
{
    let len = slice.len();
    quick_sort_between(slice, 0, len, partition_strategy);
    proof {
        assert(old(slice)@.subrange(0, len as int) =~= old(slice)@);
        assert(slice@.subrange(0, len as int) =~= slice@);
    }
}

/// Quicksort whose pivot is the last element of each range.
pub fn quick_sort_hoare(slice: &mut [i32])
    ensures
        sorted(final(slice)@),
        permutation(old(slice)@, final(slice)@),
{
    quick_sort_with_custom_part(slice, &|n: usize| -> (k: usize)
        requires
            n >= 1,
        ensures
            k == n - 1,
        { last_index(n) })
}

/// Quicksort whose pivot is the last element of each range.
pub fn quick_sort_lomuto(slice: &mut [i32])
    ensures
        sorted(final(slice)@),
        permutation(old(slice)@, final(slice)@),
{
    quick_sort_with_custom_part(slice, &|n: usize| -> (k: usize)
        requires
            n >= 1,
        ensures
            k == n - 1,
        { last_index(n) })
}

/// The pivot offset of [`quick_sort_middle_three`] in a range of `n` elements:
/// the mean of the first, middle and last offsets, rounded up.
pub fn middle_of_three(n: usize) -> (k: usize)
    requires
        n >= 2,
    ensures
        k == ((n + 1) / 2 + n + 1) / 3,
        k < n,
{
    let wide = n as u128;
    (((wide + 1) / 2 + wide + 1) / 3) as usize
}

/// Quicksort whose pivot sits at [`middle_of_three`] of each range.
pub fn quick_sort_middle_three(slice: &mut [i32])
    ensures
        sorted(final(slice)@),
        permutation(old(slice)@, final(slice)@),
{
    quick_sort_with_custom_part(slice, &|n: usize| -> (k: usize)
        requires
            n >= 2,
        ensures
            k < n,
        { middle_of_three(n) })
}

/// Relies on `rand::Rng::gen_range` on `rand::thread_rng()`: a value drawn from
/// `0..bound`, which panics only when that range is empty.
#[verifier::external_body]
fn random_below(bound: usize) -> (r: usize)
    requires
        bound > 0,
    ensures
        r < bound,
{
    rand::thread_rng().gen_range(0..bound)
}

/// Quicksort whose pivot is drawn at random among all but the last element of
/// each range.
pub fn quick_sort_random(slice: &mut [i32])
    ensures
        sorted(final(slice)@),
        permutation(old(slice)@, final(slice)@),
{
    quick_sort_with_custom_part(slice, &|n: usize| -> (k: usize)
        requires
            n >= 2,
        ensures
            k < n - 1,
        { random_below(n - 1) })
}

/// Merges two sorted runs into one sorted vector holding the elements of both.
fn merge(left: &[i32], right: &[i32]) -> (aux: Vec<i32>)
    requires
        sorted(left@),
        sorted(right@),
    ensures
        sorted(aux@),
        aux@.len() == left@.len() + right@.len(),
        aux@.to_multiset() == left@.to_multiset().add(right@.to_multiset()),
{
    let mut aux: Vec<i32> = Vec::new();
    let mut ileft: usize = 0;
    let mut iright: usize = 0;
    proof {
        broadcast use vstd::seq_lib::group_to_multiset_ensures, vstd::multiset::group_multiset_axioms;

        assert(left@.subrange(0, 0) =~= Seq::<i32>::empty());
        assert(right@.subrange(0, 0) =~= Seq::<i32>::empty());
        assert(aux@ =~= Seq::<i32>::empty());
        assert(aux@.to_multiset() =~= left@.subrange(0, 0).to_multiset().add(right@.subrange(0, 0).to_multiset()));
    }
    while ileft < left.len() || iright < right.len()
        invariant
            sorted(left@),
            sorted(right@),
            ileft <= left@.len(),
            iright <= right@.len(),
            aux@.len() == ileft + iright,
            sorted(aux@),
            aux@.len() > 0 && ileft < left@.len() ==> aux@.last() <= left@[ileft as int],
            aux@.len() > 0 && iright < right@.len() ==> aux@.last() <= right@[iright as int],
            aux@.to_multiset() == left@.subrange(0, ileft as int).to_multiset().add(
                right@.subrange(0, iright as int).to_multiset(),
            ),
        decreases left@.len() + right@.len() - ileft - iright,
    {
        let ghost pre = aux@;
        if iright == right.len() || (ileft < left.len() && left[ileft] < right[iright]) {
            aux.push(left[ileft]);
            proof {
                lemma_push_multiset(pre, left@[ileft as int]);
                assert(left@.subrange(0, ileft + 1) =~= left@.subrange(0, ileft as int).push(left@[ileft as int]));
                lemma_push_multiset(left@.subrange(0, ileft as int), left@[ileft as int]);
            }
            ileft = ileft + 1;
        } else {
            aux.push(right[iright]);
            proof {
                lemma_push_multiset(pre, right@[iright as int]);
                assert(right@.subrange(0, iright + 1) =~= right@.subrange(0, iright as int).push(right@[iright as int]));
                lemma_push_multiset(right@.subrange(0, iright as int), right@[iright as int]);
            }
            iright = iright + 1;
        }
    }
    proof {
        assert(left@.subrange(0, left@.len() as int) =~= left@);
        assert(right@.subrange(0, right@.len() as int) =~= right@);
    }
    aux
}

/// Sorts `[lo, hi)` of `slices` by merge sort.
fn merge_sort_between(slices: &mut [i32], lo: usize, hi: usize)
    requires
        lo <= hi <= old(slices)@.len(),
    ensures
        final(slices)@.len() == old(slices)@.len(),
        sorted_between(final(slices)@, lo as int, hi as int),
        permutation(old(slices)@.subrange(lo as int, hi as int), final(slices)@.subrange(lo as int, hi as int)),
        forall|k: int| 0 <= k < old(slices)@.len() && !(lo <= k < hi) ==> final(slices)@[k] == old(slices)@[k],
    decreases hi - lo,
{
    if hi - lo < 2 {
        return;
    }
    let mid = lo + (hi - lo) / 2;
    let ghost s0 = slices@;
    merge_sort_between(slices, lo, mid);
    let ghost s1 = slices@;
    merge_sort_between(slices, mid, hi);
    let ghost s2 = slices@;
    proof {
        lemma_permutation_extend(s0, s1, lo as int, lo as int, mid as int, hi as int);
        lemma_permutation_extend(s1, s2, lo as int, mid as int, hi as int, hi as int);
        assert(s2.subrange(lo as int, mid as int) =~= s1.subrange(lo as int, mid as int));
        lemma_split_multiset(s2, lo as int, mid as int, hi as int);
    }
    let merged = merge(&slices[lo..mid], &slices[mid..hi]);
    let mut k: usize = 0;
    while k < merged.len()
        invariant
            merged@.len() == hi - lo,
            hi <= s2.len(),
            slices@.len() == s2.len(),
            lo + k <= hi,
            forall|m: int| 0 <= m < k ==> slices@[lo + m] == merged@[m],
            forall|m: int| 0 <= m < s2.len() && !(lo <= m < hi) ==> slices@[m] == s2[m],
        decreases merged@.len() - k,
    {
        slices[lo + k] = merged[k];
        k = k + 1;
    }
    proof {
        assert(slices@.subrange(lo as int, hi as int) =~= merged@);
        assert forall|i: int, j: int| lo <= i < j < hi implies slices@[i] <= slices@[j] by {
            assert(slices@[i] == merged@[i - lo]);
            assert(slices@[j] == merged@[j - lo]);
        }
    }
}

/// Merge sort: both halves are sorted, then merged.
pub fn merge_sort(slices: &mut [i32])
    ensures
        sorted(final(slices)@),
        permutation(old(slices)@, final(slices)@),
{
    let len = slices.len();
    merge_sort_between(slices, 0, len);
    proof {
        assert(old(slices)@.subrange(0, len as int) =~= old(slices)@);
        assert(slices@.subrange(0, len as int) =~= slices@);
    }
}

} // verus!
