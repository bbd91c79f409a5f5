use vstd::prelude::*;
use vstd::seq_lib::{lemma_multiset_commutative, to_multiset_build, to_multiset_contains, to_multiset_update};
use vstd::multiset::{group_multiset_axioms, group_multiset_properties};

verus! {

/// Every element is at most every later one.
pub open spec fn sorted(s: Seq<i32>) -> bool {
    forall|i: int, j: int| 0 <= i < j < s.len() ==> s[i] <= s[j]
}

/// The elements of `s` between `lo` and `hi` are in order.
pub open spec fn sorted_between(s: Seq<i32>, lo: int, hi: int) -> bool {
    forall|i: int, j: int| lo <= i < j < hi ==> s[i] <= s[j]
}

/// `b` holds the same elements as `a`, each as many times.
pub open spec fn permutation(a: Seq<i32>, b: Seq<i32>) -> bool {
    a.to_multiset() == b.to_multiset()
}

/// Exchanging two positions keeps the elements.
pub proof fn lemma_swap_permutation(s: Seq<i32>, i: int, j: int)
    requires
        0 <= i < s.len(),
        0 <= j < s.len(),
    ensures
        permutation(s, s.update(i, s[j]).update(j, s[i])),
{
    broadcast use group_multiset_axioms, group_multiset_properties, to_multiset_contains;

    let t = s.update(i, s[j]);
    to_multiset_update(s, i, s[j]);
    to_multiset_update(t, j, s[i]);
    assert(t[j] == s[j]);
    assert(s.contains(s[i]));
    assert(s.update(i, s[j]).update(j, s[i]).to_multiset() =~= s.to_multiset());
}

/// The elements of `s` from `lo` to `hi`, as a multiset, are those from `lo` to
/// `mid` together with those from `mid` to `hi`.
pub proof fn lemma_split_multiset(s: Seq<i32>, lo: int, mid: int, hi: int)
    requires
        0 <= lo <= mid <= hi <= s.len(),
    ensures
        s.subrange(lo, hi).to_multiset() == s.subrange(lo, mid).to_multiset().add(
            s.subrange(mid, hi).to_multiset(),
        ),
{
    assert(s.subrange(lo, hi) =~= s.subrange(lo, mid) + s.subrange(mid, hi));
    lemma_multiset_commutative(s.subrange(lo, mid), s.subrange(mid, hi));
}

/// Two sequences that agree outside `[a, b)` and are permutations of each other
/// on `[a, b)` are permutations of each other on any `[lo, hi)` around it.
pub proof fn lemma_permutation_extend(s1: Seq<i32>, s2: Seq<i32>, lo: int, a: int, b: int, hi: int)
    requires
        0 <= lo <= a <= b <= hi <= s1.len(),
        s1.len() == s2.len(),
        forall|k: int| 0 <= k < s1.len() && !(a <= k < b) ==> s1[k] == s2[k],
        permutation(s1.subrange(a, b), s2.subrange(a, b)),
    ensures
        permutation(s1.subrange(lo, hi), s2.subrange(lo, hi)),
{
    lemma_split_multiset(s1, lo, a, hi);
    lemma_split_multiset(s1, a, b, hi);
    lemma_split_multiset(s2, lo, a, hi);
    lemma_split_multiset(s2, a, b, hi);
    assert(s1.subrange(lo, a) =~= s2.subrange(lo, a));
    assert(s1.subrange(b, hi) =~= s2.subrange(b, hi));
}

/// Every element of `b` occurs in `a` when `b` is a permutation of `a`.
pub proof fn lemma_permutation_contains(a: Seq<i32>, b: Seq<i32>)
    requires
        permutation(a, b),
    ensures
        forall|k: int| 0 <= k < b.len() ==> a.contains(#[trigger] b[k]),
{
    assert forall|k: int| 0 <= k < b.len() implies a.contains(#[trigger] b[k]) by {
        to_multiset_contains(b, b[k]);
        to_multiset_contains(a, b[k]);
        assert(b.contains(b[k]));
    }
}

/// Appending one element adds it to the multiset.
pub proof fn lemma_push_multiset(s: Seq<i32>, x: i32)
    ensures
        s.push(x).to_multiset() == s.to_multiset().insert(x),
{
    to_multiset_build(s, x);
}

/// Exchanges the elements at `i` and `j`.
pub fn swap(s: &mut [i32], i: usize, j: usize)
    requires
        i < old(s)@.len(),
        j < old(s)@.len(),
    ensures
        final(s)@ == old(s)@.update(i as int, old(s)@[j as int]).update(j as int, old(s)@[i as int]),
        permutation(old(s)@, final(s)@),
{
    proof {
        lemma_swap_permutation(s@, i as int, j as int);
    }
    let a = s[i];
    let b = s[j];
    s[i] = b;
    s[j] = a;
}

/// Exchanges the elements at `i` and `j`, both in `[lo, hi)`: the range keeps
/// its elements and nothing outside it changes.
pub fn swap_within(s: &mut [i32], lo: usize, hi: usize, i: usize, j: usize)
    requires
        lo <= i < hi,
        lo <= j < hi,
        hi <= old(s)@.len(),
    ensures
        final(s)@ == old(s)@.update(i as int, old(s)@[j as int]).update(j as int, old(s)@[i as int]),
        final(s)@.len() == old(s)@.len(),
        permutation(old(s)@.subrange(lo as int, hi as int), final(s)@.subrange(lo as int, hi as int)),
        forall|k: int| 0 <= k < old(s)@.len() && !(lo <= k < hi) ==> final(s)@[k] == old(s)@[k],
{
    let ghost pre = s@;
    swap(s, i, j);
    proof {
        let sub = pre.subrange(lo as int, hi as int);
        lemma_swap_permutation(sub, i - lo, j - lo);
        assert(s@.subrange(lo as int, hi as int) =~= sub.update(i - lo, sub[j - lo]).update(
            j - lo,
            sub[i - lo],
        ));
    }
}

/// Sorts `data` in ascending order: each position in turn is exchanged with every
/// later smaller element.
pub fn insertion_sort(data: &mut [i32])
    ensures
        sorted(final(data)@),
        permutation(old(data)@, final(data)@),
{
    let len = data.len();
    let mut i: usize = 0;
    while i < len
        invariant
            len == data@.len(),
            i <= len,
            sorted_between(data@, 0, i as int),
            forall|p: int, q: int| 0 <= p < i <= q < len ==> data@[p] <= data@[q],
            permutation(old(data)@, data@),
        decreases len - i,
    {
        let mut j: usize = i + 1;
        while j < len
            invariant
                len == data@.len(),
                i < len,
                i + 1 <= j <= len,
                sorted_between(data@, 0, i as int),
                forall|p: int, q: int| 0 <= p < i <= q < len ==> data@[p] <= data@[q],
                forall|k: int| i < k < j ==> data@[i as int] <= data@[k],
                permutation(old(data)@, data@),
            decreases len - j,
        {
            if data[i] > data[j] {
                swap(data, i, j);
            }
            j = j + 1;
        }
        i = i + 1;
    }
}

/// Same exchange sort as [`insertion_sort`].
pub fn insertion_sort_by(data: &mut [i32])
    ensures
        sorted(final(data)@),
        permutation(old(data)@, final(data)@),
{
    insertion_sort(data)
}

} // verus!
