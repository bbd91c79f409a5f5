use vstd::prelude::*;

verus! {

/// `s` rotated left by `mid`: what follows position `mid`, then what precedes it.
pub open spec fn rotated_left<T>(s: Seq<T>, mid: int) -> Seq<T> {
    s.subrange(mid, s.len() as int) + s.subrange(0, mid)
}

/// Reverses the range `[lo, hi)` of `slice`, leaving the rest alone.
fn reverse_range<T: Copy>(slice: &mut [T], lo: usize, hi: usize)
    requires
        lo <= hi <= old(slice)@.len(),
    ensures
        final(slice)@.len() == old(slice)@.len(),
        forall|k: int| lo <= k < hi ==> final(slice)@[k] == old(slice)@[lo + hi - 1 - k],
        forall|k: int| 0 <= k < old(slice)@.len() && !(lo <= k < hi) ==> final(slice)@[k] == old(slice)@[k],
{
    let ghost pre = slice@;
    let mut i: usize = lo;
    let mut j: usize = hi;
    while i < j && i < j - 1
        invariant
            lo <= i <= j <= hi <= pre.len(),
            i - lo == hi - j,
            slice@.len() == pre.len(),
            forall|k: int| lo <= k < i ==> slice@[k] == pre[lo + hi - 1 - k],
            forall|k: int| j <= k < hi ==> slice@[k] == pre[lo + hi - 1 - k],
            forall|k: int| i <= k < j ==> slice@[k] == pre[k],
            forall|k: int| 0 <= k < pre.len() && !(lo <= k < hi) ==> slice@[k] == pre[k],
        decreases j - i,
    {
        let a = slice[i];
        let b = slice[j - 1];
        slice[i] = b;
        slice[j - 1] = a;
        i = i + 1;
        j = j - 1;
    }
}

/// Rotates `slice` left by `mid` with three reversals: of the first `mid`
/// elements, of the rest, then of the whole. Leaves it alone unless
/// `mid < slice.len()`.
pub fn rotate_3_way_reverses<T: Copy>(slice: &mut [T], mid: usize)
    ensures
        mid < old(slice)@.len() ==> final(slice)@ == rotated_left(old(slice)@, mid as int),
        mid >= old(slice)@.len() ==> final(slice)@ == old(slice)@,
{
    let len = slice.len();
    if mid < len {
        let ghost o = slice@;
        reverse_range(slice, 0, mid);
        reverse_range(slice, mid, len);
        reverse_range(slice, 0, len);
        proof {
            assert(slice@ =~= rotated_left(o, mid as int));
        }
    }
}

/// Rotates `slice` left by `mid`, one position at a time. Leaves it alone unless
/// `mid < slice.len()`.
pub fn rotate_left<T: Copy>(slice: &mut [T], mid: usize)
    ensures
        mid < old(slice)@.len() ==> final(slice)@ == rotated_left(old(slice)@, mid as int),
        mid >= old(slice)@.len() ==> final(slice)@ == old(slice)@,
{
    let len = slice.len();
    if mid < len {
        let ghost o = slice@;
        let mut t: usize = 0;
        proof {
            assert(o =~= rotated_left(o, 0));
        }
        while t < mid
            invariant
                mid < len == o.len(),
                t <= mid,
                slice@ == rotated_left(o, t as int),
            decreases mid - t,
        {
            let ghost pre = slice@;
            let original_element = slice[0];
            let mut k: usize = 0;
            while k + 1 < len
                invariant
                    len == pre.len() == slice@.len(),
                    k + 1 <= len,
                    forall|m: int| 0 <= m < k ==> slice@[m] == pre[m + 1],
                    forall|m: int| k <= m < len ==> slice@[m] == pre[m],
                decreases len - k,
            {
                slice[k] = slice[k + 1];
                k = k + 1;
            }
            slice[len - 1] = original_element;
            proof {
                assert(slice@ =~= rotated_left(o, t + 1));
            }
            t = t + 1;
        }
    }
}

} // verus!
