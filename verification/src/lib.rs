//! Cursors over contiguous regions: a double-ended read cursor over a
//! borrowed region, a double-ended cursor that hands out exclusive access to
//! an owned region, a drain cursor that removes a range from a growable
//! array, and in-place rotate/reverse helpers built on top of them.

use vstd::prelude::*;

mod slice_iter;
mod slice_iter_mut;
mod vec_drain;

pub use slice_iter::SliceIter;
pub use slice_iter_mut::SliceIterMut;
pub use vec_drain::VecDrain;

verus! {

/// The sequence `s` cyclically shifted right by `k` places.
pub open spec fn spec_rotate_right<T>(s: Seq<T>, k: int) -> Seq<T>
    recommends
        0 <= k <= s.len(),
{
    s.subrange(s.len() - k, s.len() as int) + s.subrange(0, s.len() - k)
}

/// The sequence `s` cyclically shifted left by `k` places.
pub open spec fn spec_rotate_left<T>(s: Seq<T>, k: int) -> Seq<T>
    recommends
        0 <= k <= s.len(),
{
    s.subrange(k, s.len() as int) + s.subrange(0, k)
}

/// Reverses `v` in place by driving a cursor from both ends and exchanging
/// the elements it yields.
pub fn reverse<T>(v: &mut Vec<T>)
    ensures
        final(v)@ == old(v)@.reverse(),
{
    let n = v.len();
    reverse_range(v, 0, n);
    proof {
        assert(final(v)@ =~= old(v)@.reverse());
    }
}

/// Reverses `v[lo..hi]` in place, leaving the rest of `v` untouched.
fn reverse_range<T>(v: &mut Vec<T>, lo: usize, hi: usize)
    requires
        lo <= hi <= old(v)@.len(),
    ensures
        final(v)@ == old(v)@.subrange(0, lo as int) + old(v)@.subrange(
            lo as int,
            hi as int,
        ).reverse() + old(v)@.subrange(hi as int, old(v)@.len() as int),
{
    let mut back = v.split_off(hi);
    let mid = v.split_off(lo);
    let mut mid = reverse_vec(mid);
    v.append(&mut mid);
    v.append(&mut back);
}

/// Reverses an owned buffer by repeatedly taking one slot from the front and
/// one from the back of a cursor and exchanging their contents; on an odd
/// length the lone middle slot keeps its value.
fn reverse_vec<T>(buf: Vec<T>) -> (r: Vec<T>)
    ensures
        r@ == buf@.reverse(),
{
    let ghost orig = buf@;
    let ghost n = orig.len() as int;
    let mut it = SliceIterMut::new(buf);
    loop
        invariant
            it.wf(),
            it.elements().len() == n,
            orig.len() == n,
            it.front_idx() + it.back_idx() == n || (it.front_idx() == it.back_idx()
                && it.front_idx() + it.back_idx() == n + 1),
            forall|k: int|
                0 <= k < n && !(it.front_idx() <= k < it.back_idx())
                    ==> it.elements()[k] == orig[n - 1 - k],
            forall|k: int|
                it.front_idx() <= k < it.back_idx() ==> it.elements()[k] == orig[k],
        ensures
            it.wf(),
            it.elements().len() == n,
            it.front_idx() == it.back_idx(),
            forall|k: int| 0 <= k < n ==> it.elements()[k] == orig[n - 1 - k],
        decreases it.back_idx() - it.front_idx(),
    {
        match it.next() {
            Some(a) => {
                match it.next_back() {
                    Some(b) => {
                        it.swap(a, b);
                    },
                    None => {},
                }
            },
            None => {
                break ;
            },
        }
    }
    let r = it.into_mut_slice();
    proof {
        assert(r@ =~= orig.reverse());
    }
    r
}

/// Cyclically shifts `v` right by `k` places, in place and without auxiliary
/// storage, as three reversals: the whole region, then each part on either
/// side of offset `k`.
pub fn rotate_right<T>(v: &mut Vec<T>, k: usize)
    requires
        k <= old(v)@.len(),
    ensures
        final(v)@ == spec_rotate_right(old(v)@, k as int),
{
    let n = v.len();
    reverse_range(v, 0, n);
    reverse_range(v, 0, k);
    reverse_range(v, k, n);
    proof {
        assert(final(v)@ =~= spec_rotate_right(old(v)@, k as int));
    }
}

/// Cyclically shifts `v` left by `k` places, expressed as a right rotation
/// by the complementary amount.
pub fn rotate_left<T>(v: &mut Vec<T>, k: usize)
    requires
        k <= old(v)@.len(),
    ensures
        final(v)@ == spec_rotate_left(old(v)@, k as int),
{
    let kk = v.len() - k;
    rotate_right(v, kk);
    proof {
        assert(final(v)@ =~= spec_rotate_left(old(v)@, k as int));
    }
}

/// A right rotation by `k` followed by a left rotation by `k` restores the
/// original sequence.
pub proof fn lemma_rotate_round_trip<T>(s: Seq<T>, k: int)
    requires
        0 <= k <= s.len(),
    ensures
        spec_rotate_left(spec_rotate_right(s, k), k) == s,
{
    assert(spec_rotate_left(spec_rotate_right(s, k), k) =~= s);
}

/// Reversal is its own inverse.
pub proof fn lemma_reverse_involutive<T>(s: Seq<T>)
    ensures
        s.reverse().reverse() == s,
{
    assert(s.reverse().reverse() =~= s);
}

} // verus!
