//! A double-ended read cursor over a borrowed contiguous region.

use vstd::prelude::*;
use vstd::slice::{slice_index_get, slice_subrange};

verus! {

/// Yields a shared reference to each element of a borrowed region, from the
/// front or from the back.  The region only shrinks: once the two ends meet,
/// both ends report exhaustion forever.
///
/// The ghost fields record the region the cursor started from and every
/// element that has left through either end, in the order it left, so that
/// callers can reason about complete traversals.
pub struct SliceIter<'a, T> {
    slice: &'a [T],
    full: Ghost<Seq<T>>,
    taken_front: Ghost<Seq<T>>,
    taken_back: Ghost<Seq<T>>,
}

impl<'a, T> SliceIter<'a, T> {
    /// The elements still ahead of the cursor.
    pub closed spec fn region(&self) -> Seq<T> {
        self.slice@
    }

    /// The region the cursor was created over.
    pub closed spec fn full(&self) -> Seq<T> {
        self.full@
    }

    /// Elements consumed from the front, in order of consumption.
    pub closed spec fn taken_front(&self) -> Seq<T> {
        self.taken_front@
    }

    /// Elements consumed from the back, in order of consumption.
    pub closed spec fn taken_back(&self) -> Seq<T> {
        self.taken_back@
    }

    /// Every element of the original region is in exactly one of three
    /// places: already consumed from the front, still ahead, or already
    /// consumed from the back.
    pub open spec fn wf(&self) -> bool {
        self.full() == self.taken_front() + self.region() + self.taken_back().reverse()
    }

    pub fn new(slice: &'a [T]) -> (it: Self)
        ensures
            it.wf(),
            it.region() == slice@,
            it.full() == slice@,
            it.taken_front() == Seq::<T>::empty(),
            it.taken_back() == Seq::<T>::empty(),
    {
        let it = SliceIter {
            slice,
            full: Ghost(slice@),
            taken_front: Ghost(Seq::empty()),
            taken_back: Ghost(Seq::empty()),
        };
        proof {
            assert(it.taken_back@.reverse() =~= Seq::<T>::empty());
            assert(it.full@ =~= it.taken_front@ + it.slice@ + it.taken_back@.reverse());
        }
        it
    }

    /// The region still ahead of the cursor, as a slice.
    pub fn as_slice(&self) -> (s: &'a [T])
        ensures
            s@ == self.region(),
    {
        self.slice
    }

    /// Takes the front element of the region, shrinking the region by one;
    /// reports exhaustion on an empty region.
    pub fn next(&mut self) -> (r: Option<&'a T>)
        ensures
            old(self).wf() ==> final(self).wf(),
            final(self).full() == old(self).full(),
            final(self).taken_back() == old(self).taken_back(),
            old(self).region().len() == 0 ==> {
                &&& r is None
                &&& *final(self) == *old(self)
            },
            old(self).region().len() > 0 ==> {
                &&& r is Some
                &&& *r.unwrap() == old(self).region()[0]
                &&& final(self).region() == old(self).region().drop_first()
                &&& final(self).taken_front() == old(self).taken_front().push(
                    old(self).region()[0],
                )
            },
    {
        if self.slice.len() == 0 {
            return None;
        }
        let first = slice_index_get(self.slice, 0);
        self.slice = slice_subrange(self.slice, 1, self.slice.len());
        proof {
            self.taken_front@ = self.taken_front@.push(*first);
            if old(self).wf() {
                assert(old(self).region() =~= seq![*first] + self.slice@);
                assert(self.taken_front@ + self.slice@ =~= old(self).taken_front@
                    + old(self).slice@);
            }
        }
        Some(first)
    }

    /// Takes the back element of the region, shrinking the region by one;
    /// reports exhaustion on an empty region.
    pub fn next_back(&mut self) -> (r: Option<&'a T>)
        ensures
            old(self).wf() ==> final(self).wf(),
            final(self).full() == old(self).full(),
            final(self).taken_front() == old(self).taken_front(),
            old(self).region().len() == 0 ==> {
                &&& r is None
                &&& *final(self) == *old(self)
            },
            old(self).region().len() > 0 ==> {
                &&& r is Some
                &&& *r.unwrap() == old(self).region().last()
                &&& final(self).region() == old(self).region().drop_last()
                &&& final(self).taken_back() == old(self).taken_back().push(
                    old(self).region().last(),
                )
            },
    {
        let len = self.slice.len();
        if len == 0 {
            return None;
        }
        let last = slice_index_get(self.slice, len - 1);
        self.slice = slice_subrange(self.slice, 0, len - 1);
        proof {
            self.taken_back@ = self.taken_back@.push(*last);
            if old(self).wf() {
                assert(self.taken_back@.reverse() =~= seq![*last]
                    + old(self).taken_back@.reverse());
                assert(self.slice@ + self.taken_back@.reverse() =~= old(self).slice@
                    + old(self).taken_back@.reverse());
                assert(self.taken_front@ + self.slice@ + self.taken_back@.reverse()
                    =~= old(self).taken_front@ + old(self).slice@
                        + old(self).taken_back@.reverse());
            }
        }
        Some(last)
    }

    /// Skips `n` elements from the front, then takes the next one.  If fewer
    /// than `n + 1` elements remain, the region becomes empty and the call
    /// reports exhaustion.
    pub fn nth(&mut self, n: usize) -> (r: Option<&'a T>)
        ensures
            old(self).wf() ==> final(self).wf(),
            final(self).full() == old(self).full(),
            final(self).taken_back() == old(self).taken_back(),
            n >= old(self).region().len() ==> {
                &&& r is None
                &&& final(self).region() == Seq::<T>::empty()
                &&& final(self).taken_front() == old(self).taken_front()
                    + old(self).region()
            },
            n < old(self).region().len() ==> {
                &&& r is Some
                &&& *r.unwrap() == old(self).region()[n as int]
                &&& final(self).region() == old(self).region().skip(n + 1)
                &&& final(self).taken_front() == old(self).taken_front()
                    + old(self).region().take(n + 1)
            },
    {
        let len = self.slice.len();
        if n >= len {
            proof {
                self.taken_front@ = self.taken_front@ + self.slice@;
            }
            self.slice = slice_subrange(self.slice, len, len);
            proof {
                assert(self.slice@ =~= Seq::<T>::empty());
                if old(self).wf() {
                    assert(self.taken_front@ + self.slice@ =~= old(self).taken_front@
                        + old(self).slice@);
                }
            }
            return None;
        }
        let elem = slice_index_get(self.slice, n);
        self.slice = slice_subrange(self.slice, n + 1, len);
        proof {
            self.taken_front@ = self.taken_front@ + old(self).slice@.take(n + 1);
            assert(old(self).region().take(n + 1) =~= old(self).region().take(n as int).push(
                old(self).region()[n as int],
            ));
            if old(self).wf() {
                assert(self.taken_front@ + self.slice@ =~= old(self).taken_front@
                    + old(self).slice@);
            }
        }
        Some(elem)
    }

    /// Skips `n` elements from the back, then takes the next one in from the
    /// back.  If fewer than `n + 1` elements remain, the region becomes empty
    /// and the call reports exhaustion.
    pub fn nth_back(&mut self, n: usize) -> (r: Option<&'a T>)
        ensures
            old(self).wf() ==> final(self).wf(),
            final(self).full() == old(self).full(),
            final(self).taken_front() == old(self).taken_front(),
            n >= old(self).region().len() ==> {
                &&& r is None
                &&& final(self).region() == Seq::<T>::empty()
                &&& final(self).taken_back() == old(self).taken_back()
                    + old(self).region().reverse()
            },
            n < old(self).region().len() ==> {
                &&& r is Some
                &&& *r.unwrap() == old(self).region()[old(self).region().len() - 1 - n]
                &&& final(self).region() == old(self).region().take(
                    old(self).region().len() - 1 - n,
                )
                &&& final(self).taken_back() == old(self).taken_back()
                    + old(self).region().skip(
                    old(self).region().len() - 1 - n,
                ).reverse()
            },
    {
        let len = self.slice.len();
        if n >= len {
            proof {
                self.taken_back@ = self.taken_back@ + self.slice@.reverse();
            }
            self.slice = slice_subrange(self.slice, 0, 0);
            proof {
                assert(self.slice@ =~= Seq::<T>::empty());
                if old(self).wf() {
                    lemma_reverse_of_concat(old(self).taken_back@, old(self).slice@.reverse());
                    assert(old(self).slice@.reverse().reverse() =~= old(self).slice@);
                    assert(self.taken_front@ + self.slice@ + self.taken_back@.reverse()
                        =~= old(self).taken_front@ + old(self).slice@
                            + old(self).taken_back@.reverse());
                }
            }
            return None;
        }
        let at = len - 1 - n;
        let elem = slice_index_get(self.slice, at);
        self.slice = slice_subrange(self.slice, 0, at);
        proof {
            let dropped = old(self).slice@.skip(at as int);
            self.taken_back@ = self.taken_back@ + dropped.reverse();
            assert(old(self).slice@ =~= self.slice@ + dropped);
            if old(self).wf() {
                lemma_reverse_of_concat(old(self).taken_back@, dropped.reverse());
                assert(dropped.reverse().reverse() =~= dropped);
                assert(self.taken_front@ + self.slice@ + self.taken_back@.reverse()
                    =~= old(self).taken_front@ + old(self).slice@
                        + old(self).taken_back@.reverse());
            }
            assert(*elem == dropped.reverse()[dropped.len() - 1]);
        }
        Some(elem)
    }

    /// Exact size of the remaining region: lower and upper bound coincide.
    pub fn size_hint(&self) -> (r: (usize, Option<usize>))
        ensures
            r.0 == self.region().len(),
            r.1 == Some(r.0),
    {
        let n = self.slice.len();
        (n, Some(n))
    }

    /// Once the cursor is exhausted, the elements consumed from the front
    /// followed by the elements consumed from the back (read back-to-front)
    /// are exactly the original region: every element left the cursor exactly
    /// once, after one consuming call per element.
    pub proof fn lemma_exhausted_covers_full(&self)
        requires
            self.wf(),
            self.region().len() == 0,
        ensures
            self.taken_front() + self.taken_back().reverse() == self.full(),
            self.taken_front().len() + self.taken_back().len() == self.full().len(),
            self.taken_front().to_multiset().add(self.taken_back().to_multiset())
                == self.full().to_multiset(),
    {
        assert(self.taken_front() + self.taken_back().reverse() =~= self.taken_front()
            + self.region() + self.taken_back().reverse());
        self.taken_back().lemma_reverse_to_multiset();
        vstd::seq_lib::lemma_multiset_commutative(
            self.taken_front(),
            self.taken_back().reverse(),
        );
        assert(self.taken_front().to_multiset().add(self.taken_back().to_multiset())
            =~= self.full().to_multiset());
    }
}

/// Reversing a concatenation reverses the parts and swaps their order.
proof fn lemma_reverse_of_concat<T>(a: Seq<T>, b: Seq<T>)
    ensures
        (a + b).reverse() == b.reverse() + a.reverse(),
{
    assert((a + b).reverse() =~= b.reverse() + a.reverse());
}

} // verus!
