//! A drain cursor: removes a contiguous range from a growable array,
//! yielding the removed elements by value from either end, and leaves the
//! remaining elements contiguous and in their original relative order.

use vstd::prelude::*;

verus! {

/// Drains the range `[start, end)` out of an array.
///
/// At construction the suffix of the array beginning at `start` is cyclically
/// rotated left by `end - start` places, so that the elements to be removed
/// become the tail of the backing storage while the remaining elements close
/// ranks in their original relative order; the array's logical length is cut
/// down to exclude that tail.  The tail is the cursor's region: `next` and
/// `next_back` move single elements out of it, `nth` and `nth_back` destroy
/// skipped elements, and `finish` destroys whatever is still in the region —
/// so every removed element leaves the storage exactly once, however far
/// iteration got.
pub struct VecDrain<T> {
    vec: Vec<T>,
    kept: usize,
    orig: Ghost<Seq<T>>,
    start: Ghost<int>,
    end: Ghost<int>,
    taken_front: Ghost<int>,
    taken_back: Ghost<int>,
}

impl<T> VecDrain<T> {
    /// The array contents the cursor was created over.
    pub closed spec fn orig(&self) -> Seq<T> {
        self.orig@
    }

    /// Start of the drained range.
    pub closed spec fn start(&self) -> int {
        self.start@
    }

    /// End (exclusive) of the drained range.
    pub closed spec fn end(&self) -> int {
        self.end@
    }

    /// How many elements have been consumed from the front of the range.
    pub closed spec fn taken_front(&self) -> int {
        self.taken_front@
    }

    /// How many elements have been consumed from the back of the range.
    pub closed spec fn taken_back(&self) -> int {
        self.taken_back@
    }

    /// The not-yet-consumed part of the removed range.
    pub closed spec fn region(&self) -> Seq<T> {
        self.vec@.skip(self.kept as int)
    }

    /// What the array keeps: everything outside `[start, end)`, in order.
    pub open spec fn retained(&self) -> Seq<T> {
        self.orig().subrange(0, self.start()) + self.orig().subrange(
            self.end(),
            self.orig().len() as int,
        )
    }

    /// The removed range itself.
    pub open spec fn drained(&self) -> Seq<T> {
        self.orig().subrange(self.start(), self.end())
    }

    /// The part of the removed range consumed from the front, in array order.
    pub open spec fn consumed_front(&self) -> Seq<T> {
        self.orig().subrange(self.start(), self.start() + self.taken_front())
    }

    /// The part of the removed range consumed from the back, in array order
    /// (its elements left the cursor back-to-front).
    pub open spec fn consumed_back(&self) -> Seq<T> {
        self.orig().subrange(self.end() - self.taken_back(), self.end())
    }

    pub closed spec fn wf(&self) -> bool {
        &&& 0 <= self.start@ <= self.end@ <= self.orig@.len()
        &&& 0 <= self.taken_front@
        &&& 0 <= self.taken_back@
        &&& self.taken_front@ + self.taken_back@ <= self.end@ - self.start@
        &&& self.kept as int == self.orig@.len() - (self.end@ - self.start@)
        &&& self.vec@.len() == self.kept as int + (self.end@ - self.start@)
            - self.taken_front@ - self.taken_back@
        &&& self.vec@.subrange(0, self.kept as int) == self.orig@.subrange(0, self.start@)
            + self.orig@.subrange(self.end@, self.orig@.len() as int)
        &&& self.vec@.skip(self.kept as int) == self.orig@.subrange(
            self.start@ + self.taken_front@,
            self.end@ - self.taken_back@,
        )
    }

    /// Takes the array and the range `[start, end)` to remove; relocates the
    /// range to the tail of the backing storage by rotating the suffix
    /// `[start, len)` left by `end - start` places.
    pub fn new(vec: Vec<T>, start: usize, end: usize) -> (d: Self)
        requires
            start <= end <= vec@.len(),
        ensures
            d.wf(),
            d.orig() == vec@,
            d.start() == start,
            d.end() == end,
            d.taken_front() == 0,
            d.taken_back() == 0,
            d.region() == vec@.subrange(start as int, end as int),
    {
        let ghost orig = vec@;
        let mut vec = vec;
        let len = vec.len();
        let count = end - start;
        let mut suffix = vec.split_off(start);
        crate::rotate_left(&mut suffix, count);
        vec.append(&mut suffix);
        let d = VecDrain {
            vec,
            kept: len - count,
            orig: Ghost(orig),
            start: Ghost(start as int),
            end: Ghost(end as int),
            taken_front: Ghost(0),
            taken_back: Ghost(0),
        };
        proof {
            assert(d.vec@.subrange(0, d.kept as int) =~= orig.subrange(0, start as int)
                + orig.subrange(end as int, orig.len() as int));
            assert(d.vec@.skip(d.kept as int) =~= orig.subrange(start as int, end as int));
        }
        d
    }

    /// Drains from `start` to the end of the array: the unbounded-end
    /// shorthand for [`Self::new`].
    pub fn new_from(vec: Vec<T>, start: usize) -> (d: Self)
        requires
            start <= vec@.len(),
        ensures
            d.wf(),
            d.orig() == vec@,
            d.start() == start,
            d.end() == vec@.len(),
            d.taken_front() == 0,
            d.taken_back() == 0,
            d.region() == vec@.subrange(start as int, vec@.len() as int),
    {
        let end = vec.len();
        Self::new(vec, start, end)
    }

    /// Drains from the beginning of the array up to `end`: the
    /// unbounded-start shorthand for [`Self::new`].
    pub fn new_to(vec: Vec<T>, end: usize) -> (d: Self)
        requires
            end <= vec@.len(),
        ensures
            d.wf(),
            d.orig() == vec@,
            d.start() == 0,
            d.end() == end,
            d.taken_front() == 0,
            d.taken_back() == 0,
            d.region() == vec@.subrange(0, end as int),
    {
        Self::new(vec, 0, end)
    }

    /// Moves the front element out of the region.
    fn take_front(&mut self) -> (x: T)
        requires
            old(self).wf(),
            old(self).region().len() > 0,
        ensures
            final(self).wf(),
            x == old(self).region()[0],
            final(self).region() == old(self).region().drop_first(),
            final(self).taken_front() == old(self).taken_front() + 1,
            final(self).taken_back() == old(self).taken_back(),
            final(self).orig() == old(self).orig(),
            final(self).start() == old(self).start(),
            final(self).end() == old(self).end(),
    {
        let x = self.vec.remove(self.kept);
        proof {
            self.taken_front@ = self.taken_front@ + 1;
            assert(self.vec@.subrange(0, self.kept as int) =~= old(self).vec@.subrange(
                0,
                self.kept as int,
            ));
            assert(self.vec@.skip(self.kept as int) =~= old(self).vec@.skip(
                self.kept as int,
            ).drop_first());
            assert(old(self).orig@.subrange(
                old(self).start@ + old(self).taken_front@,
                old(self).end@ - old(self).taken_back@,
            ).drop_first() =~= self.orig@.subrange(
                self.start@ + self.taken_front@,
                self.end@ - self.taken_back@,
            ));
        }
        x
    }

    /// Moves the back element out of the region.
    fn take_back(&mut self) -> (x: T)
        requires
            old(self).wf(),
            old(self).region().len() > 0,
        ensures
            final(self).wf(),
            x == old(self).region().last(),
            final(self).region() == old(self).region().drop_last(),
            final(self).taken_back() == old(self).taken_back() + 1,
            final(self).taken_front() == old(self).taken_front(),
            final(self).orig() == old(self).orig(),
            final(self).start() == old(self).start(),
            final(self).end() == old(self).end(),
    {
        let x = match self.vec.pop() {
            Some(x) => x,
            None => {
                proof {
                    assert(false);
                }
                unreached()
            },
        };
        proof {
            self.taken_back@ = self.taken_back@ + 1;
            assert(self.vec@.subrange(0, self.kept as int) =~= old(self).vec@.subrange(
                0,
                self.kept as int,
            ));
            assert(self.vec@.skip(self.kept as int) =~= old(self).vec@.skip(
                self.kept as int,
            ).drop_last());
            assert(old(self).orig@.subrange(
                old(self).start@ + old(self).taken_front@,
                old(self).end@ - old(self).taken_back@,
            ).drop_last() =~= self.orig@.subrange(
                self.start@ + self.taken_front@,
                self.end@ - self.taken_back@,
            ));
        }
        x
    }

    /// Yields the front element of the region by value, or reports
    /// exhaustion once the region is empty.
    pub fn next(&mut self) -> (r: Option<T>)
        requires
            old(self).wf(),
        ensures
            final(self).wf(),
            final(self).orig() == old(self).orig(),
            final(self).start() == old(self).start(),
            final(self).end() == old(self).end(),
            final(self).taken_back() == old(self).taken_back(),
            old(self).region().len() == 0 ==> {
                &&& r is None
                &&& *final(self) == *old(self)
            },
            old(self).region().len() > 0 ==> {
                &&& r == Some(old(self).region()[0])
                &&& final(self).region() == old(self).region().drop_first()
                &&& final(self).taken_front() == old(self).taken_front() + 1
            },
    {
        if self.vec.len() == self.kept {
            return None;
        }
        Some(self.take_front())
    }

    /// Yields the back element of the region by value, or reports exhaustion
    /// once the region is empty.  Repeating this until exhaustion drains the
    /// whole range back-to-front.
    pub fn next_back(&mut self) -> (r: Option<T>)
        requires
            old(self).wf(),
        ensures
            final(self).wf(),
            final(self).orig() == old(self).orig(),
            final(self).start() == old(self).start(),
            final(self).end() == old(self).end(),
            final(self).taken_front() == old(self).taken_front(),
            old(self).region().len() == 0 ==> {
                &&& r is None
                &&& *final(self) == *old(self)
            },
            old(self).region().len() > 0 ==> {
                &&& r == Some(old(self).region().last())
                &&& final(self).region() == old(self).region().drop_last()
                &&& final(self).taken_back() == old(self).taken_back() + 1
            },
    {
        if self.vec.len() == self.kept {
            return None;
        }
        Some(self.take_back())
    }

    /// Destroys the next `n` elements of the region (clamped to what
    /// remains), then yields the element after them, if any.
    pub fn nth(&mut self, n: usize) -> (r: Option<T>)
        requires
            old(self).wf(),
        ensures
            final(self).wf(),
            final(self).orig() == old(self).orig(),
            final(self).start() == old(self).start(),
            final(self).end() == old(self).end(),
            final(self).taken_back() == old(self).taken_back(),
            n >= old(self).region().len() ==> {
                &&& r is None
                &&& final(self).region() == Seq::<T>::empty()
                &&& final(self).taken_front() == old(self).taken_front()
                    + old(self).region().len()
            },
            n < old(self).region().len() ==> {
                &&& r == Some(old(self).region()[n as int])
                &&& final(self).region() == old(self).region().skip(n + 1)
                &&& final(self).taken_front() == old(self).taken_front() + n + 1
            },
    {
        let mut skipped: usize = 0;
        while skipped < n && self.vec.len() > self.kept
            invariant
                self.wf(),
                skipped <= n,
                skipped as int <= old(self).region().len(),
                self.orig() == old(self).orig(),
                self.start() == old(self).start(),
                self.end() == old(self).end(),
                self.taken_back() == old(self).taken_back(),
                self.taken_front() == old(self).taken_front() + skipped,
                self.region() == old(self).region().skip(skipped as int),
            decreases n - skipped,
        {
            let _discarded = self.take_front();
            skipped = skipped + 1;
            proof {
                assert(old(self).region().skip(skipped as int - 1).drop_first()
                    =~= old(self).region().skip(skipped as int));
            }
        }
        let r = self.next();
        proof {
            if n < old(self).region().len() {
                assert(self.region() =~= old(self).region().skip(n + 1));
            } else {
                assert(self.region() =~= Seq::<T>::empty());
                assert(self.taken_front() == old(self).taken_front()
                    + old(self).region().len());
            }
        }
        r
    }

    /// Destroys the next `n` elements in from the back of the region
    /// (clamped to what remains), then yields the element before them, if
    /// any.
    pub fn nth_back(&mut self, n: usize) -> (r: Option<T>)
        requires
            old(self).wf(),
        ensures
            final(self).wf(),
            final(self).orig() == old(self).orig(),
            final(self).start() == old(self).start(),
            final(self).end() == old(self).end(),
            final(self).taken_front() == old(self).taken_front(),
            n >= old(self).region().len() ==> {
                &&& r is None
                &&& final(self).region() == Seq::<T>::empty()
                &&& final(self).taken_back() == old(self).taken_back()
                    + old(self).region().len()
            },
            n < old(self).region().len() ==> {
                &&& r == Some(old(self).region()[old(self).region().len() - 1 - n])
                &&& final(self).region() == old(self).region().take(
                    old(self).region().len() - 1 - n,
                )
                &&& final(self).taken_back() == old(self).taken_back() + n + 1
            },
    {
        let mut skipped: usize = 0;
        while skipped < n && self.vec.len() > self.kept
            invariant
                self.wf(),
                skipped <= n,
                skipped as int <= old(self).region().len(),
                self.orig() == old(self).orig(),
                self.start() == old(self).start(),
                self.end() == old(self).end(),
                self.taken_front() == old(self).taken_front(),
                self.taken_back() == old(self).taken_back() + skipped,
                self.region() == old(self).region().take(
                    old(self).region().len() - skipped,
                ),
            decreases n - skipped,
        {
            let _discarded = self.take_back();
            skipped = skipped + 1;
            proof {
                assert(old(self).region().take(
                    old(self).region().len() - skipped + 1,
                ).drop_last() =~= old(self).region().take(
                    old(self).region().len() - skipped,
                ));
            }
        }
        let r = self.next_back();
        proof {
            if n < old(self).region().len() {
                assert(self.region() =~= old(self).region().take(
                    old(self).region().len() - 1 - n,
                ));
            } else {
                assert(self.region() =~= Seq::<T>::empty());
                assert(self.taken_back() == old(self).taken_back()
                    + old(self).region().len());
            }
        }
        r
    }

    /// Exact size of the remaining region: lower and upper bound coincide.
    pub fn size_hint(&self) -> (r: (usize, Option<usize>))
        requires
            self.wf(),
        ensures
            r.0 == self.region().len(),
            r.1 == Some(r.0),
    {
        let n = self.vec.len() - self.kept;
        (n, Some(n))
    }

    /// Yields the backmost not-yet-consumed element and ends the drain in
    /// one step, destroying the rest of the region and giving the array
    /// back.
    pub fn last(self) -> (r: (Option<T>, Vec<T>))
        requires
            self.wf(),
        ensures
            self.region().len() == 0 ==> r.0 is None,
            self.region().len() > 0 ==> r.0 == Some(self.region().last()),
            r.1@ == self.retained(),
            r.1@.len() == self.orig().len() - (self.end() - self.start()),
    {
        let mut d = self;
        let x = d.next_back();
        let v = d.finish();
        (x, v)
    }

    /// Ends the drain, wherever iteration stopped: destroys every element
    /// still in the region and gives the array back, its length permanently
    /// reduced by the size of the removed range and the remaining elements
    /// contiguous and in their original relative order.
    pub fn finish(self) -> (v: Vec<T>)
        requires
            self.wf(),
        ensures
            v@ == self.retained(),
            v@.len() == self.orig().len() - (self.end() - self.start()),
    {
        let mut vec = self.vec;
        vec.truncate(self.kept);
        vec
    }

    /// The region is always the middle of the removed range: what is left
    /// after cutting the consumed prefix and the consumed suffix off.
    pub proof fn lemma_region_within_range(&self)
        requires
            self.wf(),
        ensures
            self.region() == self.orig().subrange(
                self.start() + self.taken_front(),
                self.end() - self.taken_back(),
            ),
            self.region().len() == self.end() - self.start() - self.taken_front()
                - self.taken_back(),
    {
    }

    /// Once the region is exhausted, the consumed prefix and the consumed
    /// suffix together are exactly the removed range: each of its elements
    /// was moved out or destroyed exactly once, whichever end it left by.
    pub proof fn lemma_exhausted_accounts_for_range(&self)
        requires
            self.wf(),
            self.region().len() == 0,
        ensures
            self.taken_front() + self.taken_back() == self.end() - self.start(),
            self.consumed_front() + self.consumed_back() == self.drained(),
            self.consumed_front().to_multiset().add(self.consumed_back().to_multiset())
                == self.drained().to_multiset(),
    {
        self.lemma_region_within_range();
        assert(self.consumed_front() + self.consumed_back() =~= self.drained());
        vstd::seq_lib::lemma_multiset_commutative(
            self.consumed_front(),
            self.consumed_back(),
        );
    }
}

} // verus!
