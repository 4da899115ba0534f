//! A double-ended cursor that hands out exclusive access to the elements of
//! an owned contiguous region, one slot at a time.

use vstd::prelude::*;

verus! {

/// Walks an owned buffer from both ends.  The live region is the index
/// window `[front, back)`; a consuming call shrinks it by one slot from the
/// chosen end and yields that slot's index.  A slot that has left the region
/// may then be read and written freely — the cursor refuses access to slots
/// still inside the region, so no two handles to a live element can coexist.
pub struct SliceIterMut<T> {
    buf: Vec<T>,
    front: usize,
    back: usize,
}

impl<T> SliceIterMut<T> {
    /// The whole backing buffer.
    pub closed spec fn elements(&self) -> Seq<T> {
        self.buf@
    }

    /// First index of the live region.
    pub closed spec fn front_idx(&self) -> int {
        self.front as int
    }

    /// One past the last index of the live region.
    pub closed spec fn back_idx(&self) -> int {
        self.back as int
    }

    /// The elements still ahead of the cursor.
    pub open spec fn region(&self) -> Seq<T> {
        self.elements().subrange(self.front_idx(), self.back_idx())
    }

    /// Whether `i` has already been yielded by one of the ends.
    pub open spec fn consumed(&self, i: int) -> bool {
        0 <= i < self.elements().len() && !(self.front_idx() <= i < self.back_idx())
    }

    pub open spec fn wf(&self) -> bool {
        0 <= self.front_idx() <= self.back_idx() <= self.elements().len()
    }

    /// Starts a cursor whose region is the whole buffer.
    pub fn new(buf: Vec<T>) -> (it: Self)
        ensures
            it.wf(),
            it.elements() == buf@,
            it.front_idx() == 0,
            it.back_idx() == buf@.len(),
    {
        let len = buf.len();
        SliceIterMut { buf, front: 0, back: len }
    }

    /// Gives the backing buffer back, consumed slots included.
    pub fn into_mut_slice(self) -> (v: Vec<T>)
        ensures
            v@ == self.elements(),
    {
        self.buf
    }

    /// Takes the front slot of the region and yields its index; reports
    /// exhaustion on an empty region.
    pub fn next(&mut self) -> (r: Option<usize>)
        requires
            old(self).wf(),
        ensures
            final(self).wf(),
            final(self).elements() == old(self).elements(),
            final(self).back_idx() == old(self).back_idx(),
            old(self).region().len() == 0 ==> r is None && *final(self) == *old(self),
            old(self).region().len() > 0 ==> {
                &&& r is Some
                &&& r.unwrap() == old(self).front_idx()
                &&& final(self).front_idx() == old(self).front_idx() + 1
            },
    {
        if self.front == self.back {
            return None;
        }
        let i = self.front;
        self.front = self.front + 1;
        Some(i)
    }

    /// Takes the back slot of the region and yields its index; reports
    /// exhaustion on an empty region.
    pub fn next_back(&mut self) -> (r: Option<usize>)
        requires
            old(self).wf(),
        ensures
            final(self).wf(),
            final(self).elements() == old(self).elements(),
            final(self).front_idx() == old(self).front_idx(),
            old(self).region().len() == 0 ==> r is None && *final(self) == *old(self),
            old(self).region().len() > 0 ==> {
                &&& r is Some
                &&& r.unwrap() == old(self).back_idx() - 1
                &&& final(self).back_idx() == old(self).back_idx() - 1
            },
    {
        if self.front == self.back {
            return None;
        }
        self.back = self.back - 1;
        Some(self.back)
    }

    /// Skips `n` slots from the front, then takes the next one.  If fewer
    /// than `n + 1` slots remain, the region becomes empty and the call
    /// reports exhaustion.
    pub fn nth(&mut self, n: usize) -> (r: Option<usize>)
        requires
            old(self).wf(),
        ensures
            final(self).wf(),
            final(self).elements() == old(self).elements(),
            final(self).back_idx() == old(self).back_idx(),
            n >= old(self).region().len() ==> {
                &&& r is None
                &&& final(self).front_idx() == final(self).back_idx()
            },
            n < old(self).region().len() ==> {
                &&& r is Some
                &&& r.unwrap() == old(self).front_idx() + n
                &&& final(self).front_idx() == old(self).front_idx() + n + 1
            },
    {
        if n >= self.back - self.front {
            self.front = self.back;
            return None;
        }
        let i = self.front + n;
        self.front = i + 1;
        Some(i)
    }

    /// Skips `n` slots from the back, then takes the next one in from the
    /// back.  If fewer than `n + 1` slots remain, the region becomes empty
    /// and the call reports exhaustion.
    pub fn nth_back(&mut self, n: usize) -> (r: Option<usize>)
        requires
            old(self).wf(),
        ensures
            final(self).wf(),
            final(self).elements() == old(self).elements(),
            final(self).front_idx() == old(self).front_idx(),
            n >= old(self).region().len() ==> {
                &&& r is None
                &&& final(self).front_idx() == final(self).back_idx()
            },
            n < old(self).region().len() ==> {
                &&& r is Some
                &&& r.unwrap() == old(self).back_idx() - 1 - n
                &&& final(self).back_idx() == old(self).back_idx() - 1 - n
            },
    {
        if n >= self.back - self.front {
            self.back = self.front;
            return None;
        }
        let i = self.back - 1 - n;
        self.back = i;
        Some(i)
    }

    /// Exact size of the remaining region: lower and upper bound coincide.
    pub fn size_hint(&self) -> (r: (usize, Option<usize>))
        requires
            self.wf(),
        ensures
            r.0 == self.region().len(),
            r.1 == Some(r.0),
    {
        let n = self.back - self.front;
        (n, Some(n))
    }

    /// Reads a slot that has already been yielded.
    pub fn get(&self, i: usize) -> (r: &T)
        requires
            self.wf(),
            self.consumed(i as int),
        ensures
            *r == self.elements()[i as int],
    {
        &self.buf[i]
    }

    /// Writes a slot that has already been yielded.
    pub fn set(&mut self, i: usize, value: T)
        requires
            old(self).wf(),
            old(self).consumed(i as int),
        ensures
            final(self).wf(),
            final(self).elements() == old(self).elements().update(i as int, value),
            final(self).front_idx() == old(self).front_idx(),
            final(self).back_idx() == old(self).back_idx(),
    {
        let elem = vstd::std_specs::vec::vec_index_mut(&mut self.buf, i);
        *elem = value;
    }

    /// Once the two ends have met, every slot of the buffer has been yielded
    /// by exactly one consuming call: interleaving the two ends in any order
    /// hands out each element exactly once.
    pub proof fn lemma_exhausted_covers_all_slots(&self)
        requires
            self.wf(),
            self.region().len() == 0,
        ensures
            forall|k: int| 0 <= k < self.elements().len() ==> self.consumed(k),
    {
    }

    /// Exchanges the contents of two slots that have already been yielded.
    pub fn swap(&mut self, i: usize, j: usize)
        requires
            old(self).wf(),
            old(self).consumed(i as int),
            old(self).consumed(j as int),
        ensures
            final(self).wf(),
            final(self).elements() == old(self).elements().update(
                i as int,
                old(self).elements()[j as int],
            ).update(j as int, old(self).elements()[i as int]),
            final(self).front_idx() == old(self).front_idx(),
            final(self).back_idx() == old(self).back_idx(),
    {
        if i == j {
            proof {
                assert(final(self).elements() =~= old(self).elements().update(
                    i as int,
                    old(self).elements()[j as int],
                ).update(j as int, old(self).elements()[i as int]));
            }
            return;
        }
        let (lo, hi) = if i < j {
            (i, j)
        } else {
            (j, i)
        };
        vec_swap(&mut self.buf, lo, hi);
        proof {
            assert(final(self).elements() =~= old(self).elements().update(
                i as int,
                old(self).elements()[j as int],
            ).update(j as int, old(self).elements()[i as int]));
        }
    }
}

/// Exchanges `v[i]` and `v[j]` through two disjoint exclusive handles.
fn vec_swap<T>(v: &mut Vec<T>, i: usize, j: usize)
    requires
        i < j < old(v)@.len(),
    ensures
        final(v)@ == old(v)@.update(i as int, old(v)@[j as int]).update(
            j as int,
            old(v)@[i as int],
        ),
{
    let ghost orig = v@;
    let s = v.as_mut_slice();
    let (left, right) = s.split_at_mut(j);
    let (_unused, li) = left.split_at_mut(i);
    let oi = li.first_mut();
    let oj = right.first_mut();
    match (oi, oj) {
        (Some(x), Some(y)) => {
            core::mem::swap(x, y);
        },
        _ => {
            proof {
                assert(false);
            }
        },
    }
    proof {
        assert(final(v)@ =~= orig.update(i as int, orig[j as int]).update(
            j as int,
            orig[i as int],
        ));
    }
}

} // verus!
