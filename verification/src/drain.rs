//! The draining iterator: removes a contiguous subrange of a container and
//! hands its elements out one at a time, from either end.
//!
//! The container is restored — prefix followed by tail — the moment the
//! iterator is created, so no matter how the iterator is driven or when it
//! is dropped, the source container is already in its final, valid state;
//! dropping the iterator early only discards the elements it still owns.

use vstd::prelude::*;

verus! {

use crate::storage::MiniVec;

/// An iterator over the elements removed from a contiguous subrange of a
/// container. It owns exactly the elements it has not yet handed out.
pub struct Drain<T> {
    items: Vec<T>,
}

impl<T> View for Drain<T> {
    type V = Seq<T>;

    closed spec fn view(&self) -> Seq<T> {
        self.items@
    }
}

impl<T> Drain<T> {
    /// Hands out the next element from the front of the removed range;
    /// `None` once the range is exhausted.
    pub fn next(&mut self) -> (r: Option<T>)
        ensures
            old(self)@.len() > 0 ==> r == Some(old(self)@.first()) && final(self)@ == old(
                self,
            )@.drop_first(),
            old(self)@.len() == 0 ==> r == None::<T> && final(self)@ == old(self)@,
    {
        if self.items.len() > 0 {
            let x = self.items.remove(0);
            proof {
                assert(self.items@ =~= old(self)@.drop_first());
            }
            Some(x)
        } else {
            None
        }
    }

    /// Hands out the next element from the back of the removed range;
    /// `None` once the range is exhausted. The two ends never cross.
    pub fn next_back(&mut self) -> (r: Option<T>)
        ensures
            old(self)@.len() > 0 ==> r == Some(old(self)@.last()) && final(self)@ == old(
                self,
            )@.drop_last(),
            old(self)@.len() == 0 ==> r == None::<T> && final(self)@ == old(self)@,
    {
        let r = self.items.pop();
        proof {
            if old(self)@.len() > 0 {
                assert(self.items@ =~= old(self)@.drop_last());
            }
        }
        r
    }

    /// The number of elements not yet handed out.
    pub fn len(&self) -> (r: usize)
        ensures
            r == self@.len(),
    {
        self.items.len()
    }

    /// Whether every element has been handed out.
    pub fn is_empty(&self) -> (r: bool)
        ensures
            r == (self@.len() == 0),
    {
        self.items.len() == 0
    }
}

impl<T> MiniVec<T> {
    /// Removes the elements at `[range.start, range.end)` and returns an
    /// iterator that owns them, in their original order. The container
    /// itself immediately holds the prefix followed by the untouched tail;
    /// its capacity is untouched. The range must lie inside the container.
    pub fn drain(&mut self, range: core::ops::Range<usize>) -> (d: Drain<T>)
        requires
            old(self).wf(),
            range.start <= range.end,
            range.end <= old(self)@.len(),
        ensures
            final(self).wf(),
            final(self).spec_capacity() == old(self).spec_capacity(),
            final(self).spec_alignment() == old(self).spec_alignment(),
            final(self)@ == old(self)@.subrange(0, range.start as int) + old(self)@.subrange(
                range.end as int,
                old(self)@.len() as int,
            ),
            d@ == old(self)@.subrange(range.start as int, range.end as int),
    {
        proof {
            old(self).lemma_parts();
        }
        let mut tail = self.buf.split_off(range.end);
        let removed = self.buf.split_off(range.start);
        self.buf.append(&mut tail);
        proof {
            self.lemma_parts();
        }
        Drain { items: removed }
    }
}

} // verus!
