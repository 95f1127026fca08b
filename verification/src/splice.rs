//! The splicing iterator: removes a contiguous subrange of a container,
//! puts a replacement sequence in its place, and hands the removed
//! elements out one at a time.
//!
//! The container is rebuilt — prefix, replacement, then tail — the moment
//! the iterator is created, so no matter how the iterator is driven or when
//! it is dropped, the source container is already in its final, valid
//! state; dropping the iterator early only discards the elements it still
//! owns.

use vstd::prelude::*;

verus! {

use crate::storage::MiniVec;
use crate::storage::spec_reserved_capacity;

/// An iterator over the elements a splice removed from a container. It
/// owns exactly the elements it has not yet handed out.
pub struct Splice<T> {
    items: Vec<T>,
}

impl<T> View for Splice<T> {
    type V = Seq<T>;

    closed spec fn view(&self) -> Seq<T> {
        self.items@
    }
}

impl<T> Splice<T> {
    /// Hands out the next element from the front of the removed range;
    /// `None` once the range is exhausted.
    pub fn next(&mut self) -> (r: Option<T>)
        ensures
            old(self)@.len() > 0 ==> r == Some(old(self)@.first()) && final(self)@ == old(
                self,
            )@.drop_first(),
            old(self)@.len() == 0 ==> r == None::<T> && final(self)@ == old(self)@,
    {
        if self.items.len() > 0 {
            let x = self.items.remove(0);
            proof {
                assert(self.items@ =~= old(self)@.drop_first());
            }
            Some(x)
        } else {
            None
        }
    }

    /// The number of elements not yet handed out.
    pub fn len(&self) -> (r: usize)
        ensures
            r == self@.len(),
    {
        self.items.len()
    }
}

impl<T> MiniVec<T> {
    /// Removes the elements at `[range.start, range.end)`, puts the
    /// elements of `replace_with` in their place, and returns an iterator
    /// that owns the removed elements, in their original order. The
    /// container itself immediately holds prefix, replacement, then tail,
    /// growing along the growth policy when the replacement needs more room
    /// than the range freed. The range must lie inside the container.
    pub fn splice(&mut self, range: core::ops::Range<usize>, replace_with: Vec<T>) -> (s: Splice<
        T,
    >)
        requires
            old(self).wf(),
            range.start <= range.end,
            range.end <= old(self)@.len(),
            old(self)@.len() - (range.end - range.start) + replace_with@.len() <= usize::MAX,
        ensures
            final(self).wf(),
            final(self).spec_alignment() == old(self).spec_alignment(),
            final(self)@ == old(self)@.subrange(0, range.start as int) + replace_with@ + old(
                self,
            )@.subrange(range.end as int, old(self)@.len() as int),
            s@ == old(self)@.subrange(range.start as int, range.end as int),
            final(self).spec_capacity() as int == spec_reserved_capacity(
                old(self).spec_capacity() as int,
                old(self)@.len() - (range.end - range.start) + replace_with@.len(),
            ),
    {
        proof {
            old(self).lemma_parts();
        }
        let mut tail = self.buf.split_off(range.end);
        let removed = self.buf.split_off(range.start);
        proof {
            self.lemma_parts();
        }
        let mut rep = replace_with;
        let additional = rep.len() + tail.len();
        self.reserve(additional);
        proof {
            self.lemma_parts();
        }
        self.buf.append(&mut rep);
        self.buf.append(&mut tail);
        proof {
            self.lemma_parts();
        }
        Splice { items: removed }
    }
}

} // verus!
