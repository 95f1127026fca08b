//! The filtering removal iterator: removes every element a predicate
//! selects, compacting the survivors in place, and hands the removed
//! elements out one at a time.
//!
//! The pass over the container happens the moment the iterator is created,
//! so no matter how the iterator is driven or when it is dropped, the
//! source container is already in its final, valid state — no element is
//! lost or duplicated; dropping the iterator early only discards the
//! removed elements it still owns.

use vstd::prelude::*;

verus! {

use crate::filter::mask_select;
use crate::storage::MiniVec;

/// An iterator over the elements a predicate removed from a container. It
/// owns exactly the elements it has not yet handed out.
pub struct DrainFilter<T> {
    items: Vec<T>,
}

impl<T> View for DrainFilter<T> {
    type V = Seq<T>;

    closed spec fn view(&self) -> Seq<T> {
        self.items@
    }
}

impl<T> DrainFilter<T> {
    /// Hands out the next removed element, in original order; `None` once
    /// they are exhausted.
    pub fn next(&mut self) -> (r: Option<T>)
        ensures
            old(self)@.len() > 0 ==> r == Some(old(self)@.first()) && final(self)@ == old(
                self,
            )@.drop_first(),
            old(self)@.len() == 0 ==> r == None::<T> && final(self)@ == old(self)@,
    {
        if self.items.len() > 0 {
            let x = self.items.remove(0);
            proof {
                assert(self.items@ =~= old(self)@.drop_first());
            }
            Some(x)
        } else {
            None
        }
    }

    /// The number of removed elements not yet handed out.
    pub fn len(&self) -> (r: usize)
        ensures
            r == self@.len(),
    {
        self.items.len()
    }
}

impl<T> MiniVec<T> {
    /// Removes every element for which `pred` returns true and returns an
    /// iterator that owns them, in their original order; the survivors are
    /// compacted in place, keeping their relative order. The capacity is
    /// untouched.
    pub fn drain_filter<F: Fn(&T) -> bool>(&mut self, pred: F) -> (d: DrainFilter<T>)
        requires
            old(self).wf(),
            forall|i: int| 0 <= i < old(self)@.len() ==> call_requires(pred, (&old(self)@[i],)),
        ensures
            final(self).wf(),
            final(self).spec_capacity() == old(self).spec_capacity(),
            final(self).spec_alignment() == old(self).spec_alignment(),
            exists|keep: Seq<bool>|
                {
                    &&& keep.len() == old(self)@.len()
                    &&& d@ == mask_select(old(self)@, keep)
                    &&& final(self)@ == mask_select(old(self)@, keep.map_values(|b: bool| !b))
                    &&& forall|i: int|
                        0 <= i < keep.len() ==> call_ensures(
                            pred,
                            (&old(self)@[i],),
                            #[trigger] keep[i],
                        )
                },
    {
        let mut src: Vec<T> = Vec::new();
        core::mem::swap(&mut self.buf, &mut src);
        let ghost orig = src@;
        proof {
            old(self).lemma_parts();
            assert(orig == old(self)@);
        }
        let mut kept: Vec<T> = Vec::new();
        let mut removed: Vec<T> = Vec::new();
        let ghost mut keep: Seq<bool> = Seq::empty();
        while src.len() > 0
            invariant
                keep.len() + src@.len() == orig.len(),
                src@ == orig.subrange(keep.len() as int, orig.len() as int),
                removed@ == mask_select(orig.subrange(0, keep.len() as int), keep),
                kept@ == mask_select(
                    orig.subrange(0, keep.len() as int),
                    keep.map_values(|b: bool| !b),
                ),
                kept@.len() <= keep.len(),
                forall|i: int|
                    0 <= i < keep.len() ==> call_ensures(pred, (&orig[i],), #[trigger] keep[i]),
                forall|i: int| 0 <= i < orig.len() ==> call_requires(pred, (&orig[i],)),
            decreases src@.len(),
        {
            let ghost k = keep.len() as int;
            let ghost keep0 = keep;
            let x = src.remove(0);
            proof {
                assert(x == orig[k]);
                assert(src@ =~= orig.subrange(k + 1, orig.len() as int));
            }
            if pred(&x) {
                removed.push(x);
                proof {
                    keep = keep.push(true);
                }
            } else {
                kept.push(x);
                proof {
                    keep = keep.push(false);
                }
            }
            proof {
                crate::filter::lemma_mask_select_push(orig.subrange(0, k), keep0, orig[k], keep[k]);
                crate::filter::lemma_mask_select_push(
                    orig.subrange(0, k),
                    keep0.map_values(|b: bool| !b),
                    orig[k],
                    !keep[k],
                );
                assert(orig.subrange(0, k).push(orig[k]) =~= orig.subrange(0, k + 1));
                assert(keep.map_values(|b: bool| !b) =~= keep0.map_values(|b: bool| !b).push(
                    !keep[k],
                ));
            }
        }
        self.buf = kept;
        proof {
            self.lemma_parts();
            assert(orig.subrange(0, orig.len() as int) =~= orig);
            assert(keep.len() == old(self)@.len() && removed@ == mask_select(old(self)@, keep)
                && self@ == mask_select(old(self)@, keep.map_values(|b: bool| !b)) && forall|i: int|
                0 <= i < keep.len() ==> call_ensures(pred, (&old(self)@[i],), #[trigger] keep[i]));
        }
        DrainFilter { items: removed }
    }
}

} // verus!
