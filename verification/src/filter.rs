//! Predicate-driven removal: `retain`, the `dedup` family, and removal by
//! value. Each operation makes a single left-to-right pass that compacts the
//! surviving elements, preserving their relative order.

use vstd::prelude::*;

verus! {

use vstd::std_specs::cmp::PartialEqSpec;
use crate::storage::MiniVec;

/// The elements of `s` at the positions where `keep` is true, in order.
pub open spec fn mask_select<T>(s: Seq<T>, keep: Seq<bool>) -> Seq<T>
    recommends
        s.len() == keep.len(),
    decreases s.len(),
{
    if s.len() == 0 || keep.len() == 0 {
        Seq::empty()
    } else if keep.last() {
        mask_select(s.drop_last(), keep.drop_last()).push(s.last())
    } else {
        mask_select(s.drop_last(), keep.drop_last())
    }
}

/// The position of the last `true` in `keep` strictly before position `i`
/// (position 0 when there is none).
pub open spec fn last_true_before(keep: Seq<bool>, i: int) -> int
    recommends
        0 < i <= keep.len(),
    decreases i,
{
    if i <= 1 {
        0
    } else if keep[i - 1] {
        i - 1
    } else {
        last_true_before(keep, i - 1)
    }
}

/// Extending the mask on the right does not change where the last `true`
/// before an existing position sits.
proof fn lemma_last_true_before_extend(keep: Seq<bool>, b: bool, i: int)
    requires
        0 < i <= keep.len(),
    ensures
        last_true_before(keep.push(b), i) == last_true_before(keep, i),
    decreases i,
{
    if i > 1 {
        if !keep.push(b)[i - 1] {
            lemma_last_true_before_extend(keep, b, i - 1);
        }
    }
}

/// The last `true` before `i` sits strictly before `i`.
proof fn lemma_last_true_before_bounds(keep: Seq<bool>, i: int)
    requires
        0 < i,
    ensures
        0 <= last_true_before(keep, i) < i,
    decreases i,
{
    if i > 1 && !keep[i - 1] {
        lemma_last_true_before_bounds(keep, i - 1);
    }
}

/// When `keep` is true at `j` and false strictly between `j` and `i`, the
/// last `true` before `i` is `j`.
proof fn lemma_last_true_before_value(keep: Seq<bool>, j: int, i: int)
    requires
        0 <= j < i <= keep.len(),
        keep[j],
        forall|m: int| j < m < i ==> !keep[m],
    ensures
        last_true_before(keep, i) == j,
    decreases i,
{
    if i - 1 > j {
        lemma_last_true_before_value(keep, j, i - 1);
    }
}

/// Selecting through a mask commutes with appending one element and its
/// mask entry.
pub(crate) proof fn lemma_mask_select_push<T>(s: Seq<T>, keep: Seq<bool>, x: T, b: bool)
    requires
        s.len() == keep.len(),
    ensures
        mask_select(s.push(x), keep.push(b)) == (if b {
            mask_select(s, keep).push(x)
        } else {
            mask_select(s, keep)
        }),
{
    assert(s.push(x).drop_last() =~= s);
    assert(keep.push(b).drop_last() =~= keep);
}

/// The result of de-duplicating adjacent elements of `s`: an element is
/// dropped exactly when it equals (per `eq_spec`) the element most recently
/// kept before it; the first element is always kept.
pub open spec fn spec_dedup<T: PartialEq>(s: Seq<T>) -> Seq<T>
    decreases s.len(),
{
    if s.len() <= 1 {
        s
    } else {
        let prefix = spec_dedup(s.drop_last());
        if s.last().eq_spec(&prefix.last()) {
            prefix
        } else {
            prefix.push(s.last())
        }
    }
}

/// The position of the first element of `s` equal (per `eq_spec`) to
/// `item`, when there is one.
pub open spec fn spec_first_eq<T: PartialEq<V>, V>(s: Seq<T>, item: V) -> Option<int>
    decreases s.len(),
{
    if s.len() == 0 {
        None
    } else if s[0].eq_spec(&item) {
        Some(0 as int)
    } else {
        match spec_first_eq(s.drop_first(), item) {
            Some(i) => Some(i + 1),
            None => None,
        }
    }
}

/// A scan that found no match in `s[0..i]` leaves the first match of `s`
/// wherever the rest of the scan finds it.
proof fn lemma_spec_first_eq_step<T: PartialEq<V>, V>(s: Seq<T>, item: V, i: int)
    requires
        0 <= i <= s.len(),
        forall|m: int| 0 <= m < i ==> !s[m].eq_spec(&item),
    ensures
        spec_first_eq(s, item) == (match spec_first_eq(s.subrange(i, s.len() as int), item) {
            Some(k) => Some(i + k),
            None => None::<int>,
        }),
    decreases i,
{
    if i == 0 {
        assert(s.subrange(0, s.len() as int) =~= s);
    } else {
        lemma_spec_first_eq_step(s.drop_first(), item, i - 1);
        assert(s.drop_first().subrange(i - 1, s.drop_first().len() as int) =~= s.subrange(
            i,
            s.len() as int,
        ));
    }
}

impl<T> MiniVec<T> {
    /// Keeps exactly the elements for which `f` returns true, in their
    /// original order, destroying the rest. The capacity is untouched.
    pub fn retain<F: Fn(&T) -> bool>(&mut self, f: F)
        requires
            old(self).wf(),
            forall|i: int| 0 <= i < old(self)@.len() ==> call_requires(f, (&old(self)@[i],)),
        ensures
            final(self).wf(),
            final(self).spec_capacity() == old(self).spec_capacity(),
            final(self).spec_alignment() == old(self).spec_alignment(),
            exists|keep: Seq<bool>|
                {
                    &&& keep.len() == old(self)@.len()
                    &&& final(self)@ == mask_select(old(self)@, keep)
                    &&& forall|i: int|
                        0 <= i < keep.len() ==> call_ensures(f, (&old(self)@[i],), #[trigger] keep[i])
                },
    {
        let mut src: Vec<T> = Vec::new();
        core::mem::swap(&mut self.buf, &mut src);
        let ghost orig = src@;
        proof {
            old(self).lemma_parts();
            assert(orig == old(self)@);
        }
        let mut kept: Vec<T> = Vec::new();
        let ghost mut keep: Seq<bool> = Seq::empty();
        while src.len() > 0
            invariant
                keep.len() + src@.len() == orig.len(),
                src@ == orig.subrange(keep.len() as int, orig.len() as int),
                kept@ == mask_select(orig.subrange(0, keep.len() as int), keep),
                kept@.len() <= keep.len(),
                forall|i: int|
                    0 <= i < keep.len() ==> call_ensures(f, (&orig[i],), #[trigger] keep[i]),
                forall|i: int| 0 <= i < orig.len() ==> call_requires(f, (&orig[i],)),
            decreases src@.len(),
        {
            let ghost k = keep.len() as int;
            let ghost keep0 = keep;
            let x = src.remove(0);
            proof {
                assert(x == orig[k]);
                assert(src@ =~= orig.subrange(k + 1, orig.len() as int));
            }
            if f(&x) {
                kept.push(x);
                proof {
                    keep = keep.push(true);
                }
            } else {
                proof {
                    keep = keep.push(false);
                }
            }
            proof {
                lemma_mask_select_push(orig.subrange(0, k), keep0, orig[k], keep[k]);
                assert(orig.subrange(0, k).push(orig[k]) =~= orig.subrange(0, k + 1));
            }
        }
        self.buf = kept;
        proof {
            self.lemma_parts();
            assert(orig.subrange(0, orig.len() as int) =~= orig);
            assert(keep.len() == old(self)@.len() && self@ == mask_select(old(self)@, keep)
                && forall|i: int|
                0 <= i < keep.len() ==> call_ensures(f, (&old(self)@[i],), #[trigger] keep[i]));
        }
    }

    /// Removes every element for which `pred`, applied to it and to the
    /// element most recently kept before it, returns true; the first
    /// element is always kept. The capacity is untouched.
    pub fn dedup_by<F: Fn(&T, &T) -> bool>(&mut self, pred: F)
        requires
            old(self).wf(),
            forall|i: int, j: int|
                0 <= i < old(self)@.len() && 0 <= j < old(self)@.len() ==> call_requires(
                    pred,
                    (&old(self)@[i], &old(self)@[j]),
                ),
        ensures
            final(self).wf(),
            final(self).spec_capacity() == old(self).spec_capacity(),
            final(self).spec_alignment() == old(self).spec_alignment(),
            exists|keep: Seq<bool>|
                {
                    &&& keep.len() == old(self)@.len()
                    &&& (old(self)@.len() > 0 ==> keep[0])
                    &&& final(self)@ == mask_select(old(self)@, keep)
                    &&& forall|i: int|
                        1 <= i < keep.len() ==> call_ensures(
                            pred,
                            (&old(self)@[i], &old(self)@[last_true_before(keep, i)]),
                            !(#[trigger] keep[i]),
                        )
                },
    {
        let mut src: Vec<T> = Vec::new();
        core::mem::swap(&mut self.buf, &mut src);
        let ghost orig = src@;
        proof {
            old(self).lemma_parts();
            assert(orig == old(self)@);
        }
        let mut kept: Vec<T> = Vec::new();
        let ghost mut keep: Seq<bool> = Seq::empty();
        let ghost mut j: int = 0;
        while src.len() > 0
            invariant
                keep.len() + src@.len() == orig.len(),
                src@ == orig.subrange(keep.len() as int, orig.len() as int),
                kept@ == mask_select(orig.subrange(0, keep.len() as int), keep),
                kept@.len() <= keep.len(),
                keep.len() > 0 ==> keep[0],
                keep.len() > 0 ==> 0 <= j < keep.len() && keep[j] && kept@.len() > 0
                    && kept@.last() == orig[j],
                forall|m: int| j < m < keep.len() ==> !keep[m],
                forall|i: int|
                    1 <= i < keep.len() ==> call_ensures(
                        pred,
                        (&orig[i], &orig[last_true_before(keep, i)]),
                        !(#[trigger] keep[i]),
                    ),
                forall|i: int, jj: int|
                    0 <= i < orig.len() && 0 <= jj < orig.len() ==> call_requires(
                        pred,
                        (&orig[i], &orig[jj]),
                    ),
            decreases src@.len(),
        {
            let ghost k = keep.len() as int;
            let ghost keep0 = keep;
            let x = src.remove(0);
            proof {
                assert(x == orig[k]);
                assert(src@ =~= orig.subrange(k + 1, orig.len() as int));
            }
            if kept.len() == 0 {
                kept.push(x);
                proof {
                    keep = keep.push(true);
                    j = 0;
                }
            } else {
                let dup = pred(&x, &kept[kept.len() - 1]);
                if dup {
                    proof {
                        keep = keep.push(false);
                    }
                } else {
                    kept.push(x);
                    proof {
                        keep = keep.push(true);
                    }
                }
                proof {
                    assert forall|i: int| 1 <= i < k implies last_true_before(keep, i)
                        == last_true_before(keep0, i) by {
                        lemma_last_true_before_extend(keep0, keep[k], i);
                    }
                    lemma_last_true_before_value(keep, j, k);
                    if !dup {
                        j = k;
                    }
                }
            }
            proof {
                lemma_mask_select_push(orig.subrange(0, k), keep0, orig[k], keep[k]);
                assert(orig.subrange(0, k).push(orig[k]) =~= orig.subrange(0, k + 1));
            }
        }
        self.buf = kept;
        proof {
            self.lemma_parts();
            assert(orig.subrange(0, orig.len() as int) =~= orig);
            assert(keep.len() == old(self)@.len() && (old(self)@.len() > 0 ==> keep[0]) && self@
                == mask_select(old(self)@, keep) && forall|i: int|
                1 <= i < keep.len() ==> call_ensures(
                    pred,
                    (&old(self)@[i], &old(self)@[last_true_before(keep, i)]),
                    !(#[trigger] keep[i]),
                ));
        }
    }

    /// Removes every element equal to the element most recently kept before
    /// it; the first element of every run of equal elements is kept. The
    /// capacity is untouched.
    pub fn dedup(&mut self) where T: PartialEq
        requires
            old(self).wf(),
        ensures
            final(self).wf(),
            final(self).spec_capacity() == old(self).spec_capacity(),
            final(self).spec_alignment() == old(self).spec_alignment(),
            <T as PartialEqSpec>::obeys_eq_spec() ==> final(self)@ == spec_dedup(old(self)@),
            exists|keep: Seq<bool>|
                {
                    &&& keep.len() == old(self)@.len()
                    &&& (old(self)@.len() > 0 ==> keep[0])
                    &&& final(self)@ == mask_select(old(self)@, keep)
                },
    {
        let mut src: Vec<T> = Vec::new();
        core::mem::swap(&mut self.buf, &mut src);
        let ghost orig = src@;
        proof {
            old(self).lemma_parts();
            assert(orig == old(self)@);
        }
        let mut kept: Vec<T> = Vec::new();
        let ghost mut keep: Seq<bool> = Seq::empty();
        while src.len() > 0
            invariant
                keep.len() + src@.len() == orig.len(),
                src@ == orig.subrange(keep.len() as int, orig.len() as int),
                kept@ == mask_select(orig.subrange(0, keep.len() as int), keep),
                kept@.len() <= keep.len(),
                keep.len() > 0 ==> keep[0],
                keep.len() > 0 ==> kept@.len() > 0,
                <T as PartialEqSpec>::obeys_eq_spec() ==> kept@ == spec_dedup(
                    orig.subrange(0, keep.len() as int),
                ),
            decreases src@.len(),
        {
            let ghost k = keep.len() as int;
            let ghost keep0 = keep;
            let x = src.remove(0);
            proof {
                assert(x == orig[k]);
                assert(src@ =~= orig.subrange(k + 1, orig.len() as int));
                assert(orig.subrange(0, k + 1).drop_last() =~= orig.subrange(0, k));
            }
            if kept.len() == 0 {
                kept.push(x);
                proof {
                    keep = keep.push(true);
                    assert(orig.subrange(0, 1) =~= seq![orig[0]]);
                }
            } else {
                let dup = x == kept[kept.len() - 1];
                if dup {
                    proof {
                        keep = keep.push(false);
                    }
                } else {
                    kept.push(x);
                    proof {
                        keep = keep.push(true);
                    }
                }
            }
            proof {
                lemma_mask_select_push(orig.subrange(0, k), keep0, orig[k], keep[k]);
                assert(orig.subrange(0, k).push(orig[k]) =~= orig.subrange(0, k + 1));
            }
        }
        self.buf = kept;
        proof {
            self.lemma_parts();
            assert(orig.subrange(0, orig.len() as int) =~= orig);
            assert(keep.len() == old(self)@.len() && (old(self)@.len() > 0 ==> keep[0]) && self@
                == mask_select(old(self)@, keep));
        }
    }

    /// Removes every element whose key, computed by `key`, equals the key
    /// of the element most recently kept before it; the first element is
    /// always kept. The capacity is untouched.
    #[verifier::rlimit(50)]
    pub fn dedup_by_key<F: Fn(&T) -> K, K: PartialEq>(&mut self, key: F)
        requires
            old(self).wf(),
            forall|i: int| 0 <= i < old(self)@.len() ==> call_requires(key, (&old(self)@[i],)),
        ensures
            final(self).wf(),
            final(self).spec_capacity() == old(self).spec_capacity(),
            final(self).spec_alignment() == old(self).spec_alignment(),
            exists|keep: Seq<bool>, ks: Seq<K>|
                {
                    &&& keep.len() == old(self)@.len()
                    &&& ks.len() == old(self)@.len()
                    &&& (old(self)@.len() > 0 ==> keep[0])
                    &&& final(self)@ == mask_select(old(self)@, keep)
                    &&& forall|i: int|
                        0 <= i < ks.len() ==> call_ensures(key, (&old(self)@[i],), #[trigger] ks[i])
                    &&& (<K as PartialEqSpec>::obeys_eq_spec() ==> forall|i: int|
                        1 <= i < keep.len() ==> (#[trigger] keep[i]) == !ks[i].eq_spec(
                            &ks[last_true_before(keep, i)],
                        ))
                },
    {
        let mut src: Vec<T> = Vec::new();
        core::mem::swap(&mut self.buf, &mut src);
        let ghost orig = src@;
        proof {
            old(self).lemma_parts();
            assert(orig == old(self)@);
        }
        let mut kept: Vec<T> = Vec::new();
        let mut last_key: Option<K> = None;
        let ghost mut keep: Seq<bool> = Seq::empty();
        let ghost mut ks: Seq<K> = Seq::empty();
        let ghost mut j: int = 0;
        while src.len() > 0
            invariant
                keep.len() + src@.len() == orig.len(),
                ks.len() == keep.len(),
                src@ == orig.subrange(keep.len() as int, orig.len() as int),
                kept@ == mask_select(orig.subrange(0, keep.len() as int), keep),
                kept@.len() <= keep.len(),
                keep.len() > 0 ==> keep[0],
                keep.len() > 0 ==> 0 <= j < keep.len() && keep[j] && kept@.len() > 0,
                forall|m: int| j < m < keep.len() ==> !keep[m],
                match last_key {
                    Some(lk) => keep.len() > 0 && lk == ks[j],
                    None => keep.len() == 0,
                },
                forall|i: int|
                    0 <= i < ks.len() ==> call_ensures(key, (&orig[i],), #[trigger] ks[i]),
                <K as PartialEqSpec>::obeys_eq_spec() ==> forall|i: int|
                    1 <= i < keep.len() ==> (#[trigger] keep[i]) == !ks[i].eq_spec(
                        &ks[last_true_before(keep, i)],
                    ),
                forall|i: int| 0 <= i < orig.len() ==> call_requires(key, (&orig[i],)),
            decreases src@.len(),
        {
            let ghost k = keep.len() as int;
            let ghost keep0 = keep;
            let ghost ks0 = ks;
            let x = src.remove(0);
            proof {
                assert(x == orig[k]);
                assert(src@ =~= orig.subrange(k + 1, orig.len() as int));
            }
            let kx = key(&x);
            proof {
                ks = ks.push(kx);
            }
            if kept.len() == 0 {
                kept.push(x);
                last_key = Some(kx);
                proof {
                    keep = keep.push(true);
                    j = 0;
                }
            } else {
                let ghost lk0 = last_key;
                let dup = match &last_key {
                    Some(lk) => kx == *lk,
                    None => false,
                };
                if dup {
                    proof {
                        keep = keep.push(false);
                    }
                } else {
                    kept.push(x);
                    last_key = Some(kx);
                    proof {
                        keep = keep.push(true);
                    }
                }
                proof {
                    assert forall|i: int| 1 <= i < k implies last_true_before(keep, i)
                        == last_true_before(keep0, i) && 0 <= last_true_before(keep, i) < i by {
                        lemma_last_true_before_extend(keep0, keep[k], i);
                        lemma_last_true_before_bounds(keep0, i);
                    }
                    lemma_last_true_before_value(keep, j, k);
                    assert(lk0->Some_0 == ks[j]);
                    assert(<K as PartialEqSpec>::obeys_eq_spec() ==> keep[k] == !ks[k].eq_spec(
                        &ks[last_true_before(keep, k)],
                    ));
                    if !dup {
                        j = k;
                    }
                }
            }
            proof {
                lemma_mask_select_push(orig.subrange(0, k), keep0, orig[k], keep[k]);
                assert(orig.subrange(0, k).push(orig[k]) =~= orig.subrange(0, k + 1));
            }
        }
        self.buf = kept;
        proof {
            self.lemma_parts();
            assert(orig.subrange(0, orig.len() as int) =~= orig);
            assert(keep.len() == old(self)@.len() && ks.len() == old(self)@.len() && (old(
                self,
            )@.len() > 0 ==> keep[0]) && self@ == mask_select(old(self)@, keep) && (forall|i: int|
                0 <= i < ks.len() ==> call_ensures(key, (&old(self)@[i],), #[trigger] ks[i])) && (<
            K as PartialEqSpec>::obeys_eq_spec() ==> forall|i: int|
                1 <= i < keep.len() ==> (#[trigger] keep[i]) == !ks[i].eq_spec(
                    &ks[last_true_before(keep, i)],
                )));
        }
    }

    /// Removes and returns the first element equal to `item`, scanning
    /// left to right; the container is untouched when none matches.
    pub fn remove_item<V>(&mut self, item: &V) -> (r: Option<T>) where T: PartialEq<V>
        requires
            old(self).wf(),
        ensures
            final(self).wf(),
            final(self).spec_capacity() == old(self).spec_capacity(),
            final(self).spec_alignment() == old(self).spec_alignment(),
            r matches Some(x) ==> exists|i: int|
                0 <= i < old(self)@.len() && x == old(self)@[i] && final(self)@ == old(
                    self,
                )@.remove(i),
            r is None ==> final(self)@ == old(self)@,
            <T as PartialEqSpec<V>>::obeys_eq_spec() ==> match spec_first_eq(old(self)@, *item) {
                Some(i) => r == Some(old(self)@[i]) && final(self)@ == old(self)@.remove(i),
                None => r == None::<T> && final(self)@ == old(self)@,
            },
    {
        let len = self.buf.len();
        proof {
            self.lemma_parts();
        }
        let ghost snap = *self;
        let mut i: usize = 0;
        while i < len
            invariant
                *self == snap,
                snap == *old(self),
                snap.wf(),
                len == snap@.len(),
                i <= len,
                <T as PartialEqSpec<V>>::obeys_eq_spec() ==> forall|m: int|
                    0 <= m < i ==> !snap@[m].eq_spec(item),
            decreases len - i,
        {
            proof {
                self.lemma_parts();
            }
            let hit = self.buf[i] == *item;
            if hit {
                let x = self.remove(i);
                proof {
                    if <T as PartialEqSpec<V>>::obeys_eq_spec() {
                        lemma_spec_first_eq_step(old(self)@, *item, i as int);
                        assert(old(self)@.subrange(i as int, old(self)@.len() as int)[0] == old(
                            self,
                        )@[i as int]);
                    }
                    assert(0 <= (i as int) < old(self)@.len() && x == old(self)@[i as int] && self@
                        == old(self)@.remove(i as int));
                }
                return Some(x);
            }
            i += 1;
        }
        proof {
            if <T as PartialEqSpec<V>>::obeys_eq_spec() {
                lemma_spec_first_eq_step(old(self)@, *item, len as int);
                assert(old(self)@.subrange(len as int, old(self)@.len() as int).len() == 0);
            }
        }
        None
    }
}

} // verus!
