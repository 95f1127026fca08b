//! Laws the container obeys, stated over the sequences and spec functions
//! that the operations' contracts use, and proved once and for all.

use vstd::prelude::*;

verus! {

use crate::filter::mask_select;
use crate::raw::RawParts;
use crate::storage::MiniVec;
use crate::storage::spec_grown_capacity;
use crate::storage::spec_next_capacity;
use crate::storage::spec_reserved_capacity;

/// The growth policy never shrinks a capacity and always reaches the need:
/// whatever capacity an operation that wants room for `need` elements
/// leaves, it is at least the capacity it started from and at least `need`.
pub proof fn law_growth_never_shrinks(cap: int, need: int)
    requires
        0 <= cap <= usize::MAX as int,
        need <= usize::MAX as int,
    ensures
        cap <= spec_reserved_capacity(cap, need),
        need <= spec_reserved_capacity(cap, need),
{
    if need > cap {
        lemma_grown_capacity_bounds(cap, need);
    }
}

/// Advancing the growth policy from `cap` until it covers `need` yields at
/// least `need`, and never goes below the capacity it started from.
proof fn lemma_grown_capacity_bounds(cap: int, need: int)
    requires
        0 <= cap <= usize::MAX as int,
        need <= usize::MAX as int,
    ensures
        cap <= spec_grown_capacity(cap, need),
        need <= spec_grown_capacity(cap, need),
    decreases usize::MAX as int - cap,
{
    let next = spec_next_capacity(cap);
    if next < need {
        lemma_grown_capacity_bounds(next, need);
    }
}

/// A push followed immediately by a pop returns the pushed value and
/// restores the container's contents — and with them its length — to what
/// they were before the push: `push` leaves `s.push(v)`, of which `pop`
/// returns the last element and leaves the rest.
pub proof fn law_push_pop_round<T>(s: Seq<T>, v: T)
    ensures
        s.push(v).last() == v,
        s.push(v).drop_last() == s,
{
    assert(s.push(v).drop_last() =~= s);
}

/// Pushing the elements of `vs` onto a container holding `s` and then
/// popping that many times returns the pushed values in exact reverse
/// order and leaves `s` again: pushing all of `vs` leaves `s + vs`, and
/// for every `k`, the container before the `(k+1)`-th pop holds
/// `s + vs[0 .. |vs|-k]`, so that pop returns `vs[|vs|-1-k]` and leaves
/// `s + vs[0 .. |vs|-(k+1)]`; after `|vs|` pops the container holds `s`.
pub proof fn law_push_all_pop_all<T>(s: Seq<T>, vs: Seq<T>, k: int)
    requires
        0 <= k < vs.len(),
    ensures
        s + vs.subrange(0, vs.len() as int) == s + vs,
        (s + vs.subrange(0, vs.len() - k)).last() == vs[vs.len() - 1 - k],
        (s + vs.subrange(0, vs.len() - k)).drop_last() == s + vs.subrange(0, vs.len() - (k + 1)),
        s + vs.subrange(0, 0) == s,
{
    assert(vs.subrange(0, vs.len() as int) =~= vs);
    assert((s + vs.subrange(0, vs.len() - k)).drop_last() =~= s + vs.subrange(
        0,
        vs.len() - (k + 1),
    ));
    assert(s + vs.subrange(0, 0) =~= s);
}

/// A drain (or splice) iterator consumed to exhaustion yields exactly the
/// removed range, in order: an iterator that started with `w` holds
/// `w.skip(k)` after `k` calls of `next`, so the next call hands out
/// `w[k]`, and after `w.len()` calls the iterator is exhausted.
pub proof fn law_drain_yields_in_order<T>(w: Seq<T>, k: int)
    requires
        0 <= k < w.len(),
    ensures
        w.skip(0) == w,
        w.skip(k).first() == w[k],
        w.skip(k).drop_first() == w.skip(k + 1),
        w.skip(w.len() as int).len() == 0,
{
    assert(w.skip(0) =~= w);
    assert(w.skip(k).drop_first() =~= w.skip(k + 1));
}

/// Dropping a drain iterator early leaves the container in the same final
/// state as consuming it fully: `drain` already restores the container —
/// prefix followed by tail — when the iterator is created, and neither
/// `next` nor `next_back` mentions the container, so the state its
/// contract pins down is the same whatever part of the iterator is driven.
pub proof fn law_drain_early_drop<T>(
    v: Seq<T>,
    start: int,
    end: int,
    after_full: Seq<T>,
    after_early: Seq<T>,
)
    requires
        0 <= start <= end <= v.len(),
        after_full == v.subrange(0, start) + v.subrange(end, v.len() as int),
        after_early == v.subrange(0, start) + v.subrange(end, v.len() as int),
    ensures
        after_early == after_full,
{
}

/// A mask that agrees with a predicate selects exactly the predicate's
/// filter: `retain` with a predicate that decides `p` keeps `s.filter(p)`,
/// the elements satisfying `p` in their original relative order, and drops
/// all others.
pub proof fn law_mask_select_is_filter<T>(s: Seq<T>, keep: Seq<bool>, p: spec_fn(T) -> bool)
    requires
        keep.len() == s.len(),
        forall|i: int| 0 <= i < s.len() ==> keep[i] == p(s[i]),
    ensures
        mask_select(s, keep) == s.filter(p),
    decreases s.len(),
{
    reveal(Seq::filter);
    if s.len() > 0 {
        law_mask_select_is_filter(s.drop_last(), keep.drop_last(), p);
    }
}

/// Filtering a sequence whose elements all satisfy the predicate changes
/// nothing: `retain` on an already-satisfying container is a no-op.
pub proof fn law_retain_satisfying_is_noop<T>(s: Seq<T>, p: spec_fn(T) -> bool)
    requires
        forall|i: int| 0 <= i < s.len() ==> p(s[i]),
    ensures
        s.filter(p) == s,
    decreases s.len(),
{
    reveal(Seq::filter);
    if s.len() > 0 {
        law_retain_satisfying_is_noop(s.drop_last(), p);
        assert(s.filter(p) =~= s);
    }
}

/// Retaining twice with the same predicate equals retaining once: every
/// element the first pass keeps satisfies the predicate, so the second
/// pass keeps them all.
pub proof fn law_retain_idempotent<T>(s: Seq<T>, p: spec_fn(T) -> bool)
    ensures
        s.filter(p).filter(p) == s.filter(p),
{
    assert forall|i: int| 0 <= i < s.filter(p).len() implies p(s.filter(p)[i]) by {
        s.lemma_filter_pred(p, i);
    }
    law_retain_satisfying_is_noop(s.filter(p), p);
}

/// Decomposing a container into raw parts and reconstructing from them
/// yields a container with identical contents, length, capacity and
/// alignment: the guarantees of `into_raw_parts` and of
/// `from_raw_parts` / `from_raw_part` compose to the identity.
pub proof fn law_raw_parts_round_trip<T>(
    v: MiniVec<T>,
    parts: RawParts<T>,
    length: usize,
    capacity: usize,
    r: MiniVec<T>,
)
    requires
        parts@ == v@,
        parts.spec_header().len == v@.len(),
        parts.spec_header().cap == v.spec_capacity(),
        parts.spec_header().alignment == v.spec_alignment(),
        length == v@.len(),
        capacity == v.spec_capacity(),
        r@ == parts@,
        r.spec_capacity() == parts.spec_header().cap,
        r.spec_alignment() == parts.spec_header().alignment,
    ensures
        r@ == v@,
        r@.len() == v@.len(),
        r.spec_capacity() == v.spec_capacity(),
        r.spec_alignment() == v.spec_alignment(),
{
}

} // verus!
