//! The storage core: the container type itself, its growth policy, and the
//! direct element operations.

use vstd::prelude::*;

verus! {

use vstd::arithmetic::power2::is_pow2;
use vstd::layout::size_of;
use crate::layout::LayoutErr;
use crate::layout::is_power_of_two;
use crate::layout::max_align;
use crate::layout::spec_max_align;

/// The number of element slots given out by the first allocation of a
/// container that grows from capacity zero.
pub const GROWTH_FLOOR: usize = 4;

/// A growable, contiguous-storage container that keeps its length, capacity
/// and allocation alignment together with its element storage.
///
/// Zero-sized element types are excluded at construction time.
pub struct MiniVec<T> {
    pub(crate) buf: Vec<T>,
    pub(crate) cap: usize,
    pub(crate) align: usize,
}

impl<T> View for MiniVec<T> {
    type V = Seq<T>;

    closed spec fn view(&self) -> Seq<T> {
        self.buf@
    }
}

/// One step of the growth policy: the capacity that a full container grows
/// to. A non-zero floor for the first allocation, then doubling, saturating
/// at `usize::MAX`.
pub open spec fn spec_next_capacity(cap: int) -> int {
    if cap == 0 {
        GROWTH_FLOOR as int
    } else if 2 * cap <= usize::MAX as int {
        2 * cap
    } else {
        usize::MAX as int
    }
}

/// The capacity reached by advancing the growth policy from `cap` until it
/// is at least `need`.
pub open spec fn spec_grown_capacity(cap: int, need: int) -> int
    recommends
        0 <= cap,
        need <= usize::MAX as int,
    decreases usize::MAX as int - cap,
    when 0 <= cap && need <= usize::MAX as int
{
    let next = spec_next_capacity(cap);
    if next >= need {
        next
    } else {
        spec_grown_capacity(next, need)
    }
}

/// The capacity after an operation that needs room for `need` elements:
/// unchanged when sufficient, otherwise grown along the growth policy.
pub open spec fn spec_reserved_capacity(cap: int, need: int) -> int
    recommends
        0 <= cap,
        need <= usize::MAX as int,
{
    if need <= cap {
        cap
    } else {
        spec_grown_capacity(cap, need)
    }
}

/// One step of the growth policy, executably.
fn next_capacity(cap: usize) -> (r: usize)
    ensures
        r as int == spec_next_capacity(cap as int),
        r >= cap,
{
    if cap == 0 {
        GROWTH_FLOOR
    } else if cap <= usize::MAX / 2 {
        2 * cap
    } else {
        usize::MAX
    }
}

impl<T> MiniVec<T> {
    /// The view of a container is the view of its element buffer, and the
    /// capacity and alignment are the corresponding metadata fields.
    pub(crate) proof fn lemma_parts(&self)
        ensures
            self@ == self.buf@,
            self.spec_capacity() == self.cap,
            self.spec_alignment() == self.align,
    {
    }

    /// The number of element slots of the current allocation.
    pub closed spec fn spec_capacity(&self) -> usize {
        self.cap
    }

    /// The alignment the current allocation was made with.
    pub closed spec fn spec_alignment(&self) -> usize {
        self.align
    }

    /// Well-formedness: the header invariant. The capacity covers the
    /// length, and the alignment is a power of two no smaller than the
    /// default alignment for `T`.
    pub open spec fn wf(&self) -> bool {
        &&& self@.len() <= self.spec_capacity()
        &&& is_pow2(self.spec_alignment() as int)
        &&& self.spec_alignment() as nat >= spec_max_align::<T>()
    }

    /// Constructs an empty container; no element slots are allocated.
    #[must_use]
    pub fn new() -> (r: MiniVec<T>)
        requires
            size_of::<T>() > 0,
        ensures
            r.wf(),
            r@ == Seq::<T>::empty(),
            r.spec_capacity() == 0,
            r.spec_alignment() as nat == spec_max_align::<T>(),
    {
        let align = max_align::<T>();
        MiniVec { buf: Vec::new(), cap: 0, align }
    }

    /// The number of live elements.
    #[must_use]
    pub fn len(&self) -> (r: usize)
        ensures
            r == self@.len(),
    {
        self.buf.len()
    }

    /// Whether the container holds no elements.
    #[must_use]
    pub fn is_empty(&self) -> (r: bool)
        ensures
            r == (self@.len() == 0),
    {
        self.buf.len() == 0
    }

    /// The number of elements the container can hold before it has to
    /// reallocate.
    #[must_use]
    pub fn capacity(&self) -> (r: usize)
        ensures
            r == self.spec_capacity(),
    {
        self.cap
    }

    /// The alignment of the current allocation.
    pub fn alignment(&self) -> (r: usize)
        ensures
            r == self.spec_alignment(),
    {
        self.align
    }

    /// Reallocates so that the capacity becomes exactly `capacity`.
    fn grow(&mut self, capacity: usize)
        requires
            old(self).wf(),
            capacity >= old(self)@.len(),
        ensures
            final(self).wf(),
            final(self)@ == old(self)@,
            final(self).spec_capacity() == capacity,
            final(self).spec_alignment() == old(self).spec_alignment(),
    {
        self.cap = capacity;
    }

    /// Ensures room for `additional` more elements, growing along the
    /// growth policy; a no-op when the capacity already suffices.
    pub fn reserve(&mut self, additional: usize)
        requires
            old(self).wf(),
            old(self)@.len() + additional <= usize::MAX,
        ensures
            final(self).wf(),
            final(self)@ == old(self)@,
            final(self).spec_alignment() == old(self).spec_alignment(),
            final(self).spec_capacity() as int == spec_reserved_capacity(
                old(self).spec_capacity() as int,
                old(self)@.len() + additional,
            ),
            final(self).spec_capacity() as int >= old(self)@.len() + additional,
    {
        let capacity = self.cap;
        let total_required = self.buf.len() + additional;

        if total_required <= capacity {
            return ;
        }
        let mut new_capacity = next_capacity(capacity);
        while new_capacity < total_required
            invariant
                total_required <= usize::MAX,
                spec_grown_capacity(capacity as int, total_required as int) == (
                if new_capacity >= total_required {
                    new_capacity as int
                } else {
                    spec_grown_capacity(new_capacity as int, total_required as int)
                }),
            decreases usize::MAX as int - new_capacity as int,
        {
            new_capacity = next_capacity(new_capacity);
        }
        self.grow(new_capacity);
    }

    /// Ensures the capacity is exactly the length plus `additional`; a
    /// no-op when the capacity already suffices.
    pub fn reserve_exact(&mut self, additional: usize)
        requires
            old(self).wf(),
            old(self)@.len() + additional <= usize::MAX,
        ensures
            final(self).wf(),
            final(self)@ == old(self)@,
            final(self).spec_alignment() == old(self).spec_alignment(),
            final(self).spec_capacity() as int == (if old(self)@.len() + additional <= old(
                self,
            ).spec_capacity() as int {
                old(self).spec_capacity() as int
            } else {
                old(self)@.len() + additional
            }),
    {
        let capacity = self.cap;
        let total_required = self.buf.len() + additional;
        if capacity >= total_required {
            return ;
        }
        self.grow(total_required);
    }

    /// Constructs an empty container whose capacity is exactly `capacity`.
    ///
    /// For every requested capacity, the result satisfies
    /// `capacity() >= capacity` and `len() == 0`.
    #[must_use]
    pub fn with_capacity(capacity: usize) -> (r: MiniVec<T>)
        requires
            size_of::<T>() > 0,
        ensures
            r.wf(),
            r@ == Seq::<T>::empty(),
            r.spec_capacity() == capacity,
            r.spec_capacity() >= capacity,
            r.spec_alignment() as nat == spec_max_align::<T>(),
    {
        let mut v = MiniVec::new();
        v.reserve_exact(capacity);
        v
    }

    /// Constructs an empty container with capacity `capacity` whose
    /// allocation is aligned to `alignment`.
    ///
    /// The request is rejected when `alignment` is below the default
    /// alignment for `T`, or when it is not a power of two; these are the
    /// only value-level errors of the container. A request for capacity
    /// zero allocates nothing and keeps the default alignment.
    pub fn with_alignment(capacity: usize, alignment: usize) -> (r: Result<MiniVec<T>, LayoutErr>)
        requires
            size_of::<T>() > 0,
        ensures
            ((alignment as nat) < spec_max_align::<T>()) <==> r == Err::<MiniVec<T>, _>(
                LayoutErr::AlignmentTooSmall,
            ),
            (alignment as nat >= spec_max_align::<T>() && !is_pow2(alignment as int)) <==> r
                == Err::<MiniVec<T>, _>(LayoutErr::AlignmentNotDivisibleByTwo),
            r matches Ok(v) ==> {
                &&& v.wf()
                &&& v@ == Seq::<T>::empty()
                &&& v.spec_capacity() == capacity
                &&& v.spec_alignment() as nat == (if capacity == 0 {
                    spec_max_align::<T>()
                } else {
                    alignment as nat
                })
            },
    {
        let ma = max_align::<T>();
        if alignment < ma {
            return Err(LayoutErr::AlignmentTooSmall);
        }
        if !is_power_of_two(alignment) {
            return Err(LayoutErr::AlignmentNotDivisibleByTwo);
        }
        let mut v = MiniVec::new();
        if capacity > 0 {
            v.cap = capacity;
            v.align = alignment;
        }
        Ok(v)
    }

    /// Appends `value` at the back, growing first when the container is
    /// full.
    pub fn push(&mut self, value: T)
        requires
            old(self).wf(),
            old(self)@.len() < usize::MAX,
        ensures
            final(self).wf(),
            final(self)@ == old(self)@.push(value),
            final(self).spec_alignment() == old(self).spec_alignment(),
            final(self).spec_capacity() as int == spec_reserved_capacity(
                old(self).spec_capacity() as int,
                old(self)@.len() as int + 1,
            ),
    {
        if self.buf.len() == self.cap {
            let nc = next_capacity(self.cap);
            self.grow(nc);
        }
        self.buf.push(value);
    }

    /// Removes and returns the last element; `None` when the container is
    /// empty. The capacity is untouched.
    pub fn pop(&mut self) -> (r: Option<T>)
        requires
            old(self).wf(),
        ensures
            final(self).wf(),
            final(self).spec_capacity() == old(self).spec_capacity(),
            final(self).spec_alignment() == old(self).spec_alignment(),
            old(self)@.len() > 0 ==> r == Some(old(self)@.last()) && final(self)@ == old(
                self,
            )@.drop_last(),
            old(self)@.len() == 0 ==> r == None::<T> && final(self)@ == old(self)@,
    {
        self.buf.pop()
    }

    /// Shortens the container to `len` elements, destroying the rest; a
    /// no-op when it is already that short. The capacity is untouched.
    pub fn truncate(&mut self, len: usize)
        requires
            old(self).wf(),
        ensures
            final(self).wf(),
            final(self).spec_capacity() == old(self).spec_capacity(),
            final(self).spec_alignment() == old(self).spec_alignment(),
            len >= old(self)@.len() ==> final(self)@ == old(self)@,
            len < old(self)@.len() ==> final(self)@ == old(self)@.subrange(0, len as int),
    {
        self.buf.truncate(len);
    }

    /// Destroys every element; the capacity is untouched.
    pub fn clear(&mut self)
        requires
            old(self).wf(),
        ensures
            final(self).wf(),
            final(self)@ == Seq::<T>::empty(),
            final(self).spec_capacity() == old(self).spec_capacity(),
            final(self).spec_alignment() == old(self).spec_alignment(),
    {
        self.truncate(0);
        proof {
            assert(self@ =~= Seq::<T>::empty());
        }
    }

    /// Shrinks the capacity down to the length.
    pub fn shrink_to_fit(&mut self)
        requires
            old(self).wf(),
        ensures
            final(self).wf(),
            final(self)@ == old(self)@,
            final(self).spec_alignment() == old(self).spec_alignment(),
            final(self).spec_capacity() == old(self)@.len(),
    {
        let len = self.buf.len();
        if len == self.cap {
            return ;
        }
        self.grow(len);
    }

    /// Shrinks the capacity down to `min_capacity`, or to the length when
    /// `min_capacity` is below it. `min_capacity` must not exceed the
    /// current capacity unless it is below the length.
    pub fn shrink_to(&mut self, min_capacity: usize)
        requires
            old(self).wf(),
            min_capacity < old(self)@.len() || min_capacity <= old(self).spec_capacity(),
        ensures
            final(self).wf(),
            final(self)@ == old(self)@,
            final(self).spec_alignment() == old(self).spec_alignment(),
            final(self).spec_capacity() == (if min_capacity < old(self)@.len() {
                old(self)@.len() as int
            } else {
                min_capacity as int
            }),
    {
        let len = self.buf.len();
        let capacity = self.cap;

        if min_capacity < len {
            self.shrink_to_fit();
            return ;
        }
        if capacity == min_capacity {
            return ;
        }
        self.grow(min_capacity);
    }

    /// A read-only view of the elements as a slice.
    #[must_use]
    pub fn as_slice(&self) -> (r: &[T])
        ensures
            r@ == self@,
    {
        self.buf.as_slice()
    }

    /// A mutable view of the elements as a slice; writing through it
    /// changes elements in place, never the length.
    pub fn as_mut_slice(&mut self) -> (r: &mut [T])
        requires
            old(self).wf(),
        ensures
            r@ == old(self)@,
            final(self)@ == final(r)@,
            final(self).spec_capacity() == old(self).spec_capacity(),
            final(self).spec_alignment() == old(self).spec_alignment(),
            final(r)@.len() == old(self)@.len() ==> final(self).wf(),
    {
        self.buf.as_mut_slice()
    }

    /// Places `element` at `index`, shifting the suffix right by one slot.
    /// `index` must not exceed the length.
    pub fn insert(&mut self, index: usize, element: T)
        requires
            old(self).wf(),
            index <= old(self)@.len(),
            old(self)@.len() < usize::MAX,
        ensures
            final(self).wf(),
            final(self)@ == old(self)@.insert(index as int, element),
            final(self).spec_alignment() == old(self).spec_alignment(),
            final(self).spec_capacity() as int == spec_reserved_capacity(
                old(self).spec_capacity() as int,
                old(self)@.len() as int + 1,
            ),
    {
        if self.buf.len() == self.cap {
            self.reserve(1);
        }
        self.buf.insert(index, element);
    }

    /// Removes and returns the element at `index`, shifting the suffix left
    /// by one slot. `index` must be below the length.
    pub fn remove(&mut self, index: usize) -> (r: T)
        requires
            old(self).wf(),
            index < old(self)@.len(),
        ensures
            final(self).wf(),
            r == old(self)@[index as int],
            final(self)@ == old(self)@.remove(index as int),
            final(self).spec_capacity() == old(self).spec_capacity(),
            final(self).spec_alignment() == old(self).spec_alignment(),
    {
        self.buf.remove(index)
    }

    /// Removes and returns the element at `index`, moving the last element
    /// into its place. `index` must be below the length.
    pub fn swap_remove(&mut self, index: usize) -> (r: T)
        requires
            old(self).wf(),
            index < old(self)@.len(),
        ensures
            final(self).wf(),
            r == old(self)@[index as int],
            final(self)@ == old(self)@.update(index as int, old(self)@.last()).drop_last(),
            final(self).spec_capacity() == old(self).spec_capacity(),
            final(self).spec_alignment() == old(self).spec_alignment(),
    {
        self.buf.swap_remove(index)
    }

    /// Moves every element of `other` to the back of `self`, in order;
    /// `other` is left empty with its capacity unchanged.
    pub fn append(&mut self, other: &mut MiniVec<T>)
        requires
            old(self).wf(),
            old(other).wf(),
            old(self)@.len() + old(other)@.len() <= usize::MAX,
        ensures
            final(self).wf(),
            final(other).wf(),
            final(self)@ == old(self)@ + old(other)@,
            final(other)@ == Seq::<T>::empty(),
            final(other).spec_capacity() == old(other).spec_capacity(),
            final(other).spec_alignment() == old(other).spec_alignment(),
            final(self).spec_alignment() == old(self).spec_alignment(),
            final(self).spec_capacity() as int == (if old(other)@.len() == 0 {
                old(self).spec_capacity() as int
            } else {
                spec_reserved_capacity(
                    old(self).spec_capacity() as int,
                    old(self)@.len() as int + old(other)@.len(),
                )
            }),
    {
        if other.is_empty() {
            proof {
                assert(old(self)@ + old(other)@ =~= old(self)@);
            }
            return ;
        }
        let other_len = other.buf.len();
        self.reserve(other_len);
        self.buf.append(&mut other.buf);
    }

    /// Splits the container in two: `self` keeps the elements before `at`,
    /// and the returned container owns the rest, created with the same
    /// capacity as `self`. `at` must not exceed the length.
    pub fn split_off(&mut self, at: usize) -> (r: MiniVec<T>)
        requires
            old(self).wf(),
            at <= old(self)@.len(),
        ensures
            final(self).wf(),
            r.wf(),
            final(self)@ == old(self)@.subrange(0, at as int),
            r@ == old(self)@.subrange(at as int, old(self)@.len() as int),
            final(self).spec_capacity() == old(self).spec_capacity(),
            final(self).spec_alignment() == old(self).spec_alignment(),
            r.spec_capacity() == old(self).spec_capacity(),
            r.spec_alignment() as nat == spec_max_align::<T>(),
    {
        let tail = self.buf.split_off(at);
        let align = max_align::<T>();
        MiniVec { buf: tail, cap: self.cap, align }
    }

    /// Adjusts the length to `new_len`: truncates when shorter, appends
    /// clones of `value` when longer.
    pub fn resize(&mut self, new_len: usize, value: T) where T: Clone
        requires
            old(self).wf(),
        ensures
            final(self).wf(),
            final(self).spec_alignment() == old(self).spec_alignment(),
            new_len < old(self)@.len() ==> final(self)@ == old(self)@.subrange(0, new_len as int)
                && final(self).spec_capacity() == old(self).spec_capacity(),
            new_len == old(self)@.len() ==> final(self)@ == old(self)@
                && final(self).spec_capacity() == old(self).spec_capacity(),
            new_len > old(self)@.len() ==> {
                &&& final(self)@.len() == new_len
                &&& final(self)@.subrange(0, old(self)@.len() as int) == old(self)@
                &&& forall|i: int|
                    #![all_triggers]
                    old(self)@.len() <= i < new_len ==> vstd::pervasive::cloned::<T>(
                        value,
                        final(self)@[i],
                    )
                &&& final(self).spec_capacity() as int == spec_reserved_capacity(
                    old(self).spec_capacity() as int,
                    new_len as int,
                )
            },
    {
        let len = self.buf.len();
        if new_len > len {
            self.reserve(new_len - len);
            self.buf.resize(new_len, value);
        } else {
            self.truncate(new_len);
        }
    }

    /// Adjusts the length to `new_len`: truncates when shorter, appends
    /// results of calling `f` when longer.
    pub fn resize_with<F: Fn() -> T>(&mut self, new_len: usize, f: F)
        requires
            old(self).wf(),
            new_len > old(self)@.len() ==> call_requires(f, ()),
        ensures
            final(self).wf(),
            final(self).spec_alignment() == old(self).spec_alignment(),
            new_len < old(self)@.len() ==> final(self)@ == old(self)@.subrange(0, new_len as int)
                && final(self).spec_capacity() == old(self).spec_capacity(),
            new_len == old(self)@.len() ==> final(self)@ == old(self)@
                && final(self).spec_capacity() == old(self).spec_capacity(),
            new_len > old(self)@.len() ==> {
                &&& final(self)@.len() == new_len
                &&& final(self)@.subrange(0, old(self)@.len() as int) == old(self)@
                &&& forall|i: int|
                    old(self)@.len() <= i < new_len ==> call_ensures(
                        f,
                        (),
                        #[trigger] final(self)@[i],
                    )
                &&& final(self).spec_capacity() as int == spec_reserved_capacity(
                    old(self).spec_capacity() as int,
                    new_len as int,
                )
            },
    {
        let len = self.buf.len();
        if new_len > len {
            self.reserve(new_len - len);
            let ghost prefix = self.buf@;
            let ghost cap0 = self.spec_capacity();
            let ghost align0 = self.spec_alignment();
            while self.buf.len() < new_len
                invariant
                    call_requires(f, ()),
                    prefix.len() <= self.buf@.len() <= new_len,
                    self.buf@.subrange(0, prefix.len() as int) == prefix,
                    forall|i: int|
                        prefix.len() <= i < self.buf@.len() ==> call_ensures(
                            f,
                            (),
                            #[trigger] self.buf@[i],
                        ),
                    self.spec_capacity() == cap0,
                    self.spec_alignment() == align0,
                    new_len <= cap0,
                decreases new_len - self.buf@.len(),
            {
                self.buf.push(f());
                proof {
                    assert(self.buf@.subrange(0, prefix.len() as int) =~= prefix);
                }
            }
        } else {
            self.truncate(new_len);
        }
    }

    /// Appends a clone of every element of `elems`, in order.
    pub fn extend_from_slice(&mut self, elems: &[T]) where T: Clone
        requires
            old(self).wf(),
            old(self)@.len() + elems@.len() <= usize::MAX,
        ensures
            final(self).wf(),
            final(self).spec_alignment() == old(self).spec_alignment(),
            final(self)@.len() == old(self)@.len() + elems@.len(),
            forall|i: int| 0 <= i < old(self)@.len() ==> final(self)@[i] == old(self)@[i],
            forall|i: int|
                #![all_triggers]
                0 <= i < elems@.len() ==> vstd::pervasive::cloned::<T>(
                    elems@[i],
                    final(self)@[old(self)@.len() + i],
                ),
            final(self).spec_capacity() as int == spec_reserved_capacity(
                old(self).spec_capacity() as int,
                old(self)@.len() as int + elems@.len(),
            ),
    {
        self.reserve(elems.len());
        self.buf.extend_from_slice(elems);
    }
}

} // verus!
