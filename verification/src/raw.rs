//! Raw-parts interop: a container can be decomposed into its parts — the
//! element storage together with the header that described it — and
//! reconstructed from them, either from the parts alone (the metadata is
//! recovered from the header) or from the parts plus an explicit length and
//! capacity that must match the header exactly.

use vstd::prelude::*;

verus! {

use vstd::arithmetic::power2::is_pow2;
use crate::layout::Header;
use crate::layout::spec_max_align;
use crate::storage::MiniVec;

/// The decomposed form of a container: ownership of the element storage,
/// with the header that records its length, capacity and alignment.
pub struct RawParts<T> {
    elems: Vec<T>,
    header: Header,
}

impl<T> View for RawParts<T> {
    type V = Seq<T>;

    closed spec fn view(&self) -> Seq<T> {
        self.elems@
    }
}

impl<T> RawParts<T> {
    /// The header carried in front of the element storage.
    pub closed spec fn spec_header(&self) -> Header {
        self.header
    }

    /// Well-formedness: the header describes the storage, and carries the
    /// same invariant a container's header does.
    pub open spec fn wf(&self) -> bool {
        &&& self.spec_header().len == self@.len()
        &&& self.spec_header().len <= self.spec_header().cap
        &&& is_pow2(self.spec_header().alignment as int)
        &&& self.spec_header().alignment as nat >= spec_max_align::<T>()
    }

    /// The length the header records.
    pub fn len(&self) -> (r: usize)
        ensures
            r == self.spec_header().len,
    {
        self.header.len
    }

    /// The capacity the header records.
    pub fn capacity(&self) -> (r: usize)
        ensures
            r == self.spec_header().cap,
    {
        self.header.cap
    }
}

impl<T> MiniVec<T> {
    /// Decomposes the container into its raw parts, handing the caller
    /// ownership of the storage, together with the length and capacity the
    /// header records. The results reconstruct the container exactly, via
    /// [`MiniVec::from_raw_parts`] or [`MiniVec::from_raw_part`].
    #[must_use]
    pub fn into_raw_parts(self) -> (r: (RawParts<T>, usize, usize))
        requires
            self.wf(),
        ensures
            r.0.wf(),
            r.0@ == self@,
            r.0.spec_header().len == self@.len(),
            r.0.spec_header().cap == self.spec_capacity(),
            r.0.spec_header().alignment == self.spec_alignment(),
            r.1 == self@.len(),
            r.2 == self.spec_capacity(),
    {
        proof {
            self.lemma_parts();
        }
        let len = self.buf.len();
        let cap = self.cap;
        let header = Header { len, cap, alignment: self.align };
        (RawParts { elems: self.buf, header }, len, cap)
    }

    /// Reconstructs a container from its raw parts alone; the length,
    /// capacity and alignment are recovered from the header.
    pub fn from_raw_part(parts: RawParts<T>) -> (r: MiniVec<T>)
        requires
            parts.wf(),
        ensures
            r.wf(),
            r@ == parts@,
            r@.len() == parts.spec_header().len,
            r.spec_capacity() == parts.spec_header().cap,
            r.spec_alignment() == parts.spec_header().alignment,
    {
        let r = MiniVec { buf: parts.elems, cap: parts.header.cap, align: parts.header.alignment };
        proof {
            r.lemma_parts();
        }
        r
    }

    /// Reconstructs a container from its raw parts and an explicit length
    /// and capacity, which must match what the header records.
    pub fn from_raw_parts(parts: RawParts<T>, length: usize, capacity: usize) -> (r: MiniVec<T>)
        requires
            parts.wf(),
            parts.spec_header().len == length,
            parts.spec_header().cap == capacity,
        ensures
            r.wf(),
            r@ == parts@,
            r@.len() == length,
            r.spec_capacity() == capacity,
            r.spec_alignment() == parts.spec_header().alignment,
    {
        let r = MiniVec { buf: parts.elems, cap: parts.header.cap, align: parts.header.alignment };
        proof {
            r.lemma_parts();
        }
        r
    }
}

} // verus!
