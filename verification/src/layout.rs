//! The layout engine: computes where the element region of a single
//! header-plus-elements allocation starts and how large the whole allocation
//! has to be, for a requested capacity and alignment.

use vstd::prelude::*;

verus! {

use vstd::arithmetic::div_mod::lemma_fundamental_div_mod;
use vstd::arithmetic::div_mod::lemma_fundamental_div_mod_converse;
use vstd::arithmetic::div_mod::lemma_mod_decreases;
use vstd::arithmetic::power2::is_pow2;
use vstd::layout::align_of;
use vstd::layout::layout_for_type_is_valid;
use vstd::layout::size_of;

/// The metadata record that sits at the front of a container allocation:
/// the number of live elements, the number of element slots, and the
/// alignment the allocation was made with.
pub struct Header {
    pub len: usize,
    pub cap: usize,
    pub alignment: usize,
}

/// The recoverable errors of a capacity/alignment request:
/// the requested alignment is below the default one for the element type,
/// or it is not a power of two.
#[derive(Debug, PartialEq, Eq, Structural)]
pub enum LayoutErr {
    AlignmentTooSmall,
    AlignmentNotDivisibleByTwo,
}

/// The default allocation alignment for element type `T`: the natural
/// alignment of `T` or of the [`Header`], whichever is greater.
pub open spec fn spec_max_align<T>() -> nat {
    if align_of::<T>() >= align_of::<Header>() {
        align_of::<T>()
    } else {
        align_of::<Header>()
    }
}

/// Computes the default allocation alignment for element type `T`.
pub fn max_align<T>() -> (r: usize)
    ensures
        r as nat == spec_max_align::<T>(),
        is_pow2(r as int),
{
    layout_for_type_is_valid::<T>();
    layout_for_type_is_valid::<Header>();
    let a: usize = core::mem::align_of::<T>();
    let h: usize = core::mem::align_of::<Header>();
    if a >= h {
        a
    } else {
        h
    }
}

/// The smallest multiple of `alignment` that is at least `n`.
pub open spec fn spec_next_aligned(n: int, alignment: int) -> int
    recommends
        alignment > 0,
{
    if n % alignment == 0 {
        n
    } else {
        n + alignment - n % alignment
    }
}

/// Rounds `n` up to the next multiple of `alignment`: the byte offset at
/// which the element region starts when `n` is the header size.
pub fn next_aligned(n: usize, alignment: usize) -> (r: usize)
    requires
        alignment > 0,
        n + alignment - 1 <= usize::MAX,
    ensures
        r == spec_next_aligned(n as int, alignment as int),
        n <= r < n + alignment,
        r % alignment == 0,
{
    let rem = n % alignment;
    proof {
        lemma_fundamental_div_mod(n as int, alignment as int);
        let q = n as int / alignment as int;
        let a = alignment as int;
        assert(n as int == a * q + rem as int);
        if rem != 0 {
            assert((q + 1) * a == q * a + a) by (nonlinear_arith);
            assert(a * q == q * a) by (nonlinear_arith);
            assert(n as int + a - rem as int == (q + 1) * a + 0);
            lemma_fundamental_div_mod_converse(n as int + a - rem as int, a, q + 1, 0);
        }
    }
    if rem == 0 {
        n
    } else {
        n + (alignment - rem)
    }
}

/// The total allocation size for `capacity` elements of type `T` placed
/// behind a header, with the whole allocation at `alignment`.
pub open spec fn spec_alloc_size<T>(capacity: int, alignment: int) -> int
    recommends
        alignment > 0,
{
    spec_next_aligned(size_of::<Header>() as int, alignment) + capacity * size_of::<T>() as int
}

/// The largest allocation size the address space admits at `alignment`:
/// rounding such a size up to `alignment` must not exceed `isize::MAX`.
pub open spec fn spec_size_limit(alignment: int) -> int
    recommends
        alignment > 0,
{
    isize::MAX as int - isize::MAX as int % alignment
}

/// Computes the total allocation size for `capacity` elements of type `T`
/// at `alignment`, validating it against the address-space limit; `None`
/// when the size would overflow that limit.
pub fn alloc_size<T>(capacity: usize, alignment: usize) -> (r: Option<usize>)
    requires
        alignment > 0,
    ensures
        r == (if spec_alloc_size::<T>(capacity as int, alignment as int) <= spec_size_limit(
            alignment as int,
        ) {
            Some(spec_alloc_size::<T>(capacity as int, alignment as int) as usize)
        } else {
            None::<usize>
        }),
{
    layout_for_type_is_valid::<Header>();
    let header_size: usize = core::mem::size_of::<Header>();
    let max_size: usize = isize::MAX as usize;
    proof {
        lemma_mod_decreases(max_size as nat, alignment as nat);
    }
    let limit: usize = max_size - max_size % alignment;

    let rem = header_size % alignment;
    proof {
        lemma_fundamental_div_mod(header_size as int, alignment as int);
        let q = header_size as int / alignment as int;
        let a = alignment as int;
        assert(header_size as int == a * q + rem as int);
        if rem != 0 {
            assert((q + 1) * a == q * a + a) by (nonlinear_arith);
            assert(a * q == q * a) by (nonlinear_arith);
            assert(header_size as int + a - rem as int == (q + 1) * a + 0);
            lemma_fundamental_div_mod_converse(header_size as int + a - rem as int, a, q + 1, 0);
        }
    }
    let padded: usize = if rem == 0 {
        header_size
    } else {
        match header_size.checked_add(alignment - rem) {
            Some(p) => p,
            None => {
                return None;
            },
        }
    };

    let elem_bytes: usize = match capacity.checked_mul(core::mem::size_of::<T>()) {
        Some(b) => b,
        None => {
            return None;
        },
    };
    let total: usize = match padded.checked_add(elem_bytes) {
        Some(t) => t,
        None => {
            return None;
        },
    };
    if total <= limit {
        Some(total)
    } else {
        None
    }
}

/// Decides whether `n` is a power of two.
pub fn is_power_of_two(n: usize) -> (r: bool)
    ensures
        r == is_pow2(n as int),
    decreases n,
{
    proof {
        reveal(is_pow2);
    }
    if n == 0 {
        false
    } else if n == 1 {
        true
    } else if n % 2 != 0 {
        false
    } else {
        is_power_of_two(n / 2)
    }
}

} // verus!
