//! A growable, contiguous-storage container whose handle is conceptually a
//! single allocation holding its own metadata (length, capacity, alignment)
//! in a header placed in front of the element slots.
//!
//! The crate is organised around the components of that design:
//!
//! * [`layout`] — the layout engine: alignment arithmetic and allocation-size
//!   calculation for the header-plus-elements scheme.
//! * [`MiniVec`] — the storage core: the container itself, with its growth
//!   policy and all direct element operations.
//! * [`Drain`], [`DrainFilter`], [`Splice`] — the partial-removal and
//!   replacement iterators.
//! * Raw-parts interop: a container can be decomposed into its parts and
//!   reconstructed from them.

pub mod drain;
pub mod drain_filter;
pub mod filter;
pub mod laws;
pub mod layout;
pub mod raw;
pub mod splice;
pub mod storage;

pub use layout::Header;
pub use layout::LayoutErr;
pub use storage::MiniVec;
pub use drain::Drain;
pub use drain_filter::DrainFilter;
pub use splice::Splice;
pub use raw::RawParts;
