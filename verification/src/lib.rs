//! Typed indices and the collections keyed by them: a growable bit-packed
//! set, borrowed typed views of contiguous storage and an owned typed
//! vector.

pub mod index;
pub mod bits;
pub mod frames;
pub mod order;
pub mod bitset;
pub mod iter;
pub mod laws;
mod sealed;
pub mod search;
pub mod slice;
pub mod slice_index;
pub mod slice_ref;
pub mod sort;
pub mod tagged;
pub mod tvec;

pub use bitset::TBitSet;
pub use index::TIndex;
pub use slice::TSlice;
pub use slice_ref::TSliceRef;
pub use tagged::TaggedIndex;
pub use tvec::TVec;
