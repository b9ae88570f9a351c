//! The index capability: how a typed index converts to and from a raw offset.

use vstd::prelude::*;

verus! {

/// A typed stand-in for a raw offset into a collection.
///
/// `offset` and `of_offset` are the mathematical meaning of the two
/// conversions. `representable` names the offsets that the type can hold
/// without loss; on those the conversions are inverse to each other.
pub trait TIndex: PartialEq + Eq + Clone + Copy {
    /// The raw offset that this index stands for.
    spec fn offset(self) -> nat;

    /// The index that `from_index` builds from a raw offset.
    spec fn of_offset(index: usize) -> Self;

    /// Whether the type holds `index` without loss.
    spec fn representable(index: usize) -> bool;

    fn as_index(self) -> (r: usize)
        ensures
            r == self.offset(),
    ;

    fn from_index(index: usize) -> (r: Self)
        ensures
            r == Self::of_offset(index),
    ;

    /// Every index stands for an offset that fits in `usize`.
    proof fn offset_in_range(self)
        ensures
            self.offset() <= usize::MAX,
    ;

    /// Building an index from a representable offset and reading the offset
    /// back gives the same offset.
    proof fn offset_round_trip(index: usize)
        requires
            Self::representable(index),
        ensures
            Self::of_offset(index).offset() == index,
    ;

    /// An index that `from_index` built, from whatever offset, is given
    /// back by converting it to its offset and that offset to an index.
    proof fn index_round_trip(index: usize)
        ensures
            Self::of_offset(Self::of_offset(index).offset() as usize) == Self::of_offset(index),
    ;
}

impl TIndex for usize {
    open spec fn offset(self) -> nat {
        self as nat
    }

    open spec fn of_offset(index: usize) -> Self {
        index
    }

    open spec fn representable(index: usize) -> bool {
        true
    }

    #[inline]
    fn as_index(self) -> (r: usize) {
        self
    }

    #[inline]
    fn from_index(index: usize) -> (r: Self) {
        index
    }

    proof fn offset_in_range(self) {
    }

    proof fn offset_round_trip(index: usize) {
    }

    proof fn index_round_trip(index: usize) {
    }
}

impl TIndex for u32 {
    open spec fn offset(self) -> nat {
        self as nat
    }

    open spec fn of_offset(index: usize) -> Self {
        index as u32
    }

    open spec fn representable(index: usize) -> bool {
        index <= u32::MAX
    }

    #[inline]
    fn as_index(self) -> (r: usize) {
        self as usize
    }

    #[inline]
    fn from_index(index: usize) -> (r: Self) {
        #[verifier::truncate]
        (index as u32)
    }

    proof fn offset_in_range(self) {
    }

    proof fn offset_round_trip(index: usize) {
    }

    proof fn index_round_trip(index: usize) {
    }
}

/// The index that `from_index` builds from offset `k`.
pub open spec fn index_at<I: TIndex>(k: int) -> I {
    I::of_offset(k as usize)
}

/// Every index that comes from `from_index` is a fixed point of
/// converting to an offset and back; where the offset it was built from is
/// representable, it also stands for that offset.
pub proof fn lemma_index_round_trip<I: TIndex>(index: usize)
    ensures
        I::of_offset(I::of_offset(index).offset() as usize) == I::of_offset(index),
        I::representable(index) ==> I::of_offset(index).offset() == index,
{
    I::index_round_trip(index);
    if I::representable(index) {
        I::offset_round_trip(index);
    }
}

} // verus!
