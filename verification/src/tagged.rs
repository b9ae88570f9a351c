//! An index type that is told apart from others by a tag type.

use std::marker::PhantomData;
use vstd::prelude::*;
use vstd::std_specs::cmp::PartialEqSpecImpl;
use crate::index::TIndex;

verus! {

/// An offset that carries a tag type. Indices with different tags are
/// different types, so that one cannot be taken for the other, and none
/// for a raw offset.
#[derive(Debug, Hash)]
pub struct TaggedIndex<Tag> {
    offset: usize,
    marker: PhantomData<Tag>,
}

impl<Tag> View for TaggedIndex<Tag> {
    type V = nat;

    /// The offset that the index stands for.
    closed spec fn view(&self) -> nat {
        self.offset as nat
    }
}

impl<Tag> TaggedIndex<Tag> {
    /// The index of this tag for the offset `k`.
    pub closed spec fn at(k: usize) -> Self {
        TaggedIndex { offset: k, marker: PhantomData }
    }

    /// The index is the one that `at` gives for its offset, and that
    /// offset fits in `usize`.
    pub proof fn lemma_at(self)
        ensures
            self@ <= usize::MAX,
            self == Self::at(self@ as usize),
            forall|k: usize| (#[trigger] Self::at(k))@ == k,
    {
    }

    /// The index of this tag for `offset`.
    pub fn new(offset: usize) -> (r: Self)
        ensures
            r == Self::at(offset),
            r@ == offset,
    {
        TaggedIndex { offset, marker: PhantomData }
    }

    /// The raw offset.
    pub fn raw(self) -> (r: usize)
        ensures
            r == self@,
    {
        self.offset
    }
}

impl<Tag> Clone for TaggedIndex<Tag> {
    fn clone(&self) -> (r: Self)
        ensures
            r == *self,
    {
        TaggedIndex { offset: self.offset, marker: PhantomData }
    }
}

impl<Tag> Copy for TaggedIndex<Tag> {

}

impl<Tag> PartialEq for TaggedIndex<Tag> {
    fn eq(&self, other: &Self) -> (r: bool) {
        self.offset == other.offset
    }
}

impl<Tag> PartialEqSpecImpl for TaggedIndex<Tag> {
    open spec fn obeys_eq_spec() -> bool {
        true
    }

    open spec fn eq_spec(&self, other: &Self) -> bool {
        self@ == other@
    }
}

impl<Tag> Eq for TaggedIndex<Tag> {

}

impl<Tag> TIndex for TaggedIndex<Tag> {
    open spec fn offset(self) -> nat {
        self@
    }

    open spec fn of_offset(index: usize) -> Self {
        Self::at(index)
    }

    open spec fn representable(index: usize) -> bool {
        true
    }

    #[inline]
    fn as_index(self) -> (r: usize) {
        self.offset
    }

    #[inline]
    fn from_index(index: usize) -> (r: Self) {
        TaggedIndex { offset: index, marker: PhantomData }
    }

    proof fn offset_in_range(self) {
    }

    proof fn offset_round_trip(index: usize) {
    }

    proof fn index_round_trip(index: usize) {
    }
}

} // verus!
