//! The shapes that can index a view: a single index and the six kinds of
//! range over indices.

use std::ops::{Range, RangeFrom, RangeFull, RangeInclusive, RangeTo, RangeToInclusive};
use vstd::prelude::*;
use crate::index::TIndex;
use crate::sealed::Sealed;
use crate::slice_ref::TSliceRef;
use crate::slice::TSlice;

verus! {

/// The range with a lower bound only, of std.
#[verifier::external_type_specification]
#[verifier::reject_recursive_types(Idx)]
pub struct ExRangeFrom<Idx>(RangeFrom<Idx>);

/// The range with an upper bound only, of std.
#[verifier::external_type_specification]
#[verifier::reject_recursive_types(Idx)]
pub struct ExRangeTo<Idx>(RangeTo<Idx>);

/// The range with an inclusive upper bound only, of std.
#[verifier::external_type_specification]
#[verifier::reject_recursive_types(Idx)]
pub struct ExRangeToInclusive<Idx>(RangeToInclusive<Idx>);

/// The range without bounds, of std.
#[verifier::external_type_specification]
pub struct ExRangeFull(RangeFull);

/// `RangeInclusive::start` of std: the lower bound that the range holds.
pub assume_specification<Bound>[ RangeInclusive::<Bound>::start ](
    range: &RangeInclusive<Bound>,
) -> (r: &Bound)
    ensures
        *r == range@.start,
;

/// `RangeInclusive::end` of std: the inclusive upper bound that the range
/// holds.
pub assume_specification<Bound>[ RangeInclusive::<Bound>::end ](
    range: &RangeInclusive<Bound>,
) -> (r: &Bound)
    ensures
        *r == range@.end,
;

/// Whether offsets `lo` up to `hi` lie in a view of `len` values.
pub open spec fn span_in_bounds(lo: nat, hi: nat, len: nat) -> bool {
    lo <= hi <= len
}

/// What a shape over indices of type `I` means as two raw offsets.
pub trait TSliceBounds<I: TIndex>: Sealed + Sized {
    /// The offset of the first value that the shape selects.
    spec fn lo(&self) -> nat;

    /// The offset behind the last value that the shape selects in a view
    /// of `len` values.
    spec fn hi(&self, len: nat) -> nat;

    /// The two offsets as numbers, where the shape lies in a view of
    /// `len` values.
    fn bounds(&self, len: usize) -> (r: Option<(usize, usize)>)
        ensures
            r is Some <==> span_in_bounds(self.lo(), self.hi(len as nat), len as nat),
            r matches Some(b) ==> b.0 == self.lo() && b.1 == self.hi(len as nat),
    ;
}

/// A shape that selects a part of a view indexed by `I`.
pub trait TSliceIndex<'a, I: TIndex, T>: TSliceBounds<I> {
    /// What the shape selects: one value, or a view.
    type Output;

    /// The values that an output stands for.
    spec fn selected(out: Self::Output) -> Seq<T>;

    /// What the shape selects for writing: one value, or a view.
    type OutputMut;

    /// The values that an output for writing stands for.
    spec fn selected_mut(out: Self::OutputMut) -> Seq<T>;

    /// What the shape selects from `slice`, or nothing where it reaches
    /// out of bounds.
    fn get(self, slice: TSliceRef<'a, I, T>) -> (r: Option<Self::Output>)
        ensures
            r is Some <==> span_in_bounds(self.lo(), self.hi(slice@.len()), slice@.len()),
            r matches Some(out) ==> Self::selected(out) == slice@.subrange(
                self.lo() as int,
                self.hi(slice@.len()) as int,
            ),
    ;

    /// What the shape selects from `slice`.
    fn index(self, slice: TSliceRef<'a, I, T>) -> (r: Self::Output)
        requires
            span_in_bounds(self.lo(), self.hi(slice@.len()), slice@.len()),
        ensures
            Self::selected(r) == slice@.subrange(self.lo() as int, self.hi(slice@.len()) as int),
    ;

    /// What the shape selects from `slice`, for writing, or nothing where
    /// it reaches out of bounds. Each shape says in its own contract how
    /// what is written shows in the storage.
    fn get_mut(self, slice: TSlice<'a, I, T>) -> (r: Option<Self::OutputMut>)
        ensures
            r is Some <==> span_in_bounds(self.lo(), self.hi(slice@.len()), slice@.len()),
            r matches Some(out) ==> Self::selected_mut(out) == slice@.subrange(
                self.lo() as int,
                self.hi(slice@.len()) as int,
            ),
    ;

    /// What the shape selects from `slice`, for writing.
    fn index_mut(self, slice: TSlice<'a, I, T>) -> (r: Self::OutputMut)
        requires
            span_in_bounds(self.lo(), self.hi(slice@.len()), slice@.len()),
        ensures
            Self::selected_mut(r) == slice@.subrange(
                self.lo() as int,
                self.hi(slice@.len()) as int,
            ),
    ;
}

impl<I: TIndex> TSliceBounds<I> for I {
    open spec fn lo(&self) -> nat {
        self.offset()
    }

    open spec fn hi(&self, len: nat) -> nat {
        self.offset() + 1
    }

    fn bounds(&self, len: usize) -> (r: Option<(usize, usize)>) {
        let at = self.as_index();
        if at < len {
            Some((at, at + 1))
        } else {
            None
        }
    }
}

impl<'a, I: TIndex, T: 'a> TSliceIndex<'a, I, T> for I {
    type Output = &'a T;

    open spec fn selected(out: &'a T) -> Seq<T> {
        seq![*out]
    }

    type OutputMut = &'a mut T;

    open spec fn selected_mut(out: &'a mut T) -> Seq<T> {
        seq![*out]
    }

    fn get(self, slice: TSliceRef<'a, I, T>) -> (r: Option<&'a T>) {
        let r = slice.get(self);
        proof {
            if r is Some {
                assert(seq![*r.unwrap()] =~= slice@.subrange(
                    self.offset() as int,
                    self.offset() as int + 1,
                ));
            }
        }
        r
    }

    fn index(self, slice: TSliceRef<'a, I, T>) -> (r: &'a T) {
        let r = &slice.to_slice()[self.as_index()];
        proof {
            assert(seq![*r] =~= slice@.subrange(self.offset() as int, self.offset() as int + 1));
        }
        r
    }

    fn get_mut(self, slice: TSlice<'a, I, T>) -> (r: Option<&'a mut T>)
        ensures
            r is None ==> final(slice.inner)@ == slice@,
            r matches Some(out) ==> *out == slice@[self.offset() as int] && final(slice.inner)@
                == slice@.update(self.offset() as int, *final(out)),
    {
        let at = self.as_index();
        let ghost all = slice@;
        if at < slice.inner.len() {
            let out = &mut slice.inner[at];
            proof {
                assert(seq![*out] =~= all.subrange(at as int, at + 1));
            }
            Some(out)
        } else {
            None
        }
    }

    fn index_mut(self, slice: TSlice<'a, I, T>) -> (r: &'a mut T)
        ensures
            *r == slice@[self.offset() as int],
            final(slice.inner)@ == slice@.update(self.offset() as int, *final(r)),
    {
        let at = self.as_index();
        let ghost all = slice@;
        let out = &mut slice.inner[at];
        proof {
            assert(seq![*out] =~= all.subrange(at as int, at + 1));
        }
        out
    }
}

impl<I: TIndex> TSliceBounds<I> for Range<I> {
    open spec fn lo(&self) -> nat {
        self.start.offset()
    }

    open spec fn hi(&self, len: nat) -> nat {
        self.end.offset()
    }

    fn bounds(&self, len: usize) -> (r: Option<(usize, usize)>) {
        let lo = self.start.as_index();
        let hi = self.end.as_index();
        if lo <= hi && hi <= len {
            Some((lo, hi))
        } else {
            None
        }
    }
}

impl<'a, I: TIndex, T: 'a> TSliceIndex<'a, I, T> for Range<I> {
    type Output = TSliceRef<'a, I, T>;

    open spec fn selected(out: TSliceRef<'a, I, T>) -> Seq<T> {
        out@
    }

    type OutputMut = TSlice<'a, I, T>;

    open spec fn selected_mut(out: TSlice<'a, I, T>) -> Seq<T> {
        out@
    }

    fn get(self, slice: TSliceRef<'a, I, T>) -> (r: Option<TSliceRef<'a, I, T>>) {
        match self.bounds(slice.len()) {
            Some((lo, hi)) => Some(slice.subslice(lo, hi)),
            None => None,
        }
    }

    fn index(self, slice: TSliceRef<'a, I, T>) -> (r: TSliceRef<'a, I, T>) {
        slice.subslice(self.start.as_index(), self.end.as_index())
    }

    fn get_mut(self, slice: TSlice<'a, I, T>) -> (r: Option<TSlice<'a, I, T>>)
        ensures
            r is None ==> final(slice.inner)@ == slice@,
            r matches Some(part) ==> final(slice.inner)@ == slice@.subrange(0, self.lo() as int)
                + final(part.inner)@ + slice@.subrange(
                self.hi(slice@.len()) as int,
                slice@.len() as int,
            ),
    {
        slice.get_range_mut(self)
    }

    fn index_mut(self, slice: TSlice<'a, I, T>) -> (r: TSlice<'a, I, T>)
        ensures
            final(slice.inner)@ == slice@.subrange(0, self.lo() as int) + final(r.inner)@
                + slice@.subrange(self.hi(slice@.len()) as int, slice@.len() as int),
    {
        slice.index_range_mut(self)
    }
}

impl<I: TIndex> TSliceBounds<I> for RangeFrom<I> {
    open spec fn lo(&self) -> nat {
        self.start.offset()
    }

    open spec fn hi(&self, len: nat) -> nat {
        len
    }

    fn bounds(&self, len: usize) -> (r: Option<(usize, usize)>) {
        let lo = self.start.as_index();
        if lo <= len {
            Some((lo, len))
        } else {
            None
        }
    }
}

impl<'a, I: TIndex, T: 'a> TSliceIndex<'a, I, T> for RangeFrom<I> {
    type Output = TSliceRef<'a, I, T>;

    open spec fn selected(out: TSliceRef<'a, I, T>) -> Seq<T> {
        out@
    }

    type OutputMut = TSlice<'a, I, T>;

    open spec fn selected_mut(out: TSlice<'a, I, T>) -> Seq<T> {
        out@
    }

    fn get(self, slice: TSliceRef<'a, I, T>) -> (r: Option<TSliceRef<'a, I, T>>) {
        match self.bounds(slice.len()) {
            Some((lo, hi)) => Some(slice.subslice(lo, hi)),
            None => None,
        }
    }

    fn index(self, slice: TSliceRef<'a, I, T>) -> (r: TSliceRef<'a, I, T>) {
        slice.subslice(self.start.as_index(), slice.len())
    }

    fn get_mut(self, slice: TSlice<'a, I, T>) -> (r: Option<TSlice<'a, I, T>>)
        ensures
            r is None ==> final(slice.inner)@ == slice@,
            r matches Some(part) ==> final(slice.inner)@ == slice@.subrange(0, self.lo() as int)
                + final(part.inner)@ + slice@.subrange(
                self.hi(slice@.len()) as int,
                slice@.len() as int,
            ),
    {
        slice.get_range_mut(self)
    }

    fn index_mut(self, slice: TSlice<'a, I, T>) -> (r: TSlice<'a, I, T>)
        ensures
            final(slice.inner)@ == slice@.subrange(0, self.lo() as int) + final(r.inner)@
                + slice@.subrange(self.hi(slice@.len()) as int, slice@.len() as int),
    {
        slice.index_range_mut(self)
    }
}

impl<I: TIndex> TSliceBounds<I> for RangeFull {
    open spec fn lo(&self) -> nat {
        0
    }

    open spec fn hi(&self, len: nat) -> nat {
        len
    }

    fn bounds(&self, len: usize) -> (r: Option<(usize, usize)>) {
        Some((0, len))
    }
}

impl<'a, I: TIndex, T: 'a> TSliceIndex<'a, I, T> for RangeFull {
    type Output = TSliceRef<'a, I, T>;

    open spec fn selected(out: TSliceRef<'a, I, T>) -> Seq<T> {
        out@
    }

    type OutputMut = TSlice<'a, I, T>;

    open spec fn selected_mut(out: TSlice<'a, I, T>) -> Seq<T> {
        out@
    }

    fn get(self, slice: TSliceRef<'a, I, T>) -> (r: Option<TSliceRef<'a, I, T>>) {
        Some(slice.subslice(0, slice.len()))
    }

    fn index(self, slice: TSliceRef<'a, I, T>) -> (r: TSliceRef<'a, I, T>) {
        slice.subslice(0, slice.len())
    }

    fn get_mut(self, slice: TSlice<'a, I, T>) -> (r: Option<TSlice<'a, I, T>>)
        ensures
            r matches Some(part) ==> final(slice.inner)@ == final(part.inner)@,
    {
        let r = slice.get_range_mut(self);
        proof {
            if r is Some {
                assert(slice@.subrange(0, 0) + final(r.unwrap().inner)@ + slice@.subrange(
                    slice@.len() as int,
                    slice@.len() as int,
                ) =~= final(r.unwrap().inner)@);
            }
        }
        r
    }

    fn index_mut(self, slice: TSlice<'a, I, T>) -> (r: TSlice<'a, I, T>)
        ensures
            final(slice.inner)@ == final(r.inner)@,
    {
        let r = slice.index_range_mut(self);
        proof {
            assert(slice@.subrange(0, 0) + final(r.inner)@ + slice@.subrange(
                slice@.len() as int,
                slice@.len() as int,
            ) =~= final(r.inner)@);
        }
        r
    }
}

impl<I: TIndex> TSliceBounds<I> for RangeInclusive<I> {
    open spec fn lo(&self) -> nat {
        self@.start.offset()
    }

    open spec fn hi(&self, len: nat) -> nat {
        self@.end.offset() + 1
    }

    fn bounds(&self, len: usize) -> (r: Option<(usize, usize)>) {
        let lo = self.start().as_index();
        let end = self.end().as_index();
        if end < len && lo <= end + 1 {
            Some((lo, end + 1))
        } else {
            None
        }
    }
}

impl<'a, I: TIndex, T: 'a> TSliceIndex<'a, I, T> for RangeInclusive<I> {
    type Output = TSliceRef<'a, I, T>;

    open spec fn selected(out: TSliceRef<'a, I, T>) -> Seq<T> {
        out@
    }

    type OutputMut = TSlice<'a, I, T>;

    open spec fn selected_mut(out: TSlice<'a, I, T>) -> Seq<T> {
        out@
    }

    fn get(self, slice: TSliceRef<'a, I, T>) -> (r: Option<TSliceRef<'a, I, T>>) {
        match self.bounds(slice.len()) {
            Some((lo, hi)) => Some(slice.subslice(lo, hi)),
            None => None,
        }
    }

    fn index(self, slice: TSliceRef<'a, I, T>) -> (r: TSliceRef<'a, I, T>) {
        let len = slice.len();
        let end = self.end().as_index();
        assert(end < len);
        slice.subslice(self.start().as_index(), end + 1)
    }

    fn get_mut(self, slice: TSlice<'a, I, T>) -> (r: Option<TSlice<'a, I, T>>)
        ensures
            r is None ==> final(slice.inner)@ == slice@,
            r matches Some(part) ==> final(slice.inner)@ == slice@.subrange(0, self.lo() as int)
                + final(part.inner)@ + slice@.subrange(
                self.hi(slice@.len()) as int,
                slice@.len() as int,
            ),
    {
        slice.get_range_mut(self)
    }

    fn index_mut(self, slice: TSlice<'a, I, T>) -> (r: TSlice<'a, I, T>)
        ensures
            final(slice.inner)@ == slice@.subrange(0, self.lo() as int) + final(r.inner)@
                + slice@.subrange(self.hi(slice@.len()) as int, slice@.len() as int),
    {
        slice.index_range_mut(self)
    }
}

impl<I: TIndex> TSliceBounds<I> for RangeTo<I> {
    open spec fn lo(&self) -> nat {
        0
    }

    open spec fn hi(&self, len: nat) -> nat {
        self.end.offset()
    }

    fn bounds(&self, len: usize) -> (r: Option<(usize, usize)>) {
        let hi = self.end.as_index();
        if hi <= len {
            Some((0, hi))
        } else {
            None
        }
    }
}

impl<'a, I: TIndex, T: 'a> TSliceIndex<'a, I, T> for RangeTo<I> {
    type Output = TSliceRef<'a, I, T>;

    open spec fn selected(out: TSliceRef<'a, I, T>) -> Seq<T> {
        out@
    }

    type OutputMut = TSlice<'a, I, T>;

    open spec fn selected_mut(out: TSlice<'a, I, T>) -> Seq<T> {
        out@
    }

    fn get(self, slice: TSliceRef<'a, I, T>) -> (r: Option<TSliceRef<'a, I, T>>) {
        match self.bounds(slice.len()) {
            Some((lo, hi)) => Some(slice.subslice(lo, hi)),
            None => None,
        }
    }

    fn index(self, slice: TSliceRef<'a, I, T>) -> (r: TSliceRef<'a, I, T>) {
        slice.subslice(0, self.end.as_index())
    }

    fn get_mut(self, slice: TSlice<'a, I, T>) -> (r: Option<TSlice<'a, I, T>>)
        ensures
            r is None ==> final(slice.inner)@ == slice@,
            r matches Some(part) ==> final(slice.inner)@ == slice@.subrange(0, self.lo() as int)
                + final(part.inner)@ + slice@.subrange(
                self.hi(slice@.len()) as int,
                slice@.len() as int,
            ),
    {
        slice.get_range_mut(self)
    }

    fn index_mut(self, slice: TSlice<'a, I, T>) -> (r: TSlice<'a, I, T>)
        ensures
            final(slice.inner)@ == slice@.subrange(0, self.lo() as int) + final(r.inner)@
                + slice@.subrange(self.hi(slice@.len()) as int, slice@.len() as int),
    {
        slice.index_range_mut(self)
    }
}

impl<I: TIndex> TSliceBounds<I> for RangeToInclusive<I> {
    open spec fn lo(&self) -> nat {
        0
    }

    open spec fn hi(&self, len: nat) -> nat {
        self.end.offset() + 1
    }

    fn bounds(&self, len: usize) -> (r: Option<(usize, usize)>) {
        let end = self.end.as_index();
        if end < len {
            Some((0, end + 1))
        } else {
            None
        }
    }
}

impl<'a, I: TIndex, T: 'a> TSliceIndex<'a, I, T> for RangeToInclusive<I> {
    type Output = TSliceRef<'a, I, T>;

    open spec fn selected(out: TSliceRef<'a, I, T>) -> Seq<T> {
        out@
    }

    type OutputMut = TSlice<'a, I, T>;

    open spec fn selected_mut(out: TSlice<'a, I, T>) -> Seq<T> {
        out@
    }

    fn get(self, slice: TSliceRef<'a, I, T>) -> (r: Option<TSliceRef<'a, I, T>>) {
        match self.bounds(slice.len()) {
            Some((lo, hi)) => Some(slice.subslice(lo, hi)),
            None => None,
        }
    }

    fn index(self, slice: TSliceRef<'a, I, T>) -> (r: TSliceRef<'a, I, T>) {
        let len = slice.len();
        let end = self.end.as_index();
        assert(end < len);
        slice.subslice(0, end + 1)
    }

    fn get_mut(self, slice: TSlice<'a, I, T>) -> (r: Option<TSlice<'a, I, T>>)
        ensures
            r is None ==> final(slice.inner)@ == slice@,
            r matches Some(part) ==> final(slice.inner)@ == slice@.subrange(0, self.lo() as int)
                + final(part.inner)@ + slice@.subrange(
                self.hi(slice@.len()) as int,
                slice@.len() as int,
            ),
    {
        slice.get_range_mut(self)
    }

    fn index_mut(self, slice: TSlice<'a, I, T>) -> (r: TSlice<'a, I, T>)
        ensures
            final(slice.inner)@ == slice@.subrange(0, self.lo() as int) + final(r.inner)@
                + slice@.subrange(self.hi(slice@.len()) as int, slice@.len() as int),
    {
        slice.index_range_mut(self)
    }
}

} // verus!
