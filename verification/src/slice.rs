//! A borrowed view of contiguous storage for reading and writing, indexed
//! by a typed index.

use std::marker::PhantomData;
use std::ops::Index;
use std::slice::{Iter, IterMut, Windows};
use vstd::prelude::*;
use vstd::std_specs::cmp::{PartialEqSpec, PartialEqSpecImpl};
use vstd::std_specs::iter::IteratorSpec;
use vstd::std_specs::slice::spec_slice_iter;
use crate::index::TIndex;
use crate::iter::{consecutive, IndexIter};
use crate::slice_ref::{equal_by_value, runs_of, TSliceRef};
use crate::slice_index::{span_in_bounds, TSliceBounds};

verus! {

/// `<[T]>::swap` of std: exchanges the values at the two offsets. It
/// panics where one of them is out of bounds.
pub assume_specification<Elem>[ <[Elem]>::swap ](slice: &mut [Elem], a: usize, b: usize)
    requires
        a < old(slice)@.len(),
        b < old(slice)@.len(),
    ensures
        final(slice)@ == old(slice)@.update(a as int, old(slice)@[b as int]).update(
            b as int,
            old(slice)@[a as int],
        ),
;

/// The iterator that `iter_mut` of a slice returns.
#[verifier::external_type_specification]
#[verifier::external_body]
#[verifier::reject_recursive_types(Item)]
pub struct ExIterMut<'a, Item: 'a>(IterMut<'a, Item>);

/// `<[T]>::iter_mut` of std: an iterator that hands out each value, from
/// the first on, for writing. The slice stays as long as it was, and what
/// each place holds in the end is what was last written through the
/// reference that the iterator handed out for it.
pub assume_specification<'a, Elem>[ <[Elem]>::iter_mut ](slice: &'a mut [Elem]) -> (r: IterMut<
    'a,
    Elem,
>)
    ensures
        IteratorSpec::obeys_prophetic_iter_laws(&r),
        IteratorSpec::remaining(&r).len() == old(slice)@.len(),
        forall|k: int|
            0 <= k < old(slice)@.len() ==> *(#[trigger] IteratorSpec::remaining(&r)[k]) == old(slice)@[k],
        final(slice)@.len() == old(slice)@.len(),
        forall|k: int|
            #![trigger IteratorSpec::remaining(&r)[k]]
            0 <= k < old(slice)@.len() ==> final(slice)@[k] == *final(
                IteratorSpec::remaining(&r)[k]
            ),
;

/// A view of a run of values of type `T` for reading and writing, indexed
/// by `I`. It borrows the storage and copies nothing.
///
/// The fields are public so that contracts can say what the storage
/// holds once the view is given up.
#[derive(Debug, Hash)]
pub struct TSlice<'a, I, T> {
    pub marker: PhantomData<I>,
    pub inner: &'a mut [T],
}

impl<'a, I, T> View for TSlice<'a, I, T> {
    type V = Seq<T>;

    /// The values in the view, by offset.
    open spec fn view(&self) -> Seq<T> {
        self.inner@
    }
}

impl<'a, I, T> TSlice<'a, I, T> {
    /// The view of the whole of `slice`. What the view holds in the end
    /// is what `slice` holds in the end.
    pub fn from_mut_slice(slice: &'a mut [T]) -> (r: Self)
        ensures
            r@ == old(slice)@,
            final(r.inner)@ == final(slice)@,
    {
        TSlice { marker: PhantomData, inner: slice }
    }

    /// The view for reading only.
    pub fn as_ref(&self) -> (r: TSliceRef<'_, I, T>)
        ensures
            r@ == self@,
    {
        TSliceRef::from_slice(&*self.inner)
    }

    /// The number of values in the view.
    pub fn len(&self) -> (r: usize)
        ensures
            r == self@.len(),
    {
        self.inner.len()
    }

    /// Whether the view holds no value.
    pub fn is_empty(&self) -> (r: bool)
        ensures
            r <==> self@.len() == 0,
    {
        self.inner.len() == 0
    }

    /// The storage behind the view, for reading.
    pub open spec fn storage(&self) -> &[T] {
        &*self.inner
    }

    /// The storage behind the view, for reading.
    pub fn to_slice(&self) -> (r: &[T])
        ensures
            r == self.storage(),
            r@ == self@,
    {
        &*self.inner
    }

    /// The iterator of std over the values of the view.
    pub fn iter(&self) -> (r: Iter<'_, T>)
        ensures
            r == spec_slice_iter(self.storage()),
    {
        self.inner.iter()
    }

    /// The iterator of std over the overlapping runs of `size` values:
    /// it hands out every run, from the first on.
    pub fn windows(&self, size: usize) -> (r: Windows<'_, T>)
        requires
            size != 0,
        ensures
            IteratorSpec::obeys_prophetic_iter_laws(&r),
            IteratorSpec::remaining(&r).len() == runs_of(self@, size as nat).len(),
            forall|k: int|
                0 <= k < IteratorSpec::remaining(&r).len() ==> (#[trigger] IteratorSpec::remaining(
                    &r,
                )[k])@ == runs_of(self@, size as nat)[k],
    {
        self.inner.windows(size)
    }

    /// The first value, if there is one.
    pub fn first(&self) -> (r: Option<&T>)
        ensures
            self@.len() == 0 ==> r is None,
            self@.len() > 0 ==> r == Some(&self@[0]),
    {
        self.as_ref().first()
    }

    /// The last value, if there is one.
    pub fn last(&self) -> (r: Option<&T>)
        ensures
            self@.len() == 0 ==> r is None,
            self@.len() > 0 ==> r == Some(&self@.last()),
    {
        self.as_ref().last()
    }

    /// The last value and the view of all that comes before it.
    pub fn split_last(&self) -> (r: Option<(&T, TSliceRef<'_, I, T>)>)
        ensures
            match r {
                Some((value, front)) => self@.len() > 0 && *value == self@.last() && front@
                    == self@.drop_last(),
                None => self@.len() == 0,
            },
    {
        self.as_ref().split_last()
    }

    /// Whether some value of the view equals `item`.
    pub fn contains(&self, item: &T) -> (r: bool) where T: PartialEq<T>
        ensures
            T::obeys_eq_spec() ==> (r <==> exists|k: int|
                0 <= k < self@.len() && #[trigger] self@[k].eq_spec(item)),
    {
        self.as_ref().contains(item)
    }

    /// The first value for writing, if there is one.
    pub fn first_mut(&mut self) -> (r: Option<&mut T>)
        ensures
            final(final(self).inner)@ == final(old(self).inner)@,
            old(self)@.len() == 0 ==> r is None && final(self)@ == old(self)@,
            old(self)@.len() > 0 ==> r is Some && *r.unwrap() == old(self)@[0] && final(self)@
                == old(self)@.update(0, *final(r.unwrap())),
    {
        if self.inner.len() > 0 {
            Some(&mut self.inner[0])
        } else {
            None
        }
    }

    /// The last value for writing, if there is one.
    pub fn last_mut(&mut self) -> (r: Option<&mut T>)
        ensures
            final(final(self).inner)@ == final(old(self).inner)@,
            old(self)@.len() == 0 ==> r is None && final(self)@ == old(self)@,
            old(self)@.len() > 0 ==> r is Some && *r.unwrap() == old(self)@.last() && final(self)@
                == old(self)@.update(old(self)@.len() - 1, *final(r.unwrap())),
    {
        let len = self.inner.len();
        if len > 0 {
            Some(&mut self.inner[len - 1])
        } else {
            None
        }
    }

    /// The iterator of std that hands out each value, from the first on,
    /// for writing. The storage stays as long as it was, and what each
    /// place holds in the end is what was last written through the
    /// reference handed out for it.
    pub fn iter_mut(self) -> (r: IterMut<'a, T>)
        ensures
            IteratorSpec::obeys_prophetic_iter_laws(&r),
            IteratorSpec::remaining(&r).len() == self@.len(),
            forall|k: int|
                0 <= k < self@.len() ==> *(#[trigger] IteratorSpec::remaining(&r)[k]) == self@[k],
            final(self.inner)@.len() == self@.len(),
            forall|k: int|
                #![trigger IteratorSpec::remaining(&r)[k]]
                0 <= k < self@.len() ==> final(self.inner)@[k] == *final(
                    IteratorSpec::remaining(&r)[k]
                ),
    {
        self.inner.iter_mut()
    }
}

impl<'a, I: TIndex, T> TSlice<'a, I, T> {
    /// The value at `idx`, or nothing where `idx` is out of bounds.
    pub fn get(&self, idx: I) -> (r: Option<&T>)
        ensures
            idx.offset() >= self@.len() ==> r is None,
            idx.offset() < self@.len() ==> r == Some(&self@[idx.offset() as int]),
    {
        self.as_ref().get(idx)
    }

    /// The index of the last value, if there is one.
    pub fn last_id(&self) -> (r: Option<I>)
        ensures
            self@.len() == 0 ==> r is None,
            self@.len() > 0 ==> r == Some(I::of_offset((self@.len() - 1) as usize)),
    {
        self.as_ref().last_id()
    }

    /// The index of the first value.
    pub fn range_start(&self) -> (r: I)
        ensures
            r == I::of_offset(0),
    {
        self.as_ref().range_start()
    }

    /// The index behind the last value.
    pub fn range_end(&self) -> (r: I)
        ensures
            r == I::of_offset(self@.len() as usize),
    {
        self.as_ref().range_end()
    }

    /// The enumerator of the indices of the view.
    pub fn index_iter(&self) -> (r: IndexIter<I>)
        ensures
            r@ == consecutive(0, self@.len() as int),
    {
        self.as_ref().index_iter()
    }

    /// The view of what comes before `mid` and the view of the rest, both
    /// for reading.
    pub fn split_at(&self, mid: I) -> (r: (TSliceRef<'_, I, T>, TSliceRef<'_, I, T>))
        requires
            mid.offset() <= self@.len(),
        ensures
            r.0@ == self@.subrange(0, mid.offset() as int),
            r.1@ == self@.subrange(mid.offset() as int, self@.len() as int),
            r.0@ + r.1@ == self@,
    {
        self.as_ref().split_at(mid)
    }

    /// The value at `idx` for writing, or nothing where `idx` is out of
    /// bounds.
    pub fn get_mut(&mut self, idx: I) -> (r: Option<&mut T>)
        ensures
            final(final(self).inner)@ == final(old(self).inner)@,
            idx.offset() >= old(self)@.len() ==> r is None && final(self)@ == old(self)@,
            idx.offset() < old(self)@.len() ==> r is Some && *r.unwrap() == old(self)@[idx.offset() as int] && final(self)@ == old(self)@.update(
                idx.offset() as int,
                *final(r.unwrap()),
            ),
    {
        let at = idx.as_index();
        if at < self.inner.len() {
            Some(&mut self.inner[at])
        } else {
            None
        }
    }

    /// The value at `idx` for writing.
    pub fn index_mut(&mut self, idx: I) -> (r: &mut T)
        requires
            idx.offset() < old(self)@.len(),
        ensures
            final(final(self).inner)@ == final(old(self).inner)@,
            *r == old(self)@[idx.offset() as int],
            final(self)@ == old(self)@.update(idx.offset() as int, *final(r)),
    {
        &mut self.inner[idx.as_index()]
    }

    /// Exchanges the values at `a` and `b`.
    pub fn swap(&mut self, a: I, b: I)
        requires
            a.offset() < old(self)@.len(),
            b.offset() < old(self)@.len(),
        ensures
            final(final(self).inner)@ == final(old(self).inner)@,
            final(self)@ == old(self)@.update(
                a.offset() as int,
                old(self)@[b.offset() as int],
            ).update(b.offset() as int, old(self)@[a.offset() as int]),
    {
        self.inner.swap(a.as_index(), b.as_index())
    }

    /// The view of what comes before `mid` and the view of the rest, both
    /// for writing. What the two hold in the end, one after the other, is
    /// what the storage holds in the end.
    pub fn split_at_mut(self, mid: I) -> (r: (Self, Self))
        requires
            mid.offset() <= self@.len(),
        ensures
            r.0@ == self@.subrange(0, mid.offset() as int),
            r.1@ == self@.subrange(mid.offset() as int, self@.len() as int),
            final(self.inner)@ == final(r.0.inner)@ + final(r.1.inner)@,
    {
        let (left, right) = self.inner.split_at_mut(mid.as_index());
        (
            TSlice { marker: PhantomData, inner: left },
            TSlice { marker: PhantomData, inner: right },
        )
    }

    /// The view, for writing, of what `range` selects, or nothing where
    /// it reaches out of bounds. What lies outside stays as it is.
    pub fn get_range_mut<R: TSliceBounds<I>>(self, range: R) -> (r: Option<Self>)
        ensures
            r is Some <==> span_in_bounds(range.lo(), range.hi(self@.len()), self@.len()),
            r is None ==> final(self.inner)@ == self@,
            r matches Some(part) ==> {
                &&& part@ == self@.subrange(range.lo() as int, range.hi(self@.len()) as int)
                &&& final(self.inner)@ == self@.subrange(0, range.lo() as int) + final(part.inner)@ + self@.subrange(range.hi(self@.len()) as int, self@.len() as int)
            },
    {
        let ghost all = self@;
        match range.bounds(self.inner.len()) {
            Some((lo, hi)) => {
                let (_front, rest) = self.inner.split_at_mut(lo);
                let (part, _back) = rest.split_at_mut(hi - lo);
                proof {
                    assert(part@ =~= all.subrange(lo as int, hi as int));
                    assert(_front@ =~= all.subrange(0, lo as int));
                    assert(_back@ =~= all.subrange(hi as int, all.len() as int));
                }
                Some(TSlice { marker: PhantomData, inner: part })
            },
            None => None,
        }
    }

    /// The view, for writing, of what `range` selects. What lies outside
    /// stays as it is.
    pub fn index_range_mut<R: TSliceBounds<I>>(self, range: R) -> (r: Self)
        requires
            span_in_bounds(range.lo(), range.hi(self@.len()), self@.len()),
        ensures
            r@ == self@.subrange(range.lo() as int, range.hi(self@.len()) as int),
            final(self.inner)@ == self@.subrange(0, range.lo() as int) + final(r.inner)@
                + self@.subrange(range.hi(self@.len()) as int, self@.len() as int),
    {
        let r = self.get_range_mut(range);
        r.unwrap()
    }
}

impl<'a, I, T: PartialEq> PartialEq for TSlice<'a, I, T> {
    /// Whether the two views hold equal values in the same places,
    /// whatever the type of their index.
    fn eq(&self, other: &Self) -> (r: bool) {
        self.as_ref() == other.as_ref()
    }
}

impl<'a, I, T: PartialEq> PartialEqSpecImpl for TSlice<'a, I, T> {
    open spec fn obeys_eq_spec() -> bool {
        T::obeys_eq_spec()
    }

    open spec fn eq_spec(&self, other: &Self) -> bool {
        equal_by_value(self@, other@)
    }
}

impl<'a, I, T: Eq> Eq for TSlice<'a, I, T> {

}

impl<'a, I: TIndex, T> Index<I> for TSlice<'a, I, T> {
    type Output = T;

    /// The value at `idx`, which has to be in bounds.
    fn index(&self, idx: I) -> (r: &T)
        ensures
            *r == self@[idx.offset() as int],
    {
        &self.inner[idx.as_index()]
    }
}

impl<'a, I: TIndex, T> vstd::std_specs::core::IndexSpecImpl<I> for TSlice<'a, I, T> {
    open spec fn index_req(&self, index: &I) -> bool {
        index.offset() < self@.len()
    }
}

} // verus!
