//! A borrowed view of contiguous storage for reading only, indexed by a
//! typed index.

use std::marker::PhantomData;
use std::ops::Index;
use std::slice::{Iter, Windows};
use vstd::prelude::*;
use vstd::slice::slice_subrange;
use vstd::std_specs::iter::IteratorSpec;
use vstd::std_specs::slice::spec_slice_iter;
use vstd::std_specs::cmp::{PartialEqSpec, PartialEqSpecImpl};
use crate::index::TIndex;
use crate::iter::{consecutive, IndexIter};

verus! {

/// A view of a run of values of type `T` for reading only, indexed by
/// `I`. It borrows the storage and copies nothing, and can itself be
/// copied.
#[derive(Debug, Hash)]
pub struct TSliceRef<'a, I, T> {
    marker: PhantomData<I>,
    inner: &'a [T],
}

impl<'a, I, T> View for TSliceRef<'a, I, T> {
    type V = Seq<T>;

    /// The values in the view, by offset.
    open spec fn view(&self) -> Seq<T> {
        self.storage()@
    }
}

impl<'a, I, T> Clone for TSliceRef<'a, I, T> {
    fn clone(&self) -> (r: Self)
        ensures
            r == *self,
    {
        TSliceRef { marker: PhantomData, inner: self.inner }
    }
}

impl<'a, I, T> Copy for TSliceRef<'a, I, T> {

}

/// Whether `a` and `b` are as long as each other and hold, place by
/// place, values that `==` calls equal.
pub open spec fn equal_by_value<T: PartialEq>(a: Seq<T>, b: Seq<T>) -> bool {
    &&& a.len() == b.len()
    &&& forall|k: int| 0 <= k < a.len() ==> #[trigger] a[k].eq_spec(&b[k])
}

impl<'a, I, T: PartialEq> PartialEq for TSliceRef<'a, I, T> {
    /// Whether the two views hold equal values in the same places,
    /// whatever the type of their index.
    fn eq(&self, other: &Self) -> (r: bool) {
        if self.inner.len() != other.inner.len() {
            return false;
        }
        let mut k: usize = 0;
        while k < self.inner.len()
            invariant
                k <= self@.len(),
                self@.len() == other@.len(),
                T::obeys_eq_spec() ==> forall|j: int|
                    0 <= j < k ==> #[trigger] self@[j].eq_spec(&other@[j]),
            decreases self@.len() - k,
        {
            if !(self.inner[k] == other.inner[k]) {
                return false;
            }
            k += 1;
        }
        true
    }
}

impl<'a, I, T: PartialEq> PartialEqSpecImpl for TSliceRef<'a, I, T> {
    open spec fn obeys_eq_spec() -> bool {
        T::obeys_eq_spec()
    }

    open spec fn eq_spec(&self, other: &Self) -> bool {
        equal_by_value(self@, other@)
    }
}

impl<'a, I, T: Eq> Eq for TSliceRef<'a, I, T> {

}

/// The overlapping runs of `size` values of `s`, from the first on: none
/// where `s` is shorter than `size`.
pub open spec fn runs_of<T>(s: Seq<T>, size: nat) -> Seq<Seq<T>> {
    if s.len() < size {
        Seq::empty()
    } else {
        Seq::new((s.len() - size + 1) as nat, |k: int| s.subrange(k, k + size))
    }
}

/// `<[T]>::windows` of std: an iterator over all the overlapping runs of
/// `size` values, from the first on, and over none where the slice is
/// shorter than `size`. It panics where `size` is zero.
pub assume_specification<'a, Elem>[ <[Elem]>::windows ](slice: &'a [Elem], size: usize) -> (r:
    Windows<'a, Elem>)
    requires
        size != 0,
    ensures
        IteratorSpec::obeys_prophetic_iter_laws(&r),
        IteratorSpec::remaining(&r).len() == runs_of(slice@, size as nat).len(),
        forall|k: int|
            0 <= k < IteratorSpec::remaining(&r).len() ==> (#[trigger] IteratorSpec::remaining(
                &r,
            )[k])@ == runs_of(slice@, size as nat)[k],
;

/// The iterator that `windows` of a slice returns.
#[verifier::external_type_specification]
#[verifier::external_body]
#[verifier::reject_recursive_types(Item)]
pub struct ExWindows<'a, Item: 'a>(Windows<'a, Item>);

impl<'a, I, T> TSliceRef<'a, I, T> {
    /// The storage behind the view.
    pub closed spec fn storage(&self) -> &'a [T] {
        self.inner
    }

    /// The view of the whole of `slice`.
    pub fn from_slice(slice: &'a [T]) -> (r: Self)
        ensures
            r.storage() == slice,
            r@ == slice@,
    {
        TSliceRef { marker: PhantomData, inner: slice }
    }

    /// The storage behind the view.
    pub fn to_slice(&self) -> (r: &'a [T])
        ensures
            r == self.storage(),
            r@ == self@,
    {
        self.inner
    }

    /// The iterator of std over the values of the view.
    pub fn iter(&self) -> (r: Iter<'a, T>)
        ensures
            r == spec_slice_iter(self.storage()),
    {
        self.inner.iter()
    }

    /// The iterator of std over the overlapping runs of `size` values:
    /// it hands out every run, from the first on.
    pub fn windows(&self, size: usize) -> (r: Windows<'a, T>)
        requires
            size != 0,
        ensures
            IteratorSpec::obeys_prophetic_iter_laws(&r),
            IteratorSpec::remaining(&r).len() == runs_of(self@, size as nat).len(),
            forall|k: int|
                0 <= k < IteratorSpec::remaining(&r).len() ==> (#[trigger] IteratorSpec::remaining(
                    &r,
                )[k])@ == runs_of(self@, size as nat)[k],
    {
        self.inner.windows(size)
    }

    /// Whether the view holds no value.
    pub fn is_empty(&self) -> (r: bool)
        ensures
            r <==> self@.len() == 0,
    {
        self.inner.len() == 0
    }

    /// The number of values in the view.
    pub fn len(&self) -> (r: usize)
        ensures
            r == self@.len(),
    {
        self.inner.len()
    }

    /// The first value, if there is one.
    pub fn first(&self) -> (r: Option<&'a T>)
        ensures
            self@.len() == 0 ==> r is None,
            self@.len() > 0 ==> r == Some(&self@[0]),
    {
        if self.inner.len() == 0 {
            None
        } else {
            Some(&self.inner[0])
        }
    }

    /// The last value, if there is one.
    pub fn last(&self) -> (r: Option<&'a T>)
        ensures
            self@.len() == 0 ==> r is None,
            self@.len() > 0 ==> r == Some(&self@.last()),
    {
        if self.inner.len() == 0 {
            None
        } else {
            Some(&self.inner[self.inner.len() - 1])
        }
    }

    /// The last value and the view of all that comes before it.
    pub fn split_last(&self) -> (r: Option<(&'a T, Self)>)
        ensures
            match r {
                Some((value, front)) => self@.len() > 0 && *value == self@.last() && front@
                    == self@.drop_last(),
                None => self@.len() == 0,
            },
    {
        let len = self.inner.len();
        if len == 0 {
            None
        } else {
            let front = slice_subrange(self.inner, 0, len - 1);
            Some((&self.inner[len - 1], TSliceRef { marker: PhantomData, inner: front }))
        }
    }

    /// Whether some value of the view equals `item`.
    pub fn contains(&self, item: &T) -> (r: bool) where T: PartialEq<T>
        ensures
            T::obeys_eq_spec() ==> (r <==> exists|k: int|
                0 <= k < self@.len() && #[trigger] self@[k].eq_spec(item)),
    {
        let mut k: usize = 0;
        while k < self.inner.len()
            invariant
                k <= self@.len(),
                T::obeys_eq_spec() ==> forall|j: int| 0 <= j < k ==> !#[trigger] self@[j].eq_spec(item),
            decreases self@.len() - k,
        {
            if self.inner[k] == *item {
                return true;
            }
            k += 1;
        }
        false
    }
}

impl<'a, I: TIndex, T> TSliceRef<'a, I, T> {
    /// The value at `idx`, or nothing where `idx` is out of bounds.
    pub fn get(&self, idx: I) -> (r: Option<&'a T>)
        ensures
            idx.offset() >= self@.len() ==> r is None,
            idx.offset() < self@.len() ==> r == Some(&self@[idx.offset() as int]),
    {
        let at = idx.as_index();
        if at < self.inner.len() {
            Some(&self.inner[at])
        } else {
            None
        }
    }

    /// The index of the last value, if there is one.
    pub fn last_id(&self) -> (r: Option<I>)
        ensures
            self@.len() == 0 ==> r is None,
            self@.len() > 0 ==> r == Some(I::of_offset((self@.len() - 1) as usize)),
    {
        if self.inner.len() == 0 {
            None
        } else {
            Some(I::from_index(self.inner.len() - 1))
        }
    }

    /// The index of the first value.
    pub fn range_start(&self) -> (r: I)
        ensures
            r == I::of_offset(0),
    {
        I::from_index(0)
    }

    /// The index behind the last value.
    pub fn range_end(&self) -> (r: I)
        ensures
            r == I::of_offset(self@.len() as usize),
    {
        I::from_index(self.inner.len())
    }

    /// The enumerator of the indices of the view.
    pub fn index_iter(&self) -> (r: IndexIter<I>)
        ensures
            r@ == consecutive(0, self@.len() as int),
    {
        IndexIter::new(self.inner.len())
    }

    /// The view of what comes before `mid` and the view of the rest.
    pub fn split_at(&self, mid: I) -> (r: (Self, Self))
        requires
            mid.offset() <= self@.len(),
        ensures
            r.0@ == self@.subrange(0, mid.offset() as int),
            r.1@ == self@.subrange(mid.offset() as int, self@.len() as int),
            r.0@ + r.1@ == self@,
    {
        let at = mid.as_index();
        let left = slice_subrange(self.inner, 0, at);
        let right = slice_subrange(self.inner, at, self.inner.len());
        proof {
            assert(left@ + right@ =~= self@);
        }
        (TSliceRef { marker: PhantomData, inner: left }, TSliceRef { marker: PhantomData, inner: right })
    }

    /// The view of the values with offsets from `lo` up to `hi`.
    pub(crate) fn subslice(&self, lo: usize, hi: usize) -> (r: Self)
        requires
            lo <= hi <= self@.len(),
        ensures
            r@ == self@.subrange(lo as int, hi as int),
    {
        TSliceRef { marker: PhantomData, inner: slice_subrange(self.inner, lo, hi) }
    }
}

impl<'a, I: TIndex, T> Index<I> for TSliceRef<'a, I, T> {
    type Output = T;

    /// The value at `idx`, which has to be in bounds.
    fn index(&self, idx: I) -> (r: &T)
        ensures
            *r == self@[idx.offset() as int],
    {
        &self.inner[idx.as_index()]
    }
}

impl<'a, I: TIndex, T> vstd::std_specs::core::IndexSpecImpl<I> for TSliceRef<'a, I, T> {
    open spec fn index_req(&self, index: &I) -> bool {
        index.offset() < self@.len()
    }
}

} // verus!
