//! An owned, growable run of values that is indexed by a typed index.

use std::marker::PhantomData;
use std::ops::Index;
use vstd::prelude::*;
use vstd::std_specs::cmp::{PartialEqSpec, PartialEqSpecImpl};
use crate::index::{lemma_index_round_trip, TIndex};
use crate::slice_ref::{equal_by_value, TSliceRef};
use crate::slice_index::{span_in_bounds, TSliceBounds};
use crate::slice::TSlice;

verus! {

/// A growable run of values of type `T`, indexed by `I`.
#[derive(Debug, Hash)]
pub struct TVec<I, T> {
    marker: PhantomData<I>,
    inner: Vec<T>,
}

impl<I, T> View for TVec<I, T> {
    type V = Seq<T>;

    /// The values, by offset.
    closed spec fn view(&self) -> Seq<T> {
        self.inner@
    }
}

/// The values of `s` whose entry in `keep` is true, in their order.
pub open spec fn kept<T>(s: Seq<T>, keep: Seq<bool>) -> Seq<T>
    decreases s.len(),
{
    if s.len() == 0 || keep.len() != s.len() {
        Seq::<T>::empty()
    } else if keep.last() {
        kept(s.drop_last(), keep.drop_last()).push(s.last())
    } else {
        kept(s.drop_last(), keep.drop_last())
    }
}

impl<I, T> Default for TVec<I, T> {
    fn default() -> (r: Self)
        ensures
            r@ == Seq::<T>::empty(),
    {
        Self { marker: PhantomData, inner: Vec::new() }
    }
}

impl<I, T: PartialEq> PartialEq for TVec<I, T> {
    /// Whether the two collections hold equal values in the same places.
    fn eq(&self, other: &Self) -> (r: bool) {
        self.as_slice() == other.as_slice()
    }
}

impl<I, T: PartialEq> PartialEqSpecImpl for TVec<I, T> {
    open spec fn obeys_eq_spec() -> bool {
        T::obeys_eq_spec()
    }

    open spec fn eq_spec(&self, other: &Self) -> bool {
        equal_by_value(self@, other@)
    }
}

impl<I, T: Eq> Eq for TVec<I, T> {

}

impl<I, T: Clone> Clone for TVec<I, T> {
    fn clone(&self) -> (r: Self)
        ensures
            r@.len() == self@.len(),
            forall|k: int| 0 <= k < self@.len() ==> cloned::<T>(#[trigger] self@[k], r@[k]),
    {
        Self { marker: PhantomData, inner: self.inner.clone() }
    }
}

impl<I, T> TVec<I, T> {
    /// The collection without values.
    pub fn new() -> (r: Self)
        ensures
            r@ == Seq::<T>::empty(),
    {
        Self { marker: PhantomData, inner: Vec::new() }
    }

    /// The collection without values, with room for `capacity` of them.
    pub fn with_capacity(capacity: usize) -> (r: Self)
        ensures
            r@ == Seq::<T>::empty(),
    {
        Self { marker: PhantomData, inner: Vec::with_capacity(capacity) }
    }

    /// The collection that holds the values of `vec`, without copying.
    pub fn from_vec(vec: Vec<T>) -> (r: Self)
        ensures
            r@ == vec@,
    {
        Self { marker: PhantomData, inner: vec }
    }

    /// The storage of the collection, without copying.
    pub fn into_vec(self) -> (r: Vec<T>)
        ensures
            r@ == self@,
    {
        self.inner
    }

    /// The view of all the values, for reading.
    pub fn as_slice(&self) -> (r: TSliceRef<'_, I, T>)
        ensures
            r@ == self@,
    {
        TSliceRef::from_slice(self.inner.as_slice())
    }

    /// The view of all the values, for reading and writing. What the
    /// view holds in the end is what the collection holds in the end.
    pub fn as_mut_slice(&mut self) -> (r: TSlice<'_, I, T>)
        ensures
            r@ == old(self)@,
            final(r.inner)@ == final(self)@,
    {
        TSlice::from_mut_slice(self.inner.as_mut_slice())
    }

    /// The number of values.
    pub fn len(&self) -> (r: usize)
        ensures
            r == self@.len(),
    {
        self.inner.len()
    }

    /// Whether the collection holds no value.
    pub fn is_empty(&self) -> (r: bool)
        ensures
            r <==> self@.len() == 0,
    {
        self.inner.len() == 0
    }

    /// Takes the last value off, if there is one.
    pub fn pop(&mut self) -> (r: Option<T>)
        ensures
            old(self)@.len() == 0 ==> r is None && final(self)@ == old(self)@,
            old(self)@.len() > 0 ==> r == Some(old(self)@.last()) && final(self)@ == old(self)@.drop_last(),
    {
        self.inner.pop()
    }

    /// Keeps the values for which `f` returns true, in their order, and
    /// drops the others.
    pub fn retain<F: Fn(&T) -> bool>(&mut self, f: F)
        requires
            forall|k: int| 0 <= k < old(self)@.len() ==> f.requires((&#[trigger] old(self)@[k],)),
        ensures
            exists|keep: Seq<bool>|
                {
                    &&& keep.len() == old(self)@.len()
                    &&& forall|k: int|
                        0 <= k < keep.len() ==> f.ensures((&old(self)@[k],), #[trigger] keep[k])
                    &&& final(self)@ == kept(old(self)@, keep)
                },
    {
        let len = self.inner.len();
        let mut del: usize = 0;
        let ghost mut keep: Seq<bool> = Seq::empty();
        let mut i: usize = 0;
        while i < len
            invariant
                i <= len,
                del <= i,
                len == old(self)@.len(),
                self.inner@.len() == len,
                keep.len() == i,
                forall|k: int| 0 <= k < i ==> f.ensures((&old(self)@[k],), #[trigger] keep[k]),
                forall|k: int| 0 <= k < len ==> f.requires((&#[trigger] old(self)@[k],)),
                self.inner@.subrange(0, i - del) == kept(old(self)@.take(i as int), keep),
                forall|k: int| i <= k < len ==> self.inner@[k] == old(self)@[k],
            decreases len - i,
        {
            let ghost before = self.inner@;
            let ghost front = i - del;
            let keep_it = f(&self.inner[i]);
            if !keep_it {
                del += 1;
            } else if del > 0 {
                self.inner.as_mut_slice().swap(i - del, i);
            }
            proof {
                let taken = old(self)@.take(i + 1);
                let next = keep.push(keep_it);
                assert(taken.drop_last() == old(self)@.take(i as int));
                assert(next.drop_last() == keep);
                assert(taken.last() == old(self)@[i as int]);
                if keep_it {
                    assert(self.inner@.subrange(0, front + 1) =~= before.subrange(0, front).push(
                        old(self)@[i as int],
                    ));
                } else {
                    assert(self.inner@.subrange(0, front) =~= before.subrange(0, front));
                }
                keep = next;
            }
            i += 1;
        }
        if del > 0 {
            self.inner.truncate(len - del);
        }
        proof {
            assert(old(self)@.take(len as int) == old(self)@);
            assert(self.inner@ =~= kept(old(self)@, keep));
        }
    }

    /// Makes the collection `new_len` long: cuts it there, or fills it
    /// up with clones of `value`.
    pub fn resize(&mut self, new_len: usize, value: T) where T: Clone
        ensures
            new_len <= old(self)@.len() ==> final(self)@ == old(self)@.subrange(
                0,
                new_len as int,
            ),
            new_len > old(self)@.len() ==> {
                &&& final(self)@.len() == new_len
                &&& final(self)@.subrange(0, old(self)@.len() as int) == old(self)@
                &&& forall|k: int|
                    old(self)@.len() <= k < new_len ==> cloned::<T>(value, #[trigger] final(self)@[k])
            },
    {
        self.inner.resize(new_len, value)
    }

    /// Puts clones of the values of `other` at the end.
    pub fn extend_from_slice(&mut self, other: TSliceRef<'_, I, T>) where T: Clone
        ensures
            final(self)@.len() == old(self)@.len() + other@.len(),
            final(self)@.subrange(0, old(self)@.len() as int) == old(self)@,
            forall|k: int|
                0 <= k < other@.len() ==> cloned::<T>(
                    other@[k],
                    #[trigger] final(self)@[old(self)@.len() + k],
                ),
    {
        self.inner.extend_from_slice(other.to_slice());
        proof {
            assert(self.inner@.subrange(0, old(self)@.len() as int) =~= old(self)@);
        }
    }

    /// Moves the values of `other` to the end and leaves `other` empty.
    pub fn append(&mut self, other: &mut Self)
        ensures
            final(self)@ == old(self)@ + old(other)@,
            final(other)@ == Seq::<T>::empty(),
    {
        self.inner.append(&mut other.inner)
    }
}

impl<I: TIndex, T> TVec<I, T> {
    /// Puts `item` at the end and returns its index: the one built from
    /// the length before the call.
    pub fn push(&mut self, item: T) -> (r: I)
        ensures
            final(self)@ == old(self)@.push(item),
            r == I::of_offset(old(self)@.len() as usize),
            I::of_offset(r.offset() as usize) == r,
            I::representable(old(self)@.len() as usize) ==> r.offset() == old(self)@.len(),
    {
        let idx = self.inner.len();
        self.inner.push(item);
        proof {
            lemma_index_round_trip::<I>(idx);
        }
        I::from_index(idx)
    }

    /// Puts `elem` at `idx` and moves what was there, and all behind it,
    /// one place up.
    pub fn insert(&mut self, idx: I, elem: T)
        requires
            idx.offset() <= old(self)@.len(),
        ensures
            final(self)@ == old(self)@.insert(idx.offset() as int, elem),
    {
        self.inner.insert(idx.as_index(), elem)
    }

    /// Takes the value at `id` out and moves all behind it one place
    /// down.
    pub fn remove(&mut self, id: I) -> (r: T)
        requires
            id.offset() < old(self)@.len(),
        ensures
            r == old(self)@[id.offset() as int],
            final(self)@ == old(self)@.remove(id.offset() as int),
    {
        self.inner.remove(id.as_index())
    }

    /// Cuts the collection at `at` and returns what was behind the cut.
    pub fn split_off(&mut self, at: I) -> (r: Self)
        requires
            at.offset() <= old(self)@.len(),
        ensures
            final(self)@ == old(self)@.subrange(0, at.offset() as int),
            r@ == old(self)@.subrange(at.offset() as int, old(self)@.len() as int),
            final(self)@ + r@ == old(self)@,
    {
        let tail = self.inner.split_off(at.as_index());
        proof {
            assert(self.inner@ + tail@ =~= old(self)@);
        }
        Self { marker: PhantomData, inner: tail }
    }

    /// Exchanges the values at `a` and `b`.
    pub fn swap(&mut self, a: I, b: I)
        requires
            a.offset() < old(self)@.len(),
            b.offset() < old(self)@.len(),
        ensures
            final(self)@ == old(self)@.update(
                a.offset() as int,
                old(self)@[b.offset() as int],
            ).update(b.offset() as int, old(self)@[a.offset() as int]),
    {
        self.inner.as_mut_slice().swap(a.as_index(), b.as_index())
    }
}

impl<I: TIndex, T> TVec<I, T> {
    /// The value at `idx`, or nothing where `idx` is out of bounds.
    pub fn get(&self, idx: I) -> (r: Option<&T>)
        ensures
            idx.offset() >= self@.len() ==> r is None,
            idx.offset() < self@.len() ==> r == Some(&self@[idx.offset() as int]),
    {
        let at = idx.as_index();
        if at < self.inner.len() {
            Some(&self.inner[at])
        } else {
            None
        }
    }

    /// The value at `idx` for writing, or nothing where `idx` is out of
    /// bounds.
    pub fn get_mut(&mut self, idx: I) -> (r: Option<&mut T>)
        ensures
            idx.offset() >= old(self)@.len() ==> r is None && final(self)@ == old(self)@,
            idx.offset() < old(self)@.len() ==> r is Some && *r.unwrap() == old(self)@[idx.offset() as int]
                && final(self)@ == old(self)@.update(idx.offset() as int, *final(r.unwrap())),
    {
        let at = idx.as_index();
        if at < self.inner.len() {
            Some(&mut self.inner[at])
        } else {
            None
        }
    }

    /// The value at `idx` for writing.
    pub fn index_mut(&mut self, idx: I) -> (r: &mut T)
        requires
            idx.offset() < old(self)@.len(),
        ensures
            *r == old(self)@[idx.offset() as int],
            final(self)@ == old(self)@.update(idx.offset() as int, *final(r)),
    {
        &mut self.inner[idx.as_index()]
    }

    /// The first value for writing, if there is one.
    pub fn first_mut(&mut self) -> (r: Option<&mut T>)
        ensures
            old(self)@.len() == 0 ==> r is None && final(self)@ == old(self)@,
            old(self)@.len() > 0 ==> r is Some && *r.unwrap() == old(self)@[0] && final(self)@
                == old(self)@.update(0, *final(r.unwrap())),
    {
        if self.inner.len() > 0 {
            Some(&mut self.inner[0])
        } else {
            None
        }
    }

    /// The last value for writing, if there is one.
    pub fn last_mut(&mut self) -> (r: Option<&mut T>)
        ensures
            old(self)@.len() == 0 ==> r is None && final(self)@ == old(self)@,
            old(self)@.len() > 0 ==> r is Some && *r.unwrap() == old(self)@.last() && final(self)@ == old(self)@.update(old(self)@.len() - 1, *final(r.unwrap())),
    {
        let len = self.inner.len();
        if len > 0 {
            Some(&mut self.inner[len - 1])
        } else {
            None
        }
    }

    /// Takes out the values that `range` selects, puts `replace_with` in
    /// their place and returns what was taken out.
    pub fn splice<R: TSliceBounds<I>>(&mut self, range: R, replace_with: Vec<T>) -> (r: Vec<T>)
        requires
            span_in_bounds(range.lo(), range.hi(old(self)@.len()), old(self)@.len()),
        ensures
            r@ == old(self)@.subrange(range.lo() as int, range.hi(old(self)@.len()) as int),
            final(self)@ == old(self)@.subrange(0, range.lo() as int) + replace_with@ + old(self)@.subrange(range.hi(old(self)@.len()) as int, old(self)@.len() as int),
    {
        let ghost fill = replace_with@;
        let mut replace_with = replace_with;
        let bounds = range.bounds(self.inner.len());
        let (lo, hi) = bounds.unwrap();
        let mut tail = self.inner.split_off(hi);
        let removed = self.inner.split_off(lo);
        self.inner.append(&mut replace_with);
        self.inner.append(&mut tail);
        proof {
            assert(removed@ =~= old(self)@.subrange(lo as int, hi as int));
            assert(self.inner@ =~= old(self)@.subrange(0, lo as int) + fill + old(self)@.subrange(
                hi as int,
                old(self)@.len() as int,
            ));
        }
        removed
    }
}

impl<I: TIndex, T> Index<I> for TVec<I, T> {
    type Output = T;

    /// The value at `idx`, which has to be in bounds.
    fn index(&self, idx: I) -> (r: &T)
        ensures
            *r == self@[idx.offset() as int],
    {
        &self.inner[idx.as_index()]
    }
}

impl<I: TIndex, T> vstd::std_specs::core::IndexSpecImpl<I> for TVec<I, T> {
    open spec fn index_req(&self, index: &I) -> bool {
        index.offset() < self@.len()
    }
}

} // verus!
