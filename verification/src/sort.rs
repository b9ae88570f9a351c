//! Sorting a view in place, by the order of its values.

use std::cmp::Ordering;
use vstd::prelude::*;
use vstd::std_specs::cmp::OrdSpec;
use crate::search::{ascending, orders_totally};
use crate::slice::TSlice;
use crate::tvec::TVec;

verus! {

/// `<[T]>::sort` of std: puts the values in ascending order and keeps
/// every value as often as it was there. It may panic where comparing is
/// no total order.
pub assume_specification<Elem>[ <[Elem]>::sort ](slice: &mut [Elem]) where Elem: Ord
    requires
        orders_totally::<Elem>(),
    ensures
        final(slice)@.to_multiset() == old(slice)@.to_multiset(),
        ascending(final(slice)@),
;

/// Whether `f` can be called on every pair of values and always returns
/// what `ord` says.
pub open spec fn decides_by<T, F: FnMut(&T, &T) -> Ordering>(
    f: F,
    ord: spec_fn(T, T) -> Ordering,
) -> bool {
    &&& forall|a: T, b: T| #[trigger] f.requires((&a, &b))
    &&& forall|a: T, b: T, o: Ordering| #[trigger] f.ensures((&a, &b), o) ==> o == ord(a, b)
}

/// Whether `ord` is a total order: every value equals itself, `Less` one
/// way is `Greater` the other way, and "not greater" carries over a
/// middle value.
pub open spec fn total_by<T>(ord: spec_fn(T, T) -> Ordering) -> bool {
    &&& forall|a: T| #[trigger] ord(a, a) == Ordering::Equal
    &&& forall|a: T, b: T| #[trigger] ord(a, b) == Ordering::Less <==> ord(b, a) == Ordering::Greater
    &&& forall|a: T, b: T, c: T|
        #[trigger] ord(a, b) != Ordering::Greater && #[trigger] ord(b, c) != Ordering::Greater
            ==> ord(a, c) != Ordering::Greater
}

/// Whether `s` is in ascending order by `ord`.
pub open spec fn ascending_by<T>(s: Seq<T>, ord: spec_fn(T, T) -> Ordering) -> bool {
    forall|i: int, j: int| 0 <= i < j < s.len() ==> ord(s[i], s[j]) != Ordering::Greater
}

/// Whether `f` can be called on every value and always returns the key
/// that `key` says.
pub open spec fn keys_by<T, K, F: FnMut(&T) -> K>(f: F, key: spec_fn(T) -> K) -> bool {
    &&& forall|a: T| #[trigger] f.requires((&a,))
    &&& forall|a: T, k: K| #[trigger] f.ensures((&a,), k) ==> k == key(a)
}

/// Whether the keys that `key` gives the values of `s` are in ascending
/// order.
pub open spec fn ascending_by_key<T, K: Ord>(s: Seq<T>, key: spec_fn(T) -> K) -> bool {
    forall|i: int, j: int|
        0 <= i < j < s.len() ==> key(s[i]).cmp_spec(&key(s[j])) != Ordering::Greater
}

/// `<[T]>::sort_by` of std: puts the values in ascending order by the
/// comparing function and keeps every value as often as it was there. It
/// may panic where the function is no total order.
pub assume_specification<Elem, Compare>[ <[Elem]>::sort_by::<Compare> ](
    slice: &mut [Elem],
    compare: Compare,
) where Compare: FnMut(&Elem, &Elem) -> Ordering
    requires
        exists|ord: spec_fn(Elem, Elem) -> Ordering| decides_by(compare, ord) && total_by(ord),
    ensures
        final(slice)@.to_multiset() == old(slice)@.to_multiset(),
        forall|ord: spec_fn(Elem, Elem) -> Ordering|
            decides_by(compare, ord) ==> ascending_by(final(slice)@, ord),
;

/// `<[T]>::sort_by_key` of std: puts the values in ascending order of
/// the keys that the function gives them and keeps every value as often
/// as it was there. It may panic where comparing keys is no total order.
pub assume_specification<Elem, Key, ToKey>[ <[Elem]>::sort_by_key::<Key, ToKey> ](
    slice: &mut [Elem],
    f: ToKey,
) where ToKey: FnMut(&Elem) -> Key, Key: Ord
    requires
        orders_totally::<Key>(),
        exists|key: spec_fn(Elem) -> Key| keys_by(f, key),
    ensures
        final(slice)@.to_multiset() == old(slice)@.to_multiset(),
        forall|key: spec_fn(Elem) -> Key|
            keys_by(f, key) ==> ascending_by_key(final(slice)@, key),
;

/// `<[T]>::sort_by_cached_key` of std: as `sort_by_key`, with the
/// function called once for each value.
pub assume_specification<Elem, Key, ToKey>[ <[Elem]>::sort_by_cached_key::<Key, ToKey> ](
    slice: &mut [Elem],
    f: ToKey,
) where ToKey: FnMut(&Elem) -> Key, Key: Ord
    requires
        orders_totally::<Key>(),
        exists|key: spec_fn(Elem) -> Key| keys_by(f, key),
    ensures
        final(slice)@.to_multiset() == old(slice)@.to_multiset(),
        forall|key: spec_fn(Elem) -> Key|
            keys_by(f, key) ==> ascending_by_key(final(slice)@, key),
;

impl<'a, I, T> TSlice<'a, I, T> {
    /// Puts the values in ascending order.
    pub fn sort(&mut self) where T: Ord
        requires
            orders_totally::<T>(),
        ensures
            final(final(self).inner)@ == final(old(self).inner)@,
            final(self)@.to_multiset() == old(self)@.to_multiset(),
            ascending(final(self)@),
    {
        self.inner.sort()
    }

    /// Puts the values in ascending order by `compare`.
    pub fn sort_by<F: FnMut(&T, &T) -> Ordering>(&mut self, compare: F)
        requires
            exists|ord: spec_fn(T, T) -> Ordering| decides_by(compare, ord) && total_by(ord),
        ensures
            final(final(self).inner)@ == final(old(self).inner)@,
            final(self)@.to_multiset() == old(self)@.to_multiset(),
            forall|ord: spec_fn(T, T) -> Ordering|
                decides_by(compare, ord) ==> ascending_by(final(self)@, ord),
    {
        self.inner.sort_by(compare)
    }

    /// Puts the values in ascending order of the keys that `f` gives
    /// them.
    pub fn sort_by_key<K: Ord, F: FnMut(&T) -> K>(&mut self, f: F)
        requires
            orders_totally::<K>(),
            exists|key: spec_fn(T) -> K| keys_by(f, key),
        ensures
            final(final(self).inner)@ == final(old(self).inner)@,
            final(self)@.to_multiset() == old(self)@.to_multiset(),
            forall|key: spec_fn(T) -> K| keys_by(f, key) ==> ascending_by_key(final(self)@, key),
    {
        self.inner.sort_by_key(f)
    }

    /// As `sort_by_key`, with `f` called once for each value.
    pub fn sort_by_cached_key<K: Ord, F: FnMut(&T) -> K>(&mut self, f: F)
        requires
            orders_totally::<K>(),
            exists|key: spec_fn(T) -> K| keys_by(f, key),
        ensures
            final(final(self).inner)@ == final(old(self).inner)@,
            final(self)@.to_multiset() == old(self)@.to_multiset(),
            forall|key: spec_fn(T) -> K| keys_by(f, key) ==> ascending_by_key(final(self)@, key),
    {
        self.inner.sort_by_cached_key(f)
    }
}

impl<I, T> TVec<I, T> {
    /// Puts the values in ascending order.
    pub fn sort(&mut self) where T: Ord
        requires
            orders_totally::<T>(),
        ensures
            final(self)@.to_multiset() == old(self)@.to_multiset(),
            ascending(final(self)@),
    {
        let mut view = self.as_mut_slice();
        view.sort();
    }
}

/// Comparing `u32` values is a total order.
pub proof fn lemma_u32_orders_totally()
    ensures
        orders_totally::<u32>(),
{
}

/// Comparing `u64` values is a total order.
pub proof fn lemma_u64_orders_totally()
    ensures
        orders_totally::<u64>(),
{
}

/// Comparing `usize` values is a total order.
pub proof fn lemma_usize_orders_totally()
    ensures
        orders_totally::<usize>(),
{
}

/// Comparing `i32` values is a total order.
pub proof fn lemma_i32_orders_totally()
    ensures
        orders_totally::<i32>(),
{
}

/// Comparing `i64` values is a total order.
pub proof fn lemma_i64_orders_totally()
    ensures
        orders_totally::<i64>(),
{
}

} // verus!
