//! Binary search in a view, with the place of the match or of the gap as
//! a typed index.

use std::cmp::Ordering;
use vstd::prelude::*;
use vstd::std_specs::cmp::OrdSpec;
use crate::index::{index_at, TIndex};
use crate::slice::TSlice;
use crate::slice_ref::TSliceRef;

verus! {

/// Whether `f` may call the value at offset `k` equal to what is sought.
pub open spec fn hit<T, F: Fn(&T) -> Ordering>(s: Seq<T>, f: F, k: int) -> bool {
    0 <= k < s.len() && f.ensures((&s[k],), Ordering::Equal)
}

/// Whether offset `k` is a gap for `f`: `f` may call the value before it
/// less and the value at it greater than what is sought.
pub open spec fn gap<T, F: Fn(&T) -> Ordering>(s: Seq<T>, f: F, k: int) -> bool {
    &&& 0 <= k <= s.len()
    &&& k > 0 ==> f.ensures((&s[k - 1],), Ordering::Less)
    &&& k < s.len() ==> f.ensures((&s[k],), Ordering::Greater)
}

/// Whether the value at offset `k` compares equal to `x`.
pub open spec fn hit_value<T: Ord>(s: Seq<T>, x: T, k: int) -> bool {
    0 <= k < s.len() && s[k].cmp_spec(&x) == Ordering::Equal
}

/// Whether offset `k` is a gap for `x`: the value before it is less and
/// the value at it is greater than `x`.
pub open spec fn gap_value<T: Ord>(s: Seq<T>, x: T, k: int) -> bool {
    &&& 0 <= k <= s.len()
    &&& k > 0 ==> s[k - 1].cmp_spec(&x) == Ordering::Less
    &&& k < s.len() ==> s[k].cmp_spec(&x) == Ordering::Greater
}

/// Whether `f` may give the value `v` a key that compares to `b` as `o`
/// says.
pub open spec fn key_compares<T, B: Ord, F: Fn(&T) -> B>(f: F, v: T, b: B, o: Ordering) -> bool {
    exists|key: B| f.ensures((&v,), key) && key.cmp_spec(&b) == o
}

/// Whether `f` may give the value at offset `k` a key equal to `b`.
pub open spec fn hit_key<T, B: Ord, F: Fn(&T) -> B>(s: Seq<T>, f: F, b: B, k: int) -> bool {
    0 <= k < s.len() && key_compares(f, s[k], b, Ordering::Equal)
}

/// Whether offset `k` is a gap for the key `b`: `f` may give the value
/// before it a smaller key and the value at it a greater one.
pub open spec fn gap_key<T, B: Ord, F: Fn(&T) -> B>(s: Seq<T>, f: F, b: B, k: int) -> bool {
    &&& 0 <= k <= s.len()
    &&& k > 0 ==> key_compares(f, s[k - 1], b, Ordering::Less)
    &&& k < s.len() ==> key_compares(f, s[k], b, Ordering::Greater)
}

/// Whether `s` is in ascending order.
pub open spec fn ascending<T: Ord>(s: Seq<T>) -> bool {
    forall|i: int, j: int| 0 <= i < j < s.len() ==> s[i].cmp_spec(&s[j]) != Ordering::Greater
}

/// Whether comparing values of type `T` is a total order: `cmp` returns
/// what `cmp_spec` says, every value equals itself, `Less` one way is
/// `Greater` the other way, and "not greater" carries over a middle value.
pub open spec fn orders_totally<T: Ord>() -> bool {
    &&& T::obeys_cmp_spec()
    &&& forall|a: T| #[trigger] a.cmp_spec(&a) == Ordering::Equal
    &&& forall|a: T, b: T|
        #[trigger] a.cmp_spec(&b) == Ordering::Less <==> b.cmp_spec(&a) == Ordering::Greater
    &&& forall|a: T, b: T, c: T|
        #[trigger] a.cmp_spec(&b) != Ordering::Greater && #[trigger] b.cmp_spec(&c)
            != Ordering::Greater ==> a.cmp_spec(&c) != Ordering::Greater
}

/// In an ascending run, a gap for `x` parts the values that are less than
/// `x` from those that are greater, and putting `x` into the gap keeps
/// the run ascending.
pub proof fn lemma_gap_is_insertion_point<T: Ord>(s: Seq<T>, x: T, k: int)
    requires
        orders_totally::<T>(),
        ascending(s),
        gap_value(s, x, k),
    ensures
        forall|j: int| 0 <= j < k ==> (#[trigger] s[j]).cmp_spec(&x) == Ordering::Less,
        forall|j: int| k <= j < s.len() ==> (#[trigger] s[j]).cmp_spec(&x) == Ordering::Greater,
        ascending(s.insert(k, x)),
{
    assert forall|j: int| 0 <= j < k implies (#[trigger] s[j]).cmp_spec(&x) == Ordering::Less by {
        let last = s[k - 1];
        assert(last.cmp_spec(&x) == Ordering::Less);
        assert(x.cmp_spec(&last) == Ordering::Greater);
        if j < k - 1 {
            assert(s[j].cmp_spec(&last) != Ordering::Greater);
        } else {
            assert(s[j] == last);
        }
        assert(s[j].cmp_spec(&x) != Ordering::Greater);
        if s[j].cmp_spec(&x) == Ordering::Equal {
            assert(x.cmp_spec(&s[j]) != Ordering::Greater) by {
                if x.cmp_spec(&s[j]) == Ordering::Greater {
                    assert(s[j].cmp_spec(&x) == Ordering::Less);
                }
            }
            assert(x.cmp_spec(&last) != Ordering::Greater);
        }
    }
    assert forall|j: int| k <= j < s.len() implies (#[trigger] s[j]).cmp_spec(&x)
        == Ordering::Greater by {
        let first = s[k];
        assert(first.cmp_spec(&x) == Ordering::Greater);
        assert(x.cmp_spec(&first) == Ordering::Less);
        if j > k {
            assert(first.cmp_spec(&s[j]) != Ordering::Greater);
        } else {
            assert(s[j] == first);
        }
        assert(x.cmp_spec(&s[j]) != Ordering::Greater);
        if s[j].cmp_spec(&x) != Ordering::Greater {
            assert(first.cmp_spec(&x) != Ordering::Greater);
        }
    }
    let t = s.insert(k, x);
    assert forall|i: int, j: int| 0 <= i < j < t.len() implies t[i].cmp_spec(&t[j])
        != Ordering::Greater by {
        if j < k {
            assert(t[i] == s[i] && t[j] == s[j]);
        } else if j == k {
            assert(t[i] == s[i] && t[j] == x);
        } else if i < k {
            assert(t[i] == s[i] && t[j] == s[j - 1]);
            if i < j - 1 {
            } else {
                assert(s[i].cmp_spec(&s[i]) == Ordering::Equal);
            }
        } else if i == k {
            assert(t[i] == x && t[j] == s[j - 1]);
            assert(s[j - 1].cmp_spec(&x) == Ordering::Greater);
            assert(x.cmp_spec(&s[j - 1]) == Ordering::Less);
        } else {
            assert(t[i] == s[i - 1] && t[j] == s[j - 1]);
        }
    }
}

impl<'a, I: TIndex, T> TSliceRef<'a, I, T> {
    /// Searches the view by halving, with `f` telling for a value whether
    /// it is less than, equal to or greater than what is sought. `Ok`
    /// holds the index of a value that `f` called equal; `Err` holds the
    /// index of a gap, where what is sought can be put in to keep a
    /// sorted view sorted.
    pub fn binary_search_by<F: Fn(&T) -> Ordering>(&self, f: F) -> (r: Result<I, I>)
        requires
            forall|k: int| 0 <= k < self@.len() ==> f.requires((&#[trigger] self@[k],)),
        ensures
            match r {
                Ok(i) => exists|k: int| hit(self@, f, k) && i == index_at::<I>(k),
                Err(i) => exists|k: int| gap(self@, f, k) && i == index_at::<I>(k),
            },
    {
        let slice = self.to_slice();
        let mut lo: usize = 0;
        let mut hi: usize = slice.len();
        while lo < hi
            invariant
                slice@ == self@,
                lo <= hi <= slice@.len(),
                forall|k: int| 0 <= k < self@.len() ==> f.requires((&#[trigger] self@[k],)),
                lo > 0 ==> f.ensures((&self@[lo - 1],), Ordering::Less),
                hi < self@.len() ==> f.ensures((&self@[hi + 0],), Ordering::Greater),
            decreases hi - lo,
        {
            let mid = lo + (hi - lo) / 2;
            match f(&slice[mid]) {
                Ordering::Less => {
                    lo = mid + 1;
                },
                Ordering::Greater => {
                    hi = mid;
                },
                Ordering::Equal => {
                    proof {
                        assert(hit(self@, f, mid + 0));
                        assert(index_at::<I>(mid + 0) == I::of_offset(mid));
                    }
                    return Ok(I::from_index(mid));
                },
            }
        }
        proof {
            assert(gap(self@, f, lo + 0));
            assert(index_at::<I>(lo + 0) == I::of_offset(lo));
        }
        Err(I::from_index(lo))
    }

    /// Searches the view for a value equal to `x`. `Ok` holds the index
    /// of one; `Err` holds the index of the gap between a smaller and a
    /// greater value.
    pub fn binary_search(&self, x: &T) -> (r: Result<I, I>) where T: Ord
        ensures
            T::obeys_cmp_spec() ==> match r {
                Ok(i) => exists|k: int| hit_value(self@, *x, k) && i == index_at::<I>(k),
                Err(i) => exists|k: int| gap_value(self@, *x, k) && i == index_at::<I>(k),
            },
    {
        let f = |p: &T| -> (o: Ordering)
            ensures
                T::obeys_cmp_spec() ==> o == p.cmp_spec(x),
            { p.cmp(x) };
        let r = self.binary_search_by(f);
        proof {
            if T::obeys_cmp_spec() {
                match r {
                    Ok(i) => {
                        let k = choose|k: int| hit(self@, f, k) && i == index_at::<I>(k);
                        assert(hit_value(self@, *x, k));
                    },
                    Err(i) => {
                        let k = choose|k: int| gap(self@, f, k) && i == index_at::<I>(k);
                        assert(gap_value(self@, *x, k));
                    },
                }
            }
        }
        r
    }
}

impl<'a, I: TIndex, T> TSliceRef<'a, I, T> {
    /// Searches the view for a value whose key, as `f` gives it, equals
    /// `b`. `Ok` holds the index of one; `Err` holds the index of the gap
    /// between a smaller and a greater key.
    pub fn binary_search_by_key<B: Ord, F: Fn(&T) -> B>(&self, b: &B, f: F) -> (r: Result<I, I>)
        requires
            forall|k: int| 0 <= k < self@.len() ==> f.requires((&#[trigger] self@[k],)),
        ensures
            B::obeys_cmp_spec() ==> match r {
                Ok(i) => exists|k: int| hit_key(self@, f, *b, k) && i == index_at::<I>(k),
                Err(i) => exists|k: int| gap_key(self@, f, *b, k) && i == index_at::<I>(k),
            },
    {
        let slice = self.to_slice();
        let mut lo: usize = 0;
        let mut hi: usize = slice.len();
        while lo < hi
            invariant
                slice@ == self@,
                lo <= hi <= slice@.len(),
                forall|k: int| 0 <= k < self@.len() ==> f.requires((&#[trigger] self@[k],)),
                B::obeys_cmp_spec() && lo > 0 ==> key_compares(
                    f,
                    self@[lo - 1],
                    *b,
                    Ordering::Less,
                ),
                B::obeys_cmp_spec() && hi < self@.len() ==> key_compares(
                    f,
                    self@[hi + 0],
                    *b,
                    Ordering::Greater,
                ),
            decreases hi - lo,
        {
            let mid = lo + (hi - lo) / 2;
            let key = f(&slice[mid]);
            let o = key.cmp(b);
            proof {
                if B::obeys_cmp_spec() {
                    assert(key_compares(f, self@[mid + 0], *b, o));
                }
            }
            match o {
                Ordering::Less => {
                    lo = mid + 1;
                },
                Ordering::Greater => {
                    hi = mid;
                },
                Ordering::Equal => {
                    proof {
                        if B::obeys_cmp_spec() {
                            assert(hit_key(self@, f, *b, mid + 0));
                        }
                        assert(index_at::<I>(mid + 0) == I::of_offset(mid));
                    }
                    return Ok(I::from_index(mid));
                },
            }
        }
        proof {
            if B::obeys_cmp_spec() {
                assert(gap_key(self@, f, *b, lo + 0));
            }
            assert(index_at::<I>(lo + 0) == I::of_offset(lo));
        }
        Err(I::from_index(lo))
    }
}

impl<'a, I: TIndex, T> TSlice<'a, I, T> {
    /// Searches the view by halving, with `f` telling for a value whether
    /// it is less than, equal to or greater than what is sought. `Ok`
    /// holds the index of a value that `f` called equal; `Err` holds the
    /// index of a gap, where what is sought can be put in to keep a
    /// sorted view sorted.
    pub fn binary_search_by<F: Fn(&T) -> Ordering>(&self, f: F) -> (r: Result<I, I>)
        requires
            forall|k: int| 0 <= k < self@.len() ==> f.requires((&#[trigger] self@[k],)),
        ensures
            match r {
                Ok(i) => exists|k: int| hit(self@, f, k) && i == index_at::<I>(k),
                Err(i) => exists|k: int| gap(self@, f, k) && i == index_at::<I>(k),
            },
    {
        self.as_ref().binary_search_by(f)
    }

    /// Searches the view for a value equal to `x`. `Ok` holds the index
    /// of one; `Err` holds the index of the gap between a smaller and a
    /// greater value.
    pub fn binary_search(&self, x: &T) -> (r: Result<I, I>) where T: Ord
        ensures
            T::obeys_cmp_spec() ==> match r {
                Ok(i) => exists|k: int| hit_value(self@, *x, k) && i == index_at::<I>(k),
                Err(i) => exists|k: int| gap_value(self@, *x, k) && i == index_at::<I>(k),
            },
    {
        self.as_ref().binary_search(x)
    }

    /// Searches the view for a value whose key, as `f` gives it, equals
    /// `b`. `Ok` holds the index of one; `Err` holds the index of the gap
    /// between a smaller and a greater key.
    pub fn binary_search_by_key<B: Ord, F: Fn(&T) -> B>(&self, b: &B, f: F) -> (r: Result<I, I>)
        requires
            forall|k: int| 0 <= k < self@.len() ==> f.requires((&#[trigger] self@[k],)),
        ensures
            B::obeys_cmp_spec() ==> match r {
                Ok(i) => exists|k: int| hit_key(self@, f, *b, k) && i == index_at::<I>(k),
                Err(i) => exists|k: int| gap_key(self@, f, *b, k) && i == index_at::<I>(k),
            },
    {
        self.as_ref().binary_search_by_key(b, f)
    }
}

} // verus!
