//! The enumerator of the valid indices of a collection of known length.

use std::marker::PhantomData;
use vstd::prelude::*;
use crate::index::TIndex;

verus! {

/// Hands out the indices with offsets `start..end`, from both ends.
#[derive(Debug)]
pub struct IndexIter<I> {
    marker: PhantomData<I>,
    start: usize,
    end: usize,
}

impl<I> View for IndexIter<I> {
    type V = Seq<int>;

    /// The offsets that are left to hand out, in ascending order.
    closed spec fn view(&self) -> Seq<int> {
        if self.start <= self.end {
            Seq::new((self.end - self.start) as nat, |k: int| self.start + k)
        } else {
            Seq::empty()
        }
    }
}

/// The offsets from `lo` up to `hi`, without `hi`, in ascending order.
pub open spec fn consecutive(lo: int, hi: int) -> Seq<int> {
    Seq::new((hi - lo) as nat, |k: int| lo + k)
}

impl<I> IndexIter<I> {
    #[verifier::type_invariant]
    closed spec fn cursors_in_order(self) -> bool {
        self.start <= self.end
    }

    /// What is left is a run of consecutive offsets that fit in `usize`.
    pub proof fn lemma_view(&self)
        ensures
            self@.len() <= usize::MAX,
            forall|k: int| 0 <= k < self@.len() ==> 0 <= #[trigger] self@[k] <= usize::MAX,
            self@.len() > 0 ==> self@ == consecutive(self@[0], self@[0] + self@.len()),
    {
        if self@.len() > 0 {
            assert(self@ =~= consecutive(self@[0], self@[0] + self@.len()));
        }
    }

    /// The enumerator of the offsets `0..end`.
    pub fn new(end: usize) -> (r: Self)
        ensures
            r@ == consecutive(0, end as int),
    {
        let r = Self { marker: PhantomData, start: 0, end };
        proof {
            assert(r@ =~= consecutive(0, end as int));
        }
        r
    }

    /// The number of indices that are left.
    pub fn len(&self) -> (r: usize)
        ensures
            r == self@.len(),
    {
        proof {
            use_type_invariant(self);
        }
        self.end - self.start
    }
}

impl<I> Clone for IndexIter<I> {
    fn clone(&self) -> (r: Self)
        ensures
            r@ == self@,
    {
        proof {
            use_type_invariant(self);
        }
        Self { marker: PhantomData, start: self.start, end: self.end }
    }
}

impl<I: TIndex> IndexIter<I> {
    /// Hands out the index with the smallest offset that is left.
    pub fn next(&mut self) -> (r: Option<I>)
        ensures
            old(self)@.len() == 0 ==> r is None && final(self)@ == old(self)@,
            old(self)@.len() > 0 ==> 0 <= old(self)@[0] <= usize::MAX && r == Some(
                I::of_offset(old(self)@[0] as usize),
            ) && final(self)@ == old(self)@.drop_first(),
    {
        proof {
            use_type_invariant(&*self);
        }
        if self.start < self.end {
            let at = self.start;
            self.start += 1;
            proof {
                assert(self@ =~= old(self)@.drop_first());
            }
            Some(I::from_index(at))
        } else {
            None
        }
    }

    /// Hands out the index with the largest offset that is left.
    pub fn next_back(&mut self) -> (r: Option<I>)
        ensures
            old(self)@.len() == 0 ==> r is None && final(self)@ == old(self)@,
            old(self)@.len() > 0 ==> 0 <= old(self)@.last() <= usize::MAX && r == Some(
                I::of_offset(old(self)@.last() as usize),
            ) && final(self)@ == old(self)@.drop_last(),
    {
        proof {
            use_type_invariant(&*self);
        }
        if self.start < self.end {
            self.end -= 1;
            proof {
                assert(self@ =~= old(self)@.drop_last());
            }
            Some(I::from_index(self.end))
        } else {
            None
        }
    }

    /// The bounds on the number of indices that are left: both are that
    /// number.
    pub fn size_hint(&self) -> (r: (usize, Option<usize>))
        ensures
            r.0 == self@.len(),
            r.1 == Some(r.0),
    {
        proof {
            use_type_invariant(self);
        }
        let n = self.end - self.start;
        (n, Some(n))
    }
}

} // verus!
