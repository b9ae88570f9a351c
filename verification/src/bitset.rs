//! A growable set of typed indices, packed into 64-bit frames.

use std::marker::PhantomData;
use vstd::prelude::*;
use vstd::std_specs::cmp::PartialEqSpecImpl;
use crate::bits::{
    frame_bit, lemma_bit_of_zero, lemma_bit_test, lemma_frame_covers, lemma_frame_ext,
    FRAME_SIZE,
};
use crate::frames::{
    count_below, covers, is_min_frame_count, lemma_and_frames, lemma_clear_bit,
    lemma_count_below_monotone, lemma_count_frame, lemma_flip_bit, lemma_members_bounded,
    lemma_nonzero_frame_member, lemma_set_bit, lemma_trailing_zero_frames,
    lemma_zero_frames_empty, member, members,
};
use crate::index::TIndex;
use crate::order::{is_greatest, is_least, greatest, least, lemma_greatest_unique, lemma_least_unique};

verus! {

/// A set of indices of type `I`. Bit `p` of the concatenated frames says
/// whether the index with offset `p` is a member.
#[derive(Debug)]
pub struct TBitSet<I> {
    marker: PhantomData<I>,
    inner: Vec<u64>,
}

impl<I> View for TBitSet<I> {
    type V = Set<nat>;

    /// The offsets of the members.
    open spec fn view(&self) -> Set<nat> {
        members(self.frames())
    }
}

impl<I> TBitSet<I> {
    /// The frames that the set is stored in.
    pub closed spec fn frames(&self) -> Seq<u64> {
        self.inner@
    }

    /// The number of frames that the set is stored in.
    pub open spec fn spec_frame_count(&self) -> nat {
        self.frames().len()
    }

    /// No member lies beyond the last frame, and the set is finite.
    pub proof fn lemma_bounded(&self)
        ensures
            covers(self@, self.spec_frame_count()),
            self@.finite(),
            self@.len() <= 64 * self.spec_frame_count(),
            self.spec_frame_count() <= usize::MAX,
    {
        lemma_members_bounded(self.frames());
        assert(self.inner@.len() == self.inner.len());
    }

    /// The set without members and without frames.
    pub fn new() -> (r: Self)
        ensures
            r@ == Set::<nat>::empty(),
            r.spec_frame_count() == 0,
    {
        let r = Self { marker: PhantomData, inner: Vec::new() };
        proof {
            lemma_zero_frames_empty(r.frames());
        }
        r
    }

    /// The number of frames that the set is stored in.
    pub fn frame_count(&self) -> (r: usize)
        ensures
            r == self.spec_frame_count(),
    {
        self.inner.len()
    }

    /// Whether the set has no member. Frames that are all zero count as
    /// none.
    pub fn is_empty(&self) -> (r: bool)
        ensures
            r <==> self@ == Set::<nat>::empty(),
    {
        let mut i: usize = 0;
        while i < self.inner.len()
            invariant
                i <= self.inner@.len(),
                forall|j: int| 0 <= j < i ==> self.inner@[j] == 0,
            decreases self.inner@.len() - i,
        {
            if self.inner[i] != 0 {
                proof {
                    let p = lemma_nonzero_frame_member(self.frames(), i as nat);
                    assert(self@.contains(p));
                }
                return false;
            }
            i += 1;
        }
        proof {
            lemma_zero_frames_empty(self.frames());
        }
        true
    }

    /// Removes every member and every frame.
    pub fn clear(&mut self)
        ensures
            final(self)@ == Set::<nat>::empty(),
            final(self).spec_frame_count() == 0,
    {
        self.inner.clear();
        proof {
            lemma_zero_frames_empty(self.frames());
        }
    }

    /// The number of members: the set bits of all frames together. The
    /// number has to fit in `usize`, which it does where
    /// `64 * frame_count()` does.
    pub fn element_count(&self) -> (r: usize)
        requires
            self@.len() <= usize::MAX,
        ensures
            r == self@.len(),
    {
        let ghost frames = self.frames();
        let ghost total = 64 * frames.len();
        proof {
            lemma_members_bounded(frames);
        }
        let mut sum: usize = 0;
        let mut i: usize = 0;
        while i < self.inner.len()
            invariant
                frames == self.inner@,
                total == 64 * frames.len(),
                i <= frames.len(),
                sum == count_below(frames, (64 * i) as nat),
                count_below(frames, total) <= usize::MAX,
            decreases frames.len() - i,
        {
            let ones = self.inner[i].count_ones();
            proof {
                lemma_count_frame(frames, i as nat, 64);
                lemma_count_below_monotone(frames, (64 * (i + 1)) as nat, total);
            }
            sum = sum + ones as usize;
            i += 1;
        }
        sum
    }

    /// Drops the frames at the end that are zero. The members stay, and
    /// the frame count becomes the least that holds them.
    pub fn shrink_to_fit(&mut self)
        ensures
            final(self)@ == old(self)@,
            is_min_frame_count(final(self)@, final(self).spec_frame_count()),
            final(self).spec_frame_count() <= old(self).spec_frame_count(),
    {
        while self.inner.len() > 0 && self.inner[self.inner.len() - 1] == 0
            invariant
                self@ == old(self)@,
                self.inner@.len() <= old(self).inner@.len(),
            decreases self.inner@.len(),
        {
            let ghost before = self.inner@;
            self.inner.pop();
            proof {
                lemma_trailing_zero_frames(self.inner@, before);
            }
        }
        proof {
            let frames = self.frames();
            lemma_members_bounded(frames);
            if frames.len() > 0 {
                let p = lemma_nonzero_frame_member(frames, (frames.len() - 1) as nat);
                assert(self@.contains(p));
                assert forall|c: nat| #[trigger] covers(self@, c) implies frames.len() <= c by {
                    assert(p < 64 * c);
                }
            }
        }
    }

    /// Whether every member of `other` is a member of `self`.
    pub fn contains(&self, other: &TBitSet<I>) -> (r: bool)
        ensures
            r <==> other@.subset_of(self@),
    {
        let mut i: usize = 0;
        while i < other.inner.len()
            invariant
                i <= other.inner@.len(),
                forall|p: nat| p / 64 < i && member(other.inner@, p) ==> member(self.inner@, p),
            decreases other.inner@.len() - i,
        {
            let this: u64 = if i < self.inner.len() {
                self.inner[i]
            } else {
                0
            };
            let that: u64 = other.inner[i];
            proof {
                lemma_frame_covers(this, that);
            }
            if (this | that) != this {
                proof {
                    let k = choose|k: u64| k < 64 && frame_bit(that, k) && !frame_bit(this, k);
                    let p = (64 * i + k) as nat;
                    assert(p / 64 == i && p % 64 == k);
                    lemma_bit_of_zero(k);
                    assert(other@.contains(p) && !self@.contains(p));
                }
                return false;
            }
            proof {
                assert forall|p: nat| p / 64 < i + 1 && member(other.inner@, p) implies member(
                    self.inner@,
                    p,
                ) by {
                    if p / 64 == i {
                        let k = (p % 64) as u64;
                        assert(frame_bit(that, k) ==> frame_bit(this, k));
                        lemma_bit_of_zero(k);
                    }
                }
            }
            i += 1;
        }
        true
    }
}

impl<I: TIndex> TBitSet<I> {
    #[inline]
    fn set_usize(&mut self, idx: usize, value: bool)
        ensures
            final(self)@ == if value {
                old(self)@.insert(idx as nat)
            } else {
                old(self)@.remove(idx as nat)
            },
            final(self).spec_frame_count() == if value && idx / 64 >= old(self).spec_frame_count() {
                idx / 64 + 1
            } else {
                old(self).spec_frame_count() as int
            },
    {
        let ghost before = self.inner@;
        let frame_offset = idx / FRAME_SIZE;
        let shift: u64 = (idx - frame_offset * FRAME_SIZE) as u64;
        if frame_offset >= self.inner.len() {
            if value {
                self.inner.resize(frame_offset + 1, 0);
                proof {
                    lemma_trailing_zero_frames(before, self.inner@);
                    lemma_set_bit(self.inner@, idx as nat);
                }
                let frame = self.inner[frame_offset];
                self.inner[frame_offset] = frame | (1u64 << shift);
            } else {
                assert(old(self)@.remove(idx as nat) =~= old(self)@);
            }
        } else if value {
            proof {
                lemma_set_bit(before, idx as nat);
            }
            let frame = self.inner[frame_offset];
            self.inner[frame_offset] = frame | (1u64 << shift);
        } else {
            proof {
                lemma_clear_bit(before, idx as nat);
            }
            let frame = self.inner[frame_offset];
            self.inner[frame_offset] = frame & !(1u64 << shift);
        }
    }

    /// Makes `idx` a member if `value` is true, and no member if it is
    /// false. Only making it a member can add frames: as many as are
    /// missing to hold `idx`.
    pub fn set(&mut self, idx: I, value: bool)
        ensures
            final(self)@ == if value {
                old(self)@.insert(idx.offset())
            } else {
                old(self)@.remove(idx.offset())
            },
            final(self).spec_frame_count() == if value && idx.offset() / 64 >= old(self).spec_frame_count() {
                idx.offset() / 64 + 1
            } else {
                old(self).spec_frame_count()
            },
    {
        self.set_usize(idx.as_index(), value)
    }

    /// Makes `idx` a member, adding as many frames as are missing to hold
    /// it.
    pub fn add(&mut self, idx: I)
        ensures
            final(self)@ == old(self)@.insert(idx.offset()),
            final(self).spec_frame_count() == if idx.offset() / 64 >= old(self).spec_frame_count() {
                idx.offset() / 64 + 1
            } else {
                old(self).spec_frame_count()
            },
    {
        self.set_usize(idx.as_index(), true)
    }

    /// Makes `idx` no member. The frames stay as many as they are.
    pub fn remove(&mut self, idx: I)
        ensures
            final(self)@ == old(self)@.remove(idx.offset()),
            final(self).spec_frame_count() == old(self).spec_frame_count(),
    {
        self.set_usize(idx.as_index(), false)
    }

    fn flip_usize(&mut self, idx: usize)
        ensures
            final(self)@ == if old(self)@.contains(idx as nat) {
                old(self)@.remove(idx as nat)
            } else {
                old(self)@.insert(idx as nat)
            },
            final(self).spec_frame_count() == if idx / 64 >= old(self).spec_frame_count() {
                idx / 64 + 1
            } else {
                old(self).spec_frame_count() as int
            },
    {
        let ghost before = self.inner@;
        let frame_offset = idx / FRAME_SIZE;
        let shift: u64 = (idx - frame_offset * FRAME_SIZE) as u64;
        if frame_offset >= self.inner.len() {
            self.inner.resize(frame_offset + 1, 0);
            proof {
                lemma_trailing_zero_frames(before, self.inner@);
            }
        }
        proof {
            lemma_flip_bit(self.inner@, idx as nat);
        }
        let frame = self.inner[frame_offset];
        self.inner[frame_offset] = frame ^ (1u64 << shift);
    }

    /// Makes `idx` a member if it is none, and no member if it is one,
    /// adding as many frames as are missing to hold it.
    pub fn flip(&mut self, idx: I)
        ensures
            final(self)@ == if old(self)@.contains(idx.offset()) {
                old(self)@.remove(idx.offset())
            } else {
                old(self)@.insert(idx.offset())
            },
            final(self).spec_frame_count() == if idx.offset() / 64 >= old(self).spec_frame_count() {
                idx.offset() / 64 + 1
            } else {
                old(self).spec_frame_count()
            },
    {
        self.flip_usize(idx.as_index())
    }

    #[inline]
    fn get_usize(&self, idx: usize) -> (r: bool)
        ensures
            r == self@.contains(idx as nat),
    {
        let frame_offset = idx / FRAME_SIZE;
        if frame_offset < self.inner.len() {
            let shift: u64 = (idx - frame_offset * FRAME_SIZE) as u64;
            proof {
                lemma_bit_test(self.inner@[frame_offset as int], shift);
            }
            self.inner[frame_offset] & (1u64 << shift) != 0
        } else {
            false
        }
    }

    /// Whether `idx` is a member. An index beyond the last frame is none.
    pub fn get(&self, idx: I) -> (r: bool)
        ensures
            r == self@.contains(idx.offset()),
    {
        self.get_usize(idx.as_index())
    }

    /// The members that `self` and `other` have in common, in as many
    /// frames as the shorter of the two has.
    pub fn bounded_intersection(&self, other: &TBitSet<I>) -> (r: TBitSet<I>)
        ensures
            r@ == self@.intersect(other@),
            r.spec_frame_count() == if self.spec_frame_count() <= other.spec_frame_count() {
                self.spec_frame_count()
            } else {
                other.spec_frame_count()
            },
    {
        let count = if self.inner.len() <= other.inner.len() {
            self.inner.len()
        } else {
            other.inner.len()
        };
        let mut inner: Vec<u64> = Vec::with_capacity(count);
        let mut i: usize = 0;
        while i < count
            invariant
                i <= count,
                count <= self.inner@.len(),
                count <= other.inner@.len(),
                inner@.len() == i,
                forall|j: int| 0 <= j < i ==> inner@[j] == self.inner@[j] & other.inner@[j],
            decreases count - i,
        {
            inner.push(self.inner[i] & other.inner[i]);
            i += 1;
        }
        proof {
            lemma_and_frames(self.inner@, other.inner@, inner@);
        }
        TBitSet { marker: PhantomData, inner }
    }

    /// The same as `bounded_intersection`: despite its name this is the
    /// intersection of the two sets, not their union.
    pub fn union(&self, other: &TBitSet<I>) -> (r: TBitSet<I>)
        ensures
            r@ == self@.intersect(other@),
            r.spec_frame_count() == if self.spec_frame_count() <= other.spec_frame_count() {
                self.spec_frame_count()
            } else {
                other.spec_frame_count()
            },
    {
        self.bounded_intersection(other)
    }

    /// An enumerator of the members, from both ends, that starts anew
    /// with each call. It looks at every offset up to the one behind the
    /// last frame, which has to fit in `usize`.
    pub fn iter(&self) -> (r: Iter<I, &Self>)
        requires
            64 * self.spec_frame_count() <= usize::MAX,
        ensures
            r.set() == self@,
            r.remaining() == self@,
    {
        let r = Iter {
            marker: PhantomData,
            inner: self,
            pos: 0,
            end_pos: self.frame_count() * FRAME_SIZE,
        };
        proof {
            lemma_members_bounded(self.frames());
            assert(r.remaining() =~= self@);
        }
        r
    }

    /// As `iter`, for an enumerator that owns the set.
    pub fn into_iter(self) -> (r: Iter<I, TBitSet<I>>)
        requires
            64 * self.spec_frame_count() <= usize::MAX,
        ensures
            r.set() == self@,
            r.remaining() == self@,
    {
        let end_pos = self.frame_count() * FRAME_SIZE;
        let r = Iter { marker: PhantomData, inner: self, pos: 0, end_pos };
        proof {
            lemma_members_bounded(self.frames());
            assert(r.remaining() =~= self@);
        }
        r
    }
}

impl<I: TIndex> TBitSet<I> {
    /// Makes every index of `items` a member.
    pub fn extend(&mut self, items: Vec<I>)
        ensures
            final(self)@ == old(self)@.union(offsets(items@)),
            final(self).spec_frame_count() >= old(self).spec_frame_count(),
            forall|i: int|
                0 <= i < items@.len() ==> (#[trigger] items@[i]).offset() / 64 < final(self).spec_frame_count(),
            final(self).spec_frame_count() == old(self).spec_frame_count() || exists|i: int|
                0 <= i < items@.len() && final(self).spec_frame_count() == (
                #[trigger] items@[i]).offset() / 64 + 1,
    {
        let mut n: usize = 0;
        while n < items.len()
            invariant
                n <= items@.len(),
                self@ == old(self)@.union(offsets(items@.take(n as int))),
                self.spec_frame_count() >= old(self).spec_frame_count(),
                forall|i: int|
                    0 <= i < n ==> (#[trigger] items@[i]).offset() / 64 < self.spec_frame_count(),
                self.spec_frame_count() == old(self).spec_frame_count() || exists|i: int|
                    0 <= i < n && self.spec_frame_count() == (#[trigger] items@[i]).offset() / 64
                        + 1,
            decreases items@.len() - n,
        {
            let ghost before = self@;
            let ghost count = self.spec_frame_count();
            self.add(items[n]);
            proof {
                let taken = items@.take(n as int);
                let more = items@.take(n + 1);
                assert(more == taken.push(items@[n as int]));
                assert forall|p: nat| offsets(more).contains(p) == (offsets(taken).contains(p) || p
                    == items@[n as int].offset()) by {
                    if offsets(taken).contains(p) {
                        let i = choose|i: int| 0 <= i < taken.len() && taken[i].offset() == p;
                        assert(more[i].offset() == p);
                    }
                    if p == items@[n as int].offset() {
                        assert(more[n as int].offset() == p);
                    }
                }
                assert(self@ =~= old(self)@.union(offsets(more)));
                if self.spec_frame_count() != count {
                    assert(self.spec_frame_count() == items@[n as int].offset() / 64 + 1);
                }
            }
            n += 1;
        }
        proof {
            assert(items@.take(items@.len() as int) == items@);
        }
    }

    /// The set whose members are the indices of `items`.
    pub fn from_iter(items: Vec<I>) -> (r: Self)
        ensures
            r@ == offsets(items@),
            forall|i: int|
                0 <= i < items@.len() ==> (#[trigger] items@[i]).offset() / 64
                    < r.spec_frame_count(),
            r.spec_frame_count() == 0 || exists|i: int|
                0 <= i < items@.len() && r.spec_frame_count() == (#[trigger] items@[i]).offset()
                    / 64 + 1,
    {
        let mut set = TBitSet::new();
        set.extend(items);
        proof {
            assert(set@ =~= offsets(items@));
        }
        set
    }
}

/// The offsets of the indices in `items`.
pub open spec fn offsets<I: TIndex>(items: Seq<I>) -> Set<nat> {
    Set::new(|p: nat| exists|i: int| 0 <= i < items.len() && (#[trigger] items[i]).offset() == p)
}

impl<I> Clone for TBitSet<I> {
    fn clone(&self) -> (r: Self)
        ensures
            r@ == self@,
            r.spec_frame_count() == self.spec_frame_count(),
    {
        let inner = self.inner.clone();
        proof {
            assert(inner@ =~= self.inner@);
        }
        Self { marker: PhantomData, inner }
    }
}

impl<I> Default for TBitSet<I> {
    fn default() -> (r: Self)
        ensures
            r@ == Set::<nat>::empty(),
            r.spec_frame_count() == 0,
    {
        Self::new()
    }
}

impl<I> PartialEq for TBitSet<I> {
    /// Whether the two sets have the same members. Frames that are zero
    /// at the end of either make no difference.
    fn eq(&self, rhs: &Self) -> (r: bool) {
        let count = if self.inner.len() < rhs.inner.len() {
            rhs.inner.len()
        } else {
            self.inner.len()
        };
        let mut i: usize = 0;
        while i < count
            invariant
                i <= count,
                count >= self.inner@.len(),
                count >= rhs.inner@.len(),
                forall|p: nat| p / 64 < i ==> member(self.inner@, p) == member(rhs.inner@, p),
            decreases count - i,
        {
            let a: u64 = if i < self.inner.len() {
                self.inner[i]
            } else {
                0
            };
            let b: u64 = if i < rhs.inner.len() {
                rhs.inner[i]
            } else {
                0
            };
            proof {
                lemma_frame_ext(a, b);
            }
            if a != b {
                proof {
                    let k = choose|k: u64| k < 64 && frame_bit(a, k) != frame_bit(b, k);
                    let p = (64 * i + k) as nat;
                    assert(p / 64 == i && p % 64 == k);
                    lemma_bit_of_zero(k);
                    assert(self@.contains(p) != rhs@.contains(p));
                }
                return false;
            }
            proof {
                assert forall|p: nat| p / 64 < i + 1 implies member(self.inner@, p) == member(
                    rhs.inner@,
                    p,
                ) by {
                    if p / 64 == i {
                        lemma_bit_of_zero((p % 64) as u64);
                    }
                }
            }
            i += 1;
        }
        proof {
            assert(self@ =~= rhs@);
        }
        true
    }
}

impl<I> PartialEqSpecImpl for TBitSet<I> {
    open spec fn obeys_eq_spec() -> bool {
        true
    }

    open spec fn eq_spec(&self, other: &Self) -> bool {
        self@ == other@
    }
}

impl<I> Eq for TBitSet<I> {

}

/// What an enumerator reads its set through: the set itself or a
/// reference to it.
pub trait BitSetRef<I> {
    /// The set that is read.
    spec fn bits(&self) -> TBitSet<I>;

    /// The set, for reading.
    fn bit_set(&self) -> (r: &TBitSet<I>)
        ensures
            *r == self.bits(),
    ;
}

impl<I> BitSetRef<I> for TBitSet<I> {
    open spec fn bits(&self) -> TBitSet<I> {
        *self
    }

    fn bit_set(&self) -> (r: &TBitSet<I>) {
        self
    }
}

impl<'a, I> BitSetRef<I> for &'a TBitSet<I> {
    open spec fn bits(&self) -> TBitSet<I> {
        **self
    }

    fn bit_set(&self) -> (r: &TBitSet<I>) {
        *self
    }
}

/// An enumerator of the members of a set, from the smallest up and from
/// the largest down. `pos` is the next offset to look at from the front,
/// `end_pos` the next from the back.
pub struct Iter<I, B: BitSetRef<I>> {
    marker: PhantomData<I>,
    inner: B,
    pos: usize,
    end_pos: usize,
}

impl<I, B: BitSetRef<I>> Iter<I, B> {
    /// The two cursors are at most one step past each other, and the back
    /// one is not behind the offset that follows the last frame.
    #[verifier::type_invariant]
    closed spec fn wf(self) -> bool {
        &&& self.pos <= self.end_pos + 1
        &&& self.end_pos <= 64 * self.inner.bits().spec_frame_count()
        &&& self.end_pos < usize::MAX
    }
}

impl<I: TIndex, B: BitSetRef<I>> Iter<I, B> {
    /// The offsets of the members of the set that is enumerated.
    pub closed spec fn set(&self) -> Set<nat> {
        self.inner.bits()@
    }

    /// The first offset that has not been looked at from the front.
    pub closed spec fn front(&self) -> nat {
        self.pos as nat
    }

    /// The last offset that has not been looked at from the back.
    pub closed spec fn back(&self) -> nat {
        self.end_pos as nat
    }

    /// The members that have not been handed out: those between the two
    /// cursors.
    pub open spec fn remaining(&self) -> Set<nat> {
        Set::new(|p: nat| self.set().contains(p) && self.front() <= p <= self.back())
    }

    /// What is left to hand out is part of the set, and finite.
    pub proof fn lemma_remaining(&self)
        ensures
            self.remaining().subset_of(self.set()),
            self.remaining().finite(),
            self.set().finite(),
    {
        lemma_members_bounded(self.inner.bits().frames());
        vstd::set_lib::lemma_set_subset_finite(self.set(), self.remaining());
    }

    /// Hands out the smallest member that is left, if there is one.
    pub fn next(&mut self) -> (r: Option<I>)
        ensures
            final(self).set() == old(self).set(),
            r is None <==> old(self).remaining() == Set::<nat>::empty(),
            r is None ==> final(self).remaining() == Set::<nat>::empty(),
            r matches Some(i) ==> {
                &&& is_least(old(self).remaining(), least(old(self).remaining()))
                &&& least(old(self).remaining()) <= usize::MAX
                &&& i == I::of_offset(least(old(self).remaining()) as usize)
                &&& final(self).remaining() == old(self).remaining().remove(
                    least(old(self).remaining()),
                )
            },
    {
        proof {
            use_type_invariant(&*self);
        }
        let ghost set = self.set();
        let ghost start = self.pos;
        while self.pos <= self.end_pos
            invariant
                self.wf(),
                self.set() == set,
                old(self).set() == set,
                self.inner == old(self).inner,
                self.end_pos == old(self).end_pos,
                start == old(self).pos,
                start <= self.pos,
                forall|p: nat| start <= p < self.pos ==> !set.contains(p),
            decreases self.end_pos + 1 - self.pos,
        {
            let pos = self.pos;
            self.pos += 1;
            if self.inner.bit_set().get_usize(pos) {
                proof {
                    assert(set.contains(pos as nat));
                    assert(old(self).remaining().contains(pos as nat));
                    lemma_least_unique(old(self).remaining(), pos as nat);
                    assert(self.remaining() =~= old(self).remaining().remove(pos as nat));
                }
                return Some(I::from_index(pos));
            }
        }
        proof {
            assert(old(self).remaining() =~= Set::<nat>::empty());
            assert(self.remaining() =~= Set::<nat>::empty());
        }
        None
    }

    /// Hands out the largest member that is left, if there is one.
    pub fn next_back(&mut self) -> (r: Option<I>)
        ensures
            final(self).set() == old(self).set(),
            r is None <==> old(self).remaining() == Set::<nat>::empty(),
            r is None ==> final(self).remaining() == Set::<nat>::empty(),
            r matches Some(i) ==> {
                &&& is_greatest(old(self).remaining(), greatest(old(self).remaining()))
                &&& greatest(old(self).remaining()) <= usize::MAX
                &&& i == I::of_offset(greatest(old(self).remaining()) as usize)
                &&& final(self).remaining() == old(self).remaining().remove(
                    greatest(old(self).remaining()),
                )
            },
    {
        proof {
            use_type_invariant(&*self);
        }
        let ghost set = self.set();
        let ghost stop = self.end_pos;
        while self.end_pos > self.pos
            invariant
                self.wf(),
                self.set() == set,
                old(self).set() == set,
                self.inner == old(self).inner,
                self.pos == old(self).pos,
                stop == old(self).end_pos,
                self.end_pos <= stop,
                forall|p: nat| self.end_pos < p <= stop ==> !set.contains(p),
            decreases self.end_pos,
        {
            let pos = self.end_pos;
            self.end_pos -= 1;
            if self.inner.bit_set().get_usize(pos) {
                proof {
                    assert(set.contains(pos as nat));
                    assert(old(self).remaining().contains(pos as nat));
                    lemma_greatest_unique(old(self).remaining(), pos as nat);
                    assert(self.remaining() =~= old(self).remaining().remove(pos as nat));
                }
                return Some(I::from_index(pos));
            }
        }

        if self.end_pos == self.pos {
            self.pos += 1;
            if self.inner.bit_set().get_usize(self.end_pos) {
                proof {
                    assert(set.contains(self.end_pos as nat));
                    assert(old(self).remaining().contains(self.end_pos as nat));
                    lemma_greatest_unique(old(self).remaining(), self.end_pos as nat);
                    assert(self.remaining() =~= old(self).remaining().remove(
                        self.end_pos as nat,
                    ));
                }
                return Some(I::from_index(self.end_pos));
            }
        }
        proof {
            assert(old(self).remaining() =~= Set::<nat>::empty());
            assert(self.remaining() =~= Set::<nat>::empty());
        }
        None
    }
}

} // verus!
