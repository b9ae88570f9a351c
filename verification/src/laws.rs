//! Laws that relate several operations of the collections to each other.

use vstd::prelude::*;
use vstd::std_specs::cmp::PartialEqSpec;
use crate::bitset::TBitSet;
use crate::frames::{lemma_frames_determined, lemma_trailing_zero_frames};
use crate::index::TIndex;
use crate::order::{lemma_pulls_complete, lemma_pulls_same_multiset, pulls};

verus! {

/// The set that is left when `changes` are made to `start` in turn. Each
/// change names an offset and says whether it becomes a member (`true`, as
/// `add` and `set` with `true` do) or no member (`false`, as `remove` and
/// `set` with `false` do).
pub open spec fn after_changes(start: Set<nat>, changes: Seq<(nat, bool)>) -> Set<nat>
    decreases changes.len(),
{
    if changes.len() == 0 {
        start
    } else {
        let before = after_changes(start, changes.drop_last());
        if changes.last().1 {
            before.insert(changes.last().0)
        } else {
            before.remove(changes.last().0)
        }
    }
}

/// Whether change `k` makes `p` a member and no later change removes it.
pub open spec fn made_member_for_good(changes: Seq<(nat, bool)>, p: nat, k: int) -> bool {
    &&& 0 <= k < changes.len()
    &&& changes[k] == (p, true)
    &&& forall|j: int| k < j < changes.len() ==> #[trigger] changes[j] != (p, false)
}

/// After any changes to an empty set, an offset is a member exactly when
/// it was made one and not removed since.
pub proof fn lemma_member_after_changes(changes: Seq<(nat, bool)>, p: nat)
    ensures
        after_changes(Set::<nat>::empty(), changes).contains(p) <==> exists|k: int|
            made_member_for_good(changes, p, k),
    decreases changes.len(),
{
    if changes.len() > 0 {
        let front = changes.drop_last();
        let n = changes.len() - 1;
        lemma_member_after_changes(front, p);
        let before = after_changes(Set::<nat>::empty(), front);
        if changes.last() == (p, true) {
            assert(made_member_for_good(changes, p, n));
        } else if changes.last() == (p, false) {
            assert forall|k: int| !made_member_for_good(changes, p, k) by {
                if 0 <= k < n {
                    assert(changes[n] == (p, false));
                }
            }
        } else {
            if before.contains(p) {
                let k = choose|k: int| made_member_for_good(front, p, k);
                assert(changes[k] == front[k]);
                assert forall|j: int| k < j < changes.len() implies #[trigger] changes[j] != (
                    p,
                    false,
                ) by {
                    if j < n {
                        assert(changes[j] == front[j]);
                    }
                }
                assert(made_member_for_good(changes, p, k));
            }
            if exists|k: int| made_member_for_good(changes, p, k) {
                let k = choose|k: int| made_member_for_good(changes, p, k);
                assert(k < n);
                assert(front[k] == changes[k]);
                assert forall|j: int| k < j < front.len() implies #[trigger] front[j] != (
                    p,
                    false,
                ) by {
                    assert(front[j] == changes[j]);
                }
                assert(made_member_for_good(front, p, k));
            }
        }
    }
}

/// Two sets whose frames differ only by zero frames at the end of one of
/// them have the same members, and `==` calls them equal.
pub proof fn lemma_eq_ignores_trailing_zero_frames<I>(a: TBitSet<I>, b: TBitSet<I>)
    requires
        a.frames().len() <= b.frames().len(),
        forall|i: int| 0 <= i < a.frames().len() ==> a.frames()[i] == b.frames()[i],
        forall|i: int| a.frames().len() <= i < b.frames().len() ==> b.frames()[i] == 0,
    ensures
        a@ == b@,
        a.eq_spec(&b),
        b.eq_spec(&a),
{
    lemma_trailing_zero_frames(a.frames(), b.frames());
}

/// Two sets with the same members in the same number of frames hold the
/// same in every frame: a frame that growing added holds nothing but what
/// was put into it.
pub proof fn lemma_members_and_count_fix_frames<I>(a: TBitSet<I>, b: TBitSet<I>)
    requires
        a@ == b@,
        a.spec_frame_count() == b.spec_frame_count(),
    ensures
        a.frames() == b.frames(),
{
    lemma_frames_determined(a.frames(), b.frames());
}

/// The pulls that take every member from the front.
pub open spec fn all_from_front(n: nat) -> Seq<bool> {
    Seq::new(n, |k: int| true)
}

/// The pulls that take every member from the back.
pub open spec fn all_from_back(n: nat) -> Seq<bool> {
    Seq::new(n, |k: int| false)
}

/// Enumerating a set from the front, from the back, or from both ends in
/// any order hands out each member once and nothing else: as many
/// indices as the set has members, where the pulls are at least that
/// many.
pub proof fn lemma_enumeration_complete<I>(set: TBitSet<I>, from_front: Seq<bool>)
    requires
        from_front.len() >= set@.len(),
    ensures
        pulls(set@, from_front).len() == set@.len(),
        pulls(set@, from_front).no_duplicates(),
        pulls(set@, from_front).to_set() == set@,
        pulls(set@, all_from_front(set@.len())).len() == set@.len(),
        pulls(set@, all_from_back(set@.len())).len() == set@.len(),
        pulls(set@, from_front).to_multiset() == pulls(
            set@,
            all_from_front(set@.len()),
        ).to_multiset(),
{
    set.lemma_bounded();
    let bound = 64 * set.spec_frame_count();
    lemma_pulls_complete(set@, bound, from_front);
    lemma_pulls_complete(set@, bound, all_from_front(set@.len()));
    lemma_pulls_complete(set@, bound, all_from_back(set@.len()));
    lemma_pulls_same_multiset(set@, bound, from_front, all_from_front(set@.len()));
}

/// Every set holds all of its own members, and all of the members of a
/// set that has none.
pub proof fn lemma_contains_laws<I>(a: TBitSet<I>, none: TBitSet<I>)
    requires
        none@ == Set::<nat>::empty(),
    ensures
        a@.subset_of(a@),
        none@.subset_of(a@),
{
}

/// Removing a value at the index that `push` gave it undoes the push:
/// the length and the order of the other values are as before.
pub proof fn lemma_push_then_remove<I: TIndex, T>(s: Seq<T>, item: T)
    requires
        s.len() <= usize::MAX,
        I::representable(s.len() as usize),
    ensures
        I::of_offset(s.len() as usize).offset() == s.len(),
        s.push(item).remove(I::of_offset(s.len() as usize).offset() as int) == s,
{
    I::offset_round_trip(s.len() as usize);
    assert(s.push(item).remove(s.len() as int) =~= s);
}

/// Appending what `split_off` cut away gives back the values as they
/// were.
pub proof fn lemma_split_off_then_append<T>(s: Seq<T>, at: nat)
    requires
        at <= s.len(),
    ensures
        s.subrange(0, at as int) + s.subrange(at as int, s.len() as int) == s,
{
    assert(s.subrange(0, at as int) + s.subrange(at as int, s.len() as int) =~= s);
}

} // verus!
