//! The least and the greatest member of a set of offsets, and what comes
//! out when members are taken from either end in turn.

use vstd::prelude::*;

verus! {

/// Whether `p` is the smallest member of `s`.
pub open spec fn is_least(s: Set<nat>, p: nat) -> bool {
    s.contains(p) && forall|q: nat| s.contains(q) ==> p <= q
}

/// Whether `p` is the largest member of `s`.
pub open spec fn is_greatest(s: Set<nat>, p: nat) -> bool {
    s.contains(p) && forall|q: nat| s.contains(q) ==> q <= p
}

/// The smallest member of `s`, where it has one.
pub open spec fn least(s: Set<nat>) -> nat {
    choose|p: nat| is_least(s, p)
}

/// The largest member of `s`, where it has one.
pub open spec fn greatest(s: Set<nat>) -> nat {
    choose|p: nat| is_greatest(s, p)
}

/// A set has at most one smallest member.
pub proof fn lemma_least_unique(s: Set<nat>, p: nat)
    requires
        is_least(s, p),
    ensures
        least(s) == p,
        is_least(s, least(s)),
{
    let q = least(s);
    assert(is_least(s, q));
    assert(s.contains(q) && s.contains(p));
}

/// A set has at most one largest member.
pub proof fn lemma_greatest_unique(s: Set<nat>, p: nat)
    requires
        is_greatest(s, p),
    ensures
        greatest(s) == p,
        is_greatest(s, greatest(s)),
{
    let q = greatest(s);
    assert(is_greatest(s, q));
    assert(s.contains(q) && s.contains(p));
}

/// A set of offsets with a member has a smallest member.
pub proof fn lemma_least_exists(s: Set<nat>, w: nat)
    requires
        s.contains(w),
    ensures
        is_least(s, least(s)),
    decreases w,
{
    if forall|q: nat| s.contains(q) ==> w <= q {
        lemma_least_unique(s, w);
    } else {
        let q = choose|q: nat| s.contains(q) && q < w;
        lemma_least_exists(s, q);
    }
}

/// A set of offsets below `bound` with a member has a largest member.
pub proof fn lemma_greatest_exists(s: Set<nat>, w: nat, bound: nat)
    requires
        s.contains(w),
        forall|q: nat| s.contains(q) ==> q < bound,
    ensures
        is_greatest(s, greatest(s)),
    decreases bound - w,
{
    if forall|q: nat| s.contains(q) ==> q <= w {
        lemma_greatest_unique(s, w);
    } else {
        let q = choose|q: nat| s.contains(q) && q > w;
        lemma_greatest_exists(s, q, bound);
    }
}

/// The offsets that come out of `s` when one member is taken for each
/// entry of `from_front`: the smallest that is left where the entry is
/// true, the largest where it is false, and nothing once none is left.
pub open spec fn pulls(s: Set<nat>, from_front: Seq<bool>) -> Seq<nat>
    decreases from_front.len(),
{
    if from_front.len() == 0 || s =~= Set::<nat>::empty() {
        Seq::<nat>::empty()
    } else {
        let p = if from_front[0] {
            least(s)
        } else {
            greatest(s)
        };
        seq![p] + pulls(s.remove(p), from_front.drop_first())
    }
}

/// Taking members from the two ends in any order hands out each member
/// once and nothing else, as long as there are at least as many pulls as
/// members.
pub proof fn lemma_pulls_complete(s: Set<nat>, bound: nat, from_front: Seq<bool>)
    requires
        s.finite(),
        forall|q: nat| s.contains(q) ==> q < bound,
        from_front.len() >= s.len(),
    ensures
        pulls(s, from_front).no_duplicates(),
        pulls(s, from_front).to_set() == s,
        pulls(s, from_front).len() == s.len(),
    decreases from_front.len(),
{
    let out = pulls(s, from_front);
    if s =~= Set::<nat>::empty() {
        assert(out.to_set() =~= s);
    } else {
        let w = s.choose();
        assert(s.contains(w)) by {
            if s.len() == 0 {
                assert(s =~= Set::<nat>::empty());
            }
        }
        assert(s.len() > 0);
        lemma_least_exists(s, w);
        lemma_greatest_exists(s, w, bound);
        let p = if from_front[0] {
            least(s)
        } else {
            greatest(s)
        };
        assert(s.contains(p));
        let rest = s.remove(p);
        let tail = pulls(rest, from_front.drop_first());
        lemma_pulls_complete(rest, bound, from_front.drop_first());
        assert(out == seq![p] + tail);
        assert forall|i: int, j: int| 0 <= i < out.len() && 0 <= j < out.len() && i != j implies out[i]
            != out[j] by {
            if i > 0 {
                assert(tail.to_set().contains(tail[i - 1]));
            }
            if j > 0 {
                assert(tail.to_set().contains(tail[j - 1]));
            }
        }
        assert forall|q: nat| out.to_set().contains(q) == s.contains(q) by {
            if s.contains(q) {
                if q == p {
                    assert(out[0] == q);
                } else {
                    assert(tail.to_set().contains(q));
                    let i = choose|i: int| 0 <= i < tail.len() && tail[i] == q;
                    assert(out[i + 1] == q);
                }
            }
            if out.to_set().contains(q) {
                let i = choose|i: int| 0 <= i < out.len() && out[i] == q;
                if i > 0 {
                    assert(tail.to_set().contains(tail[i - 1]));
                }
            }
        }
        assert(out.to_set() =~= s);
    }
}

/// Two ways of taking the members of a set from its two ends hand out
/// the same offsets, each as often as the other way does.
pub proof fn lemma_pulls_same_multiset(
    s: Set<nat>,
    bound: nat,
    from_front: Seq<bool>,
    other_way: Seq<bool>,
)
    requires
        s.finite(),
        forall|q: nat| s.contains(q) ==> q < bound,
        from_front.len() >= s.len(),
        other_way.len() >= s.len(),
    ensures
        pulls(s, from_front).to_multiset() == pulls(s, other_way).to_multiset(),
{
    let a = pulls(s, from_front);
    let b = pulls(s, other_way);
    lemma_pulls_complete(s, bound, from_front);
    lemma_pulls_complete(s, bound, other_way);
    a.lemma_multiset_has_no_duplicates();
    b.lemma_multiset_has_no_duplicates();
    a.to_multiset_ensures();
    b.to_multiset_ensures();
    assert forall|q: nat| a.to_multiset().count(q) == b.to_multiset().count(q) by {
        assert(a.contains(q) == a.to_set().contains(q));
        assert(b.contains(q) == b.to_set().contains(q));
        assert(a.to_multiset().contains(q) == (a.to_multiset().count(q) > 0));
        assert(b.to_multiset().contains(q) == (b.to_multiset().count(q) > 0));
    }
    assert(a.to_multiset() =~= b.to_multiset());
}

} // verus!
