//! The set of offsets that a sequence of frames stands for.

use vstd::prelude::*;
use crate::bits::{
    frame_bit, lemma_bit_after_clear, lemma_bit_after_flip, lemma_bit_after_set,
    lemma_bit_of_and, lemma_bit_of_zero, lemma_frame_ext, lemma_zero_frame, ones_below,
};

verus! {

/// Whether offset `p` is a member of the set packed into `frames`: bit
/// `p % 64` of frame `p / 64`, and no member beyond the last frame.
pub open spec fn member(frames: Seq<u64>, p: nat) -> bool {
    p / 64 < frames.len() && frame_bit(frames[(p / 64) as int], (p % 64) as u64)
}

/// The set of offsets packed into `frames`.
pub open spec fn members(frames: Seq<u64>) -> Set<nat> {
    Set::new(|p: nat| member(frames, p))
}

/// The members that are smaller than `n`.
pub open spec fn members_below(frames: Seq<u64>, n: nat) -> Set<nat> {
    Set::new(|p: nat| p < n && member(frames, p))
}

/// The number of members that are smaller than `n`.
pub open spec fn count_below(frames: Seq<u64>, n: nat) -> nat
    decreases n,
{
    if n == 0 {
        0
    } else {
        count_below(frames, (n - 1) as nat) + if member(frames, (n - 1) as nat) {
            1nat
        } else {
            0nat
        }
    }
}

/// Whether `count` frames are enough to hold every offset of `s`.
pub open spec fn covers(s: Set<nat>, count: nat) -> bool {
    forall|p: nat| s.contains(p) ==> p < 64 * count
}

/// Whether `count` is the least number of frames that holds every offset
/// of `s`.
pub open spec fn is_min_frame_count(s: Set<nat>, count: nat) -> bool {
    covers(s, count) && forall|c: nat| #[trigger] covers(s, c) ==> count <= c
}

/// The members below `n` are finitely many: as many as `count_below`
/// says, and at most `n`.
pub proof fn lemma_members_below_len(frames: Seq<u64>, n: nat)
    ensures
        members_below(frames, n).finite(),
        members_below(frames, n).len() == count_below(frames, n),
        count_below(frames, n) <= n,
    decreases n,
{
    if n == 0 {
        assert(members_below(frames, 0) =~= Set::<nat>::empty());
    } else {
        let m = (n - 1) as nat;
        lemma_members_below_len(frames, m);
        if member(frames, m) {
            assert(members_below(frames, n) =~= members_below(frames, m).insert(m));
        } else {
            assert(members_below(frames, n) =~= members_below(frames, m));
        }
    }
}

/// A larger bound counts no fewer members.
pub proof fn lemma_count_below_monotone(frames: Seq<u64>, a: nat, b: nat)
    requires
        a <= b,
    ensures
        count_below(frames, a) <= count_below(frames, b),
    decreases b,
{
    if a < b {
        lemma_count_below_monotone(frames, a, (b - 1) as nat);
    }
}

/// No member lies beyond the last frame, so the set is finite and its
/// size is the number of members below `64 * frames.len()`.
pub proof fn lemma_members_bounded(frames: Seq<u64>)
    ensures
        covers(members(frames), frames.len()),
        members(frames) == members_below(frames, 64 * frames.len()),
        members(frames).finite(),
        members(frames).len() == count_below(frames, 64 * frames.len()),
        members(frames).len() <= 64 * frames.len(),
{
    assert(members(frames) =~= members_below(frames, 64 * frames.len()));
    lemma_members_below_len(frames, 64 * frames.len());
}

/// The members within frame `i` are counted by the bits of that frame.
pub proof fn lemma_count_frame(frames: Seq<u64>, i: nat, k: nat)
    requires
        i < frames.len(),
        k <= 64,
    ensures
        count_below(frames, 64 * i + k) == count_below(frames, 64 * i) + ones_below(
            frames[i as int],
            k,
        ),
    decreases k,
{
    if k > 0 {
        lemma_count_frame(frames, i, (k - 1) as nat);
        let p = (64 * i + k - 1) as nat;
        assert(p / 64 == i && p % 64 == k - 1);
    }
}

/// Frames that are all zero hold no member.
pub proof fn lemma_zero_frames_empty(frames: Seq<u64>)
    requires
        forall|i: int| 0 <= i < frames.len() ==> frames[i] == 0,
    ensures
        members(frames) == Set::<nat>::empty(),
{
    assert forall|p: nat| !member(frames, p) by {
        if p / 64 < frames.len() {
            lemma_bit_of_zero((p % 64) as u64);
        }
    }
    assert(members(frames) =~= Set::<nat>::empty());
}

/// A frame that is not zero holds a member.
pub proof fn lemma_nonzero_frame_member(frames: Seq<u64>, i: nat) -> (p: nat)
    requires
        i < frames.len(),
        frames[i as int] != 0,
    ensures
        member(frames, p),
        p / 64 == i,
{
    lemma_zero_frame(frames[i as int]);
    let k = choose|k: u64| k < 64 && frame_bit(frames[i as int], k);
    let p = (64 * i + k) as nat;
    assert(p / 64 == i && p % 64 == k);
    p
}

/// Zero frames at the end change nothing about the members.
pub proof fn lemma_trailing_zero_frames(short: Seq<u64>, long: Seq<u64>)
    requires
        short.len() <= long.len(),
        forall|i: int| 0 <= i < short.len() ==> short[i] == long[i],
        forall|i: int| short.len() <= i < long.len() ==> long[i] == 0,
    ensures
        members(short) == members(long),
{
    assert forall|p: nat| member(short, p) == member(long, p) by {
        if short.len() <= p / 64 < long.len() {
            lemma_bit_of_zero((p % 64) as u64);
        }
    }
    assert(members(short) =~= members(long));
}

/// Setting bit `idx % 64` of frame `idx / 64` adds `idx` and nothing else.
pub proof fn lemma_set_bit(frames: Seq<u64>, idx: nat)
    requires
        idx / 64 < frames.len(),
    ensures
        members(
            frames.update((idx / 64) as int, frames[(idx / 64) as int] | (1u64 << (idx % 64) as u64)),
        ) == members(frames).insert(idx),
{
    let i = (idx / 64) as int;
    let k = (idx % 64) as u64;
    let after = frames.update(i, frames[i] | (1u64 << k));
    assert forall|p: nat| member(after, p) == (p == idx || member(frames, p)) by {
        if p / 64 == i {
            lemma_bit_after_set(frames[i], k, (p % 64) as u64);
        }
    }
    assert(members(after) =~= members(frames).insert(idx));
}

/// Clearing bit `idx % 64` of frame `idx / 64` removes `idx` and nothing
/// else.
pub proof fn lemma_clear_bit(frames: Seq<u64>, idx: nat)
    requires
        idx / 64 < frames.len(),
    ensures
        members(
            frames.update(
                (idx / 64) as int,
                frames[(idx / 64) as int] & !(1u64 << (idx % 64) as u64),
            ),
        ) == members(frames).remove(idx),
{
    let i = (idx / 64) as int;
    let k = (idx % 64) as u64;
    let after = frames.update(i, frames[i] & !(1u64 << k));
    assert forall|p: nat| member(after, p) == (p != idx && member(frames, p)) by {
        if p / 64 == i {
            lemma_bit_after_clear(frames[i], k, (p % 64) as u64);
        }
    }
    assert(members(after) =~= members(frames).remove(idx));
}

/// Flipping bit `idx % 64` of frame `idx / 64` toggles the membership of
/// `idx` and of nothing else.
pub proof fn lemma_flip_bit(frames: Seq<u64>, idx: nat)
    requires
        idx / 64 < frames.len(),
    ensures
        members(
            frames.update((idx / 64) as int, frames[(idx / 64) as int] ^ (1u64 << (idx % 64) as u64)),
        ) == if member(frames, idx) {
            members(frames).remove(idx)
        } else {
            members(frames).insert(idx)
        },
{
    let i = (idx / 64) as int;
    let k = (idx % 64) as u64;
    let after = frames.update(i, frames[i] ^ (1u64 << k));
    assert forall|p: nat| member(after, p) == (member(frames, p) != (p == idx)) by {
        if p / 64 == i {
            lemma_bit_after_flip(frames[i], k, (p % 64) as u64);
        }
    }
    if member(frames, idx) {
        assert(members(after) =~= members(frames).remove(idx));
    } else {
        assert(members(after) =~= members(frames).insert(idx));
    }
}

/// Frames that are the bitwise AND of the frames of `a` and `b`, as far as
/// both reach, hold the common members of the two.
pub proof fn lemma_and_frames(a: Seq<u64>, b: Seq<u64>, both: Seq<u64>)
    requires
        both.len() <= a.len(),
        both.len() <= b.len(),
        both.len() == a.len() || both.len() == b.len(),
        forall|i: int| 0 <= i < both.len() ==> both[i] == a[i] & b[i],
    ensures
        members(both) == members(a).intersect(members(b)),
{
    assert forall|p: nat| member(both, p) == (member(a, p) && member(b, p)) by {
        if p / 64 < both.len() {
            lemma_bit_of_and(a[(p / 64) as int], b[(p / 64) as int], (p % 64) as u64);
        }
    }
    assert(members(both) =~= members(a).intersect(members(b)));
}

/// The members and the number of frames tell what every frame holds.
pub proof fn lemma_frames_determined(a: Seq<u64>, b: Seq<u64>)
    requires
        a.len() == b.len(),
        members(a) == members(b),
    ensures
        a == b,
{
    assert forall|i: int| 0 <= i < a.len() implies a[i] == b[i] by {
        lemma_frame_ext(a[i], b[i]);
        assert forall|k: u64| k < 64 implies frame_bit(a[i], k) == frame_bit(b[i], k) by {
            let p = (64 * i + k) as nat;
            assert(p / 64 == i && p % 64 == k);
            assert((p % 64) as u64 == k);
            assert(members(a).contains(p) == member(a, p));
            assert(members(b).contains(p) == member(b, p));
        }
    }
    assert(a =~= b);
}

} // verus!
