//! Facts about single 64-bit frames: what each bitwise operation does to
//! each bit, and how many bits a frame holds.

use vstd::prelude::*;
use vstd::std_specs::bits::{axiom_u64_trailing_zeros, u64_trailing_zeros};

verus! {

/// The number of bits in one frame.
pub const FRAME_SIZE: usize = 64;

/// Whether bit `k` of `frame` is set.
pub open spec fn frame_bit(frame: u64, k: u64) -> bool {
    (frame >> k) & 1u64 == 1u64
}

/// The number of set bits of `frame` among its lowest `n` bits.
pub open spec fn ones_below(frame: u64, n: nat) -> nat
    decreases n,
{
    if n == 0 {
        0
    } else {
        ones_below(frame, (n - 1) as nat) + if frame_bit(frame, (n - 1) as u64) {
            1nat
        } else {
            0nat
        }
    }
}

/// The number of set bits of `frame`.
pub open spec fn ones(frame: u64) -> nat {
    ones_below(frame, 64)
}

/// `u64::count_ones` of std: the number of ones in the binary
/// representation of the argument, that is the number of its set bits.
pub assume_specification[ u64::count_ones ](frame: u64) -> (r: u32)
    ensures
        r == ones(frame),
;

/// The frame zero has no bit set.
pub proof fn lemma_bit_of_zero(k: u64)
    requires
        k < 64,
    ensures
        !frame_bit(0, k),
{
    assert((0u64 >> k) & 1u64 != 1u64) by (bit_vector)
        requires
            k < 64,
    ;
}

/// Masking a frame with bit `k` alone gives zero exactly when bit `k` is
/// not set.
pub proof fn lemma_bit_test(frame: u64, k: u64)
    requires
        k < 64,
    ensures
        (frame & (1u64 << k) != 0) == frame_bit(frame, k),
{
    assert((frame & (1u64 << k) != 0) == ((frame >> k) & 1u64 == 1u64)) by (bit_vector)
        requires
            k < 64,
    ;
}

/// OR with bit `k` alone sets bit `k` and leaves the others.
pub proof fn lemma_bit_after_set(frame: u64, k: u64, j: u64)
    requires
        k < 64,
        j < 64,
    ensures
        frame_bit(frame | (1u64 << k), j) == (j == k || frame_bit(frame, j)),
{
    assert((((frame | (1u64 << k)) >> j) & 1u64 == 1u64) == (j == k || (frame >> j) & 1u64
        == 1u64)) by (bit_vector)
        requires
            k < 64,
            j < 64,
    ;
}

/// AND with all bits but `k` clears bit `k` and leaves the others.
pub proof fn lemma_bit_after_clear(frame: u64, k: u64, j: u64)
    requires
        k < 64,
        j < 64,
    ensures
        frame_bit(frame & !(1u64 << k), j) == (j != k && frame_bit(frame, j)),
{
    assert((((frame & !(1u64 << k)) >> j) & 1u64 == 1u64) == (j != k && (frame >> j) & 1u64
        == 1u64)) by (bit_vector)
        requires
            k < 64,
            j < 64,
    ;
}

/// XOR with bit `k` alone toggles bit `k` and leaves the others.
pub proof fn lemma_bit_after_flip(frame: u64, k: u64, j: u64)
    requires
        k < 64,
        j < 64,
    ensures
        frame_bit(frame ^ (1u64 << k), j) == (frame_bit(frame, j) != (j == k)),
{
    assert((((frame ^ (1u64 << k)) >> j) & 1u64 == 1u64) == (((frame >> j) & 1u64 == 1u64) != (j
        == k))) by (bit_vector)
        requires
            k < 64,
            j < 64,
    ;
}

/// A bit of `a & b` is set exactly when it is set in both.
pub proof fn lemma_bit_of_and(a: u64, b: u64, j: u64)
    requires
        j < 64,
    ensures
        frame_bit(a & b, j) == (frame_bit(a, j) && frame_bit(b, j)),
{
    assert((((a & b) >> j) & 1u64 == 1u64) == ((a >> j) & 1u64 == 1u64 && (b >> j) & 1u64 == 1u64))
        by (bit_vector)
        requires
            j < 64,
    ;
}

/// A frame is zero exactly when none of its bits is set.
pub proof fn lemma_zero_frame(frame: u64)
    ensures
        frame == 0 <==> forall|k: u64| k < 64 ==> !frame_bit(frame, k),
{
    axiom_u64_trailing_zeros(frame);
    if frame == 0 {
        assert forall|k: u64| k < 64 implies !frame_bit(frame, k) by {
            lemma_bit_of_zero(k);
        }
    } else {
        let k = u64_trailing_zeros(frame) as u64;
        assert(frame_bit(frame, k));
    }
}

/// Two frames are equal exactly when they agree on every bit.
pub proof fn lemma_frame_ext(a: u64, b: u64)
    ensures
        a == b <==> forall|k: u64| k < 64 ==> frame_bit(a, k) == frame_bit(b, k),
{
    if a != b {
        let x = a ^ b;
        assert(x != 0) by (bit_vector)
            requires
                x == a ^ b,
                a != b,
        ;
        lemma_zero_frame(x);
        let k = choose|k: u64| k < 64 && frame_bit(x, k);
        assert((((a ^ b) >> k) & 1u64 == 1u64) ==> (((a >> k) & 1u64 == 1u64) != ((b >> k) & 1u64
            == 1u64))) by (bit_vector)
            requires
                k < 64,
        ;
        assert(frame_bit(a, k) != frame_bit(b, k));
    }
}

/// `a | b == a` exactly when every bit of `b` is a bit of `a`.
pub proof fn lemma_frame_covers(a: u64, b: u64)
    ensures
        (a | b) == a <==> forall|k: u64| k < 64 ==> (frame_bit(b, k) ==> frame_bit(a, k)),
{
    if (a | b) == a {
        assert forall|k: u64| k < 64 && frame_bit(b, k) implies frame_bit(a, k) by {
            assert((a | b) == a && (b >> k) & 1u64 == 1u64 ==> (a >> k) & 1u64 == 1u64)
                by (bit_vector)
                requires
                    k < 64,
            ;
        }
    } else {
        let x = b & !a;
        assert(x != 0) by (bit_vector)
            requires
                x == b & !a,
                (a | b) != a,
        ;
        lemma_zero_frame(x);
        let k = choose|k: u64| k < 64 && frame_bit(x, k);
        assert((((b & !a) >> k) & 1u64 == 1u64) ==> ((b >> k) & 1u64 == 1u64 && (a >> k) & 1u64
            != 1u64)) by (bit_vector)
            requires
                k < 64,
        ;
        assert(frame_bit(b, k) && !frame_bit(a, k));
    }
}

} // verus!
