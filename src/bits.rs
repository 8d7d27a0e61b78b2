//! Bucket and rank of a 64-bit hash, and the population count of a mask.

use vstd::prelude::*;
use vstd::std_specs::bits::{axiom_u64_leading_zeros, u64_leading_zeros};

verus! {

/// The number of one bits of `x`.
pub open spec fn popcount(x: u64) -> nat
    decreases x,
{
    if x == 0 {
        0
    } else {
        (x % 2) as nat + popcount(x / 2)
    }
}

/// Relies on `u64::count_ones`: the number of one bits of its argument.
pub assume_specification[ u64::count_ones ](x: u64) -> (r: u32)
    ensures
        r as nat == popcount(x),
;

/// The bucket that a hash falls in: its low six bits.
pub open spec fn bucket(h: u64) -> u64 {
    h % 64
}

/// The rank of a hash: the leading zeros of `h >> 6`, less the six bits that
/// the shift always clears.
pub open spec fn rank(h: u64) -> int {
    u64_leading_zeros(h >> 6) - 6
}

/// The mask with the single bit `k` set.
pub open spec fn bit(k: u64) -> u64 {
    1u64 << k
}

/// A rank lies between 0 and 58: `h >> 6` has its top six bits clear.
pub proof fn lemma_rank_bounds(h: u64)
    ensures
        0 <= rank(h) <= 58,
{
    let x = h >> 6u64;
    axiom_u64_leading_zeros(x);
    let l = u64_leading_zeros(x);
    if l < 6 {
        let lu = l as u64;
        assert(((h >> 6u64) >> vstd::prelude::sub(63u64, lu)) & 1u64 == 0u64) by (bit_vector)
            requires
                lu < 6,
        ;
    }
}

/// Setting one bit adds at most one to the population count.
pub proof fn lemma_popcount_set_bit(x: u64, k: u64)
    requires
        k < 64,
    ensures
        popcount(x | bit(k)) <= popcount(x) + 1,
    decreases k,
{
    let y = x | bit(k);
    assert(y != 0) by (bit_vector)
        requires
            y == x | (1u64 << k),
            k < 64,
    ;
    if k == 0 {
        assert(y % 2 == 1 && y / 2 == x / 2) by (bit_vector)
            requires
                y == x | (1u64 << 0u64),
        ;
    } else {
        let k1 = (k - 1) as u64;
        assert(y % 2 == x % 2 && y / 2 == (x / 2) | (1u64 << k1)) by (bit_vector)
            requires
                y == x | (1u64 << k),
                0 < k < 64,
                k1 == k - 1,
        ;
        lemma_popcount_set_bit(x / 2, k1);
    }
}

/// A mask whose bits are all set in another has no greater population count.
pub proof fn lemma_popcount_subset(s: u64, t: u64)
    requires
        s & !t == 0,
    ensures
        popcount(s) <= popcount(t),
    decreases t,
{
    if t == 0 {
        assert(s == 0) by (bit_vector)
            requires
                s & !t == 0,
                t == 0,
        ;
    } else if s != 0 {
        assert((s / 2) & !(t / 2) == 0 && s % 2 <= t % 2) by (bit_vector)
            requires
                s & !t == 0,
        ;
        lemma_popcount_subset(s / 2, t / 2);
    }
}

/// Computes the rank of `h`.
pub fn hash_rank(h: u64) -> (r: u64)
    ensures
        r as int == rank(h),
        r <= 58,
{
    proof {
        lemma_rank_bounds(h);
    }
    let lz: u32 = (h >> 6).leading_zeros();
    (lz - 6) as u64
}

/// Computes the bucket of `h`.
pub fn hash_bucket(h: u64) -> (k: u64)
    ensures
        k == bucket(h),
        k < 64,
{
    h % 64
}

} // verus!
