//! Single bits of a mask.

use vstd::prelude::*;

verus! {

/// Whether bit `i` of `mask` is set.
pub open spec fn bit_set(mask: u32, i: u32) -> bool {
    (mask >> i) & 1 == 1
}

/// Tests bit `i` of `mask`.
pub fn test_bit(mask: u32, i: u32) -> (r: bool)
    requires
        i < 32,
    ensures
        r == bit_set(mask, i),
{
    (mask >> i) & 1 == 1
}

/// How many of the lowest `n` bits of `mask` are set.
pub open spec fn count_ones(mask: u32, n: nat) -> nat
    decreases n,
{
    if n == 0 {
        0
    } else {
        count_ones(mask, (n - 1) as nat) + if bit_set(mask, (n - 1) as u32) {
            1nat
        } else {
            0nat
        }
    }
}

/// Counts the bits that are set in `mask`.
pub fn popcount(mask: u32) -> (r: u32)
    ensures
        r == count_ones(mask, 32),
        r <= 32,
{
    let mut count: u32 = 0;
    let mut i: u32 = 0;
    while i < 32
        invariant
            i <= 32,
            count == count_ones(mask, i as nat),
            count <= i,
        decreases 32 - i,
    {
        if test_bit(mask, i) {
            count += 1;
        }
        i += 1;
    }
    count
}

} // verus!
