//! The power-of-two bucketing used for peek-duration histograms.

use vstd::prelude::*;
use vstd::arithmetic::div_mod::{lemma_div_is_ordered, lemma_fundamental_div_mod};

verus! {

/// The smallest power of two at or above `n` (one, for `n <= 1`).
pub open spec fn next_pow2(n: nat) -> nat
    decreases n,
{
    if n <= 1 {
        1
    } else {
        2 * next_pow2((n + 1) / 2)
    }
}

/// Rounds an elapsed duration up to the next power of two.
pub fn next_power_of_two(n: u64) -> (r: u64)
    requires
        n <= 0x8000_0000_0000_0000,
    ensures
        r == next_pow2(n as nat),
        n >= 2 ==> r <= 2 * (n - 1),
        n <= 1 ==> r == 1,
    decreases n,
{
    if n <= 1 {
        1
    } else {
        let m = (n + 1) / 2;
        proof {
            lemma_fundamental_div_mod(n as int + 1, 2);
            assert(2 * (m as int) <= n + 1);
            assert(m < n);
        }
        let half = next_power_of_two(m);
        2 * half
    }
}

} // verus!
