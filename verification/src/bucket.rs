//! Rounding of raw event timestamps to a coarser reporting granularity.
//!
//! Every event's output time is pushed to the bucket boundary strictly
//! after the event's own bucket floor, even when the event falls exactly
//! on a boundary: output times advance monotonically, and an update is
//! never emitted at a time equal to input receipt.

use vstd::prelude::*;
use vstd::arithmetic::div_mod::{lemma_div_is_ordered, lemma_fundamental_div_mod};

verus! {

/// The boundary strictly after `raw`'s bucket floor, for buckets of width
/// `g`.
pub open spec fn bucket_of(raw: int, g: int) -> int
    recommends
        g >= 1,
{
    (raw / g + 1) * g
}

/// The reporting granularity derived from a nanosecond configuration:
/// whole milliseconds, with an effective floor of one millisecond.
pub open spec fn granularity_of_ns(ns: int) -> int {
    if ns / 1_000_000 >= 1 {
        ns / 1_000_000
    } else {
        1
    }
}

pub fn granularity_from_ns(granularity_ns: u64) -> (g: u64)
    ensures
        g == granularity_of_ns(granularity_ns as int),
        g >= 1,
{
    let g = granularity_ns / 1_000_000;
    if g < 1 {
        1
    } else {
        g
    }
}

/// Rounds `raw` up to the next bucket boundary, always strictly past the
/// floor of `raw`'s own bucket.
pub fn bucket(raw: u64, granularity: u64) -> (b: u64)
    requires
        granularity >= 1,
        bucket_of(raw as int, granularity as int) <= u64::MAX,
    ensures
        b == bucket_of(raw as int, granularity as int),
        b > raw,
{
    let q = raw / granularity;
    proof {
        assert(q + 1 <= (q + 1) * (granularity as int)) by (nonlinear_arith)
            requires
                granularity >= 1,
                q >= 0,
        ;
        lemma_bucket_exceeds_floor(raw as int, granularity as int);
    }
    (q + 1) * granularity
}

/// Bucketing is monotone: a later raw time is never assigned an earlier
/// bucket.
pub proof fn lemma_bucket_monotonic(t1: int, t2: int, g: int)
    requires
        0 <= t1 <= t2,
        g >= 1,
    ensures
        bucket_of(t1, g) <= bucket_of(t2, g),
{
    lemma_div_is_ordered(t1, t2, g);
    assert((t1 / g + 1) * g <= (t2 / g + 1) * g) by (nonlinear_arith)
        requires
            t1 / g <= t2 / g,
            g >= 1,
    ;
}

/// The bucket boundary lies strictly beyond both the raw time and the
/// floor of its bucket, never on it.
pub proof fn lemma_bucket_exceeds_floor(t: int, g: int)
    requires
        t >= 0,
        g >= 1,
    ensures
        bucket_of(t, g) > (t / g) * g,
        bucket_of(t, g) > t,
{
    lemma_fundamental_div_mod(t, g);
    assert((t / g + 1) * g == (t / g) * g + g) by (nonlinear_arith);
    assert(t == (t / g) * g + t % g) by (nonlinear_arith)
        requires
            t >= 0,
            g >= 1,
    ;
}

} // verus!
