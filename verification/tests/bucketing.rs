//! The time bucketer and the power-of-two duration buckets on concrete
//! values.

use introspection::bucket::{bucket, granularity_from_ns};
use introspection::pow2::next_power_of_two;

#[test]
fn bucket_pushes_past_the_floor() {
    // Never equal to the bucket floor, even on an exact boundary.
    assert_eq!(bucket(5, 10), 10);
    assert_eq!(bucket(7, 10), 10);
    assert_eq!(bucket(20, 10), 30);
    assert_eq!(bucket(10, 10), 20);
    assert_eq!(bucket(0, 10), 10);
    assert_eq!(bucket(999, 1000), 1000);
    assert_eq!(bucket(1000, 1000), 2000);
}

#[test]
fn bucket_is_monotone_on_samples() {
    let mut prev = 0u64;
    for t in 0..200u64 {
        let b = bucket(t, 7);
        assert!(b >= prev);
        assert!(b > t);
        prev = b;
    }
}

#[test]
fn granularity_floors_at_one_millisecond() {
    assert_eq!(granularity_from_ns(0), 1);
    assert_eq!(granularity_from_ns(10), 1);
    assert_eq!(granularity_from_ns(999_999), 1);
    assert_eq!(granularity_from_ns(1_000_000), 1);
    assert_eq!(granularity_from_ns(5_000_000), 5);
}

#[test]
fn next_power_of_two_values() {
    assert_eq!(next_power_of_two(0), 1);
    assert_eq!(next_power_of_two(1), 1);
    assert_eq!(next_power_of_two(2), 2);
    assert_eq!(next_power_of_two(3), 4);
    assert_eq!(next_power_of_two(800), 1024);
    assert_eq!(next_power_of_two(1024), 1024);
    assert_eq!(next_power_of_two(1025), 2048);
    assert_eq!(next_power_of_two(0x8000_0000_0000_0000), 0x8000_0000_0000_0000);
}
