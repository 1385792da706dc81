use gcit::git::rate_bucket::RateBucket;
use gcit::time::{Duration, Instant};

fn at(millis: u128) -> Instant {
    Instant { nanos: millis * 1_000_000 }
}

#[test]
fn first_acquire_is_immediate() {
    let mut b = RateBucket::new(Duration::from_secs(1));
    assert_eq!(b.min_interval(), Duration::from_secs(1));
    assert_eq!(b.reserve(at(5)), at(5));
}

#[test]
fn second_acquire_waits_min_interval() {
    let mut b = RateBucket::new(Duration::from_secs(1));
    assert_eq!(b.reserve(at(0)), at(0));
    b.settle(at(0));
    assert_eq!(b.reserve(at(0)), at(1000));
}

#[test]
fn try_acquire_first_succeeds() {
    let mut b = RateBucket::new(Duration::from_secs(1));
    b.try_acquire(at(0)).expect("first try_acquire");
}

#[test]
fn try_acquire_within_window_returns_retry_after() {
    let mut b = RateBucket::new(Duration::from_secs(1));
    b.try_acquire(at(0)).unwrap();
    assert_eq!(b.try_acquire(at(0)), Err(Duration::from_secs(1)));
    assert_eq!(b.try_acquire(at(400)), Err(Duration::from_millis(600)));
}

#[test]
fn try_acquire_after_window_succeeds() {
    let mut b = RateBucket::new(Duration::from_secs(1));
    b.try_acquire(at(0)).unwrap();
    b.try_acquire(at(1100)).expect("after window, try_acquire must succeed");
    assert_eq!(b.try_acquire(at(1100)), Err(Duration::from_secs(1)));
}

#[test]
fn buckets_isolated_per_credential() {
    let mut a = RateBucket::new(Duration::from_secs(60));
    let mut b = RateBucket::new(Duration::from_secs(60));
    a.try_acquire(at(0)).unwrap();
    b.try_acquire(at(0)).expect("bucket B must not see A's state");
}

#[test]
fn concurrent_acquires_serialize() {
    let mut b = RateBucket::new(Duration::from_secs(1));
    let slots = [b.reserve(at(0)), b.reserve(at(0)), b.reserve(at(0))];
    assert_eq!(slots, [at(0), at(1000), at(2000)]);
    b.settle(at(0));
    assert_eq!(b.reserve(at(0)), at(3000));
}

#[test]
fn late_requests_count_from_when_they_went_through() {
    let mut b = RateBucket::new(Duration::from_secs(1));
    b.reserve(at(0));
    b.settle(at(700));
    assert_eq!(b.reserve(at(700)), at(1700));
    b.settle(at(1000));
    assert_eq!(b.reserve(at(1000)), at(2700));
}

#[test]
fn slots_beyond_the_clock_are_told() {
    let mut b = RateBucket::new(Duration { nanos: 2 });
    assert!(b.has_slot());
    b.reserve(Instant { nanos: u128::MAX - 1 });
    assert!(!b.has_slot());
}

#[test]
fn a_slot_keeps_later_requests_away_whatever_happens_in_between() {
    let mut b = RateBucket::new(Duration::from_secs(1));
    assert_eq!(b.reserve(at(5000)), at(5000));
    b.settle(at(100));
    assert_eq!(b.try_acquire(at(5500)), Err(Duration::from_millis(500)));
    assert_eq!(b.reserve(at(0)), at(6000));
}
