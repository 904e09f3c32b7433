//! The token bucket.
use ffoie_chat::rate_limit::TokenBucket;
use std::time::{Duration, Instant};

const MS: u128 = 1_000_000;

/// Burst=10: the first 10 calls on a fresh bucket must all succeed.
#[test]
fn full_bucket_allows_burst_calls() {
    let mut bucket = TokenBucket::new(10, 2);
    for i in 0..10 {
        assert!(
            bucket.consume(),
            "consume() call {i} should succeed on a burst-10 bucket"
        );
    }
}

/// The 11th call after a burst of 10 must be denied.
#[test]
fn eleventh_call_denied_after_burst() {
    let mut bucket = TokenBucket::new(10, 2);
    for _ in 0..10 {
        bucket.consume();
    }
    assert!(
        !bucket.consume(),
        "11th consume() should fail — bucket exhausted"
    );
}

/// After 500 ms with refill_per_sec=2, one token should have refilled
/// (0.5s × 2/s = 1.0 token), allowing one more consume().
#[test]
fn refill_after_500ms_allows_one_more() {
    let mut bucket = TokenBucket::new(10, 2);
    // Exhaust the bucket.
    for _ in 0..10 {
        bucket.consume();
    }
    // Verify it is empty.
    assert!(!bucket.consume(), "bucket should be empty before the wait");

    // Wait long enough for exactly one token to refill.
    let start = Instant::now();
    while start.elapsed() < Duration::from_millis(501) {}

    assert!(
        bucket.consume(),
        "one token should have refilled after 500ms at 2/s"
    );
}

/// retry_after_ms() should return ceil(1000 / refill_per_sec).
/// For refill_per_sec=2: 500ms; for refill_per_sec=10: 100ms.
#[test]
fn retry_after_ms_calculation() {
    let b2 = TokenBucket::new(10, 2);
    assert_eq!(b2.retry_after_ms(), 500, "2/s → 500ms retry");

    let b10 = TokenBucket::new(10, 10);
    assert_eq!(b10.retry_after_ms(), 100, "10/s → 100ms retry");

    let b1 = TokenBucket::new(5, 1);
    assert_eq!(b1.retry_after_ms(), 1000, "1/s → 1000ms retry");
}

/// After exhausting a burst=1 bucket, one refill wait restores exactly one token (not more).
#[test]
fn single_token_refill_is_capped_at_burst() {
    let mut bucket = TokenBucket::new(1, 2); // burst=1, refill=2/s
    assert!(bucket.consume(), "first consume must succeed");
    assert!(!bucket.consume(), "second must fail immediately");

    // Wait for one token.
    let start = Instant::now();
    while start.elapsed() < Duration::from_millis(510) {}

    assert!(bucket.consume(), "one token should have refilled");
    assert!(!bucket.consume(), "no second token so quickly after refill");
}

#[test]
fn retry_hint_is_rounded_up() {
    assert_eq!(TokenBucket::new(1, 3).retry_after_ms(), 334);
    assert_eq!(TokenBucket::new(1, 2000).retry_after_ms(), 1);
    assert_eq!(TokenBucket::new(1, 0).retry_after_ms(), u64::MAX);
}

#[test]
fn retry_after_is_the_hint_as_a_duration() {
    assert_eq!(TokenBucket::new(10, 2).retry_after(), Duration::from_millis(500));
}

/// Tries after a pause of so many nanoseconds.
fn try_after(bucket: &mut TokenBucket, pause: u128) -> bool {
    bucket.consume_after(pause, Instant::now())
}

#[test]
fn fractions_of_a_token_add_up() {
    let mut bucket = TokenBucket::new(1, 2);
    assert!(try_after(&mut bucket, 0));
    // Three pauses of 125 ms at 2/s are three quarters of a token.
    assert!(!try_after(&mut bucket, 125 * MS));
    assert!(!try_after(&mut bucket, 125 * MS));
    assert!(!try_after(&mut bucket, 125 * MS));
    assert!(try_after(&mut bucket, 125 * MS));
    assert!(!try_after(&mut bucket, 499 * MS));
    assert!(try_after(&mut bucket, MS));
}

#[test]
fn long_pause_fills_no_further_than_the_burst() {
    let mut bucket = TokenBucket::new(3, 5);
    assert!(try_after(&mut bucket, u128::MAX));
    assert!(try_after(&mut bucket, 0));
    assert!(try_after(&mut bucket, 0));
    assert!(!try_after(&mut bucket, 0));
}

#[test]
fn bucket_without_burst_allows_nothing() {
    let mut bucket = TokenBucket::new(0, 100);
    assert!(!try_after(&mut bucket, 10_000 * MS));
}

#[test]
fn waiting_for_the_hint_is_enough() {
    for rate in 1..50u32 {
        let mut bucket = TokenBucket::new(1, rate);
        assert!(try_after(&mut bucket, 0));
        assert!(!try_after(&mut bucket, 0));
        let hint = bucket.retry_after_ms() as u128 * MS;
        assert!(try_after(&mut bucket, hint));
    }
}

#[test]
fn time_is_counted_from_the_last_try() {
    let start = Instant::now();
    let at = |ms| start + Duration::from_millis(ms);
    let mut bucket = TokenBucket::new_at(1, 2, start);
    assert!(bucket.consume_at(at(0)));
    assert!(!bucket.consume_at(at(400)));
    assert_eq!(bucket.elapsed(&at(450)), 50 * MS);
    // Half a second after the first try, and a token's worth of time in all.
    assert!(bucket.consume_at(at(500)));
    // Not credited again with the time before.
    assert!(!bucket.consume_at(at(600)));
    assert!(!bucket.consume_at(at(999)));
    assert!(bucket.consume_at(at(1000)));
}

#[test]
fn throughput_is_bounded_by_burst_and_rate() {
    let start = Instant::now();
    let mut bucket = TokenBucket::new_at(10, 2, start);
    // A try every 10 ms for 5 s: the burst, and two tokens for each second.
    let allowed = (0..=500)
        .filter(|i| bucket.consume_at(start + Duration::from_millis(i * 10)))
        .count();
    assert_eq!(allowed, 20);
}

#[test]
fn a_clock_that_goes_back_adds_nothing() {
    let start = Instant::now();
    let later = start + Duration::from_secs(60);
    let mut bucket = TokenBucket::new_at(1, 2, later);
    assert!(bucket.consume_at(later));
    assert_eq!(bucket.elapsed(&start), 0);
    assert!(!bucket.consume_at(start));
}

#[test]
fn elapsed_grows_with_time() {
    let bucket = TokenBucket::new(1, 1);
    let start = Instant::now();
    while start.elapsed() < Duration::from_millis(20) {}
    assert!(bucket.elapsed(&Instant::now()) >= 20 * MS);
}
