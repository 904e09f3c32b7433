//! Per-connection token-bucket rate limiter.
//!
//! A bucket holds up to `burst` tokens and gains `refill_per_sec` of them per second. It is counted
//! in billionths of a token: a bucket of rate `r` gains `r` billionths in each nanosecond, so a
//! refill after any stretch of time is a whole number of them.
use std::time::{Duration, Instant};
use vstd::prelude::*;

use crate::clock;

verus! {

/// One token, in billionths.
pub const TOKEN: u64 = 1_000_000_000;

/// Token bucket of one connection.
pub struct TokenBucket {
    /// In billionths of a token.
    tokens: u64,
    last_refill: Instant,
    burst: u32,
    refill_per_sec: u32,
}

/// The view of a [`TokenBucket`].
#[verifier::ext_equal]
pub struct BucketView {
    /// The balance, in billionths of a token.
    pub tokens: nat,
    pub burst: nat,
    pub rate: nat,
    /// What the clock showed at the last try, or when the bucket was made.
    pub last: Instant,
}

impl BucketView {
    /// The balance never exceeds the burst.
    pub open spec fn wf(self) -> bool {
        self.tokens <= self.burst * TOKEN
    }

    /// A full bucket, made at the given reading of the clock.
    pub open spec fn full(burst: nat, rate: nat, made: Instant) -> BucketView {
        BucketView { tokens: burst * TOKEN as nat, burst, rate, last: made }
    }

    /// The balance after `elapsed` nanoseconds.
    pub open spec fn refilled(self, elapsed: nat) -> nat {
        if self.tokens + elapsed * self.rate > self.burst * TOKEN {
            self.burst * TOKEN as nat
        } else {
            self.tokens + elapsed * self.rate
        }
    }

    /// Whether a token is there after `elapsed` nanoseconds.
    pub open spec fn allows(self, elapsed: nat) -> bool {
        self.refilled(elapsed) >= TOKEN
    }

    /// The bucket after a try to take a token, `elapsed` nanoseconds after the one before, when the
    /// clock shows `now`.
    pub open spec fn tried(self, elapsed: nat, now: Instant) -> BucketView {
        BucketView {
            tokens: if self.allows(elapsed) {
                (self.refilled(elapsed) - TOKEN) as nat
            } else {
                self.refilled(elapsed)
            },
            last: now,
            ..self
        }
    }

    /// The nanoseconds from the last try until the clock shows `now`.
    pub open spec fn since(self, now: Instant) -> nat {
        clock::nanos_from(self.last, now) as nat
    }

    /// Whether a token is there when the clock shows `now`.
    pub open spec fn allows_at(self, now: Instant) -> bool {
        self.allows(self.since(now))
    }

    /// The bucket after a try when the clock shows `now`.
    pub open spec fn tried_at(self, now: Instant) -> BucketView {
        self.tried(self.since(now), now)
    }

    /// The bucket after one try at each of the readings, in order.
    pub open spec fn tried_all(self, readings: Seq<Instant>) -> BucketView
        decreases readings.len(),
    {
        if readings.len() == 0 {
            self
        } else {
            self.tried_all(readings.drop_last()).tried_at(readings.last())
        }
    }

    /// How many of the tries get a token.
    pub open spec fn allowed(self, readings: Seq<Instant>) -> nat
        decreases readings.len(),
    {
        if readings.len() == 0 {
            0
        } else {
            self.allowed(readings.drop_last()) + if self.tried_all(
                readings.drop_last(),
            ).allows_at(readings.last()) {
                1nat
            } else {
                0nat
            }
        }
    }

    /// The nanoseconds that pass over all of the tries.
    pub open spec fn time(self, readings: Seq<Instant>) -> nat
        decreases readings.len(),
    {
        if readings.len() == 0 {
            0
        } else {
            self.time(readings.drop_last()) + self.tried_all(readings.drop_last()).since(
                readings.last(),
            )
        }
    }
}

/// Milliseconds after which a bucket of this rate has gained a whole token.
pub open spec fn retry_ms(rate: nat) -> nat {
    if rate == 0 {
        u64::MAX as nat
    } else {
        ((1000 + rate - 1) / rate as int) as nat
    }
}

impl View for TokenBucket {
    type V = BucketView;

    closed spec fn view(&self) -> BucketView {
        BucketView {
            tokens: self.tokens as nat,
            burst: self.burst as nat,
            rate: self.refill_per_sec as nat,
            last: self.last_refill,
        }
    }
}

impl TokenBucket {
    #[verifier::type_invariant]
    spec fn within_burst(self) -> bool {
        self.tokens <= self.burst * TOKEN
    }

    /// Creates a bucket that is full.
    pub fn new(burst: u32, refill_per_sec: u32) -> (b: Self)
        ensures
            b@ == BucketView::full(burst as nat, refill_per_sec as nat, b@.last),
            b@.wf(),
    {
        TokenBucket::new_at(burst, refill_per_sec, clock::now())
    }

    /// Creates a bucket that is full, when the clock shows `now`.
    pub fn new_at(burst: u32, refill_per_sec: u32, now: Instant) -> (b: Self)
        ensures
            b@ == BucketView::full(burst as nat, refill_per_sec as nat, now),
            b@.wf(),
    {
        TokenBucket { tokens: burst as u64 * TOKEN, last_refill: now, burst, refill_per_sec }
    }

    /// Tries to take one token, `elapsed` nanoseconds after the try before, when the clock shows
    /// `now`.
    pub fn consume_after(&mut self, elapsed: u128, now: Instant) -> (allowed: bool)
        ensures
            allowed == old(self)@.allows(elapsed as nat),
            final(self)@ == old(self)@.tried(elapsed as nat, now),
            final(self)@.wf(),
    {
        proof {
            use_type_invariant(&*self);
        }
        let capacity: u64 = self.burst as u64 * TOKEN;
        let gained = elapsed.checked_mul(self.refill_per_sec as u128);
        let tokens: u64 = match gained {
            Some(g) => if g > (capacity - self.tokens) as u128 {
                capacity
            } else {
                self.tokens + g as u64
            },
            None => capacity,
        };
        self.last_refill = now;
        if tokens >= TOKEN {
            self.tokens = tokens - TOKEN;
            true
        } else {
            self.tokens = tokens;
            false
        }
    }

    /// The time from the last try, or from when the bucket was made, until the clock shows `now`, in
    /// nanoseconds.
    pub fn elapsed(&self, now: &Instant) -> (ns: u128)
        ensures
            ns == self@.since(*now),
    {
        clock::nanos_between(&self.last_refill, now)
    }

    /// Tries to take one token when the clock shows `now`.
    pub fn consume_at(&mut self, now: Instant) -> (allowed: bool)
        ensures
            allowed == old(self)@.allows_at(now),
            final(self)@ == old(self)@.tried_at(now),
            final(self)@.wf(),
    {
        let elapsed = self.elapsed(&now);
        self.consume_after(elapsed, now)
    }

    /// Tries to take one token.
    ///
    /// Refills the bucket by the time since the last call, then takes a token if there is one.
    pub fn consume(&mut self) -> (allowed: bool)
        ensures
            allowed == old(self)@.allows_at(final(self)@.last),
            final(self)@ == old(self)@.tried_at(final(self)@.last),
            final(self)@.wf(),
    {
        self.consume_at(clock::now())
    }

    /// Estimated milliseconds until the next token is available.
    pub fn retry_after_ms(&self) -> (ms: u64)
        ensures
            ms == retry_ms(self@.rate),
    {
        if self.refill_per_sec == 0 {
            u64::MAX
        } else {
            let rate: u64 = self.refill_per_sec as u64;
            (1000 + rate - 1) / rate
        }
    }

    /// The time until one token refills.
    pub fn retry_after(&self) -> (d: Duration)
        ensures
            d == clock::duration_of_millis(retry_ms(self@.rate) as u64),
    {
        clock::from_millis(self.retry_after_ms())
    }
}

// ── What the bucket guarantees ────────────────────────────────────────────────

/// A try keeps the balance within the burst, leaves burst and rate alone, and is what the next try
/// counts its time from.
pub proof fn lemma_tried_wf(b: BucketView, now: Instant)
    requires
        b.wf(),
    ensures
        b.tried_at(now).wf(),
        b.tried_at(now).burst == b.burst,
        b.tried_at(now).rate == b.rate,
        b.tried_at(now).last == now,
{
}

/// Burst and steady rate bound the traffic: over any run of tries the bucket lets through at most
/// what it held plus what the rate adds in the whole time.
pub proof fn lemma_rate_bound(b: BucketView, readings: Seq<Instant>)
    ensures
        b.allowed(readings) * TOKEN + b.tried_all(readings).tokens <= b.tokens + b.time(readings)
            * b.rate,
        b.tried_all(readings).burst == b.burst,
        b.tried_all(readings).rate == b.rate,
    decreases readings.len(),
{
    if readings.len() > 0 {
        let before = readings.drop_last();
        lemma_rate_bound(b, before);
        let elapsed = b.tried_all(before).since(readings.last());
        assert((b.time(before) + elapsed) * b.rate == b.time(before) * b.rate + elapsed * b.rate)
            by (nonlinear_arith);
    } else {
        assert(b.time(readings) * b.rate == 0) by (nonlinear_arith)
            requires
                b.time(readings) == 0,
        ;
    }
}

/// A full bucket lets a burst through, however little time passes between the tries.
pub proof fn lemma_burst_allowed(burst: nat, rate: nat, made: Instant, readings: Seq<Instant>)
    requires
        readings.len() <= burst,
    ensures
        BucketView::full(burst, rate, made).allowed(readings) == readings.len(),
        BucketView::full(burst, rate, made).tried_all(readings).tokens >= (burst - readings.len())
            * TOKEN,
        BucketView::full(burst, rate, made).tried_all(readings).burst == burst,
        BucketView::full(burst, rate, made).tried_all(readings).rate == rate,
    decreases readings.len(),
{
    if readings.len() > 0 {
        lemma_burst_allowed(burst, rate, made, readings.drop_last());
        let b = BucketView::full(burst, rate, made).tried_all(readings.drop_last());
        assert(b.since(readings.last()) * b.rate >= 0) by (nonlinear_arith);
    }
}

/// Once the burst is used up and no time has passed, a try is refused.
pub proof fn lemma_exhausted(burst: nat, rate: nat, made: Instant, readings: Seq<Instant>)
    requires
        readings.len() == burst,
        BucketView::full(burst, rate, made).time(readings) == 0,
    ensures
        !BucketView::full(burst, rate, made).tried_all(readings).allows(0),
{
    let b = BucketView::full(burst, rate, made);
    lemma_rate_bound(b, readings);
    lemma_burst_allowed(burst, rate, made, readings);
    assert(b.time(readings) * rate == 0) by (nonlinear_arith)
        requires
            b.time(readings) == 0,
    ;
    assert(0 * b.tried_all(readings).rate == 0) by (nonlinear_arith);
}

/// A sender who waits as long as the retry hint says gets through, if the bucket holds tokens and
/// refills at all.
pub proof fn lemma_retry_hint_suffices(b: BucketView, elapsed: nat)
    requires
        b.wf(),
        b.burst > 0,
        b.rate > 0,
        elapsed >= retry_ms(b.rate) * 1_000_000,
    ensures
        b.allows(elapsed),
{
    let ms = retry_ms(b.rate);
    let rate = b.rate as int;
    assert(ms * rate >= 1000) by (nonlinear_arith)
        requires
            rate > 0,
            ms == (1000 + rate - 1) / rate,
    ;
    assert(elapsed * rate >= TOKEN) by (nonlinear_arith)
        requires
            rate > 0,
            ms * rate >= 1000,
            elapsed >= ms * 1_000_000,
            TOKEN == 1_000_000_000,
    ;
}

/// The balance grows by exactly the time times the rate, and stops at the burst and nowhere before.
pub proof fn lemma_balance(b: BucketView, elapsed: nat)
    ensures
        b.tokens + elapsed * b.rate <= b.burst * 1_000_000_000 ==> b.refilled(elapsed) == b.tokens
            + elapsed * b.rate,
        b.tokens + elapsed * b.rate >= b.burst * 1_000_000_000 ==> b.refilled(elapsed) == b.burst
            * 1_000_000_000,
{
}

/// A try succeeds if and only if a whole token is there, costs exactly one, and costs nothing if it
/// fails; it changes neither burst nor rate, and time is counted from it.
pub proof fn lemma_try_costs_one_token(b: BucketView, elapsed: nat, now: Instant)
    ensures
        b.allows(elapsed) <==> b.tokens + elapsed * b.rate >= 1_000_000_000 && b.burst >= 1,
        b.allows(elapsed) ==> b.tried(elapsed, now).tokens + 1_000_000_000 == b.refilled(elapsed),
        !b.allows(elapsed) ==> b.tried(elapsed, now).tokens == b.refilled(elapsed),
        b.tried(elapsed, now).burst == b.burst,
        b.tried(elapsed, now).rate == b.rate,
        b.tried(elapsed, now).last == now,
{
}

/// A try at a reading of the clock is one after the time from the last try to that reading.
pub proof fn lemma_time_is_since_last_try(b: BucketView, now: Instant)
    ensures
        b.allows_at(now) == b.allows(clock::nanos_from(b.last, now) as nat),
        b.tried_at(now) == b.tried(clock::nanos_from(b.last, now) as nat, now),
{
}

/// A new bucket holds its whole burst.
pub proof fn lemma_new_is_full(burst: nat, rate: nat, made: Instant)
    ensures
        BucketView::full(burst, rate, made).tokens == burst * 1_000_000_000,
        BucketView::full(burst, rate, made).burst == burst,
        BucketView::full(burst, rate, made).rate == rate,
        BucketView::full(burst, rate, made).last == made,
{
}

impl BucketView {
    /// The bucket after `k` tries at one moment, `elapsed` nanoseconds after the last try before.
    pub open spec fn tried_times(self, elapsed: nat, now: Instant, k: nat) -> BucketView
        decreases k,
    {
        if k == 0 {
            self
        } else if k == 1 {
            self.tried(elapsed, now)
        } else {
            self.tried_times(elapsed, now, (k - 1) as nat).tried(0, now)
        }
    }
}

/// A pause in which `k` tokens refill allows `k` tries in a row, up to the burst: none of the time is
/// lost. The `i`-th of them, counted from zero, is allowed for every `i` below `k`.
pub proof fn lemma_pause_refills(b: BucketView, elapsed: nat, now: Instant, k: nat, i: nat)
    requires
        b.wf(),
        i < k <= b.burst,
        elapsed * b.rate >= k * 1_000_000_000,
    ensures
        i == 0 ==> b.allows(elapsed),
        i > 0 ==> b.tried_times(elapsed, now, i).allows(0),
        b.tried_times(elapsed, now, i + 1).tokens >= (k - 1 - i) * 1_000_000_000,
        b.tried_times(elapsed, now, i + 1).burst == b.burst,
        b.tried_times(elapsed, now, i + 1).rate == b.rate,
    decreases i,
{
    if i > 0 {
        lemma_pause_refills(b, elapsed, now, k, (i - 1) as nat);
        let before = b.tried_times(elapsed, now, i);
        assert(0 * before.rate == 0) by (nonlinear_arith);
    }
}

/// The retry hint is the least whole number of milliseconds in which a token refills; where nothing
/// refills, it is the longest there is.
pub proof fn lemma_retry_hint_is_least(rate: nat)
    ensures
        rate > 0 ==> retry_ms(rate) * rate >= 1000,
        rate > 0 ==> retry_ms(rate) >= 1 && (retry_ms(rate) - 1) * rate < 1000,
        rate == 0 ==> retry_ms(rate) == 0xffff_ffff_ffff_ffff,
{
    if rate > 0 {
        let r = rate as int;
        let ms = (1000 + r - 1) / r;
        assert(ms * r >= 1000 && ms >= 1 && (ms - 1) * r < 1000) by (nonlinear_arith)
            requires
                r > 0,
                ms == (1000 + r - 1) / r,
        ;
    }
}

} // verus!
