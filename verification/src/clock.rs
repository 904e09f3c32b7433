//! The clocks. Nothing is stated of what they show.
use std::time::{Duration, Instant, UNIX_EPOCH};
use vstd::prelude::*;

verus! {

/// `std::time::Instant`, opaque: a reading of the monotonic clock.
#[verifier::external_type_specification]
#[verifier::external_body]
pub struct ExInstant(Instant);

/// `Instant::now`: the present reading of the monotonic clock.
#[verifier::external_body]
pub(crate) fn now() -> (r: Instant) {
    Instant::now()
}

/// The nanoseconds from one reading of the monotonic clock to another; none if the second is not the
/// later one.
pub uninterp spec fn nanos_from(earlier: Instant, later: Instant) -> u128;

/// `Instant::saturating_duration_since`: the time from `earlier` to `later`, in nanoseconds. It rests
/// on the two readings alone.
#[verifier::external_body]
pub(crate) fn nanos_between(earlier: &Instant, later: &Instant) -> (ns: u128)
    ensures
        ns == nanos_from(*earlier, *later),
{
    later.saturating_duration_since(*earlier).as_nanos()
}

/// `SystemTime::elapsed`, since the Unix epoch: what the wall clock shows, in milliseconds; `None`
/// for a clock set before the epoch.
#[verifier::external_body]
fn wall_clock() -> (ms: Option<u128>) {
    match UNIX_EPOCH.elapsed() {
        Ok(since) => Some(since.as_millis()),
        Err(_) => None,
    }
}

/// The duration of `ms` milliseconds.
pub uninterp spec fn duration_of_millis(ms: u64) -> Duration;

/// `Duration::from_millis`: the duration of that many milliseconds.
#[verifier::external_body]
pub(crate) fn from_millis(ms: u64) -> (d: Duration)
    ensures
        d == duration_of_millis(ms),
{
    Duration::from_millis(ms)
}

/// The timestamp for a reading of the wall clock: cut down to 64 bits, and zero before the epoch.
pub open spec fn stamp(reading: Option<u128>) -> u64 {
    match reading {
        None => 0,
        Some(ms) => if ms > u64::MAX {
            u64::MAX
        } else {
            ms as u64
        },
    }
}

/// The timestamp for a reading of the wall clock.
pub fn stamp_of(reading: Option<u128>) -> (r: u64)
    ensures
        r == stamp(reading),
{
    match reading {
        None => 0,
        Some(ms) => if ms > u64::MAX as u128 {
            u64::MAX
        } else {
            ms as u64
        },
    }
}

/// Unix timestamp in milliseconds.
pub fn unix_millis() -> (r: u64)
    ensures
        exists|reading: Option<u128>| r == #[trigger] stamp(reading),
{
    stamp_of(wall_clock())
}

/// A timestamp is the reading, as long as that has at most 64 bits; a later reading never has an
/// earlier timestamp; before the epoch it is zero.
pub proof fn lemma_stamp(ms: u128, later: u128)
    ensures
        stamp(None) == 0,
        ms <= 0xffff_ffff_ffff_ffff ==> stamp(Some(ms)) == ms,
        ms <= later ==> stamp(Some(ms)) <= stamp(Some(later)),
        ms > 0xffff_ffff_ffff_ffff ==> stamp(Some(ms)) == 0xffff_ffff_ffff_ffffu64,
{
}

} // verus!
