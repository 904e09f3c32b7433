//! Delays between connection attempts: exponential back-off with full jitter.
use vstd::arithmetic::power2::{lemma2_to64, lemma_pow2_strictly_increases, pow2};
use vstd::prelude::*;

use crate::random;

verus! {

/// The longest delay, in milliseconds.
pub const MAX_DELAY_MS: u64 = 30_000;

/// The upper bound of the delay before an attempt: none before the first, then a second doubled
/// with each attempt, up to half a minute.
pub open spec fn base_ms(attempt: nat) -> nat {
    if attempt <= 1 {
        0
    } else if 1000 * pow2((attempt - 1) as nat) > MAX_DELAY_MS {
        MAX_DELAY_MS as nat
    } else {
        1000 * pow2((attempt - 1) as nat)
    }
}

/// The upper bound of the delay before an attempt.
pub fn delay_bound_ms(attempt: u32) -> (r: u64)
    ensures
        r == base_ms(attempt as nat),
{
    if attempt <= 1 {
        return 0;
    }
    let exponent: u32 = if attempt - 1 > 14 {
        14
    } else {
        attempt - 1
    };
    proof {
        lemma2_to64();
        if attempt - 1 > 14 {
            lemma_pow2_strictly_increases(14, (attempt - 1) as nat);
        }
        if exponent < 14 {
            lemma_pow2_strictly_increases(exponent as nat, 14);
        }
        vstd::bits::lemma_u64_shl_is_mul(1000, exponent as u64);
    }
    let ms: u64 = 1000u64 << exponent;
    if ms > MAX_DELAY_MS {
        MAX_DELAY_MS
    } else {
        ms
    }
}

/// The delay before an attempt: anything up to the bound, by chance.
pub fn backoff_delay_ms(attempt: u32) -> (ms: u64)
    ensures
        ms <= base_ms(attempt as nat),
{
    if attempt <= 1 {
        return 0;
    }
    random::random_up_to(delay_bound_ms(attempt))
}

/// The delay in a browser for a number drawn there, cut down to the bound.
pub fn browser_delay_ms(attempt: u32, drawn: u32) -> (ms: u32)
    ensures
        ms == if drawn < base_ms(attempt as nat) {
            drawn as nat
        } else {
            base_ms(attempt as nat)
        },
{
    let bound = delay_bound_ms(attempt);
    if (drawn as u64) < bound {
        drawn
    } else {
        bound as u32
    }
}

/// How long a browser sleeps next while it waits out a delay, in milliseconds: it wakes every 50 to
/// see whether the tab came into view, which ends the wait.
pub fn next_nap_ms(delay_ms: u32, slept_ms: u32, in_view: bool) -> (nap: Option<u32>)
    ensures
        nap == if slept_ms >= delay_ms || in_view {
            None::<u32>
        } else if delay_ms - slept_ms < 50 {
            Some((delay_ms - slept_ms) as u32)
        } else {
            Some(50u32)
        },
{
    if slept_ms >= delay_ms || in_view {
        None
    } else if delay_ms - slept_ms < 50 {
        Some(delay_ms - slept_ms)
    } else {
        Some(50)
    }
}

/// The bound never falls from one attempt to the next, and never exceeds half a minute; every
/// attempt after the first may be delayed.
pub proof fn lemma_backoff_grows(attempt: nat)
    ensures
        base_ms(attempt) <= base_ms(attempt + 1) <= MAX_DELAY_MS,
        attempt >= 2 ==> base_ms(attempt) >= 2000,
        base_ms(1) == 0,
        base_ms(2) == 2000,
        base_ms(3) == 4000,
        base_ms(4) == 8000,
        base_ms(5) == 16000,
        attempt >= 6 ==> base_ms(attempt) == MAX_DELAY_MS,
{
    lemma2_to64();
    if attempt >= 2 {
        lemma_pow2_strictly_increases((attempt - 1) as nat, attempt);
        if attempt >= 3 {
            lemma_pow2_strictly_increases(1, (attempt - 1) as nat);
        }
        if attempt >= 7 {
            lemma_pow2_strictly_increases(5, (attempt - 1) as nat);
        }
    }
}

/// From the second attempt on, the bound doubles with each attempt until it reaches half a minute;
/// before the first there is no delay.
pub proof fn lemma_bound_doubles(attempt: nat)
    ensures
        attempt <= 1 ==> base_ms(attempt) == 0,
        base_ms(2) == 2000,
        attempt >= 2 && base_ms(attempt) * 2 <= 30_000 ==> base_ms(attempt + 1) == base_ms(attempt)
            * 2,
        attempt >= 2 && base_ms(attempt) * 2 > 30_000 ==> base_ms(attempt + 1) == 30_000,
{
    lemma2_to64();
    if attempt >= 2 {
        vstd::arithmetic::power2::lemma_pow2_unfold(attempt);
    }
}

} // verus!
