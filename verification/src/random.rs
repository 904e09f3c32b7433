//! Random numbers. What is stated of them holds of every draw.
use vstd::prelude::*;

verus! {

/// `fastrand::u32` over `0..n`: a number below `n`. The range must not be empty.
#[verifier::external_body]
pub(crate) fn random_below(n: u32) -> (r: u32)
    requires
        n > 0,
    ensures
        r < n,
{
    fastrand::u32(0..n)
}

/// `fastrand::u64` over `0..=max`: a number of at most `max`.
#[verifier::external_body]
pub(crate) fn random_up_to(max: u64) -> (r: u64)
    ensures
        r <= max,
{
    fastrand::u64(0..=max)
}

/// `fastrand::bool`: either value, by chance.
#[verifier::external_body]
pub(crate) fn random_flip() -> (r: bool) {
    fastrand::bool()
}

/// `Uuid::new_v4`: a random UUID, as a number. Its version nibble is 4 and its two variant bits are
/// 10; the rest is chance.
#[verifier::external_body]
pub(crate) fn random_uuid() -> (id: u128)
    ensures
        is_v4(id),
{
    uuid::Uuid::new_v4().as_u128()
}

/// The marks of a version 4 UUID.
pub open spec fn is_v4(id: u128) -> bool {
    &&& (id >> 76) & 0xf == 4
    &&& (id >> 62) & 0x3 == 2
}

} // verus!
