//! Time on the device, in ticks of its clock.
use embassy_time::{Duration, Instant};
use vstd::prelude::*;

verus! {

/// The ticks of a second.
pub const TICKS_PER_SEC: u64 = 1_000_000;

/// `embassy_time::Duration::from_secs`, in ticks, at the tick rate that the crate is built with.
///
/// Claimed: a second has a million ticks. The product must fit, or the conversion overflows.
#[verifier::external_body]
pub(crate) fn ticks_of_secs(secs: u64) -> (r: u64)
    requires
        secs * TICKS_PER_SEC <= u64::MAX,
    ensures
        r == secs * TICKS_PER_SEC,
{
    Duration::from_secs(secs).as_ticks()
}

/// `embassy_time::Instant` plus `embassy_time::Duration`, both in ticks.
///
/// Claimed: the ticks add up. The sum must fit, or the addition panics.
#[verifier::external_body]
pub(crate) fn later(now: u64, ticks: u64) -> (r: u64)
    requires
        now + ticks <= u64::MAX,
    ensures
        r == now + ticks,
{
    (Instant::from_ticks(now) + Duration::from_ticks(ticks)).as_ticks()
}

/// `embassy_time::Instant::as_millis`, of a time in ticks, at the tick rate that the crate is built
/// with.
///
/// Claimed: a millisecond has a thousand ticks, and a part of one is left out.
#[verifier::external_body]
fn millis_of_ticks(ticks: u64) -> (r: u64)
    ensures
        r == ticks / 1000,
{
    Instant::from_ticks(ticks).as_millis()
}

/// The time stamp of a log message that is written at a time in ticks: whole milliseconds since
/// boot.
pub fn log_stamp(ticks: u64) -> (r: u64)
    ensures
        r == ticks / 1000,
{
    millis_of_ticks(ticks)
}

} // verus!
