//! The clocks: the monotonic one through `std::time::Instant`, the wall clock through
//! `std::time::SystemTime`. What they read depends on the time of the call, so nothing
//! is stated of their readings; the arithmetic on them is verified.
use vstd::prelude::*;
use std::time::{Duration, Instant, SystemTime, SystemTimeError};

verus! {

#[verifier::external_type_specification]
#[verifier::external_body]
pub struct ExInstant(std::time::Instant);

#[verifier::external_type_specification]
#[verifier::external_body]
pub struct ExSystemTime(std::time::SystemTime);

#[verifier::external_type_specification]
#[verifier::external_body]
pub struct ExSystemTimeError(std::time::SystemTimeError);

/// The current instant of the monotonic clock (`Instant::now`). Nothing is stated of it:
/// it depends on the time of the call.
#[verifier::external_body]
pub(crate) fn instant_now() -> Instant {
    Instant::now()
}

/// The time elapsed since `start` (`Instant::elapsed`). Nothing is stated of it: it
/// depends on the time of the call.
#[verifier::external_body]
pub(crate) fn instant_elapsed(start: &Instant) -> Duration {
    start.elapsed()
}

/// The whole nanoseconds a duration holds (`Duration::as_nanos`). Verus sees nothing
/// inside a `Duration`, so nothing is stated of the number.
#[verifier::external_body]
pub(crate) fn duration_nanos(d: &Duration) -> u128 {
    d.as_nanos()
}

/// The whole milliseconds a duration holds (`Duration::as_millis`). Verus sees nothing
/// inside a `Duration`, so nothing is stated of the number.
#[verifier::external_body]
pub(crate) fn duration_millis(d: &Duration) -> u128 {
    d.as_millis()
}

/// The current time of the wall clock (`SystemTime::now`). Nothing is stated of it: it
/// depends on the time of the call.
#[verifier::external_body]
fn system_time_now() -> SystemTime {
    SystemTime::now()
}

/// The time from the Unix epoch to `t` (`SystemTime::duration_since(UNIX_EPOCH)`), an
/// error where `t` lies before the epoch. Nothing is stated of which comes back.
#[verifier::external_body]
fn since_unix_epoch(t: &SystemTime) -> Result<Duration, SystemTimeError> {
    t.duration_since(std::time::UNIX_EPOCH)
}

/// Nanoseconds elapsed since `start`.
pub(crate) fn elapsed_nanos(start: &Instant) -> u128 {
    let elapsed = instant_elapsed(start);
    duration_nanos(&elapsed)
}

/// Nanoseconds elapsed since `start`, saturated to `u64`.
pub(crate) fn nanos_since(start: &Instant) -> u64 {
    let n = elapsed_nanos(start);
    if n > u64::MAX as u128 {
        u64::MAX
    } else {
        n as u64
    }
}

/// Milliseconds since the Unix epoch by the wall clock, cut to their low 64 bits; a
/// clock set before the epoch reads as zero.
pub(crate) fn unix_time_millis() -> u64 {
    let now = system_time_now();
    match since_unix_epoch(&now) {
        Ok(d) => {
            let millis = duration_millis(&d);
            #[verifier::truncate]
            (millis as u64)
        },
        Err(_) => 0,
    }
}

} // verus!
