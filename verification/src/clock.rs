//! Reading the machine's clock as Unix time.

use std::time::{Duration, SystemTime, SystemTimeError, UNIX_EPOCH};
use vstd::prelude::*;

verus! {

#[verifier::external_type_specification]
#[verifier::external_body]
pub struct ExSystemTime(SystemTime);

#[verifier::external_type_specification]
#[verifier::external_body]
pub struct ExSystemTimeError(SystemTimeError);

/// Calls `std::time::SystemTime::now`. The value is the machine's clock:
/// nothing is stated of it.
#[verifier::external_body]
fn system_now() -> SystemTime {
    SystemTime::now()
}

/// Calls `SystemTime::duration_since` with `UNIX_EPOCH`. Its documentation
/// says it fails when the time lies before the epoch; what the duration
/// holds is opaque here, so nothing is stated of the result.
#[verifier::external_body]
fn since_unix_epoch(t: &SystemTime) -> Result<Duration, SystemTimeError> {
    t.duration_since(UNIX_EPOCH)
}

/// Calls `Duration::as_secs`. The duration is opaque here, so nothing is
/// stated of the whole seconds returned.
#[verifier::external_body]
fn whole_secs(d: &Duration) -> u64 {
    d.as_secs()
}

/// Calls `Duration::as_micros`. The duration is opaque here, so nothing is
/// stated of the whole microseconds returned.
#[verifier::external_body]
fn whole_micros(d: &Duration) -> u128 {
    d.as_micros()
}

/// Calls `Duration::as_nanos`. The duration is opaque here, so nothing is
/// stated of the whole nanoseconds returned.
#[verifier::external_body]
fn whole_nanos(d: &Duration) -> u128 {
    d.as_nanos()
}

/// Unix seconds from the clock's reading: the whole seconds since the epoch,
/// taken as `i64` the way `as` does, or 0 when the clock lies before it.
pub open spec fn secs_from(since_epoch: Option<u64>) -> i64 {
    match since_epoch {
        Some(s) => s as i64,
        None => 0,
    }
}

/// Unix microseconds from the clock's reading: the whole microseconds since
/// the epoch, held at `i64::MAX` at most, or 0 when the clock lies before it.
pub open spec fn micros_from(since_epoch: Option<u128>) -> i64 {
    match since_epoch {
        Some(m) => if m > i64::MAX as u128 { i64::MAX } else { m as i64 },
        None => 0,
    }
}

/// Converts a reading of the clock (whole seconds since the epoch, or `None`
/// before it) to Unix seconds.
pub fn unix_secs(since_epoch: Option<u64>) -> (r: i64)
    ensures
        r == secs_from(since_epoch),
{
    match since_epoch {
        Some(s) => s as i64,
        None => 0,
    }
}

/// Converts a reading of the clock (whole microseconds since the epoch, or
/// `None` before it) to Unix microseconds.
pub fn unix_micros(since_epoch: Option<u128>) -> (r: i64)
    ensures
        r == micros_from(since_epoch),
{
    match since_epoch {
        Some(m) => if m > i64::MAX as u128 { i64::MAX } else { m as i64 },
        None => 0,
    }
}

/// The current Unix time in whole seconds; 0 if the clock lies before the
/// epoch.
pub fn now_secs() -> (r: i64)
    ensures
        exists|s: Option<u64>| r == secs_from(s),
{
    let reading = match since_unix_epoch(&system_now()) {
        Ok(d) => Some(whole_secs(&d)),
        Err(_) => None,
    };
    unix_secs(reading)
}

/// The current Unix time in whole microseconds; 0 if the clock lies before
/// the epoch.
pub fn now_micros() -> (r: i64)
    ensures
        exists|m: Option<u128>| r == micros_from(m),
        r >= 0,
{
    let reading = match since_unix_epoch(&system_now()) {
        Ok(d) => Some(whole_micros(&d)),
        Err(_) => None,
    };
    unix_micros(reading)
}

/// The current Unix time in whole nanoseconds; 0 if the clock lies before the
/// epoch.
pub(crate) fn now_nanos() -> (r: u128) {
    match since_unix_epoch(&system_now()) {
        Ok(d) => whole_nanos(&d),
        Err(_) => 0,
    }
}

} // verus!
