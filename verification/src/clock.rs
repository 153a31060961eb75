//! The wall clock, read as nanoseconds since the Unix epoch.

use vstd::prelude::*;
use std::time::{Duration, SystemTime, SystemTimeError};

verus! {

/// `std::time::SystemTime`, carried through unopened.
#[verifier::external_type_specification]
#[verifier::external_body]
pub struct ExSystemTime(SystemTime);

/// `std::time::SystemTimeError`, carried through unopened.
#[verifier::external_type_specification]
#[verifier::external_body]
pub struct ExSystemTimeError(SystemTimeError);

/// The current time.
///
/// Calls `SystemTime::now`; nothing is claimed of the result, which is the
/// machine's clock.
#[verifier::external_body]
fn clock_now() -> (t: SystemTime) {
    SystemTime::now()
}

/// How long after the Unix epoch `t` lies, or an error when `t` lies before it.
///
/// Calls `SystemTime::duration_since` with `UNIX_EPOCH`; nothing is claimed
/// of the result, since `t` is opaque here.
#[verifier::external_body]
fn since_unix_epoch(t: &SystemTime) -> (r: Result<Duration, SystemTimeError>) {
    t.duration_since(std::time::UNIX_EPOCH)
}

/// The whole nanoseconds of a duration.
///
/// Calls `Duration::as_nanos`; nothing is claimed of the result, since the
/// duration is opaque here.
#[verifier::external_body]
fn whole_nanos(d: &Duration) -> (n: u128) {
    d.as_nanos()
}

/// The current time in nanoseconds since the Unix epoch, or the clock's
/// error when it reads a time before the epoch. What comes back is the
/// machine's clock, of which nothing is stated.
pub fn nanos_stamp() -> (r: Result<u128, SystemTimeError>) {
    let now = clock_now();
    match since_unix_epoch(&now) {
        Ok(d) => Ok(whole_nanos(&d)),
        Err(e) => Err(e),
    }
}

} // verus!
