//! The ports as the standard library provides them.

use crate::ports::TimePort;
use core::time::Duration;
use std::time::SystemTime;
use std::time::SystemTimeError;
use vstd::prelude::*;

verus! {

/// `std::time::SystemTime`, a point of the system clock; nothing of its
/// inside is known here.
#[verifier::external_type_specification]
#[verifier::external_body]
pub struct ExSystemTime(SystemTime);

/// `std::time::SystemTimeError`, the error of a clock that went
/// backwards; nothing of its inside is known here.
#[verifier::external_type_specification]
#[verifier::external_body]
pub struct ExSystemTimeError(SystemTimeError);

/// `std::time::SystemTime::now`: the time of the system clock, of which
/// nothing is known beforehand.
pub assume_specification[ SystemTime::now ]() -> (t: SystemTime)
;

/// `std::time::SystemTime::duration_since`: the time between two points,
/// or an error where the second is the later one.
pub assume_specification[ SystemTime::duration_since ](
    t: &SystemTime,
    earlier: SystemTime,
) -> (r: Result<Duration, SystemTimeError>)
;

/// `core::time::Duration::as_secs`: the whole seconds of the duration,
/// of which nothing is claimed.
pub assume_specification[ Duration::as_secs ](d: &Duration) -> (s: u64)
;

/// `core::time::Duration::as_millis`: the whole milliseconds of the
/// duration, of which nothing is claimed.
pub assume_specification[ Duration::as_millis ](d: &Duration) -> (ms: u128)
;

/// `std::time::UNIX_EPOCH`: the beginning of 1970.
#[verifier::external_body]
fn unix_epoch() -> SystemTime {
    std::time::UNIX_EPOCH
}

/// Milliseconds as a 64-bit number, the largest where they do not fit.
pub open spec fn clamp_millis(ms: u128) -> u64 {
    if ms > u64::MAX {
        u64::MAX
    } else {
        ms as u64
    }
}

/// Milliseconds as a 64-bit number, the largest where they do not fit.
pub fn millis_u64(ms: u128) -> (r: u64)
    ensures
        r == clamp_millis(ms),
{
    if ms > u64::MAX as u128 {
        u64::MAX
    } else {
        ms as u64
    }
}

/// The clock of the system.
#[derive(Debug, Clone, Copy)]
pub struct StdTimeAdapter;

impl TimePort for StdTimeAdapter {
    /// Milliseconds since the beginning of 1970; 0 for a clock that
    /// stands before it.
    fn now_millis(&self) -> u64 {
        millis_shown(match SystemTime::now().duration_since(unix_epoch()) {
            Ok(d) => Some(d.as_millis()),
            Err(_) => None,
        })
    }

    /// Seconds since the beginning of 1970; 0 for a clock that stands
    /// before it.
    fn now_secs(&self) -> u64 {
        secs_shown(match SystemTime::now().duration_since(unix_epoch()) {
            Ok(d) => Some(d.as_secs()),
            Err(_) => None,
        })
    }
}

/// The milliseconds that the port shows for a reading of the clock: the
/// time since the beginning of 1970 where the clock stands after it, as
/// a 64-bit number, and 0 where it stands before it.
pub open spec fn shown_millis(since_epoch: Option<u128>) -> u64 {
    match since_epoch {
        Some(ms) => clamp_millis(ms),
        None => 0,
    }
}

/// The seconds that the port shows for a reading of the clock: the time
/// since the beginning of 1970 where the clock stands after it, and 0
/// where it stands before it.
pub open spec fn shown_secs(since_epoch: Option<u64>) -> u64 {
    match since_epoch {
        Some(secs) => secs,
        None => 0,
    }
}

/// The milliseconds that the port shows for a reading of the clock.
pub fn millis_shown(since_epoch: Option<u128>) -> (r: u64)
    ensures
        r == shown_millis(since_epoch),
{
    match since_epoch {
        Some(ms) => millis_u64(ms),
        None => 0,
    }
}

/// The seconds that the port shows for a reading of the clock.
pub fn secs_shown(since_epoch: Option<u64>) -> (r: u64)
    ensures
        r == shown_secs(since_epoch),
{
    match since_epoch {
        Some(secs) => secs,
        None => 0,
    }
}

/// The environment of the process. The library does not reach for the
/// environment itself: a program implements the port on a type of its
/// own.
#[derive(Debug, Clone, Copy)]
pub struct StdEnvAdapter;

} // verus!
