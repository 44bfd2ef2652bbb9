//! The wall clock, read in milliseconds since the epoch.

use std::time::{Duration, SystemTime, SystemTimeError, UNIX_EPOCH};
use vstd::prelude::*;

verus! {

#[verifier::external_type_specification]
#[verifier::external_body]
pub struct ExSystemTime(SystemTime);

#[verifier::external_type_specification]
#[verifier::external_body]
pub struct ExSystemTimeError(SystemTimeError);

/// `SystemTime::now`: what the system clock shows at the call. Nothing is
/// claimed of the value; two calls may give any two times.
#[verifier::external_body]
fn system_now() -> SystemTime {
    SystemTime::now()
}

/// `SystemTime::duration_since` with the epoch as the earlier time: how long
/// after the epoch `time` lies, or an error where it lies before. Nothing is
/// claimed of which of the two comes back.
#[verifier::external_body]
fn since_epoch(time: &SystemTime) -> Result<Duration, SystemTimeError> {
    time.duration_since(UNIX_EPOCH)
}

/// `Duration::as_millis`: the whole milliseconds in `span`. The span is
/// opaque here, so nothing is claimed of the number.
#[verifier::external_body]
fn whole_millis(span: &Duration) -> u128 {
    span.as_millis()
}

/// The time that a reading of the clock stands for, in milliseconds since
/// the epoch. The reading holds the whole milliseconds since the epoch, or
/// nothing where the clock shows a time before it. A time before the epoch
/// counts as the epoch itself, and one beyond what 64 bits hold as the
/// largest time there is.
pub open spec fn millis_of(reading: Option<u128>) -> u64 {
    match reading {
        Some(millis) => if millis > u64::MAX {
            u64::MAX
        } else {
            millis as u64
        },
        None => 0,
    }
}

/// Turns a reading of the clock into a time.
pub fn time_of_reading(reading: Option<u128>) -> (now: u64)
    ensures
        now == millis_of(reading),
{
    match reading {
        Some(millis) => {
            if millis > u64::MAX as u128 {
                u64::MAX
            } else {
                millis as u64
            }
        },
        None => 0,
    }
}

/// The time now, in milliseconds since the epoch: what `time_of_reading`
/// makes of the clock's reading. Nothing is known of the reading, so nothing
/// is promised of the time.
pub(crate) fn now_millis() -> u64 {
    let time = system_now();
    let reading = match since_epoch(&time) {
        Ok(span) => Some(whole_millis(&span)),
        Err(_) => None,
    };
    time_of_reading(reading)
}

} // verus!
