//! The wall clock, in whole seconds since the Unix epoch.

use vstd::prelude::*;

verus! {

/// Declares `std::time::SystemTime`, a value of which is carried through
/// and never looked into.
#[verifier::external_type_specification]
#[verifier::external_body]
pub struct ExSystemTime(std::time::SystemTime);

/// Calls `SystemTime::now`.
/// Nothing is claimed of the result: it is the time of the call.
#[verifier::external_body]
fn system_now() -> std::time::SystemTime {
    std::time::SystemTime::now()
}

/// Calls `SystemTime::duration_since` with `UNIX_EPOCH`.
/// Nothing is claimed of the result; it is `None` for a time before the
/// epoch.
#[verifier::external_body]
fn since_epoch(time: &std::time::SystemTime) -> Option<std::time::Duration> {
    time.duration_since(std::time::UNIX_EPOCH).ok()
}

/// Calls `Duration::as_secs`.
/// Nothing is claimed of the result.
#[verifier::external_body]
fn whole_seconds(span: &std::time::Duration) -> u64 {
    span.as_secs()
}

/// The time now, in whole seconds since the Unix epoch; `None` where the
/// clock stands before the epoch or beyond what 64 bits with a sign hold.
pub fn unix_now() -> (now: Option<i64>)
    ensures
        now matches Some(seconds) ==> seconds >= 0,
{
    let time = system_now();
    match since_epoch(&time) {
        Some(span) => signed_seconds(whole_seconds(&span)),
        None => None,
    }
}

/// A count of seconds as a signed number, where 64 bits with a sign hold it.
pub open spec fn signed_seconds_of(seconds: u64) -> Option<i64> {
    if seconds <= i64::MAX {
        Some(seconds as i64)
    } else {
        None
    }
}

/// What the clock's count of seconds since the epoch makes as a time: the
/// same number with a sign, or `None` where it is beyond what 64 bits with a
/// sign hold.
pub fn signed_seconds(seconds: u64) -> (signed: Option<i64>)
    ensures
        signed == signed_seconds_of(seconds),
{
    if seconds <= i64::MAX as u64 {
        Some(seconds as i64)
    } else {
        None
    }
}

} // verus!
