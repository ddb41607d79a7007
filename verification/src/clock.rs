//! The wall clock.

use std::time::{Duration, SystemTime, SystemTimeError};

use vstd::prelude::*;

verus! {

/// `std::time::SystemTime`, opaque here.
#[verifier::external_type_specification]
#[verifier::external_body]
pub struct ExSystemTime(SystemTime);

/// `std::time::SystemTimeError`, opaque here.
#[verifier::external_type_specification]
#[verifier::external_body]
pub struct ExSystemTimeError(SystemTimeError);

/// The time since the Unix epoch, or the error of a time before it.
pub uninterp spec fn unix_time_of(time: SystemTime) -> Result<Duration, SystemTimeError>;

/// The whole milliseconds of a duration.
pub uninterp spec fn millis_of(duration: Duration) -> u128;

/// The words for the error of a time before the Unix epoch.
pub uninterp spec fn time_error_of(error: SystemTimeError) -> Seq<char>;

/// Calls `SystemTime::now`. Nothing is promised of what the clock shows.
#[verifier::external_body]
fn system_now() -> (r: SystemTime)
{
    SystemTime::now()
}

/// Calls `SystemTime::duration_since` for the Unix epoch. The result depends on the time alone.
#[verifier::external_body]
fn since_epoch(time: SystemTime) -> (r: Result<Duration, SystemTimeError>)
    ensures
        r == unix_time_of(time),
{
    time.duration_since(std::time::UNIX_EPOCH)
}

/// Calls `Duration::as_millis`. The result depends on the duration alone.
#[verifier::external_body]
fn as_millis(duration: &Duration) -> (r: u128)
    ensures
        r == millis_of(*duration),
{
    duration.as_millis()
}

/// The whole seconds of a duration.
pub uninterp spec fn secs_of(duration: Duration) -> u64;

/// Calls `Duration::as_secs`. The result depends on the duration alone.
#[verifier::external_body]
fn as_secs(duration: &Duration) -> (r: u64)
    ensures
        r == secs_of(*duration),
{
    duration.as_secs()
}

/// Calls `to_string` on a `SystemTimeError`. The words depend on the error alone.
#[verifier::external_body]
fn time_error(error: &SystemTimeError) -> (r: String)
    ensures
        r@ == time_error_of(*error),
{
    error.to_string()
}

/// The milliseconds since the Unix epoch at a time, as far as 64 bits hold them, or the words for a
/// time before the epoch.
pub open spec fn epoch_ms_of(time: SystemTime) -> Result<u64, Seq<char>> {
    match unix_time_of(time) {
        Ok(duration) => Ok(millis_of(duration) as u64),
        Err(error) => Err(time_error_of(error)),
    }
}

/// The milliseconds since the Unix epoch now. The clock may show any time.
pub fn epoch_ms() -> (r: Result<u64, String>)
    ensures
        exists|time: SystemTime|
            match #[trigger] epoch_ms_of(time) {
                Ok(ms) => r == Ok::<u64, String>(ms),
                Err(words) => r matches Err(text) && text@ == words,
            },
{
    let time = system_now();
    let ghost shown = epoch_ms_of(time);
    match since_epoch(time) {
        Ok(duration) => Ok(#[verifier::truncate] (as_millis(&duration) as u64)),
        Err(error) => Err(time_error(&error)),
    }
}

/// The seconds since the Unix epoch at a time, zero before it.
pub open spec fn epoch_seconds_of(time: SystemTime) -> u64 {
    match unix_time_of(time) {
        Ok(duration) => secs_of(duration),
        Err(_) => 0,
    }
}

/// The seconds since the Unix epoch now, zero before it. The clock may show any time.
pub fn unix_seconds() -> (r: u64)
    ensures
        exists|time: SystemTime| r == #[trigger] epoch_seconds_of(time),
{
    let time = system_now();
    let ghost shown = epoch_seconds_of(time);
    match since_epoch(time) {
        Ok(duration) => as_secs(&duration),
        Err(_) => 0,
    }
}

/// The milliseconds since the Unix epoch at a time, zero before it.
pub open spec fn timestamp_of(time: SystemTime) -> u128 {
    match unix_time_of(time) {
        Ok(duration) => millis_of(duration),
        Err(_) => 0,
    }
}

/// The milliseconds since the Unix epoch now, zero before it. The clock may show any time.
pub fn timestamp_ms() -> (r: u128)
    ensures
        exists|time: SystemTime| r == #[trigger] timestamp_of(time),
{
    let time = system_now();
    let ghost shown = timestamp_of(time);
    match since_epoch(time) {
        Ok(duration) => as_millis(&duration),
        Err(_) => 0,
    }
}

/// A time before the epoch has no milliseconds and counts as zero elsewhere; from the epoch on,
/// each reading is the time since then, in the unit it is named for.
pub proof fn law_readings(time: SystemTime)
    ensures
        epoch_ms_of(time) is Err <==> unix_time_of(time) is Err,
        unix_time_of(time) is Err ==> epoch_seconds_of(time) == 0 && timestamp_of(time) == 0,
        unix_time_of(time) matches Ok(since) ==> timestamp_of(time) == millis_of(since)
            && epoch_seconds_of(time) == secs_of(since) && (millis_of(since) <= u64::MAX
            ==> epoch_ms_of(time) == Ok::<u64, Seq<char>>(timestamp_of(time) as u64)),
{
}

}
