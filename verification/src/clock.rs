//! The wall clock.

use std::time::{Duration, SystemTime, SystemTimeError};
use vstd::prelude::*;

verus! {

/// A moment on the wall clock.
#[verifier::external_type_specification]
#[verifier::external_body]
pub struct ExSystemTime(SystemTime);

/// A moment that lies before the one it was measured from.
#[verifier::external_type_specification]
#[verifier::external_body]
pub struct ExSystemTimeError(SystemTimeError);

/// `SystemTime::now`: the present moment. Nothing is claimed of it.
#[verifier::external_body]
fn present() -> SystemTime {
    SystemTime::now()
}

/// `SystemTime::duration_since` from the Unix epoch. Nothing is claimed of the moment's
/// distance.
#[verifier::external_body]
fn since_epoch(moment: SystemTime) -> Result<Duration, SystemTimeError> {
    moment.duration_since(std::time::UNIX_EPOCH)
}

/// `Duration::as_secs`: the whole seconds of a length. How many there are rests with the
/// clock, and nothing is claimed of them.
#[verifier::external_body]
fn whole_seconds(length: &Duration) -> u64 {
    length.as_secs()
}

/// `Duration::subsec_nanos`: the nanoseconds of a length beyond its whole seconds, always
/// less than a second of them.
#[verifier::external_body]
fn nanoseconds_beyond(length: &Duration) -> (nanoseconds: u32)
    ensures
        nanoseconds < 1_000_000_000,
{
    length.subsec_nanos()
}

/// What a clock shows: whole seconds since the Unix epoch and the nanoseconds beyond them.
/// `None` is a clock that stands before the epoch.
pub open spec fn is_reading(reading: Option<(u64, u32)>) -> bool {
    match reading {
        Some((_, nanoseconds)) => nanoseconds < 1_000_000_000,
        None => true,
    }
}

/// The time that a clock shows, in nanoseconds since the Unix epoch. Before the epoch it
/// is zero.
pub open spec fn time_shown(reading: Option<(u64, u32)>) -> int {
    match reading {
        Some((seconds, nanoseconds)) => seconds * 1_000_000_000 + nanoseconds,
        None => 0,
    }
}

/// The time that a clock shows.
pub fn time_of(reading: Option<(u64, u32)>) -> (time: u128)
    ensures
        time == time_shown(reading),
{
    match reading {
        Some((seconds, nanoseconds)) => seconds as u128 * 1_000_000_000 + nanoseconds as u128,
        None => 0,
    }
}

/// Nanoseconds since the Unix epoch; zero where the clock stands before it. The time is
/// one that a clock can show.
pub fn now() -> (time: u128)
    ensures
        exists|reading: Option<(u64, u32)>|
            is_reading(reading) && time == #[trigger] time_shown(reading),
{
    let reading = match since_epoch(present()) {
        Ok(length) => Some((whole_seconds(&length), nanoseconds_beyond(&length))),
        Err(_) => None,
    };
    time_of(reading)
}

/// The seconds and the nanoseconds of a reading can be told from its time.
pub proof fn law_times_tell_their_readings(seconds: u64, nanoseconds: u32)
    requires
        nanoseconds < 1_000_000_000,
    ensures
        time_shown(Some((seconds, nanoseconds))) / 1_000_000_000 == seconds,
        time_shown(Some((seconds, nanoseconds))) % 1_000_000_000 == nanoseconds,
        time_shown(None) == 0,
{
}

} // verus!
