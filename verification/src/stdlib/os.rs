//! Operating-system facts: the path separator and the wall clock.

use vstd::prelude::*;
use std::time::{Duration, SystemTime};

verus! {

/// The wall-clock time type of `std::time`.
#[verifier::external_type_specification]
#[verifier::external_body]
pub struct ExSystemTime(SystemTime);

/// `SystemTime::now` reads the clock; nothing is promised of the value.
pub assume_specification[ SystemTime::now ]() -> SystemTime;

/// `Duration::as_secs` gives the whole seconds of a duration (not stated further).
pub assume_specification[ Duration::as_secs ](d: &Duration) -> u64;

/// `Duration::as_millis` gives the total number of whole milliseconds of a
/// duration. A duration is at most `u64::MAX` whole seconds and a fraction of a
/// second, so that number is at most `u64::MAX * 1000 + 999`; nothing further is
/// stated.
pub assume_specification[ Duration::as_millis ](d: &Duration) -> (r: u128)
    ensures
        r <= u64::MAX * 1000 + 999,
;

/// The time elapsed from `std::time::UNIX_EPOCH` to `now`
/// (`SystemTime::duration_since(UNIX_EPOCH)`), or none when `now` is earlier than
/// the epoch. Which of the two, and the duration, depend on the clock reading and
/// are not stated.
#[verifier::external_body]
fn since_epoch(now: &SystemTime) -> Option<Duration> {
    now.duration_since(std::time::UNIX_EPOCH).ok()
}

/// Reads `std::path::MAIN_SEPARATOR_STR`: `"/"` on Unix, `"\\"` on Windows.
#[verifier::external_body]
fn main_separator() -> (r: &'static str)
    ensures
        r@ == seq!['/'] || r@ == seq!['\\'],
{
    std::path::MAIN_SEPARATOR_STR
}

/// The platform's path separator.
pub fn path_separator() -> (r: &'static str)
    ensures
        r@ == seq!['/'] || r@ == seq!['\\'],
{
    main_separator()
}

/// A reading of whole seconds since the Unix epoch, or 0 for a clock that read
/// earlier than the epoch (`None`).
pub fn secs_or_zero(reading: Option<u64>) -> (r: u64)
    ensures
        r == match reading {
            Some(s) => s,
            None => 0,
        },
{
    match reading {
        Some(s) => s,
        None => 0,
    }
}

/// A reading of whole milliseconds since the Unix epoch, or 0 for a clock that
/// read earlier than the epoch (`None`).
pub fn millis_or_zero(reading: Option<u128>) -> (r: u128)
    ensures
        r == match reading {
            Some(ms) => ms,
            None => 0,
        },
{
    match reading {
        Some(ms) => ms,
        None => 0,
    }
}

/// Seconds since the Unix epoch, or 0 when the clock reads earlier than the
/// epoch: the clock is read, the time since the epoch taken in whole seconds, and
/// `secs_or_zero` decides. The value depends on the clock and is not stated.
pub fn timestamp() -> u64 {
    let now = SystemTime::now();
    let reading = match since_epoch(&now) {
        Some(d) => Some(d.as_secs()),
        None => None,
    };
    secs_or_zero(reading)
}

/// Milliseconds since the Unix epoch, or 0 when the clock reads earlier than the
/// epoch: the clock is read, the time since the epoch taken in whole
/// milliseconds, and `millis_or_zero` decides. The value comes from the clock;
/// what holds of every reading is that it is at most `u64::MAX * 1000 + 999`.
pub fn timestamp_ms() -> (r: u128)
    ensures
        r <= u64::MAX * 1000 + 999,
{
    let now = SystemTime::now();
    let reading = match since_epoch(&now) {
        Some(d) => Some(d.as_millis()),
        None => None,
    };
    millis_or_zero(reading)
}

} // verus!
