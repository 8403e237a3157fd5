//! The wall clock, read in whole milliseconds since the Unix epoch.

use std::time::{Duration, SystemTime, UNIX_EPOCH};
use vstd::prelude::*;

verus! {

/// `std::time::SystemTime`: a reading of the system clock.
#[verifier::external_type_specification]
#[verifier::external_body]
pub struct ExSystemTime(SystemTime);

/// What `SystemTime::duration_since` returns for a reading and `UNIX_EPOCH`:
/// the time from the epoch to the reading, `None` where the reading stands
/// before the epoch.
pub uninterp spec fn epoch_offset(t: SystemTime) -> Option<Duration>;

/// What `Duration::as_millis` returns: the whole milliseconds of a duration.
pub uninterp spec fn duration_millis(d: Duration) -> u128;

/// `SystemTime::now`: the reading of the system clock. Nothing is claimed of
/// it: two readings may differ in either direction.
#[verifier::external_body]
fn system_now() -> (t: SystemTime) {
    SystemTime::now()
}

/// `SystemTime::duration_since` with `UNIX_EPOCH`: the time that has passed
/// since the epoch, `None` where the clock stands before it.
#[verifier::external_body]
fn since_epoch(t: &SystemTime) -> (d: Option<Duration>)
    ensures
        d == epoch_offset(*t),
{
    t.duration_since(UNIX_EPOCH).ok()
}

/// `Duration::as_millis`: the whole milliseconds of a duration.
#[verifier::external_body]
fn whole_millis(d: &Duration) -> (ms: u128)
    ensures
        ms == duration_millis(*d),
{
    d.as_millis()
}

/// The whole milliseconds from the epoch to a reading of the clock, `None`
/// where the reading stands before the epoch.
pub open spec fn offset_millis(t: SystemTime) -> Option<u128> {
    match epoch_offset(t) {
        Some(d) => Some(duration_millis(d)),
        None => None,
    }
}

/// The time of day that the gateway works with, for a clock that stands
/// `offset` milliseconds after the epoch: the milliseconds themselves, 0
/// where the clock stands before the epoch, and `u64::MAX` where the
/// milliseconds do not fit.
pub open spec fn epoch_millis(offset: Option<u128>) -> u64 {
    match offset {
        Some(ms) => if ms > u64::MAX {
            u64::MAX
        } else {
            ms as u64
        },
        None => 0,
    }
}

/// The milliseconds since the Unix epoch as the system clock gives them: 0
/// where the clock stands before the epoch, `u64::MAX` where the number does
/// not fit. Which reading the clock gives is the clock's; the result is the
/// time of that reading.
pub(crate) fn unix_millis() -> (ms: u64)
    ensures
        exists|t: SystemTime| ms == epoch_millis(#[trigger] offset_millis(t)),
{
    let now = system_now();
    let offset = match since_epoch(&now) {
        Some(d) => Some(whole_millis(&d)),
        None => None,
    };
    let ms = millis_of(offset);
    assert(ms == epoch_millis(offset_millis(now)));
    ms
}

/// The time of day for a clock that stands `offset` milliseconds after the
/// epoch: see [`epoch_millis`].
pub fn millis_of(offset: Option<u128>) -> (ms: u64)
    ensures
        ms == epoch_millis(offset),
{
    match offset {
        Some(ms) => {
            if ms > u64::MAX as u128 {
                u64::MAX
            } else {
                ms as u64
            }
        },
        None => 0,
    }
}

} // verus!
