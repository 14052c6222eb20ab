//! When a snapshot was taken, as the snapshot spells it: whole seconds since
//! the unix epoch.

use std::time::{Duration, SystemTime, UNIX_EPOCH};

use vstd::prelude::*;

use crate::settings::{seconds_of, whole_seconds};

verus! {

/// The standard library's wall-clock time.
#[verifier::external_type_specification]
#[verifier::external_body]
pub struct ExSystemTime(SystemTime);

/// The wall clock now, by `SystemTime::now`. Nothing is claimed of it: it is
/// whatever the machine's clock says.
#[verifier::external_body]
fn clock_now() -> (r: SystemTime) {
    SystemTime::now()
}

/// What the standard library's `SystemTime::duration_since(UNIX_EPOCH)`
/// gives for a time: how long after the epoch it is, or `None` (its error)
/// for a time before it.
pub uninterp spec fn since_epoch_of(time: SystemTime) -> Option<Duration>;

/// How long after the unix epoch `time` is, by `SystemTime::duration_since`,
/// or `None` for a time before it. The contract names the result and says
/// nothing more of it.
#[verifier::external_body]
fn since_unix_epoch(time: SystemTime) -> (r: Option<Duration>)
    ensures
        r == since_epoch_of(time),
{
    time.duration_since(UNIX_EPOCH).ok()
}

/// A timestamp from a reading of the clock: its whole seconds since the
/// epoch, and zero for a clock set before 1970, which is not worth an error
/// type — it reads as a very old snapshot.
pub open spec fn timestamp_of(seconds_since_epoch: Option<u64>) -> i64 {
    match seconds_since_epoch {
        Some(seconds) => seconds as i64,
        None => 0,
    }
}

/// The timestamp for a clock reading of `seconds_since_epoch`.
pub fn unix_timestamp(seconds_since_epoch: Option<u64>) -> (r: i64)
    ensures
        r == timestamp_of(seconds_since_epoch),
{
    match seconds_since_epoch {
        Some(seconds) => seconds as i64,
        None => 0,
    }
}

/// The timestamp a reading of the clock gives: the whole seconds of its
/// distance from the epoch, or zero for a time before it.
pub open spec fn timestamp_at(time: SystemTime) -> i64 {
    timestamp_of(
        match since_epoch_of(time) {
            Some(since) => Some(seconds_of(since)),
            None => None,
        },
    )
}

/// Seconds since the unix epoch, now. Which time the clock reads is the
/// machine's business; what is promised is that the answer is that time's
/// whole seconds since the epoch, or zero for a clock set before it.
pub fn now_unix() -> (r: i64)
    ensures
        exists|time: SystemTime| r == #[trigger] timestamp_at(time),
{
    let now = clock_now();
    let reading = match since_unix_epoch(now) {
        Some(since) => Some(whole_seconds(since)),
        None => None,
    };
    let r = unix_timestamp(reading);
    assert(r == timestamp_at(now));
    r
}

} // verus!
