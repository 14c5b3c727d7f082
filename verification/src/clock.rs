//! The wall clock, read through std.

use vstd::prelude::*;
use std::time::{Duration, UNIX_EPOCH};

verus! {

/// The whole seconds of a duration.
pub uninterp spec fn whole_seconds(d: Duration) -> u64;

/// `SystemTime::elapsed` on the Unix epoch: the time since the epoch, or
/// nothing when the clock reads earlier than the epoch.  What it returns
/// depends on the clock, so nothing is stated of it.
#[verifier::external_body]
fn time_since_epoch() -> Option<Duration> {
    UNIX_EPOCH.elapsed().ok()
}

/// `Duration::as_secs`: the whole seconds of `d`, named by `whole_seconds`.
#[verifier::external_body]
fn duration_as_secs(d: Duration) -> (s: u64)
    ensures
        s == whole_seconds(d),
{
    d.as_secs()
}

/// The whole seconds that a reading of the clock stands for: those of the
/// time since the epoch, or 0 when the clock read earlier than the epoch.
pub open spec fn seconds_of(elapsed: Option<Duration>) -> u64 {
    match elapsed {
        Some(d) => whole_seconds(d),
        None => 0,
    }
}

/// The whole seconds that the reading `elapsed` of the clock stands for.
fn seconds_since_epoch(elapsed: Option<Duration>) -> (s: u64)
    ensures
        s == seconds_of(elapsed),
{
    match elapsed {
        Some(d) => duration_as_secs(d),
        None => 0,
    }
}

/// The current time in whole seconds since the Unix epoch, or 0 when the
/// clock reads earlier than the epoch.  Which reading the clock gives is not
/// known here: the result is what some reading stands for.
pub(crate) fn unix_time_now() -> (s: u64)
    ensures
        exists|elapsed: Option<Duration>| s == #[trigger] seconds_of(elapsed),
{
    let elapsed = time_since_epoch();
    let s = seconds_since_epoch(elapsed);
    assert(s == seconds_of(elapsed));
    s
}

} // verus!
