//! Formatting of process metric values that are counts or durations.

use std::time::Duration;
use vstd::prelude::*;
use crate::clock::{as_nanos, duration_nanos};
use crate::format::{duration_human, duration_seconds, spec_duration_human, spec_duration_seconds};
use crate::strings::decimal;

verus! {

/// Value unchanged
pub fn identity(value: u64) -> (s: String)
    ensures
        s@ == decimal(value as nat),
{
    crate::format::identity(value)
}

/// Number of seconds and fraction of milliseconds
pub fn seconds(millis: u64) -> (s: String)
    ensures
        s@ == spec_duration_seconds(millis as nat),
{
    duration_seconds(millis)
}

/// Number of milliseconds formatted in human readable format (hms).
pub fn human_milliseconds(millis: u64) -> (s: String)
    ensures
        s@ == spec_duration_human(millis as nat),
{
    duration_human(millis)
}

/// Duration in human readable format, to the millisecond.
pub fn human_duration(duration: Duration) -> (s: String)
    requires
        duration_nanos(duration) / 1_000_000 <= u64::MAX,
    ensures
        s@ == spec_duration_human((duration_nanos(duration) / 1_000_000) as nat),
{
    let nanos = as_nanos(duration);
    let ms = (nanos / 1_000_000) as u64;
    duration_human(ms)
}

/// Duration in human readable format, to the millisecond, when its number
/// of milliseconds fits in 64 bits.
pub fn try_human_duration(duration: Duration) -> (r: Option<String>)
    ensures
        match r {
            Some(s) => duration_nanos(duration) / 1_000_000 <= u64::MAX
                && s@ == spec_duration_human((duration_nanos(duration) / 1_000_000) as nat),
            None => duration_nanos(duration) / 1_000_000 > u64::MAX,
        },
{
    let nanos = as_nanos(duration);
    if nanos / 1_000_000 <= u64::MAX as u128 {
        Some(human_duration(duration))
    } else {
        None
    }
}

} // verus!
