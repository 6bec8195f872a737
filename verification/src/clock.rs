//! Countdown timer that keeps a constant rhythm.
//!
//! Durations are reasoned about through their total number of nanoseconds.
//! What the clock reads is never known in advance: the timer logic is a
//! verified function of the elapsed time, and the functions that read the
//! clock only promise what holds whatever it said.

use std::time::{Duration, Instant};
use vstd::prelude::*;

verus! {

#[verifier::external_type_specification]
#[verifier::external_body]
pub struct ExInstant(Instant);

/// Total number of whole nanoseconds of a duration, as `Duration::as_nanos`
/// returns it.
pub uninterp spec fn duration_nanos(d: Duration) -> u128;

/// Largest number of nanoseconds a duration holds: `u64::MAX` seconds and
/// 999_999_999 nanoseconds.
pub open spec fn max_duration_nanos() -> int {
    18_446_744_073_709_551_615int * 1_000_000_000 + 999_999_999
}

/// `Duration::as_nanos`: the total number of nanoseconds, which never exceeds
/// what `u64` seconds and sub-second nanoseconds can hold.
#[verifier::external_body]
pub(crate) fn as_nanos(d: Duration) -> (n: u128)
    ensures
        n == duration_nanos(d),
        n <= max_duration_nanos(),
{
    d.as_nanos()
}

/// `Duration::checked_add`: the sum, or `None` when it does not fit.
#[verifier::external_body]
fn duration_checked_add(a: Duration, b: Duration) -> (r: Option<Duration>)
    ensures
        match r {
            Some(c) => duration_nanos(c) == duration_nanos(a) + duration_nanos(b)
                && duration_nanos(c) <= max_duration_nanos(),
            None => duration_nanos(a) + duration_nanos(b) > max_duration_nanos(),
        },
{
    a.checked_add(b)
}

/// `Duration::checked_sub`: the difference, or `None` when it would be
/// negative.
#[verifier::external_body]
pub(crate) fn duration_checked_sub(a: Duration, b: Duration) -> (r: Option<Duration>)
    ensures
        match r {
            Some(c) => duration_nanos(c) == duration_nanos(a) - duration_nanos(b)
                && duration_nanos(c) <= max_duration_nanos(),
            None => duration_nanos(a) < duration_nanos(b),
        },
{
    a.checked_sub(b)
}

/// `Duration::checked_mul`: the product, or `None` when it does not fit.
#[verifier::external_body]
pub(crate) fn duration_checked_mul(d: Duration, factor: u32) -> (r: Option<Duration>)
    ensures
        match r {
            Some(c) => duration_nanos(c) == duration_nanos(d) * factor
                && duration_nanos(c) <= max_duration_nanos(),
            None => duration_nanos(d) * factor > max_duration_nanos(),
        },
{
    d.checked_mul(factor)
}

/// `Duration::checked_div`: the duration divided by the divisor, down to
/// the nanosecond, or `None` for a null divisor.
#[verifier::external_body]
pub(crate) fn duration_checked_div(d: Duration, divisor: u32) -> (r: Option<Duration>)
    ensures
        match r {
            Some(c) => divisor != 0 && duration_nanos(c) == (duration_nanos(d) as int) / (divisor as int),
            None => divisor == 0,
        },
{
    d.checked_div(divisor)
}

/// `Instant::now`: the current time; nothing is known of it.
#[verifier::external_body]
fn instant_now() -> Instant {
    Instant::now()
}

/// `Instant::elapsed`: the time since an instant; nothing is known of it.
#[verifier::external_body]
fn instant_elapsed(i: &Instant) -> Duration {
    i.elapsed()
}

/// `Duration::ZERO`: no time at all.
#[verifier::external_body]
fn zero_duration() -> (d: Duration)
    ensures
        duration_nanos(d) == 0,
{
    Duration::ZERO
}

/// Timer that expires at a constant rhythm.
///
/// Times are measured from the origin, the moment the timer was created. The
/// stop watch records when the remaining time was last updated, or when the
/// timer ran out; it is used to correct the remaining time.
pub struct Timer {
    pub delay: Duration,
    pub origin: Instant,
    pub stop_watch: Duration,
    pub remaining: Option<Duration>,
}

/// Remaining time after the delay of a timer changes from `old_delay` to
/// `new_delay`: `None` when the timer had expired, when the remaining time
/// would be negative, or when it would overflow.
pub open spec fn remaining_after_delay_change(remaining: Option<int>, old_delay: int, new_delay: int) -> Option<int> {
    match remaining {
        None => None,
        Some(r) => {
            let n = r + new_delay - old_delay;
            if n < 0 || n > max_duration_nanos() {
                None
            } else {
                Some(n)
            }
        },
    }
}

/// Remaining time of a timer after `elapsed` nanoseconds are counted off:
/// `None` once it runs out, or if it had already expired.
pub open spec fn elapsed_remaining(remaining: Option<int>, elapsed: int) -> Option<int> {
    match remaining {
        None => None,
        Some(r) => if elapsed < r { Some(r - elapsed) } else { None },
    }
}

/// The number of nanoseconds of an optional duration.
pub open spec fn opt_nanos(d: Option<Duration>) -> Option<int> {
    match d {
        Some(d) => Some(duration_nanos(d) as int),
        None => None,
    }
}

impl Timer {
    /// Create a new timer, already expired if `expired` is true.
    pub fn new(delay: Duration, expired: bool) -> (t: Timer)
        ensures
            t.delay == delay,
            duration_nanos(t.stop_watch) == 0,
            t.remaining == (if expired { None } else { Some(delay) }),
    {
        Timer { delay, origin: instant_now(), stop_watch: zero_duration(), remaining: if expired { None } else { Some(delay) } }
    }

    /// Delay before the timer expires.
    pub fn get_delay(&self) -> (d: Duration)
        ensures
            d == self.delay,
    {
        self.delay
    }

    /// Change the delay of the timer. If it hasn't already expired, adjust
    /// the remaining time by the difference.
    pub fn set_delay(&mut self, delay: Duration)
        ensures
            final(self).delay == delay,
            final(self).stop_watch == old(self).stop_watch,
            opt_nanos(final(self).remaining) == remaining_after_delay_change(
                opt_nanos(old(self).remaining),
                duration_nanos(old(self).delay) as int,
                duration_nanos(delay) as int,
            ),
    {
        if let Some(remaining) = self.remaining {
            let new_nanos = as_nanos(delay);
            let old_nanos = as_nanos(self.delay);
            self.remaining = if new_nanos >= old_nanos {
                match duration_checked_sub(delay, self.delay) {
                    Some(increase) => duration_checked_add(remaining, increase),
                    None => None,
                }
            } else {
                match duration_checked_sub(self.delay, delay) {
                    Some(decrease) => duration_checked_sub(remaining, decrease),
                    None => None,
                }
            };
        }
        self.delay = delay;
    }

    /// Check if the timer has expired.
    pub fn expired(&mut self) -> (b: bool)
        ensures
            b == final(self).remaining.is_none(),
            final(self).delay == old(self).delay,
            final(self).origin == old(self).origin,
            old(self).remaining.is_none() ==> *final(self) == *old(self),
            duration_nanos(final(self).stop_watch) >= duration_nanos(old(self).stop_watch),
            opt_nanos(final(self).remaining) == elapsed_remaining(
                opt_nanos(old(self).remaining),
                duration_nanos(final(self).stop_watch) - duration_nanos(old(self).stop_watch),
            ),
            match (opt_nanos(old(self).remaining), final(self).remaining) {
                (Some(before), None) => duration_nanos(final(self).stop_watch) == duration_nanos(old(self).stop_watch) + before,
                _ => true,
            },
    {
        self.remaining().is_none()
    }

    /// Reset the timer to its full delay.
    ///
    /// The reference is not the current time but the last time the timer
    /// was updated.
    pub fn reset(&mut self)
        ensures
            final(self).delay == old(self).delay,
            final(self).stop_watch == old(self).stop_watch,
            final(self).remaining == Some(old(self).delay),
    {
        self.remaining = Some(self.delay);
    }

    /// Count `elapsed` off the remaining time, `now` being the time since the
    /// origin at which it was measured.
    ///
    /// The stop watch goes to `now`; when the remaining time ran out before,
    /// it goes back to the moment it ran out, if that is not before the
    /// origin.
    pub fn elapse(&mut self, elapsed: Duration, now: Duration) -> (r: Option<Duration>)
        ensures
            r == final(self).remaining,
            final(self).delay == old(self).delay,
            final(self).origin == old(self).origin,
            opt_nanos(final(self).remaining) == elapsed_remaining(opt_nanos(old(self).remaining), duration_nanos(elapsed) as int),
            match opt_nanos(old(self).remaining) {
                None => *final(self) == *old(self),
                Some(before) => {
                    let e = duration_nanos(elapsed) as int;
                    let n = duration_nanos(now) as int;
                    &&& opt_nanos(final(self).remaining) == (if e < before { Some(before - e) } else { None })
                    &&& e <= before ==> final(self).stop_watch == now
                    &&& e > before && e - before <= n ==> duration_nanos(final(self).stop_watch) == n - (e - before)
                    &&& e > before && e - before > n ==> final(self).stop_watch == now
                },
            },
    {
        if let Some(remaining) = self.remaining {
            let r = as_nanos(remaining);
            let e = as_nanos(elapsed);
            if r == e {
                self.remaining = None;
                self.stop_watch = now;
            } else {
                match duration_checked_sub(remaining, elapsed) {
                    Some(left) => {
                        self.remaining = Some(left);
                        self.stop_watch = now;
                    },
                    None => {
                        self.remaining = None;
                        self.stop_watch = match duration_checked_sub(elapsed, remaining) {
                            Some(late) => match duration_checked_sub(now, late) {
                                Some(start) => start,
                                None => now,
                            },
                            None => now,
                        };
                    },
                }
            }
        }
        self.remaining
    }

    /// Return the remaining time, or `None` if the timer has expired.
    ///
    /// The time is read from the clock, so it is not known how much of it
    /// went by; what is stated holds whatever the clock said. The stop watch
    /// moves forward, and the remaining time is what was left less the time
    /// by which it moved: the timer counts from the last time it was updated.
    /// When the timer runs out, the stop watch stops at the moment it did,
    /// the former stop watch plus the time that was left, so the next period
    /// after a reset counts from that moment.
    pub fn remaining(&mut self) -> (r: Option<Duration>)
        ensures
            r == final(self).remaining,
            final(self).delay == old(self).delay,
            final(self).origin == old(self).origin,
            old(self).remaining.is_none() ==> *final(self) == *old(self),
            duration_nanos(final(self).stop_watch) >= duration_nanos(old(self).stop_watch),
            opt_nanos(final(self).remaining) == elapsed_remaining(
                opt_nanos(old(self).remaining),
                duration_nanos(final(self).stop_watch) - duration_nanos(old(self).stop_watch),
            ),
            match (opt_nanos(old(self).remaining), final(self).remaining) {
                (Some(before), None) => duration_nanos(final(self).stop_watch) == duration_nanos(old(self).stop_watch) + before,
                _ => true,
            },
    {
        if self.remaining.is_some() {
            let reading = instant_elapsed(&self.origin);
            let now = if as_nanos(reading) < as_nanos(self.stop_watch) { self.stop_watch } else { reading };
            let elapsed = match duration_checked_sub(now, self.stop_watch) {
                Some(e) => e,
                None => zero_duration(),
            };
            self.elapse(elapsed, now)
        } else {
            None
        }
    }
}

/// Changing the delay of a timer from `old_delay` to `new_delay` and then
/// counting off `elapsed` nanoseconds leaves the former remaining time,
/// plus the change in delay, minus the elapsed time; the timer has expired
/// when that is not positive, when the shifted time is negative or does not
/// fit, or when it had expired before. With nothing elapsed, the remaining
/// time read right after the change is the former one shifted by the
/// change in delay.
pub proof fn law_set_delay_shifts_remaining(remaining: Option<int>, old_delay: int, new_delay: int, elapsed: int)
    requires
        0 <= old_delay <= max_duration_nanos(),
        0 <= new_delay <= max_duration_nanos(),
        0 <= elapsed,
        remaining matches Some(r) ==> 0 <= r <= max_duration_nanos(),
    ensures
        elapsed_remaining(remaining_after_delay_change(remaining, old_delay, new_delay), elapsed) == match remaining {
            None => None,
            Some(r) => {
                let shifted = r + new_delay - old_delay;
                if shifted < 0 || shifted > max_duration_nanos() || shifted <= elapsed {
                    None
                } else {
                    Some(shifted - elapsed)
                }
            },
        },
{
}

/// A timer keeps a steady rhythm: once it has run out, with its stop watch
/// at the moment `expiry` it did, and has been reset to its `delay`, the
/// next reading that moves the stop watch to `later` leaves the delay less
/// the time since the expiry, not since the reset; the timer has run out
/// again once that time reaches the delay.
pub proof fn law_reset_counts_from_expiry(delay: int, expiry: int, later: int)
    requires
        0 <= delay,
        expiry <= later,
    ensures
        elapsed_remaining(Some(delay), later - expiry) == if later - expiry >= delay {
            None
        } else {
            Some(delay - (later - expiry))
        },
{
}

/// Changing the delay of a running timer to `d` and back to its former
/// delay gives back the remaining time, as long as it never ran out or
/// overflowed on the way.
pub proof fn law_set_delay_round_trip(remaining: int, delay: int, d: int)
    requires
        0 <= remaining <= max_duration_nanos(),
        0 <= delay <= max_duration_nanos(),
        0 <= d <= max_duration_nanos(),
        0 <= remaining + d - delay <= max_duration_nanos(),
    ensures
        remaining_after_delay_change(
            remaining_after_delay_change(Some(remaining), delay, d),
            d,
            delay,
        ) == Some(remaining),
{
}

} // verus!
