use std::time::{Duration, Instant};

use oprs::clock::Timer;

fn new_in_the_past(delay: Duration, past_offset: Duration) -> Timer {
    Timer {
        delay,
        origin: Instant::now().checked_sub(past_offset).unwrap(),
        stop_watch: Duration::ZERO,
        remaining: Some(delay),
    }
}

#[test]
fn set_delay() {
    const SHORT_DELAY_VALUE: u64 = 60;
    const LONG_DELAY_VALUE: u64 = SHORT_DELAY_VALUE * 2;
    let short_delay = Duration::new(SHORT_DELAY_VALUE, 0);
    let long_delay = Duration::new(LONG_DELAY_VALUE, 0);
    // Set delay on expired timer.
    let mut timer1 = Timer::new(short_delay, true);
    assert_eq!(timer1.get_delay(), short_delay);
    timer1.set_delay(long_delay);
    assert_eq!(timer1.get_delay(), long_delay);

    // Set smaller delay
    let mut timer2 = Timer::new(long_delay, false);
    assert!(timer2.remaining().unwrap().as_secs() > SHORT_DELAY_VALUE);
    timer2.set_delay(short_delay);
    assert!(timer2.remaining().unwrap().as_secs() <= SHORT_DELAY_VALUE);

    // Set bigger delay
    let mut timer3 = Timer::new(short_delay, false);
    assert!(timer3.remaining().unwrap().as_secs() <= SHORT_DELAY_VALUE);
    timer3.set_delay(long_delay);
    let secs3 = timer3.remaining().unwrap().as_secs();
    assert!(secs3 > SHORT_DELAY_VALUE);
    assert!(secs3 <= LONG_DELAY_VALUE);
}

#[test]
fn expired_timer() {
    let mut timer1 = Timer::new(Duration::new(60, 0), false);
    assert!(!timer1.expired());
    let mut timer2 = Timer::new(Duration::new(60, 0), true);
    assert!(timer2.expired());
}

#[test]
fn remaining_time() {
    const DELAY_VALUE: u64 = 60;
    let delay = Duration::new(DELAY_VALUE, 0);
    // Non expired timer
    let mut timer1 = Timer::new(delay, false);
    for _ in 0..2 {
        assert!(timer1.remaining().unwrap().as_secs() > DELAY_VALUE / 2); // not expired
    }

    // expired timer
    let mut timer2 = new_in_the_past(delay, delay);
    assert!(timer2.remaining().is_none()); // expired
}

#[test]
fn elapse_counts_down_then_expires() {
    let now = Duration::new(100, 0);
    let mut timer = Timer::new(Duration::new(10, 0), false);
    assert_eq!(timer.elapse(Duration::new(3, 0), now), Some(Duration::new(7, 0)));
    assert_eq!(timer.elapse(Duration::new(7, 0), now), None);
    assert!(timer.expired());
    timer.reset();
    assert_eq!(timer.remaining, Some(Duration::new(10, 0)));
}

#[test]
fn set_delay_on_running_timer_shifts_remaining() {
    let now = Duration::new(100, 0);
    let mut timer = Timer::new(Duration::new(10, 0), false);
    timer.elapse(Duration::new(4, 0), now);
    timer.set_delay(Duration::new(15, 0));
    assert_eq!(timer.remaining, Some(Duration::new(11, 0)));
    timer.set_delay(Duration::new(5, 0));
    assert_eq!(timer.remaining, Some(Duration::new(1, 0)));
    timer.set_delay(Duration::new(1, 0));
    assert_eq!(timer.remaining, None);
}

#[test]
fn set_delay_then_nothing_elapsed_gives_shifted_remaining() {
    let now = Duration::new(100, 0);
    let mut shorter = Timer::new(Duration::new(120, 0), false);
    shorter.set_delay(Duration::new(60, 0));
    assert_eq!(shorter.elapse(Duration::ZERO, now), Some(Duration::new(60, 0)));
    let mut longer = Timer::new(Duration::new(60, 0), false);
    longer.elapse(Duration::new(10, 0), now);
    longer.set_delay(Duration::new(120, 0));
    assert_eq!(longer.elapse(Duration::ZERO, now), Some(Duration::new(110, 0)));
    let mut exact = Timer::new(Duration::new(30, 0), false);
    exact.elapse(Duration::new(10, 0), now);
    exact.set_delay(Duration::new(10, 0));
    assert_eq!(exact.elapse(Duration::ZERO, now), None);
}

#[test]
fn late_expiry_sets_stop_watch_to_the_moment_it_ran_out() {
    let mut timer = Timer::new(Duration::new(10, 0), false);
    assert_eq!(timer.elapse(Duration::new(4, 0), Duration::new(4, 0)), Some(Duration::new(6, 0)));
    assert_eq!(timer.stop_watch, Duration::new(4, 0));
    assert_eq!(timer.elapse(Duration::new(9, 0), Duration::new(13, 0)), None);
    assert_eq!(timer.stop_watch, Duration::new(10, 0));
    let mut early = Timer::new(Duration::new(10, 0), false);
    assert_eq!(early.elapse(Duration::new(30, 0), Duration::new(5, 0)), None);
    assert_eq!(early.stop_watch, Duration::new(5, 0));
}

#[test]
fn remaining_of_timer_started_in_the_past_expires_at_its_deadline() {
    let mut timer = new_in_the_past(Duration::new(5, 0), Duration::new(8, 0));
    assert!(timer.remaining().is_none());
    assert_eq!(timer.stop_watch, Duration::new(5, 0));
}

#[test]
fn reset_after_expiry_counts_from_the_moment_it_ran_out() {
    let mut timer = Timer::new(Duration::new(10, 0), false);
    assert_eq!(timer.elapse(Duration::new(13, 0), Duration::new(13, 0)), None);
    assert_eq!(timer.stop_watch, Duration::new(10, 0));
    timer.reset();
    assert_eq!(timer.elapse(Duration::new(5, 0), Duration::new(15, 0)), Some(Duration::new(5, 0)));
    assert_eq!(timer.stop_watch, Duration::new(15, 0));
}
