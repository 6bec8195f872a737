use std::time::Duration;

use oprs::process::format::{human_duration, human_milliseconds, identity, seconds};

#[test]
fn test_seconds() {
    assert_eq!("59.150", seconds(59150));
}

#[test]
fn test_human_milliseconds() {
    let seconds_millis = 1000;
    let minutes_millis = 60 * seconds_millis;
    let hour_millis = 60 * minutes_millis;
    assert_eq!("59s", human_milliseconds(59 * seconds_millis));
    assert_eq!("59s 150ms", human_milliseconds(59150));
    assert_eq!("1m 15s", human_milliseconds(75 * seconds_millis));
    assert_eq!("59m 59s", human_milliseconds(59 * minutes_millis + 59 * seconds_millis));
    assert_eq!("3h 5m 10s", human_milliseconds((((3 * 60) + 5) * 60 + 10) * 1000));
    assert_eq!(
        "3h 5m 10s",
        human_milliseconds(3 * hour_millis + 5 * minutes_millis + 10 * seconds_millis)
    );
    assert_eq!(
        "26h 5m",
        human_milliseconds(26 * hour_millis + 5 * minutes_millis + 10 * seconds_millis)
    );
}

#[test]
fn human_duration_truncates_to_milliseconds() {
    assert_eq!("1m 15s", human_duration(Duration::new(75, 999_999)));
    assert_eq!("2s 5ms", human_duration(Duration::new(2, 5_400_000)));
    assert_eq!("0ms", human_duration(Duration::new(0, 0)));
}

#[test]
fn process_identity_prints_decimal() {
    assert_eq!("18446744073709551615", identity(u64::MAX));
}

#[test]
fn human_duration_when_it_fits() {
    assert_eq!(Some("2s 500ms".to_string()), oprs::process::format::try_human_duration(std::time::Duration::from_millis(2500)));
    assert_eq!(None, oprs::process::format::try_human_duration(std::time::Duration::MAX));
}
