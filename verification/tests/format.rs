use oprs::format::{duration_human, duration_seconds, identity};

#[test]
fn test_duration_seconds() {
    assert_eq!("59.150", duration_seconds(59150));
}

#[test]
fn test_duration_human() {
    let seconds_millis = 1000;
    let minutes_millis = 60 * seconds_millis;
    let hour_millis = 60 * minutes_millis;
    assert_eq!("59s", duration_human(59 * seconds_millis));
    assert_eq!("59s 150ms", duration_human(59150));
    assert_eq!("1m 15s", duration_human(75 * seconds_millis));
    assert_eq!(
        "59m 59s",
        duration_human(59 * minutes_millis + 59 * seconds_millis)
    );
    assert_eq!("3h 5m 10s", duration_human((((3 * 60) + 5) * 60 + 10) * 1000));
    assert_eq!(
        "3h 5m 10s",
        duration_human(3 * hour_millis + 5 * minutes_millis + 10 * seconds_millis)
    );
    assert_eq!(
        "26h 5m",
        duration_human(26 * hour_millis + 5 * minutes_millis + 10 * seconds_millis)
    );
}

#[test]
fn identity_prints_decimal() {
    assert_eq!("0", identity(0));
    assert_eq!("512", identity(512));
    assert_eq!("18446744073709551615", identity(u64::MAX));
}

#[test]
fn duration_edge_cases() {
    assert_eq!("0ms", duration_human(0));
    assert_eq!("999ms", duration_human(999));
    assert_eq!("1s", duration_human(1000));
    assert_eq!("59.005", duration_seconds(59005));
    assert_eq!("0.000", duration_seconds(0));
}
