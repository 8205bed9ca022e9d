use rust_server::clock::{Timestamp, MAX_CLOCK_SECS, WEEK_SECS};

#[test]
fn week_and_clock_limits() {
    assert_eq!(WEEK_SECS, 604_800);
    assert_eq!(MAX_CLOCK_SECS, 8_210_266_876_799);
    assert_eq!(
        chrono::DateTime::<chrono::Utc>::MAX_UTC.timestamp(),
        MAX_CLOCK_SECS
    );
}

#[test]
fn later_time_is_after() {
    let a = Timestamp { secs: 10, nanos: 5 };
    assert!(Timestamp { secs: 11, nanos: 0 }.is_after(&a));
    assert!(Timestamp { secs: 10, nanos: 6 }.is_after(&a));
    assert!(!Timestamp { secs: 10, nanos: 5 }.is_after(&a));
    assert!(!Timestamp { secs: 10, nanos: 4 }.is_after(&a));
    assert!(!Timestamp { secs: 9, nanos: 999 }.is_after(&a));
    assert!(Timestamp { secs: 0, nanos: 0 }.is_after(&Timestamp { secs: -1, nanos: 999_999_999 }));
}

#[test]
fn seconds_are_added() {
    let a = Timestamp { secs: 10, nanos: 5 };
    assert_eq!(a.plus_seconds(WEEK_SECS), Timestamp { secs: 604_810, nanos: 5 });
    assert_eq!(a.plus_seconds(-20), Timestamp { secs: -10, nanos: 5 });
    assert_eq!(a.plus_seconds(0), a);
}
