use memguard::clock::{format_ts, FIRST_MILLIS, LAST_MILLIS};

#[test]
fn time_of_day_in_utc() {
    assert_eq!(format_ts(0), "00:00:00");
    assert_eq!(format_ts(947638923004), "01:02:03");
    assert_eq!(format_ts(86_399_999), "23:59:59");
    assert_eq!(format_ts(86_400_000), "00:00:00");
}

#[test]
fn last_date_has_a_time_and_the_next_has_none() {
    assert_eq!(format_ts(LAST_MILLIS as u64), "23:59:59");
    assert_eq!(format_ts(LAST_MILLIS as u64 + 1), "??:??:??");
    assert_eq!(format_ts(i64::MAX as u64), "??:??:??");
}

#[test]
fn large_timestamps_read_as_negative() {
    assert_eq!(format_ts(u64::MAX), "23:59:59");
    assert_eq!(format_ts(u64::MAX - 999), "23:59:59");
    assert_eq!(format_ts(u64::MAX - 1000), "23:59:58");
    assert_eq!(format_ts(1u64 << 63), "??:??:??");
    assert_eq!(format_ts(FIRST_MILLIS as u64), "00:00:00");
    assert_eq!(format_ts((FIRST_MILLIS - 1) as u64), "??:??:??");
}
