use chrono::{TimeZone, Timelike, Utc};

use finance_core::date_utils::{format_dt, format_dt_opt};
use finance_core::time::Timestamp;

/// The current instant, in whole seconds.
fn now() -> Timestamp {
    Timestamp::from_unix(chrono::Utc::now().timestamp()).unwrap()
}

fn instant(dt: chrono::DateTime<Utc>) -> Timestamp {
    Timestamp::from_unix(dt.timestamp()).unwrap()
}

#[test]
fn test_format_dt_consistent_output() {
    let dt = instant(Utc.with_ymd_and_hms(2026, 2, 15, 10, 30, 45).unwrap());
    assert_eq!(format_dt(&dt), "2026-02-15T10:30:45Z");
}

#[test]
fn test_format_dt_strips_nanoseconds() {
    let dt = instant(
        Utc.with_ymd_and_hms(2026, 2, 15, 10, 30, 45)
            .unwrap()
            .with_nanosecond(123_456_789)
            .unwrap(),
    );
    // Nanoseconds are dropped — we get second precision only
    assert_eq!(format_dt(&dt), "2026-02-15T10:30:45Z");
}

#[test]
fn test_format_dt_uses_z_suffix() {
    let dt = now();
    let formatted = format_dt(&dt);
    assert!(formatted.ends_with('Z'));
    assert!(!formatted.contains("+00:00"));
}

#[test]
fn test_format_dt_fixed_length() {
    let dt1 = instant(Utc.with_ymd_and_hms(2026, 1, 1, 0, 0, 0).unwrap());
    let dt2 = instant(Utc.with_ymd_and_hms(2026, 12, 31, 23, 59, 59).unwrap());
    assert_eq!(format_dt(&dt1).len(), format_dt(&dt2).len());
}

#[test]
fn test_format_dt_lexicographic_order() {
    let earlier = instant(Utc.with_ymd_and_hms(2026, 2, 15, 10, 0, 0).unwrap());
    let later = instant(Utc.with_ymd_and_hms(2026, 2, 15, 10, 0, 1).unwrap());
    assert!(format_dt(&earlier) < format_dt(&later));
}

#[test]
fn test_format_dt_opt_none() {
    assert_eq!(format_dt_opt(&None), None);
}

#[test]
fn test_format_dt_opt_some() {
    let dt = instant(Utc.with_ymd_and_hms(2026, 6, 1, 12, 0, 0).unwrap());
    assert_eq!(format_dt_opt(&Some(dt)), Some("2026-06-01T12:00:00Z".to_string()));
}

#[test]
fn test_format_dt_epoch_and_length() {
    let epoch = Timestamp::from_unix(0).unwrap();
    let text = format_dt(&epoch);
    assert_eq!(text, "1970-01-01T00:00:00Z");
    assert_eq!(text.len(), 20);
}
