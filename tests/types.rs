use traffic_tracker::types::{Bytes, Duration};

#[test]
fn display_bytes() {
    let bytes = Bytes::new(342);
    assert_eq!(bytes.to_string(), "342 B");
}

#[test]
fn display_kilobytes() {
    let bytes = Bytes::new(2342);
    assert_eq!(bytes.to_string(), "2.29 kB");
}

#[test]
fn display_megabytes() {
    let bytes = Bytes::new(45_326_252);
    assert_eq!(bytes.to_string(), "43.23 MB");
}

#[test]
fn display_gigabytes() {
    let bytes = Bytes::new(987_345_983_759);
    assert_eq!(bytes.to_string(), "919.54 GB");
}

#[test]
fn display_seconds() {
    let duration = Duration::from_secs(45);
    assert_eq!(duration.to_string(), "PT45S");
}

#[test]
fn display_minutes() {
    let duration = Duration::from_secs(240);
    assert_eq!(duration.to_string(), "PT4M");
}

#[test]
fn display_minutes_and_seconds() {
    let duration = Duration::from_secs(138);
    assert_eq!(duration.to_string(), "PT2M18S");
}

#[test]
fn display_hours_and_minutes_and_seconds() {
    let duration = Duration::from_secs(24543);
    assert_eq!(duration.to_string(), "PT6H49M3S");
}

#[test]
fn display_days_hours_and_minutes_and_seconds() {
    let duration = Duration::from_secs(2_584_783);
    assert_eq!(duration.to_string(), "P29DT21H59M43S");
}

#[test]
fn display_zero_duration() {
    let duration = Duration::from_secs(0);
    assert_eq!(duration.to_string(), "PT0S");
}

#[test]
fn bytes_thresholds() {
    assert_eq!(Bytes::new(0).to_string(), "0 B");
    assert_eq!(Bytes::new(1023).to_string(), "1023 B");
    assert_eq!(Bytes::new(1024).to_string(), "1.00 kB");
    assert_eq!(Bytes::new(1024 * 1024 - 1).to_string(), "1024.00 kB");
    assert_eq!(Bytes::new(1024 * 1024).to_string(), "1.00 MB");
    assert_eq!(Bytes::new(1024 * 1024 * 1024).to_string(), "1.00 GB");
}

#[test]
fn bytes_negative_stay_plain() {
    assert_eq!(Bytes::new(-5).to_string(), "-5 B");
    assert_eq!(Bytes::new(i64::MIN).to_string(), "-9223372036854775808 B");
}

#[test]
fn bytes_rounding_matches_float_formatting() {
    for n in [1152i64, 1029, 1035, 3_000_000, 1_500_000_000, 123_456_789_012] {
        let expected_kb = format!("{:.2} kB", n as f64 / 1024.0);
        let expected_mb = format!("{:.2} MB", n as f64 / 1024.0 / 1024.0);
        let expected_gb = format!("{:.2} GB", n as f64 / 1024.0 / 1024.0 / 1024.0);
        let shown = Bytes::new(n).to_string();
        assert!(shown == expected_kb || shown == expected_mb || shown == expected_gb, "{}", shown);
    }
}

#[test]
fn bytes_largest_value() {
    assert_eq!(Bytes::new(i64::MAX).to_string(), "8589934592.00 GB");
}

#[test]
fn duration_whole_days() {
    assert_eq!(Duration::from_secs(86400).to_string(), "P1D");
    assert_eq!(Duration::from_secs(86401).to_string(), "P1DT1S");
    assert_eq!(Duration::from_secs(3600).to_string(), "PT1H");
}

#[test]
fn duration_keeps_seconds() {
    assert_eq!(Duration::from_secs(77).as_secs(), 77);
    assert_eq!(Bytes::new(-3).value(), -3);
}
