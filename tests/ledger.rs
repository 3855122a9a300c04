use traffic_tracker::error::ErrorKind;
use traffic_tracker::ledger::{daily_record, incremental_traffic, CalendarDay, DailyRecord};

#[test]
fn growth_since_yesterday() {
    assert_eq!(incremental_traffic(1500, Some(1000)), Some(500));
    let day = CalendarDay::new(738000);
    let r = daily_record(day, 1500, Some(1000)).unwrap();
    assert_eq!(r, DailyRecord { day, traffic: 500, cumulative_traffic: 1500 });
}

#[test]
fn reset_counts_whole_reading() {
    assert_eq!(incremental_traffic(400, Some(1000)), Some(400));
    assert_eq!(incremental_traffic(1000, Some(1000)), Some(1000));
}

#[test]
fn missing_yesterday_counts_whole_reading() {
    assert_eq!(incremental_traffic(1234, None), Some(1234));
    let r = daily_record(CalendarDay::new(1), 1234, None).unwrap();
    assert_eq!(r.traffic, 1234);
    assert_eq!(r.cumulative_traffic, 1234);
}

#[test]
fn increment_out_of_range_is_storage_error() {
    assert_eq!(incremental_traffic(i64::MAX, Some(-1)), None);
    let e = daily_record(CalendarDay::new(5), i64::MAX, Some(-1)).unwrap_err();
    assert_eq!(e.kind, ErrorKind::Storage);
}

#[test]
fn previous_day() {
    assert_eq!(CalendarDay::new(738000).previous(), CalendarDay::new(737999));
}
