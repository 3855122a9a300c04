use traffic_tracker::error::ErrorKind;
use traffic_tracker::overview::{extract_overview, overview_from_json, Overview};

const PAGE: &str = "<script>var WanStatistics = { 'uprate' : '0' , 'downrate' : '0' , 'upvolume' : '100' , 'downvolume' : '200' , 'liveTime' : '60' };</script>";

#[test]
fn extracts_counters() {
    let o = extract_overview(PAGE).unwrap();
    assert_eq!(o, Overview { cumulative_traffic: 300, uptime_seconds: 60 });
    assert_eq!(o.uptime().to_string(), "PT1M");
}

#[test]
fn missing_marker() {
    let e = extract_overview("<html>nothing here</html>").unwrap_err();
    assert_eq!(e.kind, ErrorKind::Parse);
    assert_eq!(e.to_string(), "No WanStatistics structure");
}

#[test]
fn missing_closing_brace() {
    let e = extract_overview("WanStatistics = { 'upvolume' : '1'").unwrap_err();
    assert_eq!(e.kind, ErrorKind::Parse);
    assert_eq!(e.to_string(), "No closing brace");
}

#[test]
fn missing_field_is_parse_error() {
    let e = extract_overview("WanStatistics = { 'upvolume' : '1', 'liveTime' : '2' }").unwrap_err();
    assert_eq!(e.kind, ErrorKind::Parse);
}

#[test]
fn non_string_field_is_parse_error() {
    let e = extract_overview("WanStatistics = { 'upvolume' : 1, 'downvolume' : '1', 'liveTime' : '2' }")
        .unwrap_err();
    assert_eq!(e.kind, ErrorKind::Parse);
}

#[test]
fn non_numeric_field_is_parse_error() {
    let e = extract_overview("WanStatistics = { 'upvolume' : 'x', 'downvolume' : '1', 'liveTime' : '2' }")
        .unwrap_err();
    assert_eq!(e.kind, ErrorKind::Parse);
}

#[test]
fn broken_json_is_parse_error() {
    let e = extract_overview("WanStatistics = { 'upvolume' 'x' }").unwrap_err();
    assert_eq!(e.kind, ErrorKind::Parse);
}

#[test]
fn first_marker_and_first_brace_are_used() {
    let page = "x WanStatistics = { 'upvolume' : '5', 'downvolume' : '6', 'liveTime' : '7' } \
                WanStatistics = { 'upvolume' : '50', 'downvolume' : '60', 'liveTime' : '70' }";
    let o = extract_overview(page).unwrap();
    assert_eq!(o.cumulative_traffic, 11);
    assert_eq!(o.uptime_seconds, 7);
}

#[test]
fn signed_volumes_are_summed() {
    let o = overview_from_json("{\"upvolume\":\"-10\",\"downvolume\":\"+25\",\"liveTime\":\"0\"}").unwrap();
    assert_eq!(o.cumulative_traffic, 15);
}

#[test]
fn sum_out_of_range_is_parse_error() {
    let json = "{\"upvolume\":\"9223372036854775807\",\"downvolume\":\"1\",\"liveTime\":\"0\"}";
    assert_eq!(overview_from_json(json).unwrap_err().kind, ErrorKind::Parse);
}

#[test]
fn large_volumes() {
    let json = "{\"upvolume\":\"4000000000000\",\"downvolume\":\"5000000000000\",\"liveTime\":\"86400\"}";
    let o = overview_from_json(json).unwrap();
    assert_eq!(o.cumulative_traffic, 9_000_000_000_000);
    assert_eq!(o.uptime().to_string(), "P1D");
}
