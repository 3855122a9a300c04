use traffic_tracker::configuration::default_log_filter;
use traffic_tracker::error::{ErrorKind, TrafficError};
use traffic_tracker::overview::Overview;
use traffic_tracker::run::{Action, Event, Phase, Run};

const PAGE: &str = "WanStatistics = { 'upvolume' : '100' , 'downvolume' : '200' , 'liveTime' : '60' }";

#[test]
fn full_run() {
    let (run, action) = Run::start();
    assert!(matches!(action, Action::Login));
    let (run, action) = run.advance(Event::LoginDone(Ok(77)));
    assert!(matches!(action, Action::FetchOverview(77)));
    let (run, action) = run.advance(Event::PageFetched(Ok(PAGE.to_string())));
    assert!(matches!(action, Action::Record(300)));
    let (run, action) = run.advance(Event::Recorded(Ok(())));
    assert!(matches!(action, Action::Logout(77)));
    let (run, action) = run.advance(Event::LoggedOut(Err(TrafficError::new("down".to_string()))));
    assert!(matches!(run.phase, Phase::Done));
    match action {
        Action::Finish(Ok(o)) => assert_eq!(o, Overview { cumulative_traffic: 300, uptime_seconds: 60 }),
        _ => panic!("run did not finish well"),
    }
}

#[test]
fn failed_login_skips_logout() {
    let (run, _) = Run::start();
    let e = TrafficError::with_kind(ErrorKind::Transport, "unreachable");
    let (run, action) = run.advance(Event::LoginDone(Err(e)));
    assert!(matches!(run.phase, Phase::Done));
    match action {
        Action::Finish(Err(e)) => assert_eq!(e.kind, ErrorKind::Transport),
        _ => panic!("expected a failure"),
    }
}

#[test]
fn parse_failure_still_logs_out() {
    let (run, _) = Run::start();
    let (run, _) = run.advance(Event::LoginDone(Ok(9)));
    let (run, action) = run.advance(Event::PageFetched(Ok("<html></html>".to_string())));
    assert!(matches!(action, Action::Logout(9)));
    let (_, action) = run.advance(Event::LoggedOut(Ok(())));
    match action {
        Action::Finish(Err(e)) => assert_eq!(e.kind, ErrorKind::Parse),
        _ => panic!("expected a parse failure"),
    }
}

#[test]
fn storage_failure_still_logs_out() {
    let (run, _) = Run::start();
    let (run, _) = run.advance(Event::LoginDone(Ok(3)));
    let (run, _) = run.advance(Event::PageFetched(Ok(PAGE.to_string())));
    let e = TrafficError::with_kind(ErrorKind::Storage, "locked");
    let (run, action) = run.advance(Event::Recorded(Err(e)));
    assert!(matches!(action, Action::Logout(3)));
    let (_, action) = run.advance(Event::LoggedOut(Ok(())));
    match action {
        Action::Finish(Err(e)) => assert_eq!(e.kind, ErrorKind::Storage),
        _ => panic!("expected a storage failure"),
    }
}

#[test]
fn unexpected_event_ends_run() {
    let (run, _) = Run::start();
    let (run, action) = run.advance(Event::Recorded(Ok(())));
    assert!(matches!(run.phase, Phase::Done));
    match action {
        Action::Finish(Err(e)) => assert_eq!(e.kind, ErrorKind::Other),
        _ => panic!("expected a failure"),
    }
}

#[test]
fn log_filters() {
    assert_eq!(default_log_filter(0), "traffic_tracker=warn");
    assert_eq!(default_log_filter(1), "traffic_tracker=info");
    assert_eq!(default_log_filter(2), "traffic_tracker=debug");
    assert_eq!(default_log_filter(9), "traffic_tracker=debug");
}

#[test]
fn error_new_keeps_message() {
    let e = TrafficError::new("bad config".to_string());
    assert_eq!(e.kind(), ErrorKind::Other);
    assert_eq!(e.to_string(), "bad config");
}
