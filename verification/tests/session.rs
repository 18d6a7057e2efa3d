//! The resumable feed session: resume-without-duplication after a
//! disconnect, bounded backoff, and clean termination.

use pledge_indexer::session::backoff_delay_ms;
use pledge_indexer::session::Phase;
use pledge_indexer::session::Session;
use pledge_indexer::session::SessionAction;
use pledge_indexer::session::SessionEvent;

fn fresh() -> Session {
    Session::open(
        "https://feed.example:443".to_string(),
        Some("api-token".to_string()),
        "map_records".to_string(),
        1,
        1000,
        None,
        None,
    )
}

#[test]
fn resume_after_disconnect_skips_the_committed_height() {
    let mut s = fresh();
    assert!(matches!(s.on_event(&SessionEvent::Connected), SessionAction::Continue));
    let block50 = SessionEvent::Block { height: 50, cursor: "C50".to_string() };
    assert!(matches!(s.on_event(&block50), SessionAction::ProcessBlock));
    s.commit(50, "C50".to_string());

    // The transport drops; the session backs off and resumes at C50.
    match s.on_event(&SessionEvent::TransportFailure) {
        SessionAction::Backoff { delay_ms } => assert!(delay_ms <= 45000),
        other => panic!("expected backoff, got {:?}", other),
    }
    let request = s.subscription_request();
    assert_eq!(request.start_height, 51);
    assert_eq!(request.end_height, 1000);
    assert_eq!(request.module_name, "map_records");
    assert_eq!(request.endpoint, "https://feed.example:443");
    assert_eq!(request.cursor.as_deref(), Some("C50"));

    // After reconnecting, a redelivered height 50 is not reprocessed.
    assert!(matches!(s.on_event(&SessionEvent::Connected), SessionAction::Continue));
    assert!(matches!(s.on_event(&block50), SessionAction::SkipBlock));
    let block51 = SessionEvent::Block { height: 51, cursor: "C51".to_string() };
    assert!(matches!(s.on_event(&block51), SessionAction::ProcessBlock));
}

#[test]
fn a_fresh_session_requests_the_configured_range() {
    let s = Session::open("e".to_string(), None, "m".to_string(), 7, 9, None, None);
    let request = s.subscription_request();
    assert_eq!((request.start_height, request.end_height), (7, 9));
    assert_eq!(request.module_name, "m");
    assert!(request.auth_token.is_none());
    assert!(request.cursor.is_none());
}

#[test]
fn a_resumed_session_starts_past_the_persisted_height() {
    let s = Session::open(
        "e".to_string(),
        None,
        "m".to_string(),
        1,
        1000,
        Some(300),
        Some("C300".to_string()),
    );
    let request = s.subscription_request();
    assert_eq!(request.start_height, 301);
    assert_eq!(request.cursor.as_deref(), Some("C300"));
}

#[test]
fn blocks_outside_the_range_are_skipped() {
    let mut s = Session::open("e".to_string(), None, "m".to_string(), 10, 20, None, None);
    s.on_event(&SessionEvent::Connected);
    let below = SessionEvent::Block { height: 9, cursor: "c".to_string() };
    let above = SessionEvent::Block { height: 21, cursor: "c".to_string() };
    let inside = SessionEvent::Block { height: 10, cursor: "c".to_string() };
    assert!(matches!(s.on_event(&below), SessionAction::SkipBlock));
    assert!(matches!(s.on_event(&above), SessionAction::SkipBlock));
    assert!(matches!(s.on_event(&inside), SessionAction::ProcessBlock));
}

#[test]
fn backoff_grows_and_saturates() {
    assert_eq!(backoff_delay_ms(500, 45000, 0, 0), 500);
    assert_eq!(backoff_delay_ms(500, 45000, 1, 0), 1000);
    assert_eq!(backoff_delay_ms(500, 45000, 3, 0), 4000);
    assert_eq!(backoff_delay_ms(500, 45000, 7, 0), 45000);
    assert_eq!(backoff_delay_ms(500, 45000, 100, 0), 45000);
    assert_eq!(backoff_delay_ms(0, 45000, 100, 0), 0);
}

#[test]
fn jitter_pads_the_delay_under_the_same_cap() {
    assert_eq!(backoff_delay_ms(500, 45000, 1, 250), 1250);
    assert_eq!(backoff_delay_ms(500, 45000, 0, 0), 500);
    assert_eq!(backoff_delay_ms(500, 45000, 7, 250), 45000);
    assert_eq!(backoff_delay_ms(500, 45000, 6, 44999), 45000);
    assert_eq!(backoff_delay_ms(0, 45000, 3, 75), 75);
}

#[test]
fn retries_reset_on_reconnect_and_delays_stay_bounded() {
    let mut s = fresh();
    s.on_event(&SessionEvent::Connected);
    let mut last: u64 = 0;
    for _ in 0..20 {
        match s.on_event(&SessionEvent::TransportFailure) {
            SessionAction::Backoff { delay_ms } => {
                assert!(delay_ms <= 45000);
                last = delay_ms;
            }
            other => panic!("expected backoff, got {:?}", other),
        }
    }
    assert_eq!(last, 45000);
    s.on_event(&SessionEvent::Connected);
    match s.on_event(&SessionEvent::TransportFailure) {
        SessionAction::Backoff { delay_ms } => assert_eq!(delay_ms, 1000),
        other => panic!("expected backoff, got {:?}", other),
    }
}

#[test]
fn fatal_failures_and_range_end_close_the_session() {
    let mut s = fresh();
    s.on_event(&SessionEvent::Connected);
    assert!(matches!(s.on_event(&SessionEvent::RangeEnd), SessionAction::Finish));
    assert_eq!(s.phase, Phase::Done);
    let mut t = fresh();
    t.on_event(&SessionEvent::Connected);
    assert!(matches!(t.on_event(&SessionEvent::FatalFailure), SessionAction::Abort));
    assert_eq!(t.phase, Phase::Failed);
}
