use railway_exporter::client::{ApiError, UsageItem, UsageTags};
use railway_exporter::collector::ScrapeClock;
use railway_exporter::pricing::PricingConfig;
use railway_exporter::state::{
    greeting, heartbeat, run_cycle, ApiStatusData, CycleData, Session, SessionAction, SessionEvent,
    SessionState, SubscriberRegistry,
};
use railway_exporter::types::{endpoint_status, MetricsJson, WsMessage};

fn clock(ts: i64) -> ScrapeClock {
    ScrapeClock { timestamp: ts, year: 2024, month: 12, day: 31 }
}

fn data() -> CycleData {
    CycleData {
        project_name: "proj".to_string(),
        services: Vec::new(),
        usage: vec![UsageItem {
            measurement: "CPU_USAGE".to_string(),
            value: 1_000_000,
            tags: UsageTags { service_id: "svc1".to_string() },
        }],
        estimated: Vec::new(),
    }
}

fn published(latest: &Option<MetricsJson>) -> Option<(i64, u64)> {
    latest.as_ref().map(|m| (m.scrape_timestamp, m.project.current_usage_usd))
}

#[test]
fn test_api_status_data_default() {
    let status = ApiStatusData::default();
    assert!(status.last_success.is_none());
    assert!(status.last_error.is_none());
    assert_eq!(status.total_scrapes, 0);
    assert_eq!(status.failed_scrapes, 0);
}

#[test]
fn test_api_status_data_with_values() {
    let status = ApiStatusData {
        last_success: Some(1700000000),
        last_error: Some("Connection refused".to_string()),
        total_scrapes: 100,
        failed_scrapes: 5,
    };

    assert_eq!(status.last_success, Some(1700000000));
    assert_eq!(status.last_error.as_deref(), Some("Connection refused"));
    assert_eq!(status.total_scrapes, 100);
    assert_eq!(status.failed_scrapes, 5);
}

#[test]
fn test_ws_client_connect() {
    let mut reg = SubscriberRegistry::new();
    let (_, count) = reg.ws_client_connect();
    assert_eq!(count, 1);
    assert_eq!(reg.ws_client_count(), 1);
    let (_, count) = reg.ws_client_connect();
    assert_eq!(count, 2);
    assert_eq!(reg.ws_client_count(), 2);
}

#[test]
fn test_ws_client_disconnect() {
    let mut reg = SubscriberRegistry::new();
    let (a, _) = reg.ws_client_connect();
    let (b, _) = reg.ws_client_connect();
    assert_eq!(reg.ws_client_count(), 2);
    let count = reg.ws_client_disconnect(a);
    assert_eq!(count, 1);
    assert_eq!(reg.ws_client_count(), 1);
    let count = reg.ws_client_disconnect(b);
    assert_eq!(count, 0);
    assert_eq!(reg.ws_client_count(), 0);
}

#[test]
fn test_ws_client_count() {
    let mut reg = SubscriberRegistry::new();
    assert_eq!(reg.ws_client_count(), 0);
    reg.ws_client_connect();
    assert_eq!(reg.ws_client_count(), 1);
    reg.ws_client_connect();
    reg.ws_client_connect();
    assert_eq!(reg.ws_client_count(), 3);
}

#[test]
fn disconnecting_some_leaves_the_rest_once() {
    let mut reg = SubscriberRegistry::new();
    let tickets: Vec<u64> = (0..5).map(|_| reg.ws_client_connect().0).collect();
    // three leave, two of them reported twice
    for t in [tickets[1], tickets[3], tickets[1], tickets[4], tickets[3]] {
        reg.ws_client_disconnect(t);
    }
    assert_eq!(reg.ws_client_count(), 2);
    // a ticket never handed out changes nothing
    assert_eq!(reg.ws_client_disconnect(999), 2);
}

#[test]
fn failed_cycle_keeps_snapshot_and_counts() {
    let pricing = PricingConfig::new("pro");
    let mut status = ApiStatusData::default();
    let mut latest: Option<MetricsJson> = None;
    assert!(run_cycle(&mut status, &mut latest, &pricing, Ok(data()), &clock(100), 7).is_ok());
    let before = published(&latest);
    let r = run_cycle(
        &mut status,
        &mut latest,
        &pricing,
        Err(ApiError::RequestError("timeout".to_string())),
        &clock(200),
        7,
    );
    assert!(matches!(r, Err(ApiError::RequestError(_))));
    assert_eq!(published(&latest), before);
    assert_eq!(status.total_scrapes, 2);
    assert_eq!(status.failed_scrapes, 1);
    assert_eq!(status.last_success, Some(100));
    assert_eq!(status.last_error.as_deref(), Some("Request error: timeout"));
}

#[test]
fn successful_cycle_publishes_and_clears_error() {
    let pricing = PricingConfig::new("pro");
    let mut status = ApiStatusData::default();
    let mut latest: Option<MetricsJson> = None;
    let _ = run_cycle(&mut status, &mut latest, &pricing, Err(ApiError::NoData), &clock(1), 0);
    assert!(latest.is_none());
    assert_eq!(status.last_error.as_deref(), Some("No data in response"));
    run_cycle(&mut status, &mut latest, &pricing, Ok(data()), &clock(2), 3).unwrap();
    assert_eq!(published(&latest), Some((2, 231_000_000_000)));
    assert_eq!(status.total_scrapes, 2);
    assert_eq!(status.failed_scrapes, 1);
    assert_eq!(status.last_success, Some(2));
    assert!(status.last_error.is_none());
}

#[test]
fn late_subscriber_gets_status_then_metrics() {
    let pricing = PricingConfig::new("pro");
    let mut status = ApiStatusData::default();
    let mut latest: Option<MetricsJson> = None;
    run_cycle(&mut status, &mut latest, &pricing, Ok(data()), &clock(5), 0).unwrap();
    let msgs = greeting(heartbeat(12, &status, 3), latest.clone());
    assert_eq!(msgs.len(), 2);
    match &msgs[0] {
        WsMessage::Status(s) => {
            assert_eq!(s.uptime_seconds, 12);
            assert_eq!(s.ws_clients, 3);
            assert_eq!(s.api.total_scrapes, 1);
        }
        _ => panic!("status first"),
    }
    assert!(matches!(&msgs[1], WsMessage::Metrics(m) if m.scrape_timestamp == 5));
    let early = greeting(heartbeat(0, &ApiStatusData::default(), 1), None);
    assert_eq!(early.len(), 1);
}

#[test]
fn session_disconnects_once() {
    let mut s = Session::new(4);
    assert_eq!(s.on_event(SessionEvent::Tick), SessionAction::Nothing);
    assert_eq!(s.on_event(SessionEvent::Greeted), SessionAction::Nothing);
    assert_eq!(s.state, SessionState::Streaming);
    assert_eq!(s.on_event(SessionEvent::Tick), SessionAction::SendStatus);
    assert_eq!(s.on_event(SessionEvent::Ping(vec![1, 2])), SessionAction::SendPong(vec![1, 2]));
    assert_eq!(
        s.on_event(SessionEvent::Broadcast("{}".to_string())),
        SessionAction::Forward("{}".to_string())
    );
    assert_eq!(s.on_event(SessionEvent::Other), SessionAction::Nothing);
    assert_eq!(s.on_event(SessionEvent::SendFailed), SessionAction::Disconnect);
    assert_eq!(s.on_event(SessionEvent::ClientClosed), SessionAction::Nothing);
    assert_eq!(s.on_event(SessionEvent::Lagged), SessionAction::Nothing);
    assert_eq!(s.state, SessionState::Closed);
    assert_eq!(s.ticket, 4);
}

#[test]
fn lagging_subscriber_is_dropped() {
    let mut s = Session::new(1);
    s.on_event(SessionEvent::Greeted);
    assert_eq!(s.on_event(SessionEvent::Lagged), SessionAction::Disconnect);
    let mut s = Session::new(2);
    assert_eq!(s.on_event(SessionEvent::ChannelClosed), SessionAction::Disconnect);
}

#[test]
fn endpoints_reported() {
    let e = endpoint_status(false);
    assert!(e.prometheus && e.json && e.health && !e.websocket);
}

#[test]
fn published_timestamps_never_go_back() {
    let pricing = PricingConfig::new("pro");
    let mut status = ApiStatusData::default();
    let mut latest: Option<MetricsJson> = None;
    run_cycle(&mut status, &mut latest, &pricing, Ok(data()), &clock(500), 0).unwrap();
    assert_eq!(published(&latest).map(|p| p.0), Some(500));
    // the clock stepped back: the snapshot keeps the later time
    run_cycle(&mut status, &mut latest, &pricing, Ok(data()), &clock(400), 0).unwrap();
    assert_eq!(published(&latest).map(|p| p.0), Some(500));
    assert_eq!(status.last_success, Some(500));
    run_cycle(&mut status, &mut latest, &pricing, Ok(data()), &clock(600), 0).unwrap();
    assert_eq!(published(&latest).map(|p| p.0), Some(600));
}
