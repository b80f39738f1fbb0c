use pump_kmonitor::get_random_rpc_url;
use pump_kmonitor::web::{get_mints_overview, ApiResponse};
use pump_kmonitor::kline::KLineManager;
use pump_kmonitor::websocket::{
    backoff_delay, session_action, should_route, FrameEvent, ReconnectPolicy, RetryDecision,
    SessionAction, WebSocketMonitor,
};

#[test]
fn test_backoff_sequence() {
    // Base 5s, cap 300s: 5, 10, 20, 40, 80, 160, 300, 300, ...
    let expected: [u64; 9] = [5, 10, 20, 40, 80, 160, 300, 300, 300];
    for (i, want) in expected.iter().enumerate() {
        assert_eq!(backoff_delay(5, 300, (i + 1) as u32), *want);
    }
}

#[test]
fn test_reconnect_policy_counts_and_resets() {
    let mut p = ReconnectPolicy::new(5, 300, 10);
    assert_eq!(p.attempts, 0);
    assert_eq!(p.on_failure(), RetryDecision::Retry(5));
    assert_eq!(p.on_failure(), RetryDecision::Retry(10));
    assert_eq!(p.on_failure(), RetryDecision::Retry(20));
    assert_eq!(p.attempts, 3);
    // A successful session resets the counter to zero.
    p.on_success();
    assert_eq!(p.attempts, 0);
    assert_eq!(p.on_failure(), RetryDecision::Retry(5));
    // The bounded maximum ends the monitor permanently.
    let mut q = ReconnectPolicy::new(5, 300, 3);
    assert_eq!(q.on_failure(), RetryDecision::Retry(5));
    assert_eq!(q.on_failure(), RetryDecision::Retry(10));
    assert_eq!(q.on_failure(), RetryDecision::GiveUp);
}

#[test]
fn test_session_actions() {
    assert_eq!(
        session_action(&FrameEvent::Text { is_notification: true }),
        SessionAction::HandleNotification
    );
    assert_eq!(
        session_action(&FrameEvent::Text { is_notification: false }),
        SessionAction::Ignore
    );
    assert_eq!(session_action(&FrameEvent::Ping), SessionAction::SendPong);
    assert_eq!(session_action(&FrameEvent::Pong), SessionAction::Ignore);
    assert_eq!(session_action(&FrameEvent::Binary), SessionAction::Ignore);
    assert_eq!(session_action(&FrameEvent::Close), SessionAction::EndSession);
    assert_eq!(session_action(&FrameEvent::ReadError), SessionAction::EndSession);
}

#[test]
fn test_should_route() {
    assert!(should_route(&Some("logsNotification".to_string())));
    assert!(!should_route(&Some("accountNotification".to_string())));
    assert!(!should_route(&None));
}

#[test]
fn test_subscription_request() {
    let m = WebSocketMonitor::new(
        "wss://example.invalid".to_string(),
        vec!["prog1".to_string(), "prog2".to_string()],
        "PUMP".to_string(),
    );
    let req = m.subscription_request();
    assert_eq!(req.jsonrpc, "2.0");
    assert_eq!(req.id, 1);
    assert_eq!(req.method, "logsSubscribe");
    assert_eq!(req.mentions, vec!["prog1".to_string(), "prog2".to_string()]);
    assert_eq!(req.commitment, "confirmed");
}

#[test]
fn test_random_rpc_url_picks_an_element() {
    let urls = vec!["u1".to_string(), "u2".to_string(), "u3".to_string()];
    for _ in 0..20 {
        let u = get_random_rpc_url(&urls).unwrap();
        assert!(urls.contains(&u));
    }
    assert!(get_random_rpc_url(&Vec::new()).is_none());
}

#[test]
fn test_api_response_envelopes() {
    let ok: ApiResponse<u64> = ApiResponse::ok(5);
    assert!(ok.success);
    assert_eq!(ok.data, Some(5));
    assert!(ok.message.is_none());
    let bad: ApiResponse<u64> = ApiResponse::failure("broken".to_string());
    assert!(!bad.success);
    assert!(bad.data.is_none());
    assert_eq!(bad.message, Some("broken".to_string()));
}

#[test]
fn test_mints_overview() {
    let mut m = KLineManager::new(60);
    let t: i64 = 1_700_000_040;
    m.add_trade(&"aaa".to_string(), t, 5, 1, 1, true, 10).unwrap();
    m.add_trade(&"aaa".to_string(), t + 60, 5, 1, 1, true, 11).unwrap();
    m.add_trade(&"bbb".to_string(), t, 5, 1, 1, true, 20).unwrap();
    let overview = get_mints_overview(&m);
    assert_eq!(overview.len(), 2);
    assert_eq!(overview[0].mint, "bbb");
    assert_eq!(overview[0].last_activity, 20);
    assert_eq!(overview[0].kline_count, 1);
    assert_eq!(overview[1].mint, "aaa");
    assert_eq!(overview[1].last_activity, 11);
    assert_eq!(overview[1].kline_count, 2);
}
