use feedrv3::config::{AppConfig, FeedConfig};
use feedrv3::fetch::{complete_get, HttpReply, HttpResult, Method};
use feedrv3::link_state::{LastStatus, LinkState, NextAction};
use feedrv3::tick::{finish_action, plan_tick, should_record_history, start_feed, state_write_retry};

fn feed(id: &str, base: u64) -> FeedConfig {
    FeedConfig {
        id: id.to_string(),
        url: format!("https://example.com/{id}.xml"),
        domain: "example.com".to_string(),
        base_poll_seconds: base,
    }
}

fn cfg() -> AppConfig {
    AppConfig::with_defaults("agent".to_string(), "UTC".to_string())
}

#[test]
fn fresh_feed_is_fetched_at_once() {
    match start_feed(&cfg(), feed("a", 60), None, 1_000) {
        NextAction::DoGet { state } => {
            assert_eq!(state.feed_id, "a");
            assert_eq!(state.current_poll_seconds, 60);
            assert_eq!(state.max_poll_seconds, 86_400);
            assert_eq!(state.jitter_ppm, 200_000);
            assert_eq!(state.last_status, LastStatus::Unknown);
        }
        other => panic!("unexpected {:?}", other),
    }
}

#[test]
fn stored_state_not_due_sleeps() {
    let mut s = LinkState::initial("a".to_string(), 60, 3600, 0, 0);
    s.next_poll_at_ms = 9_000;
    match start_feed(&cfg(), feed("a", 60), Some(s), 1_000) {
        NextAction::SleepUntil { at_ms } => assert_eq!(at_ms, 9_000),
        other => panic!("unexpected {:?}", other),
    }
}

#[test]
fn invalid_stored_state_is_reseeded() {
    let mut s = LinkState::initial("a".to_string(), 60, 3600, 0, 0);
    s.next_poll_at_ms = 9_000;
    s.current_poll_seconds = 10;
    assert!(matches!(start_feed(&cfg(), feed("a", 60), Some(s), 1_000), NextAction::DoGet { .. }));
    let other = LinkState::initial("b".to_string(), 60, 3600, 0, 9_000);
    assert!(matches!(start_feed(&cfg(), feed("a", 60), Some(other), 1_000), NextAction::DoGet { .. }));
}

#[test]
fn base_above_configured_max_raises_max() {
    match start_feed(&cfg(), feed("a", 100_000), None, 0) {
        NextAction::DoGet { state } => assert_eq!(state.max_poll_seconds, 100_000),
        other => panic!("unexpected {:?}", other),
    }
}

#[test]
fn tick_plan_skips_repeats_and_caps() {
    let due = vec![feed("a", 60), feed("b", 60), feed("a", 90), feed("c", 60), feed("d", 60)];
    let plan = plan_tick(due.clone(), 3);
    let ids: Vec<&str> = plan.iter().map(|f| f.id.as_str()).collect();
    assert_eq!(ids, vec!["a", "b", "c"]);
    assert_eq!(plan[0].base_poll_seconds, 60);
    let all = plan_tick(due, 1000);
    assert_eq!(all.len(), 4);
    assert!(plan_tick(Vec::new(), 10).is_empty());
    assert!(plan_tick(vec![feed("a", 60)], 0).is_empty());
}

#[test]
fn history_sampling_follows_rate() {
    let mut c = cfg();
    assert!(should_record_history(&c, 99_999));
    assert!(!should_record_history(&c, 100_000));
    c.history_sample_rate_ppm = 0;
    assert!(!should_record_history(&c, 0));
    c.history_sample_rate_ppm = 1_000_000;
    assert!(should_record_history(&c, 999_999));
    let mut x: u64 = 12_345;
    let mut hits = 0u32;
    let rate = cfg();
    for _ in 0..100_000 {
        x = x.wrapping_mul(6_364_136_223_846_793_005).wrapping_add(1_442_695_040_888_963_407);
        if should_record_history(&rate, (x >> 33) % 1_000_000) {
            hits += 1;
        }
    }
    let share = hits as f64 / 100_000.0;
    assert!((share - 0.1).abs() < 0.01);
}

#[test]
fn finished_action_persists_state_and_sampled_history() {
    let s = LinkState::initial("a".to_string(), 60, 3600, 0, 0);
    let result = HttpResult::Reply(HttpReply {
        status: 200,
        etag: None,
        last_modified: None,
        retry_after_seconds: None,
        body: b"x".to_vec(),
    });
    let report = complete_get(s, &result, 5, 0);
    let plan = finish_action(report, Method::Get, 5, 42, true);
    let h = plan.history.expect("sampled");
    assert_eq!(h.feed_id, "a");
    assert_eq!(h.attempted_at_ms, 5);
    assert_eq!(h.duration_ms, 42);
    assert_eq!(h.http_code, Some(200));
    assert_eq!(h.bytes_read, Some(1));
    assert!(plan.parse_items);
    assert_eq!(plan.state.last_success_at_ms, Some(5));
    let s2 = LinkState::initial("a".to_string(), 60, 3600, 0, 0);
    let report2 = complete_get(s2, &result, 5, 0);
    assert!(finish_action(report2, Method::Get, 5, 42, false).history.is_none());
}

#[test]
fn state_write_is_retried_once() {
    assert_eq!(state_write_retry(1), Some(100));
    assert_eq!(state_write_retry(2), None);
}
