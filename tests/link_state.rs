use feedrv3::link_state::{LastStatus, LinkState, NextAction, Outcome, PPM};

fn state(base: u64, current: u64, max: u64, jitter_ppm: u64) -> LinkState {
    let mut s = LinkState::initial("f1".to_string(), base, max, jitter_ppm, 0);
    s.current_poll_seconds = current;
    s
}

#[test]
fn initial_polls_immediately() {
    let s = LinkState::initial("feed".to_string(), 60, 3600, 200_000, 1_000);
    assert_eq!(s.feed_id, "feed");
    assert_eq!(s.current_poll_seconds, 60);
    assert_eq!(s.max_poll_seconds, 3600);
    assert_eq!(s.next_poll_at_ms, 1_000);
    assert_eq!(s.last_status, LastStatus::Unknown);
    assert_eq!(s.failure_streak, 0);
    assert!(s.etag.is_none() && s.last_modified.is_none() && s.content_hash.is_none());
}

#[test]
fn sleeps_before_next_poll() {
    let mut s = state(60, 60, 3600, 0);
    s.next_poll_at_ms = 5_000;
    match LinkState::decide_next_action(s, 4_999) {
        NextAction::SleepUntil { at_ms } => assert_eq!(at_ms, 5_000),
        other => panic!("unexpected {:?}", other),
    }
}

#[test]
fn due_with_validators_and_healthy_status_heads() {
    let mut s = state(60, 60, 3600, 0);
    s.etag = Some("\"a\"".to_string());
    s.last_status = LastStatus::NotModified;
    assert!(matches!(LinkState::decide_next_action(s, 0), NextAction::DoHead { .. }));
}

#[test]
fn due_without_validators_gets() {
    let s = state(60, 60, 3600, 0);
    assert!(matches!(LinkState::decide_next_action(s, 0), NextAction::DoGet { .. }));
}

#[test]
fn failing_feed_with_validators_gets() {
    let mut s = state(60, 60, 3600, 0);
    s.last_modified = Some("Mon, 01 Jan 2024 00:00:00 GMT".to_string());
    s.last_status = LastStatus::Success;
    s.failure_streak = 1;
    assert!(matches!(LinkState::decide_next_action(s, 10), NextAction::DoGet { .. }));
}

#[test]
fn new_content_halves_cadence() {
    let mut s = state(60, 600, 3600, 0);
    s.apply_outcome(Outcome::Success, true, 1_000, 500_000);
    assert_eq!(s.current_poll_seconds, 300);
    assert_eq!(s.next_poll_at_ms, 1_000 + 300_000);
    assert_eq!(s.last_attempt_at_ms, Some(1_000));
}

#[test]
fn unchanged_content_grows_cadence_up_to_max() {
    let mut s = state(60, 3000, 3600, 0);
    s.apply_outcome(Outcome::NotModified, false, 0, 0);
    assert_eq!(s.current_poll_seconds, 3600);
    let mut t = state(60, 101, 3600, 0);
    t.apply_outcome(Outcome::Success, false, 0, 0);
    assert_eq!(t.current_poll_seconds, 151);
}

#[test]
fn retryable_backoff_caps_exponent_at_eight() {
    let mut s = state(10, 10, 1_000_000, 0);
    for _ in 0..12 {
        s.apply_outcome(Outcome::Retryable, false, 0, 0);
    }
    assert_eq!(s.failure_streak, 12);
    assert_eq!(s.current_poll_seconds, 10 * 256);
}

#[test]
fn fatal_parks_at_max() {
    let mut s = state(60, 120, 3600, 0);
    s.apply_outcome(Outcome::Fatal, false, 0, 0);
    assert_eq!(s.current_poll_seconds, 3600);
    assert_eq!(s.failure_streak, 1);
    assert_eq!(s.next_poll_at_ms, 3_600_000);
}

#[test]
fn jitter_spreads_both_ways() {
    let mut low = state(60, 1000, 3600, 200_000);
    low.apply_outcome(Outcome::NotModified, false, 0, 0);
    // 1500 s, minus 20 %
    assert_eq!(low.next_poll_at_ms, 1_200_000);
    let mut high = state(60, 1000, 3600, 200_000);
    high.apply_outcome(Outcome::NotModified, false, 0, PPM - 1);
    // 1500 s * 1000 * 0.2 * (2 * 0.999999 - 1) = 299_999.4 ms, toward zero
    assert_eq!(high.next_poll_at_ms, 1_500_000 + 299_999);
}

#[test]
fn interval_is_clamped_to_window() {
    // full jitter at the lowest draw would give 0 ms; the floor is base * 500
    let mut s = state(60, 120, 120, PPM);
    s.apply_outcome(Outcome::NotModified, false, 7, 0);
    assert_eq!(s.next_poll_at_ms, 7 + 30_000);
    // full jitter at the highest draw stays under max * 1500
    let mut t = state(60, 120, 120, PPM);
    t.apply_outcome(Outcome::NotModified, false, 7, PPM - 1);
    assert!(t.next_poll_at_ms - 7 <= 180_000);
    assert!(t.next_poll_at_ms - 7 >= 30_000);
}

#[test]
fn interval_window_holds_for_many_draws() {
    for (i, outcome) in [Outcome::Success, Outcome::NotModified, Outcome::Retryable, Outcome::Fatal]
        .iter()
        .enumerate()
    {
        for k in 0..50u64 {
            let mut s = state(30, 30 + k * 7, 900, 1_000_000);
            let now = 1_000_000 + k as i64;
            s.apply_outcome(*outcome, i % 2 == 0, now, k * 19_999);
            let d = s.next_poll_at_ms - now;
            assert!(d >= 30 * 500 && d <= 900 * 1500);
            assert!(s.current_poll_seconds >= 30 && s.current_poll_seconds <= 900);
        }
    }
}

#[test]
fn streak_resets_on_success_and_not_modified() {
    let mut s = state(60, 60, 3600, 0);
    s.apply_outcome(Outcome::Retryable, false, 0, 0);
    s.apply_outcome(Outcome::Retryable, false, 0, 0);
    assert_eq!(s.failure_streak, 2);
    s.apply_outcome(Outcome::NotModified, false, 0, 0);
    assert_eq!(s.failure_streak, 0);
    s.apply_outcome(Outcome::Retryable, false, 0, 0);
    s.apply_outcome(Outcome::Success, false, 0, 0);
    assert_eq!(s.failure_streak, 0);
}

#[test]
fn streak_saturates() {
    let mut s = state(60, 60, 3600, 0);
    s.failure_streak = u32::MAX;
    s.apply_outcome(Outcome::Retryable, false, 0, 0);
    assert_eq!(s.failure_streak, u32::MAX);
    assert_eq!(s.current_poll_seconds, 3600);
}

#[test]
fn retry_after_lifts_next_poll() {
    let mut s = state(1, 1, 3600, 0);
    s.apply_outcome(Outcome::Retryable, false, 1_000, 0);
    assert_eq!(s.next_poll_at_ms, 1_000 + 2_000);
    s.apply_retry_after(1_000, 30);
    assert_eq!(s.next_poll_at_ms, 31_000);
    s.apply_retry_after(1_000, 5);
    assert_eq!(s.next_poll_at_ms, 31_000);
    s.apply_retry_after(1_000, u64::MAX);
    assert_eq!(s.next_poll_at_ms, i64::MAX);
}

#[test]
fn clock_regression_is_clamped() {
    let mut s = state(60, 60, 3600, 0);
    assert_eq!(s.observed_now(500), 500);
    s.apply_outcome(Outcome::Success, true, 10_000, 0);
    assert_eq!(s.observed_now(9_000), 10_000);
    assert_eq!(s.observed_now(11_000), 11_000);
}
