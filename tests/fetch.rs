use feedrv3::fetch::{
    complete_get, complete_head, plan_request, stable_hash, HeadStep, HttpReply, HttpResult, Method,
    TransportError, MAX_BODY_BYTES,
};
use feedrv3::link_state::{LastStatus, LinkState, Outcome};

fn reply(status: u16, body: &[u8]) -> HttpResult {
    HttpResult::Reply(HttpReply {
        status,
        etag: None,
        last_modified: None,
        retry_after_seconds: None,
        body: body.to_vec(),
    })
}

fn warm_state(base: u64, current: u64, max: u64) -> LinkState {
    let mut s = LinkState::initial("f".to_string(), base, max, 0, 0);
    s.current_poll_seconds = current;
    s.etag = Some("a".to_string());
    s.last_modified = Some("yesterday".to_string());
    s.last_status = LastStatus::Success;
    s.content_hash = Some(stable_hash(b"old"));
    s
}

#[test]
fn stable_hash_is_fnv1a() {
    assert_eq!(stable_hash(b""), 0xcbf2_9ce4_8422_2325);
    assert_eq!(stable_hash(b"a"), 0xaf63_dc4c_8601_ec8c);
    assert_eq!(stable_hash(b"v1"), 634_738_200_219_259_176);
    assert_ne!(stable_hash(b"v1"), stable_hash(b"v2"));
}

#[test]
fn first_observation_get_with_new_content() {
    let now = 1_700_000_000_000;
    let s = LinkState::initial("feed".to_string(), 60, 3600, 0, now);
    let result = HttpResult::Reply(HttpReply {
        status: 200,
        etag: Some("\"a\"".to_string()),
        last_modified: None,
        retry_after_seconds: None,
        body: b"v1".to_vec(),
    });
    let r = complete_get(s, &result, now, 500_000);
    assert_eq!(r.outcome, Outcome::Success);
    assert!(r.parse_body);
    assert_eq!(r.http_code, Some(200));
    assert_eq!(r.bytes_read, Some(2));
    assert_eq!(r.state.current_poll_seconds, 60);
    assert_eq!(r.state.etag.as_deref(), Some("\"a\""));
    assert_eq!(r.state.content_hash, Some(stable_hash(b"v1")));
    assert_eq!(r.state.next_poll_at_ms, now + 60_000);
    assert_eq!(r.state.last_status, LastStatus::Success);
    assert_eq!(r.state.last_success_at_ms, Some(now));
}

#[test]
fn conditional_head_not_modified() {
    let s = warm_state(60, 120, 3600);
    let plan = plan_request(&s, Method::Head);
    assert_eq!(plan.if_none_match.as_deref(), Some("a"));
    assert_eq!(plan.if_modified_since.as_deref(), Some("yesterday"));
    match complete_head(s, &reply(304, b""), 50, 0) {
        HeadStep::Finished(r) => {
            assert_eq!(r.outcome, Outcome::NotModified);
            assert!(!r.parse_body);
            assert_eq!(r.state.current_poll_seconds, 180);
            assert_eq!(r.state.next_poll_at_ms, 50 + 180_000);
            assert_eq!(r.state.etag.as_deref(), Some("a"));
            assert_eq!(r.state.last_status, LastStatus::NotModified);
        }
        HeadStep::Promote(_) => panic!("304 must not promote"),
    }
}

#[test]
fn head_success_promotes_to_get() {
    let s = warm_state(60, 120, 3600);
    match complete_head(s, &reply(200, b""), 50, 0) {
        HeadStep::Promote(st) => {
            assert_eq!(st.current_poll_seconds, 120);
            assert_eq!(st.next_poll_at_ms, 0);
        }
        HeadStep::Finished(_) => panic!("200 must promote"),
    }
}

#[test]
fn head_fatal_clears_validators() {
    let s = warm_state(60, 120, 3600);
    match complete_head(s, &reply(410, b""), 0, 0) {
        HeadStep::Finished(r) => {
            assert_eq!(r.outcome, Outcome::Fatal);
            assert!(r.state.etag.is_none() && r.state.last_modified.is_none());
            assert_eq!(r.state.last_status, LastStatus::ClientError);
        }
        HeadStep::Promote(_) => panic!(),
    }
}

#[test]
fn head_transport_failure_is_retryable() {
    let s = warm_state(60, 120, 3600);
    match complete_head(s, &HttpResult::Failed(TransportError::Timeout), 0, 0) {
        HeadStep::Finished(r) => {
            assert_eq!(r.outcome, Outcome::Retryable);
            assert_eq!(r.state.last_status, LastStatus::NetworkError);
            assert_eq!(r.state.failure_streak, 1);
            assert_eq!(r.state.etag.as_deref(), Some("a"));
            assert_eq!(r.http_code, None);
        }
        HeadStep::Promote(_) => panic!(),
    }
}

#[test]
fn transient_errors_then_recovery() {
    let mut s = LinkState::initial("f".to_string(), 60, 3600, 0, 0);
    for _ in 0..3 {
        let r = complete_get(s, &reply(503, b"busy"), 0, 0);
        assert_eq!(r.outcome, Outcome::Retryable);
        assert_eq!(r.state.last_status, LastStatus::ServerError);
        s = r.state;
    }
    assert_eq!(s.failure_streak, 3);
    assert_eq!(s.current_poll_seconds, 480);
    let r = complete_get(s, &reply(200, b"body"), 0, 0);
    assert_eq!(r.outcome, Outcome::Success);
    assert_eq!(r.state.failure_streak, 0);
    assert_eq!(r.state.current_poll_seconds, 60);
}

#[test]
fn fatal_not_found() {
    let s = warm_state(60, 120, 3600);
    let r = complete_get(s, &reply(404, b"nope"), 1_000, 0);
    assert_eq!(r.outcome, Outcome::Fatal);
    assert_eq!(r.state.current_poll_seconds, 3600);
    assert_eq!(r.state.failure_streak, 1);
    assert!(r.state.etag.is_none() && r.state.last_modified.is_none());
    assert_eq!(r.state.next_poll_at_ms, 1_000 + 3_600_000);
    assert!(!r.parse_body);
}

#[test]
fn too_many_requests_honors_retry_after() {
    let s = LinkState::initial("f".to_string(), 1, 3600, 0, 0);
    let result = HttpResult::Reply(HttpReply {
        status: 429,
        etag: None,
        last_modified: None,
        retry_after_seconds: Some(30),
        body: Vec::new(),
    });
    let r = complete_get(s, &result, 10_000, 0);
    assert_eq!(r.outcome, Outcome::Retryable);
    assert_eq!(r.state.last_status, LastStatus::ClientError);
    assert!(r.state.next_poll_at_ms >= 10_000 + 30_000);
    assert_eq!(r.state.next_poll_at_ms, 40_000);
}

#[test]
fn request_timeout_is_retryable() {
    let s = warm_state(60, 120, 3600);
    let r = complete_get(s, &reply(408, b""), 0, 0);
    assert_eq!(r.outcome, Outcome::Retryable);
    assert_eq!(r.state.etag.as_deref(), Some("a"));
}

#[test]
fn identical_body_is_not_new_content() {
    let mut s = warm_state(60, 120, 3600);
    s.content_hash = Some(stable_hash(b"same"));
    let result = HttpResult::Reply(HttpReply {
        status: 200,
        etag: Some("b".to_string()),
        last_modified: Some("today".to_string()),
        retry_after_seconds: None,
        body: b"same".to_vec(),
    });
    let r = complete_get(s, &result, 0, 0);
    assert_eq!(r.outcome, Outcome::Success);
    assert!(!r.parse_body);
    assert_eq!(r.state.content_hash, Some(stable_hash(b"same")));
    assert_eq!(r.state.etag.as_deref(), Some("b"));
    assert_eq!(r.state.last_modified.as_deref(), Some("today"));
    assert_eq!(r.state.current_poll_seconds, 180);
}

#[test]
fn oversize_body_is_fatal() {
    let s = warm_state(60, 120, 3600);
    let body = vec![b'x'; MAX_BODY_BYTES + 1];
    let r = complete_get(s, &reply(200, &body), 0, 0);
    assert_eq!(r.outcome, Outcome::Fatal);
    assert!(r.state.etag.is_none());
    assert_eq!(r.state.content_hash, Some(stable_hash(b"old")));
    assert_eq!(r.bytes_read, Some(MAX_BODY_BYTES as u64 + 1));
}

#[test]
fn unfollowed_redirect_is_retryable() {
    let s = warm_state(60, 120, 3600);
    let r = complete_get(s, &reply(302, b""), 0, 0);
    assert_eq!(r.outcome, Outcome::Retryable);
    assert_eq!(r.state.last_status, LastStatus::NetworkError);
}

#[test]
fn get_is_conditional_only_after_success() {
    let s = warm_state(60, 120, 3600);
    let p = plan_request(&s, Method::Get);
    assert_eq!(p.method, Method::Get);
    assert_eq!(p.if_none_match.as_deref(), Some("a"));
    let mut t = warm_state(60, 120, 3600);
    t.last_status = LastStatus::NotModified;
    let q = plan_request(&t, Method::Get);
    assert!(q.if_none_match.is_none() && q.if_modified_since.is_none());
}

#[test]
fn oversize_body_is_fatal_whatever_the_status() {
    let s = warm_state(60, 120, 3600);
    let body = vec![b'x'; MAX_BODY_BYTES + 1];
    let r = complete_get(s, &reply(503, &body), 0, 0);
    assert_eq!(r.outcome, Outcome::Fatal);
    assert_eq!(r.state.current_poll_seconds, 3600);
    assert!(r.state.etag.is_none() && r.state.last_modified.is_none());
    let t = warm_state(60, 120, 3600);
    let ok = complete_get(t, &reply(503, b"small"), 0, 0);
    assert_eq!(ok.outcome, Outcome::Retryable);
}

#[test]
fn transient_get_keeps_validators_and_backs_off() {
    let mut s = warm_state(60, 120, 3600);
    s.failure_streak = 2;
    let r = complete_get(s, &HttpResult::Failed(TransportError::Network), 0, 0);
    assert_eq!(r.state.failure_streak, 3);
    assert_eq!(r.state.current_poll_seconds, 480);
    assert_eq!(r.state.etag.as_deref(), Some("a"));
    assert_eq!(r.state.last_modified.as_deref(), Some("yesterday"));
    assert_eq!(r.state.content_hash, Some(stable_hash(b"old")));
}
