//! HEAD and GET actions: the conditional request to send, and how a reply
//! (or a transport failure) moves a feed's link state.
use vstd::prelude::*;

use crate::link_state::{
    cadenced, retry_lifted, schedulable_at, LastStatus, LinkState, Outcome, PPM,
};

verus! {

/// Largest GET body, in bytes, that is accepted; a larger one is fatal.
pub const MAX_BODY_BYTES: usize = 16 * 1024 * 1024;

/// FNV-1a offset basis (64 bits).
pub const FNV_OFFSET: u64 = 0xcbf2_9ce4_8422_2325;

/// FNV-1a prime (64 bits).
pub const FNV_PRIME: u64 = 0x0000_0100_0000_01b3;

#[derive(PartialEq, Eq, Structural, Clone, Copy, Debug)]
pub enum Method {
    Head,
    Get,
}

/// Why a request produced no HTTP reply.
#[derive(PartialEq, Eq, Structural, Clone, Copy, Debug)]
pub enum TransportError {
    Timeout,
    Network,
    Protocol,
}

/// A final HTTP reply, after redirects were followed. `body` is empty for HEAD.
#[derive(Debug)]
pub struct HttpReply {
    pub status: u16,
    pub etag: Option<String>,
    pub last_modified: Option<String>,
    pub retry_after_seconds: Option<u64>,
    pub body: Vec<u8>,
}

/// What a request produced.
#[derive(Debug)]
pub enum HttpResult {
    Reply(HttpReply),
    Failed(TransportError),
}

/// The request to send for a feed.
#[derive(Debug)]
pub struct RequestPlan {
    pub method: Method,
    pub if_none_match: Option<String>,
    pub if_modified_since: Option<String>,
}

/// A finished action: the new link state, how it ended, and whether the body
/// holds new content for the item parser.
#[derive(Debug)]
pub struct ActionReport {
    pub state: LinkState,
    pub outcome: Outcome,
    pub http_code: Option<u16>,
    pub bytes_read: Option<u64>,
    pub parse_body: bool,
}

/// Where a HEAD leaves a feed: done, or to be fetched with GET in the same tick.
#[derive(Debug)]
pub enum HeadStep {
    Finished(ActionReport),
    Promote(LinkState),
}

/// One FNV-1a step.
pub open spec fn fnv_step(h: u64, b: u8) -> u64 {
    (((h ^ (b as u64)) as nat * FNV_PRIME as nat) % 0x1_0000_0000_0000_0000nat) as u64
}

/// FNV-1a (64 bits) of a byte sequence.
pub open spec fn fnv1a(s: Seq<u8>) -> u64
    decreases s.len(),
{
    if s.len() == 0 {
        FNV_OFFSET
    } else {
        fnv_step(fnv1a(s.drop_last()), s.last())
    }
}

pub open spec fn is_success_code(code: u16) -> bool {
    200 <= code < 300
}

/// 408 and 429 are client errors that call for a retry.
pub open spec fn is_transient_client_code(code: u16) -> bool {
    code == 408 || code == 429
}

/// How a reply that is neither a success nor carries a body ends.
pub open spec fn reply_outcome(code: u16) -> Outcome {
    if is_success_code(code) {
        Outcome::Success
    } else if code == 304 {
        Outcome::NotModified
    } else if 400 <= code < 500 && !is_transient_client_code(code) {
        Outcome::Fatal
    } else {
        Outcome::Retryable
    }
}

/// The status recorded for a reply code. A code outside the success, 304,
/// 4xx and 5xx ranges (a redirect left unfollowed, an informational reply)
/// counts as a failed exchange.
pub open spec fn reply_status(code: u16) -> LastStatus {
    if is_success_code(code) {
        LastStatus::Success
    } else if code == 304 {
        LastStatus::NotModified
    } else if 400 <= code < 500 {
        LastStatus::ClientError
    } else if 500 <= code < 600 {
        LastStatus::ServerError
    } else {
        LastStatus::NetworkError
    }
}

/// The state with the given outcome fields set, then the cadence update.
pub open spec fn settled(
    s: LinkState,
    outcome: Outcome,
    new_content: bool,
    status: LastStatus,
    etag: Option<String>,
    last_modified: Option<String>,
    content_hash: Option<u64>,
    last_success_at_ms: Option<i64>,
    now_ms: i64,
    rand_ppm: u64,
) -> LinkState {
    cadenced(
        LinkState { last_status: status, etag, last_modified, content_hash, last_success_at_ms, ..s },
        outcome,
        new_content,
        now_ms,
        rand_ppm,
    )
}

/// After a transport failure: retryable, validators kept.
pub open spec fn transport_settled(s: LinkState, now_ms: i64, rand_ppm: u64) -> LinkState {
    settled(
        s,
        Outcome::Retryable,
        false,
        LastStatus::NetworkError,
        s.etag,
        s.last_modified,
        s.content_hash,
        s.last_success_at_ms,
        now_ms,
        rand_ppm,
    )
}

/// After a reply whose body is not read: 304 keeps the validators, a fatal
/// reply clears them, and a 429 lifts the next poll to its `Retry-After`.
pub open spec fn code_settled(s: LinkState, r: HttpReply, now_ms: i64, rand_ppm: u64) -> LinkState {
    let outcome = reply_outcome(r.status);
    let fatal = outcome == Outcome::Fatal;
    let after = settled(
        s,
        outcome,
        false,
        reply_status(r.status),
        if fatal { None } else { s.etag },
        if fatal { None } else { s.last_modified },
        s.content_hash,
        if outcome == Outcome::NotModified { Some(now_ms) } else { s.last_success_at_ms },
        now_ms,
        rand_ppm,
    );
    if r.status == 429 && r.retry_after_seconds is Some {
        retry_lifted(after, now_ms, r.retry_after_seconds->0)
    } else {
        after
    }
}

/// Whether a successful GET body is new content for the state.
pub open spec fn is_new_content(s: LinkState, body: Seq<u8>) -> bool {
    s.content_hash != Some(fnv1a(body))
}

/// After a GET whose body exceeds the size cap: fatal, validators cleared,
/// content hash kept.
pub open spec fn oversize_settled(s: LinkState, now_ms: i64, rand_ppm: u64) -> LinkState {
    settled(
        s,
        Outcome::Fatal,
        false,
        LastStatus::ClientError,
        None,
        None,
        s.content_hash,
        s.last_success_at_ms,
        now_ms,
        rand_ppm,
    )
}

/// After a successful GET within the size cap: the hash and the validators
/// are refreshed and the cadence halves on new content.
pub open spec fn body_settled(s: LinkState, r: HttpReply, now_ms: i64, rand_ppm: u64) -> LinkState {
    settled(
        s,
        Outcome::Success,
        is_new_content(s, r.body@),
        LastStatus::Success,
        r.etag,
        r.last_modified,
        Some(fnv1a(r.body@)),
        Some(now_ms),
        now_ms,
        rand_ppm,
    )
}

/// How a GET ends.
pub open spec fn get_outcome(result: HttpResult) -> Outcome {
    match result {
        HttpResult::Failed(_) => Outcome::Retryable,
        HttpResult::Reply(r) => if r.body@.len() > MAX_BODY_BYTES {
            Outcome::Fatal
        } else {
            reply_outcome(r.status)
        },
    }
}

/// The state after a GET.
pub open spec fn get_settled(s: LinkState, result: HttpResult, now_ms: i64, rand_ppm: u64) -> LinkState {
    match result {
        HttpResult::Failed(_) => transport_settled(s, now_ms, rand_ppm),
        HttpResult::Reply(r) => if r.body@.len() > MAX_BODY_BYTES {
            oversize_settled(s, now_ms, rand_ppm)
        } else if is_success_code(r.status) {
            body_settled(s, r, now_ms, rand_ppm)
        } else {
            code_settled(s, r, now_ms, rand_ppm)
        },
    }
}

/// Whether a GET produced new content to hand to the item parser.
pub open spec fn get_has_new_content(s: LinkState, result: HttpResult) -> bool {
    match result {
        HttpResult::Failed(_) => false,
        HttpResult::Reply(r) => is_success_code(r.status) && r.body@.len() <= MAX_BODY_BYTES
            && is_new_content(s, r.body@),
    }
}

pub open spec fn reply_code(result: HttpResult) -> Option<u16> {
    match result {
        HttpResult::Failed(_) => None,
        HttpResult::Reply(r) => Some(r.status),
    }
}

/// Bytes of body read, for a GET reply.
pub open spec fn body_bytes(result: HttpResult) -> Option<u64> {
    match result {
        HttpResult::Failed(_) => None,
        HttpResult::Reply(r) => Some(r.body@.len() as u64),
    }
}

/// What an action may be started on: a valid state, a clock reading far from
/// the end of `i64`, and a random draw in `[0, PPM)`.
pub open spec fn action_ready(s: LinkState, now_ms: i64, rand_ppm: u64) -> bool {
    s.wf() && schedulable_at(s, now_ms) && rand_ppm < PPM
}

/// The content hash of a body: FNV-1a over its bytes, stable across runs.
pub fn stable_hash(body: &[u8]) -> (r: u64)
    ensures
        r == fnv1a(body@),
{
    let mut h: u64 = FNV_OFFSET;
    let mut i: usize = 0;
    while i < body.len()
        invariant
            i <= body@.len(),
            h == fnv1a(body@.subrange(0, i as int)),
        decreases body@.len() - i,
    {
        proof {
            let next = body@.subrange(0, i + 1);
            assert(next.drop_last() =~= body@.subrange(0, i as int));
            assert(next.last() == body@[i as int]);
        }
        h = (h ^ (body[i] as u64)).wrapping_mul(FNV_PRIME);
        i = i + 1;
    }
    assert(body@.subrange(0, body@.len() as int) =~= body@);
    h
}

fn clone_text(o: &Option<String>) -> (r: Option<String>)
    ensures
        r == *o,
{
    match o {
        Some(s) => Some(s.clone()),
        None => None,
    }
}

/// The request for a feed: HEAD carries whichever validators exist; GET
/// carries them only after a successful last contact.
pub fn plan_request(state: &LinkState, method: Method) -> (r: RequestPlan)
    ensures
        r.method == method,
        (method == Method::Head || state.last_status == LastStatus::Success) ==> (
        r.if_none_match == state.etag && r.if_modified_since == state.last_modified),
        !(method == Method::Head || state.last_status == LastStatus::Success) ==> (
        r.if_none_match is None && r.if_modified_since is None),
{
    let conditional = match method {
        Method::Head => true,
        Method::Get => state.last_status == LastStatus::Success,
    };
    if conditional {
        RequestPlan {
            method,
            if_none_match: clone_text(&state.etag),
            if_modified_since: clone_text(&state.last_modified),
        }
    } else {
        RequestPlan { method, if_none_match: None, if_modified_since: None }
    }
}

/// Sets the outcome fields, then applies the cadence update.
fn settle(
    s: LinkState,
    outcome: Outcome,
    new_content: bool,
    status: LastStatus,
    etag: Option<String>,
    last_modified: Option<String>,
    content_hash: Option<u64>,
    last_success_at_ms: Option<i64>,
    now_ms: i64,
    rand_ppm: u64,
) -> (r: LinkState)
    requires
        action_ready(s, now_ms, rand_ppm),
    ensures
        r.wf(),
        r == settled(
            s,
            outcome,
            new_content,
            status,
            etag,
            last_modified,
            content_hash,
            last_success_at_ms,
            now_ms,
            rand_ppm,
        ),
{
    let mut s = s;
    s.last_status = status;
    s.etag = etag;
    s.last_modified = last_modified;
    s.content_hash = content_hash;
    s.last_success_at_ms = last_success_at_ms;
    s.apply_outcome(outcome, new_content, now_ms, rand_ppm);
    s
}

/// Settles a reply whose body is not read (HEAD, or a GET that did not
/// succeed).
fn settle_code(s: LinkState, r: &HttpReply, now_ms: i64, rand_ppm: u64) -> (out: (LinkState, Outcome))
    requires
        action_ready(s, now_ms, rand_ppm),
        !is_success_code(r.status),
    ensures
        out.0.wf(),
        out.0 == code_settled(s, *r, now_ms, rand_ppm),
        out.1 == reply_outcome(r.status),
{
    let code = r.status;
    let outcome = if code == 304 {
        Outcome::NotModified
    } else if 400 <= code && code < 500 && code != 408 && code != 429 {
        Outcome::Fatal
    } else {
        Outcome::Retryable
    };
    let status = if code == 304 {
        LastStatus::NotModified
    } else if 400 <= code && code < 500 {
        LastStatus::ClientError
    } else if 500 <= code && code < 600 {
        LastStatus::ServerError
    } else {
        LastStatus::NetworkError
    };
    let fatal = outcome == Outcome::Fatal;
    let etag = if fatal {
        None
    } else {
        clone_text(&s.etag)
    };
    let last_modified = if fatal {
        None
    } else {
        clone_text(&s.last_modified)
    };
    let content_hash = s.content_hash;
    let last_success = if outcome == Outcome::NotModified {
        Some(now_ms)
    } else {
        s.last_success_at_ms
    };
    let mut after = settle(
        s,
        outcome,
        false,
        status,
        etag,
        last_modified,
        content_hash,
        last_success,
        now_ms,
        rand_ppm,
    );
    if code == 429 {
        if let Some(secs) = r.retry_after_seconds {
            after.apply_retry_after(now_ms, secs);
        }
    }
    (after, outcome)
}

/// Settles a transport failure.
fn settle_transport(s: LinkState, now_ms: i64, rand_ppm: u64) -> (r: LinkState)
    requires
        action_ready(s, now_ms, rand_ppm),
    ensures
        r.wf(),
        r == transport_settled(s, now_ms, rand_ppm),
{
    let etag = clone_text(&s.etag);
    let last_modified = clone_text(&s.last_modified);
    let content_hash = s.content_hash;
    let last_success = s.last_success_at_ms;
    settle(
        s,
        Outcome::Retryable,
        false,
        LastStatus::NetworkError,
        etag,
        last_modified,
        content_hash,
        last_success,
        now_ms,
        rand_ppm,
    )
}

/// Interprets the reply to a conditional HEAD: 304 is not-modified with
/// validators kept, a 2xx promotes the feed to a GET in the same tick, a
/// fatal 4xx clears the validators, everything else is retryable.
pub fn complete_head(state: LinkState, result: &HttpResult, now_ms: i64, rand_ppm: u64) -> (r:
    HeadStep)
    requires
        action_ready(state, now_ms, rand_ppm),
    ensures
        match *result {
            HttpResult::Failed(_) => r == HeadStep::Finished(
                ActionReport {
                    state: transport_settled(state, now_ms, rand_ppm),
                    outcome: Outcome::Retryable,
                    http_code: None,
                    bytes_read: None,
                    parse_body: false,
                },
            ),
            HttpResult::Reply(reply) => if is_success_code(reply.status) {
                r == HeadStep::Promote(state)
            } else {
                r == HeadStep::Finished(
                    ActionReport {
                        state: code_settled(state, reply, now_ms, rand_ppm),
                        outcome: reply_outcome(reply.status),
                        http_code: Some(reply.status),
                        bytes_read: None,
                        parse_body: false,
                    },
                )
            },
        },
        r matches HeadStep::Finished(a) ==> a.state.wf(),
        r matches HeadStep::Promote(s) ==> s.wf(),
{
    match result {
        HttpResult::Failed(_) => {
            let s = settle_transport(state, now_ms, rand_ppm);
            HeadStep::Finished(
                ActionReport {
                    state: s,
                    outcome: Outcome::Retryable,
                    http_code: None,
                    bytes_read: None,
                    parse_body: false,
                },
            )
        },
        HttpResult::Reply(reply) => {
            if 200 <= reply.status && reply.status < 300 {
                HeadStep::Promote(state)
            } else {
                let (s, outcome) = settle_code(state, reply, now_ms, rand_ppm);
                HeadStep::Finished(
                    ActionReport {
                        state: s,
                        outcome,
                        http_code: Some(reply.status),
                        bytes_read: None,
                        parse_body: false,
                    },
                )
            }
        },
    }
}

/// Interprets the reply to a GET: a body over the size cap, whatever the
/// status, and a fatal 4xx park the feed and clear the validators; a 2xx
/// body within the cap refreshes the validators and the content hash (new
/// content when the hash differs from the stored one, or none was stored);
/// 304 is not-modified; 408, 429, 5xx and transport failures are retryable.
pub fn complete_get(state: LinkState, result: &HttpResult, now_ms: i64, rand_ppm: u64) -> (r:
    ActionReport)
    requires
        action_ready(state, now_ms, rand_ppm),
    ensures
        r.state.wf(),
        r.state == get_settled(state, *result, now_ms, rand_ppm),
        r.outcome == get_outcome(*result),
        r.http_code == reply_code(*result),
        r.bytes_read == body_bytes(*result),
        r.parse_body == get_has_new_content(state, *result),
{
    match result {
        HttpResult::Failed(_) => {
            let s = settle_transport(state, now_ms, rand_ppm);
            ActionReport {
                state: s,
                outcome: Outcome::Retryable,
                http_code: None,
                bytes_read: None,
                parse_body: false,
            }
        },
        HttpResult::Reply(reply) => {
            let bytes = reply.body.len() as u64;
            if reply.body.len() > MAX_BODY_BYTES {
                let content_hash = state.content_hash;
                let last_success = state.last_success_at_ms;
                let s = settle(
                    state,
                    Outcome::Fatal,
                    false,
                    LastStatus::ClientError,
                    None,
                    None,
                    content_hash,
                    last_success,
                    now_ms,
                    rand_ppm,
                );
                ActionReport {
                    state: s,
                    outcome: Outcome::Fatal,
                    http_code: Some(reply.status),
                    bytes_read: Some(bytes),
                    parse_body: false,
                }
            } else if 200 <= reply.status && reply.status < 300 {
                let h = stable_hash(reply.body.as_slice());
                let new_content = match state.content_hash {
                    Some(old) => old != h,
                    None => true,
                };
                let s = settle(
                    state,
                    Outcome::Success,
                    new_content,
                    LastStatus::Success,
                    clone_text(&reply.etag),
                    clone_text(&reply.last_modified),
                    Some(h),
                    Some(now_ms),
                    now_ms,
                    rand_ppm,
                );
                ActionReport {
                    state: s,
                    outcome: Outcome::Success,
                    http_code: Some(reply.status),
                    bytes_read: Some(bytes),
                    parse_body: new_content,
                }
            } else {
                let (s, outcome) = settle_code(state, reply, now_ms, rand_ppm);
                ActionReport {
                    state: s,
                    outcome,
                    http_code: Some(reply.status),
                    bytes_read: Some(bytes),
                    parse_body: false,
                }
            }
        },
    }
}

/// A successful GET whose body is the stored content keeps the content hash,
/// refreshes the validators from the reply, and grows the cadence as for no
/// new content.
pub proof fn lemma_same_body_is_not_new(s: LinkState, reply: HttpReply, now_ms: i64, rand_ppm: u64)
    requires
        is_success_code(reply.status),
        reply.body@.len() <= MAX_BODY_BYTES,
        s.content_hash == Some(fnv1a(reply.body@)),
    ensures
        ({
            let after = get_settled(s, HttpResult::Reply(reply), now_ms, rand_ppm);
            &&& after.content_hash == s.content_hash
            &&& after.etag == reply.etag
            &&& after.last_modified == reply.last_modified
            &&& after.last_status == LastStatus::Success
            &&& after.failure_streak == 0
            &&& after.current_poll_seconds == crate::link_state::min_int(
                s.max_poll_seconds as int,
                s.current_poll_seconds * 3 / 2,
            ) as u64
        }),
        get_outcome(HttpResult::Reply(reply)) == Outcome::Success,
        !get_has_new_content(s, HttpResult::Reply(reply)),
{
}

/// Whether a reply asks, through `Retry-After`, for a pause longer than one
/// and a half times the largest cadence.
pub open spec fn retry_after_beyond_window(s: LinkState, result: HttpResult) -> bool {
    match result {
        HttpResult::Reply(r) => r.status == 429 && (r.retry_after_seconds matches Some(secs)
            && secs * 1000 > s.max_poll_seconds * 1500),
        HttpResult::Failed(_) => false,
    }
}

/// After every completed action the next poll lies between half the base
/// cadence and one and a half times the largest cadence from now, unless
/// the origin's `Retry-After` asked for a longer pause.
pub proof fn lemma_completed_action_window(s: LinkState, result: HttpResult, now_ms: i64, rand_ppm: u64)
    requires
        action_ready(s, now_ms, rand_ppm),
        !retry_after_beyond_window(s, result),
    ensures
        crate::link_state::within_poll_window(
            get_settled(s, result, now_ms, rand_ppm).next_poll_at_ms,
            s,
            now_ms,
        ),
{
    match result {
        HttpResult::Failed(_) => {
            let t = LinkState { last_status: LastStatus::NetworkError, ..s };
            crate::link_state::lemma_next_poll_window(t, Outcome::Retryable, false, now_ms, rand_ppm);
        },
        HttpResult::Reply(r) => {
            if r.body@.len() > MAX_BODY_BYTES {
                let t = LinkState {
                    last_status: LastStatus::ClientError,
                    etag: None,
                    last_modified: None,
                    ..s
                };
                crate::link_state::lemma_next_poll_window(t, Outcome::Fatal, false, now_ms, rand_ppm);
            } else if is_success_code(r.status) {
                let t = LinkState {
                    last_status: LastStatus::Success,
                    etag: r.etag,
                    last_modified: r.last_modified,
                    content_hash: Some(fnv1a(r.body@)),
                    last_success_at_ms: Some(now_ms),
                    ..s
                };
                crate::link_state::lemma_next_poll_window(
                    t,
                    Outcome::Success,
                    is_new_content(s, r.body@),
                    now_ms,
                    rand_ppm,
                );
            } else {
                let outcome = reply_outcome(r.status);
                let fatal = outcome == Outcome::Fatal;
                let t = LinkState {
                    last_status: reply_status(r.status),
                    etag: if fatal { None } else { s.etag },
                    last_modified: if fatal { None } else { s.last_modified },
                    content_hash: s.content_hash,
                    last_success_at_ms: if outcome == Outcome::NotModified {
                        Some(now_ms)
                    } else {
                        s.last_success_at_ms
                    },
                    ..s
                };
                crate::link_state::lemma_next_poll_window(t, outcome, false, now_ms, rand_ppm);
            }
        },
    }
}

/// A GET moves the failure streak by its outcome alone: up by one on a
/// transient or fatal end, back to zero on success or not-modified.
pub proof fn lemma_get_streak(s: LinkState, result: HttpResult, now_ms: i64, rand_ppm: u64)
    ensures
        get_settled(s, result, now_ms, rand_ppm).failure_streak == crate::link_state::next_streak(
            s.failure_streak,
            get_outcome(result),
        ),
{
}

/// A GET that ends transiently (408, 429, 5xx or a transport failure, with
/// the body within the size cap) raises the failure streak by one below its
/// ceiling, backs the cadence off exponentially from the base, and keeps the
/// validators and the content hash.
pub proof fn lemma_transient_get(s: LinkState, result: HttpResult, now_ms: i64, rand_ppm: u64)
    requires
        get_outcome(result) == Outcome::Retryable,
        s.failure_streak < u32::MAX,
    ensures
        ({
            let after = get_settled(s, result, now_ms, rand_ppm);
            &&& after.failure_streak == s.failure_streak + 1
            &&& after.current_poll_seconds == crate::link_state::min_int(
                s.max_poll_seconds as int,
                s.base_poll_seconds * crate::link_state::pow2(
                    crate::link_state::min_int(
                        after.failure_streak as int,
                        crate::link_state::MAX_BACKOFF_EXPONENT as int,
                    ) as nat,
                ),
            ) as u64
            &&& after.etag == s.etag
            &&& after.last_modified == s.last_modified
            &&& after.content_hash == s.content_hash
        }),
{
}

} // verus!
