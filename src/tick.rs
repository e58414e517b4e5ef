//! One scheduler tick: which due feeds are processed, the per-feed decision,
//! history sampling, and what an action persists.
use vstd::prelude::*;

use crate::config::{clone_feed, AppConfig, FeedConfig};
use crate::fetch::{ActionReport, Method};
use crate::link_state::{decision, LastStatus, LinkState, NextAction, Outcome, PPM};

verus! {

/// Pause before the one retry of a failed state write, in milliseconds.
pub const STATE_WRITE_RETRY_MS: u64 = 100;

/// One sampled action, as appended to the history.
#[derive(Debug)]
pub struct HistoryRecord {
    pub feed_id: String,
    pub attempted_at_ms: i64,
    pub method: Method,
    pub status_class: LastStatus,
    pub http_code: Option<u16>,
    pub bytes_read: Option<u64>,
    pub duration_ms: u64,
    pub outcome: Outcome,
}

/// What a finished action writes, in this order: the latest state (always),
/// the history record (when sampled), the parsed items (on new content).
#[derive(Debug)]
pub struct PersistPlan {
    pub state: LinkState,
    pub history: Option<HistoryRecord>,
    pub parse_items: bool,
}

/// The first-observation state of a feed: cadence at the feed's base; the
/// largest cadence is the configured one, or the base where that is larger.
pub open spec fn seeded(cfg: AppConfig, feed: FeedConfig, now_ms: i64) -> LinkState {
    let max = if feed.base_poll_seconds > cfg.max_poll_seconds {
        feed.base_poll_seconds
    } else {
        cfg.max_poll_seconds
    };
    LinkState {
        feed_id: feed.id,
        base_poll_seconds: feed.base_poll_seconds,
        current_poll_seconds: feed.base_poll_seconds,
        max_poll_seconds: max,
        jitter_ppm: cfg.jitter_ppm,
        next_poll_at_ms: now_ms,
        last_attempt_at_ms: None,
        last_status: LastStatus::Unknown,
        failure_streak: 0,
        etag: None,
        last_modified: None,
        content_hash: None,
        last_success_at_ms: None,
    }
}

/// The state a feed is processed from: the stored one when it is valid and
/// belongs to the feed, otherwise a fresh one.
pub open spec fn hydrated(cfg: AppConfig, feed: FeedConfig, stored: Option<LinkState>, now_ms: i64) -> LinkState {
    match stored {
        Some(s) => if s.wf() && s.feed_id@ == feed.id@ {
            s
        } else {
            seeded(cfg, feed, now_ms)
        },
        None => seeded(cfg, feed, now_ms),
    }
}

/// Whether a draw in `[0, PPM)` selects the action for the history.
pub open spec fn sampled(rate_ppm: u64, draw_ppm: u64) -> bool {
    draw_ppm < rate_ppm
}

/// Whether feed ids are pairwise distinct.
pub open spec fn distinct_ids(s: Seq<FeedConfig>) -> bool {
    forall|i: int, j: int| 0 <= i < j < s.len() ==> s[i].id@ != s[j].id@
}

/// Whether some feed of `s` has id `id`.
pub open spec fn has_id(s: Seq<FeedConfig>, id: Seq<char>) -> bool {
    exists|i: int| 0 <= i < s.len() && #[trigger] s[i].id@ == id
}

/// The due feeds in order, each id kept at its first occurrence only.
pub open spec fn first_occurrences(s: Seq<FeedConfig>) -> Seq<FeedConfig>
    decreases s.len(),
{
    if s.len() == 0 {
        s
    } else {
        let p = first_occurrences(s.drop_last());
        if has_id(p, s.last().id@) {
            p
        } else {
            p.push(s.last())
        }
    }
}

/// The feeds a tick processes: first occurrences, at most `limit` of them.
pub open spec fn tick_batch(due: Seq<FeedConfig>, limit: nat) -> Seq<FeedConfig> {
    let f = first_occurrences(due);
    if f.len() <= limit {
        f
    } else {
        f.take(limit as int)
    }
}

proof fn lemma_first_occurrences_distinct(s: Seq<FeedConfig>)
    ensures
        distinct_ids(first_occurrences(s)),
    decreases s.len(),
{
    if s.len() > 0 {
        lemma_first_occurrences_distinct(s.drop_last());
        let p = first_occurrences(s.drop_last());
        if !has_id(p, s.last().id@) {
            let q = p.push(s.last());
            assert forall|i: int, j: int| 0 <= i < j < q.len() implies q[i].id@ != q[j].id@ by {
                if j == q.len() - 1 {
                    assert(p[i].id@ != s.last().id@);
                }
            }
        }
    }
}

/// Between two ticks each feed gets at most one state write: a tick
/// processes each feed id at most once, and processing a feed yields at most
/// one state to write.
pub proof fn lemma_one_state_write_per_feed(due: Seq<FeedConfig>, limit: nat)
    ensures
        distinct_ids(tick_batch(due, limit)),
{
    lemma_first_occurrences_distinct(due);
    let f = first_occurrences(due);
    if f.len() > limit {
        assert forall|i: int, j: int|
            0 <= i < j < tick_batch(due, limit).len() implies tick_batch(due, limit)[i].id@
            != tick_batch(due, limit)[j].id@ by {
            assert(tick_batch(due, limit)[i] == f[i]);
            assert(tick_batch(due, limit)[j] == f[j]);
        }
    }
}

/// A history record is only ever made of an action that ran: it names the
/// action's feed, time, method and outcome, and exists exactly when sampled.
pub proof fn lemma_history_only_of_actions(
    report: ActionReport,
    method: Method,
    attempted_at_ms: i64,
    duration_ms: u64,
    sampled: bool,
    plan: PersistPlan,
)
    requires
        finished(report, method, attempted_at_ms, duration_ms, sampled, plan),
    ensures
        plan.history is Some <==> sampled,
        plan.history matches Some(h) ==> h.feed_id@ == plan.state.feed_id@ && h.attempted_at_ms
            == attempted_at_ms && h.method == method && h.outcome == report.outcome,
{
}

/// Of the `PPM` equally likely draws, exactly `rate_ppm` select an action for
/// the history: the expected share of sampled actions is the sample rate.
pub proof fn lemma_sampling_share(rate_ppm: u64)
    requires
        rate_ppm <= PPM,
    ensures
        Set::new(|d: int| 0 <= d < PPM && sampled(rate_ppm, d as u64)).len() == rate_ppm,
{
    let s = Set::new(|d: int| 0 <= d < PPM && sampled(rate_ppm, d as u64));
    assert(s =~= vstd::set_lib::set_int_range(0, rate_ppm as int));
    vstd::set_lib::lemma_int_range(0, rate_ppm as int);
}

/// The persist plan of a finished action.
pub open spec fn finished(
    report: ActionReport,
    method: Method,
    attempted_at_ms: i64,
    duration_ms: u64,
    sampled: bool,
    plan: PersistPlan,
) -> bool {
    &&& plan.state == report.state
    &&& plan.parse_items == report.parse_body
    &&& plan.history is Some <==> sampled
    &&& plan.history matches Some(h) ==> {
        &&& h.feed_id@ == report.state.feed_id@
        &&& h.attempted_at_ms == attempted_at_ms
        &&& h.method == method
        &&& h.status_class == report.state.last_status
        &&& h.http_code == report.http_code
        &&& h.bytes_read == report.bytes_read
        &&& h.duration_ms == duration_ms
        &&& h.outcome == report.outcome
    }
}

/// The state a due feed is processed from, and what to do with it now.
pub fn start_feed(cfg: &AppConfig, feed: FeedConfig, stored: Option<LinkState>, now_ms: i64) -> (r:
    NextAction)
    requires
        cfg.wf(),
        feed.wf(),
    ensures
        r == decision(hydrated(*cfg, feed, stored, now_ms), now_ms),
        hydrated(*cfg, feed, stored, now_ms).wf(),
{
    let state = match stored {
        Some(s) => {
            if s.is_valid() && s.feed_id == feed.id {
                s
            } else {
                seed_state(cfg, feed, now_ms)
            }
        },
        None => seed_state(cfg, feed, now_ms),
    };
    LinkState::decide_next_action(state, now_ms)
}

fn seed_state(cfg: &AppConfig, feed: FeedConfig, now_ms: i64) -> (r: LinkState)
    requires
        cfg.wf(),
        feed.wf(),
    ensures
        r == seeded(*cfg, feed, now_ms),
        r.wf(),
{
    let max = if feed.base_poll_seconds > cfg.max_poll_seconds {
        feed.base_poll_seconds
    } else {
        cfg.max_poll_seconds
    };
    LinkState::initial(feed.id, feed.base_poll_seconds, max, cfg.jitter_ppm, now_ms)
}

/// Whether this action goes to the history: a draw in `[0, PPM)` below the
/// sample rate.
pub fn should_record_history(cfg: &AppConfig, draw_ppm: u64) -> (r: bool)
    ensures
        r == sampled(cfg.history_sample_rate_ppm, draw_ppm),
{
    draw_ppm < cfg.history_sample_rate_ppm
}

/// Turns a finished action into what it persists.
pub fn finish_action(
    report: ActionReport,
    method: Method,
    attempted_at_ms: i64,
    duration_ms: u64,
    sampled: bool,
) -> (r: PersistPlan)
    ensures
        finished(report, method, attempted_at_ms, duration_ms, sampled, r),
{
    let history = if sampled {
        Some(
            HistoryRecord {
                feed_id: report.state.feed_id.clone(),
                attempted_at_ms,
                method,
                status_class: report.state.last_status,
                http_code: report.http_code,
                bytes_read: report.bytes_read,
                duration_ms,
                outcome: report.outcome,
            },
        )
    } else {
        None
    };
    PersistPlan { state: report.state, history, parse_items: report.parse_body }
}

fn contains_id(s: &Vec<FeedConfig>, id: &String) -> (r: bool)
    ensures
        r == has_id(s@, id@),
{
    let mut i: usize = 0;
    while i < s.len()
        invariant
            i <= s@.len(),
            forall|k: int| 0 <= k < i ==> s@[k].id@ != id@,
        decreases s@.len() - i,
    {
        if s[i].id == *id {
            return true;
        }
        i = i + 1;
    }
    false
}

proof fn lemma_first_occurrences_extends(s: Seq<FeedConfig>, x: FeedConfig)
    ensures
        first_occurrences(s).len() <= first_occurrences(s.push(x)).len(),
        first_occurrences(s.push(x)).subrange(0, first_occurrences(s).len() as int)
            == first_occurrences(s),
{
    assert(s.push(x).drop_last() =~= s);
    assert(first_occurrences(s).subrange(0, first_occurrences(s).len() as int) =~= first_occurrences(s));
    assert(first_occurrences(s).push(x).subrange(0, first_occurrences(s).len() as int) =~= first_occurrences(s));
}

/// The feeds of a tick: the due feeds in order, a repeated id skipped, at
/// most `limit` of them.
pub fn plan_tick(due: Vec<FeedConfig>, limit: u64) -> (r: Vec<FeedConfig>)
    ensures
        r@ == tick_batch(due@, limit as nat),
        distinct_ids(r@),
{
    let mut out: Vec<FeedConfig> = Vec::new();
    let mut i: usize = 0;
    while i < due.len()
        invariant
            i <= due@.len(),
            out@ == tick_batch(due@.subrange(0, i as int), limit as nat),
        decreases due@.len() - i,
    {
        let ghost prefix = due@.subrange(0, i as int);
        let ghost next = due@.subrange(0, i + 1);
        proof {
            assert(next =~= prefix.push(due@[i as int]));
            assert(next.drop_last() =~= prefix);
            lemma_first_occurrences_extends(prefix, due@[i as int]);
        }
        if (out.len() as u64) < limit {
            if !contains_id(&out, &due[i].id) {
                proof {
                    assert(out@ == first_occurrences(prefix));
                    assert(first_occurrences(next) == first_occurrences(prefix).push(due@[i as int]));
                }
                out.push(clone_feed(&due[i]));
            } else {
                proof {
                    assert(out@ == first_occurrences(prefix));
                    assert(first_occurrences(next) == first_occurrences(prefix));
                }
            }
        } else {
            proof {
                let f0 = first_occurrences(prefix);
                let f1 = first_occurrences(next);
                assert(f0.len() >= limit);
                assert(f1.take(limit as int) =~= f0.take(limit as int)) by {
                    assert(f1.subrange(0, f0.len() as int) == f0);
                    assert forall|k: int| 0 <= k < limit implies f1.take(limit as int)[k] == f0.take(
                        limit as int,
                    )[k] by {
                        assert(f1.subrange(0, f0.len() as int)[k] == f1[k]);
                    }
                }
            }
        }
        i = i + 1;
    }
    proof {
        assert(due@.subrange(0, due@.len() as int) =~= due@);
        lemma_one_state_write_per_feed(due@, limit as nat);
    }
    out
}

/// After a failed write of the latest state: the pause before the one retry,
/// or `None` once the retry has failed too (the feed is skipped this tick and
/// stays due).
pub fn state_write_retry(failed_attempts: u32) -> (r: Option<u64>)
    ensures
        r == if failed_attempts <= 1 {
            Some(STATE_WRITE_RETRY_MS)
        } else {
            None::<u64>
        },
{
    if failed_attempts <= 1 {
        Some(STATE_WRITE_RETRY_MS)
    } else {
        None
    }
}

} // verus!
