//! The orchestrator's timing and the bundle of collaborators a scheduler
//! runs with.
use vstd::prelude::*;

use std::sync::Arc;

use crate::config::AppConfig;
use crate::link_state::{max_int, min_int};

verus! {

/// The configuration and the collaborators of a running scheduler: store,
/// HTTP client, clock and random source.
pub struct AppContext<R, H, C, G> {
    pub cfg: Arc<AppConfig>,
    pub repo: Arc<R>,
    pub http: Arc<H>,
    pub clock: Arc<C>,
    pub rng: Arc<G>,
}

impl<R, H, C, G> Clone for AppContext<R, H, C, G> {
    fn clone(&self) -> (r: Self) {
        AppContext {
            cfg: Arc::clone(&self.cfg),
            repo: Arc::clone(&self.repo),
            http: Arc::clone(&self.http),
            clock: Arc::clone(&self.clock),
            rng: Arc::clone(&self.rng),
        }
    }
}

/// Drives ticks at a fixed interval; a tick that overruns is followed at
/// once by the next, and ticks never overlap.
#[derive(Clone, Copy, Debug)]
pub struct Scheduler {
    pub tick_interval_ms: u64,
}

/// When the tick after one that started at `started_ms` and finished at
/// `finished_ms` begins.
pub open spec fn next_tick_start(interval_ms: u64, started_ms: i64, finished_ms: i64) -> int {
    max_int(min_int(started_ms + interval_ms, i64::MAX as int), finished_ms as int)
}

impl Scheduler {
    /// A scheduler ticking at the configured interval (saturating).
    pub fn new(cfg: &AppConfig) -> (r: Scheduler)
        ensures
            r.tick_interval_ms == min_int(cfg.tick_interval_seconds * 1000, u64::MAX as int),
    {
        let secs = cfg.tick_interval_seconds;
        let ms = if secs > u64::MAX / 1000 {
            u64::MAX
        } else {
            secs * 1000
        };
        Scheduler { tick_interval_ms: ms }
    }

    /// Start of the next tick: one interval after this tick's start, or
    /// when this tick finished if it overran.
    pub fn next_tick_at(&self, started_ms: i64, finished_ms: i64) -> (r: i64)
        ensures
            r == next_tick_start(self.tick_interval_ms, started_ms, finished_ms),
            r >= finished_ms,
    {
        let wide: i128 = started_ms as i128 + self.tick_interval_ms as i128;
        let due: i64 = if wide > i64::MAX as i128 {
            i64::MAX
        } else {
            wide as i64
        };
        if due >= finished_ms {
            due
        } else {
            finished_ms
        }
    }

    /// Milliseconds to wait at `now_ms` before a tick due at `at_ms`.
    pub fn wait_ms(at_ms: i64, now_ms: i64) -> (r: u64)
        ensures
            r == max_int(at_ms - now_ms, 0),
    {
        if at_ms <= now_ms {
            0
        } else {
            (at_ms as i128 - now_ms as i128) as u64
        }
    }
}

} // verus!
