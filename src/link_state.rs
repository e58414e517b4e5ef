//! Per-feed link state: poll cadence, conditional-request validators and
//! failure backoff, together with the decision of what to do next.
use vstd::prelude::*;

verus! {

/// Scale of every fraction and random draw in this crate: one whole is a
/// million parts.
pub const PPM: u64 = 1_000_000;

/// Largest cadence, in seconds, that a link state may carry (about 31,700
/// years). It keeps every millisecond computation inside `i64`.
pub const POLL_SECONDS_LIMIT: u64 = 1_000_000_000_000;

/// Backoff doubles at most this many times.
pub const MAX_BACKOFF_EXPONENT: u32 = 8;

/// What the last contact with the origin produced.
#[derive(PartialEq, Eq, Structural, Clone, Copy, Debug)]
pub enum LastStatus {
    Unknown,
    Success,
    NotModified,
    ClientError,
    ServerError,
    NetworkError,
}

/// How a completed action ended, as far as cadence is concerned.
#[derive(PartialEq, Eq, Structural, Clone, Copy, Debug)]
pub enum Outcome {
    Success,
    NotModified,
    Retryable,
    Fatal,
}

/// Schedule, validators and failure history of one feed.
#[derive(Clone, Debug)]
pub struct LinkState {
    pub feed_id: String,
    pub base_poll_seconds: u64,
    pub current_poll_seconds: u64,
    pub max_poll_seconds: u64,
    pub jitter_ppm: u64,
    pub next_poll_at_ms: i64,
    pub last_attempt_at_ms: Option<i64>,
    pub last_status: LastStatus,
    pub failure_streak: u32,
    pub etag: Option<String>,
    pub last_modified: Option<String>,
    pub content_hash: Option<u64>,
    pub last_success_at_ms: Option<i64>,
}

/// What the scheduler does with a feed at a given instant.
#[derive(Debug)]
pub enum NextAction {
    SleepUntil { at_ms: i64 },
    DoHead { state: LinkState },
    DoGet { state: LinkState },
}

pub open spec fn min_int(a: int, b: int) -> int {
    if a <= b { a } else { b }
}

pub open spec fn max_int(a: int, b: int) -> int {
    if a >= b { a } else { b }
}

pub open spec fn clamp_int(x: int, lo: int, hi: int) -> int {
    if x < lo { lo } else if x > hi { hi } else { x }
}

pub open spec fn pow2(n: nat) -> nat
    decreases n,
{
    if n == 0 { 1 } else { 2 * pow2((n - 1) as nat) }
}

/// The failure streak after an action with the given outcome.
pub open spec fn next_streak(streak: u32, outcome: Outcome) -> u32 {
    match outcome {
        Outcome::Success | Outcome::NotModified => 0,
        Outcome::Retryable | Outcome::Fatal => if streak == u32::MAX {
            streak
        } else {
            (streak + 1) as u32
        },
    }
}

/// The cadence, in seconds, after an action with the given outcome, where
/// `prior_streak` is the failure streak before the action. New content
/// halves the cadence (not below the base), or restarts it at the base when
/// the feed was failing; an unchanged feed grows it by half (up to the
/// largest); a transient failure backs off exponentially from the base; a
/// fatal reply parks the feed at the largest cadence.
pub open spec fn next_cadence(
    base: int,
    current: int,
    max: int,
    prior_streak: u32,
    outcome: Outcome,
    new_content: bool,
) -> int {
    match outcome {
        Outcome::Success => if new_content {
            if prior_streak > 0 {
                base
            } else {
                max_int(base, current / 2)
            }
        } else {
            min_int(max, current * 3 / 2)
        },
        Outcome::NotModified => min_int(max, current * 3 / 2),
        Outcome::Retryable => min_int(
            max,
            base * pow2(
                min_int(next_streak(prior_streak, outcome) as int, MAX_BACKOFF_EXPONENT as int) as nat,
            ),
        ),
        Outcome::Fatal => max,
    }
}

/// Signed jitter in milliseconds: `current * 1000 * jitter * (2 * rand - 1)`
/// with `jitter` and `rand` in parts per million, rounded toward zero.
pub open spec fn jitter_ms(current: int, jitter_ppm: int, rand_ppm: int) -> int {
    let d = 2 * rand_ppm - PPM;
    if d >= 0 {
        (current * jitter_ppm * d) / 1_000_000_000
    } else {
        -((current * jitter_ppm * (-d)) / 1_000_000_000)
    }
}

/// Milliseconds until the next poll: the jittered cadence, clamped to
/// `[base * 500, max * 1500]`.
pub open spec fn poll_interval_ms(
    base: int,
    current: int,
    max: int,
    jitter_ppm: int,
    rand_ppm: int,
) -> int {
    clamp_int(current * 1000 + jitter_ms(current, jitter_ppm, rand_ppm), base * 500, max * 1500)
}

/// Whether the state carries an `ETag` or a `Last-Modified` validator.
pub open spec fn has_validators(s: LinkState) -> bool {
    s.etag is Some || s.last_modified is Some
}

/// Whether a due feed is probed with a conditional HEAD rather than a GET.
pub open spec fn prefers_head(s: LinkState) -> bool {
    has_validators(s) && (s.last_status == LastStatus::Success || s.last_status
        == LastStatus::NotModified) && s.failure_streak == 0
}

/// The decision for a state at an instant.
pub open spec fn decision(s: LinkState, now_ms: i64) -> NextAction {
    if now_ms < s.next_poll_at_ms {
        NextAction::SleepUntil { at_ms: s.next_poll_at_ms }
    } else if prefers_head(s) {
        NextAction::DoHead { state: s }
    } else {
        NextAction::DoGet { state: s }
    }
}

/// Whether `next_ms` lies between half the base cadence and one and a half
/// times the largest cadence after `now_ms`.
pub open spec fn within_poll_window(next_ms: i64, s: LinkState, now_ms: i64) -> bool {
    now_ms + s.base_poll_seconds * 500 <= next_ms <= now_ms + s.max_poll_seconds * 1500
}

/// Whether `now_ms` is far enough from the end of `i64` for any cadence of
/// the state to be added to it.
pub open spec fn schedulable_at(s: LinkState, now_ms: i64) -> bool {
    now_ms + s.max_poll_seconds * 1500 <= i64::MAX
}

/// The state after the cadence update for an action that ended at `now_ms`
/// with `outcome`: failure streak, cadence, next poll time and attempt time
/// change, nothing else does.
pub open spec fn cadenced(
    s: LinkState,
    outcome: Outcome,
    new_content: bool,
    now_ms: i64,
    rand_ppm: u64,
) -> LinkState {
    let streak = next_streak(s.failure_streak, outcome);
    let cadence = next_cadence(
        s.base_poll_seconds as int,
        s.current_poll_seconds as int,
        s.max_poll_seconds as int,
        s.failure_streak,
        outcome,
        new_content,
    );
    LinkState {
        failure_streak: streak,
        current_poll_seconds: cadence as u64,
        next_poll_at_ms: (now_ms + poll_interval_ms(
            s.base_poll_seconds as int,
            cadence,
            s.max_poll_seconds as int,
            s.jitter_ppm as int,
            rand_ppm as int,
        )) as i64,
        last_attempt_at_ms: Some(now_ms),
        ..s
    }
}

/// The state with its next poll time lifted to at least `retry_after_seconds`
/// after `now_ms` (saturating at the end of `i64`).
pub open spec fn retry_lifted(s: LinkState, now_ms: i64, retry_after_seconds: u64) -> LinkState {
    LinkState {
        next_poll_at_ms: max_int(
            s.next_poll_at_ms as int,
            min_int(now_ms + retry_after_seconds * 1000, i64::MAX as int),
        ) as i64,
        ..s
    }
}

impl LinkState {
    /// Cadence bounds and validity of the fractions.
    pub open spec fn wf(&self) -> bool {
        &&& 1 <= self.base_poll_seconds
        &&& self.base_poll_seconds <= self.current_poll_seconds
        &&& self.current_poll_seconds <= self.max_poll_seconds
        &&& self.max_poll_seconds <= POLL_SECONDS_LIMIT
        &&& self.jitter_ppm <= PPM
        &&& (self.last_attempt_at_ms matches Some(t) ==> t <= self.next_poll_at_ms)
    }

    /// State of a feed seen for the first time: cadence at its base, first
    /// poll right away, nothing known of the origin yet.
    pub fn initial(
        feed_id: String,
        base_poll_seconds: u64,
        max_poll_seconds: u64,
        jitter_ppm: u64,
        now_ms: i64,
    ) -> (r: LinkState)
        requires
            1 <= base_poll_seconds <= max_poll_seconds <= POLL_SECONDS_LIMIT,
            jitter_ppm <= PPM,
        ensures
            r.wf(),
            r.feed_id == feed_id,
            r.base_poll_seconds == base_poll_seconds,
            r.current_poll_seconds == base_poll_seconds,
            r.max_poll_seconds == max_poll_seconds,
            r.jitter_ppm == jitter_ppm,
            r.next_poll_at_ms == now_ms,
            r.last_attempt_at_ms is None,
            r.last_status == LastStatus::Unknown,
            r.failure_streak == 0,
            r.etag is None,
            r.last_modified is None,
            r.content_hash is None,
            r.last_success_at_ms is None,
    {
        LinkState {
            feed_id,
            base_poll_seconds,
            current_poll_seconds: base_poll_seconds,
            max_poll_seconds,
            jitter_ppm,
            next_poll_at_ms: now_ms,
            last_attempt_at_ms: None,
            last_status: LastStatus::Unknown,
            failure_streak: 0,
            etag: None,
            last_modified: None,
            content_hash: None,
            last_success_at_ms: None,
        }
    }

    /// Sleep until the next poll time, or probe with HEAD when validators
    /// from a healthy last contact exist, or else GET.
    pub fn decide_next_action(state: LinkState, now_ms: i64) -> (r: NextAction)
        ensures
            r == decision(state, now_ms),
    {
        if now_ms < state.next_poll_at_ms {
            return NextAction::SleepUntil { at_ms: state.next_poll_at_ms };
        }
        let validators = state.etag.is_some() || state.last_modified.is_some();
        let healthy = match state.last_status {
            LastStatus::Success | LastStatus::NotModified => true,
            _ => false,
        };
        if validators && healthy && state.failure_streak == 0 {
            NextAction::DoHead { state }
        } else {
            NextAction::DoGet { state }
        }
    }

    /// Whether the state is well formed.
    pub fn is_valid(&self) -> (r: bool)
        ensures
            r == self.wf(),
    {
        let attempt_ok = match self.last_attempt_at_ms {
            Some(t) => t <= self.next_poll_at_ms,
            None => true,
        };
        1 <= self.base_poll_seconds && self.base_poll_seconds <= self.current_poll_seconds
            && self.current_poll_seconds <= self.max_poll_seconds && self.max_poll_seconds
            <= POLL_SECONDS_LIMIT && self.jitter_ppm <= PPM && attempt_ok
    }

    /// The clock reading an action is settled at: `now_ms`, or the last
    /// attempt's time when the clock has stepped back behind it.
    pub fn observed_now(&self, now_ms: i64) -> (r: i64)
        ensures
            r == match self.last_attempt_at_ms {
                Some(t) => max_int(now_ms as int, t as int),
                None => now_ms as int,
            },
    {
        match self.last_attempt_at_ms {
            Some(t) => if t > now_ms {
                t
            } else {
                now_ms
            },
            None => now_ms,
        }
    }

    /// Cadence update after an action: failure streak, cadence and the next
    /// poll time (jittered by `rand_ppm`, a draw in `[0, PPM)`).
    pub fn apply_outcome(&mut self, outcome: Outcome, new_content: bool, now_ms: i64, rand_ppm: u64)
        requires
            old(self).wf(),
            schedulable_at(*old(self), now_ms),
            rand_ppm < PPM,
        ensures
            final(self).wf(),
            *final(self) == cadenced(*old(self), outcome, new_content, now_ms, rand_ppm),
            within_poll_window(final(self).next_poll_at_ms, *old(self), now_ms),
    {
        let base = self.base_poll_seconds;
        let max = self.max_poll_seconds;
        let current = self.current_poll_seconds;
        let streak = match outcome {
            Outcome::Success | Outcome::NotModified => 0,
            Outcome::Retryable | Outcome::Fatal => self.failure_streak.saturating_add(1),
        };
        let cadence: u64 = match outcome {
            Outcome::Success => if new_content {
                if self.failure_streak > 0 {
                    base
                } else if current / 2 >= base {
                    current / 2
                } else {
                    base
                }
            } else {
                grown_cadence(current, max)
            },
            Outcome::NotModified => grown_cadence(current, max),
            Outcome::Retryable => {
                let e: u32 = if streak < MAX_BACKOFF_EXPONENT {
                    streak
                } else {
                    MAX_BACKOFF_EXPONENT
                };
                let f = backoff_factor(e);
                assert(base * f <= POLL_SECONDS_LIMIT * 256) by (nonlinear_arith)
                    requires
                        base <= POLL_SECONDS_LIMIT,
                        f <= 256,
                ;
                let target = base * f;
                if target <= max {
                    target
                } else {
                    max
                }
            },
            Outcome::Fatal => max,
        };
        assert(base <= cadence) by {
            if outcome == Outcome::Retryable {
                let e = min_int(streak as int, MAX_BACKOFF_EXPONENT as int) as nat;
                lemma_pow2_positive(e);
                assert(base * pow2(e) >= base) by (nonlinear_arith)
                    requires
                        pow2(e) >= 1,
                ;
            }
        }
        let interval = interval_ms(base, cadence, max, self.jitter_ppm, rand_ppm);
        self.failure_streak = streak;
        self.current_poll_seconds = cadence;
        self.next_poll_at_ms = now_ms + interval;
        self.last_attempt_at_ms = Some(now_ms);
    }

    /// Lifts the next poll time to at least `retry_after_seconds` from now, as
    /// an origin's `Retry-After` asks (saturating at the end of `i64`).
    pub fn apply_retry_after(&mut self, now_ms: i64, retry_after_seconds: u64)
        requires
            old(self).wf(),
        ensures
            final(self).wf(),
            *final(self) == retry_lifted(*old(self), now_ms, retry_after_seconds),
    {
        let wait = (retry_after_seconds as i128) * 1000;
        let floor_wide = (now_ms as i128) + wait;
        let floor: i64 = if floor_wide > i64::MAX as i128 {
            i64::MAX
        } else {
            floor_wide as i64
        };
        if floor > self.next_poll_at_ms {
            self.next_poll_at_ms = floor;
        }
    }
}

/// `min(max, current * 3 / 2)`.
fn grown_cadence(current: u64, max: u64) -> (r: u64)
    requires
        current <= max <= POLL_SECONDS_LIMIT,
    ensures
        r == min_int(max as int, current * 3 / 2),
{
    let grown = current * 3 / 2;
    if grown <= max {
        grown
    } else {
        max
    }
}

proof fn lemma_pow2_positive(n: nat)
    ensures
        pow2(n) >= 1,
    decreases n,
{
    if n > 0 {
        lemma_pow2_positive((n - 1) as nat);
    }
}

proof fn lemma_pow2_monotone(a: nat, b: nat)
    requires
        a <= b,
    ensures
        pow2(a) <= pow2(b),
    decreases b,
{
    if a < b {
        lemma_pow2_monotone(a, (b - 1) as nat);
    }
}

/// `2^e` for the backoff exponents in use.
fn backoff_factor(e: u32) -> (r: u64)
    requires
        e <= MAX_BACKOFF_EXPONENT,
    ensures
        r == pow2(e as nat),
        1 <= r <= 256,
{
    proof {
        reveal_with_fuel(pow2, 9);
        assert(pow2(8) == 256);
    }
    let mut f: u64 = 1;
    let mut i: u32 = 0;
    while i < e
        invariant
            i <= e <= MAX_BACKOFF_EXPONENT,
            f == pow2(i as nat),
            pow2(8) == 256,
        decreases e - i,
    {
        proof {
            lemma_pow2_monotone((i + 1) as nat, 8);
        }
        f = f * 2;
        i = i + 1;
    }
    proof {
        lemma_pow2_monotone(e as nat, 8);
        lemma_pow2_positive(e as nat);
    }
    f
}

/// The clamped, jittered interval in milliseconds.
fn interval_ms(base: u64, current: u64, max: u64, jitter_ppm: u64, rand_ppm: u64) -> (r: i64)
    requires
        1 <= base <= current <= max <= POLL_SECONDS_LIMIT,
        jitter_ppm <= PPM,
        rand_ppm < PPM,
    ensures
        r == poll_interval_ms(
            base as int,
            current as int,
            max as int,
            jitter_ppm as int,
            rand_ppm as int,
        ),
        base * 500 <= r <= max * 1500,
{
    let twice = 2 * rand_ppm;
    let (d, positive) = if twice >= PPM {
        (twice - PPM, true)
    } else {
        (PPM - twice, false)
    };
    assert((current as int) * (jitter_ppm as int) <= POLL_SECONDS_LIMIT * PPM) by (nonlinear_arith)
        requires
            current <= POLL_SECONDS_LIMIT,
            jitter_ppm <= PPM,
    ;
    assert((current as int) * (jitter_ppm as int) * (d as int) <= POLL_SECONDS_LIMIT * PPM * PPM)
        by (nonlinear_arith)
        requires
            (current as int) * (jitter_ppm as int) <= POLL_SECONDS_LIMIT * PPM,
            (current as int) * (jitter_ppm as int) >= 0,
            d <= PPM,
    ;
    let magnitude: u128 = (current as u128) * (jitter_ppm as u128) * (d as u128) / 1_000_000_000;
    let nominal: i128 = (current as i128) * 1000;
    let jittered: i128 = if positive {
        nominal + magnitude as i128
    } else {
        nominal - magnitude as i128
    };
    let lo: i128 = (base as i128) * 500;
    let hi: i128 = (max as i128) * 1500;
    let clamped: i128 = if jittered < lo {
        lo
    } else if jittered > hi {
        hi
    } else {
        jittered
    };
    clamped as i64
}

/// A feed that is not yet due sleeps: no request is made.
pub proof fn lemma_sleep_until_due(s: LinkState, now_ms: i64)
    requires
        now_ms < s.next_poll_at_ms,
    ensures
        decision(s, now_ms) == (NextAction::SleepUntil { at_ms: s.next_poll_at_ms }),
{
}

/// After every cadence update the cadence lies in `[base, max]`.
pub proof fn lemma_cadence_within_bounds(
    s: LinkState,
    outcome: Outcome,
    new_content: bool,
    now_ms: i64,
    rand_ppm: u64,
)
    requires
        s.wf(),
    ensures
        s.base_poll_seconds <= cadenced(s, outcome, new_content, now_ms, rand_ppm).current_poll_seconds
            <= s.max_poll_seconds,
{
    if outcome == Outcome::Retryable {
        let e = min_int(
            next_streak(s.failure_streak, outcome) as int,
            MAX_BACKOFF_EXPONENT as int,
        ) as nat;
        lemma_pow2_positive(e);
        assert(s.base_poll_seconds * pow2(e) >= s.base_poll_seconds) by (nonlinear_arith)
            requires
                pow2(e) >= 1,
        ;
    }
}

/// After every completed action the next poll lies between half the base
/// cadence and one and a half times the largest cadence from now.
pub proof fn lemma_next_poll_window(
    s: LinkState,
    outcome: Outcome,
    new_content: bool,
    now_ms: i64,
    rand_ppm: u64,
)
    requires
        s.wf(),
        schedulable_at(s, now_ms),
    ensures
        within_poll_window(cadenced(s, outcome, new_content, now_ms, rand_ppm).next_poll_at_ms, s, now_ms),
{
    lemma_cadence_within_bounds(s, outcome, new_content, now_ms, rand_ppm);
}

/// A run of transient failures never lowers the failure streak (it grows by
/// one each time, up to the largest `u32`), and a success or a not-modified
/// reply resets it to zero.
pub proof fn lemma_failure_streak(streak: u32, outcome: Outcome)
    ensures
        outcome == Outcome::Retryable ==> next_streak(streak, outcome) >= streak,
        outcome == Outcome::Retryable && streak < u32::MAX ==> next_streak(streak, outcome) == streak + 1,
        (outcome == Outcome::Success || outcome == Outcome::NotModified) ==> next_streak(streak, outcome) == 0,
{
}

} // verus!
