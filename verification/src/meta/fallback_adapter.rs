//! Primary/secondary inference fallback with a circuit breaker per
//! backend: the primary is tried first; on failure, or while its
//! breaker is open, the secondary.
//!
//! The caller performs the inference calls; [`FallbackRouter`] decides
//! which backend to call next and records what each call did.

use vstd::prelude::*;
use crate::time::system_millis_since_epoch;

verus! {

/// Default consecutive failures before a breaker opens.
pub const DEFAULT_CB_THRESHOLD: u32 = 3;

/// Default time an open breaker waits before letting a call through,
/// in milliseconds.
pub const DEFAULT_CB_RESET_MS: u64 = 30_000;

/// Circuit breaker of one backend.
#[derive(Debug, Clone)]
pub struct CircuitBreaker {
    failures: u32,
    threshold: u32,
    opened_at_ms: u64,
    reset_timeout_ms: u64,
}

/// A breaker's state as plain values.
pub struct BreakerState {
    /// Consecutive failures (wrapping).
    pub failures: u32,
    /// Failures that open the breaker.
    pub threshold: u32,
    /// Unix milliseconds when it last opened; 0 when closed.
    pub opened_at_ms: u64,
    /// Milliseconds an open breaker waits before letting a call through.
    pub reset_timeout_ms: u64,
}

/// Whether calls may go through at `now_ms`: never opened, or the reset
/// timeout has passed since it opened.
pub open spec fn closed_at(b: BreakerState, now_ms: int) -> bool {
    b.opened_at_ms == 0 || now_ms >= b.opened_at_ms + b.reset_timeout_ms
}

/// The breaker after a success: failures cleared, closed.
pub open spec fn after_success(b: BreakerState) -> BreakerState {
    BreakerState { failures: 0, opened_at_ms: 0, ..b }
}

/// The breaker after a failure at `now_ms`: the failure counts
/// (wrapping), and reaching the threshold opens it at `now_ms`.
pub open spec fn after_failure(b: BreakerState, now_ms: u64) -> BreakerState {
    let count = if b.failures == u32::MAX { 0u32 } else { (b.failures + 1) as u32 };
    BreakerState {
        failures: count,
        opened_at_ms: if count >= b.threshold { now_ms } else { b.opened_at_ms },
        ..b
    }
}

impl CircuitBreaker {
    /// The breaker's state.
    pub closed spec fn state(&self) -> BreakerState {
        BreakerState {
            failures: self.failures,
            threshold: self.threshold,
            opened_at_ms: self.opened_at_ms,
            reset_timeout_ms: self.reset_timeout_ms,
        }
    }

    /// A closed breaker with no failures.
    pub fn new(threshold: u32, reset_timeout_ms: u64) -> (r: Self)
        ensures
            r.state() == (BreakerState { failures: 0, threshold, opened_at_ms: 0, reset_timeout_ms }),
    {
        CircuitBreaker { failures: 0, threshold, opened_at_ms: 0, reset_timeout_ms }
    }

    /// Whether calls may go through at `now_ms`.
    pub fn is_closed_at(&self, now_ms: u64) -> (r: bool)
        ensures
            r == closed_at(self.state(), now_ms as int),
    {
        if self.opened_at_ms == 0 {
            return true;
        }
        now_ms as u128 >= self.opened_at_ms as u128 + self.reset_timeout_ms as u128
    }

    /// Whether calls may go through now, by the system clock (read as
    /// 0 before the epoch).
    pub fn is_closed(&self) -> (r: bool)
        ensures
            exists|now_ms: u64| r == #[trigger] closed_at(self.state(), now_ms as int),
    {
        let now_ms = current_millis();
        let r = self.is_closed_at(now_ms);
        proof {
            assert(r == closed_at(self.state(), now_ms as int));
        }
        r
    }

    /// A call succeeded: failures cleared, breaker closed.
    pub fn record_success(&mut self)
        ensures
            final(self).state() == after_success(old(self).state()),
    {
        self.failures = 0;
        self.opened_at_ms = 0;
    }

    /// A call failed at `now_ms`.
    pub fn record_failure_at(&mut self, now_ms: u64)
        ensures
            final(self).state() == after_failure(old(self).state(), now_ms),
    {
        let count = self.failures.wrapping_add(1);
        self.failures = count;
        if count >= self.threshold {
            self.opened_at_ms = now_ms;
        }
    }

    /// A call failed now, by the system clock.
    pub fn record_failure(&mut self)
        ensures
            exists|now_ms: u64| final(self).state() == #[trigger] after_failure(old(self).state(), now_ms),
    {
        let now_ms = current_millis();
        self.record_failure_at(now_ms);
    }
}

/// Unix milliseconds by the system clock, saturating; 0 before the
/// epoch.
fn current_millis() -> u64 {
    match system_millis_since_epoch() {
        Some(ms) => if ms > u64::MAX as u128 { u64::MAX } else { ms as u64 },
        None => 0,
    }
}

/// Which backend to call.
#[derive(Debug, Clone, Copy, PartialEq, Eq, Structural)]
pub enum Attempt {
    /// The primary backend.
    Primary,
    /// The secondary backend.
    Secondary,
}

/// Why the fallback chain gave up.
#[derive(Debug, Clone, Copy, PartialEq, Eq, Structural)]
pub enum Exhausted {
    /// Both breakers were open: nothing was called.
    BothOpen,
    /// The secondary was called and failed.
    BothFailed,
}

/// What to do next.
#[derive(Debug, Clone, Copy, PartialEq, Eq, Structural)]
pub enum NextStep {
    /// Call this backend.
    Call(Attempt),
    /// The last call answered: return its response.
    Answered,
    /// Give up with this error.
    GiveUp(Exhausted),
}

/// The breakers of a primary and a secondary backend.
#[derive(Debug, Clone)]
pub struct FallbackRouter {
    primary: CircuitBreaker,
    secondary: CircuitBreaker,
}

/// Where to start at `now_ms`: the primary when its breaker is closed,
/// else the secondary when its breaker is closed, else give up.
pub open spec fn start_step(p: BreakerState, s: BreakerState, now_ms: int) -> NextStep {
    if closed_at(p, now_ms) {
        NextStep::Call(Attempt::Primary)
    } else if closed_at(s, now_ms) {
        NextStep::Call(Attempt::Secondary)
    } else {
        NextStep::GiveUp(Exhausted::BothOpen)
    }
}

impl FallbackRouter {
    /// The primary's breaker.
    pub closed spec fn primary(&self) -> BreakerState {
        self.primary.state()
    }

    /// The secondary's breaker.
    pub closed spec fn secondary(&self) -> BreakerState {
        self.secondary.state()
    }

    /// Breakers with the default settings: three failures to open,
    /// thirty seconds to reset.
    pub fn new() -> (r: Self)
        ensures
            r.primary() == (BreakerState { failures: 0, threshold: 3, opened_at_ms: 0, reset_timeout_ms: 30_000 }),
            r.secondary() == (BreakerState { failures: 0, threshold: 3, opened_at_ms: 0, reset_timeout_ms: 30_000 }),
    {
        Self::with_circuit_breaker(DEFAULT_CB_THRESHOLD, DEFAULT_CB_RESET_MS)
    }

    /// Breakers with custom settings, the same for both backends.
    pub fn with_circuit_breaker(cb_threshold: u32, cb_reset_timeout_ms: u64) -> (r: Self)
        ensures
            r.primary() == (BreakerState {
                failures: 0,
                threshold: cb_threshold,
                opened_at_ms: 0,
                reset_timeout_ms: cb_reset_timeout_ms,
            }),
            r.secondary() == r.primary(),
    {
        FallbackRouter {
            primary: CircuitBreaker::new(cb_threshold, cb_reset_timeout_ms),
            secondary: CircuitBreaker::new(cb_threshold, cb_reset_timeout_ms),
        }
    }

    /// The first step of a request at `now_ms`.
    pub fn start(&self, now_ms: u64) -> (r: NextStep)
        ensures
            r == start_step(self.primary(), self.secondary(), now_ms as int),
    {
        if self.primary.is_closed_at(now_ms) {
            NextStep::Call(Attempt::Primary)
        } else if self.secondary.is_closed_at(now_ms) {
            NextStep::Call(Attempt::Secondary)
        } else {
            NextStep::GiveUp(Exhausted::BothOpen)
        }
    }

    /// Record the outcome of a call made at `now_ms` and decide the next
    /// step: an answer ends the request; a failed primary call moves on
    /// to the secondary while its breaker is closed; a failed secondary
    /// call gives up.
    pub fn record(&mut self, attempt: Attempt, succeeded: bool, now_ms: u64) -> (r: NextStep)
        ensures
            match (attempt, succeeded) {
                (Attempt::Primary, true) => {
                    &&& final(self).primary() == after_success(old(self).primary())
                    &&& final(self).secondary() == old(self).secondary()
                    &&& r == NextStep::Answered
                },
                (Attempt::Primary, false) => {
                    &&& final(self).primary() == after_failure(old(self).primary(), now_ms)
                    &&& final(self).secondary() == old(self).secondary()
                    &&& r == if closed_at(old(self).secondary(), now_ms as int) {
                        NextStep::Call(Attempt::Secondary)
                    } else {
                        NextStep::GiveUp(Exhausted::BothOpen)
                    }
                },
                (Attempt::Secondary, true) => {
                    &&& final(self).secondary() == after_success(old(self).secondary())
                    &&& final(self).primary() == old(self).primary()
                    &&& r == NextStep::Answered
                },
                (Attempt::Secondary, false) => {
                    &&& final(self).secondary() == after_failure(old(self).secondary(), now_ms)
                    &&& final(self).primary() == old(self).primary()
                    &&& r == NextStep::GiveUp(Exhausted::BothFailed)
                },
            },
    {
        match attempt {
            Attempt::Primary => {
                if succeeded {
                    self.primary.record_success();
                    NextStep::Answered
                } else {
                    self.primary.record_failure_at(now_ms);
                    if self.secondary.is_closed_at(now_ms) {
                        NextStep::Call(Attempt::Secondary)
                    } else {
                        NextStep::GiveUp(Exhausted::BothOpen)
                    }
                }
            },
            Attempt::Secondary => {
                if succeeded {
                    self.secondary.record_success();
                    NextStep::Answered
                } else {
                    self.secondary.record_failure_at(now_ms);
                    NextStep::GiveUp(Exhausted::BothFailed)
                }
            },
        }
    }
}

/// The message a request that gave up fails with.
pub open spec fn exhausted_text(e: Exhausted, secondary_error: Seq<char>) -> Seq<char> {
    match e {
        Exhausted::BothOpen => "both backends circuit-breaker open"@,
        Exhausted::BothFailed => "both backends failed: primary=circuit-open/failed, secondary="@ + secondary_error,
    }
}

/// The message a request that gave up fails with; `secondary_error`
/// is the secondary's failure, when it was called.
pub fn exhausted_message(e: Exhausted, secondary_error: &str) -> (r: String)
    ensures
        r@ == exhausted_text(e, secondary_error@),
{
    match e {
        Exhausted::BothOpen => "both backends circuit-breaker open".to_owned(),
        Exhausted::BothFailed => {
            let mut m = "both backends failed: primary=circuit-open/failed, secondary=".to_owned();
            m.append(secondary_error);
            m
        },
    }
}

// ─── laws ────────────────────────────────────────────────────

/// The state after `n` consecutive failures, all at `now_ms`.
pub open spec fn failures_from(b: BreakerState, n: nat, now_ms: u64) -> BreakerState
    decreases n,
{
    if n == 0 { b } else { after_failure(failures_from(b, (n - 1) as nat, now_ms), now_ms) }
}

/// From a fresh breaker, `threshold` consecutive failures at a time
/// after the epoch open it: calls are refused until the reset timeout
/// has passed (when that timeout is not zero).
pub proof fn lemma_threshold_failures_open(b: BreakerState, now_ms: u64)
    requires
        b.failures == 0,
        b.opened_at_ms == 0,
        0 < b.threshold,
        now_ms > 0,
        b.reset_timeout_ms > 0,
    ensures
        failures_from(b, b.threshold as nat, now_ms).opened_at_ms == now_ms,
        !closed_at(failures_from(b, b.threshold as nat, now_ms), now_ms as int),
{
    lemma_failure_count(b, b.threshold as nat, now_ms);
}

proof fn lemma_failure_count(b: BreakerState, n: nat, now_ms: u64)
    requires
        b.failures == 0,
        b.opened_at_ms == 0,
        0 < b.threshold,
        n <= b.threshold,
    ensures
        failures_from(b, n, now_ms).failures == n,
        failures_from(b, n, now_ms).threshold == b.threshold,
        failures_from(b, n, now_ms).reset_timeout_ms == b.reset_timeout_ms,
        n < b.threshold ==> failures_from(b, n, now_ms).opened_at_ms == 0,
        n == b.threshold ==> failures_from(b, n, now_ms).opened_at_ms == now_ms,
    decreases n,
{
    if n > 0 {
        lemma_failure_count(b, (n - 1) as nat, now_ms);
    }
}

/// A success always closes the breaker, whatever came before.
pub proof fn lemma_success_closes(b: BreakerState, now_ms: int)
    ensures
        closed_at(after_success(b), now_ms),
        after_success(b).failures == 0,
{
}

} // verus!
