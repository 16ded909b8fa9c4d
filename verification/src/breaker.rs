//! Failure isolation for the downstream API: a circuit breaker that opens
//! after a run of consecutive failures, denies calls until a recovery
//! timeout has elapsed, and then admits a bounded number of trial calls.

use crate::config::CircuitBreakerConfig;
use vstd::prelude::*;

verus! {

/// The breaker's mode.
#[derive(Debug, Clone, Copy, PartialEq, Eq, Structural)]
pub enum BreakerState {
    /// Calls proceed; failures accumulate.
    Closed,
    /// Calls fail immediately without reaching downstream.
    Open,
    /// A bounded number of trial calls is permitted.
    HalfOpen,
}

/// Failure-isolation state machine guarding calls to the downstream API.
pub struct CircuitBreaker {
    pub state: BreakerState,
    pub failures: u64,
    pub last_failure_time: u64,
    pub half_open_calls: u64,
    pub config: CircuitBreakerConfig,
}

/// The recovery timeout has elapsed since the last failure.
pub open spec fn recovery_elapsed(b: CircuitBreaker, now_s: u64) -> bool {
    now_s > b.last_failure_time + b.config.recovery_timeout_seconds
}

/// Whether a call is permitted at `now`.
pub open spec fn can_execute_allow(b: CircuitBreaker, now_s: u64) -> bool {
    if !b.config.enabled {
        true
    } else {
        match b.state {
            BreakerState::Closed => true,
            BreakerState::Open => recovery_elapsed(b, now_s) && b.config.half_open_max_calls > 0,
            BreakerState::HalfOpen => b.half_open_calls < b.config.half_open_max_calls as u64,
        }
    }
}

/// The breaker's state after asking whether a call is permitted at `now`:
/// an open breaker whose recovery timeout has elapsed turns half-open, and a
/// permitted trial call is counted.
pub open spec fn can_execute_next(b: CircuitBreaker, now_s: u64) -> CircuitBreaker {
    if !b.config.enabled {
        b
    } else {
        match b.state {
            BreakerState::Closed => b,
            BreakerState::Open => if recovery_elapsed(b, now_s) {
                if b.config.half_open_max_calls > 0 {
                    CircuitBreaker { state: BreakerState::HalfOpen, half_open_calls: 1u64, ..b }
                } else {
                    CircuitBreaker { state: BreakerState::HalfOpen, half_open_calls: 0u64, ..b }
                }
            } else {
                b
            },
            BreakerState::HalfOpen => if b.half_open_calls < b.config.half_open_max_calls as u64 {
                CircuitBreaker { half_open_calls: (b.half_open_calls + 1) as u64, ..b }
            } else {
                b
            },
        }
    }
}

/// The breaker's state after a recorded failure: the failure counter grows,
/// the failure time is noted, and reaching the threshold opens the breaker.
pub open spec fn record_failure_next(b: CircuitBreaker, now_s: u64) -> CircuitBreaker {
    if !b.config.enabled {
        b
    } else {
        let f = if b.failures as int + 1 > u64::MAX as int {
            u64::MAX
        } else {
            (b.failures + 1) as u64
        };
        if f >= b.config.failure_threshold as u64 {
            CircuitBreaker {
                state: BreakerState::Open,
                failures: f,
                last_failure_time: now_s,
                half_open_calls: 0u64,
                ..b
            }
        } else {
            CircuitBreaker { failures: f, last_failure_time: now_s, ..b }
        }
    }
}

/// The breaker's state after a recorded success: closed, with the failure
/// and trial counters reset.
pub open spec fn record_success_next(b: CircuitBreaker) -> CircuitBreaker {
    CircuitBreaker {
        state: BreakerState::Closed,
        failures: 0u64,
        half_open_calls: 0u64,
        ..b
    }
}

impl CircuitBreaker {
    /// A closed breaker with clean counters.
    pub fn new(config: CircuitBreakerConfig) -> (r: CircuitBreaker)
        ensures
            r.state == BreakerState::Closed,
            r.failures == 0,
            r.last_failure_time == 0,
            r.half_open_calls == 0,
            r.config == config,
    {
        CircuitBreaker {
            state: BreakerState::Closed,
            failures: 0,
            last_failure_time: 0,
            half_open_calls: 0,
            config,
        }
    }

    /// Whether a call may proceed at `now`, counting trial calls and moving
    /// an open breaker to half-open once the recovery timeout has elapsed.
    /// A disabled breaker always permits.
    pub fn can_execute(&mut self, now_s: u64) -> (r: bool)
        ensures
            r == can_execute_allow(*old(self), now_s),
            *final(self) == can_execute_next(*old(self), now_s),
    {
        if !self.config.enabled {
            return true;
        }
        match self.state {
            BreakerState::Closed => true,
            BreakerState::Open => {
                let last = self.last_failure_time;
                if now_s > last && now_s - last > self.config.recovery_timeout_seconds {
                    self.state = BreakerState::HalfOpen;
                    if self.config.half_open_max_calls > 0 {
                        self.half_open_calls = 1;
                        true
                    } else {
                        self.half_open_calls = 0;
                        false
                    }
                } else {
                    false
                }
            },
            BreakerState::HalfOpen => {
                if self.half_open_calls < self.config.half_open_max_calls as u64 {
                    self.half_open_calls = self.half_open_calls + 1;
                    true
                } else {
                    false
                }
            },
        }
    }

    /// Notes a failed downstream call; reaching the failure threshold opens
    /// the breaker.  A disabled breaker records nothing.
    pub fn record_failure(&mut self, now_s: u64)
        ensures
            *final(self) == record_failure_next(*old(self), now_s),
    {
        if !self.config.enabled {
            return ;
        }
        let f = self.failures.saturating_add(1);
        self.failures = f;
        self.last_failure_time = now_s;
        if f >= self.config.failure_threshold as u64 {
            self.state = BreakerState::Open;
            self.half_open_calls = 0;
        }
    }

    /// Notes a successful downstream call: the breaker closes and the
    /// counters reset.
    pub fn record_success(&mut self)
        ensures
            *final(self) == record_success_next(*old(self)),
    {
        self.state = BreakerState::Closed;
        self.failures = 0;
        self.half_open_calls = 0;
    }

    /// Whether the breaker is open.
    pub fn is_open(&self) -> (r: bool)
        ensures
            r == (self.state == BreakerState::Open),
    {
        match self.state {
            BreakerState::Open => true,
            _ => false,
        }
    }
}


/// One recorded failure notes the time, drives the counter up by one, and
/// opens the breaker exactly when the run reaches the threshold.  The
/// counter resets only on a recorded success, so a failure during half-open
/// re-opens at once.
pub proof fn lemma_failure_threshold_boundary(b: CircuitBreaker, now_s: u64)
    requires
        b.config.enabled,
        b.failures < u64::MAX,
    ensures
        record_failure_next(b, now_s).failures == b.failures + 1,
        record_failure_next(b, now_s).last_failure_time == now_s,
        record_failure_next(b, now_s).state == BreakerState::Open <==> (b.failures + 1
            >= b.config.failure_threshold as u64 || b.state == BreakerState::Open),
        record_failure_next(b, now_s).state != BreakerState::Open ==> record_failure_next(
            b,
            now_s,
        ).state == b.state,
{
}

/// The breaker after a run of failures recorded at the given times.
pub open spec fn apply_failures(b: CircuitBreaker, times: Seq<u64>) -> CircuitBreaker
    decreases times.len(),
{
    if times.len() == 0 {
        b
    } else {
        apply_failures(record_failure_next(b, times[0]), times.drop_first())
    }
}

/// A breaker with threshold `N` opens after exactly `N` consecutive
/// failures: until the run reaches the threshold it stays closed, and at the
/// threshold it is open.
pub proof fn lemma_opens_after_exact_threshold(b: CircuitBreaker, times: Seq<u64>)
    requires
        b.config.enabled,
        b.config.failure_threshold >= 1,
        b.state == BreakerState::Closed,
        b.failures == 0,
        times.len() <= b.config.failure_threshold,
    ensures
        apply_failures(b, times).failures == times.len(),
        apply_failures(b, times).config == b.config,
        times.len() < b.config.failure_threshold ==> apply_failures(b, times).state
            == BreakerState::Closed,
        times.len() == b.config.failure_threshold ==> apply_failures(b, times).state
            == BreakerState::Open,
{
    lemma_failures_accumulate(b, times);
}

proof fn lemma_failures_accumulate(b: CircuitBreaker, times: Seq<u64>)
    requires
        b.config.enabled,
        b.config.failure_threshold >= 1,
        b.state == BreakerState::Closed,
        b.failures as int + times.len() <= b.config.failure_threshold as int,
    ensures
        apply_failures(b, times).failures == b.failures + times.len(),
        apply_failures(b, times).config == b.config,
        b.failures + times.len() < b.config.failure_threshold ==> apply_failures(b, times).state
            == BreakerState::Closed,
        b.failures + times.len() == b.config.failure_threshold ==> times.len() > 0
            ==> apply_failures(b, times).state == BreakerState::Open,
        b.failures + times.len() == b.config.failure_threshold ==> times.len() == 0
            ==> apply_failures(b, times).state == BreakerState::Closed,
    decreases times.len(),
{
    if times.len() > 0 {
        let b2 = record_failure_next(b, times[0]);
        if b2.failures < b.config.failure_threshold as u64 {
            lemma_failures_accumulate(b2, times.drop_first());
        } else {
            lemma_open_failures_accumulate(b2, times.drop_first());
        }
    }
}

proof fn lemma_open_failures_accumulate(b: CircuitBreaker, times: Seq<u64>)
    requires
        b.config.enabled,
        b.state == BreakerState::Open,
        b.failures as int + times.len() <= u64::MAX as int,
        b.failures >= b.config.failure_threshold as u64,
    ensures
        apply_failures(b, times).failures == b.failures + times.len(),
        apply_failures(b, times).config == b.config,
        apply_failures(b, times).state == BreakerState::Open,
    decreases times.len(),
{
    if times.len() > 0 {
        lemma_open_failures_accumulate(record_failure_next(b, times[0]), times.drop_first());
    }
}

/// While the breaker is open and the recovery timeout has not elapsed, every
/// call is denied and nothing changes.
pub proof fn lemma_open_denies_until_timeout(b: CircuitBreaker, now_s: u64)
    requires
        b.config.enabled,
        b.state == BreakerState::Open,
        now_s <= b.last_failure_time + b.config.recovery_timeout_seconds,
    ensures
        !can_execute_allow(b, now_s),
        can_execute_next(b, now_s) == b,
{
}

/// Once the recovery timeout has elapsed, an open breaker admits a call and
/// turns half-open with one trial counted.
pub proof fn lemma_open_admits_after_timeout(b: CircuitBreaker, now_s: u64)
    requires
        b.config.enabled,
        b.state == BreakerState::Open,
        b.config.half_open_max_calls > 0,
        now_s > b.last_failure_time + b.config.recovery_timeout_seconds,
    ensures
        can_execute_allow(b, now_s),
        can_execute_next(b, now_s).state == BreakerState::HalfOpen,
        can_execute_next(b, now_s).half_open_calls == 1,
{
}

/// How many of `n` consecutive checks a breaker permits.
pub open spec fn allowed_checks(b: CircuitBreaker, now_s: u64, n: nat) -> int
    decreases n,
{
    if n == 0 {
        0
    } else {
        (if can_execute_allow(b, now_s) {
            1int
        } else {
            0int
        }) + allowed_checks(can_execute_next(b, now_s), now_s, (n - 1) as nat)
    }
}

/// A half-open breaker admits exactly its trial budget: of `n` consecutive
/// checks, the remaining budget is granted and not one call more.
pub proof fn lemma_half_open_admits_exactly_budget(b: CircuitBreaker, now_s: u64, n: nat)
    requires
        b.config.enabled,
        b.state == BreakerState::HalfOpen,
        b.half_open_calls <= b.config.half_open_max_calls as u64,
    ensures
        allowed_checks(b, now_s, n) == if n as int <= b.config.half_open_max_calls as int
            - b.half_open_calls as int {
            n as int
        } else {
            b.config.half_open_max_calls as int - b.half_open_calls as int
        },
    decreases n,
{
    if n > 0 {
        lemma_half_open_admits_exactly_budget(can_execute_next(b, now_s), now_s, (n - 1) as nat);
    }
}

} // verus!
