//! Adaptive rate control for concurrent probes.
//!
//! The controller keeps a current request rate inside a configured band
//! `[min_rate, max_rate]`, raises it after fast successful probes, lowers it
//! after failures or slow answers, and tells each probe how long to wait so
//! that the observed requests per second stay near the current rate.

use vstd::prelude::*;

verus! {

/// Milliseconds between two rate recomputations; adjustments arriving sooner
/// than this after the previous one are ignored, so the rate cannot thrash.
pub const ADJUSTMENT_INTERVAL_MS: u64 = 100;

/// Latency (ms) strictly below this counts as a fast answer: grow the rate.
pub const GROW_LATENCY_MS: u64 = 50;

/// Latency (ms) strictly above this counts as a slow answer: shrink the rate.
pub const SHRINK_LATENCY_MS: u64 = 200;

/// Relies on std::time::SystemTime::now, converted to whole milliseconds
/// since the Unix epoch. Nothing is assumed of the value: the clock may jump,
/// and the callers' contracts hold for every value it returns.
#[verifier::external_body]
fn now_millis() -> u64 {
    match std::time::SystemTime::now().duration_since(std::time::UNIX_EPOCH) {
        Ok(d) => {
            let ms = d.as_millis();
            if ms > u64::MAX as u128 {
                u64::MAX
            } else {
                ms as u64
            }
        }
        Err(_) => 0,
    }
}

/// Tracks probe throughput and adjusts the allowed request rate from
/// success/failure feedback. One instance is shared (behind the caller's
/// synchronization boundary) by every concurrent probe of a scan.
pub struct RateController {
    /// Probes recorded so far.
    pub total_requests: u64,
    /// Allowed requests per second; always within `[min_rate, max_rate]`.
    pub current_rate: u64,
    /// Upper bound of the rate band.
    pub max_rate: u64,
    /// Lower bound of the rate band.
    pub min_rate: u64,
    /// Clock reading (ms) of the last rate recomputation.
    pub last_adjustment_ms: u64,
    /// Probes recorded during the current one-second window.
    pub last_second_requests: u64,
    /// Which one-second window the counter above belongs to.
    pub last_second_time: u64,
    /// Clock reading (ms) of the most recently scheduled probe.
    pub last_request_ms: u64,
}

/// The rate a growth step aims at before clamping: an increase of one tenth.
pub open spec fn grown_rate(rate: u64) -> int {
    rate + rate / 10
}

/// The rate a shrink step aims at before clamping: nine tenths of the old.
pub open spec fn shrunk_rate(rate: u64) -> int {
    rate * 9 / 10
}

/// Clamping into the band `[lo, hi]`.
pub open spec fn spec_clamp(v: int, lo: u64, hi: u64) -> u64 {
    if v < lo {
        lo
    } else if v > hi {
        hi
    } else {
        v as u64
    }
}

impl RateController {
    /// The controller's invariant: the rate sits inside its band, and the
    /// band's top is small enough that a growth step cannot overflow.
    pub open spec fn wf(&self) -> bool {
        &&& self.min_rate <= self.current_rate <= self.max_rate
        &&& self.max_rate <= u64::MAX / 11
    }

    /// An outcome that makes the rate grow: a success answered fast.
    pub open spec fn grows(success: bool, latency_ms: u64) -> bool {
        success && latency_ms < GROW_LATENCY_MS
    }

    /// An outcome that makes the rate shrink: any failure, or a slow answer.
    /// Ambiguous outcomes (success with middling latency) hold the rate, so
    /// ties break toward protecting the target.
    pub open spec fn shrinks(success: bool, latency_ms: u64) -> bool {
        !success || latency_ms > SHRINK_LATENCY_MS
    }

    /// The rate an ungated adjustment moves to.
    pub open spec fn stepped_rate(&self, success: bool, latency_ms: u64) -> u64 {
        if Self::grows(success, latency_ms) {
            spec_clamp(grown_rate(self.current_rate), self.min_rate, self.max_rate)
        } else if Self::shrinks(success, latency_ms) {
            spec_clamp(shrunk_rate(self.current_rate), self.min_rate, self.max_rate)
        } else {
            self.current_rate
        }
    }

    /// The state one adjustment moves to, as a function of the clock
    /// reading: within `ADJUSTMENT_INTERVAL_MS` of the last recomputation
    /// nothing changes; at or past it, the rate takes its clamped step and
    /// the recomputation time is recorded.
    pub open spec fn spec_adjusted(pre: Self, now: u64, success: bool, latency_ms: u64) -> Self {
        if now >= pre.last_adjustment_ms + ADJUSTMENT_INTERVAL_MS {
            RateController {
                current_rate: pre.stepped_rate(success, latency_ms),
                last_adjustment_ms: now,
                ..pre
            }
        } else {
            pre
        }
    }

    /// Everything `adjust_rate` promises about a single observation: the band
    /// and the counters are untouched, the invariant is kept, and the rate
    /// moves only in the direction the outcome allows, never past the band.
    pub open spec fn adjust_step(pre: Self, post: Self, success: bool, latency_ms: u64) -> bool {
        &&& post.wf()
        &&& post.max_rate == pre.max_rate
        &&& post.min_rate == pre.min_rate
        &&& post.total_requests == pre.total_requests
        &&& post.last_second_requests == pre.last_second_requests
        &&& post.last_second_time == pre.last_second_time
        &&& post.last_request_ms == pre.last_request_ms
        &&& post.current_rate == pre.current_rate || post.current_rate == pre.stepped_rate(
            success,
            latency_ms,
        )
        &&& Self::grows(success, latency_ms) ==> pre.current_rate <= post.current_rate
        &&& Self::shrinks(success, latency_ms) ==> post.current_rate <= pre.current_rate
        &&& !Self::grows(success, latency_ms) && !Self::shrinks(success, latency_ms)
            ==> post.current_rate == pre.current_rate
    }

    /// A controller that starts at full speed: the current rate begins at
    /// `max_rate` and only failures pull it down.
    pub fn new(max_rate: u64, min_rate: u64) -> (r: Self)
        requires
            min_rate <= max_rate,
            max_rate <= u64::MAX / 11,
        ensures
            r.wf(),
            r.current_rate == max_rate,
            r.max_rate == max_rate,
            r.min_rate == min_rate,
            r.total_requests == 0,
            r.last_second_requests == 0,
            r.last_second_time == 0,
            r.last_request_ms == 0,
            r.last_adjustment_ms == 0,
    {
        RateController {
            total_requests: 0,
            current_rate: max_rate,
            max_rate,
            min_rate,
            last_adjustment_ms: 0,
            last_second_requests: 0,
            last_second_time: 0,
            last_request_ms: 0,
        }
    }

    fn clamp_rate(v: u64, lo: u64, hi: u64) -> (r: u64)
        requires
            lo <= hi,
        ensures
            r == spec_clamp(v as int, lo, hi),
            lo <= r <= hi,
    {
        if v < lo {
            lo
        } else if v > hi {
            hi
        } else {
            v
        }
    }

    /// Feed one probe outcome into the adjustment loop at clock reading
    /// `now`: the new state is exactly `spec_adjusted` of the old one, so a
    /// recomputation happens precisely when the interval has elapsed, and
    /// the stepped rate is the clamped grow/shrink/hold of the outcome.
    pub fn adjust_rate_at(&mut self, now: u64, success: bool, latency_ms: u64)
        requires
            old(self).wf(),
        ensures
            *final(self) == Self::spec_adjusted(*old(self), now, success, latency_ms),
            Self::adjust_step(*old(self), *final(self), success, latency_ms),
    {
        let elapsed = if now >= self.last_adjustment_ms {
            now - self.last_adjustment_ms
        } else {
            0
        };
        if elapsed < ADJUSTMENT_INTERVAL_MS {
            return ;
        }
        let cur = self.current_rate;
        proof {
            assert(cur * 11 <= (u64::MAX / 11) * 11 <= u64::MAX) by (nonlinear_arith)
                requires
                    cur <= u64::MAX / 11,
            ;
        }
        let new_rate = if success && latency_ms < GROW_LATENCY_MS {
            Self::clamp_rate(cur + cur / 10, self.min_rate, self.max_rate)
        } else if !success || latency_ms > SHRINK_LATENCY_MS {
            proof {
                assert(cur * 9 / 10 <= cur) by (nonlinear_arith);
            }
            Self::clamp_rate(cur * 9 / 10, self.min_rate, self.max_rate)
        } else {
            cur
        };
        self.current_rate = new_rate;
        self.last_adjustment_ms = now;
    }

    /// Feed one probe outcome in at the wall clock's current reading. The
    /// result is `spec_adjusted` at whatever the clock returned, so at most
    /// one recomputation happens per `ADJUSTMENT_INTERVAL_MS`, a fast
    /// success never lowers the rate, and a failure never raises it.
    pub fn adjust_rate(&mut self, success: bool, latency_ms: u64)
        requires
            old(self).wf(),
        ensures
            Self::adjust_step(*old(self), *final(self), success, latency_ms),
    {
        let now = now_millis();
        self.adjust_rate_at(now, success, latency_ms);
    }

    /// Count one probe without feeding back an outcome.
    pub fn increment_requests(&mut self)
        ensures
            final(self).total_requests == if old(self).total_requests == u64::MAX {
                u64::MAX as int
            } else {
                old(self).total_requests + 1
            },
            final(self).current_rate == old(self).current_rate,
            final(self).max_rate == old(self).max_rate,
            final(self).min_rate == old(self).min_rate,
            final(self).last_second_requests == old(self).last_second_requests,
            final(self).last_second_time == old(self).last_second_time,
            final(self).last_request_ms == old(self).last_request_ms,
            final(self).last_adjustment_ms == old(self).last_adjustment_ms,
            old(self).wf() ==> final(self).wf(),
    {
        self.total_requests = saturating_inc(self.total_requests);
    }

    /// The delay (ms) a probe scheduled at `now_ms` must still wait so that
    /// probes stay `1000 / current_rate` ms apart.
    pub open spec fn spec_delay(&self, now_ms: u64) -> u64 {
        let rate: u64 = if self.current_rate >= 1 {
            self.current_rate
        } else {
            1
        };
        let next = sat_add(self.last_request_ms, (1000 as u64) / rate);
        if now_ms > self.last_request_ms && next > now_ms {
            (next - now_ms) as u64
        } else {
            0
        }
    }

    /// Book-keeping done by the throttling step for a probe at clock reading
    /// `now_ms`: the per-second window counter advances (resetting when a new
    /// wall-clock second begins), the request counters grow, and the returned
    /// delay keeps the caller from exceeding `current_rate` requests per
    /// second. The caller sleeps for the returned number of milliseconds.
    pub fn schedule_request(&mut self, now_ms: u64) -> (delay_ms: u64)
        ensures
            delay_ms == old(self).spec_delay(now_ms),
            delay_ms <= 1000,
            final(self).current_rate == old(self).current_rate,
            final(self).max_rate == old(self).max_rate,
            final(self).min_rate == old(self).min_rate,
            final(self).last_adjustment_ms == old(self).last_adjustment_ms,
            final(self).last_request_ms == now_ms,
            final(self).total_requests == sat_add(old(self).total_requests, 1),
            final(self).last_second_time == if now_ms / 1000 > old(self).last_second_time {
                (now_ms / 1000) as int
            } else {
                old(self).last_second_time as int
            },
            final(self).last_second_requests == if now_ms / 1000 > old(self).last_second_time {
                1 as int
            } else {
                sat_add(old(self).last_second_requests, 1) as int
            },
            old(self).wf() ==> final(self).wf(),
    {
        let now_s = now_ms / 1000;
        if now_s > self.last_second_time {
            self.last_second_requests = 0;
            self.last_second_time = now_s;
        }
        self.last_second_requests = saturating_inc(self.last_second_requests);
        self.total_requests = saturating_inc(self.total_requests);

        let rate = if self.current_rate >= 1 {
            self.current_rate
        } else {
            1
        };
        let interval: u64 = 1000 / rate;
        let next = if self.last_request_ms <= u64::MAX - interval {
            self.last_request_ms + interval
        } else {
            u64::MAX
        };
        let delay = if now_ms > self.last_request_ms && next > now_ms {
            next - now_ms
        } else {
            0
        };
        self.last_request_ms = now_ms;
        delay
    }

    /// The allowed requests per second right now.
    pub fn get_current_rate(&self) -> (r: u64)
        ensures
            r == self.current_rate,
    {
        self.current_rate
    }

    /// How many probes have been recorded in total.
    pub fn get_total_requests(&self) -> (r: u64)
        ensures
            r == self.total_requests,
    {
        self.total_requests
    }

    /// How many probes the current one-second window has seen.
    pub fn get_requests_per_second(&self) -> (r: u64)
        ensures
            r == self.last_second_requests,
    {
        self.last_second_requests
    }
}

/// Addition that stops at the top of the type instead of wrapping.
pub open spec fn sat_add(a: u64, b: u64) -> u64 {
    if a + b > u64::MAX {
        u64::MAX
    } else {
        (a + b) as u64
    }
}

fn saturating_inc(a: u64) -> (r: u64)
    ensures
        r == sat_add(a, 1),
{
    if a == u64::MAX {
        u64::MAX
    } else {
        a + 1
    }
}

/// Law: over any run of observations that all grow the rate (successes with
/// low latency), the current rate never decreases from one state to a later
/// one, and never exceeds the configured maximum.
pub proof fn lemma_rate_nondecreasing_under_growth(
    states: Seq<RateController>,
    outcomes: Seq<(bool, u64)>,
)
    requires
        states.len() == outcomes.len() + 1,
        forall|k: int|
            0 <= k < outcomes.len() ==> RateController::adjust_step(
                states[k],
                states[k + 1],
                outcomes[k].0,
                outcomes[k].1,
            ),
        forall|k: int|
            0 <= k < outcomes.len() ==> RateController::grows(outcomes[k].0, outcomes[k].1),
    ensures
        forall|i: int, j: int|
            0 <= i <= j < states.len() ==> states[i].current_rate <= states[j].current_rate,
        forall|k: int|
            1 <= k < states.len() ==> states[k].current_rate <= states[k - 1].max_rate,
    decreases states.len(),
{
    if outcomes.len() > 0 {
        let n = outcomes.len() as int;
        let states2 = states.drop_last();
        let outcomes2 = outcomes.drop_last();
        assert forall|k: int| 0 <= k < outcomes2.len() implies RateController::adjust_step(
            states2[k],
            states2[k + 1],
            outcomes2[k].0,
            outcomes2[k].1,
        ) && RateController::grows(outcomes2[k].0, outcomes2[k].1) by {
            assert(states2[k] == states[k]);
            assert(states2[k + 1] == states[k + 1]);
            assert(outcomes2[k] == outcomes[k]);
            assert(RateController::adjust_step(
                states[k],
                states[k + 1],
                outcomes[k].0,
                outcomes[k].1,
            ));
            assert(RateController::grows(outcomes[k].0, outcomes[k].1));
        }
        lemma_rate_nondecreasing_under_growth(states2, outcomes2);
        assert(RateController::adjust_step(
            states[n - 1],
            states[n],
            outcomes[n - 1].0,
            outcomes[n - 1].1,
        ));
        assert(RateController::grows(outcomes[n - 1].0, outcomes[n - 1].1));
        assert forall|i: int, j: int| 0 <= i <= j < states.len() implies states[i].current_rate
            <= states[j].current_rate by {
            if j < n {
                assert(states2[i] == states[i]);
                assert(states2[j] == states[j]);
            } else if i < n {
                assert(states2[i] == states[i]);
                assert(states2[n - 1] == states[n - 1]);
                assert(states[i].current_rate <= states[n - 1].current_rate);
            }
        }
        assert forall|k: int| 1 <= k < states.len() implies states[k].current_rate <= states[k
            - 1].max_rate by {
            assert(RateController::adjust_step(
                states[k - 1],
                states[k],
                outcomes[k - 1].0,
                outcomes[k - 1].1,
            ));
        }
    }
}

/// Law: over any run of observations that all shrink the rate (failures, or
/// slow answers), the current rate never increases from one state to a later
/// one, and never drops below the configured minimum.
pub proof fn lemma_rate_nonincreasing_under_failure(
    states: Seq<RateController>,
    outcomes: Seq<(bool, u64)>,
)
    requires
        states.len() == outcomes.len() + 1,
        forall|k: int|
            0 <= k < outcomes.len() ==> RateController::adjust_step(
                states[k],
                states[k + 1],
                outcomes[k].0,
                outcomes[k].1,
            ),
        forall|k: int|
            0 <= k < outcomes.len() ==> RateController::shrinks(outcomes[k].0, outcomes[k].1),
    ensures
        forall|i: int, j: int|
            0 <= i <= j < states.len() ==> states[j].current_rate <= states[i].current_rate,
        forall|k: int|
            1 <= k < states.len() ==> states[k].current_rate >= states[k - 1].min_rate,
    decreases states.len(),
{
    if outcomes.len() > 0 {
        let n = outcomes.len() as int;
        let states2 = states.drop_last();
        let outcomes2 = outcomes.drop_last();
        assert forall|k: int| 0 <= k < outcomes2.len() implies RateController::adjust_step(
            states2[k],
            states2[k + 1],
            outcomes2[k].0,
            outcomes2[k].1,
        ) && RateController::shrinks(outcomes2[k].0, outcomes2[k].1) by {
            assert(states2[k] == states[k]);
            assert(states2[k + 1] == states[k + 1]);
            assert(outcomes2[k] == outcomes[k]);
            assert(RateController::adjust_step(
                states[k],
                states[k + 1],
                outcomes[k].0,
                outcomes[k].1,
            ));
            assert(RateController::shrinks(outcomes[k].0, outcomes[k].1));
        }
        lemma_rate_nonincreasing_under_failure(states2, outcomes2);
        assert(RateController::adjust_step(
            states[n - 1],
            states[n],
            outcomes[n - 1].0,
            outcomes[n - 1].1,
        ));
        assert(RateController::shrinks(outcomes[n - 1].0, outcomes[n - 1].1));
        assert forall|i: int, j: int| 0 <= i <= j < states.len() implies states[j].current_rate
            <= states[i].current_rate by {
            if j < n {
                assert(states2[i] == states[i]);
                assert(states2[j] == states[j]);
            } else if i < n {
                assert(states2[i] == states[i]);
                assert(states2[n - 1] == states[n - 1]);
                assert(states[n - 1].current_rate <= states[i].current_rate);
            }
        }
        assert forall|k: int| 1 <= k < states.len() implies states[k].current_rate >= states[k
            - 1].min_rate by {
            assert(RateController::adjust_step(
                states[k - 1],
                states[k],
                outcomes[k - 1].0,
                outcomes[k - 1].1,
            ));
        }
    }
}

} // verus!
