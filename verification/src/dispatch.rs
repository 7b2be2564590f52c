//! The dispatcher: a fixed-duration poll loop over the rate limiter. Each
//! poll asks the token bucket whether one attempt is admitted; the caller
//! then selects a target and runs the attempt as an independent unit of
//! work. The admitted count is maintained synchronously at admission time,
//! so it never depends on when attempts complete.

use vstd::prelude::*;
use crate::bucket::{
    allow_step,
    initial_bucket,
    lemma_admission_bound,
    BucketModel,
    TokenBucket,
    MAX_RATE_UNITS,
    NANOS_PER_SEC,
    TOKEN_UNIT,
};
use crate::config::RunConfig;

verus! {

/// The observable result of a finished run.
#[derive(Clone, Copy, Debug, PartialEq, Eq, Structural)]
pub struct RunSummary {
    /// Attempts admitted over the run, counted at admission time.
    pub sent_count: u64,
    /// The configured wall-clock length of the run.
    pub duration_seconds: u64,
}

/// Drives one run: polls the token bucket until the configured duration has
/// elapsed, counting each admission. Moves from running to finished once the
/// elapsed monotonic time reaches the duration, and then reports the
/// summary.
pub struct Dispatcher {
    config: RunConfig,
    bucket: TokenBucket,
    sent_count: u64,
    start_time: u64,
    running: bool,
}

impl Dispatcher {
    /// The configuration this run was started with.
    pub closed spec fn cfg(self) -> RunConfig {
        self.config
    }

    /// The mathematical state of the rate limiter.
    pub closed spec fn bucket_model(self) -> BucketModel {
        self.bucket.model()
    }

    /// Number of attempts admitted so far.
    pub closed spec fn sent(self) -> u64 {
        self.sent_count
    }

    /// Monotonic timestamp the run started at.
    pub closed spec fn started_at(self) -> int {
        self.start_time as int
    }

    /// Monotonic timestamp of the latest poll (the start, before any poll).
    pub open spec fn clock(self) -> int {
        self.bucket_model().last_update
    }

    /// Whether the run is still inside its duration window.
    pub closed spec fn is_live(self) -> bool {
        self.running
    }

    /// Well-formedness: the bucket was built from the configured rate with
    /// capacity equal to rate, its clock never precedes the start, and the
    /// admitted count equals the synchronous sent counter.
    pub closed spec fn wf(self) -> bool {
        &&& self.config.valid()
        &&& self.bucket.wf()
        &&& self.bucket.model().rate == self.config.rate_units as int
        &&& self.bucket.model().capacity == self.config.rate_units as int
        &&& self.bucket.model().created_at == self.start_time as int
        &&& self.sent_count as nat == self.bucket.model().admitted
    }

    /// Start a run now: a full bucket whose capacity equals the configured
    /// rate (at most one second's burst), and nothing sent yet.
    pub fn new(config: RunConfig, now: u64) -> (d: Dispatcher)
        requires
            config.valid(),
        ensures
            d.wf(),
            d.is_live(),
            d.cfg() == config,
            d.sent() == 0,
            d.started_at() == now as int,
            d.bucket_model() == initial_bucket(
                config.rate_units as int,
                config.rate_units as int,
                now as int,
            ),
    {
        let rate = config.rate_units;
        Dispatcher {
            config,
            bucket: TokenBucket::new(rate, rate, now),
            sent_count: 0,
            start_time: now,
            running: true,
        }
    }

    /// One poll of the admission loop at monotonic time `now`. When the
    /// duration has elapsed the run moves to finished and nothing is
    /// admitted; otherwise the token bucket decides, and an admission
    /// increments the sent counter synchronously.
    pub fn poll(&mut self, now: u64) -> (admitted: bool)
        requires
            old(self).wf(),
            old(self).clock() <= now,
            now as int - old(self).started_at() <= u64::MAX,
        ensures
            final(self).wf(),
            final(self).cfg() == old(self).cfg(),
            final(self).started_at() == old(self).started_at(),
            ({
                let over = now as int - old(self).started_at() >= old(
                    self,
                ).cfg().duration_seconds as int * (NANOS_PER_SEC as int);
                if !old(self).is_live() || over {
                    &&& !admitted
                    &&& final(self).is_live() == (old(self).is_live() && !over)
                    &&& final(self).bucket_model() == old(self).bucket_model()
                    &&& final(self).sent() == old(self).sent()
                } else {
                    &&& final(self).is_live()
                    &&& (final(self).bucket_model(), admitted) == allow_step(
                        old(self).bucket_model(),
                        now as int,
                    )
                    &&& final(self).sent() == old(self).sent() + (if admitted {
                        1int
                    } else {
                        0int
                    })
                }
            }),
    {
        if !self.running {
            return false;
        }
        let elapsed: u64 = now - self.start_time;
        if (elapsed as u128) >= (self.config.duration_seconds as u128) * (NANOS_PER_SEC as u128) {
            self.running = false;
            return false;
        }
        proof {
            lemma_admitted_fits(self.bucket.model());
        }
        let allowed = self.bucket.allow_request(now);
        if allowed {
            self.sent_count = self.sent_count + 1;
        }
        allowed
    }

    /// Whether the run has moved past its duration window.
    pub fn is_finished(&self) -> (r: bool)
        ensures
            r == !self.is_live(),
    {
        !self.running
    }

    /// The validated configuration's targets, total weight, and payload are
    /// read by the caller on every admitted attempt.
    pub fn config(&self) -> (r: &RunConfig)
        ensures
            r == self.cfg(),
    {
        &self.config
    }

    /// The observable result of the run: the admitted count and the
    /// configured duration it was spread over.
    pub fn summary(&self) -> (s: RunSummary)
        requires
            !self.is_live(),
        ensures
            s.sent_count == self.sent(),
            s.duration_seconds == self.cfg().duration_seconds,
    {
        RunSummary {
            sent_count: self.sent_count,
            duration_seconds: self.config.duration_seconds,
        }
    }
}

/// Law: a well-formed dispatcher has admitted at most `rate * (elapsed + one
/// second)` worth of attempts: in units, `sent * TOKEN_UNIT * NANOS_PER_SEC
/// <= rate_units * (NANOS_PER_SEC + elapsed_nanoseconds)`. The one extra
/// second is the initial burst capacity, which equals the rate.
pub proof fn lemma_sent_bound(d: Dispatcher)
    requires
        d.wf(),
    ensures
        d.sent() as int * (TOKEN_UNIT as int) * (NANOS_PER_SEC as int) <= d.cfg().rate_units as int
            * ((NANOS_PER_SEC as int) + d.clock() - d.started_at()),
{
    let m = d.bucket_model();
    lemma_admission_bound(m);
    let e = m.last_update - m.created_at;
    assert(m.rate * ((NANOS_PER_SEC as int) + e) == m.capacity * (NANOS_PER_SEC as int) + e
        * m.rate) by (nonlinear_arith)
        requires
            m.rate == m.capacity,
    ;
}

/// Law: the admitted count also keeps up with the configured rate. Writing
/// `elapsed` for the nanoseconds between the start and the latest poll, and
/// charging one token for every poll (integer rounding) plus every sub-token
/// unit the full bucket discarded (`clamped`, zero while the poll loop keeps
/// the bucket from filling), the dispatcher has admitted at least
/// `elapsed * rate` worth of attempts.
pub proof fn lemma_sent_lower_bound(d: Dispatcher)
    requires
        d.wf(),
    ensures
        d.sent() as int * (TOKEN_UNIT as int) * (NANOS_PER_SEC as int) + d.bucket_model().polls
            * (NANOS_PER_SEC as int) + d.bucket_model().clamped * (NANOS_PER_SEC as int)
            >= (d.clock() - d.started_at()) * d.cfg().rate_units as int,
{
    crate::bucket::lemma_admission_lower_bound(d.bucket_model());
}

/// The admission counter stays within a machine word: with the rate and the
/// capacity bounded by `MAX_RATE_UNITS` and the elapsed time representable
/// in nanoseconds, the bucket cannot have admitted `u64::MAX` attempts.
proof fn lemma_admitted_fits(m: BucketModel)
    requires
        m.inv(),
        m.rate <= MAX_RATE_UNITS,
        m.capacity <= MAX_RATE_UNITS,
        m.last_update - m.created_at <= u64::MAX,
    ensures
        m.admitted < u64::MAX,
{
    lemma_admission_bound(m);
    let e = m.last_update - m.created_at;
    let b = NANOS_PER_SEC as int;
    vstd::arithmetic::mul::lemma_mul_inequality(m.capacity, MAX_RATE_UNITS as int, b);
    vstd::arithmetic::mul::lemma_mul_upper_bound(e, u64::MAX as int, m.rate, MAX_RATE_UNITS as int);
    assert(m.admitted * TOKEN_UNIT * NANOS_PER_SEC == m.admitted * (
    1_000_000_000_000int)) by (nonlinear_arith);
}

} // verus!
