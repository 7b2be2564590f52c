//! Continuous-refill token bucket.
//!
//! Token amounts are held in a fixed-point unit: one token is `TOKEN_UNIT`
//! sub-token units, so fractional tokens accumulate across refills without
//! drift. Time is a monotonic clock in nanoseconds, supplied by the caller
//! on every operation; refill is computed lazily from the elapsed time since
//! the last update, with no background timer.

use vstd::prelude::*;

verus! {

/// One whole token, in the fixed-point sub-token unit of the bucket counters.
pub const TOKEN_UNIT: u64 = 1000;

/// Nanoseconds per second; refill amounts are derived from elapsed nanoseconds.
pub const NANOS_PER_SEC: u64 = 1_000_000_000;

/// Largest configurable rate, in sub-token units per second (one hundred
/// million whole tokens per second). The bound keeps the admission counter
/// within a machine word over any representable stretch of time.
pub const MAX_RATE_UNITS: u64 = 100_000_000_000;

/// Mathematical state of a token bucket, including the ghost accounting
/// (`admitted`, `refilled`, `clamped`, `polls`) that pins total admissions
/// between the earned refill and the capacity allowance.
pub struct BucketModel {
    /// Sub-token units added per second of elapsed time.
    pub rate: int,
    /// Maximum sub-token units the bucket can hold.
    pub capacity: int,
    /// Sub-token units currently available.
    pub tokens: int,
    /// Monotonic nanosecond timestamp of the last refill.
    pub last_update: int,
    /// Monotonic nanosecond timestamp at construction.
    pub created_at: int,
    /// Number of requests allowed so far.
    pub admitted: nat,
    /// Total sub-token units ever added by refills.
    pub refilled: nat,
    /// Sub-token units lost to the capacity clamp across all refills.
    pub clamped: nat,
    /// Number of refills performed.
    pub polls: nat,
}

impl BucketModel {
    /// Well-formedness: tokens never exceed capacity, admissions account
    /// exactly for the initial capacity plus refill minus clamp losses and
    /// what is still in the bucket, and the total refill tracks elapsed time
    /// to within one unit-second per poll.
    pub open spec fn inv(self) -> bool {
        &&& 0 < self.rate
        &&& 0 < self.capacity
        &&& 0 <= self.tokens <= self.capacity
        &&& self.created_at <= self.last_update
        &&& self.admitted * TOKEN_UNIT + self.tokens + self.clamped == self.capacity
            + self.refilled
        &&& self.refilled * NANOS_PER_SEC <= (self.last_update - self.created_at) * self.rate
        &&& self.refilled * NANOS_PER_SEC + self.polls * NANOS_PER_SEC >= (self.last_update
            - self.created_at) * self.rate
    }
}

/// Sub-token units gained over `elapsed` nanoseconds at `rate` units/second.
pub open spec fn refill_amount(elapsed: int, rate: int) -> int {
    (elapsed * rate) / (NANOS_PER_SEC as int)
}

/// Sub-token units a refill at `now` discards because the bucket is full.
pub open spec fn clamp_loss(m: BucketModel, now: int) -> int {
    let sum = m.tokens + refill_amount(now - m.last_update, m.rate);
    if sum > m.capacity {
        sum - m.capacity
    } else {
        0
    }
}

/// The bucket state after a lazy refill at time `now`.
pub open spec fn refill_step(m: BucketModel, now: int) -> BucketModel {
    BucketModel {
        tokens: vstd::math::min(
            m.capacity,
            m.tokens + refill_amount(now - m.last_update, m.rate),
        ),
        last_update: now,
        refilled: (m.refilled + refill_amount(now - m.last_update, m.rate)) as nat,
        clamped: (m.clamped + clamp_loss(m, now)) as nat,
        polls: m.polls + 1,
        ..m
    }
}

/// The bucket state and decision after one `allow_request` call at time `now`:
/// refill lazily, then admit exactly when a whole token is available.
pub open spec fn allow_step(m: BucketModel, now: int) -> (BucketModel, bool) {
    let r = refill_step(m, now);
    if r.tokens >= TOKEN_UNIT {
        (
            BucketModel { tokens: r.tokens - TOKEN_UNIT, admitted: r.admitted + 1, ..r },
            true,
        )
    } else {
        (r, false)
    }
}

/// The state of a freshly constructed bucket: full, with empty accounting.
pub open spec fn initial_bucket(rate: int, capacity: int, now: int) -> BucketModel {
    BucketModel {
        rate: rate,
        capacity: capacity,
        tokens: capacity,
        last_update: now,
        created_at: now,
        admitted: 0,
        refilled: 0,
        clamped: 0,
        polls: 0,
    }
}

/// Token-bucket rate limiter. Decides, at arbitrary call frequency, whether
/// the next attempt is admitted; each admission consumes one whole token.
pub struct TokenBucket {
    rate: u64,
    capacity: u64,
    tokens: u64,
    last_update: u64,
    created_at: Ghost<int>,
    admitted: Ghost<nat>,
    refilled: Ghost<nat>,
    clamped: Ghost<nat>,
    polls: Ghost<nat>,
}

impl TokenBucket {
    /// The mathematical state this bucket holds.
    pub closed spec fn model(self) -> BucketModel {
        BucketModel {
            rate: self.rate as int,
            capacity: self.capacity as int,
            tokens: self.tokens as int,
            last_update: self.last_update as int,
            created_at: self.created_at@,
            admitted: self.admitted@,
            refilled: self.refilled@,
            clamped: self.clamped@,
            polls: self.polls@,
        }
    }

    pub open spec fn wf(self) -> bool {
        self.model().inv()
    }

    /// Number of `allow_request` calls that have returned true.
    pub open spec fn admitted_count(self) -> nat {
        self.model().admitted
    }

    /// A new bucket starts full: burst size is bounded by `capacity`.
    pub fn new(rate: u64, capacity: u64, now: u64) -> (b: TokenBucket)
        requires
            0 < rate,
            0 < capacity,
        ensures
            b.wf(),
            b.model() == initial_bucket(rate as int, capacity as int, now as int),
    {
        TokenBucket {
            rate,
            capacity,
            tokens: capacity,
            last_update: now,
            created_at: Ghost(now as int),
            admitted: Ghost(0),
            refilled: Ghost(0),
            clamped: Ghost(0),
            polls: Ghost(0),
        }
    }

    /// Lazy refill: add tokens proportional to the time elapsed since the
    /// last update, clamped at capacity.
    pub fn add_tokens(&mut self, now: u64)
        requires
            old(self).wf(),
            old(self).model().last_update <= now,
        ensures
            final(self).wf(),
            final(self).model() == refill_step(old(self).model(), now as int),
    {
        let elapsed: u64 = now - self.last_update;
        proof {
            lemma_refill_fits(old(self).model(), now as int);
        }
        let added: u128 = (elapsed as u128) * (self.rate as u128) / (NANOS_PER_SEC as u128);
        let sum: u128 = (self.tokens as u128) + added;
        if sum >= self.capacity as u128 {
            self.tokens = self.capacity;
        } else {
            self.tokens = sum as u64;
        }
        self.last_update = now;
        self.refilled = Ghost(
            (self.refilled@ + refill_amount(elapsed as int, self.rate as int)) as nat,
        );
        self.clamped = Ghost(
            (self.clamped@ + clamp_loss(old(self).model(), now as int)) as nat,
        );
        self.polls = Ghost(self.polls@ + 1);
        proof {
            lemma_refill_preserves_inv(old(self).model(), now as int);
        }
    }

    /// Refill, then admit exactly when a whole token is available, consuming it.
    pub fn allow_request(&mut self, now: u64) -> (allowed: bool)
        requires
            old(self).wf(),
            old(self).model().last_update <= now,
        ensures
            final(self).wf(),
            (final(self).model(), allowed) == allow_step(old(self).model(), now as int),
            allowed ==> final(self).admitted_count() == old(self).admitted_count() + 1,
            !allowed ==> final(self).admitted_count() == old(self).admitted_count(),
    {
        self.add_tokens(now);
        if self.tokens >= TOKEN_UNIT {
            self.tokens = self.tokens - TOKEN_UNIT;
            self.admitted = Ghost(self.admitted@ + 1);
            true
        } else {
            false
        }
    }
}

/// The refill amount is nonnegative, within machine bounds when elapsed time
/// and rate fit in a machine word, and never exceeds `elapsed * rate` seconds'
/// worth of units.
proof fn lemma_refill_fits(m: BucketModel, now: int)
    requires
        m.inv(),
        m.last_update <= now,
        now - m.last_update <= u64::MAX,
        m.rate <= u64::MAX,
    ensures
        0 <= refill_amount(now - m.last_update, m.rate)
            <= (u64::MAX as int) * (u64::MAX as int) / (NANOS_PER_SEC as int),
        refill_amount(now - m.last_update, m.rate) * (NANOS_PER_SEC as int)
            <= (now - m.last_update) * m.rate,
        (now - m.last_update) * m.rate <= (u64::MAX as int) * (u64::MAX as int),
{
    let e = now - m.last_update;
    let r = m.rate;
    let b = NANOS_PER_SEC as int;
    vstd::arithmetic::mul::lemma_mul_nonnegative(e, r);
    vstd::arithmetic::div_mod::lemma_div_pos_is_pos(e * r, b);
    vstd::arithmetic::mul::lemma_mul_upper_bound(e, u64::MAX as int, r, u64::MAX as int);
    vstd::arithmetic::div_mod::lemma_div_is_ordered(
        e * r,
        (u64::MAX as int) * (u64::MAX as int),
        b,
    );
    vstd::arithmetic::div_mod::lemma_fundamental_div_mod(e * r, b);
    vstd::arithmetic::div_mod::lemma_mod_bound(e * r, b);
}

/// The bucket state after `n` consecutive `allow_request` calls, all made at
/// time `now`.
pub open spec fn steps_at(m: BucketModel, now: int, n: nat) -> BucketModel
    decreases n,
{
    if n == 0 {
        m
    } else {
        allow_step(steps_at(m, now, (n - 1) as nat), now).0
    }
}

/// Law: every well-formed bucket bounds its total admissions by the initial
/// capacity plus one second's rate for each elapsed second. In units:
/// `admitted * TOKEN_UNIT * NANOS_PER_SEC <= capacity * NANOS_PER_SEC +
/// elapsed_nanoseconds * rate`, so throughput never exceeds the configured
/// rate beyond the initial burst allowance.
pub proof fn lemma_admission_bound(m: BucketModel)
    requires
        m.inv(),
    ensures
        m.admitted * TOKEN_UNIT * NANOS_PER_SEC
            <= m.capacity * (NANOS_PER_SEC as int) + (m.last_update - m.created_at) * m.rate,
{
    assert(m.admitted * TOKEN_UNIT <= m.capacity + m.refilled);
    vstd::arithmetic::mul::lemma_mul_inequality(
        m.admitted * TOKEN_UNIT,
        m.capacity + m.refilled,
        NANOS_PER_SEC as int,
    );
    assert((m.capacity + m.refilled) * (NANOS_PER_SEC as int)
        == m.capacity * (NANOS_PER_SEC as int) + m.refilled * (NANOS_PER_SEC as int))
        by (nonlinear_arith);
}

/// Draining run: `k` consecutive calls at the bucket's own `last_update`
/// timestamp (so no time passes and nothing refills) each consume one whole
/// token, as long as `k` whole tokens are available.
proof fn lemma_drain(m: BucketModel, now: int, k: nat)
    requires
        m.inv(),
        now == m.last_update,
        k * TOKEN_UNIT <= m.tokens,
    ensures
        steps_at(m, now, k).inv(),
        steps_at(m, now, k).tokens == m.tokens - k * TOKEN_UNIT,
        steps_at(m, now, k).last_update == m.last_update,
        steps_at(m, now, k).capacity == m.capacity,
        steps_at(m, now, k).rate == m.rate,
    decreases k,
{
    if k > 0 {
        lemma_drain(m, now, (k - 1) as nat);
        let prev = steps_at(m, now, (k - 1) as nat);
        assert(refill_amount(0, prev.rate) == 0);
        lemma_refill_preserves_inv(prev, now);
        assert(refill_step(prev, now).tokens == prev.tokens);
    }
}

/// Law: from a bucket holding `tokens` units with no further refill (calls
/// made back to back at the same instant), the first `tokens / TOKEN_UNIT`
/// consecutive `allow_request` calls return true and the next returns false.
/// With a full bucket (`tokens == capacity`, as after construction or after
/// idling a full `capacity / rate` stretch) that is exactly the burst bound.
pub proof fn lemma_burst(m: BucketModel, i: nat)
    requires
        m.inv(),
        i <= m.tokens / (TOKEN_UNIT as int),
    ensures
        i < m.tokens / (TOKEN_UNIT as int) ==> allow_step(
            steps_at(m, m.last_update, i),
            m.last_update,
        ).1,
        i == m.tokens / (TOKEN_UNIT as int) ==> !allow_step(
            steps_at(m, m.last_update, i),
            m.last_update,
        ).1,
{
    let u = TOKEN_UNIT as int;
    let n = m.tokens / u;
    vstd::arithmetic::div_mod::lemma_fundamental_div_mod(m.tokens, u);
    vstd::arithmetic::div_mod::lemma_mod_bound(m.tokens, u);
    lemma_drain(m, m.last_update, i);
    let a = steps_at(m, m.last_update, i);
    assert(refill_amount(0, a.rate) == 0);
    assert(refill_step(a, m.last_update).tokens == a.tokens);
}

/// Law: a freshly built bucket is well-formed and admits exactly
/// `floor(capacity / TOKEN_UNIT)` back-to-back attempts before the first
/// denial: the burst allowance of a new run is one bucketful.
pub proof fn lemma_initial_burst(rate: int, capacity: int, t0: int, i: nat)
    requires
        0 < rate,
        0 < capacity,
        i <= capacity / (TOKEN_UNIT as int),
    ensures
        initial_bucket(rate, capacity, t0).inv(),
        i < capacity / (TOKEN_UNIT as int) ==> allow_step(
            steps_at(initial_bucket(rate, capacity, t0), t0, i),
            t0,
        ).1,
        i == capacity / (TOKEN_UNIT as int) ==> !allow_step(
            steps_at(initial_bucket(rate, capacity, t0), t0, i),
            t0,
        ).1,
{
    let m = initial_bucket(rate, capacity, t0);
    assert(m.admitted * TOKEN_UNIT + m.tokens + m.clamped == m.capacity + m.refilled);
    assert(m.refilled * NANOS_PER_SEC <= (m.last_update - m.created_at) * m.rate) by {
        assert((m.last_update - m.created_at) * m.rate == 0) by (nonlinear_arith)
            requires
                m.last_update == m.created_at,
        ;
    }
    assert(m.refilled * NANOS_PER_SEC + m.polls * NANOS_PER_SEC >= (m.last_update
        - m.created_at) * m.rate) by {
        assert((m.last_update - m.created_at) * m.rate == 0) by (nonlinear_arith)
            requires
                m.last_update == m.created_at,
        ;
    }
    lemma_burst(m, i);
}

/// Law: after idling long enough that `elapsed * rate` covers the whole
/// capacity (for a bucket built with `capacity == rate`, one second), a
/// refill restores the bucket to full.
pub proof fn lemma_full_after_idle(m: BucketModel, now: int)
    requires
        m.inv(),
        m.last_update <= now,
        (now - m.last_update) * m.rate >= m.capacity * (NANOS_PER_SEC as int),
    ensures
        refill_step(m, now).tokens == m.capacity,
{
    let e = now - m.last_update;
    let b = NANOS_PER_SEC as int;
    vstd::arithmetic::div_mod::lemma_div_is_ordered(m.capacity * b, e * m.rate, b);
    assert(m.capacity * b == b * m.capacity) by (nonlinear_arith);
    vstd::arithmetic::div_mod::lemma_div_multiples_vanish(m.capacity, b);
}

/// A lazy refill preserves the bucket invariant.
proof fn lemma_refill_preserves_inv(m: BucketModel, now: int)
    requires
        m.inv(),
        m.last_update <= now,
    ensures
        refill_step(m, now).inv(),
{
    let elapsed = now - m.last_update;
    let added = refill_amount(elapsed, m.rate);
    vstd::arithmetic::mul::lemma_mul_nonnegative(elapsed, m.rate);
    vstd::arithmetic::div_mod::lemma_div_pos_is_pos(elapsed * m.rate, NANOS_PER_SEC as int);
    // added * NANOS_PER_SEC <= elapsed * rate
    vstd::arithmetic::div_mod::lemma_fundamental_div_mod(elapsed * m.rate, NANOS_PER_SEC as int);
    vstd::arithmetic::div_mod::lemma_mod_bound(elapsed * m.rate, NANOS_PER_SEC as int);
    // refilled bound: (refilled + added) * B <= (now - created) * rate
    assert((m.refilled + added) * (NANOS_PER_SEC as int)
        == m.refilled * (NANOS_PER_SEC as int) + added * (NANOS_PER_SEC as int))
        by (nonlinear_arith);
    assert((now - m.created_at) * m.rate
        == (m.last_update - m.created_at) * m.rate + (now - m.last_update) * m.rate)
        by (nonlinear_arith);
    // poll-count bound: one refill loses under one unit-second to rounding
    assert((m.polls + 1) * (NANOS_PER_SEC as int)
        == m.polls * (NANOS_PER_SEC as int) + (NANOS_PER_SEC as int))
        by (nonlinear_arith);
}

/// Law: admissions also keep up with elapsed time. Each refill loses less
/// than one sub-token-second to integer rounding, and only a full bucket
/// loses refill to the capacity clamp, so `admitted * TOKEN_UNIT *
/// NANOS_PER_SEC + (polls + clamped) * NANOS_PER_SEC >= elapsed_nanoseconds
/// * rate - capacity * NANOS_PER_SEC`: a poll loop that keeps the bucket
/// from filling admits the full configured rate, up to one token per poll.
pub proof fn lemma_admission_lower_bound(m: BucketModel)
    requires
        m.inv(),
    ensures
        m.admitted * TOKEN_UNIT * NANOS_PER_SEC + m.polls * (NANOS_PER_SEC as int) + m.clamped
            * (NANOS_PER_SEC as int) >= (m.last_update - m.created_at) * m.rate,
{
    let b = NANOS_PER_SEC as int;
    assert(m.admitted * TOKEN_UNIT >= m.refilled - m.clamped);
    vstd::arithmetic::mul::lemma_mul_inequality(
        m.refilled - m.clamped,
        m.admitted * TOKEN_UNIT,
        b,
    );
    assert((m.refilled - m.clamped) * b == m.refilled * b - m.clamped * b)
        by (nonlinear_arith);
}

} // verus!
