//! Token-bucket bandwidth limiting. The bucket is refilled in whole 25 ms
//! intervals and holds at most 50 ms worth of tokens, so that bytes flow
//! smoothly instead of in bursts followed by waits.

use vstd::prelude::*;
use std::time::Instant;
use crate::clock::{instant_now, nanos_since};

verus! {

/// Length of one refill interval in milliseconds.
pub const REFILL_INTERVAL_MS: u64 = 25;

/// Refill intervals per second.
pub const REFILLS_PER_SECOND: u64 = 40;

/// Nanoseconds in a millisecond.
pub const NANOS_PER_MS: u128 = 1_000_000;

/// Length of one refill interval in nanoseconds.
pub const REFILL_INTERVAL_NS: u128 = 25_000_000;

/// The abstract state of a limiter: the configured limit in bytes per second
/// (0 for none), the tokens in the bucket and the time of the last refill
/// (nanoseconds on the limiter's clock).
pub struct LimiterState {
    pub limit_bps: u64,
    pub tokens: u64,
    pub last_refill: u128,
}

/// What one pass of the consuming loop decides.
#[derive(PartialEq, Eq, Debug, Clone, Copy, Structural)]
pub enum BucketStep {
    /// The bucket is empty: wait this many nanoseconds for the next refill.
    Wait(u128),
    /// This many bytes may go through now.
    Take(u64),
}

/// Tokens added per refill interval: a 40th of the limit, at least one.
pub open spec fn spec_tokens_per_refill(limit: u64) -> u64 {
    if limit / REFILLS_PER_SECOND >= 1 { (limit / REFILLS_PER_SECOND) as u64 } else { 1 }
}

/// The bucket's capacity: 50 ms worth of tokens, at least one refill.
pub open spec fn spec_max_tokens(limit: u64) -> u64 {
    if limit / 20 >= spec_tokens_per_refill(limit) { (limit / 20) as u64 } else { spec_tokens_per_refill(limit) }
}

/// Whether consuming `bytes` under `limit` waits for tokens at all.
pub open spec fn spec_limiting_applies(limit: u64, bytes: u64) -> bool {
    limit != 0 && bytes != 0
}

/// Nanoseconds between the last refill and `now` (none if `now` is
/// earlier).
pub open spec fn elapsed_ns(s: LimiterState, now: u128) -> u128 {
    if now >= s.last_refill { (now - s.last_refill) as u128 } else { 0 }
}

/// Whole refill intervals that have passed by `now`.
pub open spec fn intervals_passed(s: LimiterState, now: u128) -> u64 {
    (((elapsed_ns(s, now) / NANOS_PER_MS) as u64) / REFILL_INTERVAL_MS) as u64
}

/// `a + b`, capped at `u64::MAX`.
pub open spec fn sat_add(a: u64, b: u64) -> u64 {
    if a + b > u64::MAX { u64::MAX } else { (a + b) as u64 }
}

/// `a * b`, capped at `u64::MAX`.
pub open spec fn sat_mul(a: u64, b: u64) -> u64 {
    if a * b > u64::MAX { u64::MAX } else { (a * b) as u64 }
}

/// The state after refilling at `now` under `limit`: one refill's tokens
/// for every whole interval passed, capped at the capacity, and the refill
/// time moved on by those whole intervals.
pub open spec fn refilled(s: LimiterState, limit: u64, now: u128) -> LimiterState {
    let n = intervals_passed(s, now);
    if n > 0 {
        let t = sat_add(s.tokens, sat_mul(n, spec_tokens_per_refill(limit)));
        LimiterState {
            tokens: if t <= spec_max_tokens(limit) { t } else { spec_max_tokens(limit) },
            last_refill: (s.last_refill + n * REFILL_INTERVAL_NS) as u128,
            ..s
        }
    } else {
        s
    }
}

/// One pass of the consuming loop at `now`, with `remaining` bytes left
/// under the limit `limit` read when consuming began: refill, then either
/// wait out the rest of the interval (empty bucket) or take what the bucket
/// holds, up to `remaining`.
pub open spec fn bucket_step(s: LimiterState, limit: u64, remaining: u64, now: u128) -> (LimiterState, BucketStep) {
    let r = refilled(s, limit, now);
    if r.tokens == 0 {
        let e = elapsed_ns(s, now);
        (r, BucketStep::Wait(if e < REFILL_INTERVAL_NS { (REFILL_INTERVAL_NS - e) as u128 } else { 0 }))
    } else {
        let take = if r.tokens <= remaining { r.tokens } else { remaining };
        (LimiterState { tokens: (r.tokens - take) as u64, ..r }, BucketStep::Take(take))
    }
}

/// A token-bucket rate limiter shared by all downloads of a process.
pub struct DownloadRateLimiter {
    limit_bps: u64,
    tokens: u64,
    last_refill_ns: u128,
    origin: Instant,
}

impl View for DownloadRateLimiter {
    type V = LimiterState;

    closed spec fn view(&self) -> LimiterState {
        LimiterState { limit_bps: self.limit_bps, tokens: self.tokens, last_refill: self.last_refill_ns }
    }
}

/// `a * b`, capped at `u64::MAX`.
pub fn mul_capped(a: u64, b: u64) -> (p: u64)
    ensures
        p == sat_mul(a, b),
{
    match a.checked_mul(b) {
        Some(p) => p,
        None => u64::MAX,
    }
}

/// Tokens added per refill interval under `limit`.
pub fn tokens_per_refill(limit: u64) -> (t: u64)
    ensures
        t == spec_tokens_per_refill(limit),
{
    let t = limit / REFILLS_PER_SECOND;
    if t >= 1 { t } else { 1 }
}

/// The bucket's capacity under `limit`.
pub fn max_tokens(limit: u64) -> (m: u64)
    ensures
        m == spec_max_tokens(limit),
{
    let per = tokens_per_refill(limit);
    let m = limit / 20;
    if m >= per { m } else { per }
}

/// Whether consuming `bytes` under `limit` waits for tokens at all; with no
/// limit, or nothing to consume, it returns at once.
pub fn limiting_applies(limit: u64, bytes: u64) -> (b: bool)
    ensures
        b == spec_limiting_applies(limit, bytes),
{
    limit != 0 && bytes != 0
}

impl DownloadRateLimiter {
    /// The instant from which this limiter measures time.
    pub closed spec fn clock_origin(&self) -> Instant {
        self.origin
    }

    /// An unlimited limiter with an empty bucket, last refilled now.
    pub fn new() -> (l: DownloadRateLimiter)
        ensures
            l@ == (LimiterState { limit_bps: 0, tokens: 0, last_refill: 0 }),
    {
        DownloadRateLimiter { limit_bps: 0, tokens: 0, last_refill_ns: 0, origin: instant_now() }
    }

    /// Sets the limit in bytes per second; 0 removes it.
    pub fn set_limit_bps(&mut self, limit_bps: u64)
        ensures
            final(self)@ == (LimiterState { limit_bps, ..old(self)@ }),
            final(self).clock_origin() == old(self).clock_origin(),
    {
        self.limit_bps = limit_bps;
    }

    /// The limit in bytes per second (0: none).
    pub fn limit_bps(&self) -> (l: u64)
        ensures
            l == self@.limit_bps,
    {
        self.limit_bps
    }

    /// One pass of the consuming loop at `now` nanoseconds on the limiter's
    /// clock: see `bucket_step`.
    pub fn step_at(&mut self, limit: u64, remaining: u64, now: u128) -> (step: BucketStep)
        ensures
            (final(self)@, step) == bucket_step(old(self)@, limit, remaining, now),
            final(self).clock_origin() == old(self).clock_origin(),
    {
        let per = tokens_per_refill(limit);
        let cap = max_tokens(limit);
        let elapsed: u128 = if now >= self.last_refill_ns { now - self.last_refill_ns } else { 0 };
        let ms: u128 = elapsed / NANOS_PER_MS;
        let n: u64 = (ms as u64) / REFILL_INTERVAL_MS;
        if n > 0 {
            let t = self.tokens.saturating_add(mul_capped(n, per));
            self.tokens = if t <= cap { t } else { cap };
            proof {
                lemma_whole_intervals_fit(elapsed, ms, n);
            }
            self.last_refill_ns = self.last_refill_ns + n as u128 * REFILL_INTERVAL_NS;
        }
        if self.tokens == 0 {
            let wait: u128 = if elapsed < REFILL_INTERVAL_NS { REFILL_INTERVAL_NS - elapsed } else { 0 };
            BucketStep::Wait(wait)
        } else {
            let take = if self.tokens <= remaining { self.tokens } else { remaining };
            self.tokens = self.tokens - take;
            BucketStep::Take(take)
        }
    }

    /// One pass of the consuming loop as of the current time. The clock
    /// reading is not known; whatever it was, the limiter moved by one pass.
    pub fn step(&mut self, limit: u64, remaining: u64) -> (step: BucketStep)
        ensures
            exists|now: u128| (final(self)@, step) == bucket_step(old(self)@, limit, remaining, now),
            final(self).clock_origin() == old(self).clock_origin(),
    {
        let now = nanos_since(&self.origin);
        self.step_at(limit, remaining, now)
    }
}

/// The whole intervals counted from `elapsed` nanoseconds never take more
/// time than elapsed.
proof fn lemma_whole_intervals_fit(elapsed: u128, ms: u128, n: u64)
    requires
        ms == elapsed / NANOS_PER_MS,
        n == (ms as u64) / REFILL_INTERVAL_MS,
    ensures
        n * REFILL_INTERVAL_NS <= elapsed,
{
    assert((ms as u64) <= ms) by (bit_vector);
    assert(n * REFILL_INTERVAL_MS <= (ms as u64)) by (nonlinear_arith)
        requires n == (ms as u64) / REFILL_INTERVAL_MS;
    assert(ms * NANOS_PER_MS <= elapsed) by (nonlinear_arith)
        requires ms == elapsed / NANOS_PER_MS;
    assert(n * REFILL_INTERVAL_NS == (n * REFILL_INTERVAL_MS) * NANOS_PER_MS);
}

/// Sets the limit of `limiter` (the one shared by all downloads) from a
/// speed in KiB/s; 0 removes the limit. The byte rate saturates at
/// `u64::MAX`.
pub fn set_global_download_speed_limit_kib(limiter: &mut DownloadRateLimiter, kib_per_sec: u64)
    ensures
        final(limiter)@ == (LimiterState { limit_bps: sat_mul(kib_per_sec, 1024), ..old(limiter)@ }),
        final(limiter).clock_origin() == old(limiter).clock_origin(),
{
    let bps = mul_capped(kib_per_sec, 1024);
    limiter.set_limit_bps(bps);
}


/// What the consuming loop does next.
#[derive(PartialEq, Eq, Debug, Clone, Copy, Structural)]
pub enum ConsumeAction {
    /// Consuming is over: `true` when every byte went through, `false` when
    /// it was cancelled.
    Finished(bool),
    /// Sleep this many nanoseconds, then poll again.
    Sleep(u128),
    /// Poll again at once.
    Again,
}

/// The abstract state of a consuming loop: the limit read when it began and
/// the bytes still to let through.
pub struct ConsumeState {
    pub limit: u64,
    pub remaining: u64,
}

/// The consuming loop's state when it begins with `bytes` under `limit`:
/// nothing remains to wait for where limiting does not apply.
pub open spec fn consume_start(limit: u64, bytes: u64) -> ConsumeState {
    ConsumeState { limit, remaining: if spec_limiting_applies(limit, bytes) { bytes } else { 0 } }
}

/// One poll of the consuming loop at `now`: done once nothing remains,
/// cancelled when asked to, else one pass of the bucket.
pub open spec fn consume_poll(c: ConsumeState, s: LimiterState, cancelled: bool, now: u128) -> (ConsumeState, LimiterState, ConsumeAction) {
    if c.remaining == 0 {
        (c, s, ConsumeAction::Finished(true))
    } else if cancelled {
        (c, s, ConsumeAction::Finished(false))
    } else {
        let (s2, step) = bucket_step(s, c.limit, c.remaining, now);
        match step {
            BucketStep::Wait(d) => (c, s2, if d > 0 { ConsumeAction::Sleep(d) } else { ConsumeAction::Again }),
            BucketStep::Take(n) => (ConsumeState { remaining: (c.remaining - n) as u64, ..c }, s2, ConsumeAction::Again),
        }
    }
}

/// A request to let `bytes` bytes through the limiter, polled until it is
/// finished.
pub struct ConsumeRequest {
    limit: u64,
    remaining: u64,
}

impl View for ConsumeRequest {
    type V = ConsumeState;

    closed spec fn view(&self) -> ConsumeState {
        ConsumeState { limit: self.limit, remaining: self.remaining }
    }
}

impl ConsumeRequest {
    /// Begins consuming `bytes` under the limiter's current limit, which the
    /// whole request keeps.
    pub fn begin(limiter: &DownloadRateLimiter, bytes: u64) -> (r: ConsumeRequest)
        ensures
            r@ == consume_start(limiter@.limit_bps, bytes),
    {
        let limit = limiter.limit_bps();
        let remaining = if limiting_applies(limit, bytes) { bytes } else { 0 };
        ConsumeRequest { limit, remaining }
    }

    /// The bytes still to let through.
    pub fn remaining(&self) -> (r: u64)
        ensures
            r == self@.remaining,
    {
        self.remaining
    }

    /// One poll at `now` nanoseconds on the limiter's clock; `cancelled`
    /// is the state of the cancel token.
    pub fn poll_at(&mut self, limiter: &mut DownloadRateLimiter, cancelled: bool, now: u128) -> (a: ConsumeAction)
        ensures
            (final(self)@, final(limiter)@, a) == consume_poll(old(self)@, old(limiter)@, cancelled, now),
            final(limiter).clock_origin() == old(limiter).clock_origin(),
    {
        if self.remaining == 0 {
            return ConsumeAction::Finished(true);
        }
        if cancelled {
            return ConsumeAction::Finished(false);
        }
        match limiter.step_at(self.limit, self.remaining, now) {
            BucketStep::Wait(d) => if d > 0 { ConsumeAction::Sleep(d) } else { ConsumeAction::Again },
            BucketStep::Take(n) => {
                self.remaining = self.remaining - n;
                ConsumeAction::Again
            },
        }
    }

    /// One poll as of the current time. The clock reading is not known;
    /// whatever it was, the request and the limiter moved by one poll.
    pub fn poll(&mut self, limiter: &mut DownloadRateLimiter, cancelled: bool) -> (a: ConsumeAction)
        ensures
            exists|now: u128| (final(self)@, final(limiter)@, a) == consume_poll(old(self)@, old(limiter)@, cancelled, now),
            final(limiter).clock_origin() == old(limiter).clock_origin(),
    {
        let now = nanos_since(&limiter.origin);
        self.poll_at(limiter, cancelled, now)
    }
}

/// With no limit, or nothing to consume, consuming finishes at once.
pub proof fn law_unlimited_passes(limit: u64, bytes: u64, s: LimiterState, cancelled: bool, now: u128)
    requires
        !spec_limiting_applies(limit, bytes),
    ensures
        consume_poll(consume_start(limit, bytes), s, cancelled, now) == (consume_start(limit, bytes), s, ConsumeAction::Finished(true)),
{
}

/// A cancelled request with bytes still to go ends unsuccessfully at once,
/// leaving the bucket untouched.
pub proof fn law_cancel_stops(c: ConsumeState, s: LimiterState, now: u128)
    requires
        c.remaining > 0,
    ensures
        consume_poll(c, s, true, now) == (c, s, ConsumeAction::Finished(false)),
{
}

/// A refill never fills the bucket beyond its capacity, and never loses
/// tokens that fit.
pub proof fn law_refill_capped(s: LimiterState, limit: u64, now: u128)
    requires
        intervals_passed(s, now) > 0,
    ensures
        refilled(s, limit, now).tokens <= spec_max_tokens(limit),
        refilled(s, limit, now).tokens >= spec_tokens_per_refill(limit),
        refilled(s, limit, now).tokens >= s.tokens || refilled(s, limit, now).tokens == spec_max_tokens(limit),
        refilled(s, limit, now).last_refill <= now,
{
    let n = intervals_passed(s, now);
    let e = elapsed_ns(s, now);
    let ms = e / NANOS_PER_MS;
    lemma_whole_intervals_fit(e, ms, n);
    assert(sat_mul(n, spec_tokens_per_refill(limit)) >= spec_tokens_per_refill(limit)) by (nonlinear_arith)
        requires n >= 1;
}

/// One pass lets through no more than the bytes asked for and no more than
/// the bucket held after refilling; what it lets through leaves the bucket.
pub proof fn law_take_conserves(s: LimiterState, limit: u64, remaining: u64, now: u128)
    ensures
        match bucket_step(s, limit, remaining, now).1 {
            BucketStep::Take(n) => {
                &&& n <= remaining
                &&& n <= refilled(s, limit, now).tokens
                &&& bucket_step(s, limit, remaining, now).0.tokens + n == refilled(s, limit, now).tokens
                &&& (remaining > 0 ==> n > 0)
            },
            BucketStep::Wait(_) => bucket_step(s, limit, remaining, now).0 == refilled(s, limit, now),
        },
{
}

/// A pass waits only when the bucket is empty after refilling, and then
/// for the rest of the current interval: more than nothing and at most
/// 25 ms (for any time since the last refill short of 2^64 ms).
pub proof fn law_wait_bounded(s: LimiterState, limit: u64, remaining: u64, now: u128)
    requires
        elapsed_ns(s, now) / NANOS_PER_MS <= u64::MAX,
    ensures
        match bucket_step(s, limit, remaining, now).1 {
            BucketStep::Wait(d) => {
                &&& refilled(s, limit, now).tokens == 0
                &&& intervals_passed(s, now) == 0
                &&& 0 < d <= REFILL_INTERVAL_NS
            },
            BucketStep::Take(_) => refilled(s, limit, now).tokens > 0,
        },
{
    let n = intervals_passed(s, now);
    let e = elapsed_ns(s, now);
    let ms = e / NANOS_PER_MS;
    if n > 0 {
        law_refill_capped(s, limit, now);
    } else {
        assert(ms < 25) by (bit_vector)
            requires (ms as u64) / 25 == 0u64, ms <= 0xffff_ffff_ffff_ffffu128;
        assert(e < REFILL_INTERVAL_NS) by (nonlinear_arith)
            requires ms == e / NANOS_PER_MS, ms < 25;
    }
}

/// Every poll of a request that is not cancelled and has bytes to go
/// either sleeps or lets at least one byte through, so the bytes to go
/// only ever shrink.
pub proof fn law_consume_progress(c: ConsumeState, s: LimiterState, now: u128)
    requires
        c.remaining > 0,
        elapsed_ns(s, now) / NANOS_PER_MS <= u64::MAX,
    ensures
        ({
            let (c2, _, a) = consume_poll(c, s, false, now);
            (a is Sleep && c2 == c) || (a == ConsumeAction::Again && c2.remaining < c.remaining)
        }),
{
    law_take_conserves(s, c.limit, c.remaining, now);
    law_wait_bounded(s, c.limit, c.remaining, now);
}

/// The bytes one pass lets through.
pub open spec fn taken(step: BucketStep) -> nat {
    match step {
        BucketStep::Take(n) => n as nat,
        BucketStep::Wait(_) => 0,
    }
}

/// Whole refill intervals by which the refill time moved from `a` to `b`.
pub open spec fn intervals_between(a: LimiterState, b: LimiterState) -> int {
    (b.last_refill - a.last_refill) / (REFILL_INTERVAL_NS as int)
}

/// One pass never lets through more than the tokens the bucket held plus
/// one refill's tokens for each whole interval by which it moved the refill
/// time, and it only moves the refill time forward, by whole intervals.
pub proof fn law_pass_within_rate(s: LimiterState, limit: u64, remaining: u64, now: u128)
    ensures
        ({
            let (s2, st) = bucket_step(s, limit, remaining, now);
            &&& s2.last_refill >= s.last_refill
            &&& (s2.last_refill - s.last_refill) % (REFILL_INTERVAL_NS as int) == 0
            &&& s2.tokens + taken(st) <= s.tokens + spec_tokens_per_refill(limit) * intervals_between(s, s2)
        }),
{
    let n = intervals_passed(s, now);
    let per = spec_tokens_per_refill(limit);
    let (s2, st) = bucket_step(s, limit, remaining, now);
    let r = refilled(s, limit, now);
    if n > 0 {
        assert((n * REFILL_INTERVAL_NS) / (REFILL_INTERVAL_NS as int) == n) by (nonlinear_arith);
        assert((n * REFILL_INTERVAL_NS) % (REFILL_INTERVAL_NS as int) == 0) by (nonlinear_arith);
        assert(sat_mul(n, per) <= n * per);
        assert(r.tokens <= s.tokens + n * per);
        assert(n * per == per * n) by (nonlinear_arith);
    } else {
        assert(intervals_between(s, s2) == 0);
    }
}

/// The state after a series of passes under one limit, each with the bytes
/// still to go and the time of the pass, and the bytes they let through.
pub open spec fn run(s: LimiterState, limit: u64, passes: Seq<(u64, u128)>) -> (LimiterState, nat)
    decreases passes.len(),
{
    if passes.len() == 0 {
        (s, 0)
    } else {
        let (s1, st) = bucket_step(s, limit, passes[0].0, passes[0].1);
        let (s2, t) = run(s1, limit, passes.drop_first());
        (s2, taken(st) + t)
    }
}

/// The bandwidth promise: over any series of passes under one limit, the
/// bytes let through never exceed the tokens held at the start plus one
/// refill's tokens (a 40th of the limit, at least one) for every 25 ms by
/// which the refill time moved; and the refill time only moves forward.
pub proof fn law_run_within_rate(s: LimiterState, limit: u64, passes: Seq<(u64, u128)>)
    ensures
        run(s, limit, passes).0.last_refill >= s.last_refill,
        (run(s, limit, passes).0.last_refill - s.last_refill) % (REFILL_INTERVAL_NS as int) == 0,
        run(s, limit, passes).0.tokens + run(s, limit, passes).1
            <= s.tokens + spec_tokens_per_refill(limit) * intervals_between(s, run(s, limit, passes).0),
    decreases passes.len(),
{
    if passes.len() > 0 {
        let (s1, st) = bucket_step(s, limit, passes[0].0, passes[0].1);
        law_pass_within_rate(s, limit, passes[0].0, passes[0].1);
        law_run_within_rate(s1, limit, passes.drop_first());
        let (s2, t) = run(s1, limit, passes.drop_first());
        let per = spec_tokens_per_refill(limit) as int;
        let d1 = s1.last_refill - s.last_refill;
        let d2 = s2.last_refill - s1.last_refill;
        let i1 = intervals_between(s, s1);
        let i2 = intervals_between(s1, s2);
        assert(intervals_between(s, s2) == i1 + i2) by (nonlinear_arith)
            requires
                d1 % (REFILL_INTERVAL_NS as int) == 0,
                d2 % (REFILL_INTERVAL_NS as int) == 0,
                i1 == d1 / (REFILL_INTERVAL_NS as int),
                i2 == d2 / (REFILL_INTERVAL_NS as int),
                intervals_between(s, s2) == (d1 + d2) / (REFILL_INTERVAL_NS as int),
                d1 >= 0, d2 >= 0;
        assert((d1 + d2) % (REFILL_INTERVAL_NS as int) == 0) by (nonlinear_arith)
            requires
                d1 % (REFILL_INTERVAL_NS as int) == 0,
                d2 % (REFILL_INTERVAL_NS as int) == 0,
                d1 >= 0, d2 >= 0;
        assert(per * (i1 + i2) == per * i1 + per * i2) by (nonlinear_arith);
    }
}

/// A pass keeps the bucket within its capacity, and with a clock reading
/// not before the last refill it moves the refill time by whole intervals,
/// never past the reading.
pub proof fn law_pass_keeps_bucket(s: LimiterState, limit: u64, remaining: u64, now: u128)
    requires
        s.tokens <= spec_max_tokens(limit),
        now >= s.last_refill,
    ensures
        ({
            let s2 = bucket_step(s, limit, remaining, now).0;
            &&& s2.tokens <= spec_max_tokens(limit)
            &&& s.last_refill <= s2.last_refill <= now
            &&& (s2.last_refill - s.last_refill) % (REFILL_INTERVAL_NS as int) == 0
        }),
{
    law_pass_within_rate(s, limit, remaining, now);
    law_take_conserves(s, limit, remaining, now);
    if intervals_passed(s, now) > 0 {
        law_refill_capped(s, limit, now);
    }
}

/// Over any series of passes under one limit, a bucket that starts within
/// its capacity stays within it.
pub proof fn law_run_keeps_capacity(s: LimiterState, limit: u64, passes: Seq<(u64, u128)>)
    requires
        s.tokens <= spec_max_tokens(limit),
    ensures
        run(s, limit, passes).0.tokens <= spec_max_tokens(limit),
    decreases passes.len(),
{
    if passes.len() > 0 {
        let s1 = bucket_step(s, limit, passes[0].0, passes[0].1).0;
        law_take_conserves(s, limit, passes[0].0, passes[0].1);
        if intervals_passed(s, passes[0].1) > 0 {
            law_refill_capped(s, limit, passes[0].1);
        }
        law_run_keeps_capacity(s1, limit, passes.drop_first());
    }
}

/// A series of passes at readings no later than `t1` either leaves the
/// refill time where it was or moves it to no later than `t1`.
proof fn lemma_run_refill_bounded(s: LimiterState, limit: u64, passes: Seq<(u64, u128)>, t1: u128)
    requires
        forall|i: int| 0 <= i < passes.len() ==> #[trigger] passes[i].1 <= t1,
    ensures
        run(s, limit, passes).0.last_refill == s.last_refill || run(s, limit, passes).0.last_refill <= t1,
    decreases passes.len(),
{
    if passes.len() > 0 {
        let s1 = bucket_step(s, limit, passes[0].0, passes[0].1).0;
        if intervals_passed(s, passes[0].1) > 0 {
            law_refill_capped(s, limit, passes[0].1);
        }
        let rest = passes.drop_first();
        assert forall|i: int| 0 <= i < rest.len() implies #[trigger] rest[i].1 <= t1 by {
            assert(rest[i] == passes[i + 1]);
        }
        lemma_run_refill_bounded(s1, limit, rest, t1);
    }
}

/// The first pass at a reading no earlier than `t0` leaves the bucket and
/// what it let through within the capacity, and the refill time less than
/// one interval before `t0`.
proof fn lemma_first_pass(s: LimiterState, limit: u64, remaining: u64, now: u128, t0: u128)
    requires
        s.tokens <= spec_max_tokens(limit),
        t0 <= now,
        now / NANOS_PER_MS <= u64::MAX,
    ensures
        ({
            let (s1, st) = bucket_step(s, limit, remaining, now);
            &&& s1.tokens + taken(st) <= spec_max_tokens(limit)
            &&& s1.last_refill + REFILL_INTERVAL_NS > t0
        }),
{
    let n = intervals_passed(s, now);
    let e = elapsed_ns(s, now);
    let ms = e / NANOS_PER_MS;
    law_take_conserves(s, limit, remaining, now);
    assert(e <= now);
    assert(ms <= now / NANOS_PER_MS) by (nonlinear_arith)
        requires e <= now, ms == e / NANOS_PER_MS;
    assert((ms as u64) == ms);
    assert(n == ms / 25);
    assert(e < (ms + 1) * NANOS_PER_MS) by (nonlinear_arith)
        requires ms == e / NANOS_PER_MS;
    assert(ms < 25 * (n + 1)) by (nonlinear_arith)
        requires n == ms / 25;
    assert((ms + 1) * NANOS_PER_MS <= 25 * (n + 1) * NANOS_PER_MS) by (nonlinear_arith)
        requires ms < 25 * (n + 1);
    if n > 0 {
        law_refill_capped(s, limit, now);
    }
}

/// The bandwidth promise over a window of time: starting within its
/// capacity `M` (50 ms of tokens), the bucket lets through, over any series
/// of passes under one limit `L` of at least 40 bytes per second whose
/// clock readings fall within `[t0, t1]`, no more than `M` plus one refill
/// (`L / 40`) plus `L` bytes per second of the window (for readings short
/// of 2^64 ms).
pub proof fn law_window_rate(s: LimiterState, limit: u64, passes: Seq<(u64, u128)>, t0: u128, t1: u128)
    requires
        limit >= 40,
        s.tokens <= spec_max_tokens(limit),
        t0 <= t1,
        t1 / NANOS_PER_MS <= u64::MAX,
        forall|i: int| 0 <= i < passes.len() ==> t0 <= #[trigger] passes[i].1 <= t1,
    ensures
        run(s, limit, passes).1 * 1_000_000_000
            <= (spec_max_tokens(limit) + limit / 40) * 1_000_000_000 + limit * (t1 - t0),
{
    if passes.len() > 0 {
        let m = spec_max_tokens(limit) as int;
        let k = spec_tokens_per_refill(limit) as int;
        assert(k == limit / 40);
        let (s1, st) = bucket_step(s, limit, passes[0].0, passes[0].1);
        assert(t0 <= passes[0].1 <= t1);
        assert(passes[0].1 / NANOS_PER_MS <= t1 / NANOS_PER_MS) by (nonlinear_arith)
            requires passes[0].1 <= t1;
        lemma_first_pass(s, limit, passes[0].0, passes[0].1, t0);
        let rest = passes.drop_first();
        assert forall|i: int| 0 <= i < rest.len() implies #[trigger] rest[i].1 <= t1 by {
            assert(rest[i] == passes[i + 1]);
        }
        law_run_within_rate(s1, limit, rest);
        lemma_run_refill_bounded(s1, limit, rest, t1);
        let (s2, t) = run(s1, limit, rest);
        let big_i = intervals_between(s1, s2);
        let d = s2.last_refill - s1.last_refill;
        assert(run(s, limit, passes).1 == taken(st) + t);
        assert(t <= s1.tokens + k * big_i);
        assert(taken(st) + t <= m + k * big_i);
        if big_i >= 1 {
            assert(d <= t1 - t0 + REFILL_INTERVAL_NS);
            assert((big_i - 1) * (REFILL_INTERVAL_NS as int) <= t1 - t0) by (nonlinear_arith)
                requires
                    big_i == d / (REFILL_INTERVAL_NS as int),
                    d < t1 - t0 + REFILL_INTERVAL_NS,
                    d >= 0;
            assert(k * (big_i - 1) * 1_000_000_000 <= limit * (t1 - t0)) by (nonlinear_arith)
                requires
                    k == limit / 40,
                    big_i >= 1,
                    (big_i - 1) * 25_000_000 <= t1 - t0,
                    k >= 0;
            assert((taken(st) + t) * 1_000_000_000 <= (m + k) * 1_000_000_000 + limit * (t1 - t0)) by (nonlinear_arith)
                requires
                    taken(st) + t <= m + k * big_i,
                    k * (big_i - 1) * 1_000_000_000 <= limit * (t1 - t0);
        } else {
            assert(big_i >= 0) by (nonlinear_arith)
                requires big_i == d / (REFILL_INTERVAL_NS as int), d >= 0;
            assert(k * big_i <= 0) by (nonlinear_arith)
                requires big_i <= 0, k >= 0;
            assert((taken(st) + t) * 1_000_000_000 <= (m + k) * 1_000_000_000 + limit * (t1 - t0)) by (nonlinear_arith)
                requires
                    taken(st) + t <= m,
                    k >= 0,
                    limit * (t1 - t0) >= 0;
        }
    }
}

/// A refill adds one refill's tokens for every whole interval passed to
/// the tokens the bucket holds, up to its capacity: tokens held are never
/// thrown away below the capacity.
pub proof fn law_refill_adds_tokens(s: LimiterState, limit: u64, now: u128)
    requires
        intervals_passed(s, now) > 0,
    ensures
        ({
            let want = s.tokens + intervals_passed(s, now) * spec_tokens_per_refill(limit);
            refilled(s, limit, now).tokens == if want <= spec_max_tokens(limit) { want } else { spec_max_tokens(limit) as int }
        }),
        refilled(s, limit, now).tokens >= s.tokens || refilled(s, limit, now).tokens == spec_max_tokens(limit),
{
    let n = intervals_passed(s, now);
    let per = spec_tokens_per_refill(limit);
    assert(n * per >= 0) by (nonlinear_arith)
        requires n >= 0, per >= 0;
}

/// After a pass that refills, asking for at least what the bucket can hold
/// lets through every token held plus the refill, up to the capacity.
pub proof fn law_refill_then_take(s: LimiterState, limit: u64, remaining: u64, now: u128)
    requires
        intervals_passed(s, now) > 0,
        remaining >= spec_max_tokens(limit),
    ensures
        ({
            let want = s.tokens + intervals_passed(s, now) * spec_tokens_per_refill(limit);
            bucket_step(s, limit, remaining, now).1 == BucketStep::Take(
                (if want <= spec_max_tokens(limit) { want } else { spec_max_tokens(limit) as int }) as u64)
        }),
{
    law_refill_adds_tokens(s, limit, now);
    law_refill_capped(s, limit, now);
}

} // verus!
