//! Transfer-speed tracking: bytes are counted as they pass, and at most
//! every 300 ms a smoothing function, supplied by the caller, turns the
//! bytes counted since the last measurement and the time since it into the
//! new smoothed speed.

use vstd::prelude::*;
use std::time::Instant;
use crate::clock::{instant_now, nanos_since};
use vstd::arithmetic::div_mod::lemma_add_mod_noop_right;

verus! {

/// Updates closer together than this (300 ms, in nanoseconds) leave the
/// tracker unchanged.
pub const MIN_UPDATE_NS: u128 = 300_000_000;

/// The abstract state of a speed tracker: the cumulative byte count, the
/// count at the last speed update, the time of that update (nanoseconds on
/// the tracker's clock) and the smoothed speed in bytes per second.
pub struct SpeedState {
    pub total: u64,
    pub last_bytes: u64,
    pub last_update: u128,
    pub ema: u64,
}

/// `a - b`, or 0 where `b > a`.
pub open spec fn sat_sub(a: int, b: int) -> int {
    if a >= b { a - b } else { 0 }
}

/// The state of a tracker that has seen nothing, last updated at `now`.
pub open spec fn fresh_state(now: u128) -> SpeedState {
    SpeedState { total: 0, last_bytes: 0, last_update: now, ema: 0 }
}

/// An update at `now` comes within 300 ms of the last one and changes
/// nothing.
pub open spec fn throttled(s: SpeedState, now: u128) -> bool {
    sat_sub(now as int, s.last_update as int) < MIN_UPDATE_NS
}

/// What an update at `now` that goes through measures: the previous
/// smoothed speed, the bytes counted since the last update (none where the
/// count wrapped below it) and the nanoseconds since it.
pub open spec fn sample_of(s: SpeedState, now: u128) -> (u64, u64, u128) {
    (s.ema, sat_sub(s.total as int, s.last_bytes as int) as u64, sat_sub(now as int, s.last_update as int) as u128)
}

/// The state after an update at `now` whose smoothing gave `speed`: within
/// 300 ms of the last update nothing changes; else the count and time of
/// the update are taken and `speed` becomes the smoothed speed.
pub open spec fn updated(s: SpeedState, now: u128, speed: u64) -> SpeedState {
    if throttled(s, now) {
        s
    } else {
        SpeedState { total: s.total, last_bytes: s.total, last_update: now, ema: speed }
    }
}

/// `speed` is what an update at `now` may give with the smoothing
/// function `f`: the unchanged speed within 300 ms of the last update, else
/// a result of `f` on the update's sample.
pub open spec fn smoothing_gives<F: Fn(u64, u64, u128) -> u64>(f: F, s: SpeedState, now: u128, speed: u64) -> bool {
    if throttled(s, now) {
        speed == s.ema
    } else {
        call_ensures(f, sample_of(s, now), speed)
    }
}

/// The smoothing function may be applied to every sample.
pub open spec fn smoothing_total<F: Fn(u64, u64, u128) -> u64>(f: F) -> bool {
    forall|prev: u64, diff: u64, elapsed: u128| call_requires(f, (prev, diff, elapsed))
}

/// The state after `bytes` more bytes were counted (the count wraps).
pub open spec fn counted(s: SpeedState, bytes: u64) -> SpeedState {
    SpeedState { total: ((s.total + bytes) % 0x1_0000_0000_0000_0000) as u64, ..s }
}

/// Tracks how many bytes went through and a smoothed speed that does not
/// jump with every burst.
pub struct SpeedTracker {
    total_bytes: u64,
    last_bytes: u64,
    last_update_ns: u128,
    ema_speed: u64,
    origin: Instant,
}

impl View for SpeedTracker {
    type V = SpeedState;

    closed spec fn view(&self) -> SpeedState {
        SpeedState {
            total: self.total_bytes,
            last_bytes: self.last_bytes,
            last_update: self.last_update_ns,
            ema: self.ema_speed,
        }
    }
}

impl SpeedTracker {
    /// The instant from which this tracker measures time.
    pub closed spec fn clock_origin(&self) -> Instant {
        self.origin
    }

    /// A tracker that has seen nothing, whose clock starts at `origin` and
    /// reads `now` nanoseconds.
    pub fn starting_at(origin: Instant, now: u128) -> (t: SpeedTracker)
        ensures
            t@ == fresh_state(now),
            t.clock_origin() == origin,
    {
        SpeedTracker { total_bytes: 0, last_bytes: 0, last_update_ns: now, ema_speed: 0, origin }
    }

    /// A tracker that has seen nothing; its clock starts now.
    pub fn new() -> (t: SpeedTracker)
        ensures
            t@ == (SpeedState { total: 0, last_bytes: 0, last_update: 0, ema: 0 }),
    {
        SpeedTracker::starting_at(instant_now(), 0)
    }

    /// Counts `bytes` more bytes and returns the current smoothed speed.
    pub fn add_bytes(&mut self, bytes: u64) -> (speed: u64)
        ensures
            final(self)@ == counted(old(self)@, bytes),
            final(self).clock_origin() == old(self).clock_origin(),
            speed == old(self)@.ema,
    {
        self.total_bytes = self.total_bytes.wrapping_add(bytes);
        self.ema_speed
    }

    /// Updates the smoothed speed as of `now` nanoseconds on the tracker's
    /// clock and returns it. Within 300 ms of the last update nothing
    /// changes; else `smoothing` computes the new speed from the previous
    /// speed, the bytes counted since the last update and the nanoseconds
    /// since it.
    pub fn update_at<F: Fn(u64, u64, u128) -> u64>(&mut self, now: u128, smoothing: &F) -> (speed: u64)
        requires
            smoothing_total(*smoothing),
        ensures
            smoothing_gives(*smoothing, old(self)@, now, speed),
            final(self)@ == updated(old(self)@, now, speed),
            final(self).clock_origin() == old(self).clock_origin(),
            speed == final(self)@.ema,
    {
        let elapsed: u128 = if now >= self.last_update_ns { now - self.last_update_ns } else { 0 };
        if elapsed < MIN_UPDATE_NS {
            return self.ema_speed;
        }
        let current = self.total_bytes;
        let diff: u64 = current.saturating_sub(self.last_bytes);
        let next = smoothing(self.ema_speed, diff, elapsed);
        self.last_bytes = current;
        self.ema_speed = next;
        self.last_update_ns = now;
        next
    }

    /// Updates the smoothed speed as of the current time and returns it.
    /// The clock reading is not known; whatever it was, the tracker moved by
    /// one update.
    pub fn update<F: Fn(u64, u64, u128) -> u64>(&mut self, smoothing: &F) -> (speed: u64)
        requires
            smoothing_total(*smoothing),
        ensures
            exists|now: u128| #![trigger updated(old(self)@, now, speed)]
                smoothing_gives(*smoothing, old(self)@, now, speed) && final(self)@ == updated(old(self)@, now, speed),
            final(self).clock_origin() == old(self).clock_origin(),
            speed == final(self)@.ema,
    {
        let now = nanos_since(&self.origin);
        self.update_at(now, smoothing)
    }

    /// The current smoothed speed, without updating it.
    pub fn get_speed(&self) -> (speed: u64)
        ensures
            speed == self@.ema,
    {
        self.ema_speed
    }

    /// The cumulative number of bytes counted.
    pub fn get_total(&self) -> (total: u64)
        ensures
            total == self@.total,
    {
        self.total_bytes
    }

    /// Clears the counts and the speed; the last update becomes the time of
    /// the call (`now` nanoseconds on the tracker's clock).
    pub fn reset_at(&mut self, now: u128)
        ensures
            final(self)@ == fresh_state(now),
            final(self).clock_origin() == old(self).clock_origin(),
    {
        self.total_bytes = 0;
        self.last_bytes = 0;
        self.ema_speed = 0;
        self.last_update_ns = now;
    }

    /// Clears the counts and the speed for reuse; the last update becomes the
    /// time of the call.
    pub fn reset(&mut self)
        ensures
            exists|now: u128| final(self)@ == fresh_state(now),
            final(self).clock_origin() == old(self).clock_origin(),
    {
        let now = nanos_since(&self.origin);
        self.reset_at(now);
    }
}

impl Default for SpeedTracker {
    fn default() -> (t: SpeedTracker)
        ensures
            t@ == (SpeedState { total: 0, last_bytes: 0, last_update: 0, ema: 0 }),
    {
        SpeedTracker::new()
    }
}

/// Updates closer together than 300 ms change nothing.
pub proof fn law_update_throttled(s: SpeedState, now: u128, speed: u64)
    requires
        sat_sub(now as int, s.last_update as int) < MIN_UPDATE_NS,
    ensures
        updated(s, now, speed) == s,
{
}

/// An update that goes through takes the bytes counted since the previous
/// one into account exactly once: afterwards nothing is pending, and an
/// immediate second update changes nothing.
pub proof fn law_update_settles(s: SpeedState, now: u128, speed: u64, again: u64)
    requires
        sat_sub(now as int, s.last_update as int) >= MIN_UPDATE_NS,
    ensures
        updated(s, now, speed).last_bytes == s.total,
        updated(s, now, speed).last_update == now,
        updated(s, now, speed).ema == speed,
        updated(updated(s, now, speed), now, again) == updated(s, now, speed),
{
}

/// Counting bytes never changes the speed, and the counts add up.
pub proof fn law_counting(s: SpeedState, a: u64, b: u64)
    requires
        s.total + a + b <= u64::MAX,
    ensures
        counted(s, a).ema == s.ema,
        counted(counted(s, a), b) == counted(s, (a + b) as u64),
        counted(s, a).total == s.total + a,
{
}

/// One operation on a speed tracker: counting bytes, an update at a clock
/// reading whose smoothing gave a speed, or reading the speed or the total.
pub enum SpeedOp {
    Add(u64),
    Update(u128, u64),
    GetSpeed,
    GetTotal,
}

/// The state after one operation, and what the operation returns.
pub open spec fn apply_op(s: SpeedState, op: SpeedOp) -> (SpeedState, u64) {
    match op {
        SpeedOp::Add(b) => (counted(s, b), s.ema),
        SpeedOp::Update(now, v) => (updated(s, now, v), updated(s, now, v).ema),
        SpeedOp::GetSpeed => (s, s.ema),
        SpeedOp::GetTotal => (s, s.total),
    }
}

/// The state after a series of operations, and what each returned.
pub open spec fn apply_ops(s: SpeedState, ops: Seq<SpeedOp>) -> (SpeedState, Seq<u64>)
    decreases ops.len(),
{
    if ops.len() == 0 {
        (s, Seq::empty())
    } else {
        let (s1, r) = apply_op(s, ops[0]);
        let (s2, rs) = apply_ops(s1, ops.drop_first());
        (s2, seq![r] + rs)
    }
}

/// The bytes that the additions of a series of operations count.
pub open spec fn added(ops: Seq<SpeedOp>) -> int
    decreases ops.len(),
{
    if ops.len() == 0 {
        0
    } else {
        (match ops[0] {
            SpeedOp::Add(b) => b as int,
            _ => 0,
        }) + added(ops.drop_first())
    }
}

/// A reset makes the tracker as good as new: `reset_at(now)` and
/// `starting_at(_, now)` both give `fresh_state(now)`, so every later series
/// of operations returns the same results on both, and they begin with
/// nothing counted, no speed and nothing pending.
pub proof fn law_reset_as_new(now: u128, ops: Seq<SpeedOp>)
    ensures
        apply_ops(fresh_state(now), ops).1.len() == ops.len(),
        fresh_state(now).total == 0 && fresh_state(now).ema == 0 && fresh_state(now).last_bytes == 0,
        apply_ops(fresh_state(now), ops).0.total == added(ops) % 0x1_0000_0000_0000_0000,
{
    law_total_is_sum(fresh_state(now), ops);
    lemma_ops_results_len(fresh_state(now), ops);
}

/// Each operation returns one result.
proof fn lemma_ops_results_len(s: SpeedState, ops: Seq<SpeedOp>)
    ensures
        apply_ops(s, ops).1.len() == ops.len(),
    decreases ops.len(),
{
    if ops.len() > 0 {
        lemma_ops_results_len(apply_op(s, ops[0]).0, ops.drop_first());
    }
}

/// The total is the sum of the bytes counted, modulo 2^64: updates and
/// reads of the speed or the total never change it.
pub proof fn law_total_is_sum(s: SpeedState, ops: Seq<SpeedOp>)
    ensures
        apply_ops(s, ops).0.total == (s.total + added(ops)) % 0x1_0000_0000_0000_0000,
    decreases ops.len(),
{
    if ops.len() > 0 {
        let (s1, r) = apply_op(s, ops[0]);
        law_total_is_sum(s1, ops.drop_first());
        let rest = added(ops.drop_first());
        lemma_added_nonneg(ops.drop_first());
        match ops[0] {
            SpeedOp::Add(b) => {
                lemma_add_mod_noop_right(rest, s.total + b, 0x1_0000_0000_0000_0000);
                assert(s1.total == (s.total + b) % 0x1_0000_0000_0000_0000);
            },
            _ => {
                assert(s1.total == s.total);
            },
        }
    } else {
        assert((s.total as int) % 0x1_0000_0000_0000_0000int == s.total);
    }
}

/// The bytes counted are never negative.
proof fn lemma_added_nonneg(ops: Seq<SpeedOp>)
    ensures
        added(ops) >= 0,
    decreases ops.len(),
{
    if ops.len() > 0 {
        lemma_added_nonneg(ops.drop_first());
    }
}

/// Every update 300 ms or more after the last one applies the smoothing
/// function to the previous speed, the bytes counted since the last update
/// and the nanoseconds since it, whatever the byte count, no bytes at all
/// included: a stalled download's speed is smoothed towards its sample too.
pub proof fn law_update_applies_smoothing<F: Fn(u64, u64, u128) -> u64>(f: F, s: SpeedState, now: u128, speed: u64)
    requires
        now >= s.last_update + MIN_UPDATE_NS,
        smoothing_gives(f, s, now, speed),
    ensures
        call_ensures(f, (s.ema, (if s.total >= s.last_bytes { s.total - s.last_bytes } else { 0 }) as u64, (now - s.last_update) as u128), speed),
        updated(s, now, speed).ema == speed,
        updated(s, now, speed).last_bytes == s.total,
        updated(s, now, speed).last_update == now,
{
}

} // verus!
