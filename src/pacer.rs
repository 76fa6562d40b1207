//! A frame clock that keeps a fixed cadence without drift.
use vstd::prelude::*;

verus! {

/// Length of one frame in nanoseconds: a thirtieth of a second, in whole milliseconds.
pub const FRAME_DURATION_NANOS: u64 = 33_000_000;

/// Whole intervals that have gone by in `elapsed`.
pub open spec fn skipped_of(elapsed: int, interval: int) -> int {
    elapsed / interval
}

/// Time left until the next interval boundary after `elapsed`.
pub open spec fn sleep_of(elapsed: int, interval: int) -> int {
    interval - elapsed % interval
}

/// Time since `last`, or zero where the clock reads earlier than `last`.
pub open spec fn elapsed_of(last: int, now: int) -> int {
    if now >= last { now - last } else { 0 }
}

/// What one tick found, and how long the caller sleeps before the next frame.
#[derive(Debug, Clone, Copy, PartialEq, Eq, Structural)]
pub struct TickPlan {
    /// Whole intervals that had already gone by since the last tick.
    pub skipped: u64,
    /// Time to sleep before the next frame, in nanoseconds.
    pub sleep: u64,
}

/// The frame clock: the time of the last tick and the fixed interval, both in
/// nanoseconds of a monotonic clock that the caller reads.
pub struct FrameTicks {
    last_tick: u64,
    interval: u64,
}

impl FrameTicks {
    pub closed spec fn last(&self) -> int {
        self.last_tick as int
    }

    pub closed spec fn interval(&self) -> int {
        self.interval as int
    }

    pub open spec fn wf(&self) -> bool {
        self.interval() > 0
    }

    /// The plan that a tick at `now` makes.
    pub open spec fn plan_at(&self, now: int) -> (int, int) {
        let e = elapsed_of(self.last(), now);
        (skipped_of(e, self.interval()), sleep_of(e, self.interval()))
    }

    /// A clock at a frame's cadence whose last tick is `now`.
    pub fn new(now: u64) -> (r: Self)
        ensures
            r.wf(),
            r.last() == now,
            r.interval() == FRAME_DURATION_NANOS,
    {
        FrameTicks { last_tick: now, interval: FRAME_DURATION_NANOS }
    }

    /// A clock with the given interval whose last tick is `now`.
    pub fn with_interval(now: u64, interval: u64) -> (r: Self)
        requires
            interval > 0,
        ensures
            r.wf(),
            r.last() == now,
            r.interval() == interval,
    {
        FrameTicks { last_tick: now, interval }
    }

    pub fn last_tick(&self) -> (r: u64)
        ensures
            r == self.last(),
    {
        self.last_tick
    }

    pub fn interval_nanos(&self) -> (r: u64)
        ensures
            r == self.interval(),
    {
        self.interval
    }

    /// The plan for a tick at `now`, without moving the clock.
    pub fn plan(&self, now: u64) -> (r: TickPlan)
        requires
            self.wf(),
        ensures
            (r.skipped as int, r.sleep as int) == self.plan_at(now as int),
            0 < r.sleep <= self.interval(),
    {
        let elapsed: u64 = if now >= self.last_tick { now - self.last_tick } else { 0 };
        let skipped: u64 = elapsed / self.interval;
        let rest: u64 = elapsed % self.interval;
        TickPlan { skipped, sleep: self.interval - rest }
    }

    /// Ticks at `now`: returns how many intervals had gone by and how long to
    /// sleep, and moves the last tick to the moment the sleep ends.
    pub fn tick(&mut self, now: u64) -> (r: TickPlan)
        requires
            old(self).wf(),
            now as int + old(self).interval() <= u64::MAX,
        ensures
            final(self).wf(),
            final(self).interval() == old(self).interval(),
            (r.skipped as int, r.sleep as int) == old(self).plan_at(now as int),
            final(self).last() == now + r.sleep,
            now >= old(self).last() ==> final(self).last() == old(self).last()
                + (r.skipped + 1) * old(self).interval(),
            old(self).last() <= now < old(self).last() + old(self).interval() ==> r.skipped == 0
                && r.sleep == old(self).interval() - (now - old(self).last()),
    {
        let r = self.plan(now);
        proof {
            if now >= self.last_tick {
                let e = now - self.last_tick;
                let i = self.interval as int;
                assert(e == i * (e / i) + e % i) by (nonlinear_arith) requires i > 0;
                assert(r.skipped == e / i && r.sleep == i - e % i);
                assert((r.skipped + 1) * i == r.skipped * i + i) by (nonlinear_arith);
                assert(now + r.sleep == self.last_tick + (r.skipped + 1) * i) by (nonlinear_arith)
                    requires
                        now == self.last_tick + e,
                        e == i * (e / i) + e % i,
                        r.skipped == e / i,
                        r.sleep == i - e % i,
                        (r.skipped + 1) * i == r.skipped * i + i;
            }
        }
        proof {
            if self.last_tick <= now < self.last_tick + self.interval {
                lemma_early_tick(now - self.last_tick, self.interval as int);
            }
        }
        self.last_tick = now + r.sleep;
        r
    }

    /// Sets the last tick to `now`, the time read when a sleep ended.
    pub fn woke(&mut self, now: u64)
        requires
            old(self).wf(),
        ensures
            final(self).wf(),
            final(self).interval() == old(self).interval(),
            final(self).last() == now,
    {
        self.last_tick = now;
    }
}

/// Where the last tick lies after a run of ticks from `start`, each made
/// `elapsed[j]` after the previous one and followed by the sleep it asked for.
pub open spec fn ticks_after(start: int, interval: int, elapsed: Seq<int>) -> int
    decreases elapsed.len(),
{
    if elapsed.len() == 0 {
        start
    } else {
        let e = elapsed.last();
        ticks_after(start, interval, elapsed.drop_last()) + e + sleep_of(e, interval)
    }
}

/// Whole intervals that a run of ticks spans: each tick covers the intervals it
/// skipped and the one it sleeps into.
pub open spec fn intervals_after(interval: int, elapsed: Seq<int>) -> int
    decreases elapsed.len(),
{
    if elapsed.len() == 0 {
        0
    } else {
        intervals_after(interval, elapsed.drop_last()) + skipped_of(elapsed.last(), interval) + 1
    }
}

/// A tick made before a whole interval has gone by skips nothing and sleeps for
/// the rest of the interval.
pub proof fn lemma_early_tick(elapsed: int, interval: int)
    requires
        0 <= elapsed < interval,
    ensures
        skipped_of(elapsed, interval) == 0,
        sleep_of(elapsed, interval) == interval - elapsed,
{
    assert(elapsed / interval == 0) by (nonlinear_arith) requires 0 <= elapsed < interval;
    assert(elapsed % interval == elapsed) by (nonlinear_arith) requires 0 <= elapsed < interval;
}

/// A tick made `k` whole intervals and `rest` more after the last one reports
/// `k` skipped intervals, sleeps `interval - rest`, and so lands exactly `k + 1`
/// intervals after the last tick.
pub proof fn lemma_late_tick(k: int, rest: int, interval: int)
    requires
        k >= 1,
        0 <= rest < interval,
    ensures
        skipped_of(k * interval + rest, interval) == k,
        sleep_of(k * interval + rest, interval) == interval - rest,
        (k * interval + rest) + sleep_of(k * interval + rest, interval) == (k + 1) * interval,
{
    let e = k * interval + rest;
    assert(e / interval == k && e % interval == rest) by (nonlinear_arith)
        requires
            e == k * interval + rest,
            0 <= rest < interval,
    {
        vstd::arithmetic::div_mod::lemma_fundamental_div_mod_converse(e, interval, k, rest);
    }
    assert((k + 1) * interval == k * interval + interval) by (nonlinear_arith);
}

/// A tick of the clock `t` made before a whole interval has passed since its
/// last tick reports nothing skipped and sleeps for the rest of the interval.
pub proof fn lemma_clock_early_tick(t: FrameTicks, now: int)
    requires
        t.wf(),
        t.last() <= now < t.last() + t.interval(),
    ensures
        t.plan_at(now) == (0int, t.interval() - (now - t.last())),
{
    lemma_early_tick(now - t.last(), t.interval());
}

/// A tick of the clock `t` made `k >= 1` whole intervals and `rest` more after
/// its last tick reports exactly `k` skipped, sleeps `interval - rest`, and so
/// wakes exactly `k + 1` intervals after the last tick.
pub proof fn lemma_clock_late_tick(t: FrameTicks, now: int, k: int, rest: int)
    requires
        t.wf(),
        k >= 1,
        0 <= rest < t.interval(),
        now - t.last() == k * t.interval() + rest,
    ensures
        t.plan_at(now) == (k, t.interval() - rest),
        now + t.plan_at(now).1 == t.last() + (k + 1) * t.interval(),
{
    lemma_late_tick(k, rest, t.interval());
}

/// Gaps of `p` between `n` successive ticks.
pub open spec fn constant_gaps(n: nat, p: int) -> Seq<int> {
    Seq::new(n, |j: int| p)
}

/// At a constant production rate, each of `n` ticks made `p` after the
/// previous wake-up skips `p / interval` intervals, and after the `n`-th the
/// last tick lies exactly `n * (p / interval + 1)` intervals after the start.
pub proof fn lemma_constant_rate(start: int, interval: int, p: int, n: nat)
    requires
        interval > 0,
        p >= 0,
    ensures
        ticks_after(start, interval, constant_gaps(n, p)) == start + n * (p / interval + 1) * interval,
    decreases n,
{
    if n > 0 {
        let s = constant_gaps(n, p);
        assert(s.drop_last() =~= constant_gaps((n - 1) as nat, p));
        lemma_constant_rate(start, interval, p, (n - 1) as nat);
        let q = p / interval;
        let m = q + 1;
        let prev = ticks_after(start, interval, s.drop_last());
        assert(prev == start + (n - 1) * m * interval);
        assert(s.last() == p);
        assert(p == interval * q + p % interval) by (nonlinear_arith)
            requires interval > 0, q == p / interval;
        assert(ticks_after(start, interval, s) == prev + p + (interval - p % interval));
        assert(n * m * interval == (n - 1) * m * interval + m * interval) by (nonlinear_arith);
        assert(m * interval == interval * q + interval) by (nonlinear_arith) requires m == q + 1;
        assert(ticks_after(start, interval, s) == start + n * m * interval);
        assert(n * m * interval == n * (p / interval + 1) * interval);
    } else {
        assert(constant_gaps(n, p).len() == 0);
        assert(n * (p / interval + 1) * interval == 0) by (nonlinear_arith) requires n == 0;
    }
}

/// Ticks never drift: after any run of ticks, each followed by the sleep it
/// asked for, the last tick lies a whole number of intervals after the start,
/// namely the intervals that the ticks skipped plus one for each tick.
pub proof fn lemma_ticks_stay_on_grid(start: int, interval: int, elapsed: Seq<int>)
    requires
        interval > 0,
        forall|j: int| 0 <= j < elapsed.len() ==> elapsed[j] >= 0,
    ensures
        ticks_after(start, interval, elapsed) == start + interval * intervals_after(interval, elapsed),
        (ticks_after(start, interval, elapsed) - start) % interval == 0,
    decreases elapsed.len(),
{
    if elapsed.len() > 0 {
        let prefix = elapsed.drop_last();
        lemma_ticks_stay_on_grid(start, interval, prefix);
        let e = elapsed.last();
        let m = intervals_after(interval, prefix);
        assert(e == interval * (e / interval) + e % interval) by (nonlinear_arith)
            requires interval > 0;
        assert(interval * (m + e / interval + 1) == interval * m + interval * (e / interval) + interval)
            by (nonlinear_arith);
    }
    let m = intervals_after(interval, elapsed);
    vstd::arithmetic::div_mod::lemma_mod_multiples_basic(m, interval);
    assert(interval * m == m * interval) by (nonlinear_arith);
}

} // verus!
