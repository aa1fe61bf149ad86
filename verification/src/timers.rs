//! Cooldown timers, advanced by an explicit elapsed-time parameter passed
//! into each tick: a one-shot timer that gates the player's attack, and a
//! repeating timer that paces an agent's attacks.  All durations are in
//! whole milliseconds; there is no hidden global clock.

use vstd::prelude::*;

verus! {

/// Largest time delta, in milliseconds, that a single tick may carry.
pub const DT_LIMIT: u64 = 1_000_000;

/// Largest duration or interval, in milliseconds, a timer may be built with.
pub const DURATION_LIMIT: u64 = 1_000_000_000;

/// A one-shot timer: it accumulates elapsed time up to its duration and
/// then stays finished until explicitly reset.
#[derive(Clone, Copy, PartialEq, Eq, Structural, Debug)]
pub struct OnceTimer {
    pub duration_ms: u64,
    pub elapsed_ms: u64,
}

/// The mathematical model of a `OnceTimer`.
pub struct OnceTimerModel {
    pub duration: int,
    pub elapsed: int,
}

impl View for OnceTimer {
    type V = OnceTimerModel;

    open spec fn view(&self) -> OnceTimerModel {
        OnceTimerModel { duration: self.duration_ms as int, elapsed: self.elapsed_ms as int }
    }
}

impl OnceTimerModel {
    /// Within bounds, with the elapsed count capped at the duration.
    pub open spec fn wf(self) -> bool {
        &&& 0 < self.duration <= DURATION_LIMIT
        &&& 0 <= self.elapsed <= self.duration
    }

    /// A one-shot timer is finished once its whole duration has elapsed.
    pub open spec fn is_finished(self) -> bool {
        self.elapsed >= self.duration
    }

    /// The timer after `dt` more milliseconds: elapsed time accumulates
    /// and is capped at the duration.
    pub open spec fn ticked(self, dt: int) -> OnceTimerModel {
        OnceTimerModel {
            duration: self.duration,
            elapsed: if self.elapsed + dt >= self.duration {
                self.duration
            } else {
                self.elapsed + dt
            },
        }
    }

    /// The timer with its elapsed count wound back to zero.
    pub open spec fn reset(self) -> OnceTimerModel {
        OnceTimerModel { duration: self.duration, elapsed: 0 }
    }
}

impl OnceTimer {
    /// A fresh one-shot timer of the given duration with no time elapsed:
    /// the whole duration must accumulate before it first finishes.
    pub fn new(duration_ms: u64) -> (t: OnceTimer)
        requires
            0 < duration_ms <= DURATION_LIMIT,
        ensures
            t@.wf(),
            t@.duration == duration_ms,
            t@.elapsed == 0,
    {
        OnceTimer { duration_ms, elapsed_ms: 0 }
    }

    /// Advance the timer by `dt` milliseconds.
    pub fn tick(&mut self, dt: u64)
        requires
            old(self)@.wf(),
            dt <= DT_LIMIT,
        ensures
            final(self)@ == old(self)@.ticked(dt as int),
            final(self)@.wf(),
    {
        if dt >= self.duration_ms - self.elapsed_ms {
            self.elapsed_ms = self.duration_ms;
        } else {
            self.elapsed_ms = self.elapsed_ms + dt;
        }
    }

    /// Whether the whole duration has elapsed since the last reset.
    pub fn finished(&self) -> (r: bool)
        ensures
            r == self@.is_finished(),
    {
        self.elapsed_ms >= self.duration_ms
    }

    /// Wind the elapsed count back to zero.
    pub fn reset(&mut self)
        ensures
            final(self)@ == old(self)@.reset(),
    {
        self.elapsed_ms = 0;
    }
}

/// A repeating timer: it accumulates elapsed time and fires each time it
/// crosses its interval, carrying the remainder into the next period.
#[derive(Clone, Copy, PartialEq, Eq, Structural, Debug)]
pub struct RepeatTimer {
    pub interval_ms: u64,
    pub elapsed_ms: u64,
}

/// The mathematical model of a `RepeatTimer`.
pub struct RepeatTimerModel {
    pub interval: int,
    pub elapsed: int,
}

impl View for RepeatTimer {
    type V = RepeatTimerModel;

    open spec fn view(&self) -> RepeatTimerModel {
        RepeatTimerModel { interval: self.interval_ms as int, elapsed: self.elapsed_ms as int }
    }
}

impl RepeatTimerModel {
    /// Within bounds, with the elapsed count strictly inside the current
    /// period.
    pub open spec fn wf(self) -> bool {
        &&& 0 < self.interval <= DURATION_LIMIT
        &&& 0 <= self.elapsed < self.interval
    }

    /// The timer after `dt` more milliseconds: what is left after taking
    /// out the periods completed this tick.
    pub open spec fn ticked(self, dt: int) -> RepeatTimerModel {
        RepeatTimerModel { interval: self.interval, elapsed: (self.elapsed + dt) % self.interval }
    }

    /// Whether the tick that added `dt` crossed the interval boundary at
    /// least once.
    pub open spec fn fires(self, dt: int) -> bool {
        self.elapsed + dt >= self.interval
    }
}

impl RepeatTimer {
    /// A fresh repeating timer at the start of its first period.
    pub fn new(interval_ms: u64) -> (t: RepeatTimer)
        requires
            0 < interval_ms <= DURATION_LIMIT,
        ensures
            t@.wf(),
            t@.interval == interval_ms,
            t@.elapsed == 0,
    {
        RepeatTimer { interval_ms, elapsed_ms: 0 }
    }

    /// Advance the timer by `dt` milliseconds; the result says whether the
    /// interval boundary was crossed during this tick.  Only that instant
    /// counts as a firing: a caller that ticks every frame sees `true` once
    /// per interval, not once per frame.
    pub fn tick(&mut self, dt: u64) -> (fired: bool)
        requires
            old(self)@.wf(),
            dt <= DT_LIMIT,
        ensures
            final(self)@ == old(self)@.ticked(dt as int),
            fired == old(self)@.fires(dt as int),
            final(self)@.wf(),
    {
        let sum: u64 = self.elapsed_ms + dt;
        if sum >= self.interval_ms {
            self.elapsed_ms = sum % self.interval_ms;
            true
        } else {
            proof {
                vstd::arithmetic::div_mod::lemma_small_mod(sum as nat, self.interval_ms as nat);
            }
            self.elapsed_ms = sum;
            false
        }
    }
}

/// The total simulated time of a run of tick lengths.
pub open spec fn seq_sum(dts: Seq<int>) -> int
    decreases dts.len(),
{
    if dts.len() == 0 {
        0
    } else {
        seq_sum(dts.drop_last()) + dts.last()
    }
}

/// A run of nonnegative tick lengths has a nonnegative total.
pub proof fn lemma_seq_sum_nonneg(dts: Seq<int>)
    requires
        forall|i: int| 0 <= i < dts.len() ==> 0 <= #[trigger] dts[i],
    ensures
        0 <= seq_sum(dts),
    decreases dts.len(),
{
    if dts.len() > 0 {
        assert(forall|i: int|
            0 <= i < dts.drop_last().len() ==> 0 <= #[trigger] dts.drop_last()[i]);
        lemma_seq_sum_nonneg(dts.drop_last());
    }
}

/// One more tick extends the total of a prefix by that tick's length.
pub proof fn lemma_seq_sum_take_step(dts: Seq<int>, k: int)
    requires
        0 <= k < dts.len(),
    ensures
        seq_sum(dts.take(k + 1)) == seq_sum(dts.take(k)) + dts[k],
{
    assert(dts.take(k + 1).drop_last() =~= dts.take(k));
    assert(dts.take(k + 1).last() == dts[k]);
}

/// With nonnegative tick lengths, a prefix's total never exceeds the
/// whole run's total.
pub proof fn lemma_seq_sum_take_le(dts: Seq<int>, k: int)
    requires
        forall|i: int| 0 <= i < dts.len() ==> 0 <= #[trigger] dts[i],
        0 <= k <= dts.len(),
    ensures
        seq_sum(dts.take(k)) <= seq_sum(dts),
    decreases dts.len() - k,
{
    if k == dts.len() {
        assert(dts.take(k) =~= dts);
    } else {
        lemma_seq_sum_take_step(dts, k);
        lemma_seq_sum_take_le(dts, k + 1);
    }
}

/// A one-shot timer after a run of ticks, none of which resets it.
pub open spec fn once_run(t: OnceTimerModel, dts: Seq<int>) -> OnceTimerModel
    decreases dts.len(),
{
    if dts.len() == 0 {
        t
    } else {
        once_run(t, dts.drop_last()).ticked(dts.last())
    }
}

/// Over any run of ticks a one-shot timer accumulates exactly the run's
/// total time, capped at its duration.  In particular it is finished
/// only once the accumulated time reaches the duration.
pub proof fn lemma_once_run_elapsed(t: OnceTimerModel, dts: Seq<int>)
    requires
        t.wf(),
        forall|i: int| 0 <= i < dts.len() ==> 0 <= #[trigger] dts[i],
    ensures
        once_run(t, dts).duration == t.duration,
        once_run(t, dts).elapsed == if t.elapsed + seq_sum(dts) >= t.duration {
            t.duration
        } else {
            t.elapsed + seq_sum(dts)
        },
    decreases dts.len(),
{
    if dts.len() > 0 {
        assert(forall|i: int|
            0 <= i < dts.drop_last().len() ==> 0 <= #[trigger] dts.drop_last()[i]);
        lemma_once_run_elapsed(t, dts.drop_last());
        lemma_seq_sum_nonneg(dts.drop_last());
    }
}

/// A repeating timer after a run of ticks.
pub open spec fn repeat_run(t: RepeatTimerModel, dts: Seq<int>) -> RepeatTimerModel
    decreases dts.len(),
{
    if dts.len() == 0 {
        t
    } else {
        repeat_run(t, dts.drop_last()).ticked(dts.last())
    }
}

/// How many times a repeating timer crosses its interval boundary over a
/// run of ticks.
pub open spec fn fire_count(t: RepeatTimerModel, dts: Seq<int>) -> int
    decreases dts.len(),
{
    if dts.len() == 0 {
        0
    } else {
        fire_count(t, dts.drop_last()) + if repeat_run(t, dts.drop_last()).fires(dts.last()) {
            1int
        } else {
            0int
        }
    }
}

/// The repeating-timer law: over any run of ticks, each no longer than
/// the interval, the timer fires exactly once per completed interval of
/// accumulated time — no more, however many ticks the run has — and
/// carries the remainder into the next period.
pub proof fn lemma_repeat_run_fires(t: RepeatTimerModel, dts: Seq<int>)
    requires
        t.wf(),
        forall|i: int| 0 <= i < dts.len() ==> 0 <= #[trigger] dts[i] <= t.interval,
    ensures
        repeat_run(t, dts).interval == t.interval,
        repeat_run(t, dts).elapsed == (t.elapsed + seq_sum(dts)) % t.interval,
        fire_count(t, dts) == (t.elapsed + seq_sum(dts)) / t.interval,
    decreases dts.len(),
{
    let ii = t.interval;
    if dts.len() == 0 {
        vstd::arithmetic::div_mod::lemma_fundamental_div_mod_converse(
            t.elapsed,
            ii,
            0,
            t.elapsed,
        );
    } else {
        assert(forall|i: int|
            0 <= i < dts.drop_last().len() ==> 0 <= #[trigger] dts.drop_last()[i] <= ii);
        lemma_repeat_run_fires(t, dts.drop_last());
        lemma_seq_sum_nonneg(dts.drop_last());
        let s = t.elapsed + seq_sum(dts.drop_last());
        let dt = dts.last();
        let q = s / ii;
        let r = s % ii;
        vstd::arithmetic::div_mod::lemma_fundamental_div_mod(s, ii);
        vstd::arithmetic::div_mod::lemma_mod_pos_bound(s, ii);
        if r + dt >= ii {
            assert(s + dt == (q + 1) * ii + (r + dt - ii)) by (nonlinear_arith)
                requires
                    s == ii * q + r,
            ;
            vstd::arithmetic::div_mod::lemma_fundamental_div_mod_converse(
                s + dt,
                ii,
                q + 1,
                r + dt - ii,
            );
            vstd::arithmetic::div_mod::lemma_fundamental_div_mod_converse(
                r + dt,
                ii,
                1,
                r + dt - ii,
            );
        } else {
            assert(s + dt == q * ii + (r + dt)) by (nonlinear_arith)
                requires
                    s == ii * q + r,
            ;
            vstd::arithmetic::div_mod::lemma_fundamental_div_mod_converse(s + dt, ii, q, r + dt);
            vstd::arithmetic::div_mod::lemma_fundamental_div_mod_converse(r + dt, ii, 0, r + dt);
        }
    }
}

} // verus!
