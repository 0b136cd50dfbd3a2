//! Timers and stopwatches that count microseconds.

use vstd::prelude::*;

verus! {

/// What a timer does when it reaches its duration.
#[derive(Clone, Copy, PartialEq, Eq, Structural, Debug)]
pub enum TimerMode {
    /// It finishes once and then stays finished.
    Once,
    /// It finishes and starts over, carrying the excess time along.
    Repeating,
}

/// Counts time up to a duration.
///
/// On every timer that the game makes this timer counts as the timer of
/// the `bevy_time` crate does, in whole microseconds. The two differ in two
/// places: a repeating timer of duration zero finishes on every tick here,
/// where that one divides by zero, and this timer cannot be paused.
#[derive(Clone, Copy, PartialEq, Eq, Structural, Debug)]
pub struct Timer {
    /// The time from start to finish, in microseconds.
    pub duration: u64,
    /// The time counted since the start or the last finish.
    pub elapsed: u64,
    pub mode: TimerMode,
    /// Whether the timer has reached its duration. A repeating timer is
    /// finished only during the tick in which it got there.
    pub finished: bool,
    /// Whether the last tick brought the timer to its duration.
    pub finished_this_tick: bool,
}

impl Timer {
    /// A fresh timer.
    pub open spec fn started(duration: u64, mode: TimerMode) -> Timer {
        Timer { duration, elapsed: 0, mode, finished: false, finished_this_tick: false }
    }

    /// The timer after `delta` more microseconds.
    ///
    /// A repeating timer keeps the time beyond its duration, modulo the
    /// duration; with a duration of zero it finishes on every tick. A timer
    /// that runs once stops at its duration and ignores later ticks.
    pub open spec fn ticked(self, delta: u64) -> Timer {
        let total = self.elapsed + delta;
        match self.mode {
            TimerMode::Repeating => {
                if self.duration == 0 {
                    Timer { elapsed: 0, finished: true, finished_this_tick: true, ..self }
                } else if total >= self.duration {
                    Timer {
                        elapsed: (total % (self.duration as int)) as u64,
                        finished: true,
                        finished_this_tick: true,
                        ..self
                    }
                } else {
                    Timer {
                        elapsed: total as u64,
                        finished: false,
                        finished_this_tick: false,
                        ..self
                    }
                }
            },
            TimerMode::Once => {
                if self.finished {
                    Timer { finished_this_tick: false, ..self }
                } else if total >= self.duration {
                    Timer {
                        elapsed: self.duration,
                        finished: true,
                        finished_this_tick: true,
                        ..self
                    }
                } else {
                    Timer {
                        elapsed: total as u64,
                        finished: false,
                        finished_this_tick: false,
                        ..self
                    }
                }
            },
        }
    }

    /// Whether the elapsed share of the duration is below `num / den`.
    pub open spec fn fraction_below(self, num: u64, den: u64) -> bool {
        self.elapsed * den < self.duration * num
    }

    /// Whether the elapsed share of the duration is above `num / den`.
    pub open spec fn fraction_above(self, num: u64, den: u64) -> bool {
        self.elapsed * den > self.duration * num
    }

    /// Makes a fresh timer.
    pub fn new(duration: u64, mode: TimerMode) -> (r: Timer)
        ensures
            r == Timer::started(duration, mode),
    {
        Timer { duration, elapsed: 0, mode, finished: false, finished_this_tick: false }
    }

    /// Lets `delta` microseconds pass.
    pub fn tick(&mut self, delta: u64)
        ensures
            *final(self) == old(self).ticked(delta),
    {
        let total: u128 = self.elapsed as u128 + delta as u128;
        match self.mode {
            TimerMode::Repeating => {
                if self.duration == 0 {
                    self.elapsed = 0;
                    self.finished = true;
                    self.finished_this_tick = true;
                } else if total >= self.duration as u128 {
                    let rest: u128 = total % (self.duration as u128);
                    self.elapsed = rest as u64;
                    self.finished = true;
                    self.finished_this_tick = true;
                } else {
                    self.elapsed = total as u64;
                    self.finished = false;
                    self.finished_this_tick = false;
                }
            },
            TimerMode::Once => {
                if self.finished {
                    self.finished_this_tick = false;
                } else if total >= self.duration as u128 {
                    self.elapsed = self.duration;
                    self.finished = true;
                    self.finished_this_tick = true;
                } else {
                    self.elapsed = total as u64;
                    self.finished = false;
                    self.finished_this_tick = false;
                }
            },
        }
    }

    /// Sets the time counted so far and leaves the rest as it is.
    pub fn set_elapsed(&mut self, elapsed: u64)
        ensures
            *final(self) == (Timer { elapsed, ..*old(self) }),
    {
        self.elapsed = elapsed;
    }

    /// Whether the last tick brought the timer to its duration.
    pub fn just_finished(&self) -> (r: bool)
        ensures
            r == self.finished_this_tick,
    {
        self.finished_this_tick
    }

    /// Computes [`Timer::fraction_below`].
    pub fn is_fraction_below(&self, num: u64, den: u64) -> (r: bool)
        ensures
            r == self.fraction_below(num, den),
    {
        let left: u128 = wide_product(self.elapsed, den);
        let right: u128 = wide_product(self.duration, num);
        left < right
    }

    /// Computes [`Timer::fraction_above`].
    pub fn is_fraction_above(&self, num: u64, den: u64) -> (r: bool)
        ensures
            r == self.fraction_above(num, den),
    {
        let left: u128 = wide_product(self.elapsed, den);
        let right: u128 = wide_product(self.duration, num);
        left > right
    }
}

/// The product of two `u64` values, which always fits in a `u128`.
fn wide_product(a: u64, b: u64) -> (r: u128)
    ensures
        r == a * b,
{
    assert(a as int * b as int <= 0xffff_ffff_ffff_ffffint * 0xffff_ffff_ffff_ffffint)
        by (nonlinear_arith)
        requires
            0 <= a <= 0xffff_ffff_ffff_ffffint,
            0 <= b <= 0xffff_ffff_ffff_ffffint,
    ;
    (a as u128) * (b as u128)
}

/// Counts time up without end.
///
/// It counts as the stopwatch of the `bevy_time` crate does, in whole
/// microseconds, but for two things: it stops at the top of its range,
/// where that one fails, and it cannot be paused.
#[derive(Clone, Copy, PartialEq, Eq, Structural, Debug)]
pub struct Stopwatch {
    /// The time counted so far, in microseconds; it stops at the top of its range.
    pub elapsed: u64,
}

impl Stopwatch {
    /// The stopwatch after `delta` more microseconds.
    pub open spec fn ticked(self, delta: u64) -> Stopwatch {
        Stopwatch {
            elapsed: if self.elapsed + delta > u64::MAX {
                u64::MAX
            } else {
                (self.elapsed + delta) as u64
            },
        }
    }

    /// A stopwatch at zero.
    pub fn new() -> (r: Stopwatch)
        ensures
            r == (Stopwatch { elapsed: 0 }),
    {
        Stopwatch { elapsed: 0 }
    }

    /// Lets `delta` microseconds pass.
    pub fn tick(&mut self, delta: u64)
        ensures
            *final(self) == old(self).ticked(delta),
    {
        self.elapsed = match self.elapsed.checked_add(delta) {
            Some(sum) => sum,
            None => u64::MAX,
        };
    }
}

/// The sum of a sequence of time steps.
pub open spec fn total_time(steps: Seq<u64>) -> nat
    decreases steps.len(),
{
    if steps.len() == 0 {
        0
    } else {
        total_time(steps.drop_last()) + steps.last() as nat
    }
}

/// The timer after the ticks `steps`, one after the other.
pub open spec fn ticked_through(timer: Timer, steps: Seq<u64>) -> Timer
    decreases steps.len(),
{
    if steps.len() == 0 {
        timer
    } else {
        ticked_through(timer, steps.drop_last()).ticked(steps.last())
    }
}

/// A repeating timer that starts below its duration shows, after any ticks,
/// the total time since its start modulo its duration: it loses no time at
/// a finish, however the time is cut into ticks.
pub proof fn lemma_repeating_timer_keeps_time(timer: Timer, steps: Seq<u64>)
    requires
        timer.mode == TimerMode::Repeating,
        timer.duration > 0,
        timer.elapsed < timer.duration,
    ensures
        ticked_through(timer, steps).elapsed == (timer.elapsed + total_time(steps)) % (
        timer.duration as int),
        ticked_through(timer, steps).duration == timer.duration,
        ticked_through(timer, steps).mode == timer.mode,
    decreases steps.len(),
{
    let d = timer.duration as int;
    if steps.len() == 0 {
        vstd::arithmetic::div_mod::lemma_small_mod(timer.elapsed as nat, d as nat);
    } else {
        lemma_repeating_timer_keeps_time(timer, steps.drop_last());
        let before = ticked_through(timer, steps.drop_last());
        let sum = timer.elapsed + total_time(steps.drop_last());
        let delta = steps.last() as int;
        vstd::arithmetic::div_mod::lemma_mod_bound(sum, d);
        vstd::arithmetic::div_mod::lemma_add_mod_noop(sum, delta, d);
        vstd::arithmetic::div_mod::lemma_mod_twice(sum, d);
        vstd::arithmetic::div_mod::lemma_add_mod_noop(sum % d, delta, d);
        assert((before.elapsed + delta) % d == (sum + delta) % d);
        if before.elapsed + delta < d {
            vstd::arithmetic::div_mod::lemma_small_mod((before.elapsed + delta) as nat, d as nat);
        }
    }
}

/// A timer that runs once and starts below its duration finishes exactly
/// when the time since its start reaches its duration, however the time is
/// cut into ticks, and then stays finished at its duration.
pub proof fn lemma_once_timer_finishes_in_time(timer: Timer, steps: Seq<u64>)
    requires
        timer.mode == TimerMode::Once,
        !timer.finished,
        timer.elapsed < timer.duration,
    ensures
        ticked_through(timer, steps).finished <==> timer.elapsed + total_time(steps)
            >= timer.duration,
        ticked_through(timer, steps).finished ==> ticked_through(timer, steps).elapsed
            == timer.duration,
        !ticked_through(timer, steps).finished ==> ticked_through(timer, steps).elapsed
            == timer.elapsed + total_time(steps),
        ticked_through(timer, steps).duration == timer.duration,
        ticked_through(timer, steps).mode == timer.mode,
    decreases steps.len(),
{
    if steps.len() > 0 {
        lemma_once_timer_finishes_in_time(timer, steps.drop_last());
    }
}

} // verus!
