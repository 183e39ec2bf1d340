//! A timer that counts elapsed time against a fixed duration.

use vstd::prelude::*;
use crate::progress::{Progress, Ratio};

verus! {

/// Number of times a period of `duration` fits into `total`, capped at
/// `u32::MAX`. A period of zero is crossed without bound.
pub open spec fn crossings(total: nat, duration: nat) -> nat {
    if duration == 0 || total / duration > u32::MAX {
        u32::MAX as nat
    } else {
        total / duration
    }
}

/// The mathematical state of a [`Timer`].
pub ghost struct TimerView {
    /// Length of one period.
    pub duration: nat,
    /// Time counted in the current period.
    pub elapsed: nat,
    /// Whether the timer starts over when a period ends.
    pub repeating: bool,
    /// Whether the last step reached the end of a period.
    pub finished: bool,
    /// Number of period ends that the last step crossed.
    pub times_finished: nat,
}

impl TimerView {
    /// A timer that has not counted anything yet.
    pub open spec fn fresh(duration: nat, repeating: bool) -> TimerView {
        TimerView { duration, elapsed: 0, repeating, finished: false, times_finished: 0 }
    }

    /// The states that a timer can be in.
    pub open spec fn wf(self) -> bool {
        &&& self.duration <= u64::MAX
        &&& self.times_finished <= u32::MAX
        &&& self.times_finished > 0 ==> self.finished
        &&& if self.repeating {
            &&& self.finished ==> self.times_finished > 0
            &&& if self.duration == 0 {
                self.elapsed == 0
            } else {
                self.elapsed < self.duration
            }
        } else {
            &&& self.times_finished <= 1
            &&& self.elapsed <= self.duration
            &&& self.finished ==> self.elapsed == self.duration
        }
    }

    /// The state in which a total of `total` has been counted from the start
    /// of a period.
    pub open spec fn settle(self, total: nat) -> TimerView {
        if total >= self.duration {
            if self.repeating {
                TimerView {
                    elapsed: if self.duration == 0 {
                        0
                    } else {
                        total % self.duration
                    },
                    finished: true,
                    times_finished: crossings(total, self.duration),
                    ..self
                }
            } else {
                TimerView { elapsed: self.duration, finished: true, times_finished: 1, ..self }
            }
        } else {
            TimerView { elapsed: total, finished: false, times_finished: 0, ..self }
        }
    }

    /// The state after a step of `delta`. A timer that does not repeat and
    /// has finished stays where it is.
    pub open spec fn tick(self, delta: nat) -> TimerView {
        if !self.repeating && self.finished {
            TimerView { times_finished: 0, ..self }
        } else {
            self.settle(self.elapsed + delta)
        }
    }

    /// The state of a timer that was started anew and stepped once by
    /// `position`.
    pub open spec fn seek(self, position: nat) -> TimerView {
        self.settle(position)
    }

    /// The state at the start, with nothing counted.
    pub open spec fn reset(self) -> TimerView {
        TimerView { elapsed: 0, finished: false, times_finished: 0, ..self }
    }

    /// Whether the last step crossed the end of a period.
    pub open spec fn just_finished(self) -> bool {
        self.times_finished > 0
    }

    /// The elapsed part of the period, at most one. A period of zero counts as
    /// fully elapsed.
    pub open spec fn percent(self) -> Ratio {
        if self.duration == 0 {
            Ratio::one()
        } else if self.elapsed >= self.duration {
            Ratio { num: self.duration, den: self.duration }
        } else {
            Ratio { num: self.elapsed, den: self.duration }
        }
    }

    /// The part of the period that is left: one minus [`TimerView::percent`].
    pub open spec fn percent_left(self) -> Ratio {
        if self.duration == 0 {
            Ratio::zero()
        } else if self.elapsed >= self.duration {
            Ratio { num: 0, den: self.duration }
        } else {
            Ratio { num: (self.duration - self.elapsed) as nat, den: self.duration }
        }
    }
}

/// Counts elapsed time against a duration, once or over and over.
#[derive(Clone, Copy, Debug)]
pub struct Timer {
    duration: u64,
    elapsed: u64,
    repeating: bool,
    finished: bool,
    times_finished: u32,
}

impl View for Timer {
    type V = TimerView;

    closed spec fn view(&self) -> TimerView {
        TimerView {
            duration: self.duration as nat,
            elapsed: self.elapsed as nat,
            repeating: self.repeating,
            finished: self.finished,
            times_finished: self.times_finished as nat,
        }
    }
}

impl Timer {
    /// A timer of the given duration that has not counted anything yet.
    pub fn new(duration: u64, repeating: bool) -> (t: Timer)
        ensures
            t@ == TimerView::fresh(duration as nat, repeating),
    {
        Timer { duration, elapsed: 0, repeating, finished: false, times_finished: 0 }
    }

    /// Length of one period.
    pub fn duration(&self) -> (d: u64)
        ensures
            d == self@.duration,
    {
        self.duration
    }

    /// Time counted in the current period.
    pub fn elapsed(&self) -> (e: u64)
        ensures
            e == self@.elapsed,
    {
        self.elapsed
    }

    /// Whether the timer starts over when a period ends.
    pub fn repeating(&self) -> (r: bool)
        ensures
            r == self@.repeating,
    {
        self.repeating
    }

    /// Whether the last step reached the end of a period.
    pub fn finished(&self) -> (f: bool)
        ensures
            f == self@.finished,
    {
        self.finished
    }

    /// Whether the last step crossed the end of a period.
    pub fn just_finished(&self) -> (j: bool)
        ensures
            j == self@.just_finished(),
    {
        self.times_finished > 0
    }

    /// Number of period ends that the last step crossed.
    pub fn times_finished_this_tick(&self) -> (n: u32)
        ensures
            n == self@.times_finished,
    {
        self.times_finished
    }

    /// The elapsed part of the period.
    pub fn percent(&self) -> (p: Progress)
        ensures
            p@ == self@.percent(),
            p@.valid(),
    {
        if self.duration == 0 {
            Progress::one()
        } else if self.elapsed >= self.duration {
            Progress::new(self.duration, self.duration)
        } else {
            Progress::new(self.elapsed, self.duration)
        }
    }

    /// The part of the period that is left.
    pub fn percent_left(&self) -> (p: Progress)
        ensures
            p@ == self@.percent_left(),
            p@.valid(),
    {
        if self.duration == 0 {
            Progress::zero()
        } else if self.elapsed >= self.duration {
            Progress::new(0, self.duration)
        } else {
            Progress::new(self.duration - self.elapsed, self.duration)
        }
    }

    /// Puts the timer where a total of `total` has been counted from the
    /// start of a period.
    fn settle(&mut self, total: u128)
        ensures
            final(self)@ == old(self)@.settle(total as nat),
    {
        let d: u128 = self.duration as u128;
        if total >= d {
            self.finished = true;
            if self.repeating {
                if self.duration == 0 {
                    self.elapsed = 0;
                    self.times_finished = u32::MAX;
                } else {
                    let q: u128 = total / d;
                    let r: u128 = total % d;
                    self.elapsed = r as u64;
                    self.times_finished = if q > u32::MAX as u128 {
                        u32::MAX
                    } else {
                        q as u32
                    };
                }
            } else {
                self.elapsed = self.duration;
                self.times_finished = 1;
            }
        } else {
            self.elapsed = total as u64;
            self.finished = false;
            self.times_finished = 0;
        }
    }

    /// Advances the timer by `delta`.
    ///
    /// A repeating timer starts over at each end of a period and counts how
    /// many ends the step crossed. A timer that does not repeat stops at its
    /// duration; once finished it no longer moves.
    pub fn tick(&mut self, delta: u64)
        ensures
            final(self)@ == old(self)@.tick(delta as nat),
    {
        if !self.repeating && self.finished {
            self.times_finished = 0;
        } else {
            let total: u128 = self.elapsed as u128 + delta as u128;
            self.settle(total);
        }
    }

    /// Puts the timer in the state that a timer started anew reaches after
    /// one step of `position`.
    pub fn seek(&mut self, position: u128)
        ensures
            final(self)@ == old(self)@.seek(position as nat),
    {
        self.settle(position);
    }

    /// Puts the timer back to its start.
    pub fn reset(&mut self)
        ensures
            final(self)@ == old(self)@.reset(),
    {
        self.elapsed = 0;
        self.finished = false;
        self.times_finished = 0;
    }
}

/// Every step leaves a well-formed timer well-formed.
pub proof fn lemma_timer_wf(t: TimerView, n: nat)
    requires
        t.wf(),
    ensures
        t.tick(n).wf(),
        t.seek(n).wf(),
        t.reset().wf(),
        TimerView::fresh(t.duration, t.repeating).wf(),
{
    if t.duration > 0 {
        assert(n % t.duration < t.duration) by (nonlinear_arith)
            requires
                t.duration > 0,
        ;
        assert((t.elapsed + n) % t.duration < t.duration) by (nonlinear_arith)
            requires
                t.duration > 0,
        ;
        assert(n >= t.duration ==> n / t.duration > 0) by (nonlinear_arith)
            requires
                t.duration > 0,
        ;
        assert(t.elapsed + n >= t.duration ==> (t.elapsed + n) / t.duration > 0)
            by (nonlinear_arith)
            requires
                t.duration > 0,
        ;
    }
}

} // verus!
