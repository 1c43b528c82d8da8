//! Countdown timers advanced by elapsed time handed in from outside.

use vstd::prelude::*;

verus! {

/// What a timer does once its duration has passed.
#[derive(Clone, Copy, Debug, PartialEq, Eq, Structural)]
pub enum TimerMode {
    /// Finishes once and stays finished.
    Once,
    /// Finishes, keeps the overshoot and starts over.
    Repeating,
}

/// A countdown in microseconds.
#[derive(Clone, Copy, Debug, PartialEq, Eq, Structural)]
pub struct Timer {
    /// Time counted since the timer last started over.
    pub elapsed: u64,
    /// Time after which the timer finishes.
    pub duration: u64,
    pub mode: TimerMode,
    /// Whether the last tick reached the duration.
    pub finished: bool,
}

impl Timer {
    /// The timer after `delta` more microseconds.
    ///
    /// A finished one-shot timer stays as it is. Otherwise the time is added;
    /// the timer is finished exactly if the sum has reached the duration. A
    /// repeating timer keeps what is left of the sum after whole durations,
    /// a one-shot timer stops at its duration.
    pub open spec fn ticked(self, delta: u64) -> Timer {
        let total = self.elapsed + delta;
        if self.mode == TimerMode::Once && self.finished {
            self
        } else if total >= self.duration {
            Timer {
                elapsed: if self.mode == TimerMode::Once {
                    self.duration
                } else if self.duration == 0 {
                    0
                } else {
                    (total % (self.duration as int)) as u64
                },
                duration: self.duration,
                mode: self.mode,
                finished: true,
            }
        } else {
            Timer {
                elapsed: total as u64,
                duration: self.duration,
                mode: self.mode,
                finished: false,
            }
        }
    }

    /// A fresh timer. A timer of no duration is a mistake of the caller.
    pub fn new(duration: u64, mode: TimerMode) -> (t: Timer)
        requires
            duration > 0,
        ensures
            t == (Timer { elapsed: 0, duration, mode, finished: false }),
    {
        Timer { elapsed: 0, duration, mode, finished: false }
    }

    /// Advances the timer by `delta` microseconds.
    pub fn tick(&mut self, delta: u64)
        ensures
            *final(self) == old(self).ticked(delta),
    {
        if self.mode == TimerMode::Once && self.finished {
            return ;
        }
        let total: u128 = self.elapsed as u128 + delta as u128;
        if total >= self.duration as u128 {
            self.finished = true;
            if self.mode == TimerMode::Once {
                self.elapsed = self.duration;
            } else if self.duration == 0 {
                self.elapsed = 0;
            } else {
                self.elapsed = (total % (self.duration as u128)) as u64;
            }
        } else {
            self.finished = false;
            self.elapsed = total as u64;
        }
    }

    /// Whether the last tick reached the duration.
    pub fn finished(&self) -> (b: bool)
        ensures
            b == self.finished,
    {
        self.finished
    }

    /// Replaces the duration and leaves the time counted so far.
    pub fn set_duration(&mut self, duration: u64)
        requires
            duration > 0,
        ensures
            *final(self) == (Timer { duration, ..*old(self) }),
    {
        self.duration = duration;
    }
}

/// A repeating timer with a positive duration never holds a whole duration
/// after a tick.
pub proof fn lemma_repeating_stays_below_duration(t: Timer, delta: u64)
    requires
        t.mode == TimerMode::Repeating,
        t.duration > 0,
    ensures
        t.ticked(delta).elapsed < t.duration,
        t.ticked(delta).finished == (t.elapsed + delta >= t.duration),
{
}

} // verus!
