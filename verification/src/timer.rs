//! Frame-stepped timers: an elapsed accumulator against a threshold, with
//! "just completed this tick" as a derived result. Cooldowns and lifetimes
//! are repeating and one-shot instances of the same type.

use vstd::prelude::*;

use crate::math::DT_MAX;

verus! {

/// Longest duration a timer may be created with, in milliseconds.
pub const TIMER_MAX_MS: u64 = 3600000000;

/// An elapsed-time accumulator. A repeating timer wraps around its duration
/// each time it completes; a one-shot timer saturates at its duration.
#[derive(Clone, Copy, PartialEq, Eq, Structural, Debug)]
pub struct Timer {
    pub elapsed_ms: u64,
    pub duration_ms: u64,
    pub repeating: bool,
}

impl Timer {
    pub open spec fn wf(self) -> bool {
        &&& 1 <= self.duration_ms <= TIMER_MAX_MS
        &&& if self.repeating {
            self.elapsed_ms < self.duration_ms
        } else {
            self.elapsed_ms <= self.duration_ms
        }
    }

    /// Whether a tick of `dt` milliseconds completes the timer.
    pub open spec fn completes(self, dt: u64) -> bool {
        self.elapsed_ms < self.duration_ms && self.elapsed_ms + dt >= self.duration_ms
    }

    /// The elapsed accumulator after a tick of `dt` milliseconds.
    pub open spec fn elapsed_after(self, dt: u64) -> int {
        if self.elapsed_ms + dt < self.duration_ms {
            self.elapsed_ms + dt
        } else if self.repeating {
            (self.elapsed_ms + dt) % (self.duration_ms as int)
        } else {
            self.duration_ms as int
        }
    }

    pub fn new(duration_ms: u64, repeating: bool) -> (t: Timer)
        requires
            1 <= duration_ms <= TIMER_MAX_MS,
        ensures
            t == (Timer { elapsed_ms: 0, duration_ms, repeating }),
            t.wf(),
    {
        Timer { elapsed_ms: 0, duration_ms, repeating }
    }

    /// Advances the accumulator and reports whether the timer completed on
    /// this tick. A saturated one-shot timer never completes again; a
    /// repeating timer keeps only the remainder past its duration.
    pub fn tick(&mut self, dt: u64) -> (just_finished: bool)
        requires
            old(self).wf(),
            dt <= DT_MAX,
        ensures
            final(self).wf(),
            final(self).duration_ms == old(self).duration_ms,
            final(self).repeating == old(self).repeating,
            just_finished == old(self).completes(dt),
            final(self).elapsed_ms == old(self).elapsed_after(dt),
    {
        let total: u64 = self.elapsed_ms + dt;
        if total < self.duration_ms {
            self.elapsed_ms = total;
            false
        } else {
            let was_running: bool = self.elapsed_ms < self.duration_ms;
            if self.repeating {
                self.elapsed_ms = total % self.duration_ms;
            } else {
                self.elapsed_ms = self.duration_ms;
            }
            was_running
        }
    }

    /// Whether the timer has reached its duration (one-shot timers only;
    /// a well-formed repeating timer never rests there).
    pub fn is_finished(&self) -> (r: bool)
        ensures
            r == (self.elapsed_ms >= self.duration_ms),
    {
        self.elapsed_ms >= self.duration_ms
    }

    /// Milliseconds left until the timer completes.
    pub fn remaining_ms(&self) -> (r: u64)
        requires
            self.wf(),
        ensures
            r == self.duration_ms - self.elapsed_ms,
    {
        self.duration_ms - self.elapsed_ms
    }

    /// Starts the timer over.
    pub fn reset(&mut self)
        ensures
            final(self).elapsed_ms == 0,
            final(self).duration_ms == old(self).duration_ms,
            final(self).repeating == old(self).repeating,
            old(self).wf() ==> final(self).wf(),
    {
        self.elapsed_ms = 0;
    }
}

} // verus!
