//! Countdown timers as explicit values: a duration, the time accumulated
//! into the current cycle, and whether the timer finished during the most
//! recent tick. Transitions are plain functions of (state, elapsed delta).

use vstd::prelude::*;

verus! {

/// Durations and per-frame deltas stay below this bound (one day in
/// milliseconds), which keeps every timer sum inside `u64`.
pub const TIME_LIMIT_MS: u64 = 86_400_000;

#[derive(Clone, Copy, PartialEq, Eq, Structural, Debug)]
pub struct Timer {
    pub duration_ms: u64,
    pub elapsed_ms: u64,
    pub repeating: bool,
    pub just_finished: bool,
}

impl Timer {
    pub open spec fn wf(self) -> bool {
        self.duration_ms <= TIME_LIMIT_MS && self.elapsed_ms <= TIME_LIMIT_MS
    }

    /// A once-timer is finished when its cycle has been used up; a repeating
    /// timer reports the tick on which it wrapped.
    pub open spec fn finished(self) -> bool {
        if self.repeating {
            self.just_finished
        } else {
            self.elapsed_ms >= self.duration_ms
        }
    }

    /// The state after advancing the timer by `delta` milliseconds.
    pub open spec fn tick_spec(self, delta: u64) -> Timer {
        if self.repeating {
            if self.duration_ms == 0 {
                Timer { elapsed_ms: 0, just_finished: true, ..self }
            } else {
                Timer {
                    elapsed_ms: ((self.elapsed_ms + delta) % (self.duration_ms as int)) as u64,
                    just_finished: self.elapsed_ms + delta >= self.duration_ms,
                    ..self
                }
            }
        } else {
            Timer {
                elapsed_ms: if self.elapsed_ms + delta >= self.duration_ms {
                    self.duration_ms
                } else {
                    (self.elapsed_ms + delta) as u64
                },
                just_finished: self.elapsed_ms < self.duration_ms
                    && self.elapsed_ms + delta >= self.duration_ms,
                ..self
            }
        }
    }

    /// The state after a new duration is installed and the cycle restarted.
    pub open spec fn restarted_spec(self, duration_ms: u64) -> Timer {
        Timer { duration_ms, elapsed_ms: 0, just_finished: false, ..self }
    }

    pub fn new_once(duration_ms: u64) -> (r: Timer)
        requires
            duration_ms <= TIME_LIMIT_MS,
        ensures
            r == (Timer { duration_ms, elapsed_ms: 0, repeating: false, just_finished: false }),
    {
        Timer { duration_ms, elapsed_ms: 0, repeating: false, just_finished: false }
    }

    pub fn new_repeating(duration_ms: u64) -> (r: Timer)
        requires
            duration_ms <= TIME_LIMIT_MS,
        ensures
            r == (Timer { duration_ms, elapsed_ms: 0, repeating: true, just_finished: false }),
    {
        Timer { duration_ms, elapsed_ms: 0, repeating: true, just_finished: false }
    }

    pub fn tick(&mut self, delta: u64)
        requires
            old(self).wf(),
            delta <= TIME_LIMIT_MS,
        ensures
            *final(self) == old(self).tick_spec(delta),
            final(self).wf(),
    {
        if self.repeating {
            if self.duration_ms == 0 {
                self.elapsed_ms = 0;
                self.just_finished = true;
            } else {
                let total = self.elapsed_ms + delta;
                self.just_finished = total >= self.duration_ms;
                self.elapsed_ms = total % self.duration_ms;
            }
        } else {
            let total = self.elapsed_ms + delta;
            self.just_finished = self.elapsed_ms < self.duration_ms && total >= self.duration_ms;
            self.elapsed_ms = if total >= self.duration_ms { self.duration_ms } else { total };
        }
    }

    pub fn is_finished(&self) -> (r: bool)
        ensures
            r == self.finished(),
    {
        if self.repeating {
            self.just_finished
        } else {
            self.elapsed_ms >= self.duration_ms
        }
    }

    /// Install a new duration; the time already accumulated stays.
    pub fn set_duration(&mut self, duration_ms: u64)
        requires
            duration_ms <= TIME_LIMIT_MS,
        ensures
            *final(self) == (Timer { duration_ms, ..*old(self) }),
    {
        self.duration_ms = duration_ms;
    }

    /// Install a new duration and restart the cycle from zero.
    pub fn restart(&mut self, duration_ms: u64)
        requires
            duration_ms <= TIME_LIMIT_MS,
        ensures
            *final(self) == old(self).restarted_spec(duration_ms),
            final(self).wf(),
    {
        self.duration_ms = duration_ms;
        self.elapsed_ms = 0;
        self.just_finished = false;
    }
}

} // verus!
