//! Countdown timers measured in whole milliseconds.
use vstd::prelude::*;

verus! {

/// Whether a timer stops when it finishes or starts over.
#[derive(Clone, Copy, Debug, PartialEq, Eq, Structural)]
pub enum TimerMode {
    Once,
    Repeating,
}

/// A timer that counts elapsed milliseconds towards a duration.
///
/// A one-shot timer stays finished once it reaches its duration; a repeating
/// timer wraps around and reports, for the tick it wrapped in, how many times
/// it finished.
#[derive(Clone, Copy, Debug)]
pub struct Timer {
    pub duration: u64,
    pub elapsed: u64,
    pub mode: TimerMode,
    pub finished: bool,
    pub times_finished_this_tick: u32,
}

impl Timer {
    /// Elapsed time never passes the duration, a repeating timer with a
    /// positive duration has always wrapped back below it, and a one-shot
    /// timer that finished in the last tick is finished.
    pub open spec fn wf(&self) -> bool {
        &&& self.elapsed <= self.duration
        &&& (self.mode == TimerMode::Repeating && self.duration > 0) ==> self.elapsed
            < self.duration
        &&& (self.mode == TimerMode::Once && self.times_finished_this_tick > 0) ==> self.finished
    }

    pub open spec fn spec_just_finished(&self) -> bool {
        self.times_finished_this_tick > 0
    }

    /// The state of `self` after `delta` more milliseconds.
    pub open spec fn spec_tick(self, delta: u64) -> Timer {
        if self.mode == TimerMode::Once && self.finished {
            Timer { times_finished_this_tick: 0, ..self }
        } else {
            let e: int = if self.elapsed + delta > u64::MAX {
                u64::MAX as int
            } else {
                self.elapsed + delta
            };
            if e >= self.duration {
                if self.mode == TimerMode::Repeating {
                    if self.duration == 0 {
                        Timer {
                            elapsed: 0,
                            finished: true,
                            times_finished_this_tick: u32::MAX,
                            ..self
                        }
                    } else {
                        let n: int = e / (self.duration as int);
                        Timer {
                            elapsed: (e % (self.duration as int)) as u64,
                            finished: true,
                            times_finished_this_tick: if n > u32::MAX {
                                u32::MAX
                            } else {
                                n as u32
                            },
                            ..self
                        }
                    }
                } else {
                    Timer {
                        elapsed: self.duration,
                        finished: true,
                        times_finished_this_tick: 1,
                        ..self
                    }
                }
            } else {
                Timer { elapsed: e as u64, finished: false, times_finished_this_tick: 0, ..self }
            }
        }
    }

    pub open spec fn from_millis_spec(duration: u64, mode: TimerMode) -> Timer {
        Timer { duration, elapsed: 0, mode, finished: false, times_finished_this_tick: 0 }
    }

    /// `t` with a new duration, started over from zero.
    pub open spec fn restarted_spec(t: Timer, duration: u64) -> Timer {
        Timer { duration, elapsed: 0, finished: false, times_finished_this_tick: 0, ..t }
    }

    /// A fresh timer of `duration` milliseconds.
    pub fn from_millis(duration: u64, mode: TimerMode) -> (r: Timer)
        ensures
            r == Timer::from_millis_spec(duration, mode),
            r.wf(),
    {
        Timer { duration, elapsed: 0, mode, finished: false, times_finished_this_tick: 0 }
    }

    /// Advances the timer by `delta` milliseconds.
    pub fn tick(&mut self, delta: u64)
        requires
            old(self).wf(),
        ensures
            *final(self) == old(self).spec_tick(delta),
            final(self).wf(),
    {
        if self.mode == TimerMode::Once && self.finished {
            self.times_finished_this_tick = 0;
            return ;
        }
        let e = self.elapsed.saturating_add(delta);
        if e >= self.duration {
            self.finished = true;
            if self.mode == TimerMode::Repeating {
                if self.duration == 0 {
                    self.elapsed = 0;
                    self.times_finished_this_tick = u32::MAX;
                } else {
                    let n = e / self.duration;
                    self.elapsed = e % self.duration;
                    self.times_finished_this_tick = if n > u32::MAX as u64 {
                        u32::MAX
                    } else {
                        n as u32
                    };
                }
            } else {
                self.elapsed = self.duration;
                self.times_finished_this_tick = 1;
            }
        } else {
            self.elapsed = e;
            self.finished = false;
            self.times_finished_this_tick = 0;
        }
    }

    /// Whether the timer finished during the last tick.
    pub fn just_finished(&self) -> (r: bool)
        ensures
            r == self.spec_just_finished(),
    {
        self.times_finished_this_tick > 0
    }

    /// Whether the timer has reached its duration (for a repeating timer: in
    /// the last tick).
    pub fn is_finished(&self) -> (r: bool)
        ensures
            r == self.finished,
    {
        self.finished
    }

    /// Starts the timer over from zero.
    pub fn reset(&mut self)
        ensures
            *final(self) == (Timer {
                elapsed: 0,
                finished: false,
                times_finished_this_tick: 0,
                ..*old(self)
            }),
            final(self).wf(),
    {
        self.elapsed = 0;
        self.finished = false;
        self.times_finished_this_tick = 0;
    }

    /// Gives the timer a new duration and starts it over from zero.
    pub fn restart_with(&mut self, duration: u64)
        ensures
            *final(self) == Timer::restarted_spec(*old(self), duration),
            final(self).wf(),
    {
        self.duration = duration;
        self.reset();
    }
}

} // verus!
