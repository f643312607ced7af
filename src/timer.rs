use vstd::arithmetic::div_mod::*;
use vstd::prelude::*;

verus! {

/// Whether a timer stops when it completes or starts over.
#[derive(Clone, Copy, Debug, PartialEq, Eq, Structural)]
pub enum TimerMode {
    Once,
    Repeating,
}

/// A countdown of `duration` microseconds with a one-tick "just finished" edge.
///
/// `elapsed` never exceeds `duration`; a repeating timer with a positive duration
/// keeps it strictly below (it wraps around).
#[derive(Clone, Copy, Debug, PartialEq, Eq, Structural)]
pub struct Timer {
    pub duration: u64,
    pub elapsed: u64,
    pub mode: TimerMode,
    pub paused: bool,
    pub finished: bool,
    pub just_finished: bool,
}

impl Timer {
    pub open spec fn wf(self) -> bool {
        &&& self.elapsed <= self.duration
        &&& (self.mode == TimerMode::Repeating && self.duration > 0) ==> self.elapsed
            < self.duration
    }

    /// The timer after `dt` more microseconds have passed.
    pub open spec fn ticked(self, dt: u64) -> Timer {
        if self.paused {
            Timer {
                finished: if self.mode == TimerMode::Repeating {
                    false
                } else {
                    self.finished
                },
                just_finished: false,
                ..self
            }
        } else if self.mode == TimerMode::Once && self.finished {
            Timer { just_finished: false, ..self }
        } else if self.elapsed + dt >= self.duration {
            Timer {
                elapsed: if self.mode == TimerMode::Once {
                    self.duration
                } else if self.duration == 0 {
                    0
                } else {
                    ((self.elapsed + dt) % (self.duration as int)) as u64
                },
                finished: true,
                just_finished: true,
                ..self
            }
        } else {
            Timer {
                elapsed: (self.elapsed + dt) as u64,
                finished: false,
                just_finished: false,
                ..self
            }
        }
    }

    pub open spec fn new_spec(duration: u64, mode: TimerMode) -> Timer {
        Timer { duration, elapsed: 0, mode, paused: false, finished: false, just_finished: false }
    }

    /// Ticking keeps a timer well formed.
    pub proof fn lemma_ticked_wf(self, dt: u64)
        requires
            self.wf(),
        ensures
            self.ticked(dt).wf(),
            self.ticked(dt).mode == self.mode,
            self.ticked(dt).duration == self.duration,
    {
        if !self.paused && !(self.mode == TimerMode::Once && self.finished) && self.elapsed + dt
            >= self.duration && self.mode == TimerMode::Repeating && self.duration > 0 {
            vstd::arithmetic::div_mod::lemma_mod_bound((self.elapsed + dt) as int, self.duration as int);
        }
    }

    /// The timer as it stands right after a reset.
    pub open spec fn restarted(self) -> Timer {
        Timer { elapsed: 0, finished: false, just_finished: false, ..self }
    }

    /// A running timer of `duration` microseconds.
    pub fn new(duration: u64, mode: TimerMode) -> (t: Timer)
        ensures
            t.wf(),
            t == Timer::new_spec(duration, mode),
    {
        Timer { duration, elapsed: 0, mode, paused: false, finished: false, just_finished: false }
    }

    /// A timer of `duration` microseconds that waits for `unpause` before it counts.
    pub fn new_paused(duration: u64, mode: TimerMode) -> (t: Timer)
        ensures
            t.wf(),
            t == (Timer {
                duration,
                elapsed: 0,
                mode,
                paused: true,
                finished: false,
                just_finished: false,
            }),
    {
        Timer { duration, elapsed: 0, mode, paused: true, finished: false, just_finished: false }
    }

    /// Advances the timer by `dt` microseconds.
    pub fn tick(&mut self, dt: u64)
        requires
            old(self).wf(),
        ensures
            final(self).wf(),
            *final(self) == old(self).ticked(dt),
    {
        if self.paused {
            self.just_finished = false;
            if self.mode == TimerMode::Repeating {
                self.finished = false;
            }
            return ;
        }
        if self.mode == TimerMode::Once && self.finished {
            self.just_finished = false;
            return ;
        }
        let room = self.duration - self.elapsed;
        if dt >= room {
            self.finished = true;
            self.just_finished = true;
            if self.mode == TimerMode::Once {
                self.elapsed = self.duration;
            } else if self.duration == 0 {
                self.elapsed = 0;
            } else {
                let d = self.duration;
                let e = self.elapsed;
                let r = dt % d;
                let next = if r >= room {
                    r - room
                } else {
                    e + r
                };
                proof {
                    let q = dt as int / d as int;
                    lemma_fundamental_div_mod(dt as int, d as int);
                    assert(dt == q * d + r) by (nonlinear_arith)
                        requires
                            dt == d * q + r,
                    ;
                    if r >= room {
                        assert((q + 1) * d == q * d + d) by (nonlinear_arith);
                        lemma_fundamental_div_mod_converse(e + dt, d as int, q + 1, next as int);
                    } else {
                        lemma_fundamental_div_mod_converse(e + dt, d as int, q, next as int);
                    }
                }
                self.elapsed = next;
            }
        } else {
            self.elapsed = self.elapsed + dt;
            self.finished = false;
            self.just_finished = false;
        }
    }

    /// Starts the countdown over; the mode, duration and pause state stay.
    pub fn reset(&mut self)
        requires
            old(self).wf(),
        ensures
            final(self).wf(),
            *final(self) == old(self).restarted(),
    {
        self.elapsed = 0;
        self.finished = false;
        self.just_finished = false;
    }

    pub fn pause(&mut self)
        requires
            old(self).wf(),
        ensures
            final(self).wf(),
            *final(self) == (Timer { paused: true, ..*old(self) }),
    {
        self.paused = true;
    }

    pub fn unpause(&mut self)
        requires
            old(self).wf(),
        ensures
            final(self).wf(),
            *final(self) == (Timer { paused: false, ..*old(self) }),
    {
        self.paused = false;
    }

    /// True once the countdown has completed (for a repeating timer: on the ticks
    /// on which it completed).
    pub fn is_finished(&self) -> (r: bool)
        ensures
            r == self.finished,
    {
        self.finished
    }

    /// True only on the tick on which the countdown completed.
    pub fn is_just_finished(&self) -> (r: bool)
        ensures
            r == self.just_finished,
    {
        self.just_finished
    }

    pub fn is_paused(&self) -> (r: bool)
        ensures
            r == self.paused,
    {
        self.paused
    }
}

} // verus!
