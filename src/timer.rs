use vstd::prelude::*;

verus! {

/// What a `Timer` holds, in milliseconds.
pub struct TimerView {
    pub duration: nat,
    pub remaining: nat,
    pub finished: bool,
}

impl TimerView {
    /// A timer that has just been started with the given duration.
    pub open spec fn started(duration: nat) -> TimerView {
        TimerView { duration, remaining: duration, finished: false }
    }

    /// The state after `delta` milliseconds have passed.
    pub open spec fn ticked(self, delta: nat) -> TimerView {
        if self.finished {
            self
        } else {
            let remaining = if self.remaining > delta {
                (self.remaining - delta) as nat
            } else {
                0nat
            };
            TimerView { remaining, finished: remaining == 0, ..self }
        }
    }

    /// The state after the timer is restarted with its current duration.
    pub open spec fn restarted(self) -> TimerView {
        TimerView {
            remaining: self.duration,
            finished: self.duration == 0 && self.remaining != 0,
            ..self
        }
    }

    /// The state after one tick for each length in `deltas`, taken in order.
    pub open spec fn ticked_all(self, deltas: Seq<u64>) -> TimerView
        decreases deltas.len(),
    {
        if deltas.len() == 0 {
            self
        } else {
            self.ticked_all(deltas.drop_last()).ticked(deltas.last() as nat)
        }
    }
}

/// Sum of a sequence of durations.
pub open spec fn total(deltas: Seq<u64>) -> nat
    decreases deltas.len(),
{
    if deltas.len() == 0 {
        0
    } else {
        (total(deltas.drop_last()) + deltas.last()) as nat
    }
}

/// A countdown driven from outside: each `tick` takes away the time that has
/// passed, and the timer is finished once nothing is left. Times are whole
/// milliseconds.
#[derive(Clone, Copy, Debug)]
pub struct Timer {
    duration: u64,
    remaining: u64,
    finished: bool,
}

impl View for Timer {
    type V = TimerView;

    closed spec fn view(&self) -> TimerView {
        TimerView {
            duration: self.duration as nat,
            remaining: self.remaining as nat,
            finished: self.finished,
        }
    }
}

impl Timer {
    pub fn new(duration: u64) -> (r: Timer)
        ensures
            r@ == TimerView::started(duration as nat),
    {
        Timer { duration, remaining: duration, finished: false }
    }

    pub fn tick(&mut self, delta: u64)
        ensures
            final(self)@ == old(self)@.ticked(delta as nat),
    {
        if self.finished {
            return;
        }
        self.remaining = self.remaining.saturating_sub(delta);
        if self.remaining == 0 {
            self.finished = true;
        }
    }

    pub fn finished(&self) -> (r: bool)
        ensures
            r == self@.finished,
    {
        self.finished
    }

    pub fn reset(&mut self)
        ensures
            final(self)@ == old(self)@.restarted(),
    {
        self.finished = self.duration == 0 && self.remaining != 0;
        self.remaining = self.duration;
    }

    /// Changes the duration used by the next `reset`; the time left now stays.
    pub fn set_duration(&mut self, duration: u64)
        ensures
            final(self)@ == (TimerView { duration: duration as nat, ..old(self)@ }),
    {
        self.duration = duration;
    }

    pub fn duration(&self) -> (r: u64)
        ensures
            r == self@.duration,
    {
        self.duration
    }

    pub fn remaining(&self) -> (r: u64)
        ensures
            r == self@.remaining,
    {
        self.remaining
    }
}

} // verus!
