use vstd::prelude::*;

verus! {

/// A one-shot countdown measured in nanoseconds. Ticking adds to `elapsed` until
/// it reaches `duration`; from then on the timer is finished and stays so until
/// it is reset. Being finished means exactly that `elapsed` has reached
/// `duration`, so a timer of zero duration is finished from the start.
#[derive(Clone, Copy, Debug, PartialEq, Eq, Structural)]
pub struct Timer {
    pub duration: u64,
    pub elapsed: u64,
}

impl Timer {
    pub open spec fn finished_spec(self) -> bool {
        self.elapsed >= self.duration
    }

    /// The timer after `delta` more nanoseconds have passed.
    pub open spec fn ticked(self, delta: u64) -> Timer {
        if self.finished_spec() {
            self
        } else if self.elapsed + delta >= self.duration {
            Timer { duration: self.duration, elapsed: self.duration }
        } else {
            Timer { duration: self.duration, elapsed: (self.elapsed + delta) as u64 }
        }
    }

    /// The timer counting again from zero.
    pub open spec fn restarted(self) -> Timer {
        Timer { duration: self.duration, elapsed: 0 }
    }

    /// A timer that has just started counting toward `duration`.
    pub fn new(duration: u64) -> (r: Timer)
        ensures
            r.duration == duration,
            r.elapsed == 0,
    {
        Timer { duration, elapsed: 0 }
    }

    /// A timer that has already run its whole `duration`.
    pub fn new_finished(duration: u64) -> (r: Timer)
        ensures
            r.duration == duration,
            r.elapsed == duration,
    {
        Timer { duration, elapsed: duration }
    }

    pub fn tick(&mut self, delta: u64)
        ensures
            *final(self) == old(self).ticked(delta),
    {
        if self.elapsed >= self.duration {
            return;
        }
        if delta >= self.duration - self.elapsed {
            self.elapsed = self.duration;
        } else {
            self.elapsed = self.elapsed + delta;
        }
    }

    pub fn reset(&mut self)
        ensures
            *final(self) == old(self).restarted(),
    {
        self.elapsed = 0;
    }

    pub fn is_finished(&self) -> (r: bool)
        ensures
            r == self.finished_spec(),
    {
        self.elapsed >= self.duration
    }

    pub fn elapsed(&self) -> (r: u64)
        ensures
            r == self.elapsed,
    {
        self.elapsed
    }

    pub fn duration(&self) -> (r: u64)
        ensures
            r == self.duration,
    {
        self.duration
    }
}

/// Ticking never moves a timer backward and never past its duration once it
/// started within it.
pub proof fn lemma_tick_monotone(t: Timer, delta: u64)
    requires
        t.elapsed <= t.duration,
    ensures
        t.elapsed <= t.ticked(delta).elapsed <= t.duration,
        t.ticked(delta).duration == t.duration,
        t.ticked(delta).elapsed == if t.elapsed + delta >= t.duration {
            t.duration as int
        } else {
            t.elapsed + delta
        },
{
}

} // verus!
