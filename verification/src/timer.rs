//! One-shot countdown timers measured in whole nanoseconds.

use std::time::Duration;
use vstd::prelude::*;

verus! {

/// Nanoseconds in one millisecond.
pub const NANOS_PER_MILLI: u64 = 1_000_000;

/// Nanoseconds in one second.
pub const NANOS_PER_SECOND: u64 = 1_000_000_000;

/// A timer that runs once from zero up to its duration and then stays
/// finished until it is restarted.
#[derive(Clone, Copy, Debug)]
pub struct Countdown {
    /// How long the timer runs, in nanoseconds.
    pub duration: u64,
    /// How much of the duration has passed, in nanoseconds.
    pub elapsed: u64,
    /// Whether the duration has been reached.
    pub finished: bool,
}

/// Where a running timer stands after `delta` more nanoseconds: the new
/// elapsed time, held at the duration once that is reached, and whether it
/// was reached.
pub open spec fn advanced(duration: u64, elapsed: u64, delta: u64) -> (u64, bool) {
    if elapsed + delta >= duration {
        (duration, true)
    } else {
        ((elapsed + delta) as u64, false)
    }
}

/// Total of a run of tick lengths, in nanoseconds.
pub open spec fn total(deltas: Seq<u64>) -> nat
    decreases deltas.len(),
{
    if deltas.len() == 0 {
        0
    } else {
        total(deltas.drop_last()) + deltas.last() as nat
    }
}

/// Advances a running one-shot timer with `bevy::time::Timer::tick`.
///
/// Trusted: a fresh `TimerMode::Once` timer of the given duration, set to the
/// given elapsed time, is neither paused nor finished, so `tick` adds `delta`
/// to the elapsed time, marks the timer finished when the sum reaches the
/// duration, and in that case holds the elapsed time at the duration.
#[verifier::external_body]
fn tick_once(duration: u64, elapsed: u64, delta: u64) -> (after: (u64, bool))
    ensures
        after == advanced(duration, elapsed, delta),
{
    let mut timer = bevy::time::Timer::new(Duration::from_nanos(duration), bevy::time::TimerMode::Once);
    timer.set_elapsed(Duration::from_nanos(elapsed));
    timer.tick(Duration::from_nanos(delta));
    (timer.elapsed().as_nanos() as u64, timer.finished())
}

impl Countdown {
    /// The elapsed time never exceeds the duration, and a finished timer
    /// stands exactly at its duration.
    pub open spec fn wf(self) -> bool {
        &&& self.elapsed <= self.duration
        &&& self.finished ==> self.elapsed == self.duration
    }

    /// A timer of the given duration that has just been started.
    pub open spec fn started(duration: u64) -> Countdown {
        Countdown { duration, elapsed: 0, finished: false }
    }

    /// A timer of no duration that has already run out.
    pub open spec fn spent() -> Countdown {
        Countdown { duration: 0, elapsed: 0, finished: true }
    }

    /// Nanoseconds still to run.
    pub open spec fn remaining(self) -> nat {
        if self.elapsed <= self.duration {
            (self.duration - self.elapsed) as nat
        } else {
            0
        }
    }

    /// The timer after `delta` more nanoseconds. A finished timer stays as
    /// it is.
    pub open spec fn ticked(self, delta: u64) -> Countdown {
        if self.finished {
            self
        } else {
            Countdown {
                duration: self.duration,
                elapsed: advanced(self.duration, self.elapsed, delta).0,
                finished: advanced(self.duration, self.elapsed, delta).1,
            }
        }
    }

    /// The timer after each tick of `deltas` in turn.
    pub open spec fn run(self, deltas: Seq<u64>) -> Countdown
        decreases deltas.len(),
    {
        if deltas.len() == 0 {
            self
        } else {
            self.run(deltas.drop_last()).ticked(deltas.last())
        }
    }

    /// Starts a timer of `duration` nanoseconds.
    pub fn new(duration: u64) -> (timer: Countdown)
        ensures
            timer == Countdown::started(duration),
            timer.wf(),
    {
        Countdown { duration, elapsed: 0, finished: false }
    }

    /// A timer that has already run out, so that whatever waits on it may
    /// go ahead at once.
    pub fn expired() -> (timer: Countdown)
        ensures
            timer == Countdown::spent(),
            timer.wf(),
            timer.finished,
    {
        Countdown { duration: 0, elapsed: 0, finished: true }
    }

    /// Advances the timer by `delta` nanoseconds. Time only moves forward:
    /// a well-formed timer never loses elapsed time, and a finished timer
    /// stays finished.
    pub fn tick(&mut self, delta: u64)
        ensures
            *final(self) == old(self).ticked(delta),
            old(self).wf() ==> final(self).wf(),
            old(self).wf() ==> final(self).elapsed >= old(self).elapsed,
            old(self).finished ==> final(self).finished,
    {
        if !self.finished {
            let (elapsed, finished) = tick_once(self.duration, self.elapsed, delta);
            self.elapsed = elapsed;
            self.finished = finished;
        }
    }

    /// Whether the timer has reached its duration.
    pub fn finished(&self) -> (done: bool)
        ensures
            done == self.finished,
    {
        self.finished
    }

    /// Gives the timer a new duration and starts it again from zero.
    pub fn restart(&mut self, duration: u64)
        ensures
            *final(self) == Countdown::started(duration),
            final(self).wf(),
            final(self).remaining() == duration,
    {
        self.duration = duration;
        self.elapsed = 0;
        self.finished = false;
    }

    /// Nanoseconds still to run; zero once the timer has finished.
    pub fn remaining_nanos(&self) -> (left: u64)
        ensures
            left == self.remaining(),
            self.wf() && self.finished ==> left == 0,
    {
        if self.elapsed <= self.duration {
            self.duration - self.elapsed
        } else {
            0
        }
    }
}

/// A well-formed running timer is finished after a run of ticks exactly when
/// it has been ticked at all and the ticks add up to at least the time it had
/// left: never earlier, and no later than the tick that reaches it.
pub proof fn finishes_exactly_when_due(timer: Countdown, deltas: Seq<u64>)
    requires
        timer.wf(),
        !timer.finished,
    ensures
        timer.run(deltas).wf(),
        timer.run(deltas).duration == timer.duration,
        timer.run(deltas).finished <==> deltas.len() > 0 && total(deltas) >= timer.remaining(),
        !timer.run(deltas).finished ==> timer.run(deltas).elapsed == timer.elapsed + total(deltas),
    decreases deltas.len(),
{
    if deltas.len() > 0 {
        finishes_exactly_when_due(timer, deltas.drop_last());
    }
}

/// Once a timer has finished, no further tick changes it.
pub proof fn finished_stays_finished(timer: Countdown, deltas: Seq<u64>)
    requires
        timer.finished,
    ensures
        timer.run(deltas) == timer,
    decreases deltas.len(),
{
    if deltas.len() > 0 {
        finished_stays_finished(timer, deltas.drop_last());
    }
}

} // verus!
