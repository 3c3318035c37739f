//! The precision deadline scheduler: a hybrid sleep-then-spin strategy
//! that lands within a bounded overshoot of a target instant. The
//! strategy is decided here and verified against a simulated clock; the
//! real sleep and the real clock reads are performed by the caller on a
//! dedicated thread, following the same plan.

use vstd::prelude::*;

use crate::MAX_UNIX_US;

verus! {

/// Below this remaining wait (exclusive) the hybrid wait is skipped: the
/// write proceeds immediately.
pub const WAIT_WINDOW_MIN_US: i64 = 5_000;

/// Above this remaining wait (inclusive) the hybrid wait is skipped: a
/// correction that large does not need sub-millisecond landing.
pub const WAIT_WINDOW_MAX_US: i64 = 2_000_000;

/// How much of the remaining wait is left to the spin phase after the
/// sleep phase.
pub const SPIN_MARGIN_US: i64 = 2_000;

/// The waiting strategy for a given remaining time.
#[derive(Clone, Copy, Debug, PartialEq, Eq, Structural)]
pub enum WaitPlan {
    /// Outside the hybrid window: do not wait at all.
    Proceed,
    /// Sleep for `sleep_us`, then spin-poll the clock to the deadline.
    SleepThenSpin { sleep_us: i64 },
}

/// Decides the waiting strategy: inside the window the thread sleeps for
/// all but the spin margin and spins for the rest; outside it proceeds at
/// once.
pub fn hybrid_wait_plan(remaining_us: i64) -> (r: WaitPlan)
    ensures
        (WAIT_WINDOW_MIN_US < remaining_us < WAIT_WINDOW_MAX_US) <==> (r matches
            WaitPlan::SleepThenSpin { .. }),
        r matches WaitPlan::SleepThenSpin { sleep_us } ==> sleep_us == remaining_us
            - SPIN_MARGIN_US && 0 < sleep_us < WAIT_WINDOW_MAX_US,
{
    if remaining_us > WAIT_WINDOW_MIN_US && remaining_us < WAIT_WINDOW_MAX_US {
        WaitPlan::SleepThenSpin { sleep_us: remaining_us - SPIN_MARGIN_US }
    } else {
        WaitPlan::Proceed
    }
}

/// A deterministic simulated clock: reads advance only when the
/// simulation sleeps or polls, by a fixed granularity, so the waiting
/// strategy can be verified and tested without real sleeping.
pub struct SimClock {
    pub now_us: i64,
    pub tick_us: i64,
}

impl SimClock {
    /// A usable simulated clock: a valid current time and a positive
    /// polling granularity of at most one second.
    pub open spec fn wf(self) -> bool {
        &&& 0 <= self.now_us <= MAX_UNIX_US
        &&& 1 <= self.tick_us <= 1_000_000
    }

    /// Reads the clock.
    pub fn read(&self) -> (r: i64)
        ensures
            r == self.now_us,
    {
        self.now_us
    }

    /// Sleeps: time passes by exactly the requested amount.
    pub fn sleep(&mut self, duration_us: i64)
        requires
            0 <= duration_us,
            old(self).now_us + duration_us <= MAX_UNIX_US + WAIT_WINDOW_MAX_US,
        ensures
            final(self).now_us == old(self).now_us + duration_us,
            final(self).tick_us == old(self).tick_us,
    {
        self.now_us = self.now_us + duration_us;
    }

    /// One poll of the clock: time passes by the polling granularity.
    pub fn poll(&mut self)
        requires
            0 <= old(self).now_us,
            0 <= old(self).tick_us,
            old(self).now_us + old(self).tick_us <= MAX_UNIX_US + 2 * WAIT_WINDOW_MAX_US,
        ensures
            final(self).now_us == old(self).now_us + old(self).tick_us,
            final(self).tick_us == old(self).tick_us,
    {
        self.now_us = self.now_us + self.tick_us;
    }
}

/// Blocks (in simulation) until the clock reaches the deadline, following
/// the hybrid plan. Inside the hybrid window the clock lands on the
/// deadline with an overshoot smaller than one polling granularity —
/// sub-millisecond for any granularity below a millisecond; outside the
/// window the clock is untouched.
pub fn wait_until_sim(clock: &mut SimClock, deadline_us: i64) -> (r: i64)
    requires
        old(clock).wf(),
        0 <= deadline_us <= MAX_UNIX_US,
    ensures
        r == final(clock).now_us,
        final(clock).tick_us == old(clock).tick_us,
        (WAIT_WINDOW_MIN_US < deadline_us - old(clock).now_us < WAIT_WINDOW_MAX_US) ==> {
            &&& deadline_us <= final(clock).now_us
            &&& final(clock).now_us < deadline_us + old(clock).tick_us
        },
        (WAIT_WINDOW_MIN_US < deadline_us - old(clock).now_us < WAIT_WINDOW_MAX_US)
            && old(clock).tick_us <= SPIN_MARGIN_US
            ==> final(clock).now_us < deadline_us + SPIN_MARGIN_US,
        !(WAIT_WINDOW_MIN_US < deadline_us - old(clock).now_us < WAIT_WINDOW_MAX_US)
            ==> final(clock).now_us == old(clock).now_us,
{
    let remaining = deadline_us - clock.now_us;
    match hybrid_wait_plan(remaining) {
        WaitPlan::Proceed => clock.read(),
        WaitPlan::SleepThenSpin { sleep_us } => {
            clock.sleep(sleep_us);
            while clock.now_us < deadline_us
                invariant
                    0 <= clock.now_us,
                    clock.tick_us == old(clock).tick_us,
                    1 <= clock.tick_us <= 1_000_000,
                    clock.now_us < deadline_us + clock.tick_us,
                    deadline_us <= MAX_UNIX_US,
                decreases deadline_us + clock.tick_us - clock.now_us,
            {
                clock.poll();
            }
            clock.read()
        },
    }
}

} // verus!
