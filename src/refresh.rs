//! The refresh loop as a state machine: trigger signals start a cycle unless
//! the last cycle ended less than a minimum interval ago.
use vstd::prelude::*;

verus! {

/// The least time between the end of one cycle and the start of the next: a
/// ceiling of about 60 refreshes a second.
pub const MIN_CYCLE_INTERVAL_MS: u64 = 16;

#[derive(Clone, Copy, Debug, PartialEq, Eq, Structural)]
pub enum Phase {
    /// Waiting for a trigger signal.
    Idle,
    /// Running one parse, select and render cycle.
    Computing,
}

#[derive(Clone, Copy, Debug, PartialEq, Eq, Structural)]
pub struct RefreshLoop {
    pub phase: Phase,
    /// When the last cycle ended, in milliseconds of a monotonic clock.
    pub last_cycle_ms: u64,
}

/// A signal at `now` starts a cycle.
pub open spec fn accepts(s: RefreshLoop, now: u64) -> bool {
    s.phase == Phase::Idle && now >= s.last_cycle_ms + MIN_CYCLE_INTERVAL_MS
}

pub open spec fn after_signal(s: RefreshLoop, now: u64) -> RefreshLoop {
    if accepts(s, now) {
        RefreshLoop { phase: Phase::Computing, last_cycle_ms: s.last_cycle_ms }
    } else {
        s
    }
}

pub open spec fn after_cycle(s: RefreshLoop, now: u64) -> RefreshLoop {
    RefreshLoop { phase: Phase::Idle, last_cycle_ms: now }
}

impl RefreshLoop {
    /// The loop at startup: the first cycle runs at once, with no signal.
    pub fn start() -> (r: Self)
        ensures
            r.phase == Phase::Computing,
            r.last_cycle_ms == 0,
    {
        RefreshLoop { phase: Phase::Computing, last_cycle_ms: 0 }
    }

    /// A trigger signal arrives at `now_ms`; returns whether a cycle starts.
    /// A signal too soon after the last cycle is dropped without effect.
    pub fn on_signal(&mut self, now_ms: u64) -> (run: bool)
        ensures
            run == accepts(*old(self), now_ms),
            *final(self) == after_signal(*old(self), now_ms),
    {
        let run = self.phase == Phase::Idle && now_ms >= self.last_cycle_ms && now_ms
            - self.last_cycle_ms >= MIN_CYCLE_INTERVAL_MS;
        if run {
            self.phase = Phase::Computing;
        }
        run
    }

    /// The running cycle ended at `now_ms`.
    pub fn on_cycle_done(&mut self, now_ms: u64)
        requires
            old(self).phase == Phase::Computing,
        ensures
            *final(self) == after_cycle(*old(self), now_ms),
    {
        self.phase = Phase::Idle;
        self.last_cycle_ms = now_ms;
    }
}

/// Of two signals less than the minimum interval apart, where the first starts
/// a cycle that ends before the second arrives, the second is dropped: the
/// burst gives one cycle.
pub proof fn lemma_burst_gives_one_cycle(s: RefreshLoop, first: u64, done: u64, second: u64)
    requires
        accepts(s, first),
        first <= done <= second,
        second < first + MIN_CYCLE_INTERVAL_MS,
    ensures
        after_signal(s, first).phase == Phase::Computing,
        !accepts(after_cycle(after_signal(s, first), done), second),
        after_signal(after_cycle(after_signal(s, first), done), second) == after_cycle(
            after_signal(s, first),
            done,
        ),
{
}

/// A signal that comes at least the minimum interval after the last cycle
/// ended starts a cycle of its own.
pub proof fn lemma_spaced_signals_each_cycle(s: RefreshLoop, first: u64, done: u64, second: u64)
    requires
        accepts(s, first),
        second >= done + MIN_CYCLE_INTERVAL_MS,
    ensures
        after_signal(s, first).phase == Phase::Computing,
        accepts(after_cycle(after_signal(s, first), done), second),
        after_signal(after_cycle(after_signal(s, first), done), second).phase == Phase::Computing,
{
}

} // verus!
