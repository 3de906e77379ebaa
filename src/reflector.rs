//! The decisions of a reflector's background task: what each outcome of the
//! watch does to the time of the last change and to the readiness signal.
use vstd::prelude::*;

verus! {

/// One item of the watch stream, as the task sees it.
#[derive(Debug, Clone, Copy, PartialEq, Eq, Structural)]
pub enum WatchOutcome {
    /// An event that was applied to the store.
    Event,
    /// The first listing failed; the reflector cannot start.
    InitialListFailed,
    /// Any other error; the watch retries on its own.
    OtherError,
}

/// What the readiness signal carries.
#[derive(Debug, Clone, Copy, PartialEq, Eq, Structural)]
pub enum Readiness {
    Ready,
    Failed,
}

/// What the task does after one outcome.
#[derive(Debug, Clone, Copy, PartialEq, Eq, Structural)]
pub struct Step {
    /// The readiness signal to fire, if any.
    pub signal: Option<Readiness>,
    /// Whether the task goes on watching.
    pub keep_running: bool,
}

/// The state of a reflector's background task. Times are ticks of a
/// monotonic clock.
#[derive(Debug)]
pub struct ReflectorState {
    last_change_seen_at: u64,
    signalled: bool,
}

impl ReflectorState {
    pub closed spec fn last_change(&self) -> u64 {
        self.last_change_seen_at
    }

    /// Whether the readiness signal has been fired.
    pub closed spec fn has_signalled(&self) -> bool {
        self.signalled
    }

    /// A task that has seen nothing yet; its last change is `now`.
    pub fn new(now: u64) -> (r: ReflectorState)
        ensures
            r.last_change() == now,
            !r.has_signalled(),
    {
        ReflectorState { last_change_seen_at: now, signalled: false }
    }

    pub fn last_change_seen_at(&self) -> (r: u64)
        ensures
            r == self.last_change(),
    {
        self.last_change_seen_at
    }

    /// Handles one outcome of the watch at time `now`. An event moves the
    /// last change forward to `now` (never back) and fires the signal with
    /// success the first time; a failed initial listing fires it with the
    /// failure the first time and stops the task; other errors change
    /// nothing.
    pub fn on_outcome(&mut self, outcome: WatchOutcome, now: u64) -> (r: Step)
        ensures
            match outcome {
                WatchOutcome::Event => {
                    &&& final(self).last_change() == (if now > old(self).last_change() {
                        now
                    } else {
                        old(self).last_change()
                    })
                    &&& final(self).has_signalled()
                    &&& r.signal == (if old(self).has_signalled() {
                        None
                    } else {
                        Some(Readiness::Ready)
                    })
                    &&& r.keep_running
                },
                WatchOutcome::InitialListFailed => {
                    &&& final(self).last_change() == old(self).last_change()
                    &&& final(self).has_signalled()
                    &&& r.signal == (if old(self).has_signalled() {
                        None
                    } else {
                        Some(Readiness::Failed)
                    })
                    &&& !r.keep_running
                },
                WatchOutcome::OtherError => {
                    &&& final(self).last_change() == old(self).last_change()
                    &&& final(self).has_signalled() == old(self).has_signalled()
                    &&& r.signal is None
                    &&& r.keep_running
                },
            },
            old(self).last_change() <= final(self).last_change(),
    {
        match outcome {
            WatchOutcome::Event => {
                if now > self.last_change_seen_at {
                    self.last_change_seen_at = now;
                }
                let signal = if self.signalled {
                    None
                } else {
                    Some(Readiness::Ready)
                };
                self.signalled = true;
                Step { signal, keep_running: true }
            },
            WatchOutcome::InitialListFailed => {
                let signal = if self.signalled {
                    None
                } else {
                    Some(Readiness::Failed)
                };
                self.signalled = true;
                Step { signal, keep_running: false }
            },
            WatchOutcome::OtherError => Step { signal: None, keep_running: true },
        }
    }
}

} // verus!
