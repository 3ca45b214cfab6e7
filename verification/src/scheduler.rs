//! The scheduler: the state machine that drives repeated poll cycles and the
//! watermark they advance.
//!
//! The watermark is the lower bound of the next fetch. It is absent before
//! the first successful cycle ("fetch everything"), and after a cycle that
//! saw items it backs off one second behind the maximum updated-at observed,
//! so that boundary ties between consecutive polls are refetched rather than
//! missed; the dedup store absorbs the overlap.

use vstd::prelude::*;

verus! {

/// Where the poll loop stands.
#[derive(Debug, Clone, Copy, PartialEq, Eq, Structural)]
pub enum SchedulerState {
    /// Before the store is known to be usable.
    Idle,
    /// A fetch-and-dispatch cycle is outstanding.
    Polling,
    /// Waiting out the poll interval.
    Sleeping,
    /// Terminal: the process exits cleanly.
    Stopped,
}

/// The poll loop's state: its phase and the fetch watermark.
pub struct Scheduler {
    /// The current phase.
    pub state: SchedulerState,
    /// Epoch seconds of the next fetch's lower bound, absent before the
    /// first successful cycle.
    pub watermark: Option<i64>,
}

impl Scheduler {
    /// A scheduler that has not started: no watermark, nothing running.
    pub fn new() -> (r: Scheduler)
        ensures
            r.state == SchedulerState::Idle,
            r.watermark is None,
    {
        Scheduler { state: SchedulerState::Idle, watermark: None }
    }

    /// Store initialization succeeded: start the first cycle at once.
    pub fn on_started(&mut self)
        requires
            old(self).state == SchedulerState::Idle,
        ensures
            final(self).state == SchedulerState::Polling,
            final(self).watermark == old(self).watermark,
    {
        self.state = SchedulerState::Polling;
    }

    /// A cycle ended. Whatever its outcome the loop goes to sleep; only a
    /// cycle that completed without error and saw at least one item moves
    /// the watermark, to one second before the maximum updated-at it
    /// observed.
    pub fn on_cycle_finished(&mut self, cycle_max: Option<i64>, cycle_failed: bool)
        requires
            old(self).state == SchedulerState::Polling,
            cycle_max matches Some(t) ==> t > i64::MIN,
        ensures
            final(self).state == SchedulerState::Sleeping,
            final(self).watermark == (match cycle_max {
                Some(t) => if !cycle_failed {
                    Some((t - 1) as i64)
                } else {
                    old(self).watermark
                },
                None => old(self).watermark,
            }),
    {
        if !cycle_failed {
            match cycle_max {
                Some(t) => {
                    self.watermark = Some(t - 1);
                },
                None => {},
            }
        }
        self.state = SchedulerState::Sleeping;
    }

    /// The poll interval elapsed: start the next cycle.
    pub fn on_interval_elapsed(&mut self)
        requires
            old(self).state == SchedulerState::Sleeping,
        ensures
            final(self).state == SchedulerState::Polling,
            final(self).watermark == old(self).watermark,
    {
        self.state = SchedulerState::Polling;
    }

    /// A shutdown signal, observed at any checkpoint: stop promptly. The
    /// watermark is kept only for inspection; replays after a restart are
    /// safe because the dedup store persists.
    pub fn on_shutdown(&mut self)
        ensures
            final(self).state == SchedulerState::Stopped,
            final(self).watermark == old(self).watermark,
    {
        self.state = SchedulerState::Stopped;
    }
}

} // verus!
