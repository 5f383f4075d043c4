use vstd::prelude::*;

use crate::state::{AppState, Effects, tick_effects};
use crate::website::Catalog;

verus! {

/// The periodic rotation task's own state: its period, and whether it was
/// asked to stop. The task only exists while it can run: a catalog without an
/// interval, or with fewer than two entries, gets none.
#[derive(Clone, Copy, Debug)]
pub struct RotationScheduler {
    interval: u64,
    stopped: bool,
}

impl RotationScheduler {
    /// The period in seconds.
    pub closed spec fn period(&self) -> nat {
        self.interval as nat
    }

    /// Whether the task was asked to stop.
    pub closed spec fn halted(&self) -> bool {
        self.stopped
    }

    /// The task for `catalog`, running, or none if the catalog does not rotate.
    pub fn for_catalog(catalog: &Catalog) -> (r: Option<RotationScheduler>)
        ensures
            r is Some <==> (catalog.info().slider is Some && catalog.info().websites@.len() >= 2),
            r matches Some(t) ==> {
                &&& t.period() == catalog.info().slider->0
                &&& t.period() > 0
                &&& !t.halted()
            },
    {
        match catalog.interval_secs() {
            Some(t) => if catalog.len() >= 2 {
                Some(RotationScheduler { interval: t, stopped: false })
            } else {
                None
            },
            None => None,
        }
    }

    /// The period in seconds.
    pub fn interval_secs(&self) -> (r: u64)
        ensures
            r == self.period(),
    {
        self.interval
    }

    /// Whether the task should keep going.
    pub fn is_running(&self) -> (r: bool)
        ensures
            r == !self.halted(),
    {
        !self.stopped
    }

    /// Asks the task to stop; its next wake-up does nothing and it ends.
    pub fn stop(&mut self)
        ensures
            final(self).halted(),
            final(self).period() == old(self).period(),
    {
        self.stopped = true;
    }

    /// One wake-up of the task, after a period has passed: a rotation tick on
    /// `state` unless the task was stopped, in which case nothing changes and
    /// there is nothing to do.
    pub fn on_wake(&self, state: &mut AppState) -> (r: Option<Effects>)
        requires
            old(state).wf(),
        ensures
            final(state).wf(),
            self.halted() ==> r is None && final(state)@ == old(state)@,
            !self.halted() ==> {
                &&& r == Some(tick_effects(old(state)@))
                &&& final(state)@ == old(state)@.ticked()
            },
    {
        if self.stopped {
            None
        } else {
            Some(state.rotate_tick())
        }
    }
}

} // verus!
