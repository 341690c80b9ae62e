//! The logical timeline of the loop that drives the machine.
//!
//! Two activities recur at fixed intervals: the processor cycle, and the
//! synchronization of display and keypad. Each has a clock that gathers the
//! time that has passed; an activity is due once its clock holds a full
//! interval, and taking it removes one interval from the clock. How many
//! times an activity runs thus depends on the sum of the time that passed
//! and not on how that time was cut into pieces.

use crate::constants::{CYCLE_INTERVAL, SYNC_INTERVAL};
use vstd::prelude::*;

verus! {

/// The two clocks, in microseconds.
#[derive(Clone, Copy, Debug, PartialEq, Eq, Structural)]
pub struct Timeline {
    /// Time gathered towards processor cycles.
    pub cycle_clock: u64,
    /// Time gathered towards synchronizations.
    pub sync_clock: u64,
}

/// The sum of a clock and the time that passed, held at the largest value a
/// clock can take.
pub open spec fn gather(clock: u64, elapsed: u64) -> u64 {
    if clock + elapsed > u64::MAX {
        u64::MAX
    } else {
        (clock + elapsed) as u64
    }
}

impl Timeline {
    /// Both clocks after `elapsed` microseconds have passed.
    pub open spec fn advanced(self, elapsed: u64) -> Timeline {
        Timeline {
            cycle_clock: gather(self.cycle_clock, elapsed),
            sync_clock: gather(self.sync_clock, elapsed),
        }
    }

    /// Whether a processor cycle is due.
    pub open spec fn cycle_due(self) -> bool {
        self.cycle_clock >= CYCLE_INTERVAL
    }

    /// Whether a synchronization is due.
    pub open spec fn sync_due(self) -> bool {
        self.sync_clock >= SYNC_INTERVAL
    }

    /// The clocks after a due processor cycle, if there is one, was taken.
    pub open spec fn after_cycle(self) -> Timeline {
        if self.cycle_due() {
            Timeline { cycle_clock: (self.cycle_clock - CYCLE_INTERVAL) as u64, ..self }
        } else {
            self
        }
    }

    /// The clocks after a due synchronization, if there is one, was taken.
    pub open spec fn after_sync(self) -> Timeline {
        if self.sync_due() {
            Timeline { sync_clock: (self.sync_clock - SYNC_INTERVAL) as u64, ..self }
        } else {
            self
        }
    }

    /// The number of processor cycles that are due.
    pub open spec fn cycles_due(self) -> int {
        self.cycle_clock as int / CYCLE_INTERVAL as int
    }

    /// The number of synchronizations that are due.
    pub open spec fn syncs_due(self) -> int {
        self.sync_clock as int / SYNC_INTERVAL as int
    }

    /// The time until the next activity is due: zero if one is due now.
    pub open spec fn idle(self) -> int {
        if self.cycle_due() || self.sync_due() {
            0
        } else if CYCLE_INTERVAL - self.cycle_clock <= SYNC_INTERVAL - self.sync_clock {
            CYCLE_INTERVAL - self.cycle_clock
        } else {
            SYNC_INTERVAL - self.sync_clock
        }
    }

    /// A timeline on which no time has passed.
    pub fn new() -> (timeline: Timeline)
        ensures
            timeline == (Timeline { cycle_clock: 0, sync_clock: 0 }),
    {
        Timeline { cycle_clock: 0, sync_clock: 0 }
    }

    /// Lets `elapsed` microseconds pass on both clocks.
    pub fn advance(&mut self, elapsed: u64)
        ensures
            *final(self) == old(self).advanced(elapsed),
    {
        self.cycle_clock = self.cycle_clock.saturating_add(elapsed);
        self.sync_clock = self.sync_clock.saturating_add(elapsed);
    }

    /// Takes one processor cycle from the timeline if one is due, and says
    /// whether one was.
    pub fn take_cycle(&mut self) -> (due: bool)
        ensures
            due == old(self).cycle_due(),
            *final(self) == old(self).after_cycle(),
    {
        if self.cycle_clock >= CYCLE_INTERVAL {
            self.cycle_clock = self.cycle_clock - CYCLE_INTERVAL;
            true
        } else {
            false
        }
    }

    /// Takes one synchronization from the timeline if one is due, and says
    /// whether one was.
    pub fn take_sync(&mut self) -> (due: bool)
        ensures
            due == old(self).sync_due(),
            *final(self) == old(self).after_sync(),
    {
        if self.sync_clock >= SYNC_INTERVAL {
            self.sync_clock = self.sync_clock - SYNC_INTERVAL;
            true
        } else {
            false
        }
    }

    /// The microseconds to wait until the next activity is due.
    pub fn idle_time(&self) -> (wait: u64)
        ensures
            wait == self.idle(),
    {
        if self.cycle_clock >= CYCLE_INTERVAL || self.sync_clock >= SYNC_INTERVAL {
            0
        } else {
            let to_cycle: u64 = CYCLE_INTERVAL - self.cycle_clock;
            let to_sync: u64 = SYNC_INTERVAL - self.sync_clock;
            if to_cycle <= to_sync {
                to_cycle
            } else {
                to_sync
            }
        }
    }

    /// An activity is due as long as its clock holds a full interval, and
    /// taking it lowers the number of times it is due by one: a clock that
    /// gathered `t` microseconds from zero yields `t / interval` runs of the
    /// activity, however often the timeline is asked.
    pub proof fn lemma_due_counts(self)
        ensures
            self.cycle_due() <==> self.cycles_due() > 0,
            self.sync_due() <==> self.syncs_due() > 0,
            self.cycle_due() ==> self.after_cycle().cycles_due() == self.cycles_due() - 1,
            self.sync_due() ==> self.after_sync().syncs_due() == self.syncs_due() - 1,
            self.after_cycle().syncs_due() == self.syncs_due(),
            self.after_sync().cycles_due() == self.cycles_due(),
    {
    }

    /// Time gathered in two pieces is the time gathered at once, as long as
    /// the clock stays below the largest value it can take.
    pub proof fn lemma_gather_in_pieces(clock: u64, first: u64, second: u64)
        requires
            clock + first + second <= u64::MAX,
        ensures
            gather(gather(clock, first), second) == clock + first + second,
    {
    }
}

} // verus!
