//! Pure timing state of a capture session.
//!
//! All durations are whole milliseconds measured from the start of the session.

use vstd::prelude::*;

verus! {

/// How often to capture and for how long the session lasts, in milliseconds.
#[derive(Debug, Clone, Copy, PartialEq, Eq)]
pub struct CaptureSchedule {
    pub every: u64,
    pub run_for: u64,
}

impl CaptureSchedule {
    /// Both the interval and the total duration are strictly positive.
    pub open spec fn is_valid(&self) -> bool {
        self.every > 0 && self.run_for > 0
    }

    /// Rejects a zero interval first, then a zero duration.
    pub fn validate(&self) -> (r: Result<(), String>)
        ensures
            r.is_ok() <==> self.is_valid(),
            self.every == 0 ==> r->Err_0@ == "interval must be greater than 0"@,
            self.every > 0 && self.run_for == 0 ==> r->Err_0@
                == "duration must be greater than 0"@,
    {
        if self.every == 0 {
            return Err(String::from_str("interval must be greater than 0"));
        }
        if self.run_for == 0 {
            return Err(String::from_str("duration must be greater than 0"));
        }
        Ok(())
    }
}

/// The abstract state of a [`Scheduler`].
pub struct SchedulerState {
    pub every: u64,
    pub run_for: u64,
    pub next_due: u64,
}

/// The session has run its full length at `elapsed`.
pub open spec fn finished_at(s: SchedulerState, elapsed: u64) -> bool {
    elapsed >= s.run_for
}

/// A tick is due at `elapsed`.
pub open spec fn due_at(s: SchedulerState, elapsed: u64) -> bool {
    elapsed >= s.next_due && !finished_at(s, elapsed)
}

/// The state after one attempted tick: `next_due` advances by one interval.
pub open spec fn advanced(s: SchedulerState) -> SchedulerState {
    SchedulerState {
        next_due: if s.next_due + s.every <= u64::MAX {
            (s.next_due + s.every) as u64
        } else {
            u64::MAX
        },
        ..s
    }
}

/// The state after realigning to `elapsed`: no missed ticks are replayed.
pub open spec fn aligned(s: SchedulerState, elapsed: u64) -> SchedulerState {
    if finished_at(s, elapsed) {
        s
    } else {
        SchedulerState { next_due: elapsed, ..s }
    }
}

/// Decides when ticks are due; ticks are anchored to the session start.
#[derive(Debug, Clone)]
pub struct Scheduler {
    every: u64,
    run_for: u64,
    next_due: u64,
}

impl View for Scheduler {
    type V = SchedulerState;

    closed spec fn view(&self) -> SchedulerState {
        SchedulerState { every: self.every, run_for: self.run_for, next_due: self.next_due }
    }
}

impl Scheduler {
    /// Interval and duration are positive.
    pub open spec fn wf(&self) -> bool {
        self@.every > 0 && self@.run_for > 0
    }

    /// A scheduler whose first tick is due immediately.
    pub fn new(schedule: CaptureSchedule) -> (r: Result<Scheduler, String>)
        ensures
            r.is_ok() <==> schedule.is_valid(),
            r is Ok ==> r->Ok_0.wf() && r->Ok_0@ == (SchedulerState {
                every: schedule.every,
                run_for: schedule.run_for,
                next_due: 0,
            }),
            schedule.every == 0 ==> r->Err_0@ == "interval must be greater than 0"@,
            schedule.every > 0 && schedule.run_for == 0 ==> r->Err_0@
                == "duration must be greater than 0"@,
    {
        match schedule.validate() {
            Ok(()) => Ok(Scheduler { every: schedule.every, run_for: schedule.run_for, next_due: 0 }),
            Err(e) => Err(e),
        }
    }

    /// True iff `elapsed >= run_for`.
    pub fn is_finished(&self, elapsed: u64) -> (r: bool)
        ensures
            r == finished_at(self@, elapsed),
    {
        elapsed >= self.run_for
    }

    /// True iff a tick is due and the session has not finished.
    pub fn should_capture(&self, elapsed: u64) -> (r: bool)
        ensures
            r == due_at(self@, elapsed),
    {
        elapsed >= self.next_due && !self.is_finished(elapsed)
    }

    /// `None` once finished, else the wait until the next tick (zero if overdue).
    pub fn time_until_next_capture(&self, elapsed: u64) -> (r: Option<u64>)
        ensures
            finished_at(self@, elapsed) ==> r is None,
            !finished_at(self@, elapsed) ==> r == Some(
                if self@.next_due >= elapsed {
                    (self@.next_due - elapsed) as u64
                } else {
                    0u64
                },
            ),
    {
        if self.is_finished(elapsed) {
            return None;
        }
        Some(self.next_due.saturating_sub(elapsed))
    }

    /// Advances `next_due` by one interval (saturating).
    pub fn mark_captured(&mut self)
        ensures
            final(self)@ == advanced(old(self)@),
    {
        self.next_due = self.next_due.saturating_add(self.every);
    }

    /// Moves the next tick to `elapsed` unless the session has finished.
    ///
    /// Used once after a pause ends, so that ticks missed while paused are not
    /// replayed as a burst.
    pub fn align_next_due(&mut self, elapsed: u64)
        ensures
            final(self)@ == aligned(old(self)@, elapsed),
    {
        if !self.is_finished(elapsed) {
            self.next_due = elapsed;
        }
    }
}

} // verus!
