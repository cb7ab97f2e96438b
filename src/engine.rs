//! The capture session engine as a state machine.
//!
//! The session is driven from outside: the driver reports the elapsed time and
//! the commands it received, performs the step that `poll` asks for (wait,
//! consult the privacy guard, capture) and reports the outcome. Every
//! externally observable transition is appended to an event log.

use vstd::prelude::*;
use vstd::arithmetic::div_mod::*;
use vstd::arithmetic::mul::*;
use crate::pause::{PauseReason, PauseState, PauseView, effectively_paused};
use crate::scheduler::{
    CaptureSchedule, Scheduler, SchedulerState, advanced, aligned, due_at, finished_at,
};

verus! {

/// A control signal sent to a running session.
#[derive(Debug, Clone, Copy, PartialEq, Eq, Structural)]
pub enum ControlCommand {
    UserPause,
    UserResume,
    AutoPause(PauseReason),
    AutoResume(PauseReason),
    Stop,
}

/// One externally observable transition of a session.
#[derive(Debug, Clone, PartialEq, Eq)]
pub enum EngineEvent {
    Started,
    Paused,
    Resumed,
    AutoPaused { reason: PauseReason },
    AutoResumed { reason: PauseReason },
    CaptureSkipped { tick_index: u64, reason: String },
    CaptureSucceeded { capture_index: u64, path: String },
    CaptureFailed { capture_index: u64, message: String },
    DiskCleanup { deleted_files: usize, freed_bytes: u64, remaining_bytes: u64 },
    BudgetExceeded { bytes_written: u64, limit_bytes: u64 },
    Stopped,
    Completed { total_ticks: u64, captures: u64, skipped: u64, failures: u64 },
}

/// Settings of one session.
#[derive(Debug, Clone)]
pub struct EngineConfig {
    pub output_dir: String,
    pub filename_prefix: String,
    pub schedule: CaptureSchedule,
    pub min_free_disk_bytes: u64,
    /// Only every N-th due tick becomes a capture attempt; 0 counts as 1.
    pub capture_stride: u64,
    /// Optional cap on the bytes written by the session's captures.
    pub max_session_bytes: Option<u64>,
}

/// One gibibyte.
pub const DEFAULT_MIN_FREE_DISK_BYTES: u64 = 1073741824;

/// Longest wait between two looks at the command queue, in milliseconds.
pub const MAX_IDLE_WAIT_MS: u64 = 200;

/// Counters of a session.
#[derive(Debug, Clone, Copy, Default, PartialEq, Eq, Structural)]
pub struct EngineSummary {
    pub total_ticks: u64,
    pub captures: u64,
    pub skipped: u64,
    pub failures: u64,
}

/// What the driver is asked to do next.
#[derive(Debug, Clone, Copy, PartialEq, Eq, Structural)]
pub enum SessionStep {
    /// The session is over; its summary is final.
    Ended,
    /// Paused: block until the next command arrives.
    AwaitCommand,
    /// A due tick was passed over by the stride; poll again.
    Throttled,
    /// A tick is being attempted: consult the privacy guard, then report.
    Tick { tick_index: u64 },
    /// Nothing is due: wait this many milliseconds, or less if a command comes.
    Idle { wait_ms: u64 },
}

/// Adds one, saturating.
pub open spec fn incr(x: u64) -> u64 {
    if x < u64::MAX {
        (x + 1) as u64
    } else {
        x
    }
}

/// Adds, saturating.
pub open spec fn sat_add(a: u64, b: u64) -> u64 {
    if a + b <= u64::MAX {
        (a + b) as u64
    } else {
        u64::MAX
    }
}

/// The event that closes a session with the given counters.
pub open spec fn completed_event(s: EngineSummary) -> EngineEvent {
    EngineEvent::Completed {
        total_ticks: s.total_ticks,
        captures: s.captures,
        skipped: s.skipped,
        failures: s.failures,
    }
}

/// The pause state after a command.
pub open spec fn pause_after(p: PauseView, cmd: ControlCommand) -> PauseView {
    match cmd {
        ControlCommand::UserPause => PauseView { user_paused: true, ..p },
        ControlCommand::UserResume => PauseView { user_paused: false, ..p },
        ControlCommand::AutoPause(r) => PauseView { auto_pauses: p.auto_pauses.insert(r), ..p },
        ControlCommand::AutoResume(r) => PauseView { auto_pauses: p.auto_pauses.remove(r), ..p },
        ControlCommand::Stop => p,
    }
}

/// The event a command produces: only on an edge of the state, and always for `Stop`.
pub open spec fn command_event(p: PauseView, cmd: ControlCommand) -> Option<EngineEvent> {
    match cmd {
        ControlCommand::UserPause => if !p.user_paused {
            Some(EngineEvent::Paused)
        } else {
            None
        },
        ControlCommand::UserResume => if p.user_paused {
            Some(EngineEvent::Resumed)
        } else {
            None
        },
        ControlCommand::AutoPause(r) => if !p.auto_pauses.contains(r) {
            Some(EngineEvent::AutoPaused { reason: r })
        } else {
            None
        },
        ControlCommand::AutoResume(r) => if p.auto_pauses.contains(r) {
            Some(EngineEvent::AutoResumed { reason: r })
        } else {
            None
        },
        ControlCommand::Stop => Some(EngineEvent::Stopped),
    }
}

/// The sequence holding the event, if any.
pub open spec fn opt_seq(e: Option<EngineEvent>) -> Seq<EngineEvent> {
    match e {
        Some(x) => seq![x],
        None => seq![],
    }
}

/// Applies one command to the pause state.
///
/// Returns the event to report, if the command changed something (or is
/// `Stop`), and whether the command ends the session.
pub fn handle_command(cmd: ControlCommand, pause: &mut PauseState) -> (r: (
    Option<EngineEvent>,
    bool,
))
    requires
        old(pause).wf(),
    ensures
        final(pause).wf(),
        final(pause)@ == pause_after(old(pause)@, cmd),
        r.0 == command_event(old(pause)@, cmd),
        r.1 == (cmd is Stop),
{
    match cmd {
        ControlCommand::UserPause => {
            if pause.user_pause() {
                (Some(EngineEvent::Paused), false)
            } else {
                (None, false)
            }
        },
        ControlCommand::UserResume => {
            if pause.user_resume() {
                (Some(EngineEvent::Resumed), false)
            } else {
                (None, false)
            }
        },
        ControlCommand::AutoPause(reason) => {
            if pause.auto_pause(reason) {
                (Some(EngineEvent::AutoPaused { reason }), false)
            } else {
                (None, false)
            }
        },
        ControlCommand::AutoResume(reason) => {
            if pause.auto_resume(reason) {
                (Some(EngineEvent::AutoResumed { reason }), false)
            } else {
                (None, false)
            }
        },
        ControlCommand::Stop => (Some(EngineEvent::Stopped), true),
    }
}

/// The abstract state of a [`CaptureSession`].
pub struct SessionView {
    pub sched: SchedulerState,
    pub pause: PauseView,
    pub summary: EngineSummary,
    /// Due ticks seen so far, throttled ones included.
    pub schedule_ticks: u64,
    pub stride: u64,
    pub max_session_bytes: Option<u64>,
    pub bytes_written: u64,
    /// A tick was handed out by `poll` and its outcome is not yet reported.
    pub in_tick: bool,
    pub done: bool,
}

/// Index of the next capture attempt: one more than all attempts so far.
pub open spec fn next_capture_index(s: EngineSummary) -> u64 {
    incr(sat_add(s.captures, s.failures))
}

/// The session state just after it starts.
pub open spec fn initial_view(config: EngineConfig) -> SessionView {
    SessionView {
        sched: SchedulerState {
            every: config.schedule.every,
            run_for: config.schedule.run_for,
            next_due: 0,
        },
        pause: PauseView { user_paused: false, auto_pauses: Set::empty() },
        summary: EngineSummary { total_ticks: 0, captures: 0, skipped: 0, failures: 0 },
        schedule_ticks: 0,
        stride: if config.capture_stride == 0 {
            1
        } else {
            config.capture_stride
        },
        max_session_bytes: config.max_session_bytes,
        bytes_written: 0,
        in_tick: false,
        done: false,
    }
}

/// State after a command at `elapsed`; a finished session ignores commands.
pub open spec fn after_command(v: SessionView, cmd: ControlCommand, elapsed: u64) -> SessionView {
    if v.done {
        v
    } else {
        let p = pause_after(v.pause, cmd);
        SessionView {
            pause: p,
            sched: if effectively_paused(v.pause) && !effectively_paused(p) {
                aligned(v.sched, elapsed)
            } else {
                v.sched
            },
            done: cmd is Stop,
            ..v
        }
    }
}

/// Events of a command: its own event, then `Completed` if it was `Stop`.
pub open spec fn command_events(v: SessionView, cmd: ControlCommand) -> Seq<EngineEvent> {
    if v.done {
        seq![]
    } else if cmd is Stop {
        seq![EngineEvent::Stopped, completed_event(v.summary)]
    } else {
        opt_seq(command_event(v.pause, cmd))
    }
}

/// Whether the `n`-th due tick (counted from one) is attempted under `stride`.
pub open spec fn stride_selects(n: u64, stride: u64) -> bool {
    stride <= 1 || (n - 1) % (stride as int) == 0
}

/// State after a poll at `elapsed`.
pub open spec fn after_poll(v: SessionView, elapsed: u64) -> SessionView {
    if v.done || v.in_tick || effectively_paused(v.pause) {
        v
    } else if finished_at(v.sched, elapsed) {
        SessionView { done: true, ..v }
    } else if due_at(v.sched, elapsed) {
        let t = incr(v.schedule_ticks);
        if stride_selects(t, v.stride) {
            SessionView {
                schedule_ticks: t,
                summary: EngineSummary { total_ticks: incr(v.summary.total_ticks), ..v.summary },
                in_tick: true,
                ..v
            }
        } else {
            SessionView { schedule_ticks: t, sched: advanced(v.sched), ..v }
        }
    } else {
        v
    }
}

/// What a poll at `elapsed` asks the driver to do.
pub open spec fn poll_step(v: SessionView, elapsed: u64) -> SessionStep {
    if v.done {
        SessionStep::Ended
    } else if v.in_tick {
        SessionStep::Tick { tick_index: v.summary.total_ticks }
    } else if effectively_paused(v.pause) {
        SessionStep::AwaitCommand
    } else if finished_at(v.sched, elapsed) {
        SessionStep::Ended
    } else if due_at(v.sched, elapsed) {
        if stride_selects(incr(v.schedule_ticks), v.stride) {
            SessionStep::Tick { tick_index: incr(v.summary.total_ticks) }
        } else {
            SessionStep::Throttled
        }
    } else {
        SessionStep::Idle {
            wait_ms: if v.sched.next_due - elapsed <= MAX_IDLE_WAIT_MS {
                (v.sched.next_due - elapsed) as u64
            } else {
                MAX_IDLE_WAIT_MS
            },
        }
    }
}

/// Events of a poll: `Completed` when the schedule has just run out.
pub open spec fn poll_events(v: SessionView, elapsed: u64) -> Seq<EngineEvent> {
    if !v.done && !v.in_tick && !effectively_paused(v.pause) && finished_at(v.sched, elapsed) {
        seq![completed_event(v.summary)]
    } else {
        seq![]
    }
}

/// State after the privacy guard declined the pending tick.
pub open spec fn after_skip(v: SessionView) -> SessionView {
    if !v.in_tick || v.done {
        v
    } else {
        SessionView {
            summary: EngineSummary { skipped: incr(v.summary.skipped), ..v.summary },
            sched: advanced(v.sched),
            in_tick: false,
            ..v
        }
    }
}

/// Events of a skipped tick.
pub open spec fn skip_events(v: SessionView, reason: String) -> Seq<EngineEvent> {
    if !v.in_tick || v.done {
        seq![]
    } else {
        seq![EngineEvent::CaptureSkipped { tick_index: v.summary.total_ticks, reason }]
    }
}

/// The counters after a successful capture.
pub open spec fn summary_after_success(s: EngineSummary) -> EngineSummary {
    EngineSummary { captures: incr(s.captures), ..s }
}

/// The byte budget is configured and the bytes written exceed it.
pub open spec fn over_budget(max_session_bytes: Option<u64>, bytes_written: u64) -> bool {
    match max_session_bytes {
        Some(limit) => bytes_written > limit,
        None => false,
    }
}

/// State after the pending tick produced an artifact of `bytes` bytes.
pub open spec fn after_success(v: SessionView, bytes: u64) -> SessionView {
    if !v.in_tick || v.done {
        v
    } else {
        let written = sat_add(v.bytes_written, bytes);
        let over = over_budget(v.max_session_bytes, written);
        SessionView {
            summary: summary_after_success(v.summary),
            bytes_written: written,
            sched: if over {
                v.sched
            } else {
                advanced(v.sched)
            },
            in_tick: false,
            done: over,
            ..v
        }
    }
}

/// Events of a successful capture; past the budget the session also ends.
pub open spec fn success_events(v: SessionView, path: String, bytes: u64) -> Seq<EngineEvent> {
    if !v.in_tick || v.done {
        seq![]
    } else {
        let written = sat_add(v.bytes_written, bytes);
        let ok = EngineEvent::CaptureSucceeded {
            capture_index: next_capture_index(v.summary),
            path,
        };
        if over_budget(v.max_session_bytes, written) {
            seq![
                ok,
                EngineEvent::BudgetExceeded {
                    bytes_written: written,
                    limit_bytes: v.max_session_bytes->Some_0,
                },
                completed_event(summary_after_success(v.summary)),
            ]
        } else {
            seq![ok]
        }
    }
}

/// State after the pending capture attempt failed.
pub open spec fn after_failure(v: SessionView) -> SessionView {
    if !v.in_tick || v.done {
        v
    } else {
        SessionView {
            summary: EngineSummary { failures: incr(v.summary.failures), ..v.summary },
            sched: advanced(v.sched),
            in_tick: false,
            ..v
        }
    }
}

/// Events of a failed capture attempt.
pub open spec fn failure_events(v: SessionView, message: String) -> Seq<EngineEvent> {
    if !v.in_tick || v.done {
        seq![]
    } else {
        seq![
            EngineEvent::CaptureFailed { capture_index: next_capture_index(v.summary), message },
        ]
    }
}

/// State after the command queue closed: nothing could resume the session, so
/// every pause is lifted and the schedule realigned.
pub open spec fn after_forced_resume(v: SessionView, elapsed: u64) -> SessionView {
    if v.done {
        v
    } else {
        SessionView {
            pause: PauseView { user_paused: false, auto_pauses: Set::empty() },
            sched: aligned(v.sched, elapsed),
            ..v
        }
    }
}

/// One capture session: scheduler, pause state, counters and byte budget.
#[derive(Debug)]
pub struct CaptureSession {
    scheduler: Scheduler,
    pause: PauseState,
    summary: EngineSummary,
    schedule_ticks: u64,
    capture_stride: u64,
    max_session_bytes: Option<u64>,
    bytes_written: u64,
    in_tick: bool,
    done: bool,
}

impl View for CaptureSession {
    type V = SessionView;

    closed spec fn view(&self) -> SessionView {
        SessionView {
            sched: self.scheduler@,
            pause: self.pause@,
            summary: self.summary,
            schedule_ticks: self.schedule_ticks,
            stride: self.capture_stride,
            max_session_bytes: self.max_session_bytes,
            bytes_written: self.bytes_written,
            in_tick: self.in_tick,
            done: self.done,
        }
    }
}

fn incr_u64(x: u64) -> (r: u64)
    ensures
        r == incr(x),
{
    x.saturating_add(1)
}

impl CaptureSession {
    /// The parts are well formed and the stride is at least one.
    pub closed spec fn wf(&self) -> bool {
        self.scheduler.wf() && self.pause.wf() && self.capture_stride >= 1
    }

    /// Starts a session; fails iff the schedule is invalid. Reports `Started`.
    pub fn new(config: &EngineConfig, events: &mut Vec<EngineEvent>) -> (r: Result<
        CaptureSession,
        String,
    >)
        ensures
            r.is_ok() <==> config.schedule.is_valid(),
            r is Ok ==> r->Ok_0.wf() && r->Ok_0@ == initial_view(*config),
            r is Ok ==> final(events)@ == old(events)@.push(EngineEvent::Started),
            r is Err ==> final(events)@ == old(events)@,
            config.schedule.every == 0 ==> r->Err_0@ == "interval must be greater than 0"@,
            config.schedule.every > 0 && config.schedule.run_for == 0 ==> r->Err_0@
                == "duration must be greater than 0"@,
    {
        let scheduler = match Scheduler::new(config.schedule) {
            Ok(s) => s,
            Err(e) => return Err(e),
        };
        let stride = if config.capture_stride == 0 {
            1
        } else {
            config.capture_stride
        };
        let s = CaptureSession {
            scheduler,
            pause: PauseState::new(),
            summary: EngineSummary { total_ticks: 0, captures: 0, skipped: 0, failures: 0 },
            schedule_ticks: 0,
            capture_stride: stride,
            max_session_bytes: config.max_session_bytes,
            bytes_written: 0,
            in_tick: false,
            done: false,
        };
        events.push(EngineEvent::Started);
        Ok(s)
    }

    /// The counters so far.
    pub fn summary(&self) -> (r: EngineSummary)
        ensures
            r == self@.summary,
    {
        self.summary
    }

    /// The session has ended (stopped, completed or over budget).
    pub fn is_done(&self) -> (r: bool)
        ensures
            r == self@.done,
    {
        self.done
    }

    /// Effectively paused.
    pub fn is_paused(&self) -> (r: bool)
        ensures
            r == effectively_paused(self@.pause),
    {
        self.pause.is_paused()
    }

    /// Index that the next capture attempt will carry.
    pub fn next_capture_index(&self) -> (r: u64)
        ensures
            r == next_capture_index(self@.summary),
    {
        incr_u64(self.summary.captures.saturating_add(self.summary.failures))
    }

    fn completed(&self) -> (e: EngineEvent)
        ensures
            e == completed_event(self@.summary),
    {
        EngineEvent::Completed {
            total_ticks: self.summary.total_ticks,
            captures: self.summary.captures,
            skipped: self.summary.skipped,
            failures: self.summary.failures,
        }
    }

    /// Applies a command received at `elapsed`.
    ///
    /// Leaving the paused state realigns the schedule; `Stop` ends the session.
    pub fn apply_command(
        &mut self,
        cmd: ControlCommand,
        elapsed: u64,
        events: &mut Vec<EngineEvent>,
    )
        requires
            old(self).wf(),
        ensures
            final(self).wf(),
            final(self)@ == after_command(old(self)@, cmd, elapsed),
            final(events)@ == old(events)@ + command_events(old(self)@, cmd),
    {
        if self.done {
            assert(events@ =~= events@ + seq![]);
            return;
        }
        let was_paused = self.pause.is_paused();
        let (event, stop) = handle_command(cmd, &mut self.pause);
        if was_paused && !self.pause.is_paused() {
            self.scheduler.align_next_due(elapsed);
        }
        let ghost before = events@;
        match event {
            Some(e) => events.push(e),
            None => {},
        }
        if stop {
            self.done = true;
            let c = self.completed();
            events.push(c);
        }
        assert(events@ =~= before + command_events(old(self)@, cmd));
    }

    /// Lifts every pause after the command queue closed, realigning the schedule.
    pub fn force_resume(&mut self, elapsed: u64)
        requires
            old(self).wf(),
        ensures
            final(self).wf(),
            final(self)@ == after_forced_resume(old(self)@, elapsed),
    {
        if self.done {
            return;
        }
        self.pause.clear();
        self.scheduler.align_next_due(elapsed);
    }

    /// Decides the next step at `elapsed`.
    pub fn poll(&mut self, elapsed: u64, events: &mut Vec<EngineEvent>) -> (r: SessionStep)
        requires
            old(self).wf(),
        ensures
            final(self).wf(),
            final(self)@ == after_poll(old(self)@, elapsed),
            r == poll_step(old(self)@, elapsed),
            final(events)@ == old(events)@ + poll_events(old(self)@, elapsed),
    {
        assert(events@ =~= events@ + seq![]);
        if self.done {
            return SessionStep::Ended;
        }
        if self.in_tick {
            return SessionStep::Tick { tick_index: self.summary.total_ticks };
        }
        if self.pause.is_paused() {
            return SessionStep::AwaitCommand;
        }
        if self.scheduler.is_finished(elapsed) {
            self.done = true;
            let c = self.completed();
            events.push(c);
            return SessionStep::Ended;
        }
        if self.scheduler.should_capture(elapsed) {
            let t = incr_u64(self.schedule_ticks);
            self.schedule_ticks = t;
            if self.capture_stride > 1 && (t - 1) % self.capture_stride != 0 {
                self.scheduler.mark_captured();
                return SessionStep::Throttled;
            }
            self.summary.total_ticks = incr_u64(self.summary.total_ticks);
            self.in_tick = true;
            return SessionStep::Tick { tick_index: self.summary.total_ticks };
        }
        let wait = match self.scheduler.time_until_next_capture(elapsed) {
            Some(d) => d,
            None => 0,
        };
        if wait <= MAX_IDLE_WAIT_MS {
            SessionStep::Idle { wait_ms: wait }
        } else {
            SessionStep::Idle { wait_ms: MAX_IDLE_WAIT_MS }
        }
    }

    /// Reports that the privacy guard declined the pending tick.
    pub fn record_skip(&mut self, reason: String, events: &mut Vec<EngineEvent>)
        requires
            old(self).wf(),
        ensures
            final(self).wf(),
            final(self)@ == after_skip(old(self)@),
            final(events)@ == old(events)@ + skip_events(old(self)@, reason),
    {
        if !self.in_tick || self.done {
            assert(events@ =~= events@ + seq![]);
            return;
        }
        self.summary.skipped = incr_u64(self.summary.skipped);
        let ghost before = events@;
        events.push(EngineEvent::CaptureSkipped { tick_index: self.summary.total_ticks, reason });
        self.scheduler.mark_captured();
        self.in_tick = false;
        assert(events@ =~= before + skip_events(old(self)@, reason));
    }

    /// Reports that the pending tick wrote an artifact of `bytes` bytes at `path`.
    pub fn record_success(&mut self, path: String, bytes: u64, events: &mut Vec<EngineEvent>)
        requires
            old(self).wf(),
        ensures
            final(self).wf(),
            final(self)@ == after_success(old(self)@, bytes),
            final(events)@ == old(events)@ + success_events(old(self)@, path, bytes),
    {
        if !self.in_tick || self.done {
            assert(events@ =~= events@ + seq![]);
            return;
        }
        let ghost before = events@;
        let capture_index = self.next_capture_index();
        self.summary.captures = incr_u64(self.summary.captures);
        self.bytes_written = self.bytes_written.saturating_add(bytes);
        self.in_tick = false;
        events.push(EngineEvent::CaptureSucceeded { capture_index, path });
        match self.max_session_bytes {
            Some(limit) => {
                if self.bytes_written > limit {
                    events.push(
                        EngineEvent::BudgetExceeded {
                            bytes_written: self.bytes_written,
                            limit_bytes: limit,
                        },
                    );
                    let c = self.completed();
                    events.push(c);
                    self.done = true;
                    assert(events@ =~= before + success_events(old(self)@, path, bytes));
                    return;
                }
            },
            None => {},
        }
        self.scheduler.mark_captured();
        assert(events@ =~= before + success_events(old(self)@, path, bytes));
    }

    /// Reports that the pending capture attempt failed with `message`.
    pub fn record_failure(&mut self, message: String, events: &mut Vec<EngineEvent>)
        requires
            old(self).wf(),
        ensures
            final(self).wf(),
            final(self)@ == after_failure(old(self)@),
            final(events)@ == old(events)@ + failure_events(old(self)@, message),
    {
        if !self.in_tick || self.done {
            assert(events@ =~= events@ + seq![]);
            return;
        }
        let ghost before = events@;
        let capture_index = self.next_capture_index();
        self.summary.failures = incr_u64(self.summary.failures);
        events.push(EngineEvent::CaptureFailed { capture_index, message });
        self.scheduler.mark_captured();
        self.in_tick = false;
        assert(events@ =~= before + failure_events(old(self)@, message));
    }
}

/// While paused, a session attempts nothing. A command that lifts the last
/// pause (user flag or automatic reason) realigns the schedule to the moment
/// of resuming: at most the one tick due then is attempted, and once it is
/// handled, whatever its outcome, nothing is attempted again for a full
/// interval, however long the pause lasted.
pub proof fn lemma_resume_without_burst(
    v: SessionView,
    cmd: ControlCommand,
    t: u64,
    fate: TickFate,
    paused_at: u64,
    e: u64,
)
    requires
        !v.done,
        !v.in_tick,
        effectively_paused(v.pause),
        !effectively_paused(pause_after(v.pause, cmd)),
        v.sched.every > 0,
        t < v.sched.run_for,
        t <= e < t + v.sched.every,
    ensures
        poll_step(v, paused_at) is AwaitCommand,
        after_poll(v, paused_at) == v,
        ({
            let w = after_command(v, cmd, t);
            let w2 = settle(after_poll(w, t), fate);
            &&& w.sched.next_due == t
            &&& (poll_step(w, t) is Tick || poll_step(w, t) is Throttled)
            &&& !(poll_step(w2, e) is Tick)
            &&& !(poll_step(w2, e) is Throttled)
        }),
{
}

/// Once the byte budget is exceeded the session reports `BudgetExceeded`,
/// then `Completed`, and nothing it is told afterwards starts a capture.
pub proof fn lemma_budget_ends_session(
    v: SessionView,
    bytes: u64,
    e: u64,
    later_bytes: u64,
    path: String,
)
    requires
        v.in_tick,
        !v.done,
        over_budget(v.max_session_bytes, sat_add(v.bytes_written, bytes)),
    ensures
        ({
            let w = after_success(v, bytes);
            let ev = success_events(v, path, bytes);
            &&& w.done
            &&& ev.len() == 3
            &&& ev[1] == (EngineEvent::BudgetExceeded {
                bytes_written: w.bytes_written,
                limit_bytes: v.max_session_bytes->Some_0,
            })
            &&& ev[2] == completed_event(w.summary)
            &&& poll_step(w, e) is Ended
            &&& after_poll(w, e) == w
            &&& after_success(w, later_bytes) == w
        }),
{
}

/// `Stop` ends the session with the counters it had before the command;
/// a repeated `UserPause` or `AutoPause` of the same reason reports nothing.
pub proof fn lemma_stop_and_idempotent_pause(
    v: SessionView,
    t: u64,
    reason: PauseReason,
    e: u64,
)
    requires
        !v.done,
    ensures
        ({
            let s = after_command(v, ControlCommand::Stop, t);
            &&& s.done
            &&& s.summary == v.summary
            &&& command_events(v, ControlCommand::Stop) == seq![
                EngineEvent::Stopped,
                completed_event(v.summary),
            ]
            &&& poll_step(s, e) is Ended
        }),
        command_events(
            after_command(v, ControlCommand::UserPause, t),
            ControlCommand::UserPause,
        ) == Seq::<EngineEvent>::empty(),
        command_events(
            after_command(v, ControlCommand::AutoPause(reason), t),
            ControlCommand::AutoPause(reason),
        ) == Seq::<EngineEvent>::empty(),
{
    assert(command_events(
        after_command(v, ControlCommand::UserPause, t),
        ControlCommand::UserPause,
    ) =~= Seq::<EngineEvent>::empty());
    assert(after_command(v, ControlCommand::AutoPause(reason), t).pause.auto_pauses.contains(
        reason,
    ));
    assert(command_events(
        after_command(v, ControlCommand::AutoPause(reason), t),
        ControlCommand::AutoPause(reason),
    ) =~= Seq::<EngineEvent>::empty());
}

/// Every counter of `b` is at least the one of `a`.
pub open spec fn counters_grow(a: EngineSummary, b: EngineSummary) -> bool {
    a.total_ticks <= b.total_ticks && a.captures <= b.captures && a.skipped <= b.skipped
        && a.failures <= b.failures
}

/// The counters of a session never decrease, and once the session has ended
/// nothing changes it any more.
pub proof fn lemma_counters_monotone_and_frozen(
    v: SessionView,
    cmd: ControlCommand,
    elapsed: u64,
    bytes: u64,
    path: String,
    reason: String,
    message: String,
)
    ensures
        counters_grow(v.summary, after_command(v, cmd, elapsed).summary),
        counters_grow(v.summary, after_poll(v, elapsed).summary),
        counters_grow(v.summary, after_skip(v).summary),
        counters_grow(v.summary, after_success(v, bytes).summary),
        counters_grow(v.summary, after_failure(v).summary),
        counters_grow(v.summary, after_forced_resume(v, elapsed).summary),
        v.done ==> after_command(v, cmd, elapsed) == v && after_poll(v, elapsed) == v
            && after_skip(v) == v && after_success(v, bytes) == v && after_failure(v) == v
            && after_forced_resume(v, elapsed) == v,
        v.done ==> command_events(v, cmd) == Seq::<EngineEvent>::empty() && poll_events(
            v,
            elapsed,
        ) == Seq::<EngineEvent>::empty() && skip_events(v, reason) == Seq::<EngineEvent>::empty()
            && success_events(v, path, bytes) == Seq::<EngineEvent>::empty() && failure_events(
            v,
            message,
        ) == Seq::<EngineEvent>::empty(),
{
}

/// `a / b` rounded up; zero when `b` is zero.
pub open spec fn ceil_div(a: nat, b: nat) -> nat {
    if b == 0 {
        0
    } else {
        ((a + b - 1) as int / b as int) as nat
    }
}

/// How the driver reports an attempted tick.
pub enum TickFate {
    /// Captured, writing this many bytes.
    Captured { bytes: u64 },
    /// The capture attempt failed.
    Failed,
    /// The privacy guard declined the tick.
    Declined,
}

/// Reports the pending tick, if any, as `fate` says.
pub open spec fn settle(w: SessionView, fate: TickFate) -> SessionView {
    if w.in_tick {
        match fate {
            TickFate::Captured { bytes } => after_success(w, bytes),
            TickFate::Failed => after_failure(w),
            TickFate::Declined => after_skip(w),
        }
    } else {
        w
    }
}

/// One step of a punctual driver: poll exactly when the next tick is due and
/// report an attempted tick as `fates` says for its index.
pub open spec fn punctual_step(v: SessionView, fates: spec_fn(u64) -> TickFate) -> SessionView {
    let w = after_poll(v, v.sched.next_due);
    settle(w, fates(w.summary.total_ticks))
}

/// A punctual driver that sends no command, for at most `fuel` steps.
pub open spec fn punctual_run(v: SessionView, fates: spec_fn(u64) -> TickFate, fuel: nat) -> SessionView
    decreases fuel,
{
    if fuel == 0 || v.done {
        v
    } else {
        punctual_run(punctual_step(v, fates), fates, (fuel - 1) as nat)
    }
}

/// 0 for a capture, 1 for a failure, 2 for a declined tick.
pub open spec fn fate_kind(f: TickFate) -> int {
    match f {
        TickFate::Captured { .. } => 0,
        TickFate::Failed => 1,
        TickFate::Declined => 2,
    }
}

/// How many of the ticks `1..=n` have outcome `kind`.
pub open spec fn fate_count(fates: spec_fn(u64) -> TickFate, n: nat, kind: int) -> nat
    decreases n,
{
    if n == 0 {
        0
    } else {
        fate_count(fates, (n - 1) as nat, kind) + if fate_kind(fates(n as u64)) == kind {
            1nat
        } else {
            0nat
        }
    }
}

/// Bytes written by the captures among ticks `1..=n`, saturating.
pub open spec fn fate_bytes(fates: spec_fn(u64) -> TickFate, n: nat) -> u64
    decreases n,
{
    if n == 0 {
        0
    } else {
        sat_add(
            fate_bytes(fates, (n - 1) as nat),
            match fates(n as u64) {
                TickFate::Captured { bytes } => bytes,
                _ => 0,
            },
        )
    }
}

/// The punctual session after `j` due ticks.
spec fn punctual_state(config: EngineConfig, fates: spec_fn(u64) -> TickFate, j: nat) -> SessionView {
    let v0 = initial_view(config);
    let n = ceil_div(j, v0.stride as nat);
    SessionView {
        sched: SchedulerState {
            next_due: if j * config.schedule.every <= u64::MAX {
                (j * config.schedule.every) as u64
            } else {
                u64::MAX
            },
            ..v0.sched
        },
        schedule_ticks: j as u64,
        summary: EngineSummary {
            total_ticks: n as u64,
            captures: fate_count(fates, n, 0) as u64,
            failures: fate_count(fates, n, 1) as u64,
            skipped: fate_count(fates, n, 2) as u64,
        },
        bytes_written: fate_bytes(fates, n),
        ..v0
    }
}

proof fn lemma_fate_counts(fates: spec_fn(u64) -> TickFate, n: nat)
    requires
        n <= u64::MAX,
    ensures
        fate_count(fates, n, 0) + fate_count(fates, n, 1) + fate_count(fates, n, 2) == n,
        (forall|i: u64| 1 <= i <= n ==> (#[trigger] fates(i)) is Declined) ==> fate_count(fates, n, 0) == 0
            && fate_count(fates, n, 1) == 0,
    decreases n,
{
    if n > 0 {
        lemma_fate_counts(fates, (n - 1) as nat);
        if forall|i: u64| 1 <= i <= n ==> (#[trigger] fates(i)) is Declined {
            let last = n as u64;
            assert(1 <= last <= n);
            assert(fates(last) is Declined);
            assert forall|i: u64| 1 <= i <= (n - 1) as nat implies (#[trigger] fates(i)) is Declined by {}
        }
    }
}

proof fn lemma_ceil_div_step(j: nat, n: nat)
    requires
        n >= 1,
    ensures
        ceil_div(j + 1, n) == ceil_div(j, n) + if (j as int) % (n as int) == 0 {
            1nat
        } else {
            0nat
        },
        ceil_div(j, n) <= j,
{
    let ni = n as int;
    let q = j as int / ni;
    let r = j as int % ni;
    lemma_fundamental_div_mod(j as int, ni);
    lemma_mod_pos_bound(j as int, ni);
    lemma_div_pos_is_pos(j as int, ni);
    assert(j + ni == ni * (q + 1) + r) by (nonlinear_arith)
        requires
            j == ni * q + r,
    ;
    lemma_div_multiples_vanish_fancy(q + 1, r, ni);
    if r == 0 {
        assert(j + ni - 1 == ni * q + (ni - 1));
        lemma_div_multiples_vanish_fancy(q, ni - 1, ni);
        assert(q <= ni * q) by (nonlinear_arith)
            requires
                ni >= 1,
                q >= 0,
        ;
    } else {
        assert(j + ni - 1 == ni * (q + 1) + (r - 1)) by (nonlinear_arith)
            requires
                j == ni * q + r,
        ;
        lemma_div_multiples_vanish_fancy(q + 1, r - 1, ni);
        assert(q + 1 <= ni * q + r) by (nonlinear_arith)
            requires
                ni >= 1,
                q >= 0,
                r >= 1,
        ;
    }
}

/// The due ticks of a schedule are `0, E, 2E, ...` below `R`: `ceil(R / E)` of them.
proof fn lemma_due_count(r: nat, e: nat, j: nat)
    requires
        r >= 1,
        e >= 1,
    ensures
        ceil_div(r, e) >= 1,
        ceil_div(r, e) * e >= r,
        j < ceil_div(r, e) ==> j * e < r,
        ceil_div(r, e) <= r,
{
    let t = ceil_div(r, e) as int;
    let ei = e as int;
    lemma_fundamental_div_mod(r + ei - 1, ei);
    lemma_mod_pos_bound(r + ei - 1, ei);
    let m = (r + ei - 1) % ei;
    assert(r + ei - 1 == ei * t + m);
    assert(t * ei >= r) by (nonlinear_arith)
        requires
            r + ei - 1 == ei * t + m,
            m < ei,
    ;
    assert(t >= 1) by (nonlinear_arith)
        requires
            t * ei >= r,
            r >= 1,
            ei >= 1,
            t >= 0,
    ;
    assert((t - 1) * ei < r) by (nonlinear_arith)
        requires
            r + ei - 1 == ei * t + m,
            m >= 0,
    ;
    if j < t {
        lemma_mul_inequality(j as int, t - 1, ei);
    }
    lemma_ceil_div_step(0, e);
    assert(t <= r) by (nonlinear_arith)
        requires
            (t - 1) * ei < r,
            ei >= 1,
            t >= 1,
    ;
}

proof fn lemma_punctual_step(config: EngineConfig, fates: spec_fn(u64) -> TickFate, j: nat)
    requires
        config.schedule.is_valid(),
        config.max_session_bytes is None,
        j < ceil_div(config.schedule.run_for as nat, config.schedule.every as nat),
    ensures
        punctual_step(punctual_state(config, fates, j), fates) == punctual_state(
            config,
            fates,
            j + 1,
        ),
{
    let r = config.schedule.run_for as nat;
    let e = config.schedule.every as nat;
    let v = punctual_state(config, fates, j);
    let n = v.stride as nat;
    lemma_due_count(r, e, j);
    lemma_ceil_div_step(j, n);
    lemma_fate_counts(fates, ceil_div(j, n));
    assert((j + 1) * e == j * e + e) by (nonlinear_arith);
    assert(!effectively_paused(v.pause));
    assert(v.sched.next_due == j * e);
    let w = after_poll(v, v.sched.next_due);
    if stride_selects(incr(v.schedule_ticks), v.stride) {
        assert(w.in_tick);
        let m = ceil_div(j, n) + 1;
        assert(w.summary.total_ticks == m);
        assert(fate_count(fates, m as nat, 0) == fate_count(fates, (m - 1) as nat, 0) + if fate_kind(
            fates(m as u64),
        ) == 0 {
            1nat
        } else {
            0nat
        });
        assert(fate_count(fates, m as nat, 1) == fate_count(fates, (m - 1) as nat, 1) + if fate_kind(
            fates(m as u64),
        ) == 1 {
            1nat
        } else {
            0nat
        });
        assert(fate_count(fates, m as nat, 2) == fate_count(fates, (m - 1) as nat, 2) + if fate_kind(
            fates(m as u64),
        ) == 2 {
            1nat
        } else {
            0nat
        });
        assert(fate_bytes(fates, m as nat) == sat_add(
            fate_bytes(fates, (m - 1) as nat),
            match fates(m as u64) {
                TickFate::Captured { bytes } => bytes,
                _ => 0,
            },
        ));
    } else {
        assert(!w.in_tick);
    }
    assert(punctual_step(v, fates) =~= punctual_state(config, fates, j + 1));
}

proof fn lemma_punctual_run(
    config: EngineConfig,
    fates: spec_fn(u64) -> TickFate,
    j: nat,
    fuel: nat,
)
    requires
        config.schedule.is_valid(),
        config.max_session_bytes is None,
        j <= ceil_div(config.schedule.run_for as nat, config.schedule.every as nat),
        fuel >= ceil_div(config.schedule.run_for as nat, config.schedule.every as nat) - j + 1,
    ensures
        punctual_run(punctual_state(config, fates, j), fates, fuel) == (SessionView {
            done: true,
            ..punctual_state(
                config,
                fates,
                ceil_div(config.schedule.run_for as nat, config.schedule.every as nat),
            )
        }),
    decreases fuel,
{
    let t = ceil_div(config.schedule.run_for as nat, config.schedule.every as nat);
    let v = punctual_state(config, fates, j);
    lemma_due_count(config.schedule.run_for as nat, config.schedule.every as nat, j);
    if j < t {
        lemma_punctual_step(config, fates, j);
        lemma_punctual_run(config, fates, j + 1, (fuel - 1) as nat);
    } else {
        assert(v.sched.next_due >= config.schedule.run_for);
        let w = punctual_step(v, fates);
        assert(w == SessionView { done: true, ..v });
        assert(punctual_run(w, fates, (fuel - 1) as nat) == w);
    }
}

/// A session with no byte budget, driven punctually and sent no command,
/// performs `ceil(R / E)` due ticks for interval `E` and duration `R` and
/// attempts `ceil(due / N)` of them under stride `N`, whatever each attempt's
/// outcome. Every attempt is counted once: as a capture, a failure or a skip,
/// as its outcome says. When the privacy guard declines every attempt, nothing
/// is captured and every attempt is a skip.
pub proof fn lemma_punctual_session_counts(config: EngineConfig, fates: spec_fn(u64) -> TickFate)
    requires
        config.schedule.is_valid(),
        config.max_session_bytes is None,
    ensures
        ({
            let v = punctual_run(initial_view(config), fates, config.schedule.run_for as nat + 1);
            let due = ceil_div(config.schedule.run_for as nat, config.schedule.every as nat);
            let attempts = ceil_div(due, initial_view(config).stride as nat);
            &&& v.done
            &&& v.schedule_ticks == due
            &&& v.summary.total_ticks == attempts
            &&& v.summary.captures == fate_count(fates, attempts, 0)
            &&& v.summary.failures == fate_count(fates, attempts, 1)
            &&& v.summary.skipped == fate_count(fates, attempts, 2)
            &&& v.summary.captures + v.summary.failures + v.summary.skipped == v.summary.total_ticks
            &&& (forall|i: u64| 1 <= i <= attempts ==> (#[trigger] fates(i)) is Declined) ==> v.summary.captures
                == 0 && v.summary.failures == 0 && v.summary.skipped == v.summary.total_ticks
        }),
{
    let r = config.schedule.run_for as nat;
    let e = config.schedule.every as nat;
    let due = ceil_div(r, e);
    let n = initial_view(config).stride as nat;
    lemma_due_count(r, e, 0);
    lemma_ceil_div_step(0, n);
    lemma_ceil_div_step(due, n);
    lemma_fate_counts(fates, ceil_div(due, n));
    assert(punctual_state(config, fates, 0) =~= initial_view(config));
    lemma_punctual_run(config, fates, 0, r + 1);
}

} // verus!
