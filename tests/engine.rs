use photographic_memory::engine::{
    CaptureSession, ControlCommand, EngineConfig, EngineEvent, EngineSummary, SessionStep,
};
use photographic_memory::pause::PauseReason;
use photographic_memory::scheduler::CaptureSchedule;

/// Size of the placeholder file that the mock screenshot provider writes.
const MOCK_CAPTURE_BYTES: u64 = 10;

#[derive(Clone, Copy, PartialEq)]
enum Outcome {
    Capture,
    Skip,
    Fail,
}

fn config(every: u64, run_for: u64, stride: u64, max: Option<u64>) -> EngineConfig {
    EngineConfig {
        output_dir: "captures".to_string(),
        filename_prefix: "test".to_string(),
        schedule: CaptureSchedule { every, run_for },
        min_free_disk_bytes: 0,
        capture_stride: stride,
        max_session_bytes: max,
    }
}

/// Drives a session on a simulated clock where captures take no time.
/// Returns the summary, the events, and the number of artifact files written.
fn drive(cfg: &EngineConfig, outcome: Outcome) -> (EngineSummary, Vec<EngineEvent>, usize) {
    let mut events = Vec::new();
    let mut session = CaptureSession::new(cfg, &mut events).expect("engine run");
    let mut now: u64 = 0;
    let mut files = 0usize;
    loop {
        match session.poll(now, &mut events) {
            SessionStep::Ended => break,
            SessionStep::Throttled => {}
            SessionStep::AwaitCommand => session.force_resume(now),
            SessionStep::Idle { wait_ms } => now += wait_ms,
            SessionStep::Tick { .. } => match outcome {
                Outcome::Capture => {
                    files += 1;
                    session.record_success(
                        format!("captures/test-{:06}.png", session.next_capture_index()),
                        MOCK_CAPTURE_BYTES,
                        &mut events,
                    );
                }
                Outcome::Skip => session.record_skip("privacy: test skip".to_string(), &mut events),
                Outcome::Fail => {
                    session.record_failure("intentional screenshot failure".to_string(), &mut events)
                }
            },
        }
    }
    (session.summary(), events, files)
}

#[test]
fn captures_expected_number_of_frames() {
    let (summary, events, files) = drive(&config(80, 330, 1, None), Outcome::Capture);
    assert_eq!(summary.total_ticks, 5);
    assert_eq!(summary.captures, 5);
    assert_eq!(summary.skipped, 0);
    assert_eq!(summary.failures, 0);
    assert_eq!(files, 5);
    assert_eq!(events.first(), Some(&EngineEvent::Started));
    assert_eq!(
        events.last(),
        Some(&EngineEvent::Completed {
            total_ticks: 5,
            captures: 5,
            skipped: 0,
            failures: 0
        })
    );
}

#[test]
fn capture_stride_throttles_capture_attempts() {
    let (summary, _, files) = drive(&config(30, 250, 10, None), Outcome::Capture);
    assert_eq!(summary.total_ticks, 1);
    assert_eq!(summary.captures, 1);
    assert_eq!(summary.skipped, 0);
    assert_eq!(summary.failures, 0);
    assert_eq!(files, 1);
}

#[test]
fn capture_stride_attempts_every_nth_due_tick() {
    // due ticks at 0, 10, ..., 90: ten of them; stride 3 attempts ticks 1, 4, 7, 10
    let (summary, _, _) = drive(&config(10, 100, 3, None), Outcome::Capture);
    assert_eq!(summary.total_ticks, 4);
    assert_eq!(summary.captures, 4);
    // a stride of zero behaves as one
    let (summary, _, _) = drive(&config(10, 100, 0, None), Outcome::Capture);
    assert_eq!(summary.captures, 10);
}

#[test]
fn skipped_ticks_do_not_create_capture_files() {
    let (summary, events, files) = drive(&config(60, 190, 1, None), Outcome::Skip);
    assert_eq!(summary.total_ticks, 4);
    assert_eq!(summary.captures, 0);
    assert_eq!(summary.skipped, 4);
    assert_eq!(summary.failures, 0);
    assert_eq!(files, 0);
    assert!(events.contains(&EngineEvent::CaptureSkipped {
        tick_index: 1,
        reason: "privacy: test skip".to_string()
    }));
    let skips = events
        .iter()
        .filter(|e| matches!(e, EngineEvent::CaptureSkipped { .. }))
        .count();
    assert_eq!(skips, 4);
}

#[test]
fn stop_command_ends_session() {
    let cfg = config(1000, 30000, 1, None);
    let mut events = Vec::new();
    let mut session = CaptureSession::new(&cfg, &mut events).expect("engine run");
    match session.poll(0, &mut events) {
        SessionStep::Tick { tick_index } => assert_eq!(tick_index, 1),
        other => panic!("expected a tick, got {other:?}"),
    }
    session.record_success("a.png".to_string(), MOCK_CAPTURE_BYTES, &mut events);
    assert!(matches!(session.poll(50, &mut events), SessionStep::Idle { .. }));
    session.apply_command(ControlCommand::Stop, 50, &mut events);
    let summary = session.summary();
    assert_eq!(summary.total_ticks, 1);
    assert_eq!(summary.captures, 1);
    assert!(session.is_done());
    assert_eq!(session.poll(2000, &mut events), SessionStep::Ended);
    let n = events.len();
    assert_eq!(events[n - 2], EngineEvent::Stopped);
    assert_eq!(
        events[n - 1],
        EngineEvent::Completed {
            total_ticks: 1,
            captures: 1,
            skipped: 0,
            failures: 0
        }
    );
}

#[test]
fn screenshot_failures_are_counted_without_crashing_session() {
    let (summary, events, _) = drive(&config(40, 130, 1, None), Outcome::Fail);
    assert_eq!(summary.total_ticks, 4);
    assert_eq!(summary.captures, 0);
    assert_eq!(summary.skipped, 0);
    assert_eq!(summary.failures, 4);
    assert!(events.contains(&EngineEvent::CaptureFailed {
        capture_index: 4,
        message: "intentional screenshot failure".to_string()
    }));
}

#[test]
fn context_log_write_failures_are_counted() {
    let (summary, _, _) = drive(&config(60, 125, 1, None), Outcome::Fail);
    assert!(summary.total_ticks >= 1);
    assert_eq!(summary.captures, 0);
    assert_eq!(summary.skipped, 0);
    assert_eq!(summary.failures, summary.total_ticks);
}

#[test]
fn max_session_bytes_stops_session_after_budget_is_exceeded() {
    let (summary, events, files) = drive(&config(30, 250, 1, Some(15)), Outcome::Capture);
    assert_eq!(summary.captures, 2);
    assert_eq!(summary.failures, 0);
    assert_eq!(files, 2);
    let n = events.len();
    assert_eq!(
        events[n - 2],
        EngineEvent::BudgetExceeded {
            bytes_written: 20,
            limit_bytes: 15
        }
    );
}

#[test]
fn resume_does_not_burst_captures_after_long_pause() {
    let cfg = config(1000, 100_000, 1, None);
    let mut events = Vec::new();
    let mut session = CaptureSession::new(&cfg, &mut events).expect("engine run");
    assert!(matches!(session.poll(0, &mut events), SessionStep::Tick { .. }));
    session.record_success("first.png".to_string(), MOCK_CAPTURE_BYTES, &mut events);

    session.apply_command(ControlCommand::UserPause, 1, &mut events);
    assert_eq!(session.poll(1, &mut events), SessionStep::AwaitCommand);
    session.apply_command(ControlCommand::UserResume, 30_001, &mut events);

    // exactly one capture at resume time
    assert!(matches!(session.poll(30_001, &mut events), SessionStep::Tick { .. }));
    session.record_success("second.png".to_string(), MOCK_CAPTURE_BYTES, &mut events);
    // no backlog burst without time advancing
    let mut extra_captures = 0usize;
    for _ in 0..50 {
        if let SessionStep::Tick { .. } = session.poll(30_001, &mut events) {
            extra_captures += 1;
        }
    }
    assert_eq!(extra_captures, 0, "resume should not burst captures");
    assert_eq!(session.poll(30_001, &mut events), SessionStep::Idle { wait_ms: 200 });
    assert!(matches!(session.poll(31_001, &mut events), SessionStep::Tick { .. }));
}

#[test]
fn repeated_pause_commands_report_once() {
    let cfg = config(1000, 10_000, 1, None);
    let mut events = Vec::new();
    let mut session = CaptureSession::new(&cfg, &mut events).expect("engine run");
    session.apply_command(ControlCommand::UserPause, 0, &mut events);
    session.apply_command(ControlCommand::UserPause, 0, &mut events);
    session.apply_command(ControlCommand::AutoPause(PauseReason::ScreenLocked), 0, &mut events);
    session.apply_command(ControlCommand::AutoPause(PauseReason::ScreenLocked), 0, &mut events);
    session.apply_command(ControlCommand::AutoResume(PauseReason::DisplayAsleep), 0, &mut events);
    assert_eq!(
        events,
        vec![
            EngineEvent::Started,
            EngineEvent::Paused,
            EngineEvent::AutoPaused {
                reason: PauseReason::ScreenLocked
            },
        ]
    );
}

#[test]
fn auto_pauses_compose_until_every_reason_clears() {
    let cfg = config(100, 10_000, 1, None);
    let mut events = Vec::new();
    let mut session = CaptureSession::new(&cfg, &mut events).expect("engine run");
    session.apply_command(ControlCommand::AutoPause(PauseReason::DisplayAsleep), 0, &mut events);
    session.apply_command(ControlCommand::AutoPause(PauseReason::PermissionDenied), 0, &mut events);
    session.apply_command(ControlCommand::AutoResume(PauseReason::DisplayAsleep), 10, &mut events);
    assert!(session.is_paused());
    assert_eq!(session.poll(10, &mut events), SessionStep::AwaitCommand);
    session.apply_command(ControlCommand::AutoResume(PauseReason::PermissionDenied), 20, &mut events);
    assert!(!session.is_paused());
    assert_eq!(session.poll(20, &mut events), SessionStep::Tick { tick_index: 1 });
}

#[test]
fn closed_command_queue_forces_resume() {
    let cfg = config(100, 10_000, 1, None);
    let mut events = Vec::new();
    let mut session = CaptureSession::new(&cfg, &mut events).expect("engine run");
    session.apply_command(ControlCommand::UserPause, 0, &mut events);
    session.apply_command(ControlCommand::AutoPause(PauseReason::ScreenLocked), 0, &mut events);
    session.force_resume(500);
    assert!(!session.is_paused());
    assert_eq!(session.poll(500, &mut events), SessionStep::Tick { tick_index: 1 });
}

#[test]
fn invalid_schedule_fails_session_start() {
    let mut events = Vec::new();
    let err = CaptureSession::new(&config(0, 100, 1, None), &mut events).unwrap_err();
    assert_eq!(err, "interval must be greater than 0");
    assert!(events.is_empty());
}

#[test]
fn capture_indices_count_captures_and_failures() {
    let cfg = config(10, 100, 1, None);
    let mut events = Vec::new();
    let mut session = CaptureSession::new(&cfg, &mut events).expect("engine run");
    assert_eq!(session.next_capture_index(), 1);
    session.poll(0, &mut events);
    session.record_failure("boom".to_string(), &mut events);
    session.poll(10, &mut events);
    assert_eq!(session.next_capture_index(), 2);
    session.record_success("x.png".to_string(), 1, &mut events);
    assert_eq!(
        events[events.len() - 1],
        EngineEvent::CaptureSucceeded {
            capture_index: 2,
            path: "x.png".to_string()
        }
    );
    // outcomes reported without a pending tick change nothing
    session.record_success("y.png".to_string(), 1, &mut events);
    assert_eq!(session.summary().captures, 1);
}
