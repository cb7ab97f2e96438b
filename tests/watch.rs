use photographic_memory::controls::{parse_console_line, ConsoleInput};
use photographic_memory::engine::ControlCommand;
use photographic_memory::pause::PauseReason;
use photographic_memory::permissions::ScreenRecordingStatus;
use photographic_memory::system_activity::{DisplaySleepStatus, ScreenLockStatus};
use photographic_memory::watch::{ActivityEvent, ActivityWatch, PermissionWatch};

#[test]
fn sends_pause_resume_only_on_distinct_permission_transitions() {
    let mut watch = PermissionWatch::start(ScreenRecordingStatus::Granted).expect("watcher started");
    let a = watch.observe(ScreenRecordingStatus::Denied);
    assert_eq!(
        a.send,
        Some(ControlCommand::AutoPause(PauseReason::PermissionDenied))
    );
    assert!(a.notify);
    let repeated = watch.observe(ScreenRecordingStatus::Denied);
    assert_eq!(repeated.send, None, "repeated denied status should not emit duplicate pause");
    assert!(!repeated.notify);
    let b = watch.observe(ScreenRecordingStatus::Granted);
    assert_eq!(
        b.send,
        Some(ControlCommand::AutoResume(PauseReason::PermissionDenied))
    );
}

#[test]
fn returns_none_when_permission_checks_are_not_supported() {
    assert!(PermissionWatch::start(ScreenRecordingStatus::NotSupported).is_none());
}

#[test]
fn permission_watch_stops_when_checks_vanish() {
    let mut watch = PermissionWatch::start(ScreenRecordingStatus::Denied).expect("watcher started");
    let a = watch.observe(ScreenRecordingStatus::Granted);
    assert_eq!(a.send, None);
    let b = watch.observe(ScreenRecordingStatus::NotSupported);
    assert!(b.stop);
}

#[test]
fn auto_pauses_on_initial_locked_and_display_asleep() {
    let (_, cmds) = ActivityWatch::start(ScreenLockStatus::Locked, DisplaySleepStatus::Asleep)
        .expect("watcher started");
    assert!(cmds.contains(&ControlCommand::AutoPause(PauseReason::ScreenLocked)));
    assert!(cmds.contains(&ControlCommand::AutoPause(PauseReason::DisplayAsleep)));
    assert!(ActivityWatch::start(ScreenLockStatus::NotSupported, DisplaySleepStatus::NotSupported)
        .is_none());
}

#[test]
fn auto_resumes_on_transitions() {
    let (mut watch, cmds) =
        ActivityWatch::start(ScreenLockStatus::Unlocked, DisplaySleepStatus::Awake)
            .expect("watcher started");
    assert!(cmds.is_empty());
    let (ev, cmd) = watch.observe_lock(ScreenLockStatus::Locked).expect("command");
    assert_eq!(ev, ActivityEvent::ScreenLock(ScreenLockStatus::Locked));
    assert_eq!(cmd, ControlCommand::AutoPause(PauseReason::ScreenLocked));
    assert!(watch.observe_lock(ScreenLockStatus::Unknown).is_none());
    let (_, cmd) = watch.observe_lock(ScreenLockStatus::Unlocked).expect("command");
    assert_eq!(cmd, ControlCommand::AutoResume(PauseReason::ScreenLocked));
    let (_, cmd) = watch.observe_display(DisplaySleepStatus::Asleep).expect("command");
    assert_eq!(cmd, ControlCommand::AutoPause(PauseReason::DisplayAsleep));
    assert!(watch.observe_display(DisplaySleepStatus::Asleep).is_none());
    let (_, cmd) = watch.observe_display(DisplaySleepStatus::Awake).expect("command");
    assert_eq!(cmd, ControlCommand::AutoResume(PauseReason::DisplayAsleep));
}

#[test]
fn console_lines_map_to_commands() {
    assert_eq!(
        parse_console_line(" Pause\n"),
        ConsoleInput::Command(ControlCommand::UserPause)
    );
    assert_eq!(
        parse_console_line("resume"),
        ConsoleInput::Command(ControlCommand::UserResume)
    );
    assert_eq!(parse_console_line("QUIT"), ConsoleInput::Command(ControlCommand::Stop));
    assert_eq!(parse_console_line("exit"), ConsoleInput::Command(ControlCommand::Stop));
    assert_eq!(parse_console_line("   "), ConsoleInput::Blank);
    assert_eq!(parse_console_line("pausee"), ConsoleInput::Unknown);
}
