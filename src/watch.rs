//! Decisions of the watchers that turn polled system state into control
//! commands. The polling loops themselves belong to the application.

use vstd::prelude::*;
use crate::engine::ControlCommand;
use crate::pause::PauseReason;
use crate::permissions::ScreenRecordingStatus;
use crate::system_activity::{DisplaySleepStatus, ScreenLockStatus};

verus! {

/// A change of machine activity worth telling the user about.
#[derive(Debug, Clone, Copy, PartialEq, Eq, Structural)]
pub enum ActivityEvent {
    ScreenLock(ScreenLockStatus),
    DisplaySleep(DisplaySleepStatus),
}

/// What a watcher does after one poll.
#[derive(Debug, Clone, Copy, PartialEq, Eq, Structural)]
pub struct WatchAction {
    /// The status changed: tell the user.
    pub notify: bool,
    /// The command to send to the session, if any.
    pub send: Option<ControlCommand>,
    /// The watcher ends.
    pub stop: bool,
}

/// Follows the screen-recording permission and pauses while it is denied.
#[derive(Debug, Clone, Copy, PartialEq, Eq, Structural)]
pub struct PermissionWatch {
    pub last_status: ScreenRecordingStatus,
    /// This watcher has paused the session and not yet resumed it.
    pub auto_paused: bool,
}

impl PermissionWatch {
    /// A watcher, unless permissions do not exist on this system.
    pub fn start(initial: ScreenRecordingStatus) -> (r: Option<PermissionWatch>)
        ensures
            initial is NotSupported <==> r is None,
            r is Some ==> r->Some_0 == (PermissionWatch {
                last_status: initial,
                auto_paused: false,
            }),
    {
        match initial {
            ScreenRecordingStatus::NotSupported => None,
            _ => Some(PermissionWatch { last_status: initial, auto_paused: false }),
        }
    }

    /// Handles a polled status: only a change is acted upon; a denial pauses
    /// once, a grant resumes what this watcher paused.
    pub fn observe(&mut self, status: ScreenRecordingStatus) -> (r: WatchAction)
        ensures
            status == old(self).last_status ==> *final(self) == *old(self) && r == (WatchAction {
                notify: false,
                send: None,
                stop: false,
            }),
            status != old(self).last_status ==> final(self).last_status == status && r.notify,
            status != old(self).last_status && status is Denied ==> r.stop == false && (
            if old(self).auto_paused {
                r.send is None && final(self).auto_paused
            } else {
                r.send == Some(ControlCommand::AutoPause(PauseReason::PermissionDenied))
                    && final(self).auto_paused
            }),
            status != old(self).last_status && status is Granted ==> r.stop == false && (
            if old(self).auto_paused {
                r.send == Some(ControlCommand::AutoResume(PauseReason::PermissionDenied))
                    && !final(self).auto_paused
            } else {
                r.send is None && !final(self).auto_paused
            }),
            status != old(self).last_status && status is NotSupported ==> r.stop && r.send is None
                && final(self).auto_paused == old(self).auto_paused,
    {
        if status == self.last_status {
            return WatchAction { notify: false, send: None, stop: false };
        }
        self.last_status = status;
        match status {
            ScreenRecordingStatus::Denied => {
                if self.auto_paused {
                    WatchAction { notify: true, send: None, stop: false }
                } else {
                    self.auto_paused = true;
                    WatchAction {
                        notify: true,
                        send: Some(ControlCommand::AutoPause(PauseReason::PermissionDenied)),
                        stop: false,
                    }
                }
            },
            ScreenRecordingStatus::Granted => {
                if self.auto_paused {
                    self.auto_paused = false;
                    WatchAction {
                        notify: true,
                        send: Some(ControlCommand::AutoResume(PauseReason::PermissionDenied)),
                        stop: false,
                    }
                } else {
                    WatchAction { notify: true, send: None, stop: false }
                }
            },
            ScreenRecordingStatus::NotSupported => WatchAction {
                notify: true,
                send: None,
                stop: true,
            },
        }
    }
}

/// Follows screen lock and display sleep and pauses while either holds.
#[derive(Debug, Clone, Copy, PartialEq, Eq, Structural)]
pub struct ActivityWatch {
    pub last_lock: ScreenLockStatus,
    pub last_display: DisplaySleepStatus,
}

/// A lock status that says something.
pub open spec fn lock_known(s: ScreenLockStatus) -> bool {
    s is Locked || s is Unlocked
}

/// A display status that says something.
pub open spec fn display_known(s: DisplaySleepStatus) -> bool {
    s is Asleep || s is Awake
}

impl ActivityWatch {
    /// A watcher and the commands for the initial state, unless neither probe
    /// exists on this system.
    pub fn start(lock: ScreenLockStatus, display: DisplaySleepStatus) -> (r: Option<
        (ActivityWatch, Vec<ControlCommand>),
    >)
        ensures
            (lock is NotSupported && display is NotSupported) <==> r is None,
            r is Some ==> r->Some_0.0 == (ActivityWatch { last_lock: lock, last_display: display }),
            r is Some ==> r->Some_0.1@ == (if lock is Locked {
                seq![ControlCommand::AutoPause(PauseReason::ScreenLocked)]
            } else {
                seq![]
            }) + (if display is Asleep {
                seq![ControlCommand::AutoPause(PauseReason::DisplayAsleep)]
            } else {
                seq![]
            }),
    {
        let lock_unsupported = match lock {
            ScreenLockStatus::NotSupported => true,
            _ => false,
        };
        let display_unsupported = match display {
            DisplaySleepStatus::NotSupported => true,
            _ => false,
        };
        if lock_unsupported && display_unsupported {
            return None;
        }
        let mut cmds: Vec<ControlCommand> = Vec::new();
        match lock {
            ScreenLockStatus::Locked => cmds.push(ControlCommand::AutoPause(PauseReason::ScreenLocked)),
            _ => {},
        }
        let ghost first = cmds@;
        match display {
            DisplaySleepStatus::Asleep => cmds.push(
                ControlCommand::AutoPause(PauseReason::DisplayAsleep),
            ),
            _ => {},
        }
        proof {
            if lock is Locked {
                assert(first =~= seq![ControlCommand::AutoPause(PauseReason::ScreenLocked)]);
            } else {
                assert(first =~= seq![]);
            }
        }
        assert(cmds@ =~= (if lock is Locked {
            seq![ControlCommand::AutoPause(PauseReason::ScreenLocked)]
        } else {
            seq![]
        }) + (if display is Asleep {
            seq![ControlCommand::AutoPause(PauseReason::DisplayAsleep)]
        } else {
            seq![]
        }));
        Some((ActivityWatch { last_lock: lock, last_display: display }, cmds))
    }

    /// Handles a polled lock status: a known status that differs from the
    /// last known one is reported and pauses (locked) or resumes (unlocked).
    pub fn observe_lock(&mut self, status: ScreenLockStatus) -> (r: Option<
        (ActivityEvent, ControlCommand),
    >)
        ensures
            !(lock_known(status) && status != old(self).last_lock) ==> r is None && *final(self)
                == *old(self),
            lock_known(status) && status != old(self).last_lock ==> *final(self) == (ActivityWatch {
                last_lock: status,
                ..*old(self)
            }) && r == Some((
                ActivityEvent::ScreenLock(status),
                if status is Locked {
                    ControlCommand::AutoPause(PauseReason::ScreenLocked)
                } else {
                    ControlCommand::AutoResume(PauseReason::ScreenLocked)
                },
            )),
    {
        match status {
            ScreenLockStatus::Locked | ScreenLockStatus::Unlocked => {},
            _ => return None,
        }
        if status == self.last_lock {
            return None;
        }
        self.last_lock = status;
        let cmd = match status {
            ScreenLockStatus::Locked => ControlCommand::AutoPause(PauseReason::ScreenLocked),
            _ => ControlCommand::AutoResume(PauseReason::ScreenLocked),
        };
        Some((ActivityEvent::ScreenLock(status), cmd))
    }

    /// Handles a polled display status: a known status that differs from the
    /// last known one is reported and pauses (asleep) or resumes (awake).
    pub fn observe_display(&mut self, status: DisplaySleepStatus) -> (r: Option<
        (ActivityEvent, ControlCommand),
    >)
        ensures
            !(display_known(status) && status != old(self).last_display) ==> r is None
                && *final(self) == *old(self),
            display_known(status) && status != old(self).last_display ==> *final(self) == (
            ActivityWatch { last_display: status, ..*old(self) }) && r == Some((
                ActivityEvent::DisplaySleep(status),
                if status is Asleep {
                    ControlCommand::AutoPause(PauseReason::DisplayAsleep)
                } else {
                    ControlCommand::AutoResume(PauseReason::DisplayAsleep)
                },
            )),
    {
        match status {
            DisplaySleepStatus::Asleep | DisplaySleepStatus::Awake => {},
            _ => return None,
        }
        if status == self.last_display {
            return None;
        }
        self.last_display = status;
        let cmd = match status {
            DisplaySleepStatus::Asleep => ControlCommand::AutoPause(PauseReason::DisplayAsleep),
            _ => ControlCommand::AutoResume(PauseReason::DisplayAsleep),
        };
        Some((ActivityEvent::DisplaySleep(status), cmd))
    }
}

} // verus!
