//! Screen-lock and display-sleep state of the machine.

use vstd::prelude::*;

verus! {

/// Whether the screen is locked.
#[derive(Debug, Clone, Copy, PartialEq, Eq, Structural)]
pub enum ScreenLockStatus {
    Locked,
    Unlocked,
    Unknown,
    NotSupported,
}

/// Whether the main display sleeps.
#[derive(Debug, Clone, Copy, PartialEq, Eq, Structural)]
pub enum DisplaySleepStatus {
    Asleep,
    Awake,
    Unknown,
    NotSupported,
}

/// No screen-lock probe exists on this platform.
pub fn screen_lock_status() -> (r: ScreenLockStatus)
    ensures
        r is NotSupported,
{
    ScreenLockStatus::NotSupported
}

/// No display-sleep probe exists on this platform.
pub fn display_sleep_status() -> (r: DisplaySleepStatus)
    ensures
        r is NotSupported,
{
    DisplaySleepStatus::NotSupported
}

} // verus!
