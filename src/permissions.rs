//! Operating-system permissions that capturing depends on.

use vstd::prelude::*;

verus! {

/// Whether the process may record the screen.
#[derive(Debug, Clone, Copy, PartialEq, Eq, Structural)]
pub enum ScreenRecordingStatus {
    Granted,
    Denied,
    NotSupported,
}

/// Whether the process is trusted for accessibility.
#[derive(Debug, Clone, Copy, PartialEq, Eq, Structural)]
pub enum AccessibilityStatus {
    Granted,
    Denied,
    NotSupported,
}

impl ScreenRecordingStatus {
    /// Capturing may go ahead: granted, or no permission exists on this system.
    pub fn is_granted(&self) -> (r: bool)
        ensures
            r == (*self is Granted || *self is NotSupported),
    {
        match self {
            ScreenRecordingStatus::Granted | ScreenRecordingStatus::NotSupported => true,
            ScreenRecordingStatus::Denied => false,
        }
    }

    /// The user must grant the permission.
    pub fn needs_user_action(&self) -> (r: bool)
        ensures
            r == (*self is Denied),
    {
        match self {
            ScreenRecordingStatus::Denied => true,
            _ => false,
        }
    }
}

impl AccessibilityStatus {
    /// Granted, or no permission exists on this system.
    pub fn is_granted(&self) -> (r: bool)
        ensures
            r == (*self is Granted || *self is NotSupported),
    {
        match self {
            AccessibilityStatus::Granted | AccessibilityStatus::NotSupported => true,
            AccessibilityStatus::Denied => false,
        }
    }

    /// The user must grant the permission.
    pub fn needs_user_action(&self) -> (r: bool)
        ensures
            r == (*self is Denied),
    {
        match self {
            AccessibilityStatus::Denied => true,
            _ => false,
        }
    }
}

/// Where the system settings page for screen recording is.
pub const SCREEN_RECORDING_SETTINGS_URL: &'static str =
    "x-apple.systempreferences:com.apple.preference.security?Privacy_ScreenRecording";

/// Where the system settings page for accessibility is.
pub const ACCESSIBILITY_SETTINGS_URL: &'static str =
    "x-apple.systempreferences:com.apple.preference.security?Privacy_Accessibility";

/// Screen recording needs no permission on this platform.
pub fn screen_recording_status() -> (r: ScreenRecordingStatus)
    ensures
        r is NotSupported,
{
    ScreenRecordingStatus::NotSupported
}

/// Accessibility needs no permission on this platform.
pub fn accessibility_status() -> (r: AccessibilityStatus)
    ensures
        r is NotSupported,
{
    AccessibilityStatus::NotSupported
}

/// How to grant screen recording.
pub fn screen_recording_help_message() -> (r: &'static str)
    ensures
        r@ == "Grant Screen Recording permission: System Settings -> Privacy & Security -> Screen Recording. Toggle Photographic Memory on, then relaunch or re-check."@,
{
    "Grant Screen Recording permission: System Settings -> Privacy & Security -> Screen Recording. Toggle Photographic Memory on, then relaunch or re-check."
}

/// How to grant accessibility.
pub fn accessibility_help_message() -> (r: &'static str)
    ensures
        r@ == "Grant Accessibility permission: System Settings -> Privacy & Security -> Accessibility. Toggle Photographic Memory on, then relaunch or re-check."@,
{
    "Grant Accessibility permission: System Settings -> Privacy & Security -> Accessibility. Toggle Photographic Memory on, then relaunch or re-check."
}

} // verus!
