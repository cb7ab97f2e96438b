//! Screenshot providers known to the application.

use vstd::prelude::*;

verus! {

/// Captures the screen with the system's screenshot tool.
#[derive(Debug, Default, Clone, Copy)]
pub struct MacOsScreenshotProvider;

/// Writes a small placeholder file instead of a screenshot.
#[derive(Debug, Default, Clone, Copy)]
pub struct MockScreenshotProvider;

} // verus!
