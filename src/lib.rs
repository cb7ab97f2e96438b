//! Capture session engine: a timer-driven screenshot scheduler with pausing,
//! disk-headroom reclamation and a per-session byte budget, all verified.

pub mod analysis;
pub mod bytes;
pub mod context_log;
pub mod controls;
pub mod engine;
pub mod pause;
pub mod permissions;
pub mod privacy;
pub mod scheduler;
pub mod screenshot;
pub mod scroll_capture;
pub mod storage;
pub mod system_activity;
pub mod text;
pub mod watch;
