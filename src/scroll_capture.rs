//! Settings, statistics and small pixel rules of multi-frame scroll capture.

use vstd::prelude::*;

verus! {

/// Pause between two frames, in milliseconds.
pub const DEFAULT_SCROLL_FRAME_INTERVAL_MS: u64 = 180;

/// Longest scroll capture, in milliseconds.
pub const DEFAULT_SCROLL_MAX_DURATION_MS: u64 = 180000;

/// Most frames in one scroll capture.
pub const DEFAULT_SCROLL_MAX_FRAMES: usize = 900;

/// Largest stitched image, in pixels.
pub const MAX_OUTPUT_PIXELS: u64 = 120000000;

/// Ends a scroll capture.
#[derive(Debug, Clone, Copy, PartialEq, Eq, Structural)]
pub enum ScrollControlCommand {
    Stop,
}

/// Settings of one scroll capture; durations in milliseconds.
#[derive(Debug, Clone)]
pub struct ScrollCaptureConfig {
    pub output_dir: String,
    pub filename_prefix: String,
    pub frame_interval_ms: u64,
    pub max_duration_ms: u64,
    pub max_frames: usize,
}

impl ScrollCaptureConfig {
    /// Settings with the default pace and limits.
    pub fn new(output_dir: String, filename_prefix: String) -> (r: ScrollCaptureConfig)
        ensures
            r.output_dir == output_dir,
            r.filename_prefix == filename_prefix,
            r.frame_interval_ms == DEFAULT_SCROLL_FRAME_INTERVAL_MS,
            r.max_duration_ms == DEFAULT_SCROLL_MAX_DURATION_MS,
            r.max_frames == DEFAULT_SCROLL_MAX_FRAMES,
    {
        ScrollCaptureConfig {
            output_dir,
            filename_prefix,
            frame_interval_ms: DEFAULT_SCROLL_FRAME_INTERVAL_MS,
            max_duration_ms: DEFAULT_SCROLL_MAX_DURATION_MS,
            max_frames: DEFAULT_SCROLL_MAX_FRAMES,
        }
    }
}

/// Counts gathered while stitching.
#[derive(Debug, Clone, Default, PartialEq, Eq, Structural)]
pub struct ScrollCaptureStats {
    pub raw_frames: usize,
    pub stitched_frames: usize,
    pub duplicate_frames: usize,
    pub fallback_alignments: usize,
    pub dimension_mismatches: usize,
    pub final_width: u32,
    pub final_height: u32,
}

/// The stitched image and how the capture ended.
#[derive(Debug, Clone)]
pub struct ScrollCaptureSummary {
    pub path: String,
    pub stats: ScrollCaptureStats,
    pub finished_by_limit: bool,
}

/// Progress of a scroll capture.
#[derive(Debug, Clone)]
pub enum ScrollCaptureEvent {
    Started,
    FrameCaptured { raw_frames: usize },
    Stitching { raw_frames: usize },
    Completed(ScrollCaptureSummary),
}

/// Weighted luma of an RGBA pixel, `(299 R + 587 G + 114 B) / 1000`.
pub fn luma(pixel: [u8; 4]) -> (r: u8)
    ensures
        r as int == (299 * pixel[0] as int + 587 * pixel[1] as int + 114 * pixel[2] as int) / 1000,
{
    let value = (pixel[0] as u32) * 299 + (pixel[1] as u32) * 587 + (pixel[2] as u32) * 114;
    (value / 1000) as u8
}

/// A stitched image that would be too large.
#[derive(Debug, Clone, Copy, PartialEq, Eq, Structural)]
pub struct PixelBudgetError {
    pub width: u32,
    pub height: u32,
    pub pixels: u64,
}

/// Accepts an image of at most [`MAX_OUTPUT_PIXELS`] pixels.
pub fn ensure_pixel_budget(width: u32, height: u32) -> (r: Result<(), PixelBudgetError>)
    ensures
        r is Ok <==> width as int * height as int <= MAX_OUTPUT_PIXELS,
        r is Err ==> r->Err_0 == (PixelBudgetError {
            width,
            height,
            pixels: (width as int * height as int) as u64,
        }),
{
    assert(width as int * height as int <= u32::MAX as int * u32::MAX as int) by (nonlinear_arith);
    let pixels = (width as u64) * (height as u64);
    if pixels > MAX_OUTPUT_PIXELS {
        return Err(PixelBudgetError { width, height, pixels });
    }
    Ok(())
}

} // verus!
