//! Screen capture: one stream per display, and what is done with their frames.

use vstd::prelude::*;

pub mod drops;
pub mod encoder;
pub mod engine;
pub mod error;
pub mod handler;
pub mod metadata;
pub mod pixel_buffer;

verus! {

/// Backpressure buffer size of the frame channel, unless configured otherwise.
pub const DEFAULT_CHANNEL_BUFFER_SIZE: usize = 32;

/// Health snapshot of the capture engine.
#[derive(Debug, Clone, Copy, PartialEq, Eq, Structural)]
pub struct CaptureStatus {
    /// Number of displays currently being captured.
    pub active_displays: usize,
    /// Total frames sent to the channel.
    pub total_frames_captured: u64,
    /// Total frames dropped due to channel backpressure.
    pub total_frames_dropped: u64,
}

} // verus!
