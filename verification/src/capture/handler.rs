//! What the delivery callback does with a frame.

use vstd::prelude::*;
use crate::audio::handler::StreamOutput;

verus! {

/// Warn on the first null-image-buffer frame per display, then every Nth, so a genuinely stuck
/// display keeps surfacing without spamming the log at boot.
pub const NULL_BUFFER_WARN_EVERY: u64 = 150;

/// Whether the frame without an image that brought the count here is worth a warning.
pub fn should_warn(null_frame_count: u64) -> (r: bool)
    ensures
        r == (null_frame_count == 1 || null_frame_count % NULL_BUFFER_WARN_EVERY == 0),
{
    null_frame_count == 1 || null_frame_count % NULL_BUFFER_WARN_EVERY == 0
}

/// What to do with a frame.
#[derive(Debug, Clone, Copy, PartialEq, Eq, Structural)]
pub enum FrameStep {
    /// Nothing: it is not a frame of the screen.
    Ignore,
    /// Skip it: it has no pixels. So many of its kind have come, and this one is worth a
    /// warning or not.
    Skip { count: u64, warn: bool },
    /// Send it on.
    Send,
}

/// Decide what to do with a frame. Frames with no image buffer come during cold display init;
/// they never reach the pipeline.
pub fn frame_received(output: StreamOutput, has_image: bool, null_buffer_frames: &mut u64) -> (r:
    FrameStep)
    requires
        *old(null_buffer_frames) < u64::MAX,
    ensures
        output != StreamOutput::Screen ==> r == FrameStep::Ignore,
        output == StreamOutput::Screen && has_image ==> r == FrameStep::Send,
        output == StreamOutput::Screen && !has_image ==> {
            let n = *old(null_buffer_frames) + 1;
            r == (FrameStep::Skip {
                count: n as u64,
                warn: n == 1 || n % NULL_BUFFER_WARN_EVERY as int == 0,
            }) && *final(null_buffer_frames) == n
        },
        !(r is Skip) ==> *final(null_buffer_frames) == *old(null_buffer_frames),
{
    match output {
        StreamOutput::Screen => {
            if has_image {
                return FrameStep::Send;
            }
            let n: u64 = *null_buffer_frames + 1;
            *null_buffer_frames = n;
            FrameStep::Skip { count: n, warn: should_warn(n) }
        },
        _ => FrameStep::Ignore,
    }
}

/// A frame of the screen with an image is sent on, one without is skipped and counted, and
/// anything else is ignored. The first that is skipped is worth a warning, and every hundred and
/// fiftieth.
pub proof fn a_frame_is_sent_skipped_or_ignored(output: StreamOutput, has_image: bool, r: FrameStep)
    ensures
        forall|count: &mut u64|
            *count < u64::MAX && #[trigger] call_ensures(
                frame_received,
                (output, has_image, count),
                r,
            ) ==> {
                &&& output is Screen && has_image ==> r is Send && *final(count) == *count
                &&& output is Screen && !has_image ==> r is Skip && r->count == *count + 1
                    && *final(count) == *count + 1 && (r->warn <==> *count == 0 || (*count + 1)
                    % 150 == 0)
                &&& !(output is Screen) ==> r is Ignore && *final(count) == *count
            },
{
}

/// The first frame without an image is worth a warning, and every hundred and fiftieth.
pub proof fn a_warning_comes_first_and_then_now_and_again(n: u64, r: bool)
    requires
        call_ensures(should_warn, (n,), r),
    ensures
        r <==> n == 1 || n % 150 == 0,
{
}

} // verus!
