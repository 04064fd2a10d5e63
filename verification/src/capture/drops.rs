//! Counters for frames the delivery callback discarded.

use vstd::prelude::*;
use crate::audio::drops::{count_one, next_count, DropCause};

verus! {

/// Frames the screen callback discarded, split by cause.
///
/// Separate from, and in addition to, the engine's own count of dropped frames. They outlive
/// an engine, which is rebuilt on every resume.
#[derive(Debug, Clone, Copy, PartialEq, Eq, Structural)]
pub struct CaptureDropCounters {
    /// Channel full — downstream is slow.
    pub full: u64,
    /// Channel closed — downstream is gone.
    pub closed: u64,
}

/// Point-in-time copy.
#[derive(Debug, Clone, Copy, PartialEq, Eq, Structural)]
pub struct CaptureDropSnapshot {
    pub full: u64,
    pub closed: u64,
}

impl Default for CaptureDropCounters {
    fn default() -> (r: Self)
        ensures
            r == (CaptureDropCounters { full: 0, closed: 0 }),
    {
        CaptureDropCounters { full: 0, closed: 0 }
    }
}

impl Default for CaptureDropSnapshot {
    fn default() -> (r: Self)
        ensures
            r == (CaptureDropSnapshot { full: 0, closed: 0 }),
    {
        CaptureDropSnapshot { full: 0, closed: 0 }
    }
}

impl CaptureDropCounters {
    /// The counters after one more frame was dropped for this cause.
    pub open spec fn with_drop(self, cause: DropCause) -> CaptureDropCounters {
        match cause {
            DropCause::Full => CaptureDropCounters { full: next_count(self.full), ..self },
            DropCause::Closed => CaptureDropCounters { closed: next_count(self.closed), ..self },
        }
    }

    /// Copy both counters.
    pub fn snapshot(&self) -> (r: CaptureDropSnapshot)
        ensures
            r == (CaptureDropSnapshot { full: self.full, closed: self.closed }),
    {
        CaptureDropSnapshot { full: self.full, closed: self.closed }
    }
}

/// Record one discarded frame.
pub fn count_frame_drop(counters: &mut CaptureDropCounters, cause: DropCause)
    ensures
        *final(counters) == old(counters).with_drop(cause),
{
    match cause {
        DropCause::Full => counters.full = count_one(counters.full),
        DropCause::Closed => counters.closed = count_one(counters.closed),
    }
}

/// The engine's own counts of frames.
#[derive(Debug, Clone, Copy, PartialEq, Eq, Structural)]
pub struct FrameCounters {
    /// Frames sent to the channel.
    pub frames_captured: u64,
    /// Frames that the channel did not take.
    pub frames_dropped: u64,
}

/// Account for a frame that was offered to the channel: one that was taken is captured, one
/// that was not is dropped, for the engine and by its cause.
pub fn send_frame(
    sent: Result<(), DropCause>,
    frames: &mut FrameCounters,
    counters: &mut CaptureDropCounters,
)
    ensures
        sent is Ok ==> *final(frames) == (FrameCounters {
            frames_captured: next_count(old(frames).frames_captured),
            ..*old(frames)
        }) && *final(counters) == *old(counters),
        sent is Err ==> *final(frames) == (FrameCounters {
            frames_dropped: next_count(old(frames).frames_dropped),
            ..*old(frames)
        }) && *final(counters) == old(counters).with_drop(sent->Err_0),
{
    match sent {
        Ok(()) => frames.frames_captured = count_one(frames.frames_captured),
        Err(cause) => {
            frames.frames_dropped = count_one(frames.frames_dropped);
            count_frame_drop(counters, cause);
        },
    }
}

/// A dropped frame counts once: the causes together grow by one, as the engine's count does.
pub proof fn a_dropped_frame_counts_once(counters: CaptureDropCounters, cause: DropCause)
    requires
        counters.full < u64::MAX,
        counters.closed < u64::MAX,
    ensures
        counters.with_drop(cause).full + counters.with_drop(cause).closed == counters.full
            + counters.closed + 1,
{
}

/// A frame that the channel took counts as captured, and one that it did not take counts once as
/// dropped and once under its cause; no other count moves.
pub proof fn a_frame_moves_its_own_counts(sent: Result<(), DropCause>)
    ensures
        forall|frames: &mut FrameCounters, drops: &mut CaptureDropCounters|
            #[trigger] call_ensures(send_frame, (sent, frames, drops), ())
                && (*frames).frames_captured < u64::MAX && (*frames).frames_dropped < u64::MAX
                && (*drops).full < u64::MAX && (*drops).closed < u64::MAX ==> {
                &&& sent is Ok ==> (*final(frames)).frames_captured == (*frames).frames_captured
                    + 1 && (*final(frames)).frames_dropped == (*frames).frames_dropped
                    && (*final(drops)).full == (*drops).full && (*final(drops)).closed == (*drops).closed
                &&& sent is Err ==> (*final(frames)).frames_captured == (*frames).frames_captured
                    && (*final(frames)).frames_dropped == (*frames).frames_dropped + 1
                &&& sent == Err::<(), DropCause>(DropCause::Full) ==> (*final(drops)).full
                    == (*drops).full + 1 && (*final(drops)).closed == (*drops).closed
                &&& sent == Err::<(), DropCause>(DropCause::Closed) ==> (*final(drops)).full
                    == (*drops).full && (*final(drops)).closed == (*drops).closed + 1
            },
{
}

/// A snapshot holds the counts as they are.
pub proof fn a_snapshot_of_drops_is_exact(counters: CaptureDropCounters, r: CaptureDropSnapshot)
    requires
        call_ensures(CaptureDropCounters::snapshot, (&counters,), r),
    ensures
        r.full == counters.full,
        r.closed == counters.closed,
{
}

/// A drop is counted under its cause, and nowhere else.
pub proof fn a_drop_is_counted_under_its_cause(cause: DropCause)
    ensures
        forall|c: &mut CaptureDropCounters|
            #[trigger] call_ensures(count_frame_drop, (c, cause), ()) && (*c).full < u64::MAX
                && (*c).closed < u64::MAX ==> {
                &&& cause is Full ==> (*final(c)).full == (*c).full + 1 && (*final(c)).closed == (
                *c).closed
                &&& cause is Closed ==> (*final(c)).closed == (*c).closed + 1 && (*final(c)).full
                    == (*c).full
            },
{
}

} // verus!
