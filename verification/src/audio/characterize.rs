//! Microphone characterization: both sides of each conversion, for offline analysis.

use vstd::prelude::*;
use crate::audio::drops::{count_one, next_count, AudioDropCounters};
use crate::audio::microphone::{
    convert_to_mono_samples, outcome_of, Conversion, ConversionOutcome,
};

verus! {

/// One tap callback's worth of data: both sides of the conversion for the same input buffer,
/// so the writer never has to pair two streams.
#[derive(Debug, Clone, PartialEq, Eq)]
pub struct CharacterizationFrame<T> {
    /// Monotonic per-session counter, assigned in the callback. A gap means a frame was
    /// dropped between the tap and the writer.
    pub seq: u64,
    /// Native input, one `Vec` per channel. Every channel has the same length.
    ///
    /// Empty means the callback got a buffer with frames it could not read. The `seq` was
    /// still consumed. Treat such a frame as malformed, never as silence.
    pub native: Vec<Vec<T>>,
    /// The converter's result for this same buffer.
    pub outcome: ConversionOutcome<T>,
}

/// One callback's characterization work: pair the native channels with the converter's
/// result and stamp a sequence number.
///
/// `None`, without consuming a sequence number, for a zero-frame buffer, so that leaves no
/// gap to misread as a drop. A buffer that has frames but cannot be read still gets a frame
/// and a sequence number, with `native` empty.
pub fn characterize_buffer<T: Copy>(
    frame_length: u32,
    channels: Option<Vec<Vec<T>>>,
    conversion: Conversion<T>,
    counters: &mut AudioDropCounters,
    next_seq: &mut u64,
) -> (r: Option<CharacterizationFrame<T>>)
    ensures
        r is Some <==> frame_length > 0,
        r is None ==> *final(next_seq) == *old(next_seq) && *final(counters) == *old(counters),
        r is Some ==> {
            &&& r->0.seq == *old(next_seq)
            &&& *final(next_seq) == next_count(*old(next_seq))
            &&& channels is Some ==> r->0.native == channels->0
            &&& channels is None ==> r->0.native@.len() == 0
            &&& outcome_of(conversion, r->0.outcome)
            &&& *final(counters) == (if r->0.outcome is Failed {
                AudioDropCounters {
                    mic_convert_failed: next_count(old(counters).mic_convert_failed),
                    ..*old(counters)
                }
            } else {
                *old(counters)
            })
        },
{
    if frame_length == 0 {
        return None;
    }
    let native = match channels {
        Some(planes) => planes,
        None => Vec::new(),
    };
    let outcome = convert_to_mono_samples(conversion, counters);
    let seq: u64 = *next_seq;
    *next_seq = count_one(seq);
    Some(CharacterizationFrame { seq, native, outcome })
}

/// A buffer with frames is recorded with the next number, both sides of its conversion, and what
/// could not be read as nothing; one without frames takes no number.
pub proof fn a_recorded_buffer_takes_the_next_number<T: Copy>(
    frame_length: u32,
    channels: Option<Vec<Vec<T>>>,
    conversion: Conversion<T>,
    r: Option<CharacterizationFrame<T>>,
)
    ensures
        forall|c: &mut AudioDropCounters, seq: &mut u64|
            #[trigger] call_ensures(
                characterize_buffer::<T>,
                (frame_length, channels, conversion, c, seq),
                r,
            ) && *seq < u64::MAX && (*c).mic_convert_failed < u64::MAX ==> {
                &&& frame_length == 0 ==> r is None && *final(seq) == *seq && *final(c) == *c
                &&& frame_length > 0 ==> r is Some && r->0.seq == *seq && *final(seq) == *seq + 1
                    && outcome_of(conversion, r->0.outcome) && (*final(c)).mic_convert_failed
                    == (*c).mic_convert_failed + (if r->0.outcome is Failed {
                    1int
                } else {
                    0
                })
                &&& frame_length > 0 && channels is Some ==> r->0.native == channels->0
                &&& frame_length > 0 && channels is None ==> r->0.native@.len() == 0
            },
{
}

} // verus!
