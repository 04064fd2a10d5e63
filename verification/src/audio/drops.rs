//! Counters for buffers the real-time audio callbacks discarded.

use vstd::prelude::*;

verus! {

/// Buffers the real-time callbacks discarded.
///
/// The counts only grow for as long as the pipeline lives, which is what lets a reporter
/// compute deltas by plain subtraction with no restart case.
#[derive(Debug, Clone, Copy, PartialEq, Eq, Structural)]
pub struct AudioDropCounters {
    /// Mic buffer dropped: encoding channel full (downstream slow).
    pub mic_full: u64,
    /// Mic buffer dropped: encoding channel closed (downstream gone).
    pub mic_closed: u64,
    /// Mic buffer dropped: the converter failed.
    pub mic_convert_failed: u64,
    /// System audio buffer dropped: encoding channel full.
    pub system_full: u64,
    /// System audio buffer dropped: encoding channel closed.
    pub system_closed: u64,
}

/// Point-in-time copy of the counters.
#[derive(Debug, Clone, Copy, PartialEq, Eq, Structural)]
pub struct AudioDropSnapshot {
    pub mic_full: u64,
    pub mic_closed: u64,
    pub mic_convert_failed: u64,
    pub system_full: u64,
    pub system_closed: u64,
}

impl Default for AudioDropCounters {
    fn default() -> (r: Self)
        ensures
            r == (AudioDropCounters {
                mic_full: 0,
                mic_closed: 0,
                mic_convert_failed: 0,
                system_full: 0,
                system_closed: 0,
            }),
    {
        AudioDropCounters {
            mic_full: 0,
            mic_closed: 0,
            mic_convert_failed: 0,
            system_full: 0,
            system_closed: 0,
        }
    }
}

impl Default for AudioDropSnapshot {
    fn default() -> (r: Self)
        ensures
            r == (AudioDropSnapshot {
                mic_full: 0,
                mic_closed: 0,
                mic_convert_failed: 0,
                system_full: 0,
                system_closed: 0,
            }),
    {
        AudioDropSnapshot {
            mic_full: 0,
            mic_closed: 0,
            mic_convert_failed: 0,
            system_full: 0,
            system_closed: 0,
        }
    }
}

/// Which of the two audio producers a dropped buffer came from.
#[derive(Debug, Clone, Copy, PartialEq, Eq, Structural)]
pub enum AudioSourceKind {
    /// The system-audio delivery callback.
    System,
    /// The microphone tap.
    Microphone,
}

/// Why a channel refused a buffer.
#[derive(Debug, Clone, Copy, PartialEq, Eq, Structural)]
pub enum DropCause {
    /// Channel full — downstream is slow.
    Full,
    /// Channel closed — downstream is gone.
    Closed,
}

/// One more than `n`, wrapping around at the end of the range.
pub open spec fn next_count(n: u64) -> u64 {
    if n == u64::MAX {
        0
    } else {
        (n + 1) as u64
    }
}

/// Adds one to a counter, as an atomic addition does.
pub fn count_one(n: u64) -> (r: u64)
    ensures
        r == next_count(n),
{
    if n == u64::MAX {
        0
    } else {
        n + 1
    }
}

/// The counters after one more buffer from this producer was dropped for this cause.
pub open spec fn with_drop(
    c: AudioDropCounters,
    from: AudioSourceKind,
    cause: DropCause,
) -> AudioDropCounters {
    match (from, cause) {
        (AudioSourceKind::System, DropCause::Full) => AudioDropCounters {
            system_full: next_count(c.system_full),
            ..c
        },
        (AudioSourceKind::System, DropCause::Closed) => AudioDropCounters {
            system_closed: next_count(c.system_closed),
            ..c
        },
        (AudioSourceKind::Microphone, DropCause::Full) => AudioDropCounters {
            mic_full: next_count(c.mic_full),
            ..c
        },
        (AudioSourceKind::Microphone, DropCause::Closed) => AudioDropCounters {
            mic_closed: next_count(c.mic_closed),
            ..c
        },
    }
}

impl AudioDropCounters {
    /// Copy every counter.
    pub fn snapshot(&self) -> (r: AudioDropSnapshot)
        ensures
            r.mic_full == self.mic_full,
            r.mic_closed == self.mic_closed,
            r.mic_convert_failed == self.mic_convert_failed,
            r.system_full == self.system_full,
            r.system_closed == self.system_closed,
    {
        AudioDropSnapshot {
            mic_full: self.mic_full,
            mic_closed: self.mic_closed,
            mic_convert_failed: self.mic_convert_failed,
            system_full: self.system_full,
            system_closed: self.system_closed,
        }
    }
}

/// Account for the outcome of sending one audio buffer: a refusal counts in the one field of
/// its producer and cause, a success nowhere.
pub fn send_audio(
    sent: Result<(), DropCause>,
    counters: &mut AudioDropCounters,
    from: AudioSourceKind,
)
    ensures
        sent is Ok ==> *final(counters) == *old(counters),
        sent is Err ==> *final(counters) == with_drop(*old(counters), from, sent->Err_0),
{
    match sent {
        Ok(()) => {},
        Err(cause) => match (from, cause) {
            (AudioSourceKind::System, DropCause::Full) => {
                counters.system_full = count_one(counters.system_full);
            },
            (AudioSourceKind::System, DropCause::Closed) => {
                counters.system_closed = count_one(counters.system_closed);
            },
            (AudioSourceKind::Microphone, DropCause::Full) => {
                counters.mic_full = count_one(counters.mic_full);
            },
            (AudioSourceKind::Microphone, DropCause::Closed) => {
                counters.mic_closed = count_one(counters.mic_closed);
            },
        },
    }
}

/// Record one discarded system-audio buffer.
pub fn count_system_drop(counters: &mut AudioDropCounters, cause: DropCause)
    ensures
        *final(counters) == with_drop(*old(counters), AudioSourceKind::System, cause),
{
    match cause {
        DropCause::Full => {
            counters.system_full = count_one(counters.system_full);
        },
        DropCause::Closed => {
            counters.system_closed = count_one(counters.system_closed);
        },
    }
}

/// The sum of all the counters.
pub open spec fn total(c: AudioDropCounters) -> int {
    c.mic_full + c.mic_closed + c.mic_convert_failed + c.system_full + c.system_closed
}

/// A drop counts exactly once, in one field, as long as that field is not at its end.
pub proof fn a_drop_counts_once(c: AudioDropCounters, from: AudioSourceKind, cause: DropCause)
    requires
        c.mic_full < u64::MAX,
        c.mic_closed < u64::MAX,
        c.system_full < u64::MAX,
        c.system_closed < u64::MAX,
    ensures
        total(with_drop(c, from, cause)) == total(c) + 1,
        with_drop(c, from, cause).mic_convert_failed == c.mic_convert_failed,
{
}

/// Drops of different producers or causes never meet in a field: their order is all one.
pub proof fn drops_commute(
    c: AudioDropCounters,
    from: AudioSourceKind,
    cause: DropCause,
    other_from: AudioSourceKind,
    other_cause: DropCause,
)
    ensures
        with_drop(with_drop(c, from, cause), other_from, other_cause) == with_drop(
            with_drop(c, other_from, other_cause),
            from,
            cause,
        ),
{
}

/// A buffer that was refused counts once, in the field of its producer and its cause, and nowhere
/// else; one that was taken counts nowhere.
pub proof fn a_refused_buffer_moves_its_own_count(sent: Result<(), DropCause>, from: AudioSourceKind)
    ensures
        forall|c: &mut AudioDropCounters|
            #[trigger] call_ensures(send_audio, (sent, c, from), ()) && (*c).mic_full < u64::MAX
                && (*c).mic_closed < u64::MAX && (*c).system_full < u64::MAX
                && (*c).system_closed < u64::MAX ==> {
                let full = sent == Err::<(), DropCause>(DropCause::Full);
                let closed = sent == Err::<(), DropCause>(DropCause::Closed);
                let mic = from is Microphone;
                &&& (*final(c)).mic_full == (*c).mic_full + (if mic && full {
                    1int
                } else {
                    0
                })
                &&& (*final(c)).mic_closed == (*c).mic_closed + (if mic && closed {
                    1int
                } else {
                    0
                })
                &&& (*final(c)).system_full == (*c).system_full + (if !mic && full {
                    1int
                } else {
                    0
                })
                &&& (*final(c)).system_closed == (*c).system_closed + (if !mic && closed {
                    1int
                } else {
                    0
                })
                &&& (*final(c)).mic_convert_failed == (*c).mic_convert_failed
            },
{
}

/// A system buffer that was dropped counts as one that the channel refused.
pub proof fn a_system_drop_is_a_refused_system_buffer(cause: DropCause)
    ensures
        forall|c: &mut AudioDropCounters|
            #[trigger] call_ensures(count_system_drop, (c, cause), ()) && (*c).system_full
                < u64::MAX && (*c).system_closed < u64::MAX ==> {
                &&& cause is Full ==> (*final(c)).system_full == (*c).system_full + 1 && (*final(
                    c
                )).system_closed == (*c).system_closed
                &&& cause is Closed ==> (*final(c)).system_closed == (*c).system_closed + 1
                    && (*final(c)).system_full == (*c).system_full
                &&& (*final(c)).mic_full == (*c).mic_full
                &&& (*final(c)).mic_closed == (*c).mic_closed
                &&& (*final(c)).mic_convert_failed == (*c).mic_convert_failed
            },
{
}

/// A count goes up by one, and from its end back to nothing; a snapshot holds every count.
pub proof fn a_count_goes_up_by_one(
    n: u64,
    next: u64,
    counters: AudioDropCounters,
    r: AudioDropSnapshot,
)
    requires
        call_ensures(count_one, (n,), next),
        call_ensures(AudioDropCounters::snapshot, (&counters,), r),
    ensures
        n < 0xffff_ffff_ffff_ffff ==> next == n + 1,
        n == 0xffff_ffff_ffff_ffff ==> next == 0,
        next == next_count(n),
        r.mic_full == counters.mic_full,
        r.mic_closed == counters.mic_closed,
        r.mic_convert_failed == counters.mic_convert_failed,
        r.system_full == counters.system_full,
        r.system_closed == counters.system_closed,
{
}

} // verus!
