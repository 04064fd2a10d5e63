//! What the system-audio callback delivers to the encoder.

use vstd::prelude::*;
use crate::audio::AudioSource;

verus! {

/// A buffer of PCM audio samples.
#[derive(Debug, Clone, PartialEq, Eq)]
pub struct AudioBuffer<T> {
    /// Interleaved PCM samples.
    pub samples: Vec<T>,
    /// Wall-clock timestamp in milliseconds since epoch.
    pub timestamp_ms: i64,
    /// Whether this came from system audio or the microphone.
    pub source: AudioSource,
}

/// A message on the audio encoding channel: captured PCM, or a request to finalize an
/// in-progress segment. Both travel the same channel so a flush is always ordered after
/// every buffer already queued.
#[derive(Debug, Clone, PartialEq, Eq)]
pub enum AudioMessage<T> {
    Buffer(AudioBuffer<T>),
    /// Finalize the current mic segment now — sent when the mic is disabled.
    FlushMic,
    /// Finalize the current system-audio segment now — sent when capture is stopped.
    FlushSystem,
}

/// The kinds of output that a capture stream delivers.
#[derive(Debug, Clone, Copy, PartialEq, Eq, Structural)]
pub enum StreamOutput {
    Screen,
    Audio,
    /// Microphone, or a kind that is not known.
    Other,
}

/// The number whose bytes, least significant first, stand at `at`.
pub open spec fn word_at(bytes: Seq<u8>, at: int) -> u32 {
    (bytes[at] + 256 * bytes[at + 1] + 65_536 * bytes[at + 2] + 16_777_216 * bytes[at + 3]) as u32
}

/// Read little-endian 32-bit float PCM data: each result is the bit pattern of one sample.
///
/// Any trailing bytes that don't form a complete sample (4 bytes) are dropped.
pub fn bytes_to_f32_samples(bytes: &[u8]) -> (r: Vec<u32>)
    ensures
        r@ == Seq::new(bytes@.len() / 4, |i: int| word_at(bytes@, 4 * i)),
{
    let mut out: Vec<u32> = Vec::new();
    let mut at: usize = 0;
    while bytes.len() - at >= 4
        invariant
            at <= bytes.len(),
            at == 4 * out@.len(),
            out@ == Seq::new(out@.len(), |i: int| word_at(bytes@, 4 * i)),
        decreases bytes.len() - at,
    {
        let word: u32 = bytes[at] as u32 + 256 * bytes[at + 1] as u32 + 65_536 * bytes[at
            + 2] as u32 + 16_777_216 * bytes[at + 3] as u32;
        out.push(word);
        at += 4;
        proof {
            assert(out@ =~= Seq::new(out@.len(), |i: int| word_at(bytes@, 4 * i)));
        }
    }
    out
}

/// Map a stream's output kind to an `AudioSource`.
///
/// `None` for screen output, and for the microphone, which has a capture path of its own.
pub fn source_from_output_type(output_type: StreamOutput) -> (r: Option<AudioSource>)
    ensures
        r == (if output_type == StreamOutput::Audio {
            Some(AudioSource::System)
        } else {
            None
        }),
{
    match output_type {
        StreamOutput::Audio => Some(AudioSource::System),
        StreamOutput::Screen => None,
        StreamOutput::Other => None,
    }
}

/// The buffer that one callback delivers: its samples as bit patterns, or nothing where the
/// output is no audio or holds no complete sample.
pub fn deliver(output_type: StreamOutput, pcm: Option<Vec<u8>>, timestamp_ms: i64) -> (r: Option<
    AudioBuffer<u32>,
>)
    ensures
        r is Some <==> output_type == StreamOutput::Audio && pcm is Some && pcm->0@.len() >= 4,
        r is Some ==> {
            &&& r->0.samples@ == Seq::new(pcm->0@.len() / 4, |i: int| word_at(pcm->0@, 4 * i))
            &&& r->0.timestamp_ms == timestamp_ms
            &&& r->0.source == AudioSource::System
        },
{
    let source = match source_from_output_type(output_type) {
        Some(source) => source,
        None => {
            return None;
        },
    };
    match pcm {
        None => None,
        Some(bytes) => {
            let samples = bytes_to_f32_samples(bytes.as_slice());
            if samples.len() == 0 {
                None
            } else {
                Some(AudioBuffer { samples, timestamp_ms, source })
            }
        },
    }
}

/// Bytes are read as samples of four, the low byte first; what is left over at the end is dropped.
pub proof fn four_bytes_are_a_sample(bytes: &[u8], r: Vec<u32>, i: int)
    requires
        call_ensures(bytes_to_f32_samples, (bytes,), r),
    ensures
        r@.len() == bytes@.len() / 4,
        0 <= i < r@.len() ==> r@[i] == bytes@[4 * i] + 256 * bytes@[4 * i + 1] + 65_536
            * bytes@[4 * i + 2] + 16_777_216 * bytes@[4 * i + 3],
{
}

/// A callback delivers the samples of system audio, as it came, and nothing else.
pub proof fn a_callback_delivers_system_audio(
    output: StreamOutput,
    source: Option<AudioSource>,
    pcm: Vec<u8>,
    bytes: &[u8],
    samples: Vec<u32>,
    timestamp_ms: i64,
    r: Option<AudioBuffer<u32>>,
    nothing: Option<AudioBuffer<u32>>,
)
    requires
        bytes@ == pcm@,
        call_ensures(source_from_output_type, (output,), source),
        call_ensures(bytes_to_f32_samples, (bytes,), samples),
        call_ensures(deliver, (output, Some(pcm), timestamp_ms), r),
        call_ensures(deliver, (output, None, timestamp_ms), nothing),
    ensures
        nothing is None,
        output is Audio ==> source == Some(AudioSource::System),
        !(output is Audio) ==> source is None && r is None,
        output is Audio ==> (r is Some <==> pcm@.len() >= 4),
        r is Some ==> r->0.samples@ == samples@ && r->0.timestamp_ms == timestamp_ms
            && r->0.source is System,
{
    if r is Some {
        assert(r->0.samples@ =~= samples@);
    }
}

} // verus!
