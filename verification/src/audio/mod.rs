//! Audio capture: from PCM samples to Opus segments on disk.

use vstd::prelude::*;
use crate::text::{concat, concat3, decimal, decimal_i64, join_path, joined, owned};

pub mod accumulator;
pub mod characterize;
pub mod device;
pub mod drops;
pub mod encoder;
pub mod engine;
pub mod handler;
pub mod microphone;

verus! {

/// Fixed sample rate: 48 kHz is Opus's native rate and what ScreenCaptureKit delivers.
pub const SAMPLE_RATE: u32 = 48_000;

/// Fixed channel count: capture is mono.
pub const CHANNEL_COUNT: u32 = 1;

/// Errors from audio capture.
#[derive(Debug, Clone, PartialEq, Eq)]
pub enum AudioError {
    /// ScreenCaptureKit setup or runtime failure.
    ScreenCaptureKit(String),
    /// Opus encoding failure.
    Encoding(String),
    /// File I/O failure.
    Io(String),
    /// Microphone permission denied. System audio may still work.
    MicrophonePermissionDenied,
    /// Microphone setup or runtime failure.
    Microphone(String),
}

impl AudioError {
    /// The error in words.
    pub open spec fn words(self) -> Seq<char> {
        match self {
            AudioError::ScreenCaptureKit(s) => "screen capture kit error: "@ + s@,
            AudioError::Encoding(s) => "encoding error: "@ + s@,
            AudioError::Io(s) => "io error: "@ + s@,
            AudioError::MicrophonePermissionDenied => "microphone permission denied"@,
            AudioError::Microphone(s) => "microphone error: "@ + s@,
        }
    }

    /// The error in words.
    pub fn message(&self) -> (r: String)
        ensures
            r@ == self.words(),
    {
        match self {
            AudioError::ScreenCaptureKit(s) => concat("screen capture kit error: ", s.as_str()),
            AudioError::Encoding(s) => concat("encoding error: ", s.as_str()),
            AudioError::Io(s) => concat("io error: ", s.as_str()),
            AudioError::MicrophonePermissionDenied => owned("microphone permission denied"),
            AudioError::Microphone(s) => concat("microphone error: ", s.as_str()),
        }
    }
}

/// Audio source type.
#[derive(Debug, Clone, Copy, PartialEq, Eq, Structural)]
pub enum AudioSource {
    Microphone,
    System,
}

impl AudioSource {
    /// The name of the source in the storage schema.
    pub open spec fn name(self) -> Seq<char> {
        match self {
            AudioSource::Microphone => "mic"@,
            AudioSource::System => "system"@,
        }
    }

    /// String representation matching the storage schema.
    pub fn as_str(&self) -> (r: &'static str)
        ensures
            r@ == self.name(),
    {
        match self {
            AudioSource::Microphone => "mic",
            AudioSource::System => "system",
        }
    }

    /// Whether the codec is tuned for speech, as it is for the microphone, or for sound of any
    /// kind.
    pub fn is_speech(&self) -> (r: bool)
        ensures
            r == (*self == AudioSource::Microphone),
    {
        match self {
            AudioSource::Microphone => true,
            AudioSource::System => false,
        }
    }
}

/// A completed audio segment ready for storage.
#[derive(Debug, Clone, PartialEq, Eq)]
pub struct CompletedSegment {
    /// Mic or system.
    pub source: AudioSource,
    /// Path of the Opus file on disk.
    pub path: String,
    /// Segment start timestamp (ms since epoch).
    pub start_timestamp: i64,
    /// Segment end timestamp (ms since epoch).
    pub end_timestamp: i64,
}

/// Configuration for the audio engine.
#[derive(Debug, Clone, PartialEq, Eq)]
pub struct AudioConfig {
    /// Segment duration in seconds. Default: 30.
    pub segment_duration_secs: u32,
    /// Opus encoding bitrate in bits/sec. Default: 64000.
    pub bitrate: u32,
    /// Output directory for segment files.
    pub output_dir: String,
}

impl Default for AudioConfig {
    fn default() -> (r: Self)
        ensures
            r.segment_duration_secs == 30,
            r.bitrate == 64_000,
            r.output_dir@ == "audio"@,
    {
        AudioConfig { segment_duration_secs: 30, bitrate: 64_000, output_dir: owned("audio") }
    }
}

/// The name of a segment's file: `{timestamp}_{source}.opus`.
pub open spec fn segment_file(timestamp_ms: int, source: AudioSource) -> Seq<char> {
    decimal(timestamp_ms) + "_"@ + source.name() + ".opus"@
}

/// Generate a flat segment file path: `{output_dir}/{timestamp}_{source}.opus`.
///
/// Staging paths are flat — no date subdirectories. The permanent path, which storage
/// allocates, has the year, month and day.
pub fn segment_path(output_dir: &str, timestamp_ms: i64, source: AudioSource) -> (r: String)
    ensures
        r@ == joined(output_dir@, segment_file(timestamp_ms as int, source)),
{
    let stem = concat3(decimal_i64(timestamp_ms).as_str(), "_", source.as_str());
    join_path(output_dir, concat(stem.as_str(), ".opus").as_str())
}

/// An error says what failed and why.
pub proof fn an_audio_error_says_what_failed(error: AudioError, r: String)
    requires
        call_ensures(AudioError::message, (&error,), r),
    ensures
        error matches AudioError::ScreenCaptureKit(s) ==> r@ == "screen capture kit error: "@ + s@,
        error matches AudioError::Encoding(s) ==> r@ == "encoding error: "@ + s@,
        error matches AudioError::Io(s) ==> r@ == "io error: "@ + s@,
        error is MicrophonePermissionDenied ==> r@ == "microphone permission denied"@,
        error matches AudioError::Microphone(s) ==> r@ == "microphone error: "@ + s@,
        error.words() == r@,
{
}

/// A segment's file is named for its time and its source, and only the microphone's is speech.
pub proof fn a_segment_is_named_for_its_time_and_source(
    output_dir: &str,
    timestamp_ms: i64,
    source: AudioSource,
    name: &str,
    speech: bool,
    r: String,
)
    requires
        call_ensures(AudioSource::as_str, (&source,), name),
        call_ensures(AudioSource::is_speech, (&source,), speech),
        call_ensures(segment_path, (output_dir, timestamp_ms, source), r),
    ensures
        source is Microphone ==> name@ == "mic"@ && speech,
        source is System ==> name@ == "system"@ && !speech,
        source.name() == name@,
        r@ == joined(output_dir@, decimal(timestamp_ms as int) + "_"@ + name@ + ".opus"@),
{
}

} // verus!
