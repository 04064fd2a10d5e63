//! The protocol between the daemon and its UI: one JSON value per line, over a local socket.

use vstd::prelude::*;

pub mod retention;
pub mod server;

verus! {

/// A request from the UI to the daemon.
#[derive(Debug, Clone, PartialEq, Eq)]
pub enum Request {
    Status,
    /// Turn microphone capture on or off at runtime.
    SetMicEnabled { enabled: bool },
    /// Search the OCR index for screen-only results.
    Search { query: String, limit: u32, offset: u32 },
    /// Fetch a single screenshot's metadata by row id.
    GetScreenshot { id: i64 },
    /// Pause screen and audio capture. Persists across daemon restarts.
    PauseCapture,
    /// Resume capture. The microphone is restored to its persisted preference.
    ResumeCapture,
    /// Switch the active whisper model, downloading it first if needed.
    ///
    /// Replies as soon as the operation is accepted or rejected; it never waits for the
    /// download or the load. An unknown variant is a rejection, not an error response.
    SetWhisperModel { variant: String },
}

/// Stable, machine-readable error code on an error response.
#[derive(Debug, Clone, Copy, PartialEq, Eq, Structural)]
pub enum ErrorCode {
    /// Request line exceeded the maximum length.
    RequestTooLarge,
    /// Request bytes were not valid UTF-8.
    InvalidUtf8,
    /// Request was valid UTF-8 but not a request: malformed JSON, unknown `type`, or schema
    /// mismatch.
    InvalidRequest,
}

impl ErrorCode {
    /// What the error response says.
    pub open spec fn words(self) -> Seq<char> {
        match self {
            ErrorCode::RequestTooLarge => "request too large"@,
            ErrorCode::InvalidUtf8 => "invalid UTF-8"@,
            ErrorCode::InvalidRequest => "invalid request"@,
        }
    }
}

/// Current microphone capture state, reported to the UI.
#[derive(Debug, Clone, Copy, PartialEq, Eq, Structural)]
pub enum MicState {
    /// Microphone capture is off.
    Off,
    /// Microphone capture is on.
    On,
    /// A toggle failed because microphone permission is not granted.
    PermissionDenied,
    /// A toggle failed for another reason (see daemon logs).
    Error,
}

impl MicState {
    /// The number under which the state is published.
    pub open spec fn number(self) -> u8 {
        match self {
            MicState::Off => 0,
            MicState::On => 1,
            MicState::PermissionDenied => 2,
            MicState::Error => 3,
        }
    }

    /// The state that is published under a number. Any unknown one maps to `Off`.
    pub open spec fn published(value: u8) -> MicState {
        if value == 1 {
            MicState::On
        } else if value == 2 {
            MicState::PermissionDenied
        } else if value == 3 {
            MicState::Error
        } else {
            MicState::Off
        }
    }

    /// Reconstruct from the `u8` under which the state is published. Any unknown value maps to
    /// `Off`, the safe default.
    pub fn from_u8(value: u8) -> (r: Self)
        ensures
            r == MicState::published(value),
    {
        match value {
            1 => MicState::On,
            2 => MicState::PermissionDenied,
            3 => MicState::Error,
            _ => MicState::Off,
        }
    }

    /// The number under which the state is published.
    pub fn to_u8(self) -> (r: u8)
        ensures
            r == self.number(),
    {
        match self {
            MicState::Off => 0,
            MicState::On => 1,
            MicState::PermissionDenied => 2,
            MicState::Error => 3,
        }
    }
}

impl Default for MicState {
    fn default() -> (r: Self)
        ensures
            r == MicState::Off,
    {
        MicState::Off
    }
}

/// A state that is published is the one that is read.
pub proof fn a_published_state_is_read_back(state: MicState)
    ensures
        MicState::published(state.number()) == state,
{
}

/// A response from the daemon to the UI. A rank is whatever the search index gives.
#[derive(Debug, Clone, PartialEq)]
pub enum Response<Rank> {
    Status { ok: bool, data: StatusData },
    /// Result of a `SetMicEnabled` request: the resulting microphone state.
    SetMicEnabled { ok: bool, state: MicState },
    /// Result of a `Search` request.
    Search { ok: bool, hits: Vec<SearchHit<Rank>> },
    /// Result of a `GetScreenshot` request. `hit` is `None` when the id is not in the
    /// database.
    GetScreenshot { ok: bool, hit: Option<SearchHit<Rank>> },
    /// Result of a `PauseCapture` request. `paused` is the resulting state. `ok` is false when
    /// the daemon isn't ready to accept the command yet.
    PauseCapture { ok: bool, paused: bool },
    /// Result of a `ResumeCapture` request. `paused` is the resulting state.
    ResumeCapture { ok: bool, paused: bool },
    /// Result of `SetWhisperModel`. `ok` is false on an unknown variant, an operation already
    /// in flight, or a daemon that isn't ready.
    SetWhisperModel { ok: bool, status: TranscriptionStats },
    Error { ok: bool, code: ErrorCode, message: String },
}

impl<Rank> Response<Rank> {
    /// Whether this is the answer to a request that was refused for this reason.
    pub open spec fn refuses(self, reason: ErrorCode) -> bool {
        match self {
            Response::Error { ok, code, message } => !ok && code == reason && message@
                == reason.words(),
            _ => false,
        }
    }
}

/// Payload for a successful status response.
#[derive(Debug, Clone, PartialEq, Eq)]
pub struct StatusData {
    pub uptime_secs: u64,
    pub version: String,
    pub capture: CaptureStats,
    pub ocr: OcrStats,
    pub audio: AudioStats,
    pub storage: StorageStats,
    pub transcription: TranscriptionStats,
}

#[derive(Debug, Clone, PartialEq, Eq)]
pub struct CaptureStats {
    /// Engine state: "running" | "stopping" | "idle" | "poisoned" | "paused" | "unknown".
    /// "paused" is reported when capture is intentionally stopped.
    pub state: String,
    pub active_displays: usize,
    /// Total frames delivered.
    pub frames_captured: u64,
    /// Frames dropped at the capture boundary.
    pub frames_dropped: u64,
    /// Frames fully processed by the pipeline.
    pub frames_processed: u64,
    /// Frames that failed post-capture processing.
    pub frames_failed: u64,
    /// True when capture has been paused.
    pub paused: bool,
}

impl Default for CaptureStats {
    fn default() -> (r: Self)
        ensures
            r.state@ == Seq::<char>::empty(),
            r.active_displays == 0,
            r.frames_captured == 0,
            r.frames_dropped == 0,
            r.frames_processed == 0,
            r.frames_failed == 0,
            !r.paused,
    {
        CaptureStats {
            state: String::new(),
            active_displays: 0,
            frames_captured: 0,
            frames_dropped: 0,
            frames_processed: 0,
            frames_failed: 0,
            paused: false,
        }
    }
}

#[derive(Debug, Clone, Copy, PartialEq, Eq, Structural)]
pub struct OcrStats {
    pub enqueued: u64,
    /// Aggregate: channel full + channel closed.
    pub dropped: u64,
}

impl Default for OcrStats {
    fn default() -> (r: Self)
        ensures
            r == (OcrStats { enqueued: 0, dropped: 0 }),
    {
        OcrStats { enqueued: 0, dropped: 0 }
    }
}

#[derive(Debug, Clone, Copy, PartialEq, Eq, Structural)]
pub struct AudioStats {
    pub segments_persisted: u64,
    pub transcription_enqueued: u64,
    /// Aggregate: channel full (the worker is behind) plus channel closed (the worker died).
    pub transcription_dropped: u64,
    /// Current microphone capture state.
    pub mic_state: MicState,
}

impl Default for AudioStats {
    fn default() -> (r: Self)
        ensures
            r == (AudioStats {
                segments_persisted: 0,
                transcription_enqueued: 0,
                transcription_dropped: 0,
                mic_state: MicState::Off,
            }),
    {
        AudioStats {
            segments_persisted: 0,
            transcription_enqueued: 0,
            transcription_dropped: 0,
            mic_state: MicState::Off,
        }
    }
}

/// Provisioning lifecycle for the whisper model.
#[derive(Debug, Clone, Copy, PartialEq, Eq, Structural)]
pub enum TranscriptionState {
    /// No model file for the configured variant; transcription idle.
    Missing,
    Downloading,
    /// Checksum verification of a finished download.
    Verifying,
    /// The model is being loaded.
    Loading,
    Ready,
    Error,
}

impl Default for TranscriptionState {
    fn default() -> (r: Self)
        ensures
            r == TranscriptionState::Missing,
    {
        TranscriptionState::Missing
    }
}

/// One allow-listed variant's on-disk situation. `size_bytes` is the actual file size when
/// `downloaded`, the advertised size otherwise.
#[derive(Debug, Clone, PartialEq, Eq)]
pub struct ModelEntry {
    pub variant: String,
    pub downloaded: bool,
    pub size_bytes: u64,
}

impl Default for ModelEntry {
    fn default() -> (r: Self)
        ensures
            r.variant@ == Seq::<char>::empty(),
            !r.downloaded,
            r.size_bytes == 0,
    {
        ModelEntry { variant: String::new(), downloaded: false, size_bytes: 0 }
    }
}

/// Transcription block of `StatusData`.
#[derive(Debug, Clone, PartialEq, Eq)]
pub struct TranscriptionStats {
    pub state: TranscriptionState,
    /// The variant the daemon is acting on.
    pub variant: String,
    /// The engine actually serving, if any. It differs from `variant` after a failed switch.
    pub loaded_variant: Option<String>,
    /// Set when and only when `state` is `Error`.
    pub error: Option<String>,
    /// Download progress; set only while `state` is `Downloading`.
    pub download_bytes: Option<u64>,
    /// Total of the download; set only while `state` is `Downloading` and once actually known:
    /// never `Some(0)`.
    pub download_total_bytes: Option<u64>,
    pub models: Vec<ModelEntry>,
}

impl TranscriptionStats {
    /// Whether the fields fit the state.
    pub open spec fn well_formed(self) -> bool {
        &&& self.error is Some <==> self.state == TranscriptionState::Error
        &&& self.download_bytes is Some ==> self.state == TranscriptionState::Downloading
        &&& self.download_total_bytes is Some ==> self.state == TranscriptionState::Downloading
            && self.download_total_bytes->0 > 0
    }
}

impl Default for TranscriptionStats {
    fn default() -> (r: Self)
        ensures
            r.well_formed(),
            r.state == TranscriptionState::Missing,
            r.variant@ == Seq::<char>::empty(),
            r.loaded_variant is None,
            r.error is None,
            r.download_bytes is None,
            r.download_total_bytes is None,
            r.models@ == Seq::<ModelEntry>::empty(),
    {
        TranscriptionStats {
            state: TranscriptionState::Missing,
            variant: String::new(),
            loaded_variant: None,
            error: None,
            download_bytes: None,
            download_total_bytes: None,
            models: Vec::new(),
        }
    }
}

#[derive(Debug, Clone, Copy, PartialEq, Eq, Structural)]
pub struct StorageStats {
    pub db_size_bytes: u64,
    /// Total bytes used by the database and the media directories.
    pub total_disk_usage_bytes: u64,
    pub screenshot_count: u64,
    pub audio_segment_count: u64,
    /// Unix millis of the oldest record, or `None` if the database is empty.
    pub oldest_entry_ms: Option<i64>,
    /// Retention period, 30 if unset or invalid.
    pub retention_days: u32,
}

impl Default for StorageStats {
    fn default() -> (r: Self)
        ensures
            r == (StorageStats {
                db_size_bytes: 0,
                total_disk_usage_bytes: 0,
                screenshot_count: 0,
                audio_segment_count: 0,
                oldest_entry_ms: None,
                retention_days: 0,
            }),
    {
        StorageStats {
            db_size_bytes: 0,
            total_disk_usage_bytes: 0,
            screenshot_count: 0,
            audio_segment_count: 0,
            oldest_entry_ms: None,
            retention_days: 0,
        }
    }
}

/// One search result row, flattened for wire transport.
#[derive(Debug, Clone, PartialEq)]
pub struct SearchHit<Rank> {
    pub id: i64,
    pub source: SearchHitSource,
    pub timestamp_ms: i64,
    pub app_name: Option<String>,
    pub app_bundle_id: Option<String>,
    pub window_title: Option<String>,
    pub image_path: String,
    /// FTS5 snippet with `<b>...</b>` markup around matched substrings.
    pub snippet: String,
    /// FTS5 relevance rank (lower is better).
    pub rank: Rank,
}

/// Backing source of a search hit.
#[derive(Debug, Clone, Copy, PartialEq, Eq, Structural)]
pub enum SearchHitSource {
    Screen,
}

/// Maps incoming requests to responses.
///
/// Implemented by the daemon to provide business logic. The server calls this for each parsed
/// request.
pub trait RequestHandler<Rank>: Send + Sync + 'static {
    fn handle(&self, req: Request) -> Response<Rank>;
}

/// Each state has its number, and a number that none has is read as the safe one.
pub proof fn a_mic_state_has_its_number(state: MicState, n: u8, value: u8, r: MicState)
    requires
        call_ensures(MicState::to_u8, (state,), n),
        call_ensures(MicState::from_u8, (value,), r),
    ensures
        n == 0 <==> state is Off,
        n == 1 <==> state is On,
        n == 2 <==> state is PermissionDenied,
        n == 3 <==> state is Error,
        n <= 3,
        r is On <==> value == 1,
        r is PermissionDenied <==> value == 2,
        r is Error <==> value == 3,
        r is Off <==> value == 0 || value > 3,
{
}

/// A refusal is an error that is not ok, with its code and its words.
pub proof fn a_refusal_says_its_reason<Rank>(response: Response<Rank>, reason: ErrorCode)
    requires
        response.refuses(reason),
    ensures
        response matches Response::Error { ok, code, message } && !ok && code == reason && message@
            == (match reason {
            ErrorCode::RequestTooLarge => "request too large"@,
            ErrorCode::InvalidUtf8 => "invalid UTF-8"@,
            ErrorCode::InvalidRequest => "invalid request"@,
        }),
{
}

} // verus!
