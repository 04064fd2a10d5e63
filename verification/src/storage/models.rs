//! Configuration and records of the storage engine.

use vstd::prelude::*;
use crate::text::{join_path, joined};

verus! {

/// Configuration for opening the storage.
#[derive(Debug, Clone, PartialEq, Eq)]
pub struct StorageConfig {
    /// Root directory for the database file and media subdirectories.
    pub base_dir: String,
    /// Number of SQLite connections in the pool.
    pub pool_size: usize,
}

impl StorageConfig {
    /// The default configuration of a user with this home directory.
    pub fn in_home(home: &str) -> (r: Self)
        ensures
            r.base_dir@ == joined(home@, "Library/Application Support/Chronicle"@),
            r.pool_size == 4,
    {
        StorageConfig {
            base_dir: join_path(home, "Library/Application Support/Chronicle"),
            pool_size: 4,
        }
    }
}

/// Screenshot metadata provided at insert time.
#[derive(Debug, Clone, PartialEq, Eq)]
pub struct ScreenshotMetadata {
    /// Unix timestamp in milliseconds.
    pub timestamp: i64,
    /// Display identifier from macOS.
    pub display_id: String,
    /// Foreground application name, if known.
    pub app_name: Option<String>,
    /// Bundle identifier of the foreground app.
    pub app_bundle_id: Option<String>,
    /// Title of the frontmost window.
    pub window_title: Option<String>,
    /// Path to the HEIF image file on disk.
    pub image_path: String,
    /// OCR-extracted text from the screenshot.
    pub ocr_text: Option<String>,
    /// Perceptual hash for near-duplicate detection.
    pub phash: Option<Vec<u8>>,
    /// Display resolution as a string, e.g. "2560x1440".
    pub resolution: Option<String>,
}

/// A screenshot record as stored in the database.
#[derive(Debug, Clone, PartialEq, Eq)]
pub struct Screenshot {
    /// Database row ID.
    pub id: i64,
    /// Unix timestamp in milliseconds.
    pub timestamp: i64,
    /// Display identifier from macOS.
    pub display_id: String,
    /// Foreground application name, if known.
    pub app_name: Option<String>,
    /// Bundle identifier of the foreground app.
    pub app_bundle_id: Option<String>,
    /// Title of the frontmost window.
    pub window_title: Option<String>,
    /// Path to the HEIF image file on disk.
    pub image_path: String,
    /// OCR-extracted text from the screenshot.
    pub ocr_text: Option<String>,
    /// Perceptual hash for near-duplicate detection.
    pub phash: Option<Vec<u8>>,
    /// Display resolution as a string, e.g. "2560x1440".
    pub resolution: Option<String>,
    /// Unix timestamp when the row was created.
    pub created_at: i64,
}

/// Audio segment metadata provided at insert time.
#[derive(Debug, Clone, PartialEq, Eq)]
pub struct AudioSegmentMetadata {
    /// Unix timestamp in milliseconds for the segment start.
    pub start_timestamp: i64,
    /// Unix timestamp in milliseconds for the segment end.
    pub end_timestamp: i64,
    /// Audio source identifier (e.g. "mic", "system").
    pub source: String,
    /// Path to the Opus audio file on disk.
    pub audio_path: String,
    /// Whisper-generated transcript text.
    pub transcript: Option<String>,
    /// Whisper model used for transcription.
    pub whisper_model: Option<String>,
    /// Detected language of the audio.
    pub language: Option<String>,
}

/// An audio segment record as stored in the database.
#[derive(Debug, Clone, PartialEq, Eq)]
pub struct AudioSegment {
    /// Database row ID.
    pub id: i64,
    /// Unix timestamp in milliseconds for the segment start.
    pub start_timestamp: i64,
    /// Unix timestamp in milliseconds for the segment end.
    pub end_timestamp: i64,
    /// Audio source identifier (e.g. "mic", "system").
    pub source: String,
    /// Path to the Opus audio file on disk.
    pub audio_path: String,
    /// Whisper-generated transcript text.
    pub transcript: Option<String>,
    /// Whisper model used for transcription.
    pub whisper_model: Option<String>,
    /// Detected language of the audio.
    pub language: Option<String>,
    /// Unix timestamp when the row was created.
    pub created_at: i64,
}

/// Controls which content types a search query should include.
#[derive(Debug, Clone, Copy, PartialEq, Eq, Structural)]
pub enum SearchFilter {
    /// Search both screenshots and audio segments.
    All,
    /// Search screenshots only.
    ScreenOnly,
    /// Search audio segments only.
    AudioOnly,
}

/// The backing record for a search hit.
#[derive(Debug, Clone, PartialEq, Eq)]
pub enum SearchSource {
    /// Hit came from a screenshot's OCR text.
    Screen(Screenshot),
    /// Hit came from an audio segment's transcript.
    Audio(AudioSegment),
}

/// A single full-text search result with its ranking score, in whatever type the caller
/// reads it.
#[derive(Debug, Clone, PartialEq)]
pub struct SearchResult<Rank> {
    /// The screenshot or audio segment that matched.
    pub source: SearchSource,
    /// Matched text excerpt from the FTS index.
    pub snippet: String,
    /// FTS5 relevance score (lower is better).
    pub rank: Rank,
}

/// How a cleanup ended.
#[derive(Debug, Clone, Copy, PartialEq, Eq, Structural)]
pub enum CleanupOutcome {
    /// It ran to its end.
    Completed,
    /// It did not run: everything is kept forever.
    Disabled,
}

/// Summary of what a cleanup or orphan-sweep operation removed.
#[derive(Debug, Clone, Copy, PartialEq, Eq, Structural)]
pub struct CleanupStats {
    /// Number of screenshot records deleted.
    pub screenshots_deleted: usize,
    /// Number of audio segment records deleted.
    pub audio_segments_deleted: usize,
    /// Total bytes freed from disk.
    pub bytes_freed: u64,
    /// How the operation ended.
    pub outcome: CleanupOutcome,
}

impl Default for CleanupStats {
    fn default() -> (r: Self)
        ensures
            r == (CleanupStats {
                screenshots_deleted: 0,
                audio_segments_deleted: 0,
                bytes_freed: 0,
                outcome: CleanupOutcome::Completed,
            }),
    {
        CleanupStats {
            screenshots_deleted: 0,
            audio_segments_deleted: 0,
            bytes_freed: 0,
            outcome: CleanupOutcome::Completed,
        }
    }
}

/// Aggregate statistics about the storage database and media files.
#[derive(Debug, Clone, Copy, PartialEq, Eq, Structural)]
pub struct StorageStatus {
    /// Size of the SQLite database file (including WAL and SHM).
    pub db_size_bytes: u64,
    /// Total number of screenshot records.
    pub screenshot_count: u64,
    /// Total number of audio segment records.
    pub audio_segment_count: u64,
    /// Combined size of the database and all media files.
    pub total_disk_usage_bytes: u64,
    /// Timestamp of the oldest record, or `None` if the database is empty.
    pub oldest_entry: Option<i64>,
}

/// A user's data stand under their home directory.
pub proof fn data_stand_under_the_home_directory(home: &str, r: StorageConfig)
    requires
        call_ensures(StorageConfig::in_home, (home,), r),
    ensures
        r.base_dir@ == joined(home@, "Library/Application Support/Chronicle"@),
        r.pool_size == 4,
{
}

} // verus!
