//! The statements that the storage runs.

use vstd::prelude::*;
use crate::text::concat;

verus! {

pub const INSERT_SCREENSHOT_SQL: &'static str =
    "INSERT INTO screenshots (timestamp, display_id, app_name, app_bundle_id, window_title, image_path, ocr_text, phash, resolution) VALUES (?1, ?2, ?3, ?4, ?5, ?6, ?7, ?8, ?9)";

pub const GET_SCREENSHOT_SQL: &'static str =
    "SELECT id, timestamp, display_id, app_name, app_bundle_id, window_title, image_path, ocr_text, phash, resolution, created_at FROM screenshots WHERE id = ?1";

pub const UPDATE_OCR_TEXT_SQL: &'static str = "UPDATE screenshots SET ocr_text = ?1 WHERE id = ?2";

pub const INSERT_AUDIO_SQL: &'static str =
    "INSERT INTO audio_segments (start_timestamp, end_timestamp, source, audio_path, transcript, whisper_model, language) VALUES (?1, ?2, ?3, ?4, ?5, ?6, ?7)";

pub const GET_AUDIO_SQL: &'static str =
    "SELECT id, start_timestamp, end_timestamp, source, audio_path, transcript, whisper_model, language, created_at FROM audio_segments WHERE id = ?1";

pub const UPDATE_TRANSCRIPT_SQL: &'static str =
    "UPDATE audio_segments SET transcript = ?1 WHERE id = ?2";

pub const GET_CONFIG_SQL: &'static str = "SELECT value FROM config WHERE key = ?1";

pub const SET_CONFIG_SQL: &'static str =
    "INSERT INTO config (key, value) VALUES (?1, ?2) ON CONFLICT(key) DO UPDATE SET value = excluded.value";

/// The key of the retention window among the settings.
pub const RETENTION_KEY: &'static str = "retention_days";

pub const COUNT_SCREENSHOTS_SQL: &'static str = "SELECT COUNT(*) FROM screenshots";

pub const COUNT_AUDIO_SQL: &'static str = "SELECT COUNT(*) FROM audio_segments";

pub const OLDEST_SCREENSHOT_SQL: &'static str = "SELECT MIN(timestamp) FROM screenshots";

pub const OLDEST_AUDIO_SQL: &'static str = "SELECT MIN(start_timestamp) FROM audio_segments";

/// The best screenshots for a MATCH expression: the columns of a record, the snippet, the rank.
pub const SEARCH_SCREENS_SQL: &'static str =
    "SELECT s.id, s.timestamp, s.display_id, s.app_name, s.app_bundle_id, s.window_title, s.image_path, s.ocr_text, s.phash, s.resolution, s.created_at, snippet(screenshots_fts, -1, '<b>', '</b>', '...', 32) AS snip, rank FROM screenshots_fts JOIN screenshots s ON s.id = screenshots_fts.rowid WHERE screenshots_fts MATCH ?1 ORDER BY rank LIMIT ?2";

/// The best audio segments for a MATCH expression: the columns of a record, the snippet, the
/// rank.
pub const SEARCH_AUDIO_SQL: &'static str =
    "SELECT a.id, a.start_timestamp, a.end_timestamp, a.source, a.audio_path, a.transcript, a.whisper_model, a.language, a.created_at, snippet(audio_fts, -1, '<b>', '</b>', '...', 32) AS snip, rank FROM audio_fts JOIN audio_segments a ON a.id = audio_fts.rowid WHERE audio_fts MATCH ?1 ORDER BY rank LIMIT ?2";

/// The screenshots of a time range.
pub const TIMELINE_RANGE_SQL: &'static str =
    "SELECT id, timestamp, display_id, app_name, app_bundle_id, window_title, image_path, ocr_text, phash, resolution, created_at FROM screenshots WHERE timestamp >= ?1 AND timestamp <= ?2";

/// The query for the screenshots of a time range, oldest first, of one display or of all.
pub fn timeline_sql(by_display: bool) -> (r: String)
    ensures
        r@ == TIMELINE_RANGE_SQL@ + (if by_display {
            " AND display_id = ?3 ORDER BY timestamp ASC"@
        } else {
            " ORDER BY timestamp ASC"@
        }),
{
    if by_display {
        concat(TIMELINE_RANGE_SQL, " AND display_id = ?3 ORDER BY timestamp ASC")
    } else {
        concat(TIMELINE_RANGE_SQL, " ORDER BY timestamp ASC")
    }
}

/// A timeline is a range of times in order, of one display if one is asked for.
pub proof fn a_timeline_is_in_order_of_time(one: String, all: String)
    requires
        call_ensures(timeline_sql, (true,), one),
        call_ensures(timeline_sql, (false,), all),
    ensures
        one@ == TIMELINE_RANGE_SQL@ + " AND display_id = ?3 ORDER BY timestamp ASC"@,
        all@ == TIMELINE_RANGE_SQL@ + " ORDER BY timestamp ASC"@,
{
}

} // verus!
