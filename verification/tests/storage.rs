use chronicle::storage::date::date_parts;
use chronicle::storage::error::StorageError;
use chronicle::storage::media::{
    audio_path, path_inside, sanitize_id, screenshot_path, DeleteStep, DirEntry, FileMetadata,
    MediaDir, MediaManager, DIR_MODE, FILE_MODE,
};
use chronicle::storage::models::{
    CleanupOutcome, CleanupStats, SearchFilter, StorageConfig, StorageStatus,
};
use chronicle::storage::retention::{
    completed_stats, compute_cutoff, disabled_stats, modified_since, run_cleanup, swept_stats,
    CleanupPhase, CleanupPlan, MediaTable, Sweep, SweepPhase, TableCleanup, CLEANUP_BATCH_SIZE,
    MAX_RETENTION_DAYS,
};
use chronicle::storage::queries::{
    timeline_sql, COUNT_AUDIO_SQL, COUNT_SCREENSHOTS_SQL, GET_AUDIO_SQL, GET_CONFIG_SQL,
    GET_SCREENSHOT_SQL, INSERT_AUDIO_SQL, INSERT_SCREENSHOT_SQL, OLDEST_AUDIO_SQL,
    OLDEST_SCREENSHOT_SQL, RETENTION_KEY, SEARCH_AUDIO_SQL, SEARCH_SCREENS_SQL, SET_CONFIG_SQL,
    UPDATE_OCR_TEXT_SQL, UPDATE_TRANSCRIPT_SQL,
};
use chronicle::storage::schema::{migrate, CONNECTION_PRAGMAS, MIGRATIONS, MIGRATION_COUNT};
use chronicle::storage::search::{
    is_searchable, map_fts5_error, merge_results, plan_search, rank_order, sanitize_fts5_query,
    Hit, QueryFailure,
};
use chronicle::storage::{
    checked_retention, configured_retention, database_files, pool_size, status,
    update_ocr_text, FileSize, Measurements,
};

// --- errors ----------------------------------------------------------------

#[test]
fn io_error_converts_to_storage_error() {
    let io_err = std::io::Error::new(std::io::ErrorKind::NotFound, "file missing");
    let storage_err = StorageError::Io(io_err.to_string());
    assert!(matches!(storage_err, StorageError::Io(_)));
    assert!(storage_err.message().contains("file missing"));
}

#[test]
fn other_error_displays_message() {
    let err = StorageError::Other("something went wrong".into());
    assert_eq!(err.message(), "something went wrong");
}

#[test]
fn every_storage_error_says_what_kind_it_is() {
    let x = || "x".to_string();
    assert_eq!(StorageError::Database(x()).message(), "database error: x");
    assert_eq!(StorageError::Pool(x()).message(), "connection pool error: x");
    assert_eq!(StorageError::Io(x()).message(), "io error: x");
    assert_eq!(StorageError::Join(x()).message(), "task join error: x");
}

// --- files -----------------------------------------------------------------

#[test]
fn screenshot_path_has_correct_structure() {
    let ts: i64 = 1774094400000;
    let path = screenshot_path("/data", ts, "display1");

    assert_eq!(
        path,
        "/data/screenshots/2026/03/21/1774094400000_display1.heif"
    );
}

#[test]
fn audio_path_has_correct_structure() {
    let ts: i64 = 1774094400000;
    let path = audio_path("/data", ts, "mic");

    assert_eq!(path, "/data/audio/2026/03/21/1774094400000_mic.opus");
}

#[test]
fn sanitize_id_replaces_path_separators() {
    assert_eq!(sanitize_id("../etc/passwd"), "__etc_passwd");
    assert_eq!(sanitize_id("display/1"), "display_1");
    assert_eq!(sanitize_id("foo\\bar"), "foo_bar");
    assert_eq!(sanitize_id("ok\0bad"), "ok_bad");
}

#[test]
fn screenshot_path_sanitizes_display_id() {
    let ts: i64 = 1774094400000;
    let path = screenshot_path("/data", ts, "../evil");
    assert!(!path.contains(".."));
}

#[test]
fn dots_are_replaced_in_pairs() {
    assert_eq!(sanitize_id("..."), "_.");
    assert_eq!(sanitize_id("...."), "__");
    assert_eq!(sanitize_id("a.b"), "a.b");
    assert_eq!(sanitize_id(""), "");
}

#[test]
fn dates_are_utc_days() {
    assert_eq!(date_parts(0), (1970, 1, 1));
    assert_eq!(date_parts(86_399_999), (1970, 1, 1));
    assert_eq!(date_parts(86_400_000), (1970, 1, 2));
    assert_eq!(date_parts(-1), (1969, 12, 31));
    assert_eq!(date_parts(951_782_400_000), (2000, 2, 29));
    assert_eq!(date_parts(1_774_094_400_000), (2026, 3, 21));
    assert_eq!(date_parts(8_210_266_876_799_999), (262_142, 12, 31));
    assert_eq!(date_parts(8_210_266_876_800_000), (1970, 1, 1), "past the last year");
    assert_eq!(date_parts(-8_334_601_228_800_000), (-262_143, 1, 1));
    assert_eq!(date_parts(-8_334_601_228_800_001), (1970, 1, 1), "before the first year");
    assert_eq!(date_parts(i64::MAX), (1970, 1, 1), "out of range");
    assert_eq!(date_parts(i64::MIN), (1970, 1, 1), "out of range");
}

#[test]
fn files_and_directories_are_their_owners_alone() {
    assert_eq!(FILE_MODE, 0o600);
    assert_eq!(DIR_MODE, 0o700);
}

fn manager() -> MediaManager {
    MediaManager::new("/data".to_string())
}

#[test]
fn base_dir_returns_configured_path() {
    assert_eq!(manager().base_dir(), "/data");
    assert_eq!(manager().subdir("audio"), "/data/audio");
}

#[test]
fn delete_file_returns_bytes_freed() {
    assert_eq!(manager().delete_file(FileMetadata::Size(256)), DeleteStep::Remove(256));
}

#[test]
fn delete_file_returns_zero_for_missing() {
    assert_eq!(manager().delete_file(FileMetadata::NotFound), DeleteStep::Gone);
    assert_eq!(
        manager().delete_file(FileMetadata::Failed("denied".to_string())),
        DeleteStep::Failed(StorageError::Io("denied".to_string()))
    );
}

#[test]
fn allocate_path_sanitizes_id() {
    let ts: i64 = 1774094400000;
    let dir = manager().allocate_dir("screenshots", ts);
    assert_eq!(dir, "/data/screenshots/2026/03/21");
    let path = manager().allocate_path("/data", &dir, ts, "../evil", "heif").unwrap();
    let filename = path.rsplit('/').next().unwrap();
    assert!(!filename.contains(".."), "path traversal should be sanitized");
    assert_eq!(path, "/data/screenshots/2026/03/21/1774094400000___evil.heif");
}

#[test]
fn allocate_path_rejects_escape() {
    let ts: i64 = 1774094400000;
    let dir = manager().allocate_dir("screenshots", ts);
    let result = manager().allocate_path("/data", &dir, ts, "../../etc/passwd", "heif");
    assert!(result.is_ok());
    assert!(path_inside(&result.unwrap(), "/data"));

    for led_out in ["/elsewhere/2026/03/21", "/data2/2026", "/"] {
        let err = manager().allocate_path("/data", led_out, ts, "d", "heif").unwrap_err();
        assert_eq!(err.message(), "path escaped storage root");
    }
}

#[test]
fn a_path_is_inside_by_whole_components() {
    assert!(path_inside("/data/a", "/data"));
    assert!(path_inside("/data", "/data"));
    assert!(!path_inside("/data2/a", "/data"));
    assert!(!path_inside("/", "/data"));
}

fn file(path: &str, size: u64) -> DirEntry {
    DirEntry::File { path: path.to_string(), size: Some(size) }
}

#[test]
fn walk_files_collects_recursively() {
    let day = "/data/screenshots/2026/03/21";
    let files = vec![file(&format!("{day}/a.heif"), 1), file(&format!("{day}/b.heif"), 1)];
    let dir = MediaDir::Directory(vec![DirEntry::Directory(vec![DirEntry::Directory(vec![
        DirEntry::Directory(files),
    ])])]);
    let files = manager().walk_files(&dir);
    assert_eq!(files.len(), 2);
    assert_eq!(files, vec![format!("{day}/a.heif"), format!("{day}/b.heif")]);
}

#[test]
fn a_walk_skips_links_and_what_cannot_be_read() {
    let day = DirEntry::Directory(vec![file("/s/2026/a.heif", 1), file("/s/2026/b.heif", 1)]);
    let dir = MediaDir::Directory(vec![
        day,
        DirEntry::Symlink,
        DirEntry::Skipped,
        file("/s/c.heif", 1),
    ]);
    let files = manager().walk_files(&dir);
    assert_eq!(files, vec!["/s/2026/a.heif", "/s/2026/b.heif", "/s/c.heif"]);
    assert!(manager().walk_files(&MediaDir::Symlink(vec![file("/s/d", 1)])).is_empty());
}

#[test]
fn walk_files_returns_empty_for_missing_subdir() {
    assert!(manager().walk_files(&MediaDir::Missing).is_empty());
}

#[test]
fn dir_size_sums_files() {
    let dir = MediaDir::Directory(vec![
        file("/data/audio/a.opus", 100),
        file("/data/audio/b.opus", 200),
    ]);
    assert_eq!(manager().dir_size(&dir), 300);
}

#[test]
fn a_size_counts_directories_and_not_links() {
    let dir = MediaDir::Directory(vec![
        file("/a/a.opus", 100),
        DirEntry::Directory(vec![file("/a/x/b.opus", 200)]),
        DirEntry::File { path: "/a/c.opus".to_string(), size: None },
        DirEntry::Symlink,
    ]);
    assert_eq!(manager().dir_size(&dir), 300);
    assert_eq!(manager().dir_size(&MediaDir::Symlink(vec![file("/a/d", 7)])), 7);
}

#[test]
fn dir_size_returns_zero_for_missing_subdir() {
    assert_eq!(manager().dir_size(&MediaDir::Missing), 0);
}

// --- settings --------------------------------------------------------------

#[test]
fn storage_config_default_points_to_app_support() {
    let config = StorageConfig::in_home("/Users/someone");
    assert!(config.base_dir.contains("Library/Application Support/Chronicle"));
    assert_eq!(
        config.base_dir,
        "/Users/someone/Library/Application Support/Chronicle"
    );
    assert_eq!(config.pool_size, 4);
}

#[test]
fn cleanup_stats_default_is_zero() {
    let stats = CleanupStats::default();
    assert_eq!(stats.screenshots_deleted, 0);
    assert_eq!(stats.audio_segments_deleted, 0);
    assert_eq!(stats.bytes_freed, 0);
}

#[test]
fn a_pool_that_is_too_large_is_refused() {
    let config = |pool_size: usize| StorageConfig { base_dir: "/data".to_string(), pool_size };
    assert_eq!(pool_size(&config(2)), Ok(2));
    assert_eq!(pool_size(&config(u32::MAX as usize)), Ok(u32::MAX));
    assert_eq!(
        pool_size(&config(u32::MAX as usize + 1)).unwrap_err().message(),
        "pool_size too large"
    );
}

#[test]
fn the_configured_retention_is_the_stored_value_or_thirty_days() {
    assert_eq!(configured_retention(None), Ok(30));
    assert_eq!(configured_retention(Some("7")), Ok(7));
    assert_eq!(configured_retention(Some("0")), Ok(0));
    assert_eq!(
        configured_retention(Some("-1")).unwrap_err().message(),
        "retention_days must be non-negative"
    );
    assert_eq!(
        configured_retention(Some("thirty")).unwrap_err().message(),
        "invalid retention_days value: invalid digit found in string"
    );
    assert_eq!(
        configured_retention(Some("")).unwrap_err().message(),
        "invalid retention_days value: cannot parse integer from empty string"
    );
    assert_eq!(
        configured_retention(Some(" 7")).unwrap_err().message(),
        "invalid retention_days value: invalid digit found in string",
        "the value is not trimmed here"
    );
    assert_eq!(
        checked_retention(Err("why".to_string())).unwrap_err().message(),
        "invalid retention_days value: why"
    );
}

#[test]
fn the_database_has_two_sidecars() {
    let files = database_files("/data");
    assert_eq!(files.db, "/data/chronicle.db");
    assert_eq!(files.wal, "/data/chronicle.db-wal");
    assert_eq!(files.shm, "/data/chronicle.db-shm");
}

fn empty() -> Measurements {
    Measurements {
        screenshot_count: 0,
        audio_segment_count: 0,
        oldest_screenshot: None,
        oldest_audio: None,
        db: FileSize::NotFound,
        wal: FileSize::NotFound,
        shm: FileSize::NotFound,
        screenshots_size: 0,
        audio_size: 0,
    }
}

#[test]
fn status_on_empty_db() {
    assert_eq!(
        status(&empty()),
        StorageStatus {
            db_size_bytes: 0,
            screenshot_count: 0,
            audio_segment_count: 0,
            total_disk_usage_bytes: 0,
            oldest_entry: None,
        }
    );
}

#[test]
fn status_returns_correct_counts() {
    let conn = setup_db();
    conn.execute(
        "INSERT INTO screenshots (timestamp, display_id, image_path) VALUES (?1, ?2, ?3)",
        (1_700_000_000_000_i64, "display1", "/data/shot.heif"),
    )
    .unwrap();
    conn.execute(
        "INSERT INTO audio_segments (start_timestamp, end_timestamp, source, audio_path)
         VALUES (?1, ?2, ?3, ?4)",
        (1_700_000_010_000_i64, 1_700_000_040_000_i64, "mic", "/data/audio.opus"),
    )
    .unwrap();
    let oldest =
        |sql: &str| conn.query_row(sql, [], |row| row.get::<_, Option<i64>>(0)).unwrap();
    let status = status(&Measurements {
        screenshot_count: count(&conn, COUNT_SCREENSHOTS_SQL) as u64,
        audio_segment_count: count(&conn, COUNT_AUDIO_SQL) as u64,
        oldest_screenshot: oldest(OLDEST_SCREENSHOT_SQL),
        oldest_audio: oldest(OLDEST_AUDIO_SQL),
        db: FileSize::Known(4_096),
        wal: FileSize::NotFound,
        shm: FileSize::NotFound,
        screenshots_size: 0,
        audio_size: 0,
    });
    assert_eq!(status.screenshot_count, 1);
    assert_eq!(status.audio_segment_count, 1);
    assert!(status.db_size_bytes > 0);
    assert_eq!(status.oldest_entry, Some(1_700_000_000_000));
}

#[test]
fn a_status_adds_up_sizes_and_takes_the_oldest_time() {
    let m = Measurements {
        screenshot_count: 2,
        audio_segment_count: 1,
        oldest_screenshot: Some(20),
        oldest_audio: Some(10),
        db: FileSize::Known(1_000),
        wal: FileSize::Known(200),
        shm: FileSize::Unreadable,
        screenshots_size: 30,
        audio_size: 4,
    };
    assert_eq!(
        status(&m),
        StorageStatus {
            db_size_bytes: 1_200,
            screenshot_count: 2,
            audio_segment_count: 1,
            total_disk_usage_bytes: 1_234,
            oldest_entry: Some(10),
        }
    );
    let m = Measurements { oldest_audio: None, ..m };
    assert_eq!(status(&m).oldest_entry, Some(20));
    let m = Measurements { oldest_screenshot: None, oldest_audio: Some(-5), ..m };
    assert_eq!(status(&m).oldest_entry, Some(-5));
}

#[test]
fn status_handles_metadata_errors_gracefully() {
    let status = status(&Measurements {
        screenshot_count: 0,
        audio_segment_count: 0,
        oldest_screenshot: None,
        oldest_audio: None,
        db: FileSize::NotFound,
        wal: FileSize::NotFound,
        shm: FileSize::NotFound,
        screenshots_size: 0,
        audio_size: 0,
    });
    assert_eq!(status.db_size_bytes, 0, "should report 0 for missing db file");
}

#[test]
fn only_a_sidecar_may_be_missing() {
    assert!(FileSize::NotFound.warns_for_database());
    assert!(FileSize::Unreadable.warns_for_database());
    assert!(!FileSize::Known(0).warns_for_database());
    assert!(!FileSize::NotFound.warns_for_sidecar(), "a missing sidecar is normal");
    assert!(FileSize::Unreadable.warns_for_sidecar());
    assert!(!FileSize::Known(0).warns_for_sidecar());
}

// --- retention -------------------------------------------------------------

const DAY: i64 = 86_400 * 1000;
const NOW: i64 = 1_774_094_400_000;

#[test]
fn compute_cutoff_rejects_a_window_that_overflows() {
    assert!(
        compute_cutoff(NOW, i64::MAX).is_err(),
        "overflows checked_mul"
    );
    assert!(
        compute_cutoff(i64::MAX, -1).is_err(),
        "overflows checked_sub"
    );
    assert_eq!(
        compute_cutoff(i64::MAX, -1).unwrap_err().message(),
        "retention cutoff overflows i64: now_millis 9223372036854775807, retention_days -1"
    );
}

#[test]
fn compute_cutoff_subtracts_the_window() {
    let now = 10_000_000_000i64;
    let one_day = 86_400 * 1000;
    assert_eq!(compute_cutoff(now, 1).unwrap(), now - one_day);
    assert_eq!(compute_cutoff(now, 30).unwrap(), now - 30 * one_day);
}

#[test]
fn modified_since_reports_age_against_the_cutoff() {
    let written = 1_000_i128;
    assert!(
        !modified_since(Some(written), written + 60),
        "a file written before the cutoff is older than it"
    );
    assert!(
        modified_since(Some(written), written - 60),
        "a file written after the cutoff is newer than it"
    );
    assert!(
        modified_since(None, written),
        "unreadable metadata must fail CLOSED (report newer, so the caller keeps the file)"
    );
    assert!(
        modified_since(Some(written), written),
        "a file whose mtime equals the cutoff must be treated as newer"
    );
}

/// Sweeps files that are older than the sweep, each with its size: which were deleted, and how
/// many bytes that freed.
fn sweep_files(files: &[(String, u64)], in_rows: Vec<String>) -> (Vec<String>, u64) {
    let mut sweep = Sweep::new(100);
    let mut deleted = Vec::new();
    sweep.walked(files.iter().map(|(name, _)| name.clone()).collect());
    sweep.tracked_read(in_rows);
    for (name, size) in files {
        assert_eq!(sweep.next_file(), name);
        if sweep.examined(name, Some(99)) {
            deleted.push(name.clone());
            sweep.file_deleted(Some(*size));
        }
    }
    assert_eq!(sweep.phase, SweepPhase::Done);
    (deleted, sweep.freed)
}

#[test]
fn sweep_orphans_keeps_tracked_files_and_deletes_orphans() {
    let conn = setup_db();
    let track_screenshot = |path: &str| {
        conn.execute(
            "INSERT INTO screenshots (timestamp, display_id, image_path) VALUES (0, 'd', ?1)",
            [path],
        )
        .unwrap();
    };
    let mut shots: Vec<(String, u64)> = (0..=CLEANUP_BATCH_SIZE)
        .map(|i| (format!("/real_root/screenshots/tracked_{i:04}.heif"), 1))
        .collect();
    for (path, _) in &shots {
        track_screenshot(path);
    }
    shots.push(("/real_root/screenshots/orphan_a.heif".to_string(), 4));
    shots.push(("/real_root/screenshots/orphan_b.heif".to_string(), 8));
    let audio: Vec<(String, u64)> = vec![
        ("/real_root/audio/tracked.opus".to_string(), 2),
        ("/real_root/audio/orphan.opus".to_string(), 16),
        ("/real_root/audio/cross_table.opus".to_string(), 32),
    ];
    conn.execute(
        "INSERT INTO audio_segments (start_timestamp, end_timestamp, source, audio_path)
         VALUES (0, 0, 'mic', '/real_root/audio/tracked.opus')",
        [],
    )
    .unwrap();
    track_screenshot("/real_root/audio/cross_table.opus");

    let in_rows = |table: MediaTable| -> Vec<String> {
        let mut stmt = conn.prepare(&table.tracked_sql()).unwrap();
        let rows = stmt.query_map([], |row| row.get(0)).unwrap();
        rows.map(|row| row.unwrap()).collect()
    };
    let (deleted, shots_freed) = sweep_files(&shots, in_rows(MediaTable::Screenshots));
    assert_eq!(
        deleted,
        ["/real_root/screenshots/orphan_a.heif", "/real_root/screenshots/orphan_b.heif"],
        "a screenshot with a matching DB row must survive the sweep"
    );
    let (deleted, audio_freed) = sweep_files(&audio, in_rows(MediaTable::AudioSegments));
    assert_eq!(
        deleted,
        ["/real_root/audio/orphan.opus", "/real_root/audio/cross_table.opus"],
        "a file tracked only in the screenshots table is an orphan to the audio sweep"
    );
    assert_eq!(
        swept_stats(shots_freed, audio_freed).bytes_freed,
        60,
        "only the orphans' bytes should be counted as freed (4 + 8 + 16 + 32)"
    );
}

#[test]
fn a_sweep_deletes_old_files_without_a_row() {
    let names = |all: &[&str]| -> Vec<String> { all.iter().map(|s| s.to_string()).collect() };
    let mut sweep = Sweep::new(100);
    assert_eq!(sweep.phase, SweepPhase::Walk);
    // Each file with when it was changed, and what its deletion frees if it is an orphan.
    let files = [
        ("/s/kept.heif", Some(0), None),
        ("/s/a.heif", Some(99), Some(Some(12))),
        ("/s/new.heif", Some(100), None),
        ("/s/ageless.heif", None, None),
        ("/s/b.heif", Some(-5), Some(None)),
        ("/s/c.heif", Some(1), Some(Some(30))),
    ];
    sweep.walked(files.iter().map(|(name, _, _)| name.to_string()).collect());
    assert_eq!(sweep.phase, SweepPhase::ReadTracked);
    sweep.tracked_read(names(&["/s/kept.heif"]));
    for (name, modified, deletion) in files {
        assert_eq!(sweep.phase, SweepPhase::Files);
        assert_eq!(sweep.next_file(), name);
        assert_eq!(sweep.examined(name, modified), deletion.is_some(), "{name}");
        if let Some(freed) = deletion {
            assert_eq!(sweep.phase, SweepPhase::Delete);
            assert_eq!(sweep.next_file(), name);
            sweep.file_deleted(freed);
        }
    }
    assert_eq!(sweep.phase, SweepPhase::Done);
    assert_eq!(sweep.freed, 42);

    let mut sweep = Sweep::new(100);
    sweep.walked(Vec::new());
    assert_eq!(sweep.phase, SweepPhase::Done, "no files, no query");
    assert_eq!(swept_stats(42, 8).bytes_freed, 50);
    assert_eq!(swept_stats(42, 8).outcome, CleanupOutcome::Completed);
}

#[test]
fn the_sql_of_each_table() {
    assert_eq!(
        MediaTable::Screenshots.select_sql(),
        "SELECT id, image_path FROM screenshots WHERE timestamp < ?1 \
         ORDER BY timestamp, id LIMIT ?2"
    );
    assert_eq!(
        MediaTable::AudioSegments.tracked_sql(),
        "SELECT audio_path FROM audio_segments"
    );
    assert_eq!(
        MediaTable::AudioSegments.delete_sql(3),
        "DELETE FROM audio_segments WHERE id IN (?,?,?)"
    );
    assert_eq!(MediaTable::Screenshots.subdir(), "screenshots");
    assert_eq!(MediaTable::AudioSegments.subdir(), "audio");
    assert!(timeline_sql(true).ends_with("AND display_id = ?3 ORDER BY timestamp ASC"));
    assert!(timeline_sql(false).ends_with("timestamp <= ?2 ORDER BY timestamp ASC"));
}

// --- with a database -------------------------------------------------------

use rusqlite::Connection;

fn setup_connection(conn: &Connection) {
    for (name, value) in CONNECTION_PRAGMAS {
        conn.pragma_update(None, name, value).unwrap();
    }
}

fn user_version(conn: &Connection) -> u32 {
    conn.pragma_query_value(None, "user_version", |row| row.get(0)).unwrap()
}

/// Runs the migrations that a database still needs.
fn bring_up(conn: &Connection) {
    for version in migrate(user_version(conn)) {
        conn.execute_batch(MIGRATIONS[version as usize - 1]).unwrap();
        conn.pragma_update(None, "user_version", version).unwrap();
    }
}

fn setup_db() -> Connection {
    let conn = Connection::open_in_memory().unwrap();
    setup_connection(&conn);
    bring_up(&conn);
    conn
}

fn insert_screenshot(conn: &Connection, timestamp: i64, display: &str, ocr: &str) -> i64 {
    conn.execute(
        INSERT_SCREENSHOT_SQL,
        (
            timestamp,
            display,
            "Safari",
            "com.apple.Safari",
            "Google",
            "/data/screenshots/shot.heif",
            ocr,
            Option::<Vec<u8>>::None,
            "2560x1440",
        ),
    )
    .unwrap();
    conn.last_insert_rowid()
}

fn insert_audio(conn: &Connection, source: &str, transcript: &str) -> rusqlite::Result<i64> {
    conn.execute(
        INSERT_AUDIO_SQL,
        (
            1_700_000_000_000_i64,
            1_700_000_030_000_i64,
            source,
            "/data/audio/segment.opus",
            transcript,
            "base",
            "en",
        ),
    )?;
    Ok(conn.last_insert_rowid())
}

fn insert_test_screenshot(conn: &Connection) {
    let text = "deployment pipeline kubernetes cluster";
    insert_screenshot(conn, 1_700_000_000_000, "display1", text);
}

fn insert_test_audio(conn: &Connection) {
    insert_audio(conn, "mic", "discussing the kubernetes deployment strategy").unwrap();
}

fn count(conn: &Connection, sql: &str) -> i64 {
    conn.query_row(sql, [], |row| row.get(0)).unwrap()
}

#[test]
fn insert_and_get_screenshot() {
    let conn = setup_db();
    let id = insert_screenshot(&conn, 1_700_000_000_000, "display1", "Hello world login button");
    assert!(id > 0);
    conn.query_row(GET_SCREENSHOT_SQL, [id], |row| {
        assert_eq!(row.get::<_, i64>(0)?, id);
        assert_eq!(row.get::<_, i64>(1)?, 1_700_000_000_000);
        assert_eq!(row.get::<_, String>(2)?, "display1");
        assert_eq!(row.get::<_, String>(3)?, "Safari");
        assert_eq!(row.get::<_, String>(4)?, "com.apple.Safari");
        assert_eq!(row.get::<_, String>(5)?, "Google");
        assert_eq!(row.get::<_, String>(6)?, "/data/screenshots/shot.heif");
        assert_eq!(row.get::<_, String>(7)?, "Hello world login button");
        assert_eq!(row.get::<_, Option<Vec<u8>>>(8)?, None);
        assert_eq!(row.get::<_, String>(9)?, "2560x1440");
        assert!(row.get::<_, i64>(10)? > 0);
        Ok(())
    })
    .unwrap();
}

#[test]
fn insert_and_get_audio_segment() {
    let conn = setup_db();
    let id = insert_audio(&conn, "mic", "meeting notes about project timeline").unwrap();
    assert!(id > 0);
    conn.query_row(GET_AUDIO_SQL, [id], |row| {
        assert_eq!(row.get::<_, i64>(0)?, id);
        assert_eq!(row.get::<_, i64>(1)?, 1_700_000_000_000);
        assert_eq!(row.get::<_, i64>(2)?, 1_700_000_030_000);
        assert_eq!(row.get::<_, String>(3)?, "mic");
        assert_eq!(row.get::<_, String>(4)?, "/data/audio/segment.opus");
        assert_eq!(row.get::<_, String>(5)?, "meeting notes about project timeline");
        assert_eq!(row.get::<_, String>(6)?, "base");
        assert_eq!(row.get::<_, String>(7)?, "en");
        assert!(row.get::<_, i64>(8)? > 0);
        Ok(())
    })
    .unwrap();
}

#[test]
fn insert_rejects_invalid_source() {
    let conn = setup_db();
    assert!(insert_audio(&conn, "bluetooth", "x").is_err());
}

#[test]
fn get_nonexistent_id_returns_error() {
    let conn = setup_db();
    let result = conn.query_row(GET_SCREENSHOT_SQL, [9999], |row| row.get::<_, i64>(0));
    assert!(result.is_err());
}

#[test]
fn update_ocr_text_updates_existing_row() {
    let conn = setup_db();
    let id = insert_screenshot(&conn, 1, "d", "Hello world login button");
    let rows = conn.execute(UPDATE_OCR_TEXT_SQL, ("Updated OCR content", id)).unwrap();
    assert!(update_ocr_text(rows, id).is_ok());
    let text: String = conn.query_row(GET_SCREENSHOT_SQL, [id], |row| row.get(7)).unwrap();
    assert_eq!(text, "Updated OCR content");
}

#[test]
fn update_transcript_updates_existing_row() {
    let conn = setup_db();
    let id = insert_audio(&conn, "mic", "meeting notes").unwrap();
    conn.execute(UPDATE_TRANSCRIPT_SQL, ("Updated transcript content", id)).unwrap();
    let text: String = conn.query_row(GET_AUDIO_SQL, [id], |row| row.get(5)).unwrap();
    assert_eq!(text, "Updated transcript content");
}

#[test]
fn screenshots_insert_triggers_fts_index() {
    let conn = setup_db();
    insert_screenshot(&conn, 1, "d", "Hello world login button");
    let sql = "SELECT COUNT(*) FROM screenshots_fts WHERE screenshots_fts MATCH 'login'";
    assert_eq!(count(&conn, sql), 1);
}

#[test]
fn audio_insert_triggers_fts_index() {
    let conn = setup_db();
    insert_audio(&conn, "mic", "meeting notes about project timeline").unwrap();
    let sql = "SELECT COUNT(*) FROM audio_fts WHERE audio_fts MATCH 'timeline'";
    assert_eq!(count(&conn, sql), 1);
}

#[test]
fn update_ocr_triggers_fts_reindex() {
    let conn = setup_db();
    let id = insert_screenshot(&conn, 1, "d", "Hello world login button");
    conn.execute(UPDATE_OCR_TEXT_SQL, ("Dashboard settings panel", id)).unwrap();
    let matching = |term: &str| {
        let sql = "SELECT COUNT(*) FROM screenshots_fts WHERE screenshots_fts MATCH ?1";
        conn.query_row(sql, [term], |row| row.get::<_, i64>(0)).unwrap()
    };
    assert_eq!(matching("login"), 0, "old term should be gone");
    assert_eq!(matching("dashboard"), 1, "new term should be present");
}

#[test]
fn update_transcript_triggers_fts_reindex() {
    let conn = setup_db();
    let id = insert_audio(&conn, "mic", "meeting notes about project timeline").unwrap();
    conn.execute(UPDATE_TRANSCRIPT_SQL, ("quarterly budget review spreadsheet", id)).unwrap();
    let matching = |term: &str| {
        let sql = "SELECT COUNT(*) FROM audio_fts WHERE audio_fts MATCH ?1";
        conn.query_row(sql, [term], |row| row.get::<_, i64>(0)).unwrap()
    };
    assert_eq!(matching("timeline"), 0, "old term should be gone");
    assert_eq!(matching("budget"), 1, "new term should be present");
}

#[test]
fn settings_are_created_and_replaced() {
    let conn = setup_db();
    let get = |key: &str| conn.query_row(GET_CONFIG_SQL, [key], |row| row.get::<_, String>(0));
    assert_eq!(get(RETENTION_KEY).unwrap(), "30");
    conn.execute(SET_CONFIG_SQL, (RETENTION_KEY, "7")).unwrap();
    assert_eq!(get(RETENTION_KEY).unwrap(), "7");
    assert!(matches!(get("nope"), Err(rusqlite::Error::QueryReturnedNoRows)));
}

#[test]
fn the_database_knows_what_it_holds() {
    let conn = setup_db();
    let oldest = |sql: &str| {
        conn.query_row(sql, [], |row| row.get::<_, Option<i64>>(0)).unwrap()
    };
    assert_eq!(oldest(OLDEST_SCREENSHOT_SQL), None);
    insert_screenshot(&conn, 20, "d", "a");
    insert_screenshot(&conn, 10, "d", "a");
    insert_test_audio(&conn);
    assert_eq!(count(&conn, COUNT_SCREENSHOTS_SQL), 2);
    assert_eq!(count(&conn, COUNT_AUDIO_SQL), 1);
    assert_eq!(oldest(OLDEST_SCREENSHOT_SQL), Some(10));
    assert_eq!(oldest(OLDEST_AUDIO_SQL), Some(1_700_000_000_000));
}

#[test]
fn migration_003_nulls_marker_transcripts_only() {
    let conn = Connection::open_in_memory().unwrap();
    setup_connection(&conn);
    conn.execute_batch(MIGRATIONS[0]).unwrap();
    conn.execute_batch(MIGRATIONS[1]).unwrap();
    conn.pragma_update(None, "user_version", 2u32).unwrap();

    let insert = |id: i64, transcript: Option<&str>| {
        let attempted = transcript.map(|_| "base");
        let language = transcript.map(|_| "nn");
        conn.execute(
            "INSERT INTO audio_segments
               (id, start_timestamp, end_timestamp, source, audio_path, transcript,
                whisper_model, language)
             VALUES (?1, 1, 2, 'mic', '/tmp/x.opus', ?2, ?3, ?4)",
            (id, transcript, attempted, language),
        )
        .unwrap();
    };
    insert(1, Some("[BLANK_AUDIO]"));
    insert(2, Some("[Motor]"));
    insert(3, Some("the quick brown fox"));
    insert(4, Some("the [sic] answer"));
    insert(5, Some("[hello world]"));
    insert(6, Some("[这是一个完整的句子]"));
    insert(7, Some("[unclosed"));
    insert(8, Some("[]"));
    insert(9, Some("[tab\there]"));
    insert(10, Some("[nl\nhere]"));
    insert(11, Some("[cr\rhere]"));
    insert(12, Some("  [BLANK_AUDIO]  "));
    insert(13, None);

    bring_up(&conn);

    let col = |id: i64, c: &str| -> Option<String> {
        conn.query_row(
            &format!("SELECT {c} FROM audio_segments WHERE id = ?1"),
            [id],
            |r| r.get(0),
        )
        .unwrap()
    };

    assert_eq!(col(1, "transcript"), None, "[BLANK_AUDIO] is cleared");
    assert_eq!(col(2, "transcript"), None, "any bracketed ASCII token is cleared");
    assert_eq!(col(1, "language"), None, "a cleared row keeps no detected language");
    assert_eq!(col(1, "whisper_model").as_deref(), Some("base"), "whisper_model survives");
    for (id, text) in [
        (3, "the quick brown fox"),
        (4, "the [sic] answer"),
        (5, "[hello world]"),
        (6, "[这是一个完整的句子]"),
        (7, "[unclosed"),
        (8, "[]"),
        (9, "[tab\there]"),
        (10, "[nl\nhere]"),
        (11, "[cr\rhere]"),
    ] {
        assert_eq!(col(id, "transcript").as_deref(), Some(text), "row {id} survives");
    }
    assert_eq!(col(12, "transcript"), None, "a padded marker is still a marker");
    assert_eq!(col(13, "transcript"), None);
    assert_eq!(col(13, "whisper_model"), None, "an untranscribed row is untouched");
    assert_eq!(col(3, "language").as_deref(), Some("nn"));

    let hits = count(&conn, "SELECT count(*) FROM audio_fts WHERE audio_fts MATCH 'blank'");
    assert_eq!(hits, 0, "clearing the transcript must clear the FTS index too");
    conn.execute_batch("INSERT INTO audio_fts(audio_fts) VALUES('integrity-check')").unwrap();

    conn.execute_batch(MIGRATIONS[2]).unwrap();
    assert_eq!(count(&conn, "SELECT changes()"), 0, "a replay clears nothing further");
    conn.execute_batch("INSERT INTO audio_fts(audio_fts) VALUES('integrity-check')").unwrap();
}

#[test]
fn migration_creates_all_tables() {
    let conn = setup_db();
    let mut stmt = conn
        .prepare("SELECT name FROM sqlite_master WHERE type='table' ORDER BY name")
        .unwrap();
    let tables: Vec<String> =
        stmt.query_map([], |row| row.get(0)).unwrap().map(|t| t.unwrap()).collect();
    for name in ["screenshots", "audio_segments", "config", "screenshots_fts", "audio_fts"] {
        assert!(tables.contains(&name.to_string()), "{name}");
    }
}

#[test]
fn migration_seeds_default_config() {
    let conn = setup_db();
    let retention: String = conn
        .query_row(
            "SELECT value FROM config WHERE key = 'retention_days'",
            [],
            |row| row.get(0),
        )
        .unwrap();
    assert_eq!(retention, "30");
}

fn index_names(conn: &Connection) -> Vec<String> {
    let mut stmt = conn
        .prepare("SELECT name FROM sqlite_master WHERE type='index' ORDER BY name")
        .unwrap();
    stmt.query_map([], |row| row.get(0)).unwrap().map(|n| n.unwrap()).collect()
}

#[test]
fn migration_creates_path_indexes() {
    let indexes = index_names(&setup_db());
    assert!(indexes.contains(&"idx_screenshots_image_path".to_string()), "got: {indexes:?}");
    assert!(indexes.contains(&"idx_audio_segments_audio_path".to_string()), "got: {indexes:?}");
}

#[test]
fn migration_upgrades_from_v1() {
    let conn = Connection::open_in_memory().unwrap();
    setup_connection(&conn);
    conn.execute_batch(MIGRATIONS[0]).unwrap();
    conn.pragma_update(None, "user_version", 1u32).unwrap();

    bring_up(&conn);

    assert_eq!(
        user_version(&conn),
        MIGRATIONS.len() as u32,
        "the version must advance to the latest migration"
    );
    assert!(index_names(&conn).contains(&"idx_screenshots_image_path".to_string()));
}

#[test]
fn path_indexes_cover_the_sweep_query() {
    let conn = setup_db();
    for (sql, index) in [
        (MediaTable::Screenshots.tracked_sql(), "idx_screenshots_image_path"),
        (MediaTable::AudioSegments.tracked_sql(), "idx_audio_segments_audio_path"),
    ] {
        let plan: String = conn
            .query_row(&format!("EXPLAIN QUERY PLAN {sql}"), [], |row| row.get(3))
            .unwrap();
        assert!(
            plan.contains(index),
            "planner ignored {index} for `{sql}`: {plan}"
        );
    }
}

#[test]
fn a_deleted_row_leaves_its_index() {
    let conn = setup_db();
    insert_test_screenshot(&conn);
    conn.execute(&MediaTable::Screenshots.delete_sql(1), [1]).unwrap();
    assert!(search(&conn, "pipeline", SearchFilter::All, 10, 0).is_empty());
    conn.execute_batch("INSERT INTO screenshots_fts(screenshots_fts) VALUES('integrity-check')")
        .unwrap();
}

#[derive(Debug, PartialEq)]
enum Found {
    Screen(i64),
    Audio(i64),
}

/// A rank as a number of the same order.
fn rank_key(rank: f64) -> i64 {
    let bits = (rank + 0.0).to_bits() as i64;
    if bits < 0 {
        i64::MIN - bits
    } else {
        bits
    }
}

fn hits(
    conn: &Connection,
    sql: &str,
    rank_column: usize,
    query: &str,
    limit: i64,
    found: fn(i64) -> Found,
) -> Result<Vec<Hit<Found>>, QueryFailure> {
    let mut stmt = conn.prepare(sql).unwrap();
    let rows = stmt
        .query_map((query, limit), |row| {
            let rank = rank_key(row.get::<_, f64>(rank_column)?);
            Ok(Hit { rank, row: found(row.get::<_, i64>(0)?) })
        })
        .unwrap();
    Ok(rows.map(|row| row.expect("the query must not be a syntax error")).collect())
}

fn search(
    conn: &Connection,
    query: &str,
    filter: SearchFilter,
    limit: usize,
    offset: usize,
) -> Vec<Found> {
    let screens = |conn, query: &str, limit: i64| {
        (conn, hits(conn, SEARCH_SCREENS_SQL, 12, query, limit, Found::Screen))
    };
    let audio = |conn, query: &str, limit: i64| {
        (conn, hits(conn, SEARCH_AUDIO_SQL, 10, query, limit, Found::Audio))
    };
    chronicle::storage::search::search(query, filter, limit, offset, conn, screens, audio)
        .1
        .unwrap()
}

/// Which source was asked what, in order.
type Asked = Vec<(&'static str, String, i64)>;

type Answer = Result<Vec<Hit<u8>>, QueryFailure>;

#[test]
fn the_first_failed_query_ends_a_search() {
    let answer = |source: &'static str, reply: Answer| {
        move |mut asked: Asked, query: &str, limit: i64| {
            asked.push((source, query.to_string(), limit));
            (asked, reply.clone())
        }
    };
    let broken: Answer = Err(QueryFailure::Database("disk image is malformed".to_string()));
    let generic: Answer = Err(QueryFailure::Match { generic: true, words: "near secret".to_string() });
    let busy: Answer = Err(QueryFailure::Match { generic: false, words: "locked".to_string() });
    let hits: Answer = Ok(vec![Hit { rank: 2, row: 7u8 }, Hit { rank: 4, row: 8u8 }]);
    let others: Answer = Ok(vec![Hit { rank: 1, row: 9u8 }]);
    let run = |filter, limit, offset, screens: &Answer, audio: Answer| {
        chronicle::storage::search::search(
            "foo bar",
            filter,
            limit,
            offset,
            Asked::new(),
            answer("screens", screens.clone()),
            answer("audio", audio),
        )
    };
    let matching = "\"foo\"* \"bar\"*".to_string();

    let (asked, result) = run(SearchFilter::All, 5, 0, &broken, others.clone());
    let err = result.unwrap_err();
    assert!(matches!(err, StorageError::Database(words) if words == "disk image is malformed"));
    assert_eq!(asked, [("screens", matching.clone(), 5)]);

    let (asked, result) = run(SearchFilter::All, 5, 1, &hits, generic.clone());
    let err = result.unwrap_err();
    assert!(matches!(err, StorageError::Other(words) if words == "invalid search query syntax"));
    assert_eq!(asked, [("screens", matching.clone(), 6), ("audio", matching.clone(), 6)]);

    let (asked, result) = run(SearchFilter::AudioOnly, 5, 0, &hits, busy);
    assert!(matches!(result.unwrap_err(), StorageError::Database(words) if words == "locked"));
    assert_eq!(asked, [("audio", matching, 5)]);

    assert_eq!(run(SearchFilter::All, 2, 0, &hits, others.clone()).1.unwrap(), vec![9, 7]);
    assert_eq!(run(SearchFilter::All, 2, 2, &hits, others.clone()).1.unwrap(), vec![8]);
    assert_eq!(run(SearchFilter::ScreenOnly, 2, 0, &hits, generic).1.unwrap(), vec![7, 8]);
    assert_eq!(run(SearchFilter::AudioOnly, 2, 0, &broken, others).1.unwrap(), vec![9]);
}

#[test]
fn search_finds_screenshot_by_ocr_text() {
    let conn = setup_db();
    insert_test_screenshot(&conn);

    let results = search(&conn, "pipeline", SearchFilter::All, 10, 0);
    assert_eq!(results.len(), 1);
    assert!(matches!(results[0], Found::Screen(_)));
}

#[test]
fn search_finds_audio_by_transcript() {
    let conn = setup_db();
    insert_test_audio(&conn);

    let results = search(&conn, "strategy", SearchFilter::All, 10, 0);
    assert_eq!(results.len(), 1);
    assert!(matches!(results[0], Found::Audio(_)));
}

#[test]
fn search_finds_both_with_shared_term() {
    let conn = setup_db();
    insert_test_screenshot(&conn);
    insert_test_audio(&conn);

    let results = search(&conn, "kubernetes", SearchFilter::All, 10, 0);
    assert_eq!(results.len(), 2);
    assert!(results.iter().any(|r| matches!(r, Found::Screen(_))));
    assert!(results.iter().any(|r| matches!(r, Found::Audio(_))));
}

#[test]
fn search_screen_only_filter() {
    let conn = setup_db();
    insert_test_screenshot(&conn);
    insert_test_audio(&conn);

    let results = search(&conn, "kubernetes", SearchFilter::ScreenOnly, 10, 0);
    assert_eq!(results.len(), 1);
    assert!(matches!(results[0], Found::Screen(_)));
}

#[test]
fn search_audio_only_filter() {
    let conn = setup_db();
    insert_test_screenshot(&conn);
    insert_test_audio(&conn);

    let results = search(&conn, "kubernetes", SearchFilter::AudioOnly, 10, 0);
    assert_eq!(results.len(), 1);
    assert!(matches!(results[0], Found::Audio(_)));
}

#[test]
fn search_respects_limit_and_offset() {
    let conn = setup_db();
    insert_test_screenshot(&conn);
    insert_test_audio(&conn);

    let results = search(&conn, "kubernetes", SearchFilter::All, 1, 0);
    assert_eq!(results.len(), 1);
    let results = search(&conn, "kubernetes", SearchFilter::All, 10, 1);
    assert_eq!(results.len(), 1);
    let results = search(&conn, "kubernetes", SearchFilter::All, 10, 2);
    assert_eq!(results.len(), 0);
}

#[test]
fn search_returns_empty_for_no_match() {
    let conn = setup_db();
    insert_test_screenshot(&conn);
    insert_test_audio(&conn);

    let results = search(&conn, "nonexistentterm", SearchFilter::All, 10, 0);
    assert_eq!(results.len(), 0);
}

#[test]
fn search_with_punctuation_does_not_error() {
    let conn = setup_db();
    insert_test_screenshot(&conn);

    let results = search(&conn, "pipeline)", SearchFilter::All, 10, 0);
    assert_eq!(results.len(), 1);
    assert!(matches!(results[0], Found::Screen(_)));
}

#[test]
fn search_multi_word_uses_and_not_phrase() {
    let conn = setup_db();
    insert_test_screenshot(&conn);
    let results = search(&conn, "kubernetes deployment", SearchFilter::All, 10, 0);
    assert_eq!(results.len(), 1);
    assert!(matches!(results[0], Found::Screen(_)));
    assert_eq!(search(&conn, "kubernetes absent", SearchFilter::All, 10, 0).len(), 0);
}

#[test]
fn search_supports_prefix_match() {
    let conn = setup_db();
    insert_test_screenshot(&conn);
    let results = search(&conn, "deploy", SearchFilter::All, 10, 0);
    assert_eq!(results.len(), 1);
    assert!(matches!(results[0], Found::Screen(_)));
}

#[test]
fn search_punctuation_only_returns_empty() {
    let conn = setup_db();
    insert_test_screenshot(&conn);
    let results = search(&conn, "()", SearchFilter::All, 10, 0);
    assert!(results.is_empty());
    assert!(plan_search("()", SearchFilter::All, 10, 0).is_none());
}

#[test]
fn search_with_punctuation_matches_audio() {
    let conn = setup_db();
    insert_test_audio(&conn);

    let results = search(&conn, "deployment)", SearchFilter::All, 10, 0);
    assert_eq!(results.len(), 1);
    assert!(matches!(results[0], Found::Audio(_)));
}

#[test]
fn search_whitespace_only_returns_empty() {
    let conn = setup_db();
    insert_test_screenshot(&conn);

    let results = search(&conn, "   \t  ", SearchFilter::All, 10, 0);
    assert!(results.is_empty());
}

#[test]
fn search_intra_token_punctuation_is_adjacent_phrase() {
    let conn = setup_db();
    insert_test_screenshot(&conn);
    insert_test_audio(&conn);

    let results = search(&conn, "kubernetes.deployment", SearchFilter::All, 10, 0);
    assert_eq!(results.len(), 1);
    assert!(matches!(results[0], Found::Audio(_)));
}

#[test]
fn no_query_is_a_syntax_error() {
    let conn = setup_db();
    insert_test_screenshot(&conn);
    for query in ["\"a", "a\"", "a AND", "NOT a", "a*b", "col:a", "(a", "-1", "^a", "\"\"a", "'a"] {
        search(&conn, query, SearchFilter::All, 10, 0);
    }
}

#[test]
fn sanitize_fts5_query_quotes_and_prefixes_tokens() {
    assert_eq!(sanitize_fts5_query("foo bar"), "\"foo\"* \"bar\"*");
    assert_eq!(sanitize_fts5_query("foo(bar)"), "\"foo(bar)\"*");
    assert_eq!(
        sanitize_fts5_query("say \"hi\""),
        "\"say\"* \"\"\"hi\"\"\"*"
    );
    assert_eq!(sanitize_fts5_query("  \u{3000}a\tb "), "\"a\"* \"b\"*");
    assert_eq!(sanitize_fts5_query(""), "");
}

#[test]
fn a_query_needs_a_letter_or_a_digit() {
    assert!(is_searchable("(a)"));
    assert!(is_searchable("-1"));
    assert!(is_searchable("é"));
    assert!(is_searchable("日本"));
    assert!(!is_searchable("()*\"—…"));
    assert!(!is_searchable(""));
}

fn is_generic(error: &rusqlite::Error) -> bool {
    matches!(
        error,
        rusqlite::Error::SqliteFailure(e, _) if e.code == rusqlite::ErrorCode::Unknown
    )
}

fn raw_match_error(conn: &Connection, query: &str) -> rusqlite::Error {
    let mut stmt = conn
        .prepare("SELECT rowid FROM screenshots_fts WHERE screenshots_fts MATCH ?1")
        .unwrap();
    let result = stmt
        .query_map([query], |_| -> rusqlite::Result<()> { Ok(()) })
        .and_then(|rows| rows.collect::<rusqlite::Result<Vec<()>>>());
    result.expect_err("a raw query must trigger an FTS5 error")
}

#[test]
fn map_fts5_error_does_not_leak_query() {
    let conn = setup_db();
    let err = raw_match_error(&conn, "leakyterm)");
    let msg = map_fts5_error(is_generic(&err), err.to_string()).message();
    assert!(!msg.contains("leakyterm"), "must not leak the query: {msg}");
    assert_eq!(msg, "invalid search query syntax");
}

#[test]
fn map_fts5_error_scrubs_non_syntax_parse_errors() {
    let conn = setup_db();
    let err = raw_match_error(&conn, "topsecret:x");
    assert!(
        err.to_string().contains("no such column"),
        "test premise: expected a non-syntax FTS5 parse error, got: {err}"
    );
    let msg = map_fts5_error(is_generic(&err), err.to_string()).message();
    assert!(
        !msg.contains("topsecret"),
        "must not leak the query token: {msg}"
    );
}

#[test]
fn other_database_failures_pass_through() {
    let err = map_fts5_error(false, "disk I/O error".to_string());
    assert_eq!(err, StorageError::Database("disk I/O error".to_string()));
}

#[test]
fn results_come_by_rank_and_then_as_they_came_in() {
    assert_eq!(rank_order(&[3, 1, 2, 1]), vec![1, 3, 2, 0]);
    assert_eq!(rank_order(&[]), Vec::<usize>::new());
    assert_eq!(merge_results(&[3, 1, 2, 1], 2, 1), vec![3, 2]);
    assert_eq!(merge_results(&[3, 1, 2, 1], usize::MAX, 3), vec![0]);
    assert_eq!(merge_results(&[3, 1, 2, 1], 5, 4), Vec::<usize>::new());
    assert_eq!(merge_results(&[3, 1, 2, 1], 0, 0), Vec::<usize>::new());
    let many: Vec<i64> = (0..1_000).map(|i| (i * 7_919) % 1_009).collect();
    let mut expected: Vec<usize> = (0..1_000).collect();
    expected.sort_by_key(|i| many[*i]);
    assert_eq!(rank_order(&many), expected);
}

#[test]
fn each_source_is_asked_for_a_whole_page() {
    let plan = plan_search("a", SearchFilter::ScreenOnly, 10, 5).unwrap();
    assert_eq!(plan.sub_limit, 15);
    assert!(plan.screens && !plan.audio);
    let plan = plan_search("a", SearchFilter::AudioOnly, usize::MAX, 0).unwrap();
    assert_eq!(plan.sub_limit, -1);
    assert!(!plan.screens && plan.audio);
}

#[test]
fn a_page_is_the_same_with_fewer_rows() {
    let screens: Vec<i64> = vec![1, 4, 4, 9, 12];
    let audio: Vec<i64> = vec![2, 3, 4, 5];
    for limit in 0..6 {
        for offset in 0..6 {
            let k = limit + offset;
            let s: Vec<i64> = screens.iter().copied().take(k).collect();
            let a: Vec<i64> = audio.iter().copied().take(k).collect();
            let fetched: Vec<i64> = s.iter().chain(&a).copied().collect();
            let all: Vec<i64> = screens.iter().chain(&audio).copied().collect();
            let page: Vec<usize> = merge_results(&fetched, limit, offset)
                .into_iter()
                .map(|i| if i < s.len() { i } else { i - s.len() + screens.len() })
                .collect();
            assert_eq!(page, merge_results(&all, limit, offset), "{limit} {offset}");
        }
    }
}

fn insert_aged_shot(conn: &Connection, age_days: i64) {
    conn.execute(
        "INSERT INTO screenshots (timestamp, display_id, image_path) VALUES (?1, 'd', ?2)",
        (NOW - age_days * DAY, format!("/tmp/aged_{age_days}.heif")),
    )
    .unwrap();
}

fn insert_aged_audio(conn: &Connection, age_days: i64) {
    conn.execute(
        "INSERT INTO audio_segments (start_timestamp, end_timestamp, source, audio_path)
         VALUES (?1, ?1, 'mic', ?2)",
        (NOW - age_days * DAY, format!("/tmp/aged_{age_days}.opus")),
    )
    .unwrap();
}

fn surviving_shots(conn: &Connection) -> i64 {
    conn.query_row("SELECT COUNT(*) FROM screenshots", [], |row| row.get(0)).unwrap()
}

/// Cleans one table, with files that are all so large; logs what happens in which order.
fn clean_table(
    conn: &Connection,
    table: MediaTable,
    cutoff: i64,
    file_size: Option<u64>,
    log: &mut Vec<String>,
) -> TableCleanup {
    let mut cleanup = TableCleanup::new();
    loop {
        match cleanup.phase {
            CleanupPhase::Select => {
                let mut stmt = conn.prepare(&table.select_sql()).unwrap();
                let rows = stmt
                    .query_map((cutoff, CLEANUP_BATCH_SIZE as i64), |row| {
                        Ok((row.get::<_, i64>(0)?, row.get::<_, String>(1)?))
                    })
                    .unwrap();
                let batch: Vec<(i64, String)> = rows.map(|row| row.unwrap()).collect();
                log.push(format!("select {}", batch.len()));
                cleanup.batch_selected(batch);
            }
            CleanupPhase::DeleteFiles => {
                log.push(format!("file {}", cleanup.next_file()));
                cleanup.file_deleted(file_size);
            }
            CleanupPhase::DeleteRows => {
                let ids = cleanup.ids();
                let sql = table.delete_sql(ids.len());
                conn.execute(&sql, rusqlite::params_from_iter(ids.iter())).unwrap();
                log.push(format!("rows {}", ids.len()));
                cleanup.rows_deleted();
            }
            CleanupPhase::Done => return cleanup,
        }
    }
}

fn clean(conn: &Connection, retention_days: i64) -> Result<CleanupStats, StorageError> {
    match run_cleanup(retention_days, NOW)? {
        CleanupPlan::Disabled => Ok(disabled_stats()),
        CleanupPlan::DeleteBefore(cutoff) => {
            let mut log = Vec::new();
            let shots = clean_table(conn, MediaTable::Screenshots, cutoff, None, &mut log);
            let audio = clean_table(conn, MediaTable::AudioSegments, cutoff, None, &mut log);
            Ok(completed_stats(&shots, &audio))
        }
    }
}

#[test]
fn cleanup_deletes_file_before_db_row() {
    let conn = setup_db();
    conn.execute(
        "INSERT INTO screenshots (timestamp, display_id, image_path) VALUES (?1, ?2, ?3)",
        (NOW - 31 * 86_400 * 1000, "display1", "/tmp/old_shot.heif"),
    )
    .unwrap();
    let mut log = Vec::new();
    let size = b"image data".len() as u64;
    let done = clean_table(&conn, MediaTable::Screenshots, NOW - 30 * DAY, Some(size), &mut log);
    assert_eq!(log, vec!["select 1", "file /tmp/old_shot.heif", "rows 1"]);
    assert_eq!(done.deleted, 1);
    assert_eq!(done.freed, 10);
    assert_eq!(surviving_shots(&conn), 0, "DB row should be deleted");
}

#[test]
fn a_cleanup_deletes_files_then_their_rows() {
    let conn = setup_db();
    insert_aged_shot(&conn, 100);
    insert_aged_shot(&conn, 90);
    let mut log = Vec::new();
    let done =
        clean_table(&conn, MediaTable::Screenshots, NOW - 30 * DAY, Some(256), &mut log);
    assert_eq!(
        log,
        vec!["select 2", "file /tmp/aged_100.heif", "file /tmp/aged_90.heif", "rows 2"]
    );
    assert_eq!(done.deleted, 2);
    assert_eq!(done.freed, 512);
}

#[test]
fn cleanup_unified_handles_both_tables() {
    let conn = setup_db();
    let old_ts = NOW - 31 * 86_400 * 1000;
    conn.execute(
        "INSERT INTO screenshots (timestamp, display_id, image_path) VALUES (?1, ?2, ?3)",
        (old_ts, "d1", "/tmp/old_shot.heif"),
    )
    .unwrap();
    conn.execute(
        "INSERT INTO audio_segments (start_timestamp, end_timestamp, source, audio_path)
         VALUES (?1, ?2, ?3, ?4)",
        (old_ts, old_ts + 30_000, "mic", "/tmp/old_audio.opus"),
    )
    .unwrap();
    let stats = clean(&conn, 30).unwrap();
    assert_eq!(stats.screenshots_deleted, 1, "should delete expired screenshot");
    assert_eq!(stats.audio_segments_deleted, 1, "should delete expired audio");
}

#[test]
fn each_table_counts_its_own_rows() {
    let conn = setup_db();
    insert_aged_shot(&conn, 100);
    insert_aged_audio(&conn, 100);
    insert_aged_audio(&conn, 40);
    insert_aged_audio(&conn, 1);
    let stats = clean(&conn, 30).unwrap();
    assert_eq!(stats.screenshots_deleted, 1);
    assert_eq!(stats.audio_segments_deleted, 2);
    assert_eq!(stats.outcome, CleanupOutcome::Completed);
}

#[test]
fn a_disabled_retention_reports_disabled() {
    let conn = setup_db();
    insert_aged_shot(&conn, 100);

    for days in [0, -1] {
        let stats = clean(&conn, days).unwrap();
        assert_eq!(
            stats.outcome,
            CleanupOutcome::Disabled,
            "retention_days {days} is disabled, not completed"
        );
    }
    assert_eq!(surviving_shots(&conn), 1, "a disabled run deletes nothing");
}

#[test]
fn an_ordinary_run_reports_completed() {
    let conn = setup_db();
    insert_aged_shot(&conn, 100);

    let stats = clean(&conn, 30).unwrap();

    assert_eq!(stats.outcome, CleanupOutcome::Completed);
    assert_eq!(stats.screenshots_deleted, 1);
}

#[test]
fn cleanup_keeps_only_rows_inside_the_window() {
    let conn = setup_db();
    for days in [100, 90, 80, 10] {
        insert_aged_shot(&conn, days);
    }

    let stats = clean(&conn, 30).unwrap();

    assert_eq!(stats.screenshots_deleted, 3);
    assert_eq!(surviving_shots(&conn), 1);

    let oldest: i64 = conn
        .query_row("SELECT MIN(timestamp) FROM screenshots", [], |r| r.get(0))
        .unwrap();
    assert!(
        oldest >= NOW - 30 * DAY,
        "the only survivor must be inside the window"
    );
}

#[test]
fn the_batch_select_orders_oldest_first() {
    let sql = MediaTable::Screenshots.select_sql();
    assert!(sql.contains("SELECT id,") && sql.contains("FROM screenshots WHERE"));
    assert!(
        sql.contains("ORDER BY timestamp, id"),
        "screenshot batches must order by timestamp then id, got: {sql}"
    );
    let sql = MediaTable::AudioSegments.select_sql();
    assert!(sql.contains("SELECT id,") && sql.contains("FROM audio_segments WHERE"));
    assert!(
        sql.contains("ORDER BY start_timestamp, id"),
        "audio batches must order by start_timestamp then id, got: {sql}"
    );
}

#[test]
fn cleanup_deletes_across_multiple_batches() {
    let conn = setup_db();
    let expired = CLEANUP_BATCH_SIZE * 2 + 37;
    for _ in 0..expired {
        insert_aged_shot(&conn, 100);
    }
    insert_aged_shot(&conn, 1);

    let stats = clean(&conn, 30).unwrap();

    assert_eq!(
        stats.screenshots_deleted, expired,
        "every expired row must go, across all three batches"
    );
    assert_eq!(surviving_shots(&conn), 1, "and the fresh row must remain");
    assert_eq!(stats.bytes_freed, 0, "no file here is actually reclaimable");
}

#[test]
fn an_absurd_retention_never_deletes_anything() {
    let conn = setup_db();
    insert_aged_shot(&conn, 1);

    let _ = clean(&conn, i64::MAX);

    assert_eq!(
        surviving_shots(&conn),
        1,
        "an absurd retention must never delete"
    );
}

#[test]
fn a_value_just_over_the_bound_is_rejected() {
    let conn = setup_db();
    insert_aged_shot(&conn, 1);

    let err = clean(&conn, MAX_RETENTION_DAYS + 1).unwrap_err();
    assert_eq!(err.message(), "retention_days 36501 exceeds maximum 36500");
    assert_eq!(
        surviving_shots(&conn),
        1,
        "a rejected value must not delete first"
    );
}

#[test]
fn the_largest_window_is_accepted() {
    let conn = setup_db();
    insert_aged_shot(&conn, 1);

    let stats = clean(&conn, MAX_RETENTION_DAYS).unwrap();
    assert_eq!(stats.screenshots_deleted, 0);
    assert_eq!(surviving_shots(&conn), 1);
}

#[test]
fn zero_retention_days_deletes_nothing() {
    let conn = setup_db();
    insert_aged_shot(&conn, 100);

    let stats = clean(&conn, 0).unwrap();

    assert_eq!(stats.screenshots_deleted, 0);
    assert_eq!(
        surviving_shots(&conn),
        1,
        "assert rows, not just the counter"
    );
}

#[test]
fn a_negative_retention_also_deletes_nothing() {
    let conn = setup_db();
    insert_aged_shot(&conn, 100);

    let stats = clean(&conn, -1).unwrap();
    assert_eq!(stats.screenshots_deleted, 0);
    assert_eq!(surviving_shots(&conn), 1);
}

#[test]
fn an_ordinary_retention_still_deletes() {
    let conn = setup_db();
    insert_aged_shot(&conn, 100);

    let stats = clean(&conn, 30).unwrap();
    assert_eq!(stats.screenshots_deleted, 1);
    assert_eq!(surviving_shots(&conn), 0);
}

#[test]
fn update_ocr_text_nonexistent_id_returns_error() {
    let conn = setup_db();
    let rows = conn.execute(UPDATE_OCR_TEXT_SQL, ("some text", 9999)).unwrap();
    let err_msg = update_ocr_text(rows, 9999).unwrap_err().message();
    assert!(err_msg.contains("not found: id 9999"));
}

#[test]
fn get_timeline_filters_by_range_and_display() {
    let conn = setup_db();
    insert_screenshot(&conn, 3000, "display2", "x");
    insert_screenshot(&conn, 1000, "display1", "x");
    insert_screenshot(&conn, 2000, "display1", "x");
    let all = |start: i64, end: i64| -> Vec<i64> {
        let mut stmt = conn.prepare(&timeline_sql(false)).unwrap();
        let rows = stmt.query_map((start, end), |row| row.get(1)).unwrap();
        rows.map(|t| t.unwrap()).collect()
    };
    let on = |start: i64, end: i64, display: &str| -> Vec<i64> {
        let mut stmt = conn.prepare(&timeline_sql(true)).unwrap();
        let rows = stmt.query_map((start, end, display), |row| row.get(1)).unwrap();
        rows.map(|t| t.unwrap()).collect()
    };
    assert_eq!(all(500, 3500), vec![1000, 2000, 3000]);
    assert_eq!(all(500, 2500), vec![1000, 2000]);
    assert_eq!(on(500, 3500, "display1"), vec![1000, 2000]);
    assert_eq!(on(500, 3500, "display2"), vec![3000]);
}

#[test]
fn migration_is_idempotent() {
    let conn = setup_db();
    bring_up(&conn);
    assert_eq!(user_version(&conn), MIGRATION_COUNT);
    for migration in &MIGRATIONS {
        conn.execute_batch(migration).unwrap();
    }
    assert_eq!(MIGRATION_COUNT, 3);
    assert_eq!(migrate(0), vec![1, 2, 3]);
    assert_eq!(migrate(1), vec![2, 3]);
    assert_eq!(migrate(3), Vec::<u32>::new());
    assert_eq!(migrate(u32::MAX), Vec::<u32>::new());
}
