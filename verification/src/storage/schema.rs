//! The schema of the database, and which migrations a database still needs.

use vstd::prelude::*;

verus! {

/// How many migrations there are.
pub const MIGRATION_COUNT: u32 = 3;

/// What is set on every new connection.
pub const CONNECTION_PRAGMAS: [(&'static str, &'static str); 4] = [
    ("journal_mode", "WAL"),
    ("synchronous", "NORMAL"),
    ("foreign_keys", "ON"),
    ("busy_timeout", "5000"),
];

/// The tables, their full-text indexes, and the default settings.
pub const INITIAL_SCHEMA: &'static str = "
CREATE TABLE IF NOT EXISTS screenshots (
    id INTEGER PRIMARY KEY AUTOINCREMENT,
    timestamp INTEGER NOT NULL,
    display_id TEXT NOT NULL,
    app_name TEXT,
    app_bundle_id TEXT,
    window_title TEXT,
    image_path TEXT NOT NULL,
    ocr_text TEXT,
    phash BLOB,
    resolution TEXT,
    created_at INTEGER NOT NULL DEFAULT (CAST(strftime('%s', 'now') AS INTEGER))
);
CREATE INDEX IF NOT EXISTS idx_screenshots_timestamp ON screenshots(timestamp);
CREATE TABLE IF NOT EXISTS audio_segments (
    id INTEGER PRIMARY KEY AUTOINCREMENT,
    start_timestamp INTEGER NOT NULL,
    end_timestamp INTEGER NOT NULL,
    source TEXT NOT NULL CHECK (source IN ('mic', 'system')),
    audio_path TEXT NOT NULL,
    transcript TEXT,
    whisper_model TEXT,
    language TEXT,
    created_at INTEGER NOT NULL DEFAULT (CAST(strftime('%s', 'now') AS INTEGER))
);
CREATE INDEX IF NOT EXISTS idx_audio_segments_start ON audio_segments(start_timestamp);
CREATE TABLE IF NOT EXISTS config (
    key TEXT PRIMARY KEY,
    value TEXT NOT NULL
);
INSERT OR IGNORE INTO config (key, value) VALUES ('retention_days', '30');
CREATE VIRTUAL TABLE IF NOT EXISTS screenshots_fts USING fts5(
    ocr_text, content='screenshots', content_rowid='id'
);
CREATE TRIGGER IF NOT EXISTS screenshots_ai AFTER INSERT ON screenshots BEGIN
    INSERT INTO screenshots_fts(rowid, ocr_text) VALUES (NEW.id, NEW.ocr_text);
END;
CREATE TRIGGER IF NOT EXISTS screenshots_ad AFTER DELETE ON screenshots BEGIN
    INSERT INTO screenshots_fts(screenshots_fts, rowid, ocr_text)
        VALUES ('delete', OLD.id, OLD.ocr_text);
END;
CREATE TRIGGER IF NOT EXISTS screenshots_au AFTER UPDATE OF ocr_text ON screenshots BEGIN
    INSERT INTO screenshots_fts(screenshots_fts, rowid, ocr_text)
        VALUES ('delete', OLD.id, OLD.ocr_text);
    INSERT INTO screenshots_fts(rowid, ocr_text) VALUES (NEW.id, NEW.ocr_text);
END;
CREATE VIRTUAL TABLE IF NOT EXISTS audio_fts USING fts5(
    transcript, content='audio_segments', content_rowid='id'
);
CREATE TRIGGER IF NOT EXISTS audio_ai AFTER INSERT ON audio_segments BEGIN
    INSERT INTO audio_fts(rowid, transcript) VALUES (NEW.id, NEW.transcript);
END;
CREATE TRIGGER IF NOT EXISTS audio_ad AFTER DELETE ON audio_segments BEGIN
    INSERT INTO audio_fts(audio_fts, rowid, transcript)
        VALUES ('delete', OLD.id, OLD.transcript);
END;
CREATE TRIGGER IF NOT EXISTS audio_au AFTER UPDATE OF transcript ON audio_segments BEGIN
    INSERT INTO audio_fts(audio_fts, rowid, transcript)
        VALUES ('delete', OLD.id, OLD.transcript);
    INSERT INTO audio_fts(rowid, transcript) VALUES (NEW.id, NEW.transcript);
END;
";

/// The indexes that let a sweep read every path without a scan of the tables.
pub const PATH_INDEXES: &'static str = "
CREATE INDEX IF NOT EXISTS idx_screenshots_image_path ON screenshots(image_path);
CREATE INDEX IF NOT EXISTS idx_audio_segments_audio_path ON audio_segments(audio_path);
";

/// Clears transcripts that are nothing but a marker: a bracketed token of ASCII characters
/// without white space. What was attempted stays known by its model.
pub const NULL_MARKER_TRANSCRIPTS: &'static str = "
UPDATE audio_segments SET transcript = NULL, language = NULL
WHERE transcript IS NOT NULL
    AND length(trim(transcript)) > 2
    AND substr(trim(transcript), 1, 1) = '['
    AND substr(trim(transcript), -1, 1) = ']'
    AND instr(trim(transcript), ' ') = 0
    AND instr(trim(transcript), char(9)) = 0
    AND instr(trim(transcript), char(10)) = 0
    AND instr(trim(transcript), char(13)) = 0
    AND trim(transcript) NOT GLOB ('*[^' || char(1) || '-' || char(127) || ']*');
";

/// The migrations, in order of their versions.
pub const MIGRATIONS: [&'static str; 3] = [INITIAL_SCHEMA, PATH_INDEXES, NULL_MARKER_TRANSCRIPTS];

/// The versions that a database at `current` has yet to be brought to, in order.
pub open spec fn pending(current: int) -> Seq<u32> {
    if current >= MIGRATION_COUNT {
        Seq::empty()
    } else {
        Seq::new((MIGRATION_COUNT - current) as nat, |i: int| (current + 1 + i) as u32)
    }
}

/// The versions whose migrations are to be run on a database at `current`, each in one
/// transaction with its stamp.
pub fn migrate(current: u32) -> (r: Vec<u32>)
    ensures
        r@ == pending(current as int),
{
    let mut out: Vec<u32> = Vec::new();
    let mut version: u32 = 1;
    while version <= MIGRATION_COUNT
        invariant
            1 <= version <= MIGRATION_COUNT + 1,
            version <= current + 1 ==> out@.len() == 0,
            version > current + 1 ==> out@ == Seq::new(
                (version - 1 - current) as nat,
                |i: int| (current + 1 + i) as u32,
            ),
        decreases MIGRATION_COUNT + 1 - version,
    {
        if version > current {
            out.push(version);
        }
        version += 1;
        proof {
            if version > current + 1 {
                assert(out@ =~= Seq::new(
                    (version - 1 - current) as nat,
                    |i: int| (current + 1 + i) as u32,
                ));
            }
        }
    }
    proof {
        assert(out@ =~= pending(current as int));
    }
    out
}

/// A database that has been stamped with the version of its last migration needs no more of
/// them: migrating twice changes nothing.
pub proof fn migrating_twice_changes_nothing(current: int)
    requires
        0 <= current,
    ensures
        ({
            let stamped = if pending(current).len() > 0 {
                pending(current).last() as int
            } else {
                current
            };
            pending(stamped) == Seq::<u32>::empty()
        }),
{
    assert(pending(MIGRATION_COUNT as int) =~= Seq::<u32>::empty());
    assert(current < MIGRATION_COUNT ==> pending(current).last() == MIGRATION_COUNT);
}

/// A migration that was stamped before a crash is not run again, and the ones after it are.
pub proof fn an_interrupted_migration_is_taken_up(current: int, done: int)
    requires
        0 <= current,
        0 <= done < pending(current).len(),
    ensures
        pending(pending(current)[done] as int) == pending(current).skip(done + 1),
{
    assert(pending(pending(current)[done] as int) =~= pending(current).skip(done + 1));
}

/// A database is brought up one version after the other, from its own to the third.
pub proof fn every_missing_version_is_migrated_in_order(current: u32, r: Vec<u32>)
    requires
        call_ensures(migrate, (current,), r),
    ensures
        current >= 3 ==> r@.len() == 0,
        current < 3 ==> r@.len() == 3 - current,
        forall|i: int| 0 <= i < r@.len() ==> #[trigger] r@[i] == current + 1 + i,
{
}

} // verus!
