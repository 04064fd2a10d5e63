//! Storage: where media files go, how long they stay, and how they are found again.

use vstd::prelude::*;
use crate::storage::error::StorageError;
use crate::storage::models::{StorageConfig, StorageStatus};
use crate::text::{concat, decimal, decimal_i64, integer_i64, join_path, joined, owned};

pub mod date;
pub mod error;
pub mod media;
pub mod models;
pub mod queries;
pub mod retention;
pub mod schema;
pub mod search;

verus! {

/// The name of the database file.
pub const DB_FILE: &'static str = "chronicle.db";

/// The name of its write-ahead log.
pub const WAL_FILE: &'static str = "chronicle.db-wal";

/// The name of its shared-memory file.
pub const SHM_FILE: &'static str = "chronicle.db-shm";

/// The retention window if none is configured.
pub const UNCONFIGURED_RETENTION_DAYS: i64 = 30;

/// The number of connections that the pool is built with.
pub fn pool_size(config: &StorageConfig) -> (r: Result<u32, StorageError>)
    ensures
        r is Ok <==> config.pool_size <= u32::MAX,
        r is Ok ==> r->Ok_0 == config.pool_size,
        r is Err ==> r->Err_0.is_other("pool_size too large"@),
{
    if config.pool_size as u64 <= u32::MAX as u64 {
        Ok(config.pool_size as u32)
    } else {
        Err(StorageError::Other(owned("pool_size too large")))
    }
}

/// Where the files of a database lie.
#[derive(Debug, Clone, PartialEq, Eq)]
pub struct DatabaseFiles {
    pub db: String,
    pub wal: String,
    pub shm: String,
}

/// The files of the database in a base directory.
pub fn database_files(base_dir: &str) -> (r: DatabaseFiles)
    ensures
        r.db@ == joined(base_dir@, DB_FILE@),
        r.wal@ == joined(base_dir@, WAL_FILE@),
        r.shm@ == joined(base_dir@, SHM_FILE@),
{
    DatabaseFiles {
        db: join_path(base_dir, DB_FILE),
        wal: join_path(base_dir, WAL_FILE),
        shm: join_path(base_dir, SHM_FILE),
    }
}

/// How std words its refusal to read a text as an `i64`.
pub uninterp spec fn parse_failure(text: Seq<char>) -> Seq<char>;

/// `str::parse::<i64>` of std: an optional sign and decimal digits, as far as the number fits;
/// everything else is refused, in words that depend on the text alone.
#[verifier::external_body]
fn parse_stored(text: &str) -> (r: Result<i64, String>)
    ensures
        match r {
            Ok(n) => integer_i64(text@) == Some(n),
            Err(words) => integer_i64(text@) is None && words@ == parse_failure(text@),
        },
{
    text.parse::<i64>().map_err(|e| e.to_string())
}

/// The retention window that a stored value stands for, once it has been read as a number.
pub fn checked_retention(parsed: Result<i64, String>) -> (r: Result<i64, StorageError>)
    ensures
        r is Ok <==> parsed is Ok && parsed->Ok_0 >= 0,
        r is Ok ==> r->Ok_0 == parsed->Ok_0,
        parsed is Ok && parsed->Ok_0 < 0 ==> r->Err_0.is_other(
            "retention_days must be non-negative"@,
        ),
        parsed is Err ==> r->Err_0.is_other(
            "invalid retention_days value: "@ + parsed->Err_0@,
        ),
{
    match parsed {
        Ok(days) => if days < 0 {
            Err(StorageError::Other(owned("retention_days must be non-negative")))
        } else {
            Ok(days)
        },
        Err(words) => Err(
            StorageError::Other(concat("invalid retention_days value: ", words.as_str())),
        ),
    }
}

/// The retention window that is configured: the stored value, or the default if there is none.
pub fn configured_retention(stored: Option<&str>) -> (r: Result<i64, StorageError>)
    ensures
        stored is None ==> r == Ok::<i64, StorageError>(UNCONFIGURED_RETENTION_DAYS),
        stored is Some ==> {
            match integer_i64(stored->0@) {
                Some(days) => if days < 0 {
                    r is Err && r->Err_0.is_other("retention_days must be non-negative"@)
                } else {
                    r == Ok::<i64, StorageError>(days)
                },
                None => r is Err && r->Err_0.is_other(
                    "invalid retention_days value: "@ + parse_failure(stored->0@),
                ),
            }
        },
{
    match stored {
        None => Ok(UNCONFIGURED_RETENTION_DAYS),
        Some(text) => checked_retention(parse_stored(text)),
    }
}

/// The result of an update of one screenshot's OCR text that changed so many rows.
pub fn update_ocr_text(rows_affected: usize, id: i64) -> (r: Result<(), StorageError>)
    ensures
        r is Ok <==> rows_affected != 0,
        r is Err ==> r->Err_0.is_other("not found: id "@ + decimal(id as int)),
{
    if rows_affected == 0 {
        Err(StorageError::Other(concat("not found: id ", decimal_i64(id).as_str())))
    } else {
        Ok(())
    }
}

/// What reading the size of a file gave.
#[derive(Debug, Clone, Copy, PartialEq, Eq, Structural)]
pub enum FileSize {
    Known(u64),
    /// There is no such file.
    NotFound,
    /// Its metadata could not be read.
    Unreadable,
}

impl FileSize {
    /// A file whose size is not known counts as empty.
    pub open spec fn counted(self) -> u64 {
        match self {
            FileSize::Known(n) => n,
            _ => 0,
        }
    }

    fn bytes(self) -> (r: u64)
        ensures
            r == self.counted(),
    {
        match self {
            FileSize::Known(n) => n,
            _ => 0,
        }
    }

    /// Whether an unknown size of the database file is worth a warning: it always is.
    pub fn warns_for_database(self) -> (r: bool)
        ensures
            r == !(self is Known),
    {
        match self {
            FileSize::Known(_) => false,
            _ => true,
        }
    }

    /// Whether an unknown size of a sidecar is worth a warning. Its absence is normal.
    pub fn warns_for_sidecar(self) -> (r: bool)
        ensures
            r == (self is Unreadable),
    {
        match self {
            FileSize::Unreadable => true,
            _ => false,
        }
    }
}

/// What the status of the storage is put together from.
#[derive(Debug, Clone, Copy, PartialEq, Eq, Structural)]
pub struct Measurements {
    pub screenshot_count: u64,
    pub audio_segment_count: u64,
    /// Time of the oldest screenshot.
    pub oldest_screenshot: Option<i64>,
    /// Start of the oldest audio segment.
    pub oldest_audio: Option<i64>,
    pub db: FileSize,
    pub wal: FileSize,
    pub shm: FileSize,
    /// Bytes in the screenshot directory.
    pub screenshots_size: u64,
    /// Bytes in the audio directory.
    pub audio_size: u64,
}

impl Measurements {
    /// Size of the database with its sidecars.
    pub open spec fn db_total(self) -> int {
        self.db.counted() + self.wal.counted() + self.shm.counted()
    }

    /// Size of everything.
    pub open spec fn total(self) -> int {
        self.db_total() + self.screenshots_size + self.audio_size
    }
}

/// Whether `t` is the earlier of two times, either of which may be missing.
pub open spec fn earlier(a: Option<i64>, b: Option<i64>, t: Option<i64>) -> bool {
    &&& t is None <==> a is None && b is None
    &&& t is Some ==> t == a || t == b
    &&& t is Some && a is Some ==> t->0 <= a->0
    &&& t is Some && b is Some ==> t->0 <= b->0
}

/// Aggregate statistics about the database and the files on disk.
pub fn status(m: &Measurements) -> (r: StorageStatus)
    requires
        m.total() <= u64::MAX,
    ensures
        r.screenshot_count == m.screenshot_count,
        r.audio_segment_count == m.audio_segment_count,
        r.db_size_bytes == m.db_total(),
        r.total_disk_usage_bytes == m.total(),
        earlier(m.oldest_screenshot, m.oldest_audio, r.oldest_entry),
{
    let oldest_entry = match (m.oldest_screenshot, m.oldest_audio) {
        (Some(s), Some(a)) => if s <= a {
            Some(s)
        } else {
            Some(a)
        },
        (Some(s), None) => Some(s),
        (None, Some(a)) => Some(a),
        (None, None) => None,
    };
    let db_size_bytes: u64 = m.db.bytes() + m.wal.bytes() + m.shm.bytes();
    StorageStatus {
        db_size_bytes,
        screenshot_count: m.screenshot_count,
        audio_segment_count: m.audio_segment_count,
        total_disk_usage_bytes: db_size_bytes + m.screenshots_size + m.audio_size,
        oldest_entry,
    }
}

/// The status adds up the sizes of all files, counts what was counted, and names the older of the
/// two oldest times.
pub proof fn a_status_adds_up(m: Measurements, r: StorageStatus)
    requires
        m.total() <= u64::MAX,
        call_ensures(status, (&m,), r),
    ensures
        ({
            let db: int = if m.db is Known {
                m.db->Known_0 as int
            } else {
                0
            };
            let wal: int = if m.wal is Known {
                m.wal->Known_0 as int
            } else {
                0
            };
            let shm: int = if m.shm is Known {
                m.shm->Known_0 as int
            } else {
                0
            };
            &&& r.db_size_bytes == db + wal + shm
            &&& r.total_disk_usage_bytes == db + wal + shm + m.screenshots_size + m.audio_size
        }),
        r.screenshot_count == m.screenshot_count,
        r.audio_segment_count == m.audio_segment_count,
        m.oldest_screenshot is None ==> r.oldest_entry == m.oldest_audio,
        m.oldest_audio is None ==> r.oldest_entry == m.oldest_screenshot,
        m.oldest_screenshot is Some && m.oldest_audio is Some ==> r.oldest_entry is Some
            && r.oldest_entry->0 == (if m.oldest_screenshot->0 <= m.oldest_audio->0 {
            m.oldest_screenshot->0
        } else {
            m.oldest_audio->0
        }),
{
}

/// The retention window is what is stored, if that is a number of days, and thirty days if
/// nothing is stored; anything else is an error.
pub proof fn a_stored_window_is_taken_as_it_is(stored: Option<&str>, r: Result<i64, StorageError>)
    requires
        call_ensures(configured_retention, (stored,), r),
    ensures
        stored is None ==> r is Ok && r->Ok_0 == 30,
        stored is Some && integer_i64(stored->0@) is Some && integer_i64(stored->0@)->0 >= 0
            ==> r is Ok && r->Ok_0 == integer_i64(stored->0@)->0,
        stored is Some && (integer_i64(stored->0@) is None || integer_i64(stored->0@)->0 < 0)
            ==> r is Err,
{
}

/// A pool has as many connections as are configured; a database has its three files in its base
/// directory; an update that changed no row is an error that names the row.
pub proof fn a_setting_is_taken_as_it_is(
    config: StorageConfig,
    size: Result<u32, StorageError>,
    base_dir: &str,
    files: DatabaseFiles,
    rows: usize,
    id: i64,
    updated: Result<(), StorageError>,
)
    requires
        call_ensures(pool_size, (&config,), size),
        call_ensures(database_files, (base_dir,), files),
        call_ensures(update_ocr_text, (rows, id), updated),
    ensures
        config.pool_size <= 0xffff_ffff <==> size is Ok,
        size is Ok ==> size->Ok_0 == config.pool_size,
        files.db@ == joined(base_dir@, "chronicle.db"@),
        files.wal@ == joined(base_dir@, "chronicle.db-wal"@),
        files.shm@ == joined(base_dir@, "chronicle.db-shm"@),
        rows > 0 ==> updated is Ok,
        rows == 0 ==> updated is Err && updated->Err_0 is Other && updated->Err_0->Other_0@
            == "not found: id "@ + decimal(id as int),
{
}

/// A window that was read is kept if it is not negative; a database whose size is not known is
/// worth a warning, and a sidecar only if it is there and cannot be read.
pub proof fn a_negative_window_is_refused(
    parsed: Result<i64, String>,
    r: Result<i64, StorageError>,
    size: FileSize,
    database: bool,
    sidecar: bool,
)
    requires
        call_ensures(checked_retention, (parsed,), r),
        call_ensures(FileSize::warns_for_database, (size,), database),
        call_ensures(FileSize::warns_for_sidecar, (size,), sidecar),
    ensures
        r is Ok <==> parsed is Ok && parsed->Ok_0 >= 0,
        r is Ok ==> r->Ok_0 == parsed->Ok_0,
        database <==> size is NotFound || size is Unreadable,
        sidecar <==> size is Unreadable,
{
}

/// A setting that is refused says why.
pub proof fn a_refused_setting_says_why(
    config: StorageConfig,
    size: Result<u32, StorageError>,
    parsed: Result<i64, String>,
    checked: Result<i64, StorageError>,
    stored: &str,
    r: Result<i64, StorageError>,
)
    requires
        call_ensures(pool_size, (&config,), size),
        call_ensures(checked_retention, (parsed,), checked),
        call_ensures(configured_retention, (Some(stored),), r),
    ensures
        size is Err ==> size->Err_0 is Other && size->Err_0->Other_0@ == "pool_size too large"@,
        parsed is Ok && parsed->Ok_0 < 0 ==> checked->Err_0 is Other && checked->Err_0->Other_0@
            == "retention_days must be non-negative"@,
        parsed is Err ==> checked->Err_0 is Other && checked->Err_0->Other_0@
            == "invalid retention_days value: "@ + parsed->Err_0@,
        integer_i64(stored@) is Some && integer_i64(stored@)->0 < 0 ==> r->Err_0 is Other
            && r->Err_0->Other_0@ == "retention_days must be non-negative"@,
        integer_i64(stored@) is None ==> r->Err_0 is Other && r->Err_0->Other_0@
            == "invalid retention_days value: "@ + parse_failure(stored@),
{
}

} // verus!
