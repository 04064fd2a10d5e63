//! How long records stay, and which files belong to none.

use vstd::prelude::*;
use vstd::hash_set::StringHashSet;
use crate::storage::date::DAY_MS;
use crate::storage::error::StorageError;
use crate::storage::media::string_views;
use crate::storage::models::{CleanupOutcome, CleanupStats};
use crate::text::{concat, concat3, decimal, decimal_i64, owned};

verus! {

/// The most rows that one batch of a cleanup deletes.
pub const CLEANUP_BATCH_SIZE: usize = 500;

/// Largest accepted retention window: 100 years (`100 * 365`).
///
/// Past this a value is a configuration error rather than a policy — and left unchecked, a
/// large enough one would wrap the cutoff into the future and expire the entire database.
/// `0` already means "keep forever".
pub const MAX_RETENTION_DAYS: i64 = 36_500;

/// A table of media records.
#[derive(Debug, Clone, Copy, PartialEq, Eq, Structural)]
pub enum MediaTable {
    Screenshots,
    AudioSegments,
}

impl MediaTable {
    pub open spec fn table_name(self) -> Seq<char> {
        match self {
            MediaTable::Screenshots => "screenshots"@,
            MediaTable::AudioSegments => "audio_segments"@,
        }
    }

    pub open spec fn timestamp_name(self) -> Seq<char> {
        match self {
            MediaTable::Screenshots => "timestamp"@,
            MediaTable::AudioSegments => "start_timestamp"@,
        }
    }

    pub open spec fn path_name(self) -> Seq<char> {
        match self {
            MediaTable::Screenshots => "image_path"@,
            MediaTable::AudioSegments => "audio_path"@,
        }
    }

    /// The name of the table.
    pub fn table(&self) -> (r: &'static str)
        ensures
            r@ == self.table_name(),
    {
        match self {
            MediaTable::Screenshots => "screenshots",
            MediaTable::AudioSegments => "audio_segments",
        }
    }

    /// The column of a record's time.
    pub fn timestamp_col(&self) -> (r: &'static str)
        ensures
            r@ == self.timestamp_name(),
    {
        match self {
            MediaTable::Screenshots => "timestamp",
            MediaTable::AudioSegments => "start_timestamp",
        }
    }

    /// The column of a record's file.
    pub fn path_col(&self) -> (r: &'static str)
        ensures
            r@ == self.path_name(),
    {
        match self {
            MediaTable::Screenshots => "image_path",
            MediaTable::AudioSegments => "audio_path",
        }
    }

    /// The directory of the records' files.
    pub fn subdir(&self) -> (r: &'static str)
        ensures
            r@ == (match *self {
                MediaTable::Screenshots => "screenshots"@,
                MediaTable::AudioSegments => "audio"@,
            }),
    {
        match self {
            MediaTable::Screenshots => "screenshots",
            MediaTable::AudioSegments => "audio",
        }
    }

    /// The query for the next batch of expired rows, oldest first. The `id` tiebreak makes the
    /// order total, so rows sharing a timestamp cannot alternate between batches.
    pub fn select_sql(&self) -> (r: String)
        ensures
            r@ == "SELECT id, "@ + self.path_name() + " FROM "@ + self.table_name() + " WHERE "@
                + self.timestamp_name() + " < ?1 ORDER BY "@ + self.timestamp_name()
                + ", id LIMIT ?2"@,
    {
        let columns = concat3("SELECT id, ", self.path_col(), " FROM ");
        let from = concat3(columns.as_str(), self.table(), " WHERE ");
        let expired = concat3(from.as_str(), self.timestamp_col(), " < ?1 ORDER BY ");
        concat3(expired.as_str(), self.timestamp_col(), ", id LIMIT ?2")
    }

    /// The query for the path of every row.
    pub fn tracked_sql(&self) -> (r: String)
        ensures
            r@ == "SELECT "@ + self.path_name() + " FROM "@ + self.table_name(),
    {
        concat(concat3("SELECT ", self.path_col(), " FROM ").as_str(), self.table())
    }

    /// The statement that deletes `count` rows by their ids.
    pub fn delete_sql(&self, count: usize) -> (r: String)
        ensures
            r@ == "DELETE FROM "@ + self.table_name() + " WHERE id IN ("@ + placeholders(
                count as nat,
            ) + ")"@,
    {
        let from = concat3("DELETE FROM ", self.table(), " WHERE id IN (");
        concat3(from.as_str(), placeholders_of(count).as_str(), ")")
    }
}

/// So many question marks, with commas between them.
pub open spec fn placeholders(count: nat) -> Seq<char>
    decreases count,
{
    if count == 0 {
        Seq::empty()
    } else if count == 1 {
        seq!['?']
    } else {
        placeholders((count - 1) as nat) + seq![',', '?']
    }
}

fn placeholders_of(count: usize) -> (r: String)
    ensures
        r@ == placeholders(count as nat),
{
    let mut out = String::new();
    let mut i: usize = 0;
    while i < count
        invariant
            i <= count,
            out@ == placeholders(i as nat),
        decreases count - i,
    {
        let ghost before = out@;
        if i > 0 {
            out.push(',');
        }
        out.push('?');
        i += 1;
        proof {
            if i > 1 {
                assert(out@ =~= before + seq![',', '?']);
            } else {
                assert(out@ =~= seq!['?']);
            }
        }
    }
    out
}

/// The time before which records are expired.
pub open spec fn cutoff(now_millis: int, retention_days: int) -> int {
    now_millis - retention_days * DAY_MS
}

/// Timestamp before which records are expired, or an error if the window does not fit in an
/// `i64`. The arithmetic is checked so that no caller can turn a wrap into data loss.
pub fn compute_cutoff(now_millis: i64, retention_days: i64) -> (r: Result<i64, StorageError>)
    ensures
        r is Ok <==> i64::MIN <= retention_days * DAY_MS <= i64::MAX && i64::MIN <= cutoff(
            now_millis as int,
            retention_days as int,
        ) <= i64::MAX,
        r is Ok ==> r->Ok_0 == cutoff(now_millis as int, retention_days as int),
        r is Err ==> r->Err_0.is_other(
            "retention cutoff overflows i64: now_millis "@ + decimal(now_millis as int)
                + ", retention_days "@ + decimal(retention_days as int),
        ),
{
    if let Some(window) = retention_days.checked_mul(DAY_MS) {
        if let Some(t) = now_millis.checked_sub(window) {
            return Ok(t);
        }
    }
    let now = concat3(
        "retention cutoff overflows i64: now_millis ",
        decimal_i64(now_millis).as_str(),
        ", retention_days ",
    );
    Err(StorageError::Other(concat(now.as_str(), decimal_i64(retention_days).as_str())))
}

/// What a cleanup is to do.
#[derive(Debug, Clone, Copy, PartialEq, Eq, Structural)]
pub enum CleanupPlan {
    /// Nothing: everything is kept forever.
    Disabled,
    /// Delete what is older than this.
    DeleteBefore(i64),
}

/// Decide on a cleanup. `retention_days` of `0` or less is "keep forever"; above
/// `MAX_RETENTION_DAYS` is an error. Both refuse to delete; they differ only in how loudly.
pub fn run_cleanup(retention_days: i64, now_millis: i64) -> (r: Result<CleanupPlan, StorageError>)
    ensures
        retention_days <= 0 ==> r == Ok::<CleanupPlan, StorageError>(CleanupPlan::Disabled),
        retention_days > MAX_RETENTION_DAYS ==> r is Err && r->Err_0.is_other(
            "retention_days "@ + decimal(retention_days as int) + " exceeds maximum "@ + decimal(
                MAX_RETENTION_DAYS as int,
            ),
        ),
        0 < retention_days <= MAX_RETENTION_DAYS ==> {
            let t = cutoff(now_millis as int, retention_days as int);
            if t >= i64::MIN {
                r == Ok::<CleanupPlan, StorageError>(CleanupPlan::DeleteBefore(t as i64))
            } else {
                r is Err && r->Err_0.is_other(
                    "retention cutoff overflows i64: now_millis "@ + decimal(now_millis as int)
                        + ", retention_days "@ + decimal(retention_days as int),
                )
            }
        },
{
    if retention_days <= 0 {
        return Ok(CleanupPlan::Disabled);
    }
    if retention_days > MAX_RETENTION_DAYS {
        let days = concat3(
            "retention_days ",
            decimal_i64(retention_days).as_str(),
            " exceeds maximum ",
        );
        return Err(
            StorageError::Other(concat(days.as_str(), decimal_i64(MAX_RETENTION_DAYS).as_str())),
        );
    }
    match compute_cutoff(now_millis, retention_days) {
        Ok(t) => Ok(CleanupPlan::DeleteBefore(t)),
        Err(e) => Err(e),
    }
}

/// The result of a cleanup that did not run.
pub fn disabled_stats() -> (r: CleanupStats)
    ensures
        r == (CleanupStats {
            screenshots_deleted: 0,
            audio_segments_deleted: 0,
            bytes_freed: 0,
            outcome: CleanupOutcome::Disabled,
        }),
{
    CleanupStats {
        screenshots_deleted: 0,
        audio_segments_deleted: 0,
        bytes_freed: 0,
        outcome: CleanupOutcome::Disabled,
    }
}

/// The result of a cleanup of both tables.
pub fn completed_stats(screenshots: &TableCleanup, audio: &TableCleanup) -> (r: CleanupStats)
    requires
        screenshots.freed + audio.freed <= u64::MAX,
    ensures
        r == (CleanupStats {
            screenshots_deleted: screenshots.deleted,
            audio_segments_deleted: audio.deleted,
            bytes_freed: (screenshots.freed + audio.freed) as u64,
            outcome: CleanupOutcome::Completed,
        }),
{
    CleanupStats {
        screenshots_deleted: screenshots.deleted,
        audio_segments_deleted: audio.deleted,
        bytes_freed: screenshots.freed + audio.freed,
        outcome: CleanupOutcome::Completed,
    }
}

/// Where the cleanup of a table stands.
#[derive(Debug, Clone, Copy, PartialEq, Eq, Structural)]
pub enum CleanupPhase {
    /// The next batch is to be selected.
    Select,
    /// The files of the batch are to be deleted, one after the other.
    DeleteFiles,
    /// The rows of the batch are to be deleted.
    DeleteRows,
    /// No expired row is left.
    Done,
}

/// The cleanup of one table, batch by batch: files first, then their rows, so that a crash
/// leaves rows without files, which are easy to detect.
///
/// Whoever drives it selects a batch in `Select`, deletes each `next_file` in `DeleteFiles`,
/// deletes the rows of `batch` in `DeleteRows`, and reports each of these.
pub struct TableCleanup {
    /// Rows deleted so far.
    pub deleted: usize,
    /// Bytes freed so far.
    pub freed: u64,
    /// The rows of the current batch: their ids and the paths of their files.
    pub batch: Vec<(i64, String)>,
    /// How many files of the batch have been tried.
    pub tried: usize,
    pub phase: CleanupPhase,
}

/// A cleanup in mathematical terms.
pub struct CleanupModel {
    pub deleted: nat,
    pub freed: nat,
    /// The rows of the current batch: their ids and the paths of their files.
    pub batch: Seq<(i64, Seq<char>)>,
    pub tried: nat,
    pub phase: CleanupPhase,
}

/// A cleanup that has done nothing yet.
pub open spec fn fresh_cleanup() -> CleanupModel {
    CleanupModel {
        deleted: 0,
        freed: 0,
        batch: Seq::empty(),
        tried: 0,
        phase: CleanupPhase::Select,
    }
}

/// The rows as they read.
pub open spec fn row_views(batch: Seq<(i64, String)>) -> Seq<(i64, Seq<char>)> {
    Seq::new(batch.len(), |i: int| (batch[i].0, batch[i].1@))
}

/// The ids of the rows.
pub open spec fn ids_of(batch: Seq<(i64, Seq<char>)>) -> Seq<i64> {
    Seq::new(batch.len(), |i: int| batch[i].0)
}

/// The bytes that a deletion freed: none where the file could not be deleted.
pub open spec fn bytes_of(freed: Option<u64>) -> nat {
    match freed {
        Some(n) => n as nat,
        None => 0,
    }
}

/// The next batch has been selected. An empty one ends the cleanup.
pub open spec fn with_batch(m: CleanupModel, batch: Seq<(i64, Seq<char>)>) -> CleanupModel {
    CleanupModel {
        batch,
        tried: 0,
        phase: if batch.len() == 0 {
            CleanupPhase::Done
        } else {
            CleanupPhase::DeleteFiles
        },
        ..m
    }
}

/// The next file of the batch has been tried.
pub open spec fn with_file(m: CleanupModel, freed: Option<u64>) -> CleanupModel {
    CleanupModel {
        freed: m.freed + bytes_of(freed),
        tried: m.tried + 1,
        phase: if m.tried + 1 == m.batch.len() {
            CleanupPhase::DeleteRows
        } else {
            CleanupPhase::DeleteFiles
        },
        ..m
    }
}

/// The rows of the batch have been deleted. A batch that was not full was the last.
pub open spec fn without_rows(m: CleanupModel) -> CleanupModel {
    CleanupModel {
        deleted: m.deleted + m.batch.len(),
        phase: if m.batch.len() < CLEANUP_BATCH_SIZE {
            CleanupPhase::Done
        } else {
            CleanupPhase::Select
        },
        ..m
    }
}

impl TableCleanup {
    pub open spec fn model(self) -> CleanupModel {
        CleanupModel {
            deleted: self.deleted as nat,
            freed: self.freed as nat,
            batch: row_views(self.batch@),
            tried: self.tried as nat,
            phase: self.phase,
        }
    }

    pub open spec fn well_formed(self) -> bool {
        match self.phase {
            CleanupPhase::DeleteFiles => self.tried < self.batch@.len(),
            CleanupPhase::DeleteRows => 0 < self.batch@.len() && self.tried == self.batch@.len(),
            _ => true,
        }
    }

    /// A cleanup that has done nothing yet.
    pub fn new() -> (r: Self)
        ensures
            r.well_formed(),
            r.model() == fresh_cleanup(),
    {
        let r = TableCleanup {
            deleted: 0,
            freed: 0,
            batch: Vec::new(),
            tried: 0,
            phase: CleanupPhase::Select,
        };
        proof {
            assert(row_views(r.batch@) =~= Seq::<(i64, Seq<char>)>::empty());
        }
        r
    }

    /// The next batch has been selected. An empty one ends the cleanup.
    pub fn batch_selected(&mut self, batch: Vec<(i64, String)>)
        requires
            old(self).well_formed(),
            old(self).phase == CleanupPhase::Select,
        ensures
            final(self).well_formed(),
            final(self).model() == with_batch(old(self).model(), row_views(batch@)),
    {
        self.phase = if batch.len() == 0 {
            CleanupPhase::Done
        } else {
            CleanupPhase::DeleteFiles
        };
        self.batch = batch;
        self.tried = 0;
    }

    /// The file to be deleted next.
    pub fn next_file(&self) -> (r: &str)
        requires
            self.well_formed(),
            self.phase == CleanupPhase::DeleteFiles,
        ensures
            r@ == self.model().batch[self.tried as int].1,
    {
        self.batch[self.tried].1.as_str()
    }

    /// The next file has been deleted, which freed so many bytes; or it could not be, which
    /// does not stop the cleanup.
    pub fn file_deleted(&mut self, freed: Option<u64>)
        requires
            old(self).well_formed(),
            old(self).phase == CleanupPhase::DeleteFiles,
            old(self).freed + bytes_of(freed) <= u64::MAX,
        ensures
            final(self).well_formed(),
            final(self).model() == with_file(old(self).model(), freed),
    {
        if let Some(n) = freed {
            self.freed = self.freed + n;
        }
        let count: usize = self.batch.len();
        self.tried = self.tried + 1;
        if self.tried == count {
            self.phase = CleanupPhase::DeleteRows;
        }
    }

    /// The ids of the rows to be deleted.
    pub fn ids(&self) -> (r: Vec<i64>)
        ensures
            r@ == ids_of(self.model().batch),
    {
        let ghost all = ids_of(self.model().batch);
        let mut out: Vec<i64> = Vec::new();
        let mut i: usize = 0;
        while i < self.batch.len()
            invariant
                i <= self.batch@.len(),
                all == ids_of(self.model().batch),
                out@ == all.take(i as int),
            decreases self.batch@.len() - i,
        {
            out.push(self.batch[i].0);
            i += 1;
            proof {
                assert(out@ =~= all.take(i as int));
            }
        }
        proof {
            assert(all.take(self.batch@.len() as int) =~= all);
        }
        out
    }

    /// The rows of the batch have been deleted. A batch that was not full was the last.
    pub fn rows_deleted(&mut self)
        requires
            old(self).well_formed(),
            old(self).phase == CleanupPhase::DeleteRows,
            old(self).deleted + old(self).batch@.len() <= usize::MAX,
        ensures
            final(self).well_formed(),
            final(self).model() == without_rows(old(self).model()),
    {
        self.deleted = self.deleted + self.batch.len();
        self.phase = if self.batch.len() < CLEANUP_BATCH_SIZE {
            CleanupPhase::Done
        } else {
            CleanupPhase::Select
        };
    }
}

/// The rows of a table: the time of each, by its id.
pub type Rows = Map<i64, i64>;

/// Whether these ids are what the batch query returns: expired rows, each once, oldest first,
/// and all of them unless the batch is full.
pub open spec fn selected(rows: Rows, cutoff: int, ids: Seq<i64>) -> bool {
    &&& ids.len() <= CLEANUP_BATCH_SIZE
    &&& forall|i: int|
        0 <= i < ids.len() ==> rows.dom().contains(#[trigger] ids[i]) && rows[ids[i]] < cutoff
    &&& forall|i: int, j: int|
        0 <= i < j < ids.len() ==> rows[#[trigger] ids[i]] < rows[#[trigger] ids[j]] || (
        rows[ids[i]] == rows[ids[j]] && ids[i] < ids[j])
    &&& ids.len() < CLEANUP_BATCH_SIZE ==> forall|id: i64| #[trigger]
        rows.dom().contains(id) && rows[id] < cutoff ==> ids.contains(id)
    &&& forall|id: i64, i: int|
        #![trigger rows.dom().contains(id), ids[i]]
        rows.dom().contains(id) && rows[id] < cutoff && !ids.contains(id) && 0 <= i < ids.len()
            ==> rows[ids[i]] <= rows[id]
}

/// The rows that are left once these have been deleted.
pub open spec fn without(rows: Rows, ids: Seq<i64>) -> Rows {
    rows.remove_keys(ids.to_set())
}

/// Whether a cleanup that selected these batches, one after the other, has come to its end.
pub open spec fn runs_to_its_end(rows: Rows, cutoff: int, batches: Seq<Seq<i64>>) -> bool
    decreases batches.len(),
{
    &&& batches.len() > 0
    &&& selected(rows, cutoff, batches[0])
    &&& if batches[0].len() < CLEANUP_BATCH_SIZE {
        batches.len() == 1
    } else {
        runs_to_its_end(without(rows, batches[0]), cutoff, batches.drop_first())
    }
}

/// The rows that are left once these batches have been deleted.
pub open spec fn left(rows: Rows, batches: Seq<Seq<i64>>) -> Rows
    decreases batches.len(),
{
    if batches.len() == 0 {
        rows
    } else {
        left(without(rows, batches[0]), batches.drop_first())
    }
}

/// A cleanup that has come to its end keeps exactly the rows inside the window.
pub proof fn a_cleanup_keeps_the_rows_inside_the_window(
    rows: Rows,
    cutoff: int,
    batches: Seq<Seq<i64>>,
)
    requires
        runs_to_its_end(rows, cutoff, batches),
    ensures
        forall|id: i64| #[trigger]
            left(rows, batches).dom().contains(id) <==> rows.dom().contains(id) && rows[id]
                >= cutoff,
        forall|id: i64| #[trigger]
            left(rows, batches).dom().contains(id) ==> left(rows, batches)[id] == rows[id],
    decreases batches.len(),
{
    let first = batches[0];
    let rest = without(rows, first);
    assert forall|id: i64| #[trigger] rest.dom().contains(id) implies rows.dom().contains(id)
        && !first.contains(id) && rest[id] == rows[id] by {}
    assert forall|id: i64| rows.dom().contains(id) && !first.contains(id) implies #[trigger]
        rest.dom().contains(id) by {}
    if first.len() < CLEANUP_BATCH_SIZE {
        assert(batches.drop_first() =~= Seq::<Seq<i64>>::empty());
        assert(left(rest, batches.drop_first()) == rest);
        assert forall|id: i64| rows.dom().contains(id) && rows[id] >= cutoff implies #[trigger]
            rest.dom().contains(id) by {
            if first.contains(id) {
                let i = choose|i: int| 0 <= i < first.len() && first[i] == id;
                assert(rows[first[i]] < cutoff);
            }
        }
    } else {
        a_cleanup_keeps_the_rows_inside_the_window(rest, cutoff, batches.drop_first());
        let end = left(rest, batches.drop_first());
        assert(left(rows, batches) == end);
        assert forall|id: i64| #[trigger] end.dom().contains(id) <==> rows.dom().contains(id)
            && rows[id] >= cutoff by {
            if rows.dom().contains(id) && rows[id] >= cutoff {
                if first.contains(id) {
                    let i = choose|i: int| 0 <= i < first.len() && first[i] == id;
                    assert(rows[first[i]] < cutoff);
                }
                assert(rest.dom().contains(id));
            }
        }
    }
}

/// A cleanup that is cut short has removed the oldest rows: none that is left and expired is
/// older than one of the batch that was deleted.
pub proof fn the_oldest_rows_go_first(rows: Rows, cutoff: int, ids: Seq<i64>, gone: i64, kept: i64)
    requires
        selected(rows, cutoff, ids),
        ids.contains(gone),
        without(rows, ids).dom().contains(kept),
    ensures
        rows[gone] <= rows[kept],
{
    let i = choose|i: int| 0 <= i < ids.len() && ids[i] == gone;
    assert(rows.dom().contains(kept) && !ids.contains(kept));
    assert(rows.dom().contains(ids[i]));
}

/// The rows outside the window.
pub open spec fn expired(rows: Rows, cutoff: int) -> Set<i64> {
    rows.dom().filter(|id: i64| rows[id] < cutoff)
}

/// How many rows the batches hold.
pub open spec fn total(batches: Seq<Seq<i64>>) -> nat
    decreases batches.len(),
{
    if batches.len() == 0 {
        0
    } else {
        batches[0].len() + total(batches.drop_first())
    }
}

/// A cleanup that has come to its end has deleted each expired row once: its batches hold as
/// many rows as had expired.
pub proof fn the_batches_hold_every_expired_row_once(
    rows: Rows,
    cutoff: int,
    batches: Seq<Seq<i64>>,
)
    requires
        rows.dom().finite(),
        runs_to_its_end(rows, cutoff, batches),
    ensures
        total(batches) == expired(rows, cutoff).len(),
    decreases batches.len(),
{
    let first = batches[0];
    let rest = without(rows, first);
    let gone = first.to_set();
    assert(first.no_duplicates());
    first.unique_seq_to_set();
    assert(gone.subset_of(expired(rows, cutoff))) by {
        assert forall|id: i64| gone.contains(id) implies expired(rows, cutoff).contains(id) by {
            let i = choose|i: int| 0 <= i < first.len() && first[i] == id;
            assert(rows.dom().contains(first[i]));
        }
    }
    assert(expired(rest, cutoff) =~= expired(rows, cutoff).difference(gone));
    assert(rest.dom() =~= rows.dom().difference(gone));
    lemma_len_without(expired(rows, cutoff), gone);
    if first.len() < CLEANUP_BATCH_SIZE {
        assert(batches.drop_first() =~= Seq::<Seq<i64>>::empty());
        assert(total(batches.drop_first()) == 0);
        assert(expired(rest, cutoff) =~= Set::<i64>::empty()) by {
            assert forall|id: i64| !expired(rest, cutoff).contains(id) by {
                if rows.dom().contains(id) && rows[id] < cutoff {
                    assert(first.contains(id));
                }
            }
        }
    } else {
        the_batches_hold_every_expired_row_once(rest, cutoff, batches.drop_first());
    }
}

proof fn lemma_len_without(all: Set<i64>, part: Set<i64>)
    requires
        all.finite(),
        part.subset_of(all),
    ensures
        all.difference(part).len() + part.len() == all.len(),
{
    vstd::set_lib::lemma_len_subset(part, all);
    vstd::set_lib::lemma_set_disjoint_lens(all.difference(part), part);
    assert(all.difference(part) + part =~= all);
}

/// What happens to a cleanup.
pub enum CleanupEvent {
    /// These rows have been selected.
    Selected(Seq<(i64, Seq<char>)>),
    /// The next file has been deleted, which freed so many bytes, or could not be.
    FileTried(Option<u64>),
    /// The rows of the batch have been deleted.
    RowsDeleted,
}

/// What an event does.
pub open spec fn cleanup_step(m: CleanupModel, event: CleanupEvent) -> CleanupModel {
    match event {
        CleanupEvent::Selected(batch) => with_batch(m, batch),
        CleanupEvent::FileTried(freed) => with_file(m, freed),
        CleanupEvent::RowsDeleted => without_rows(m),
    }
}

/// Whether the event is the one that the phase asks for.
pub open spec fn is_asked_for(m: CleanupModel, event: CleanupEvent) -> bool {
    match event {
        CleanupEvent::Selected(_) => m.phase == CleanupPhase::Select,
        CleanupEvent::FileTried(_) => m.phase == CleanupPhase::DeleteFiles,
        CleanupEvent::RowsDeleted => m.phase == CleanupPhase::DeleteRows,
    }
}

/// What comes of these events, one after the other, in a cleanup that has done nothing yet.
pub open spec fn cleanup_run(events: Seq<CleanupEvent>) -> CleanupModel
    decreases events.len(),
{
    if events.len() == 0 {
        fresh_cleanup()
    } else {
        cleanup_step(cleanup_run(events.drop_last()), events.last())
    }
}

/// Whether each of the events is the one that was asked for when it came.
pub open spec fn cleanup_orderly(events: Seq<CleanupEvent>) -> bool
    decreases events.len(),
{
    events.len() > 0 ==> cleanup_orderly(events.drop_last()) && is_asked_for(
        cleanup_run(events.drop_last()),
        events.last(),
    )
}

/// The ids of the batches that were selected, in order.
pub open spec fn batches_of(events: Seq<CleanupEvent>) -> Seq<Seq<i64>>
    decreases events.len(),
{
    if events.len() == 0 {
        Seq::empty()
    } else {
        let before = batches_of(events.drop_last());
        match events.last() {
            CleanupEvent::Selected(batch) => before.push(ids_of(batch)),
            _ => before,
        }
    }
}

/// The bytes that the deletions of files freed.
pub open spec fn bytes_reported(events: Seq<CleanupEvent>) -> nat
    decreases events.len(),
{
    if events.len() == 0 {
        0
    } else {
        bytes_reported(events.drop_last()) + (match events.last() {
            CleanupEvent::FileTried(freed) => bytes_of(freed),
            _ => 0,
        })
    }
}

/// Whether each batch is what the query returns for the rows that are left when it comes.
pub open spec fn as_queried(rows: Rows, cutoff: int, batches: Seq<Seq<i64>>) -> bool
    decreases batches.len(),
{
    batches.len() > 0 ==> selected(rows, cutoff, batches[0]) && as_queried(
        without(rows, batches[0]),
        cutoff,
        batches.drop_first(),
    )
}

/// Whether every batch but the last is full.
pub open spec fn full_but_the_last(batches: Seq<Seq<i64>>) -> bool {
    forall|i: int|
        0 <= i < batches.len() - 1 ==> (#[trigger] batches[i]).len() >= CLEANUP_BATCH_SIZE
}

proof fn lemma_total_push(batches: Seq<Seq<i64>>, last: Seq<i64>)
    ensures
        total(batches.push(last)) == total(batches) + last.len(),
    decreases batches.len(),
{
    if batches.len() == 0 {
        assert(batches.push(last).drop_first() =~= Seq::<Seq<i64>>::empty());
        assert(total(Seq::<Seq<i64>>::empty()) == 0);
    } else {
        lemma_total_push(batches.drop_first(), last);
        assert(batches.push(last).drop_first() =~= batches.drop_first().push(last));
    }
}

/// What holds of a cleanup between any two events.
spec fn on_course(m: CleanupModel, batches: Seq<Seq<i64>>) -> bool {
    &&& full_but_the_last(batches)
    &&& match m.phase {
        CleanupPhase::Select => m.deleted == total(batches) && (batches.len() > 0
            ==> batches.last().len() >= CLEANUP_BATCH_SIZE),
        CleanupPhase::Done => m.deleted == total(batches) && batches.len() > 0
            && batches.last().len() < CLEANUP_BATCH_SIZE,
        _ => batches.len() > 0 && batches.last() == ids_of(m.batch) && m.deleted == total(
            batches.drop_last(),
        ),
    }
}

proof fn lemma_on_course(events: Seq<CleanupEvent>)
    requires
        cleanup_orderly(events),
    ensures
        on_course(cleanup_run(events), batches_of(events)),
        cleanup_run(events).freed == bytes_reported(events),
    decreases events.len(),
{
    if events.len() > 0 {
        let earlier = events.drop_last();
        lemma_on_course(earlier);
        let before = batches_of(earlier);
        let after = batches_of(events);
        match events.last() {
            CleanupEvent::Selected(batch) => {
                lemma_total_push(before, ids_of(batch));
                assert(after.drop_last() =~= before);
                assert forall|i: int| 0 <= i < after.len() - 1 implies (
                #[trigger] after[i]).len() >= CLEANUP_BATCH_SIZE by {
                    assert(after[i] == before[i]);
                }
            },
            CleanupEvent::FileTried(_) => {},
            CleanupEvent::RowsDeleted => {
                lemma_total_push(before.drop_last(), before.last());
                assert(before.drop_last().push(before.last()) =~= before);
            },
        }
    }
}

proof fn lemma_runs_to_its_end(rows: Rows, cutoff: int, batches: Seq<Seq<i64>>)
    requires
        as_queried(rows, cutoff, batches),
        full_but_the_last(batches),
        batches.len() > 0,
        batches.last().len() < CLEANUP_BATCH_SIZE,
    ensures
        runs_to_its_end(rows, cutoff, batches),
    decreases batches.len(),
{
    if batches.len() > 1 {
        let rest = batches.drop_first();
        assert(batches[0].len() >= CLEANUP_BATCH_SIZE);
        assert forall|i: int| 0 <= i < rest.len() - 1 implies (#[trigger] rest[i]).len()
            >= CLEANUP_BATCH_SIZE by {
            assert(rest[i] == batches[i + 1]);
        }
        lemma_runs_to_its_end(without(rows, batches[0]), cutoff, rest);
    }
}

/// A cleanup that is done, and whose batches were those that the query returned, has deleted as
/// many rows as had expired, has freed what the deletions of their files did, and leaves exactly
/// the rows inside the window.
pub proof fn a_cleanup_counts_what_it_deleted(
    rows: Rows,
    cutoff: int,
    events: Seq<CleanupEvent>,
)
    requires
        rows.dom().finite(),
        cleanup_orderly(events),
        cleanup_run(events).phase == CleanupPhase::Done,
        as_queried(rows, cutoff, batches_of(events)),
    ensures
        cleanup_run(events).deleted == expired(rows, cutoff).len(),
        cleanup_run(events).freed == bytes_reported(events),
        forall|id: i64| #[trigger]
            left(rows, batches_of(events)).dom().contains(id) <==> rows.dom().contains(id)
                && rows[id] >= cutoff,
{
    lemma_on_course(events);
    lemma_runs_to_its_end(rows, cutoff, batches_of(events));
    the_batches_hold_every_expired_row_once(rows, cutoff, batches_of(events));
    a_cleanup_keeps_the_rows_inside_the_window(rows, cutoff, batches_of(events));
}

/// The cutoff of an accepted retention never lies in the future: what is captured now stays.
pub proof fn a_cutoff_lies_in_the_past(now_millis: int, retention_days: int)
    requires
        0 < retention_days <= MAX_RETENTION_DAYS,
    ensures
        cutoff(now_millis, retention_days) < now_millis,
{
}

/// Whether a file was last written at or after a moment, by the time of its last change. Fails
/// closed: where the time cannot be read the file counts as recent, so it is kept. The cost of
/// a wrong "yes" is one retained orphan; the cost of a wrong "no" is a deleted capture.
pub fn modified_since(modified: Option<i128>, moment: i128) -> (r: bool)
    ensures
        r == (modified is None || modified->0 >= moment),
{
    match modified {
        Some(t) => t >= moment,
        None => true,
    }
}

/// Where a sweep stands.
#[derive(Debug, Clone, Copy, PartialEq, Eq, Structural)]
pub enum SweepPhase {
    /// The directory is to be walked.
    Walk,
    /// The paths that rows point to are to be read.
    ReadTracked,
    /// The next file is to be examined.
    Files,
    /// The next file is an orphan and is to be deleted.
    Delete,
    /// Every file has been examined.
    Done,
}

/// A sweep of one media directory for files that belong to no row.
///
/// The directory is walked before the rows are read, never after: both writers go
/// file-then-row, so a file that comes between a read and a walk would be taken for an orphan.
/// One that is written during the walk is spared by its age.
pub struct Sweep {
    /// When the sweep began, before the walk.
    pub started: i128,
    /// The files that the walk found.
    pub files: Vec<String>,
    /// The paths that rows point to.
    pub known: StringHashSet,
    /// How many files have been dealt with.
    pub seen: usize,
    /// Bytes freed so far.
    pub freed: u64,
    pub phase: SweepPhase,
}

/// A sweep in mathematical terms.
pub struct SweepModel {
    pub started: i128,
    pub files: Seq<Seq<char>>,
    pub known: Set<Seq<char>>,
    pub seen: nat,
    pub freed: nat,
    pub phase: SweepPhase,
}

/// A sweep that begins now.
pub open spec fn fresh_sweep(started: i128) -> SweepModel {
    SweepModel {
        started,
        files: Seq::empty(),
        known: Set::empty(),
        seen: 0,
        freed: 0,
        phase: SweepPhase::Walk,
    }
}

/// Whether a file is to be deleted: no row points to it, and it was last changed before the
/// sweep began.
pub open spec fn is_orphan(m: SweepModel, canonical: Seq<char>, modified: Option<i128>) -> bool {
    !m.known.contains(canonical) && modified is Some && modified->0 < m.started
}

/// The directory has been walked. Without files there is nothing to classify, and the rows need
/// not be read.
pub open spec fn with_files(m: SweepModel, files: Seq<Seq<char>>) -> SweepModel {
    SweepModel {
        files,
        seen: 0,
        phase: if files.len() > 0 {
            SweepPhase::ReadTracked
        } else {
            SweepPhase::Done
        },
        ..m
    }
}

/// The paths that rows point to have been read.
pub open spec fn with_known(m: SweepModel, paths: Seq<Seq<char>>) -> SweepModel {
    SweepModel { known: paths.to_set(), phase: SweepPhase::Files, ..m }
}

/// The next file has been dealt with.
pub open spec fn passed(m: SweepModel) -> SweepModel {
    SweepModel {
        seen: m.seen + 1,
        phase: if m.seen + 1 == m.files.len() {
            SweepPhase::Done
        } else {
            SweepPhase::Files
        },
        ..m
    }
}

/// The next file has been examined: an orphan is to be deleted, and any other stays.
pub open spec fn with_look(m: SweepModel, canonical: Seq<char>, modified: Option<i128>) -> SweepModel {
    if is_orphan(m, canonical, modified) {
        SweepModel { phase: SweepPhase::Delete, ..m }
    } else {
        passed(m)
    }
}

/// The orphan has been tried.
pub open spec fn with_deletion(m: SweepModel, freed: Option<u64>) -> SweepModel {
    passed(SweepModel { freed: m.freed + bytes_of(freed), ..m })
}

impl Sweep {
    pub open spec fn model(self) -> SweepModel {
        SweepModel {
            started: self.started,
            files: string_views(self.files@),
            known: self.known@,
            seen: self.seen as nat,
            freed: self.freed as nat,
            phase: self.phase,
        }
    }

    pub open spec fn well_formed(self) -> bool {
        match self.phase {
            SweepPhase::Walk => true,
            SweepPhase::ReadTracked => self.seen == 0 && self.files@.len() > 0,
            SweepPhase::Files => self.seen < self.files@.len(),
            SweepPhase::Delete => self.seen < self.files@.len(),
            SweepPhase::Done => true,
        }
    }

    /// A sweep that begins now.
    pub fn new(started: i128) -> (r: Self)
        ensures
            r.well_formed(),
            r.model() == fresh_sweep(started),
    {
        let r = Sweep {
            started,
            files: Vec::new(),
            known: StringHashSet::new(),
            seen: 0,
            freed: 0,
            phase: SweepPhase::Walk,
        };
        proof {
            assert(string_views(r.files@) =~= Seq::<Seq<char>>::empty());
            assert(r.known@ =~= Set::<Seq<char>>::empty());
        }
        r
    }

    /// The directory has been walked. Without files there is nothing to classify, and the rows
    /// need not be read.
    pub fn walked(&mut self, files: Vec<String>)
        requires
            old(self).well_formed(),
            old(self).phase == SweepPhase::Walk,
        ensures
            final(self).well_formed(),
            final(self).model() == with_files(old(self).model(), string_views(files@)),
    {
        self.phase = if files.len() > 0 {
            SweepPhase::ReadTracked
        } else {
            SweepPhase::Done
        };
        self.files = files;
        self.seen = 0;
    }

    /// The paths that rows point to have been read.
    pub fn tracked_read(&mut self, paths: Vec<String>)
        requires
            old(self).well_formed(),
            old(self).phase == SweepPhase::ReadTracked,
        ensures
            final(self).well_formed(),
            final(self).model() == with_known(old(self).model(), string_views(paths@)),
    {
        self.known = set_of(&paths);
        self.phase = SweepPhase::Files;
    }

    /// The file to be examined next, or to be deleted.
    pub fn next_file(&self) -> (r: &str)
        requires
            self.well_formed(),
            self.phase == SweepPhase::Files || self.phase == SweepPhase::Delete,
        ensures
            r@ == self.model().files[self.seen as int],
    {
        self.files[self.seen].as_str()
    }

    /// The next file has this resolved path, and was last changed then. Says whether it is to be
    /// deleted.
    pub fn examined(&mut self, canonical: &str, modified: Option<i128>) -> (r: bool)
        requires
            old(self).well_formed(),
            old(self).phase == SweepPhase::Files,
        ensures
            final(self).well_formed(),
            final(self).model() == with_look(old(self).model(), canonical@, modified),
            r == is_orphan(old(self).model(), canonical@, modified),
    {
        if !self.known.contains(canonical) && !modified_since(modified, self.started) {
            self.phase = SweepPhase::Delete;
            true
        } else {
            self.pass();
            false
        }
    }

    /// The orphan has been deleted, which freed so many bytes; or it could not be, which does
    /// not stop the sweep.
    pub fn file_deleted(&mut self, freed: Option<u64>)
        requires
            old(self).well_formed(),
            old(self).phase == SweepPhase::Delete,
            old(self).freed + bytes_of(freed) <= u64::MAX,
        ensures
            final(self).well_formed(),
            final(self).model() == with_deletion(old(self).model(), freed),
    {
        if let Some(n) = freed {
            self.freed = self.freed + n;
        }
        self.pass();
    }

    fn pass(&mut self)
        requires
            old(self).seen < old(self).files@.len(),
        ensures
            final(self).well_formed(),
            final(self).model() == passed(old(self).model()),
    {
        let count: usize = self.files.len();
        self.seen = self.seen + 1;
        self.phase = if self.seen == count {
            SweepPhase::Done
        } else {
            SweepPhase::Files
        };
    }
}

/// The texts as a set.
fn set_of(texts: &Vec<String>) -> (r: StringHashSet)
    ensures
        r@ == string_views(texts@).to_set(),
{
    let mut set = StringHashSet::new();
    let mut i: usize = 0;
    proof {
        assert(string_views(texts@).take(0).to_set() =~= Set::<Seq<char>>::empty());
    }
    while i < texts.len()
        invariant
            i <= texts@.len(),
            set@ == string_views(texts@).take(i as int).to_set(),
        decreases texts@.len() - i,
    {
        let ghost views = string_views(texts@);
        set.insert(owned(texts[i].as_str()));
        proof {
            let a = views.take(i as int);
            let b = views.take(i + 1);
            assert forall|x: Seq<char>| b.to_set().contains(x) <==> a.to_set().insert(
                views[i as int],
            ).contains(x) by {
                if b.contains(x) {
                    let k = choose|k: int| 0 <= k < b.len() && b[k] == x;
                    if k < i {
                        assert(a[k] == x);
                    }
                }
                if a.contains(x) {
                    let k = choose|k: int| 0 <= k < a.len() && a[k] == x;
                    assert(b[k] == x);
                }
                assert(b[i as int] == views[i as int]);
            }
            assert(b.to_set() =~= a.to_set().insert(views[i as int]));
        }
        i += 1;
    }
    proof {
        assert(string_views(texts@).take(texts@.len() as int) =~= string_views(texts@));
    }
    set
}

/// A file that a row points to is never swept, and neither is one that was written after the
/// sweep began or whose age is not known.
pub proof fn a_sweep_spares_captures(m: SweepModel, canonical: Seq<char>, modified: Option<i128>)
    requires
        m.known.contains(canonical) || modified is None || modified->0 >= m.started,
    ensures
        !is_orphan(m, canonical, modified),
{
}

/// What happens to a sweep.
pub enum SweepEvent {
    /// The directory has been walked, and these files were found.
    Walked(Seq<Seq<char>>),
    /// The paths that rows point to have been read.
    TrackedRead(Seq<Seq<char>>),
    /// The next file has this resolved path, and was last changed then.
    Examined(Seq<char>, Option<i128>),
    /// The orphan has been deleted, which freed so many bytes, or could not be.
    Deleted(Option<u64>),
}

/// What an event does.
pub open spec fn sweep_step(m: SweepModel, event: SweepEvent) -> SweepModel {
    match event {
        SweepEvent::Walked(files) => with_files(m, files),
        SweepEvent::TrackedRead(paths) => with_known(m, paths),
        SweepEvent::Examined(canonical, modified) => with_look(m, canonical, modified),
        SweepEvent::Deleted(freed) => with_deletion(m, freed),
    }
}

/// Whether the event is the one that the phase asks for.
pub open spec fn is_due(m: SweepModel, event: SweepEvent) -> bool {
    match event {
        SweepEvent::Walked(_) => m.phase == SweepPhase::Walk,
        SweepEvent::TrackedRead(_) => m.phase == SweepPhase::ReadTracked,
        SweepEvent::Examined(_, _) => m.phase == SweepPhase::Files,
        SweepEvent::Deleted(_) => m.phase == SweepPhase::Delete,
    }
}

/// What comes of some events: what the sweep is afterwards, and the places of the files that
/// were to be deleted, in order.
pub struct SweepRun {
    pub next: SweepModel,
    pub doomed: Seq<int>,
}

/// What comes of these events, one after the other, in a sweep that begins now.
pub open spec fn sweep_run(started: i128, events: Seq<SweepEvent>) -> SweepRun
    decreases events.len(),
{
    if events.len() == 0 {
        SweepRun { next: fresh_sweep(started), doomed: Seq::empty() }
    } else {
        let before = sweep_run(started, events.drop_last());
        let next = sweep_step(before.next, events.last());
        SweepRun {
            next,
            doomed: if next.phase == SweepPhase::Delete {
                before.doomed.push(next.seen as int)
            } else {
                before.doomed
            },
        }
    }
}

/// Whether each of the events was due when it came.
pub open spec fn sweep_orderly(started: i128, events: Seq<SweepEvent>) -> bool
    decreases events.len(),
{
    events.len() > 0 ==> sweep_orderly(started, events.drop_last()) && is_due(
        sweep_run(started, events.drop_last()).next,
        events.last(),
    )
}

/// What the examinations of files found, in order.
pub open spec fn looks_of(events: Seq<SweepEvent>) -> Seq<(Seq<char>, Option<i128>)>
    decreases events.len(),
{
    if events.len() == 0 {
        Seq::empty()
    } else {
        let before = looks_of(events.drop_last());
        match events.last() {
            SweepEvent::Examined(canonical, modified) => before.push((canonical, modified)),
            _ => before,
        }
    }
}

/// What the deletions of orphans reported, in order.
pub open spec fn reports_of(events: Seq<SweepEvent>) -> Seq<Option<u64>>
    decreases events.len(),
{
    if events.len() == 0 {
        Seq::empty()
    } else {
        let before = reports_of(events.drop_last());
        match events.last() {
            SweepEvent::Deleted(freed) => before.push(freed),
            _ => before,
        }
    }
}

/// The bytes of all reports.
pub open spec fn sum_of(reports: Seq<Option<u64>>) -> nat
    decreases reports.len(),
{
    if reports.len() == 0 {
        0
    } else {
        sum_of(reports.drop_last()) + bytes_of(reports.last())
    }
}

/// What holds of a sweep between any two events: each file that was examined was to be deleted
/// if it is an orphan, and only then, and each deletion but one that is still to come was
/// reported.
pub open spec fn sweeps_orphans(
    run: SweepRun,
    looks: Seq<(Seq<char>, Option<i128>)>,
    reports: Seq<Option<u64>>,
) -> bool {
    let m = run.next;
    &&& looks.len() == m.seen + (if m.phase == SweepPhase::Delete {
        1int
    } else {
        0
    })
    &&& forall|i: int|
        0 <= i < looks.len() ==> (run.doomed.contains(i) <==> is_orphan(
            m,
            (#[trigger] looks[i]).0,
            looks[i].1,
        ))
    &&& forall|k: int| 0 <= k < run.doomed.len() ==> 0 <= #[trigger] run.doomed[k] < looks.len()
    &&& forall|k: int, l: int|
        0 <= k < l < run.doomed.len() ==> #[trigger] run.doomed[k] < #[trigger] run.doomed[l]
    &&& run.doomed.len() == reports.len() + (if m.phase == SweepPhase::Delete {
        1int
    } else {
        0
    })
    &&& m.freed == sum_of(reports)
}

/// The sweep has files ahead of it in these phases, and all behind it once it is done.
spec fn in_place(m: SweepModel) -> bool {
    match m.phase {
        SweepPhase::Walk => m.seen == 0,
        SweepPhase::ReadTracked => m.seen == 0 && m.files.len() > 0,
        SweepPhase::Files => m.seen < m.files.len(),
        SweepPhase::Delete => m.seen < m.files.len(),
        SweepPhase::Done => m.seen == m.files.len(),
    }
}

proof fn lemma_sweep_run(started: i128, events: Seq<SweepEvent>)
    requires
        sweep_orderly(started, events),
    ensures
        sweeps_orphans(sweep_run(started, events), looks_of(events), reports_of(events)),
        in_place(sweep_run(started, events).next),
        sweep_run(started, events).next.started == started,
    decreases events.len(),
{
    if events.len() > 0 {
        let earlier = events.drop_last();
        lemma_sweep_run(started, earlier);
        let before = sweep_run(started, earlier);
        let run = sweep_run(started, events);
        let looks = looks_of(events);
        let looks_before = looks_of(earlier);
        match events.last() {
            SweepEvent::Walked(files) => {},
            SweepEvent::TrackedRead(paths) => {},
            SweepEvent::Examined(canonical, modified) => {
                let at = looks_before.len() as int;
                assert(at == before.next.seen);
                assert forall|i: int| 0 <= i < looks.len() implies (run.doomed.contains(i)
                    <==> is_orphan(run.next, (#[trigger] looks[i]).0, looks[i].1)) by {
                    if i < at {
                        assert(looks[i] == looks_before[i]);
                        if before.doomed.contains(i) {
                            let k = choose|k: int|
                                0 <= k < before.doomed.len() && before.doomed[k] == i;
                            assert(run.doomed[k] == i);
                        }
                        if run.doomed.contains(i) {
                            let k = choose|k: int|
                                0 <= k < run.doomed.len() && run.doomed[k] == i;
                            assert(k < before.doomed.len());
                            assert(before.doomed[k] == i);
                        }
                    } else {
                        if is_orphan(run.next, canonical, modified) {
                            assert(run.doomed[before.doomed.len() as int] == at);
                        } else if run.doomed.contains(at) {
                            let k = choose|k: int|
                                0 <= k < run.doomed.len() && run.doomed[k] == at;
                            assert(before.doomed[k] == at);
                        }
                    }
                }
            },
            SweepEvent::Deleted(freed) => {
                let reports = reports_of(events);
                assert(reports.drop_last() =~= reports_of(earlier));
            },
        }
    }
}

/// A sweep that is done has examined every file once, has had exactly the orphans among them
/// deleted, in order, and has freed what their deletions did.
pub proof fn a_sweep_deletes_exactly_the_orphans(started: i128, events: Seq<SweepEvent>)
    requires
        sweep_orderly(started, events),
        sweep_run(started, events).next.phase == SweepPhase::Done,
    ensures
        sweep_run(started, events).next.started == started,
        looks_of(events).len() == sweep_run(started, events).next.files.len(),
        sweeps_orphans(sweep_run(started, events), looks_of(events), reports_of(events)),
        sweep_run(started, events).doomed.len() == reports_of(events).len(),
        sweep_run(started, events).next.freed == sum_of(reports_of(events)),
{
    lemma_sweep_run(started, events);
}

/// The result of a sweep of both directories.
pub fn swept_stats(screenshots_freed: u64, audio_freed: u64) -> (r: CleanupStats)
    requires
        screenshots_freed + audio_freed <= u64::MAX,
    ensures
        r == (CleanupStats {
            screenshots_deleted: 0,
            audio_segments_deleted: 0,
            bytes_freed: (screenshots_freed + audio_freed) as u64,
            outcome: CleanupOutcome::Completed,
        }),
{
    CleanupStats {
        screenshots_deleted: 0,
        audio_segments_deleted: 0,
        bytes_freed: screenshots_freed + audio_freed,
        outcome: CleanupOutcome::Completed,
    }
}

/// The cutoff lies exactly as many days back as are kept, and there is one wherever the window
/// and the cutoff fit.
pub proof fn a_cutoff_lies_the_kept_days_back(now: i64, days: i64, r: Result<i64, StorageError>)
    requires
        call_ensures(compute_cutoff, (now, days), r),
    ensures
        r is Ok ==> now - r->Ok_0 == days * 86_400_000,
        r is Err ==> !(i64::MIN <= days * 86_400_000 <= i64::MAX) || !(i64::MIN <= now - days
            * 86_400_000 <= i64::MAX),
{
}

/// A cleanup deletes what is older than the days that are kept, and nothing newer: its cutoff
/// lies that many days back. Without a window nothing is deleted, and one of more than a hundred
/// years is an error.
pub proof fn a_cleanup_spares_the_kept_days(
    now: i64,
    days: i64,
    r: Result<CleanupPlan, StorageError>,
)
    requires
        call_ensures(run_cleanup, (days, now), r),
    ensures
        days <= 0 ==> r is Ok && r->Ok_0 is Disabled,
        days > 36_500 ==> r is Err,
        0 < days <= 36_500 ==> (r is Ok <==> now - days * 86_400_000 >= i64::MIN),
        0 < days <= 36_500 && r is Ok ==> r->Ok_0 is DeleteBefore && now
            - r->Ok_0->DeleteBefore_0 == days * 86_400_000,
{
}

/// One day more of retention moves the cutoff one day back.
pub proof fn a_day_more_keeps_a_day_more(
    now: i64,
    days: i64,
    r: Result<CleanupPlan, StorageError>,
    more: Result<CleanupPlan, StorageError>,
)
    requires
        0 < days < 36_500,
        call_ensures(run_cleanup, (days, now), r),
        call_ensures(run_cleanup, ((days + 1) as i64, now), more),
        more is Ok,
    ensures
        r is Ok,
        r->Ok_0 is DeleteBefore,
        more->Ok_0 is DeleteBefore,
        r->Ok_0->DeleteBefore_0 - more->Ok_0->DeleteBefore_0 == 86_400_000,
{
}

/// A batch is deleted with one placeholder for each row, and commas between them.
pub proof fn a_deletion_has_a_placeholder_for_each_row(count: nat)
    ensures
        count == 0 ==> placeholders(count).len() == 0,
        count > 0 ==> placeholders(count).len() == 2 * count - 1,
        forall|i: int|
            0 <= i < placeholders(count).len() ==> #[trigger] placeholders(count)[i] == (if i % 2
                == 0 {
                '?'
            } else {
                ','
            }),
    decreases count,
{
    if count > 1 {
        a_deletion_has_a_placeholder_for_each_row((count - 1) as nat);
        let before = placeholders((count - 1) as nat);
        assert(placeholders(count) == before + seq![',', '?']);
    }
}

/// The statements of a table name its own table, its column of times and its column of paths,
/// and a batch is the oldest rows from before the cutoff.
pub proof fn a_table_is_cleaned_by_its_own_columns(
    table: MediaTable,
    count: usize,
    select: String,
    all: String,
    delete: String,
)
    requires
        call_ensures(MediaTable::select_sql, (&table,), select),
        call_ensures(MediaTable::tracked_sql, (&table,), all),
        call_ensures(MediaTable::delete_sql, (&table, count), delete),
    ensures
        table == MediaTable::Screenshots ==> {
            &&& select@ =~= "SELECT id, "@ + "image_path"@ + " FROM "@ + "screenshots"@
                + " WHERE "@ + "timestamp"@ + " < ?1 ORDER BY "@ + "timestamp"@ + ", id LIMIT ?2"@
            &&& all@ =~= "SELECT "@ + "image_path"@ + " FROM "@ + "screenshots"@
            &&& delete@ =~= "DELETE FROM "@ + "screenshots"@ + " WHERE id IN ("@ + placeholders(
                count as nat,
            ) + ")"@
        },
        table == MediaTable::AudioSegments ==> {
            &&& select@ =~= "SELECT id, "@ + "audio_path"@ + " FROM "@ + "audio_segments"@
                + " WHERE "@ + "start_timestamp"@ + " < ?1 ORDER BY "@ + "start_timestamp"@
                + ", id LIMIT ?2"@
            &&& all@ =~= "SELECT "@ + "audio_path"@ + " FROM "@ + "audio_segments"@
            &&& delete@ =~= "DELETE FROM "@ + "audio_segments"@ + " WHERE id IN ("@ + placeholders(
                count as nat,
            ) + ")"@
        },
{
}

/// A batch is taken up whole: its first file is next, and without any row the cleanup is done.
pub proof fn a_batch_is_taken_up_whole(m: CleanupModel, batch: Seq<(i64, Seq<char>)>)
    ensures
        with_batch(m, batch).batch == batch,
        with_batch(m, batch).tried == 0,
        with_batch(m, batch).deleted == m.deleted,
        with_batch(m, batch).freed == m.freed,
        batch.len() == 0 ==> with_batch(m, batch).phase == CleanupPhase::Done,
        batch.len() > 0 ==> with_batch(m, batch).phase == CleanupPhase::DeleteFiles,
{
}

/// Every file of a batch is tried, one after the other, before its rows go, and what was freed
/// is counted in full.
pub proof fn every_file_of_a_batch_is_tried(m: CleanupModel, freed: Option<u64>)
    ensures
        with_file(m, freed).tried == m.tried + 1,
        with_file(m, freed).batch == m.batch,
        with_file(m, freed).deleted == m.deleted,
        freed is Some ==> with_file(m, freed).freed == m.freed + freed->0,
        freed is None ==> with_file(m, freed).freed == m.freed,
        m.tried + 1 == m.batch.len() ==> with_file(m, freed).phase == CleanupPhase::DeleteRows,
        m.tried + 1 != m.batch.len() ==> with_file(m, freed).phase == CleanupPhase::DeleteFiles,
{
}

/// The rows of a batch are counted in full, and only a batch of fewer than five hundred was the
/// last.
pub proof fn a_short_batch_is_the_last(m: CleanupModel)
    ensures
        without_rows(m).deleted == m.deleted + m.batch.len(),
        without_rows(m).freed == m.freed,
        m.batch.len() < 500 ==> without_rows(m).phase == CleanupPhase::Done,
        m.batch.len() >= 500 ==> without_rows(m).phase == CleanupPhase::Select,
{
}

/// A cleanup shows what its fields say, and the rows of a batch with their ids and paths.
pub proof fn a_cleanup_shows_its_fields(c: TableCleanup)
    ensures
        c.model().deleted == c.deleted,
        c.model().freed == c.freed,
        c.model().tried == c.tried,
        c.model().phase == c.phase,
        c.model().batch.len() == c.batch@.len(),
        ids_of(c.model().batch).len() == c.batch@.len(),
        forall|i: int|
            0 <= i < c.batch@.len() ==> (#[trigger] c.model().batch[i]).0 == c.batch@[i].0
                && c.model().batch[i].1 == c.batch@[i].1@,
        forall|i: int|
            0 <= i < c.batch@.len() ==> #[trigger] ids_of(c.model().batch)[i] == c.batch@[i].0,
        fresh_cleanup().deleted == 0 && fresh_cleanup().freed == 0 && fresh_cleanup().phase
            == CleanupPhase::Select,
{
}

/// A file is an orphan exactly if no row points to it and it is known to have been changed last
/// before the sweep began, however long before: such a one is deleted, and any other passed.
pub proof fn an_orphan_is_old_and_has_no_row(
    m: SweepModel,
    canonical: Seq<char>,
    modified: Option<i128>,
)
    ensures
        !m.known.contains(canonical) && modified is Some && modified->0 < m.started ==> is_orphan(
            m,
            canonical,
            modified,
        ) && with_look(m, canonical, modified).phase == SweepPhase::Delete && with_look(
            m,
            canonical,
            modified,
        ).seen == m.seen,
        m.known.contains(canonical) || modified is None || modified->0 >= m.started
            ==> !is_orphan(m, canonical, modified) && with_look(m, canonical, modified).seen
            == m.seen + 1 && with_look(m, canonical, modified).phase != SweepPhase::Delete,
        with_look(m, canonical, modified).freed == m.freed,
        with_look(m, canonical, modified).files == m.files,
        with_look(m, canonical, modified).known == m.known,
        with_look(m, canonical, modified).started == m.started,
{
}

/// A path is known exactly if it is among those that were read, and the sweep begins with the
/// first of the files that were walked.
pub proof fn a_sweep_knows_the_paths_of_rows(
    m: SweepModel,
    files: Seq<Seq<char>>,
    paths: Seq<Seq<char>>,
    path: Seq<char>,
)
    ensures
        with_known(m, paths).known.contains(path) <==> exists|i: int|
            0 <= i < paths.len() && #[trigger] paths[i] == path,
        with_known(m, paths).files == m.files,
        with_known(m, paths).seen == m.seen,
        with_known(m, paths).started == m.started,
        with_known(m, paths).freed == m.freed,
        with_known(m, paths).phase == SweepPhase::Files,
        with_files(m, files).files == files,
        with_files(m, files).seen == 0,
        with_files(m, files).started == m.started,
        with_files(m, files).freed == m.freed,
        files.len() == 0 ==> with_files(m, files).phase == SweepPhase::Done,
        files.len() > 0 ==> with_files(m, files).phase == SweepPhase::ReadTracked,
        fresh_sweep(m.started).started == m.started,
        fresh_sweep(m.started).freed == 0,
        fresh_sweep(m.started).phase == SweepPhase::Walk,
{
    assert(paths.to_set().contains(path) <==> paths.contains(path));
}

/// A sweep goes from file to file until the last one, and counts what a deletion freed in full.
pub proof fn a_sweep_goes_on_to_the_last_file(m: SweepModel, freed: Option<u64>)
    ensures
        passed(m).seen == m.seen + 1,
        passed(m).freed == m.freed,
        m.seen + 1 == m.files.len() ==> passed(m).phase == SweepPhase::Done,
        m.seen + 1 != m.files.len() ==> passed(m).phase == SweepPhase::Files,
        with_deletion(m, freed).seen == m.seen + 1,
        freed is Some ==> with_deletion(m, freed).freed == m.freed + freed->0,
        freed is None ==> with_deletion(m, freed).freed == m.freed,
        m.seen + 1 == m.files.len() ==> with_deletion(m, freed).phase == SweepPhase::Done,
        m.seen + 1 != m.files.len() ==> with_deletion(m, freed).phase == SweepPhase::Files,
        with_deletion(m, freed).files == m.files,
        with_deletion(m, freed).known == m.known,
        with_deletion(m, freed).started == m.started,
{
}

/// A sweep shows what its fields say.
pub proof fn a_sweep_shows_its_fields(s: Sweep)
    ensures
        s.model().started == s.started,
        s.model().known == s.known@,
        s.model().seen == s.seen,
        s.model().freed == s.freed,
        s.model().phase == s.phase,
        s.model().files.len() == s.files@.len(),
        forall|i: int|
            0 <= i < s.files@.len() ==> #[trigger] s.model().files[i] == s.files@[i]@,
{
}

/// Of a sweep that is done, a file was to be deleted exactly if its path was not among those that
/// rows point to and it was known to have been changed last before the sweep began.
pub proof fn a_sweep_dooms_old_files_without_a_row(started: i128, events: Seq<SweepEvent>, i: int)
    requires
        sweep_orderly(started, events),
        sweep_run(started, events).next.phase == SweepPhase::Done,
        0 <= i < looks_of(events).len(),
    ensures
        ({
            let run = sweep_run(started, events);
            let (path, modified) = looks_of(events)[i];
            run.doomed.contains(i) <==> !run.next.known.contains(path) && modified is Some
                && modified->0 < started
        }),
{
    lemma_sweep_run(started, events);
}

/// The stats of a cleanup or of a sweep add up what came of both tables.
pub proof fn stats_add_up_both_tables(
    shots: TableCleanup,
    audio: TableCleanup,
    freed_shots: u64,
    freed_audio: u64,
    cleaned: CleanupStats,
    swept: CleanupStats,
)
    requires
        shots.freed + audio.freed <= u64::MAX,
        freed_shots + freed_audio <= u64::MAX,
        call_ensures(completed_stats, (&shots, &audio), cleaned),
        call_ensures(swept_stats, (freed_shots, freed_audio), swept),
    ensures
        cleaned.screenshots_deleted == shots.deleted,
        cleaned.audio_segments_deleted == audio.deleted,
        cleaned.bytes_freed == shots.freed + audio.freed,
        cleaned.outcome is Completed,
        swept.bytes_freed == freed_shots + freed_audio,
        swept.outcome is Completed,
{
}

/// A cleanup takes up a batch, tries its files one by one, and then counts its rows.
pub proof fn a_cleanup_goes_batch_by_batch(batch: Vec<(i64, String)>, freed: Option<u64>)
    ensures
        forall|c: &mut TableCleanup|
            #[trigger] call_ensures(TableCleanup::batch_selected, (c, batch), ()) ==> {
                &&& (*final(c)).batch@.len() == batch@.len()
                &&& (*final(c)).tried == 0
                &&& (*final(c)).deleted == (*c).deleted
                &&& (*final(c)).freed == (*c).freed
                &&& (*final(c)).phase is Done <==> batch@.len() == 0
                &&& (*final(c)).phase is DeleteFiles <==> batch@.len() > 0
            },
        forall|c: &mut TableCleanup|
            #[trigger] call_ensures(TableCleanup::file_deleted, (c, freed), ()) ==> {
                &&& (*final(c)).tried == (*c).tried + 1
                &&& (*final(c)).freed == (*c).freed + (if freed is Some {
                    freed->0 as int
                } else {
                    0
                })
                &&& (*final(c)).deleted == (*c).deleted
                &&& (*final(c)).phase is DeleteRows <==> (*c).tried + 1 == (*c).batch@.len()
                &&& (*final(c)).phase is DeleteFiles <==> (*c).tried + 1 != (*c).batch@.len()
            },
        forall|c: &mut TableCleanup|
            #[trigger] call_ensures(TableCleanup::rows_deleted, (c,), ()) ==> {
                &&& (*final(c)).deleted == (*c).deleted + (*c).batch@.len()
                &&& (*final(c)).freed == (*c).freed
                &&& (*final(c)).phase is Done <==> (*c).batch@.len() < 500
                &&& (*final(c)).phase is Select <==> (*c).batch@.len() >= 500
            },
{
    assert forall|c: &mut TableCleanup|
        #[trigger] call_ensures(TableCleanup::batch_selected, (c, batch), ()) implies {
        &&& (*final(c)).batch@.len() == batch@.len()
        &&& (*final(c)).tried == 0
        &&& (*final(c)).deleted == (*c).deleted
        &&& (*final(c)).freed == (*c).freed
        &&& (*final(c)).phase is Done <==> batch@.len() == 0
        &&& (*final(c)).phase is DeleteFiles <==> batch@.len() > 0
    } by {
        a_cleanup_shows_its_fields(*c);
        a_cleanup_shows_its_fields(*final(c));
        assert(row_views(batch@).len() == batch@.len());
    }
    assert forall|c: &mut TableCleanup|
        #[trigger] call_ensures(TableCleanup::file_deleted, (c, freed), ()) implies {
        &&& (*final(c)).tried == (*c).tried + 1
        &&& (*final(c)).freed == (*c).freed + (if freed is Some {
            freed->0 as int
        } else {
            0
        })
        &&& (*final(c)).deleted == (*c).deleted
        &&& (*final(c)).phase is DeleteRows <==> (*c).tried + 1 == (*c).batch@.len()
        &&& (*final(c)).phase is DeleteFiles <==> (*c).tried + 1 != (*c).batch@.len()
    } by {
        a_cleanup_shows_its_fields(*c);
        a_cleanup_shows_its_fields(*final(c));
    }
    assert forall|c: &mut TableCleanup|
        #[trigger] call_ensures(TableCleanup::rows_deleted, (c,), ()) implies {
        &&& (*final(c)).deleted == (*c).deleted + (*c).batch@.len()
        &&& (*final(c)).freed == (*c).freed
        &&& (*final(c)).phase is Done <==> (*c).batch@.len() < 500
        &&& (*final(c)).phase is Select <==> (*c).batch@.len() >= 500
    } by {
        a_cleanup_shows_its_fields(*c);
        a_cleanup_shows_its_fields(*final(c));
    }
}

/// The next file of a cleanup is that of the next row, and the ids are those of the batch.
pub proof fn a_cleanup_names_files_and_ids(c: TableCleanup, file: &str, ids: Vec<i64>)
    requires
        c.tried < c.batch@.len(),
        call_ensures(TableCleanup::next_file, (&c,), file),
        call_ensures(TableCleanup::ids, (&c,), ids),
    ensures
        file@ == c.batch@[c.tried as int].1@,
        ids@.len() == c.batch@.len(),
        forall|i: int| 0 <= i < ids@.len() ==> #[trigger] ids@[i] == c.batch@[i].0,
{
    a_cleanup_shows_its_fields(c);
}

/// A file that is examined is to be deleted exactly if no row points to its path and it is known
/// to have been changed last before the sweep began, however long before.
pub proof fn an_examined_file_is_judged_by_row_and_age(
    canonical: &str,
    modified: Option<i128>,
    r: bool,
)
    ensures
        forall|s: &mut Sweep| #[trigger]
            call_ensures(Sweep::examined, (s, canonical, modified), r) ==> {
                &&& r <==> !(*s).known@.contains(canonical@) && modified is Some && modified->0
                    < (*s).started
                &&& r ==> (*final(s)).phase is Delete && (*final(s)).seen == (*s).seen
                &&& !r ==> (*final(s)).seen == (*s).seen + 1
                &&& !r && (*s).seen + 1 == (*s).files@.len() ==> (*final(s)).phase is Done
                &&& !r && (*s).seen + 1 != (*s).files@.len() ==> (*final(s)).phase is Files
                &&& (*final(s)).freed == (*s).freed
                &&& (*final(s)).known@ == (*s).known@
                &&& (*final(s)).started == (*s).started
            },
{
    assert forall|s: &mut Sweep| #[trigger]
        call_ensures(Sweep::examined, (s, canonical, modified), r) implies {
        &&& r <==> !(*s).known@.contains(canonical@) && modified is Some && modified->0 < (
        *s).started
        &&& r ==> (*final(s)).phase is Delete && (*final(s)).seen == (*s).seen
        &&& !r ==> (*final(s)).seen == (*s).seen + 1
        &&& !r && (*s).seen + 1 == (*s).files@.len() ==> (*final(s)).phase is Done
        &&& !r && (*s).seen + 1 != (*s).files@.len() ==> (*final(s)).phase is Files
        &&& (*final(s)).freed == (*s).freed
        &&& (*final(s)).known@ == (*s).known@
        &&& (*final(s)).started == (*s).started
    } by {
        a_sweep_shows_its_fields(*s);
        a_sweep_shows_its_fields(*final(s));
        an_orphan_is_old_and_has_no_row((*s).model(), canonical@, modified);
    }
}

/// A sweep takes up the files that were walked, if there are any, and the paths that were read;
/// and a file counts as recent unless it is known to be older.
pub proof fn a_sweep_takes_up_files_and_paths(
    files: Vec<String>,
    paths: Vec<String>,
    freed: Option<u64>,
    modified: Option<i128>,
    moment: i128,
    recent: bool,
)
    requires
        call_ensures(modified_since, (modified, moment), recent),
    ensures
        recent <==> modified is None || modified->0 >= moment,
        forall|s: &mut Sweep| #[trigger]
            call_ensures(Sweep::walked, (s, files), ()) ==> {
                &&& (*final(s)).files@.len() == files@.len()
                &&& (*final(s)).seen == 0
                &&& (*final(s)).freed == (*s).freed
                &&& (*final(s)).started == (*s).started
                &&& (*final(s)).phase is Done <==> files@.len() == 0
                &&& (*final(s)).phase is ReadTracked <==> files@.len() > 0
            },
        forall|s: &mut Sweep, path: Seq<char>| #[trigger]
            call_ensures(Sweep::tracked_read, (s, paths), ()) ==> ((
            #[trigger] (*final(s)).known@.contains(path)) <==> exists|i: int|
                0 <= i < paths@.len() && (#[trigger] paths@[i])@ == path),
        forall|s: &mut Sweep| #[trigger]
            call_ensures(Sweep::file_deleted, (s, freed), ()) ==> {
                &&& (*final(s)).seen == (*s).seen + 1
                &&& (*final(s)).freed == (*s).freed + (if freed is Some {
                    freed->0 as int
                } else {
                    0
                })
            },
{
    assert forall|s: &mut Sweep| #[trigger] call_ensures(Sweep::walked, (s, files), ()) implies {
        &&& (*final(s)).files@.len() == files@.len()
        &&& (*final(s)).seen == 0
        &&& (*final(s)).freed == (*s).freed
        &&& (*final(s)).started == (*s).started
        &&& (*final(s)).phase is Done <==> files@.len() == 0
        &&& (*final(s)).phase is ReadTracked <==> files@.len() > 0
    } by {
        a_sweep_shows_its_fields(*s);
        a_sweep_shows_its_fields(*final(s));
        assert(string_views(files@).len() == files@.len());
    }
    assert forall|s: &mut Sweep, path: Seq<char>| #[trigger]
        call_ensures(Sweep::tracked_read, (s, paths), ()) implies ((
    #[trigger] (*final(s)).known@.contains(path)) <==> exists|i: int|
        0 <= i < paths@.len() && (#[trigger] paths@[i])@ == path) by {
        a_sweep_shows_its_fields(*s);
        a_sweep_shows_its_fields(*final(s));
        let views = string_views(paths@);
        a_sweep_knows_the_paths_of_rows((*s).model(), views, views, path);
        assert(views.len() == paths@.len());
        if exists|i: int| 0 <= i < views.len() && #[trigger] views[i] == path {
            let i = choose|i: int| 0 <= i < views.len() && #[trigger] views[i] == path;
            assert(paths@[i]@ == path);
        }
        if exists|i: int| 0 <= i < paths@.len() && (#[trigger] paths@[i])@ == path {
            let i = choose|i: int| 0 <= i < paths@.len() && (#[trigger] paths@[i])@ == path;
            assert(views[i] == path);
        }
    }
    assert forall|s: &mut Sweep| #[trigger] call_ensures(
        Sweep::file_deleted,
        (s, freed),
        (),
    ) implies {
        &&& (*final(s)).seen == (*s).seen + 1
        &&& (*final(s)).freed == (*s).freed + (if freed is Some {
            freed->0 as int
        } else {
            0
        })
    } by {
        a_sweep_shows_its_fields(*s);
        a_sweep_shows_its_fields(*final(s));
    }
}

/// A cleanup that did not run deleted nothing.
pub proof fn a_disabled_cleanup_deleted_nothing(r: CleanupStats)
    requires
        call_ensures(disabled_stats, (), r),
    ensures
        r.screenshots_deleted == 0,
        r.audio_segments_deleted == 0,
        r.bytes_freed == 0,
        r.outcome is Disabled,
{
}

/// A refused cleanup says why: a window that is too long names itself and the longest, and one that
/// goes back too far names itself and the time that it was counted from.
pub proof fn a_refused_cleanup_says_why(
    days: i64,
    now: i64,
    plan: Result<CleanupPlan, StorageError>,
    at: Result<i64, StorageError>,
)
    requires
        call_ensures(run_cleanup, (days, now), plan),
        call_ensures(compute_cutoff, (now, days), at),
    ensures
        days <= 0 ==> plan is Ok && plan->Ok_0 is Disabled,
        plan is Err <==> days > 36_500 || 0 < days && now - days * 86_400_000 < i64::MIN,
        days > 36_500 ==> plan->Err_0 is Other && plan->Err_0->Other_0@ == "retention_days "@
            + decimal(days as int) + " exceeds maximum "@ + decimal(36_500),
        plan is Err && days <= 36_500 ==> plan->Err_0 is Other && plan->Err_0->Other_0@
            == "retention cutoff overflows i64: now_millis "@ + decimal(now as int)
            + ", retention_days "@ + decimal(days as int),
        at is Err <==> !(i64::MIN <= days * 86_400_000 <= i64::MAX) || !(i64::MIN <= now - days
            * 86_400_000 <= i64::MAX),
        at is Err ==> at->Err_0 is Other && at->Err_0->Other_0@
            == "retention cutoff overflows i64: now_millis "@ + decimal(now as int)
            + ", retention_days "@ + decimal(days as int),
{
}

/// A table has its own name, columns and directory.
pub proof fn a_table_has_its_own_names(
    table: MediaTable,
    name: &'static str,
    timestamp: &'static str,
    path: &'static str,
    dir: &'static str,
)
    requires
        call_ensures(MediaTable::table, (&table,), name),
        call_ensures(MediaTable::timestamp_col, (&table,), timestamp),
        call_ensures(MediaTable::path_col, (&table,), path),
        call_ensures(MediaTable::subdir, (&table,), dir),
    ensures
        table is Screenshots ==> name@ == "screenshots"@ && timestamp@ == "timestamp"@ && path@
            == "image_path"@ && dir@ == "screenshots"@,
        table is AudioSegments ==> name@ == "audio_segments"@ && timestamp@ == "start_timestamp"@
            && path@ == "audio_path"@ && dir@ == "audio"@,
{
}

/// A cleanup and a sweep begin with nothing done, and a sweep takes its files from the first to
/// the last.
pub proof fn a_cleanup_and_a_sweep_begin_with_nothing_done(
    cleanup: TableCleanup,
    started: i128,
    sweep: Sweep,
    going: Sweep,
    file: &str,
)
    requires
        call_ensures(TableCleanup::new, (), cleanup),
        call_ensures(Sweep::new, (started,), sweep),
        going.well_formed(),
        going.phase == SweepPhase::Files || going.phase == SweepPhase::Delete,
        call_ensures(Sweep::next_file, (&going,), file),
    ensures
        cleanup.phase is Select,
        cleanup.deleted == 0,
        cleanup.freed == 0,
        sweep.phase is Walk,
        sweep.started == started,
        sweep.freed == 0,
        file@ == going.files@[going.seen as int]@,
{
    a_cleanup_shows_its_fields(cleanup);
    a_sweep_shows_its_fields(sweep);
    a_sweep_shows_its_fields(going);
}

} // verus!
