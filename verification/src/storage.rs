//! The task table: every tracked item with its lifecycle status, and the
//! watermark below which items are never tracked.
//!
//! A status only ever moves forward. A write that carries a status that is not
//! strictly greater than the stored one changes nothing and is no error.

use vstd::prelude::*;

use crate::config::DaemonConfig;
use crate::task::{ArtifactInfo, ArtifactInfoView, TorrentStatus, TorrentTaskInfo, TorrentTaskInfoView};

verus! {

/// Status of a managed task, in lifecycle order.
#[derive(Debug, Clone, Copy, PartialEq, Eq, Structural)]
pub enum TaskStatus {
    /// Discovered, still in progress at the seed host.
    Tracking,
    /// Complete at the seed host, eligible for transfer to the relay.
    TorrentReady,
    /// Present at the relay, eligible for handoff to the consumer.
    ArtifactReady,
    /// Received by the consumer. The record stays so that the item is not
    /// tracked again.
    Archived,
}

impl TaskStatus {
    /// The position of the status in the lifecycle, which is also the integer
    /// kept in durable storage.
    pub open spec fn rank(self) -> int {
        match self {
            TaskStatus::Tracking => 0,
            TaskStatus::TorrentReady => 1,
            TaskStatus::ArtifactReady => 2,
            TaskStatus::Archived => 3,
        }
    }

    /// The integer under which the status is stored.
    pub fn ordinal(self) -> (n: i64)
        ensures
            n == self.rank(),
    {
        match self {
            TaskStatus::Tracking => 0,
            TaskStatus::TorrentReady => 1,
            TaskStatus::ArtifactReady => 2,
            TaskStatus::Archived => 3,
        }
    }

    /// Reads a stored integer back. Integers outside `0..=3` name no status.
    pub fn from_ordinal(n: i64) -> (status: Option<TaskStatus>)
        ensures
            0 <= n <= 3 <==> status.is_some(),
            status matches Some(s) ==> s.rank() == n,
    {
        if n == 0 {
            Some(TaskStatus::Tracking)
        } else if n == 1 {
            Some(TaskStatus::TorrentReady)
        } else if n == 2 {
            Some(TaskStatus::ArtifactReady)
        } else if n == 3 {
            Some(TaskStatus::Archived)
        } else {
            None
        }
    }

    /// Whether `self` comes strictly before `other` in the lifecycle.
    pub fn precedes(self, other: TaskStatus) -> (before: bool)
        ensures
            before == (self.rank() < other.rank()),
    {
        self.ordinal() < other.ordinal()
    }

    /// The status under which a discovered item enters the table.
    pub fn discovered(status: TorrentStatus) -> (task_status: TaskStatus)
        ensures
            task_status == discovered_status(status),
    {
        match status {
            TorrentStatus::Downloading => TaskStatus::Tracking,
            TorrentStatus::Seeding => TaskStatus::TorrentReady,
        }
    }
}

/// An incomplete item is tracked; a complete one is ready for transfer.
pub open spec fn discovered_status(status: TorrentStatus) -> TaskStatus {
    match status {
        TorrentStatus::Downloading => TaskStatus::Tracking,
        TorrentStatus::Seeding => TaskStatus::TorrentReady,
    }
}

/// Two statuses with the same rank are the same status.
pub proof fn lemma_rank_injective(a: TaskStatus, b: TaskStatus)
    ensures
        0 <= a.rank() <= 3,
        a.rank() == b.rank() <==> a == b,
{
}

/// Why an artifact could not be archived.
#[derive(Debug)]
pub enum FinalizeArtifactError {
    /// No task waits at the relay under this hash.
    NotFound,
    /// The task was archived before.
    AlreadyArchived,
    /// The backing store or the file system failed; the text says how.
    Storage(String),
}

/// Why the backing store failed.
#[derive(Debug)]
pub enum StorageManagerError {
    /// The file system failed; the text says how.
    Io(String),
    /// The database failed; the text says how.
    Sqlx(String),
    /// A stored date could not be read; the text says why.
    Chrono(String),
}

/// The text of a [`StorageManagerError`].
pub open spec fn storage_error_text(error: StorageManagerError) -> Seq<char> {
    match error {
        StorageManagerError::Io(cause) => "I/O error: "@ + cause@,
        StorageManagerError::Sqlx(cause) => "Database error: "@ + cause@,
        StorageManagerError::Chrono(cause) => "Parsing error: "@ + cause@,
    }
}

/// The text of a [`FinalizeArtifactError`].
pub open spec fn finalize_error_text(error: FinalizeArtifactError) -> Seq<char> {
    match error {
        FinalizeArtifactError::NotFound => "Artifact not found"@,
        FinalizeArtifactError::AlreadyArchived => "Artifact already archived"@,
        FinalizeArtifactError::Storage(cause) => "Storage error: "@ + cause@,
    }
}

impl StorageManagerError {
    /// The error as a line of text.
    pub fn message(&self) -> (text: String)
        ensures
            text@ == storage_error_text(*self),
    {
        let (mut text, cause) = match self {
            StorageManagerError::Io(cause) => (String::from_str("I/O error: "), cause),
            StorageManagerError::Sqlx(cause) => (String::from_str("Database error: "), cause),
            StorageManagerError::Chrono(cause) => (String::from_str("Parsing error: "), cause),
        };
        text.append(cause.as_str());
        text
    }
}

/// What the removal of an artifact's directory came to: nothing to report if
/// it went well, else a failure of the store that carries the cause.
pub fn removal_result(removal: Result<(), String>) -> (result: Result<(), FinalizeArtifactError>)
    ensures
        match removal {
            Ok(()) => result.is_ok(),
            Err(cause) => result matches Err(FinalizeArtifactError::Storage(text)) && text == cause,
        },
{
    match removal {
        Ok(()) => Ok(()),
        Err(cause) => Err(FinalizeArtifactError::Storage(cause)),
    }
}

impl FinalizeArtifactError {
    /// The error as a line of text.
    pub fn message(&self) -> (text: String)
        ensures
            text@ == finalize_error_text(*self),
    {
        match self {
            FinalizeArtifactError::NotFound => String::from_str("Artifact not found"),
            FinalizeArtifactError::AlreadyArchived => String::from_str("Artifact already archived"),
            FinalizeArtifactError::Storage(cause) => {
                let mut text = String::from_str("Storage error: ");
                text.append(cause.as_str());
                text
            },
        }
    }
}


/// What the table keeps for one hash.
pub ghost struct TaskRecord {
    pub name: Seq<char>,
    pub status: TaskStatus,
    pub content_path: Seq<char>,
}

/// The table as a mathematical value: one record per content hash.
pub type TaskTable = Map<Seq<char>, TaskRecord>;

/// The record that a discovered item would write.
pub open spec fn record_of(item: TorrentTaskInfoView) -> TaskRecord {
    TaskRecord {
        name: item.name,
        status: discovered_status(item.status),
        content_path: item.content_path,
    }
}

/// Whether a discovered item is written: its hash is new, or its status is
/// strictly greater than the stored one.
pub open spec fn accepts(table: TaskTable, item: TorrentTaskInfoView) -> bool {
    table.contains_key(item.hash) ==> table[item.hash].status.rank() < discovered_status(
        item.status,
    ).rank()
}

/// The table after one discovered item was offered to it.
pub open spec fn upsert(table: TaskTable, item: TorrentTaskInfoView) -> TaskTable {
    if accepts(table, item) {
        table.insert(item.hash, record_of(item))
    } else {
        table
    }
}

/// The table after a sequence of discovered items was offered, first to last.
pub open spec fn upsert_all(table: TaskTable, items: Seq<TorrentTaskInfoView>) -> TaskTable
    decreases items.len(),
{
    if items.len() == 0 {
        table
    } else {
        upsert(upsert_all(table, items.drop_last()), items.last())
    }
}

/// Whether `hash` names a stored task with the given status.
pub open spec fn has_status(table: TaskTable, hash: Seq<char>, status: TaskStatus) -> bool {
    table.contains_key(hash) && table[hash].status == status
}

/// The table with the status of `hash` replaced; name and path stay.
pub open spec fn with_status(table: TaskTable, hash: Seq<char>, status: TaskStatus) -> TaskTable {
    table.insert(hash, TaskRecord { status, ..table[hash] })
}

/// The table after the item `hash` was reported present at the relay: a task
/// that is ready for transfer moves on, anything else is left alone.
pub open spec fn marked_ready(table: TaskTable, hash: Seq<char>) -> TaskTable {
    if has_status(table, hash, TaskStatus::TorrentReady) {
        with_status(table, hash, TaskStatus::ArtifactReady)
    } else {
        table
    }
}

/// How an attempt to archive a task ends, as far as the table decides it.
#[derive(Debug, Clone, Copy, PartialEq, Eq, Structural)]
pub enum FinalizeVerdict {
    /// The task waited at the relay and is archived now.
    Archived,
    /// No task waits at the relay under this hash, and none is archived.
    NotFound,
    /// The task was archived before.
    AlreadyArchived,
}

/// The verdict on archiving `hash` in `table`.
pub open spec fn finalize_verdict(table: TaskTable, hash: Seq<char>) -> FinalizeVerdict {
    if has_status(table, hash, TaskStatus::ArtifactReady) {
        FinalizeVerdict::Archived
    } else if has_status(table, hash, TaskStatus::Archived) {
        FinalizeVerdict::AlreadyArchived
    } else {
        FinalizeVerdict::NotFound
    }
}

/// The table after an attempt to archive `hash`.
pub open spec fn finalized(table: TaskTable, hash: Seq<char>) -> TaskTable {
    if has_status(table, hash, TaskStatus::ArtifactReady) {
        with_status(table, hash, TaskStatus::Archived)
    } else {
        table
    }
}

/// No task is lost and no status moves backwards from `before` to `after`.
pub open spec fn advances(before: TaskTable, after: TaskTable) -> bool {
    forall|hash: Seq<char>| #[trigger]
        before.contains_key(hash) ==> after.contains_key(hash) && before[hash].status.rank()
            <= after[hash].status.rank()
}


/// Offering items never loses a task and never moves a status backwards.
pub proof fn lemma_upsert_all_advances(table: TaskTable, items: Seq<TorrentTaskInfoView>)
    ensures
        advances(table, upsert_all(table, items)),
    decreases items.len(),
{
    if items.len() > 0 {
        lemma_upsert_all_advances(table, items.drop_last());
    }
}


/// Whether `items` lists the tasks of `table` that are ready for transfer:
/// each of them once, with its stored name and path, and nothing else.
pub open spec fn lists_ready_torrents(table: TaskTable, items: Seq<TorrentTaskInfoView>) -> bool {
    &&& forall|i: int|
        0 <= i < items.len() ==> has_status(table, #[trigger] items[i].hash, TaskStatus::TorrentReady)
            && items[i] == (TorrentTaskInfoView {
            hash: items[i].hash,
            status: TorrentStatus::Seeding,
            content_path: table[items[i].hash].content_path,
            name: table[items[i].hash].name,
        })
    &&& forall|i: int, j: int|
        0 <= i < j < items.len() ==> (#[trigger] items[i]).hash != (#[trigger] items[j]).hash
    &&& forall|hash: Seq<char>| #[trigger]
        has_status(table, hash, TaskStatus::TorrentReady) ==> exists|i: int|
            0 <= i < items.len() && #[trigger] items[i].hash == hash
}

/// Whether `items` lists the tasks of `table` that wait at the relay: each of
/// them once, with its stored name and its place below `root`, and nothing
/// else.
pub open spec fn lists_ready_artifacts(
    table: TaskTable,
    root: Seq<char>,
    items: Seq<ArtifactInfoView>,
) -> bool {
    &&& forall|i: int|
        0 <= i < items.len() ==> has_status(table, #[trigger] items[i].hash, TaskStatus::ArtifactReady)
            && items[i] == (ArtifactInfoView {
            hash: items[i].hash,
            name: table[items[i].hash].name,
            path: artifact_path(root, items[i].hash),
        })
    &&& forall|i: int, j: int|
        0 <= i < j < items.len() ==> (#[trigger] items[i]).hash != (#[trigger] items[j]).hash
    &&& forall|hash: Seq<char>| #[trigger]
        has_status(table, hash, TaskStatus::ArtifactReady) ==> exists|i: int|
            0 <= i < items.len() && #[trigger] items[i].hash == hash
}

/// One task as the table holds it.
#[derive(Debug)]
pub struct TaskEntry {
    pub hash: String,
    pub name: String,
    pub status: TaskStatus,
    pub content_path: String,
}

/// The mathematical value of a [`TaskEntry`].
pub ghost struct TaskEntryView {
    pub hash: Seq<char>,
    pub name: Seq<char>,
    pub status: TaskStatus,
    pub content_path: Seq<char>,
}

impl View for TaskEntry {
    type V = TaskEntryView;

    open spec fn view(&self) -> TaskEntryView {
        TaskEntryView {
            hash: self.hash@,
            name: self.name@,
            status: self.status,
            content_path: self.content_path@,
        }
    }
}

/// The values of a sequence of tasks.
pub open spec fn entry_views(entries: Seq<TaskEntry>) -> Seq<TaskEntryView> {
    entries.map_values(|entry: TaskEntry| entry@)
}

/// Whether `entries` lists the tasks of `table` that have the given status:
/// each of them once, as the table holds it, and nothing else. The order is
/// left open.
pub open spec fn lists_tasks(table: TaskTable, status: TaskStatus, entries: Seq<TaskEntryView>) -> bool {
    &&& forall|i: int|
        0 <= i < entries.len() ==> has_status(table, #[trigger] entries[i].hash, status)
            && entries[i] == (TaskEntryView {
            hash: entries[i].hash,
            name: table[entries[i].hash].name,
            status,
            content_path: table[entries[i].hash].content_path,
        })
    &&& forall|i: int, j: int|
        0 <= i < j < entries.len() ==> (#[trigger] entries[i]).hash != (#[trigger] entries[j]).hash
    &&& forall|hash: Seq<char>| #[trigger]
        has_status(table, hash, status) ==> exists|i: int|
            0 <= i < entries.len() && #[trigger] entries[i].hash == hash
}

/// The directory below the storage root under which artifacts are staged.
pub open spec fn artifacts_dir() -> Seq<char> {
    "artifacts"@
}

/// Where the artifact `hash` is staged below `root`.
pub open spec fn artifact_path(root: Seq<char>, hash: Seq<char>) -> Seq<char> {
    path_joined(path_joined(root, artifacts_dir()), hash)
}

/// The path that `std::path::Path::join` gives for a base and a component,
/// both read as text.
pub uninterp spec fn path_joined(base: Seq<char>, component: Seq<char>) -> Seq<char>;

/// Joins a path component onto a base with `std::path::Path::join` and reads
/// the path back as text. The contract only gives the result its name: it is a
/// function of the two texts.
#[verifier::external_body]
pub(crate) fn join_path(base: &str, component: &str) -> (joined: String)
    ensures
        joined@ == path_joined(base@, component@),
{
    std::path::Path::new(base).join(component).to_string_lossy().into_owned()
}

/// One row of the table.
struct TaskRow {
    hash: String,
    name: String,
    status: TaskStatus,
    content_path: String,
}

impl TaskRow {
    spec fn record(self) -> TaskRecord {
        TaskRecord { name: self.name@, status: self.status, content_path: self.content_path@ }
    }
}

/// No hash occurs in two rows.
spec fn hashes_distinct(rows: Seq<TaskRow>) -> bool {
    forall|i: int, j: int| 0 <= i < j < rows.len() ==> rows[i].hash@ != rows[j].hash@
}

/// Whether some row carries `hash`.
spec fn row_exists(rows: Seq<TaskRow>, hash: Seq<char>) -> bool {
    exists|i: int| 0 <= i < rows.len() && #[trigger] rows[i].hash@ == hash
}

/// The index of a row that carries `hash`.
spec fn row_index(rows: Seq<TaskRow>, hash: Seq<char>) -> int {
    choose|i: int| 0 <= i < rows.len() && #[trigger] rows[i].hash@ == hash
}

/// The table that a sequence of rows stands for.
spec fn table_of(rows: Seq<TaskRow>) -> TaskTable {
    Map::new(
        |hash: Seq<char>| row_exists(rows, hash),
        |hash: Seq<char>| rows[row_index(rows, hash)].record(),
    )
}

proof fn lemma_table_lookup(rows: Seq<TaskRow>, i: int)
    requires
        hashes_distinct(rows),
        0 <= i < rows.len(),
    ensures
        table_of(rows).contains_key(rows[i].hash@),
        table_of(rows)[rows[i].hash@] == rows[i].record(),
{
    let hash = rows[i].hash@;
    assert(row_exists(rows, hash));
    let k = row_index(rows, hash);
    assert(k == i);
}

proof fn lemma_table_absent(rows: Seq<TaskRow>, hash: Seq<char>)
    requires
        forall|i: int| 0 <= i < rows.len() ==> rows[i].hash@ != hash,
    ensures
        !table_of(rows).contains_key(hash),
{
}

proof fn lemma_table_push(rows: Seq<TaskRow>, row: TaskRow)
    requires
        hashes_distinct(rows),
        !table_of(rows).contains_key(row.hash@),
    ensures
        hashes_distinct(rows.push(row)),
        table_of(rows.push(row)) == table_of(rows).insert(row.hash@, row.record()),
{
    let after = rows.push(row);
    assert forall|i: int, j: int| 0 <= i < j < after.len() implies after[i].hash@
        != after[j].hash@ by {
        if j == rows.len() {
            assert(row_exists(rows, rows[i].hash@));
        }
    }
    let expected = table_of(rows).insert(row.hash@, row.record());
    assert forall|hash: Seq<char>| table_of(after).contains_key(hash) == expected.contains_key(
        hash,
    ) by {
        if row_exists(after, hash) {
            let k = row_index(after, hash);
            if k < rows.len() {
                assert(rows[k].hash@ == hash);
            }
        }
        if row_exists(rows, hash) {
            let k = row_index(rows, hash);
            assert(after[k].hash@ == hash);
        }
        if hash == row.hash@ {
            assert(after[rows.len() as int].hash@ == hash);
        }
    }
    assert forall|hash: Seq<char>| table_of(after).contains_key(hash) implies table_of(
        after,
    )[hash] == expected[hash] by {
        let k = row_index(after, hash);
        lemma_table_lookup(after, k);
        if k < rows.len() {
            lemma_table_lookup(rows, k);
        }
    }
    assert(table_of(after) =~= expected);
}

proof fn lemma_table_update(rows: Seq<TaskRow>, i: int, row: TaskRow)
    requires
        hashes_distinct(rows),
        0 <= i < rows.len(),
        row.hash@ == rows[i].hash@,
    ensures
        hashes_distinct(rows.update(i, row)),
        table_of(rows.update(i, row)) == table_of(rows).insert(row.hash@, row.record()),
{
    let after = rows.update(i, row);
    assert forall|a: int, b: int| 0 <= a < b < after.len() implies after[a].hash@
        != after[b].hash@ by {
        assert(after[a].hash@ == rows[a].hash@);
        assert(after[b].hash@ == rows[b].hash@);
    }
    let expected = table_of(rows).insert(row.hash@, row.record());
    assert forall|hash: Seq<char>| table_of(after).contains_key(hash) == expected.contains_key(
        hash,
    ) by {
        if row_exists(after, hash) {
            let k = row_index(after, hash);
            assert(rows[k].hash@ == hash);
        }
        if row_exists(rows, hash) {
            let k = row_index(rows, hash);
            assert(after[k].hash@ == hash);
        }
        if hash == row.hash@ {
            assert(after[i].hash@ == hash);
        }
    }
    assert forall|hash: Seq<char>| table_of(after).contains_key(hash) implies table_of(
        after,
    )[hash] == expected[hash] by {
        let k = row_index(after, hash);
        lemma_table_lookup(after, k);
        if k != i {
            assert(rows[k].hash@ == hash);
            lemma_table_lookup(rows, k);
        }
    }
    assert(table_of(after) =~= expected);
}


/// A table of distinct rows has as many keys as rows.
proof fn lemma_table_size(rows: Seq<TaskRow>)
    requires
        hashes_distinct(rows),
    ensures
        table_of(rows).dom().finite(),
        table_of(rows).dom().len() == rows.len(),
    decreases rows.len(),
{
    if rows.len() == 0 {
        assert(table_of(rows).dom() =~= Set::<Seq<char>>::empty());
    } else {
        let front = rows.drop_last();
        let last = rows.last();
        assert(hashes_distinct(front)) by {
            assert forall|i: int, j: int| 0 <= i < j < front.len() implies front[i].hash@
                != front[j].hash@ by {
                assert(front[i] == rows[i] && front[j] == rows[j]);
            }
        }
        lemma_table_size(front);
        assert(!table_of(front).contains_key(last.hash@)) by {
            if row_exists(front, last.hash@) {
                let k = row_index(front, last.hash@);
                assert(rows[k].hash@ == rows[rows.len() - 1].hash@);
            }
        }
        lemma_table_push(front, last);
        assert(front.push(last) =~= rows);
        assert(table_of(rows).dom() =~= table_of(front).dom().insert(last.hash@));
    }
}


/// Whether `found` holds the indices of the rows with the given status, in
/// rising order.
spec fn selects(rows: Seq<TaskRow>, status: TaskStatus, found: Seq<usize>) -> bool {
    &&& forall|j: int|
        0 <= j < found.len() ==> (#[trigger] found[j]) < rows.len() && rows[found[j] as int].status
            == status
    &&& forall|a: int, b: int| 0 <= a < b < found.len() ==> found[a] < found[b]
    &&& forall|k: int|
        0 <= k < rows.len() && (#[trigger] rows[k]).status == status ==> exists|j: int|
            0 <= j < found.len() && found[j] == k
}

/// What a selection of rows means for the table: every selected row is a task
/// with that status, no two selected rows carry the same hash, and every task
/// with that status is among them.
proof fn lemma_selected_rows(rows: Seq<TaskRow>, status: TaskStatus, found: Seq<usize>)
    requires
        hashes_distinct(rows),
        selects(rows, status, found),
    ensures
        forall|j: int|
            0 <= j < found.len() ==> has_status(
                table_of(rows),
                rows[#[trigger] found[j] as int].hash@,
                status,
            ) && table_of(rows)[rows[found[j] as int].hash@] == rows[found[j] as int].record(),
        forall|a: int, b: int|
            0 <= a < b < found.len() ==> rows[#[trigger] found[a] as int].hash@
                != rows[#[trigger] found[b] as int].hash@,
        forall|hash: Seq<char>| #[trigger]
            has_status(table_of(rows), hash, status) ==> exists|j: int|
                0 <= j < found.len() && rows[#[trigger] found[j] as int].hash@ == hash,
{
    assert forall|j: int| 0 <= j < found.len() implies has_status(
        table_of(rows),
        rows[#[trigger] found[j] as int].hash@,
        status,
    ) && table_of(rows)[rows[found[j] as int].hash@] == rows[found[j] as int].record() by {
        lemma_table_lookup(rows, found[j] as int);
    }
    assert forall|hash: Seq<char>| #[trigger]
        has_status(table_of(rows), hash, status) implies exists|j: int|
        0 <= j < found.len() && rows[#[trigger] found[j] as int].hash@ == hash by {
        let k = row_index(rows, hash);
        lemma_table_lookup(rows, k);
        assert(rows[k].status == status);
        let j = choose|j: int| 0 <= j < found.len() && found[j] == k;
        assert(rows[found[j] as int].hash@ == hash);
    }
}

/// The table together with the watermark and the root of the relay storage.
pub ghost struct StorageView {
    pub tasks: TaskTable,
    pub watermark: Option<i64>,
    pub storage_path: Seq<char>,
}

/// Keeps every task with its status, the watermark, and the place where
/// artifacts are staged.
pub struct StorageManager {
    tasks: Vec<TaskRow>,
    watermark: Option<i64>,
    storage_path: String,
}

impl View for StorageManager {
    type V = StorageView;

    closed spec fn view(&self) -> StorageView {
        StorageView {
            tasks: table_of(self.tasks@),
            watermark: self.watermark,
            storage_path: self.storage_path@,
        }
    }
}

impl StorageManager {
    /// The table is well formed: no hash is stored twice.
    pub closed spec fn wf(&self) -> bool {
        hashes_distinct(self.tasks@)
    }

    /// An empty table below `storage_path`, with no watermark yet.
    pub fn new(storage_path: String) -> (store: StorageManager)
        ensures
            store.wf(),
            store@.tasks == TaskTable::empty(),
            store@.watermark.is_none(),
            store@.storage_path == storage_path@,
    {
        let store = StorageManager { tasks: Vec::new(), watermark: None, storage_path };
        assert(table_of(store.tasks@) =~= TaskTable::empty());
        store
    }

    /// An empty table below the storage root of the configuration, with no
    /// watermark yet.
    pub fn from_config(config: &DaemonConfig) -> (store: StorageManager)
        ensures
            store.wf(),
            store@.tasks == TaskTable::empty(),
            store@.watermark.is_none(),
            store@.storage_path == config.storage_path@,
    {
        StorageManager::new(config.storage_path.clone())
    }

    /// The index of the row that carries `hash`, if there is one.
    fn position(&self, hash: &String) -> (found: Option<usize>)
        requires
            self.wf(),
        ensures
            match found {
                Some(i) => i < self.tasks.len() && self.tasks[i as int].hash@ == hash@,
                None => !self@.tasks.contains_key(hash@),
            },
            found.is_some() == self@.tasks.contains_key(hash@),
            found matches Some(i) ==> self@.tasks[hash@] == self.tasks[i as int].record(),
    {
        let mut i: usize = 0;
        while i < self.tasks.len()
            invariant
                i <= self.tasks.len(),
                hashes_distinct(self.tasks@),
                forall|k: int| 0 <= k < i ==> self.tasks[k].hash@ != hash@,
            decreases self.tasks.len() - i,
        {
            if self.tasks[i].hash == *hash {
                proof {
                    lemma_table_lookup(self.tasks@, i as int);
                }
                return Some(i);
            }
            i += 1;
        }
        proof {
            lemma_table_absent(self.tasks@, hash@);
        }
        None
    }

    /// The watermark, if one is stored.
    pub fn watermark(&self) -> (date: Option<i64>)
        ensures
            date == self@.watermark,
    {
        self.watermark
    }

    /// The root below which artifacts are staged.
    pub fn storage_path(&self) -> (path: &str)
        ensures
            path@ == self@.storage_path,
    {
        self.storage_path.as_str()
    }

    /// The stored status of `hash`, if the table knows it.
    pub fn status_of(&self, hash: &str) -> (status: Option<TaskStatus>)
        requires
            self.wf(),
        ensures
            status.is_some() == self@.tasks.contains_key(hash@),
            status matches Some(s) ==> self@.tasks[hash@].status == s,
    {
        let key = hash.to_owned();
        match self.position(&key) {
            Some(i) => Some(self.tasks[i].status),
            None => None,
        }
    }

    /// What the table holds for `hash`, if it knows the hash.
    pub fn task(&self, hash: &str) -> (entry: Option<TaskEntry>)
        requires
            self.wf(),
        ensures
            entry.is_some() == self@.tasks.contains_key(hash@),
            entry matches Some(task) ==> {
                &&& task.hash@ == hash@
                &&& task.name@ == self@.tasks[hash@].name
                &&& task.status == self@.tasks[hash@].status
                &&& task.content_path@ == self@.tasks[hash@].content_path
            },
    {
        let key = hash.to_owned();
        match self.position(&key) {
            Some(i) => Some(
                TaskEntry {
                    hash: key,
                    name: self.tasks[i].name.clone(),
                    status: self.tasks[i].status,
                    content_path: self.tasks[i].content_path.clone(),
                },
            ),
            None => None,
        }
    }

    /// The number of tasks in the table.
    pub fn task_count(&self) -> (count: usize)
        requires
            self.wf(),
        ensures
            count == self@.tasks.dom().len(),
            self@.tasks.dom().finite(),
    {
        proof {
            lemma_table_size(self.tasks@);
        }
        self.tasks.len()
    }

    /// The watermark: the stored one if there is one, else `now`, which is
    /// then stored. The stored watermark never changes afterwards.
    pub fn earliest_import_date(&mut self, now: i64) -> (date: i64)
        requires
            old(self).wf(),
        ensures
            final(self).wf(),
            date == match old(self)@.watermark {
                Some(stored) => stored,
                None => now,
            },
            final(self)@.watermark == Some(date),
            final(self)@.tasks == old(self)@.tasks,
            final(self)@.storage_path == old(self)@.storage_path,
    {
        match self.watermark {
            Some(stored) => stored,
            None => {
                self.watermark = Some(now);
                now
            },
        }
    }

    /// Offers one discovered item to the table.
    fn offer(&mut self, item: &TorrentTaskInfo)
        requires
            old(self).wf(),
        ensures
            final(self).wf(),
            final(self)@.tasks == upsert(old(self)@.tasks, item@),
            final(self)@.watermark == old(self)@.watermark,
            final(self)@.storage_path == old(self)@.storage_path,
    {
        let status = TaskStatus::discovered(item.status);
        let row = TaskRow {
            hash: item.hash.clone(),
            name: item.name.clone(),
            status,
            content_path: item.content_path.clone(),
        };
        match self.position(&item.hash) {
            Some(i) => {
                if self.tasks[i].status.precedes(status) {
                    proof {
                        lemma_table_update(self.tasks@, i as int, row);
                    }
                    self.tasks.set(i, row);
                }
            },
            None => {
                proof {
                    lemma_table_push(self.tasks@, row);
                }
                self.tasks.push(row);
            },
        }
    }

    /// Offers every discovered item to the table, first to last. An item is
    /// written when its hash is new or its status is strictly greater than the
    /// stored one; any other item is passed over.
    pub fn update_torrent_info(&mut self, torrents: &[TorrentTaskInfo])
        requires
            old(self).wf(),
        ensures
            final(self).wf(),
            final(self)@.tasks == upsert_all(old(self)@.tasks, crate::task::task_views(torrents@)),
            advances(old(self)@.tasks, final(self)@.tasks),
            final(self)@.watermark == old(self)@.watermark,
            final(self)@.storage_path == old(self)@.storage_path,
    {
        let ghost items = crate::task::task_views(torrents@);
        let mut i: usize = 0;
        while i < torrents.len()
            invariant
                i <= torrents.len(),
                self.wf(),
                items == crate::task::task_views(torrents@),
                self@.tasks == upsert_all(old(self)@.tasks, items.take(i as int)),
                self@.watermark == old(self)@.watermark,
                self@.storage_path == old(self)@.storage_path,
            decreases torrents.len() - i,
        {
            self.offer(&torrents[i]);
            proof {
                let next = items.take(i + 1);
                assert(next.drop_last() =~= items.take(i as int));
                assert(next.last() == torrents@[i as int]@);
            }
            i += 1;
        }
        proof {
            assert(items.take(i as int) =~= items);
            lemma_upsert_all_advances(old(self)@.tasks, items);
        }
    }

    /// Records that `hash` is present at the relay: a task that is ready for
    /// transfer becomes ready for handoff. Any other hash is left alone.
    pub fn mark_artifact_ready(&mut self, hash: &str)
        requires
            old(self).wf(),
        ensures
            final(self).wf(),
            final(self)@.tasks == marked_ready(old(self)@.tasks, hash@),
            advances(old(self)@.tasks, final(self)@.tasks),
            final(self)@.watermark == old(self)@.watermark,
            final(self)@.storage_path == old(self)@.storage_path,
    {
        let key = hash.to_owned();
        match self.position(&key) {
            Some(i) => {
                if self.tasks[i].status == TaskStatus::TorrentReady {
                    let row = TaskRow {
                        hash: key,
                        name: self.tasks[i].name.clone(),
                        status: TaskStatus::ArtifactReady,
                        content_path: self.tasks[i].content_path.clone(),
                    };
                    proof {
                        lemma_table_update(self.tasks@, i as int, row);
                    }
                    self.tasks.set(i, row);
                }
            },
            None => {},
        }
    }

    /// Where the artifact `hash` is staged at the relay.
    pub fn artifact_storage_path(&self, hash: &str) -> (path: String)
        ensures
            path@ == artifact_path(self@.storage_path, hash@),
    {
        let dir = join_path(self.storage_path.as_str(), "artifacts");
        join_path(dir.as_str(), hash)
    }

    /// Archives the artifact `hash` and names the directory to reclaim.
    ///
    /// A task that waits at the relay becomes archived, and the result is the
    /// directory in which it was staged; the caller removes it after the new
    /// status is durable. An archived task gives `AlreadyArchived`, any other
    /// hash gives `NotFound`; in both cases the table is left as it was.
    pub fn finalize_artifact(&mut self, hash: &str) -> (result: Result<String, FinalizeArtifactError>)
        requires
            old(self).wf(),
        ensures
            final(self).wf(),
            final(self)@.tasks == finalized(old(self)@.tasks, hash@),
            advances(old(self)@.tasks, final(self)@.tasks),
            final(self)@.watermark == old(self)@.watermark,
            final(self)@.storage_path == old(self)@.storage_path,
            match finalize_verdict(old(self)@.tasks, hash@) {
                FinalizeVerdict::Archived => result matches Ok(path) && path@ == artifact_path(
                    old(self)@.storage_path,
                    hash@,
                ),
                FinalizeVerdict::NotFound => result matches Err(FinalizeArtifactError::NotFound),
                FinalizeVerdict::AlreadyArchived => result matches Err(
                    FinalizeArtifactError::AlreadyArchived,
                ),
            },
    {
        let key = hash.to_owned();
        match self.position(&key) {
            Some(i) => {
                let stored = self.tasks[i].status;
                if stored == TaskStatus::ArtifactReady {
                    let row = TaskRow {
                        hash: key,
                        name: self.tasks[i].name.clone(),
                        status: TaskStatus::Archived,
                        content_path: self.tasks[i].content_path.clone(),
                    };
                    proof {
                        lemma_table_update(self.tasks@, i as int, row);
                    }
                    self.tasks.set(i, row);
                    Ok(self.artifact_storage_path(hash))
                } else if stored == TaskStatus::Archived {
                    Err(FinalizeArtifactError::AlreadyArchived)
                } else {
                    Err(FinalizeArtifactError::NotFound)
                }
            },
            None => Err(FinalizeArtifactError::NotFound),
        }
    }

    /// The indices of the rows with the given status, in rising order.
    fn rows_with_status(&self, status: TaskStatus) -> (found: Vec<usize>)
        ensures
            selects(self.tasks@, status, found@),
    {
        let mut found: Vec<usize> = Vec::new();
        let mut i: usize = 0;
        while i < self.tasks.len()
            invariant
                i <= self.tasks.len(),
                forall|j: int|
                    0 <= j < found.len() ==> (#[trigger] found[j]) < i && self.tasks[found[j] as int].status
                        == status,
                forall|a: int, b: int| 0 <= a < b < found.len() ==> found[a] < found[b],
                forall|k: int|
                    0 <= k < i && (#[trigger] self.tasks[k]).status == status ==> exists|j: int|
                        0 <= j < found.len() && found[j] == k,
            decreases self.tasks.len() - i,
        {
            if self.tasks[i].status == status {
                let ghost before = found@;
                found.push(i);
                proof {
                    assert forall|k: int|
                        0 <= k < i + 1 && (#[trigger] self.tasks[k]).status
                            == status implies exists|j: int|
                        0 <= j < found.len() && found[j] == k by {
                        if k < i {
                            let j = choose|j: int| 0 <= j < before.len() && before[j] == k;
                            assert(found[j] == k);
                        } else {
                            assert(found[before.len() as int] == k);
                        }
                    }
                }
            }
            i += 1;
        }
        found
    }

    /// The tasks that have the given status, each exactly once, as the table
    /// holds them at this moment.
    pub fn list_tasks_with_status(&self, status: TaskStatus) -> (entries: Vec<TaskEntry>)
        requires
            self.wf(),
        ensures
            lists_tasks(self@.tasks, status, entry_views(entries@)),
    {
        let found = self.rows_with_status(status);
        let mut entries: Vec<TaskEntry> = Vec::new();
        let mut j: usize = 0;
        while j < found.len()
            invariant
                j <= found.len(),
                entries.len() == j,
                selects(self.tasks@, status, found@),
                forall|m: int|
                    #![trigger entries[m]]
                    0 <= m < j ==> {
                        &&& entries[m].hash@ == self.tasks[found[m] as int].hash@
                        &&& entries[m].name@ == self.tasks[found[m] as int].name@
                        &&& entries[m].status == status
                        &&& entries[m].content_path@ == self.tasks[found[m] as int].content_path@
                    },
            decreases found.len() - j,
        {
            let row = &self.tasks[found[j]];
            entries.push(
                TaskEntry {
                    hash: row.hash.clone(),
                    name: row.name.clone(),
                    status,
                    content_path: row.content_path.clone(),
                },
            );
            j += 1;
        }
        proof {
            lemma_selected_rows(self.tasks@, status, found@);
            let views = entry_views(entries@);
            assert forall|m: int| 0 <= m < views.len() implies (#[trigger] views[m]).hash
                == self.tasks[found[m] as int].hash@ by {
                assert(views[m] == entries[m]@);
            }
            assert forall|m: int| 0 <= m < views.len() implies has_status(
                self@.tasks,
                #[trigger] views[m].hash,
                status,
            ) && views[m] == (TaskEntryView {
                hash: views[m].hash,
                name: self@.tasks[views[m].hash].name,
                status,
                content_path: self@.tasks[views[m].hash].content_path,
            }) by {
                assert(views[m] == entries[m]@);
                assert(has_status(table_of(self.tasks@), self.tasks[found[m] as int].hash@, status));
            }
            assert forall|a: int, b: int| 0 <= a < b < views.len() implies (#[trigger] views[a]).hash
                != (#[trigger] views[b]).hash by {
                assert(self.tasks[found[a] as int].hash@ != self.tasks[found[b] as int].hash@);
            }
            assert forall|hash: Seq<char>| #[trigger]
                has_status(self@.tasks, hash, status) implies exists|m: int|
                0 <= m < views.len() && #[trigger] views[m].hash == hash by {
                let m = choose|m: int|
                    0 <= m < found.len() && self.tasks[#[trigger] found[m] as int].hash@ == hash;
                assert(views[m].hash == hash);
            }
        }
        entries
    }

    /// The tasks that are ready for transfer to the relay, each exactly once.
    pub fn list_ready_torrents(&self) -> (torrents: Vec<TorrentTaskInfo>)
        requires
            self.wf(),
        ensures
            lists_ready_torrents(self@.tasks, crate::task::task_views(torrents@)),
    {
        let entries = self.list_tasks_with_status(TaskStatus::TorrentReady);
        let mut torrents: Vec<TorrentTaskInfo> = Vec::new();
        let mut j: usize = 0;
        while j < entries.len()
            invariant
                j <= entries.len(),
                torrents.len() == j,
                forall|m: int|
                    0 <= m < j ==> (#[trigger] torrents[m])@ == (TorrentTaskInfoView {
                        hash: entries[m].hash@,
                        status: TorrentStatus::Seeding,
                        content_path: entries[m].content_path@,
                        name: entries[m].name@,
                    }),
            decreases entries.len() - j,
        {
            torrents.push(
                TorrentTaskInfo {
                    hash: entries[j].hash.clone(),
                    status: TorrentStatus::Seeding,
                    content_path: entries[j].content_path.clone(),
                    name: entries[j].name.clone(),
                },
            );
            j += 1;
        }
        proof {
            let listed = entry_views(entries@);
            let items = crate::task::task_views(torrents@);
            assert forall|m: int| 0 <= m < items.len() implies (#[trigger] items[m]).hash
                == listed[m].hash && items[m].name == listed[m].name && items[m].content_path
                == listed[m].content_path && items[m].status == TorrentStatus::Seeding by {
                assert(items[m] == torrents[m]@);
                assert(listed[m] == entries[m]@);
            }
            assert forall|m: int| 0 <= m < items.len() implies has_status(
                self@.tasks,
                #[trigger] items[m].hash,
                TaskStatus::TorrentReady,
            ) && items[m] == (TorrentTaskInfoView {
                hash: items[m].hash,
                status: TorrentStatus::Seeding,
                content_path: self@.tasks[items[m].hash].content_path,
                name: self@.tasks[items[m].hash].name,
            }) by {
                assert(has_status(self@.tasks, listed[m].hash, TaskStatus::TorrentReady));
            }
            assert forall|hash: Seq<char>| #[trigger]
                has_status(self@.tasks, hash, TaskStatus::TorrentReady) implies exists|m: int|
                0 <= m < items.len() && #[trigger] items[m].hash == hash by {
                let m = choose|m: int| 0 <= m < listed.len() && #[trigger] listed[m].hash == hash;
                assert(items[m].hash == hash);
            }
        }
        torrents
    }

    /// The tasks that wait at the relay for the consumer, each exactly once,
    /// with the place where each is staged.
    pub fn list_ready_artifacts(&self) -> (artifacts: Vec<ArtifactInfo>)
        requires
            self.wf(),
        ensures
            lists_ready_artifacts(
                self@.tasks,
                self@.storage_path,
                crate::task::artifact_views(artifacts@),
            ),
    {
        let entries = self.list_tasks_with_status(TaskStatus::ArtifactReady);
        let mut artifacts: Vec<ArtifactInfo> = Vec::new();
        let mut j: usize = 0;
        while j < entries.len()
            invariant
                j <= entries.len(),
                artifacts.len() == j,
                forall|m: int|
                    0 <= m < j ==> (#[trigger] artifacts[m])@ == (ArtifactInfoView {
                        hash: entries[m].hash@,
                        name: entries[m].name@,
                        path: artifact_path(self@.storage_path, entries[m].hash@),
                    }),
            decreases entries.len() - j,
        {
            let path = self.artifact_storage_path(entries[j].hash.as_str());
            artifacts.push(
                ArtifactInfo { hash: entries[j].hash.clone(), name: entries[j].name.clone(), path },
            );
            j += 1;
        }
        proof {
            let listed = entry_views(entries@);
            let items = crate::task::artifact_views(artifacts@);
            assert forall|m: int| 0 <= m < items.len() implies (#[trigger] items[m]).hash
                == listed[m].hash && items[m].name == listed[m].name && items[m].path
                == artifact_path(self@.storage_path, listed[m].hash) by {
                assert(items[m] == artifacts[m]@);
                assert(listed[m] == entries[m]@);
            }
            assert forall|m: int| 0 <= m < items.len() implies has_status(
                self@.tasks,
                #[trigger] items[m].hash,
                TaskStatus::ArtifactReady,
            ) && items[m] == (ArtifactInfoView {
                hash: items[m].hash,
                name: self@.tasks[items[m].hash].name,
                path: artifact_path(self@.storage_path, items[m].hash),
            }) by {
                assert(has_status(self@.tasks, listed[m].hash, TaskStatus::ArtifactReady));
            }
            assert forall|hash: Seq<char>| #[trigger]
                has_status(self@.tasks, hash, TaskStatus::ArtifactReady) implies exists|m: int|
                0 <= m < items.len() && #[trigger] items[m].hash == hash by {
                let m = choose|m: int| 0 <= m < listed.len() && #[trigger] listed[m].hash == hash;
                assert(items[m].hash == hash);
            }
        }
        artifacts
    }

    /// Puts back a task that was read from durable storage, with the integer
    /// under which its status was stored. The task is taken, and the result
    /// is `true`, when the integer names a status and the hash is not in the
    /// table yet; otherwise the table is left as it was.
    pub fn restore_task(&mut self, hash: String, name: String, status: i64, content_path: String) -> (
        taken: bool
    )
        requires
            old(self).wf(),
        ensures
            final(self).wf(),
            taken == (0 <= status <= 3 && !old(self)@.tasks.contains_key(hash@)),
            taken ==> final(self)@.tasks.contains_key(hash@) && final(self)@.tasks[hash@].status.rank()
                == status && final(self)@.tasks == old(self)@.tasks.insert(
                hash@,
                TaskRecord {
                    name: name@,
                    status: final(self)@.tasks[hash@].status,
                    content_path: content_path@,
                },
            ),
            !taken ==> final(self)@.tasks == old(self)@.tasks,
            final(self)@.watermark == old(self)@.watermark,
            final(self)@.storage_path == old(self)@.storage_path,
    {
        match TaskStatus::from_ordinal(status) {
            Some(stored) => {
                if self.position(&hash).is_some() {
                    false
                } else {
                    let row = TaskRow { hash, name, status: stored, content_path };
                    proof {
                        lemma_table_push(self.tasks@, row);
                    }
                    self.tasks.push(row);
                    true
                }
            },
            None => false,
        }
    }

    /// Puts back the watermark that was read from durable storage.
    pub fn restore_watermark(&mut self, date: i64)
        requires
            old(self).wf(),
        ensures
            final(self).wf(),
            final(self)@.watermark == Some(date),
            final(self)@.tasks == old(self)@.tasks,
            final(self)@.storage_path == old(self)@.storage_path,
    {
        self.watermark = Some(date);
    }
}

} // verus!
