//! The daemon task queue: task kinds, pause modes, task records, the rules
//! that decide whether a task may run, and the bookkeeping of queued and
//! finished tasks.  The work itself (filesystem and index updates) is done
//! by the caller between `begin` and `settle`.

use vstd::prelude::*;
use crate::error::{error_text, LocalrefError};
use crate::text::{concat2, decimal, decimal_string, owned, push_str};
use crate::types::CategoryPath;

verus! {

/// Daemon task kinds executed by the core task queue.
#[derive(Clone, Debug, PartialEq, Eq)]
pub enum DaemonTask {
    /// Rebuild query storage from `All/`.
    ScanAll,
    /// Import one connector item into `All/`.
    ImportConnector { title: String },
    /// Save a connector attachment into an existing item directory.
    SaveConnectorAttachment { filename: String },
    /// Patch an existing metadata file.
    PatchMetadata { item_id: String },
    /// Create metadata for an existing directory under `All/`.
    ImportAllDirectory { path: String },
    /// Import one explicit file into `All/`.
    ImportFile { path: String },
    /// Add one explicit file to an existing item directory.
    AddItemFile { item_id: String, path: String },
    /// Delete one indexed item directory.
    DeleteItem { item_id: String },
    /// Create an empty category directory.
    CreateCategory { category: CategoryPath },
    /// Normalize a real directory found under `Cat/`.
    NormalizeCatDirectory { path: String },
    /// Add one item to a category.
    AddCategory { item_id: String, category: CategoryPath },
    /// Remove one item from a category.
    RemoveCategory { item_id: String, category: CategoryPath },
    /// Rename a category directory.
    RenameCategory { from: CategoryPath, to: CategoryPath },
    /// Merge a category into another category.
    MergeCategory { from: CategoryPath, to: CategoryPath },
}

impl DaemonTask {
    /// The same task, field for field.
    pub fn duplicate(&self) -> (r: DaemonTask)
        ensures
            r == *self,
    {
        match self {
            DaemonTask::ScanAll => DaemonTask::ScanAll,
            DaemonTask::ImportConnector { title } => DaemonTask::ImportConnector {
                title: title.clone(),
            },
            DaemonTask::SaveConnectorAttachment { filename } =>
                DaemonTask::SaveConnectorAttachment { filename: filename.clone() },
            DaemonTask::PatchMetadata { item_id } => DaemonTask::PatchMetadata {
                item_id: item_id.clone(),
            },
            DaemonTask::ImportAllDirectory { path } => DaemonTask::ImportAllDirectory {
                path: path.clone(),
            },
            DaemonTask::ImportFile { path } => DaemonTask::ImportFile { path: path.clone() },
            DaemonTask::AddItemFile { item_id, path } => DaemonTask::AddItemFile {
                item_id: item_id.clone(),
                path: path.clone(),
            },
            DaemonTask::DeleteItem { item_id } => DaemonTask::DeleteItem {
                item_id: item_id.clone(),
            },
            DaemonTask::CreateCategory { category } => DaemonTask::CreateCategory {
                category: category.duplicate(),
            },
            DaemonTask::NormalizeCatDirectory { path } => DaemonTask::NormalizeCatDirectory {
                path: path.clone(),
            },
            DaemonTask::AddCategory { item_id, category } => DaemonTask::AddCategory {
                item_id: item_id.clone(),
                category: category.duplicate(),
            },
            DaemonTask::RemoveCategory { item_id, category } => DaemonTask::RemoveCategory {
                item_id: item_id.clone(),
                category: category.duplicate(),
            },
            DaemonTask::RenameCategory { from, to } => DaemonTask::RenameCategory {
                from: from.duplicate(),
                to: to.duplicate(),
            },
            DaemonTask::MergeCategory { from, to } => DaemonTask::MergeCategory {
                from: from.duplicate(),
                to: to.duplicate(),
            },
        }
    }
}

/// State of one daemon task.
#[derive(Clone, Copy, Debug, PartialEq, Eq)]
pub enum DaemonTaskState {
    /// Task has been accepted by the queue.
    Queued,
    /// Task is currently running.
    Running,
    /// Task completed successfully.
    Completed,
    /// Task failed.
    Failed,
}

/// Daemon pause mode.
#[derive(Clone, Copy, Debug, PartialEq, Eq, PartialOrd, Ord, Hash)]
pub enum PauseMode {
    /// Pause all daemon work except status and resume.
    All,
    /// Pause filesystem and database writes.
    Writes,
    /// Pause filesystem watcher processing.
    Watcher,
    /// Pause query database and index updates.
    Indexing,
}

/// Record returned by daemon task APIs.
#[derive(Clone, Debug, PartialEq, Eq)]
pub struct DaemonTaskRecord {
    /// Monotonic in-memory task id.
    pub id: u64,
    /// Task kind.
    pub task: DaemonTask,
    /// Current task state.
    pub state: DaemonTaskState,
    /// Human-readable task message.
    pub message: Option<String>,
    /// Number of indexed items for scan tasks.
    pub indexed_items: Option<usize>,
}

impl DaemonTaskRecord {
    /// A duplicate of this record, equal to it.
    pub fn duplicate(&self) -> (r: DaemonTaskRecord)
        ensures
            r == *self,
    {
        DaemonTaskRecord {
            id: self.id,
            task: self.task.duplicate(),
            state: self.state,
            message: match &self.message {
                Some(m) => Some(m.clone()),
                None => None,
            },
            indexed_items: self.indexed_items,
        }
    }
}

/// Current daemon queue status.
#[derive(Clone, Debug, PartialEq, Eq)]
pub struct DaemonStatus {
    /// Whether a task is currently running.
    pub running: bool,
    /// Number of queued tasks.
    pub queued_tasks: usize,
    /// Recent task records.
    pub recent_tasks: Vec<DaemonTaskRecord>,
    /// Active pause modes, in mode order.
    pub paused_modes: Vec<PauseMode>,
}

/// A library mutation that completed successfully, published to hook
/// subscribers.
#[derive(Clone, Debug, PartialEq, Eq)]
pub enum DaemonEvent {
    /// A new item was imported and indexed.
    ItemImported { item_id: String },
    /// An indexed item directory was deleted.
    ItemDeleted { item_id: String },
    /// An item's metadata was patched.
    MetadataPatched { item_id: String },
    /// A category was created, renamed, merged, or (un)assigned to items.
    CategoryChanged { item_id: Option<String>, category: Option<String> },
    /// A full library scan finished.
    ScanCompleted { indexed_items: usize },
    /// A file was added to an existing item.
    ItemFileAdded { item_id: String },
    /// The classification rules changed.
    RulesChanged,
    /// The scheduled plugin calls changed.
    SchedulesChanged,
    /// A pause mode was switched on.
    DaemonPaused,
    /// A pause mode was switched off.
    DaemonResumed,
    /// A status-bar message was posted.
    StatusMessage { text: String, kind: StatusKind },
}

/// Severity of a status-bar message (`info` unless stated).
#[derive(Clone, Copy, Debug, PartialEq, Eq, Structural)]
pub enum StatusKind {
    Info,
    Success,
    Error,
}

/// Wire name of a status severity.
pub open spec fn status_kind_name(k: StatusKind) -> Seq<char> {
    match k {
        StatusKind::Info => "info"@,
        StatusKind::Success => "success"@,
        StatusKind::Error => "error"@,
    }
}

impl StatusKind {
    /// Lower-case wire name.
    pub fn as_str(self) -> (r: &'static str)
        ensures
            r@ == status_kind_name(self),
    {
        match self {
            StatusKind::Info => "info",
            StatusKind::Success => "success",
            StatusKind::Error => "error",
        }
    }

    /// The severity named on the wire, if any.
    pub fn parse(name: &str) -> (r: Option<StatusKind>)
        ensures
            match r {
                Some(k) => status_kind_name(k) == name@,
                None => name@ != "info"@ && name@ != "success"@ && name@ != "error"@,
            },
    {
        if crate::text::str_eq(name, "info") {
            Some(StatusKind::Info)
        } else if crate::text::str_eq(name, "success") {
            Some(StatusKind::Success)
        } else if crate::text::str_eq(name, "error") {
            Some(StatusKind::Error)
        } else {
            None
        }
    }
}

impl Default for StatusKind {
    fn default() -> (r: StatusKind)
        ensures
            r == StatusKind::Info,
    {
        StatusKind::Info
    }
}

/// Wire name of an event.
pub open spec fn spec_event_name(e: DaemonEvent) -> Seq<char> {
    match e {
        DaemonEvent::ItemImported { .. } => "item_imported"@,
        DaemonEvent::ItemDeleted { .. } => "item_deleted"@,
        DaemonEvent::MetadataPatched { .. } => "metadata_patched"@,
        DaemonEvent::CategoryChanged { .. } => "category_changed"@,
        DaemonEvent::ScanCompleted { .. } => "scan_completed"@,
        DaemonEvent::ItemFileAdded { .. } => "item_file_added"@,
        DaemonEvent::RulesChanged => "rules_changed"@,
        DaemonEvent::SchedulesChanged => "schedules_changed"@,
        DaemonEvent::DaemonPaused => "daemon_paused"@,
        DaemonEvent::DaemonResumed => "daemon_resumed"@,
        DaemonEvent::StatusMessage { .. } => "status_message"@,
    }
}

impl DaemonEvent {
    /// Stable `snake_case` wire name passed to plugins as `hook <event>`.
    pub fn event_name(&self) -> (r: &'static str)
        ensures
            r@ == spec_event_name(*self),
    {
        match self {
            DaemonEvent::ItemImported { .. } => "item_imported",
            DaemonEvent::ItemDeleted { .. } => "item_deleted",
            DaemonEvent::MetadataPatched { .. } => "metadata_patched",
            DaemonEvent::CategoryChanged { .. } => "category_changed",
            DaemonEvent::ScanCompleted { .. } => "scan_completed",
            DaemonEvent::ItemFileAdded { .. } => "item_file_added",
            DaemonEvent::RulesChanged => "rules_changed",
            DaemonEvent::SchedulesChanged => "schedules_changed",
            DaemonEvent::DaemonPaused => "daemon_paused",
            DaemonEvent::DaemonResumed => "daemon_resumed",
            DaemonEvent::StatusMessage { .. } => "status_message",
        }
    }
}

/// The set of active pause modes.
pub open spec fn pause_set(all: bool, writes: bool, watcher: bool, indexing: bool) -> Set<
    PauseMode,
> {
    Set::new(
        |m: PauseMode|
            match m {
                PauseMode::All => all,
                PauseMode::Writes => writes,
                PauseMode::Watcher => watcher,
                PauseMode::Indexing => indexing,
            },
    )
}

/// The active pause modes listed in mode order.
pub open spec fn ordered_modes(p: Set<PauseMode>) -> Seq<PauseMode> {
    (if p.contains(PauseMode::All) { seq![PauseMode::All] } else { seq![] }) + (if p.contains(
        PauseMode::Writes,
    ) {
        seq![PauseMode::Writes]
    } else {
        seq![]
    }) + (if p.contains(PauseMode::Watcher) {
        seq![PauseMode::Watcher]
    } else {
        seq![]
    }) + (if p.contains(PauseMode::Indexing) {
        seq![PauseMode::Indexing]
    } else {
        seq![]
    })
}

/// Why a task may not run under the given pause modes, if it may not:
/// `All` stops everything, `Indexing` and `Writes` stop scans, and `Writes`
/// stops every other task (they all write).
pub open spec fn refusal(paused: Set<PauseMode>, task: DaemonTask) -> Option<Seq<char>> {
    if paused.contains(PauseMode::All) {
        Some("daemon is paused"@)
    } else if task is ScanAll && (paused.contains(PauseMode::Indexing) || paused.contains(
        PauseMode::Writes,
    )) {
        Some("indexing is paused"@)
    } else if !(task is ScanAll) && paused.contains(PauseMode::Writes) {
        Some("writes are paused"@)
    } else {
        None
    }
}

/// The generic task runner executes scans only; every other task kind has
/// its own entry point, named in the refusal message.
pub open spec fn runner_refusal(task: DaemonTask) -> Option<Seq<char>> {
    match task {
        DaemonTask::ScanAll => None,
        DaemonTask::ImportConnector { .. } => Some("use import_connector_item for import tasks"@),
        DaemonTask::SaveConnectorAttachment { .. } => Some(
            "use save_connector_attachment_to_item for attachment tasks"@,
        ),
        DaemonTask::PatchMetadata { .. } => Some("use patch_metadata for metadata patch tasks"@),
        DaemonTask::ImportAllDirectory { .. } => Some(
            "use import_all_directory for manual imports"@,
        ),
        DaemonTask::ImportFile { .. } => Some("use import_file for file imports"@),
        DaemonTask::AddItemFile { .. } => Some("use add_file_to_item for item file additions"@),
        DaemonTask::DeleteItem { .. } => Some("use delete_item for item deletion"@),
        DaemonTask::CreateCategory { .. } => Some("use create_category for category creation"@),
        DaemonTask::NormalizeCatDirectory { .. } => Some(
            "use normalize_cat_directory for Cat normalization"@,
        ),
        _ => Some("use category command methods for category tasks"@),
    }
}

/// Abstract form of a [`DaemonEvent`], over string views.
pub enum EventView {
    ItemImported { item_id: Seq<char> },
    ItemDeleted { item_id: Seq<char> },
    MetadataPatched { item_id: Seq<char> },
    CategoryChanged { item_id: Option<Seq<char>>, category: Option<Seq<char>> },
    ScanCompleted { indexed_items: usize },
    ItemFileAdded { item_id: Seq<char> },
    RulesChanged,
    SchedulesChanged,
    DaemonPaused,
    DaemonResumed,
    StatusMessage { text: Seq<char>, kind: StatusKind },
}

impl View for DaemonEvent {
    type V = EventView;

    open spec fn view(&self) -> EventView {
        match *self {
            DaemonEvent::ItemImported { item_id } => EventView::ItemImported { item_id: item_id@ },
            DaemonEvent::ItemDeleted { item_id } => EventView::ItemDeleted { item_id: item_id@ },
            DaemonEvent::MetadataPatched { item_id } => EventView::MetadataPatched {
                item_id: item_id@,
            },
            DaemonEvent::CategoryChanged { item_id, category } => EventView::CategoryChanged {
                item_id: match item_id {
                    Some(i) => Some(i@),
                    None => None,
                },
                category: match category {
                    Some(c) => Some(c@),
                    None => None,
                },
            },
            DaemonEvent::ScanCompleted { indexed_items } => EventView::ScanCompleted {
                indexed_items,
            },
            DaemonEvent::ItemFileAdded { item_id } => EventView::ItemFileAdded { item_id: item_id@ },
            DaemonEvent::RulesChanged => EventView::RulesChanged,
            DaemonEvent::SchedulesChanged => EventView::SchedulesChanged,
            DaemonEvent::DaemonPaused => EventView::DaemonPaused,
            DaemonEvent::DaemonResumed => EventView::DaemonResumed,
            DaemonEvent::StatusMessage { text, kind } => EventView::StatusMessage { text: text@, kind },
        }
    }
}

/// The hook event published when a task completes successfully through the
/// task runner or the category/deletion commands: scans, deletions and
/// category commands carry their event in the task itself.
pub open spec fn completion_event(task: DaemonTask, indexed_items: Option<usize>) -> Option<
    EventView,
> {
    match task {
        DaemonTask::ScanAll => Some(
            EventView::ScanCompleted {
                indexed_items: match indexed_items {
                    Some(n) => n,
                    None => 0,
                },
            },
        ),
        DaemonTask::DeleteItem { item_id } => Some(EventView::ItemDeleted { item_id: item_id@ }),
        DaemonTask::CreateCategory { category } => Some(
            EventView::CategoryChanged { item_id: None, category: Some(category@) },
        ),
        DaemonTask::RenameCategory { to, .. } => Some(
            EventView::CategoryChanged { item_id: None, category: Some(to@) },
        ),
        DaemonTask::MergeCategory { to, .. } => Some(
            EventView::CategoryChanged { item_id: None, category: Some(to@) },
        ),
        DaemonTask::AddCategory { item_id, category } => Some(
            EventView::CategoryChanged { item_id: Some(item_id@), category: Some(category@) },
        ),
        DaemonTask::RemoveCategory { item_id, category } => Some(
            EventView::CategoryChanged { item_id: Some(item_id@), category: Some(category@) },
        ),
        _ => None,
    }
}

/// Event for a task that completed successfully (see [`completion_event`]).
pub fn task_completion_event(task: &DaemonTask, indexed_items: Option<usize>) -> (r: Option<
    DaemonEvent,
>)
    ensures
        match r {
            Some(e) => completion_event(*task, indexed_items) == Some(e@),
            None => completion_event(*task, indexed_items) is None,
        },
{
    match task {
        DaemonTask::ScanAll => Some(
            DaemonEvent::ScanCompleted {
                indexed_items: match indexed_items {
                    Some(n) => n,
                    None => 0,
                },
            },
        ),
        DaemonTask::DeleteItem { item_id } => Some(
            DaemonEvent::ItemDeleted { item_id: item_id.clone() },
        ),
        DaemonTask::CreateCategory { category } => Some(
            DaemonEvent::CategoryChanged { item_id: None, category: Some(owned(category.as_str())) },
        ),
        DaemonTask::RenameCategory { to, .. } => Some(
            DaemonEvent::CategoryChanged { item_id: None, category: Some(owned(to.as_str())) },
        ),
        DaemonTask::MergeCategory { to, .. } => Some(
            DaemonEvent::CategoryChanged { item_id: None, category: Some(owned(to.as_str())) },
        ),
        DaemonTask::AddCategory { item_id, category } => Some(
            DaemonEvent::CategoryChanged {
                item_id: Some(item_id.clone()),
                category: Some(owned(category.as_str())),
            },
        ),
        DaemonTask::RemoveCategory { item_id, category } => Some(
            DaemonEvent::CategoryChanged {
                item_id: Some(item_id.clone()),
                category: Some(owned(category.as_str())),
            },
        ),
        _ => None,
    }
}

/// Message of a generic-runner refusal (see [`runner_refusal`]).
pub fn task_runner_refusal(task: &DaemonTask) -> (r: Option<String>)
    ensures
        match r {
            Some(m) => runner_refusal(*task) == Some(m@),
            None => runner_refusal(*task) is None,
        },
{
    match task {
        DaemonTask::ScanAll => None,
        DaemonTask::ImportConnector { .. } => Some(owned("use import_connector_item for import tasks")),
        DaemonTask::SaveConnectorAttachment { .. } => Some(
            owned("use save_connector_attachment_to_item for attachment tasks"),
        ),
        DaemonTask::PatchMetadata { .. } => Some(owned("use patch_metadata for metadata patch tasks")),
        DaemonTask::ImportAllDirectory { .. } => Some(
            owned("use import_all_directory for manual imports"),
        ),
        DaemonTask::ImportFile { .. } => Some(owned("use import_file for file imports")),
        DaemonTask::AddItemFile { .. } => Some(owned("use add_file_to_item for item file additions")),
        DaemonTask::DeleteItem { .. } => Some(owned("use delete_item for item deletion")),
        DaemonTask::CreateCategory { .. } => Some(owned("use create_category for category creation")),
        DaemonTask::NormalizeCatDirectory { .. } => Some(
            owned("use normalize_cat_directory for Cat normalization"),
        ),
        _ => Some(owned("use category command methods for category tasks")),
    }
}

/// Summary message of a finished scan.
pub open spec fn scan_message(indexed: nat, all_imports: nat, cat_normalizations: nat) -> Seq<char> {
    "indexed "@ + decimal(indexed) + " item(s), imported "@ + decimal(all_imports)
        + " All folder(s), normalized "@ + decimal(cat_normalizations) + " Cat folder(s)"@
}

/// Render the summary message of a finished scan.
pub fn scan_summary(indexed: u64, all_imports: u64, cat_normalizations: u64) -> (r: String)
    ensures
        r@ == scan_message(indexed as nat, all_imports as nat, cat_normalizations as nat),
{
    let mut out = owned("indexed ");
    push_str(&mut out, decimal_string(indexed).as_str());
    push_str(&mut out, " item(s), imported ");
    push_str(&mut out, decimal_string(all_imports).as_str());
    push_str(&mut out, " All folder(s), normalized ");
    push_str(&mut out, decimal_string(cat_normalizations).as_str());
    push_str(&mut out, " Cat folder(s)");
    out
}

/// Mutable state of the daemon task queue.
#[derive(Debug)]
pub struct TaskQueueState {
    next_id: u64,
    running: bool,
    queued: Vec<DaemonTaskRecord>,
    history: Vec<DaemonTaskRecord>,
    paused_all: bool,
    paused_writes: bool,
    paused_watcher: bool,
    paused_indexing: bool,
}

/// `r` with its state replaced.
pub open spec fn with_state(r: DaemonTaskRecord, st: DaemonTaskState) -> DaemonTaskRecord {
    DaemonTaskRecord { state: st, ..r }
}

/// Position of the record with id `id`, if any.
pub open spec fn position_of(recs: Seq<DaemonTaskRecord>, id: u64) -> Option<int> {
    if exists|i: int| 0 <= i < recs.len() && recs[i].id == id {
        Some(choose|i: int| 0 <= i < recs.len() && recs[i].id == id)
    } else {
        None
    }
}

/// History after a record is finished: it replaces the entry with its id,
/// or is appended when there is none.
pub open spec fn finished_history(h: Seq<DaemonTaskRecord>, r: DaemonTaskRecord) -> Seq<
    DaemonTaskRecord,
> {
    match position_of(h, r.id) {
        Some(i) => h.update(i, r),
        None => h.push(r),
    }
}

/// Every record id is below `n`.
pub open spec fn ids_below(recs: Seq<DaemonTaskRecord>, n: u64) -> bool {
    forall|i: int| 0 <= i < recs.len() ==> #[trigger] recs[i].id < n
}

/// Every queued record id occurs in the history.
pub open spec fn queued_in_history(q: Seq<DaemonTaskRecord>, h: Seq<DaemonTaskRecord>) -> bool {
    forall|i: int| 0 <= i < q.len() ==> #[trigger] has_id(h, q[i].id)
}

/// Some record carries id `id`.
pub open spec fn has_id(h: Seq<DaemonTaskRecord>, id: u64) -> bool {
    exists|j: int| 0 <= j < h.len() && h[j].id == id
}

/// No two records share an id.
pub open spec fn unique_ids(recs: Seq<DaemonTaskRecord>) -> bool {
    forall|i: int, j: int| 0 <= i < recs.len() && 0 <= j < recs.len() && i != j ==> recs[i].id
        != recs[j].id
}

impl TaskQueueState {
    /// Id the next enqueued task receives.
    pub closed spec fn spec_next_id(&self) -> u64 {
        self.next_id
    }

    /// Whether a task is running.
    pub closed spec fn spec_running(&self) -> bool {
        self.running
    }

    /// Records of tasks accepted but not finished.
    pub closed spec fn spec_queued(&self) -> Seq<DaemonTaskRecord> {
        self.queued@
    }

    /// All task records, oldest first.
    pub closed spec fn spec_history(&self) -> Seq<DaemonTaskRecord> {
        self.history@
    }

    /// Active pause modes.
    pub closed spec fn spec_paused(&self) -> Set<PauseMode> {
        pause_set(self.paused_all, self.paused_writes, self.paused_watcher, self.paused_indexing)
    }

    /// Queue invariant: history ids are unique and below the next id, and
    /// every queued record is in the history.
    pub open spec fn wf(&self) -> bool {
        &&& unique_ids(self.spec_history())
        &&& unique_ids(self.spec_queued())
        &&& ids_below(self.spec_history(), self.spec_next_id())
        &&& queued_in_history(self.spec_queued(), self.spec_history())
    }

    /// An empty queue: no tasks, nothing paused, first id 1.
    pub fn new() -> (r: TaskQueueState)
        ensures
            r.wf(),
            r.spec_next_id() == 1,
            !r.spec_running(),
            r.spec_queued().len() == 0,
            r.spec_history().len() == 0,
            r.spec_paused() == Set::<PauseMode>::empty(),
    {
        let r = TaskQueueState {
            next_id: 1,
            running: false,
            queued: Vec::new(),
            history: Vec::new(),
            paused_all: false,
            paused_writes: false,
            paused_watcher: false,
            paused_indexing: false,
        };
        proof {
            assert(r.spec_paused() =~= Set::<PauseMode>::empty());
        }
        r
    }

    /// Accept a task: it receives the next id and the `Queued` state and is
    /// appended to both the queue and the history.
    pub fn enqueue(&mut self, task: DaemonTask) -> (r: DaemonTaskRecord)
        requires
            old(self).wf(),
            old(self).spec_next_id() < u64::MAX,
        ensures
            final(self).wf(),
            r == (DaemonTaskRecord {
                id: old(self).spec_next_id(),
                task,
                state: DaemonTaskState::Queued,
                message: None,
                indexed_items: None,
            }),
            final(self).spec_next_id() == old(self).spec_next_id() + 1,
            final(self).spec_queued() == old(self).spec_queued().push(r),
            final(self).spec_history() == old(self).spec_history().push(r),
            final(self).spec_running() == old(self).spec_running(),
            final(self).spec_paused() == old(self).spec_paused(),
    {
        let record = DaemonTaskRecord {
            id: self.next_id,
            task,
            state: DaemonTaskState::Queued,
            message: None,
            indexed_items: None,
        };
        self.next_id = self.next_id + 1;
        self.queued.push(record.duplicate());
        self.history.push(record.duplicate());
        proof {
            let h = self.history@;
            let q = self.queued@;
            let h_old = old(self).history@;
            let q_old = old(self).queued@;
            assert(ids_below(h, self.next_id)) by {
                assert forall|k: int| 0 <= k < h.len() implies #[trigger] h[k].id < self.next_id by {
                    if k < h_old.len() {
                        assert(h[k] == h_old[k]);
                    }
                }
            }
            assert(unique_ids(h)) by {
                assert forall|a: int, b: int| 0 <= a < h.len() && 0 <= b < h.len() && a != b implies h[a].id
                    != h[b].id by {
                    if a < h_old.len() {
                        assert(h[a] == h_old[a]);
                    }
                    if b < h_old.len() {
                        assert(h[b] == h_old[b]);
                    }
                }
            }
            assert(unique_ids(q)) by {
                assert forall|a: int, b: int| 0 <= a < q.len() && 0 <= b < q.len() && a != b implies q[a].id
                    != q[b].id by {
                    if a < q_old.len() {
                        assert(q[a] == q_old[a]);
                        assert(has_id(h_old, q_old[a].id));
                    }
                    if b < q_old.len() {
                        assert(q[b] == q_old[b]);
                        assert(has_id(h_old, q_old[b].id));
                    }
                }
            }
            assert forall|i: int| 0 <= i < q.len() implies #[trigger] has_id(h, q[i].id) by {
                if i == q.len() - 1 {
                    assert(h[h.len() - 1].id == q[i].id);
                } else {
                    assert(has_id(old(self).history@, old(self).queued@[i].id));
                    let j = choose|j: int|
                        0 <= j < old(self).history@.len() && old(self).history@[j].id
                            == old(self).queued@[i].id;
                    assert(h[j].id == q[i].id);
                }
            }
        }
        record
    }

    /// Mark the task with id `id` as running; the queue is now busy.
    pub fn mark_running(&mut self, id: u64)
        requires
            old(self).wf(),
        ensures
            final(self).wf(),
            final(self).spec_running(),
            final(self).spec_history() == Seq::new(
                old(self).spec_history().len(),
                |i: int|
                    if old(self).spec_history()[i].id == id {
                        with_state(old(self).spec_history()[i], DaemonTaskState::Running)
                    } else {
                        old(self).spec_history()[i]
                    },
            ),
            final(self).spec_queued() == old(self).spec_queued(),
            final(self).spec_next_id() == old(self).spec_next_id(),
            final(self).spec_paused() == old(self).spec_paused(),
    {
        self.running = true;
        let mut h: Vec<DaemonTaskRecord> = Vec::new();
        core::mem::swap(&mut h, &mut self.history);
        let ghost h0 = h@;
        let mut i: usize = 0;
        while i < h.len()
            invariant
                0 <= i <= h@.len(),
                h@.len() == h0.len(),
                unique_ids(h0),
                forall|k: int|
                    0 <= k < i ==> #[trigger] h@[k] == (if h0[k].id == id {
                        with_state(h0[k], DaemonTaskState::Running)
                    } else {
                        h0[k]
                    }),
                forall|k: int| i <= k < h0.len() ==> #[trigger] h@[k] == h0[k],
            decreases h0.len() - i,
        {
            if h[i].id == id {
                let mut rec = h[i].duplicate();
                rec.state = DaemonTaskState::Running;
                h.set(i, rec);
            }
            i = i + 1;
        }
        self.history = h;
        proof {
            let expected = Seq::new(
                h0.len(),
                |k: int|
                    if h0[k].id == id {
                        with_state(h0[k], DaemonTaskState::Running)
                    } else {
                        h0[k]
                    },
            );
            assert(self.history@ =~= expected);
            assert(ids_below(self.spec_history(), self.spec_next_id())) by {
                assert forall|k: int| 0 <= k < self.spec_history().len() implies #[trigger] self.spec_history()[k].id
                    < self.spec_next_id() by {
                    assert(self.spec_history()[k].id == h0[k].id);
                }
            }
            assert(unique_ids(self.spec_history())) by {
                assert forall|a: int, b: int|
                    0 <= a < self.spec_history().len() && 0 <= b < self.spec_history().len() && a != b
                    implies self.spec_history()[a].id != self.spec_history()[b].id by {
                    assert(self.spec_history()[a].id == h0[a].id);
                    assert(self.spec_history()[b].id == h0[b].id);
                }
            }
            assert forall|k: int| 0 <= k < self.spec_queued().len() implies #[trigger] has_id(
                self.spec_history(),
                self.spec_queued()[k].id,
            ) by {
                assert(self.spec_queued()[k] == old(self).spec_queued()[k]);
                assert(has_id(h0, old(self).spec_queued()[k].id));
                let m = choose|m: int|
                    0 <= m < h0.len() && h0[m].id == old(self).spec_queued()[k].id;
                assert(self.spec_history()[m].id == h0[m].id);
            }
        }
    }

    /// Finish a task: the queue is idle, the record leaves the queue, and it
    /// replaces the history entry with its id (or is appended when there is
    /// none).  `record` must carry an id handed out by [`Self::enqueue`].
    pub fn finish(&mut self, record: DaemonTaskRecord)
        requires
            old(self).wf(),
            record.id < old(self).spec_next_id(),
        ensures
            final(self).wf(),
            !final(self).spec_running(),
            final(self).spec_queued() == old(self).spec_queued().filter(
                |q: DaemonTaskRecord| q.id != record.id,
            ),
            final(self).spec_history() == finished_history(old(self).spec_history(), record),
            final(self).spec_next_id() == old(self).spec_next_id(),
            final(self).spec_paused() == old(self).spec_paused(),
    {
        self.running = false;
        let ghost q0 = self.queued@;
        let ghost h0 = self.history@;
        let mut q: Vec<DaemonTaskRecord> = Vec::new();
        core::mem::swap(&mut q, &mut self.queued);
        let mut kept: Vec<DaemonTaskRecord> = Vec::new();
        let mut i: usize = 0;
        while i < q.len()
            invariant
                i <= q@.len(),
                q@ == q0,
                kept@ == q0.take(i as int).filter(|q: DaemonTaskRecord| q.id != record.id),
            decreases q0.len() - i,
        {
            proof {
                assert(q0.take(i + 1).drop_last() == q0.take(i as int));
                reveal(Seq::filter);
            }
            if q[i].id != record.id {
                kept.push(q[i].duplicate());
            }
            i = i + 1;
        }
        proof {
            assert(q0.take(q0.len() as int) == q0);
        }
        self.queued = kept;
        let mut h: Vec<DaemonTaskRecord> = Vec::new();
        core::mem::swap(&mut h, &mut self.history);
        let mut j: usize = 0;
        while j < h.len() && h[j].id != record.id
            invariant
                j <= h@.len(),
                h@ == h0,
                forall|k: int| 0 <= k < j ==> h0[k].id != record.id,
            decreases h0.len() - j,
        {
            j = j + 1;
        }
        let found = j < h.len();
        if found {
            proof {
                assert(h0[j as int].id == record.id);
                let c = choose|i: int| 0 <= i < h0.len() && h0[i].id == record.id;
                assert(c == j);
                assert(position_of(h0, record.id) == Some(j as int));
            }
            h.set(j, record);
        } else {
            proof {
                assert(!(exists|i: int| 0 <= i < h0.len() && h0[i].id == record.id));
                assert(position_of(h0, record.id) is None);
            }
            h.push(record);
        }
        self.history = h;
        proof {
            let q = self.queued@;
            let h = self.history@;
            lemma_filter_subset(q0, |x: DaemonTaskRecord| x.id != record.id);
            assert forall|a: int, b: int|
                0 <= a < q.len() && 0 <= b < q.len() && a != b implies q[a].id != q[b].id by {
                lemma_filter_unique(q0, |x: DaemonTaskRecord| x.id != record.id, a, b);
            }
            assert forall|k: int| 0 <= k < h.len() implies #[trigger] h[k].id
                < self.spec_next_id() by {
                if k < h0.len() && !(found && k == j) {
                    assert(h[k] == h0[k]);
                }
            }
            assert forall|a: int, b: int|
                0 <= a < h.len() && 0 <= b < h.len() && a != b implies h[a].id != h[b].id by {
                if found {
                    if a == j {
                        assert(h[b] == h0[b]);
                    } else if b == j {
                        assert(h[a] == h0[a]);
                    } else {
                        assert(h[a] == h0[a]);
                        assert(h[b] == h0[b]);
                    }
                } else {
                    if a < h0.len() && b < h0.len() {
                        assert(h[a] == h0[a]);
                        assert(h[b] == h0[b]);
                    } else if a == h0.len() {
                        assert(h[b] == h0[b]);
                    } else {
                        assert(h[a] == h0[a]);
                    }
                }
            }
            assert forall|k: int| 0 <= k < q.len() implies #[trigger] has_id(h, q[k].id) by {
                let x = q[k];
                let k0 = choose|k0: int| 0 <= k0 < q0.len() && q0[k0] == x;
                assert(has_id(h0, q0[k0].id));
                let m = choose|m: int| 0 <= m < h0.len() && h0[m].id == q0[k0].id;
                assert(q0[k0].id == x.id);
                if found && m == j {
                    assert(h[j as int].id == record.id);
                } else {
                    assert(h[m] == h0[m]);
                }
            }
        }
    }

    /// Accept and start a task: enqueue it, mark it running, and decide
    /// whether the pause modes let it run.
    pub fn begin(&mut self, task: DaemonTask) -> (r: (DaemonTaskRecord, Result<(), LocalrefError>))
        requires
            old(self).wf(),
            old(self).spec_next_id() < u64::MAX,
        ensures
            final(self).wf(),
            r.0 == (DaemonTaskRecord {
                id: old(self).spec_next_id(),
                task,
                state: DaemonTaskState::Queued,
                message: None,
                indexed_items: None,
            }),
            final(self).spec_running(),
            final(self).spec_next_id() == old(self).spec_next_id() + 1,
            final(self).spec_queued() == old(self).spec_queued().push(r.0),
            final(self).spec_history() == old(self).spec_history().push(
                with_state(r.0, DaemonTaskState::Running),
            ),
            final(self).spec_paused() == old(self).spec_paused(),
            match refusal(old(self).spec_paused(), task) {
                Some(m) => r.1 matches Err(LocalrefError::Unsupported(x)) && x@ == m,
                None => r.1 is Ok,
            },
    {
        let ghost h0 = self.spec_history();
        let record = self.enqueue(task);
        self.mark_running(record.id);
        proof {
            assert forall|k: int| 0 <= k < h0.len() implies h0[k].id != record.id by {
                assert(h0[k].id < old(self).spec_next_id());
            }
            assert(self.spec_history() =~= h0.push(with_state(record, DaemonTaskState::Running)));
        }
        let allowed = self.ensure_task_allowed(&record.task);
        (record, allowed)
    }

    /// Settle a started task with the outcome of its work: on success the
    /// record is `Completed` and the task's completion event is returned; on
    /// failure it is `Failed` with the error text as its message.  The queue
    /// is then idle and the settled record is in the history.
    pub fn settle(&mut self, record: DaemonTaskRecord, outcome: Result<(), LocalrefError>) -> (r: (
        DaemonTaskRecord,
        Option<DaemonEvent>,
    ))
        requires
            old(self).wf(),
            record.id < old(self).spec_next_id(),
        ensures
            final(self).wf(),
            !final(self).spec_running(),
            final(self).spec_queued() == old(self).spec_queued().filter(
                |q: DaemonTaskRecord| q.id != record.id,
            ),
            final(self).spec_history() == finished_history(old(self).spec_history(), r.0),
            final(self).spec_next_id() == old(self).spec_next_id(),
            final(self).spec_paused() == old(self).spec_paused(),
            r.0.id == record.id,
            r.0.task == record.task,
            r.0.indexed_items == record.indexed_items,
            match outcome {
                Ok(()) => {
                    &&& r.0.state == DaemonTaskState::Completed
                    &&& r.0.message == record.message
                    &&& match r.1 {
                        Some(e) => completion_event(record.task, record.indexed_items) == Some(e@),
                        None => completion_event(record.task, record.indexed_items) is None,
                    }
                },
                Err(err) => {
                    &&& r.0.state == DaemonTaskState::Failed
                    &&& r.0.message matches Some(m) && m@ == error_text(err)
                    &&& r.1 is None
                },
            },
    {
        match outcome {
            Ok(()) => {
                let event = task_completion_event(&record.task, record.indexed_items);
                let mut settled = record;
                settled.state = DaemonTaskState::Completed;
                let copy = settled.duplicate();
                self.finish(settled);
                (copy, event)
            },
            Err(err) => {
                let mut settled = record;
                settled.state = DaemonTaskState::Failed;
                settled.message = Some(err.message());
                let copy = settled.duplicate();
                self.finish(settled);
                (copy, None)
            },
        }
    }

    /// Why `task` may not run now, as the error it is refused with.
    pub fn ensure_task_allowed(&self, task: &DaemonTask) -> (r: Result<(), LocalrefError>)
        ensures
            match refusal(self.spec_paused(), *task) {
                Some(m) => r matches Err(LocalrefError::Unsupported(x)) && x@ == m,
                None => r is Ok,
            },
    {
        if self.paused_all {
            return Err(LocalrefError::Unsupported(owned("daemon is paused")));
        }
        match task {
            DaemonTask::ScanAll => {
                if self.paused_indexing || self.paused_writes {
                    Err(LocalrefError::Unsupported(owned("indexing is paused")))
                } else {
                    Ok(())
                }
            },
            _ => {
                if self.paused_writes {
                    Err(LocalrefError::Unsupported(owned("writes are paused")))
                } else {
                    Ok(())
                }
            },
        }
    }

    /// Snapshot of the queue: running flag, queue length, full history and
    /// the active pause modes in mode order.
    pub fn status(&self) -> (r: DaemonStatus)
        ensures
            r.running == self.spec_running(),
            r.queued_tasks == self.spec_queued().len(),
            r.recent_tasks@ == self.spec_history(),
            r.paused_modes@ == ordered_modes(self.spec_paused()),
    {
        let mut recent: Vec<DaemonTaskRecord> = Vec::new();
        let mut i: usize = 0;
        while i < self.history.len()
            invariant
                i <= self.history@.len(),
                recent@ == self.history@.take(i as int),
            decreases self.history@.len() - i,
        {
            recent.push(self.history[i].duplicate());
            proof {
                assert(self.history@.take(i + 1) == self.history@.take(i as int).push(
                    self.history@[i as int],
                ));
            }
            i = i + 1;
        }
        proof {
            assert(self.history@.take(self.history@.len() as int) == self.history@);
        }
        let mut modes: Vec<PauseMode> = Vec::new();
        if self.paused_all {
            modes.push(PauseMode::All);
        }
        if self.paused_writes {
            modes.push(PauseMode::Writes);
        }
        if self.paused_watcher {
            modes.push(PauseMode::Watcher);
        }
        if self.paused_indexing {
            modes.push(PauseMode::Indexing);
        }
        proof {
            assert(modes@ =~= ordered_modes(self.spec_paused()));
        }
        DaemonStatus {
            running: self.running,
            queued_tasks: self.queued.len(),
            recent_tasks: recent,
            paused_modes: modes,
        }
    }

    /// Add one active pause mode and report the new status., with the event that announces it
    /// (`DaemonPaused`).
    pub fn pause(&mut self, mode: PauseMode) -> (r: (DaemonStatus, DaemonEvent))
        requires
            old(self).wf(),
        ensures
            final(self).wf(),
            final(self).spec_paused() == old(self).spec_paused().insert(mode),
            final(self).spec_running() == old(self).spec_running(),
            final(self).spec_queued() == old(self).spec_queued(),
            final(self).spec_history() == old(self).spec_history(),
            final(self).spec_next_id() == old(self).spec_next_id(),
            r.0.running == final(self).spec_running(),
            r.0.queued_tasks == final(self).spec_queued().len(),
            r.0.recent_tasks@ == final(self).spec_history(),
            r.0.paused_modes@ == ordered_modes(final(self).spec_paused()),
            r.1 == DaemonEvent::DaemonPaused,
    {
        match mode {
            PauseMode::All => self.paused_all = true,
            PauseMode::Writes => self.paused_writes = true,
            PauseMode::Watcher => self.paused_watcher = true,
            PauseMode::Indexing => self.paused_indexing = true,
        }
        proof {
            assert(self.spec_paused() =~= old(self).spec_paused().insert(mode));
            assert(self.spec_history() == old(self).spec_history());
            assert(self.spec_queued() == old(self).spec_queued());
            assert(self.spec_next_id() == old(self).spec_next_id());
            assert(unique_ids(self.spec_history()));
            assert(unique_ids(self.spec_queued()));
            assert(forall|i: int|
            0 <= i < self.spec_history().len() ==> #[trigger] self.spec_history()[i].id
                < self.spec_next_id());
        }
        (self.status(), DaemonEvent::DaemonPaused)
    }

    /// Remove one active pause mode and report the new status., with the event that announces it
    /// (`DaemonResumed`).
    pub fn resume(&mut self, mode: PauseMode) -> (r: (DaemonStatus, DaemonEvent))
        requires
            old(self).wf(),
        ensures
            final(self).wf(),
            final(self).spec_paused() == old(self).spec_paused().remove(mode),
            final(self).spec_running() == old(self).spec_running(),
            final(self).spec_queued() == old(self).spec_queued(),
            final(self).spec_history() == old(self).spec_history(),
            final(self).spec_next_id() == old(self).spec_next_id(),
            r.0.running == final(self).spec_running(),
            r.0.queued_tasks == final(self).spec_queued().len(),
            r.0.recent_tasks@ == final(self).spec_history(),
            r.0.paused_modes@ == ordered_modes(final(self).spec_paused()),
            r.1 == DaemonEvent::DaemonResumed,
    {
        match mode {
            PauseMode::All => self.paused_all = false,
            PauseMode::Writes => self.paused_writes = false,
            PauseMode::Watcher => self.paused_watcher = false,
            PauseMode::Indexing => self.paused_indexing = false,
        }
        proof {
            assert(self.spec_paused() =~= old(self).spec_paused().remove(mode));
            assert(self.spec_history() == old(self).spec_history());
            assert(self.spec_queued() == old(self).spec_queued());
            assert(self.spec_next_id() == old(self).spec_next_id());
        }
        (self.status(), DaemonEvent::DaemonResumed)
    }
}

/// Pausing a mode that was not paused and then resuming it restores the
/// previous pause modes.
pub proof fn law_pause_then_resume_restores(
    s0: TaskQueueState,
    s1: TaskQueueState,
    s2: TaskQueueState,
    mode: PauseMode,
)
    requires
        !s0.spec_paused().contains(mode),
        s1.spec_paused() == s0.spec_paused().insert(mode),
        s2.spec_paused() == s1.spec_paused().remove(mode),
    ensures
        s2.spec_paused() == s0.spec_paused(),
{
    assert(s2.spec_paused() =~= s0.spec_paused());
}

/// Pausing is idempotent: pausing an already paused mode changes nothing.
pub proof fn law_pause_idempotent(s0: TaskQueueState, s1: TaskQueueState, mode: PauseMode)
    requires
        s0.spec_paused().contains(mode),
        s1.spec_paused() == s0.spec_paused().insert(mode),
    ensures
        s1.spec_paused() == s0.spec_paused(),
{
    assert(s1.spec_paused() =~= s0.spec_paused());
}

/// With `All` paused no task may run; with nothing paused every task may;
/// pausing the watcher alone refuses nothing.
pub proof fn law_pause_modes_gate_tasks(paused: Set<PauseMode>, task: DaemonTask)
    ensures
        paused.contains(PauseMode::All) ==> refusal(paused, task) is Some,
        paused == Set::<PauseMode>::empty() ==> refusal(paused, task) is None,
        paused == Set::<PauseMode>::empty().insert(PauseMode::Watcher) ==> refusal(
            paused,
            task,
        ) is None,
        paused.contains(PauseMode::Writes) ==> refusal(paused, task) is Some,
        !paused.contains(PauseMode::All) && !paused.contains(PauseMode::Writes) && !(
        task is ScanAll) ==> refusal(paused, task) is None,
{
}

/// What each pause mode refuses, with its message: `All` refuses every
/// task ("daemon is paused"); otherwise a scan is refused while `Indexing`
/// or `Writes` is paused ("indexing is paused"), any other task while
/// `Writes` is paused ("writes are paused"); `Watcher` alone refuses
/// nothing.
pub proof fn law_pause_mode_refusals(paused: Set<PauseMode>, task: DaemonTask)
    ensures
        paused.contains(PauseMode::All) ==> refusal(paused, task) == Some("daemon is paused"@),
        !paused.contains(PauseMode::All) && paused.contains(PauseMode::Indexing) && task is ScanAll
            ==> refusal(paused, task) == Some("indexing is paused"@),
        !paused.contains(PauseMode::All) && paused.contains(PauseMode::Writes) && task is ScanAll
            ==> refusal(paused, task) == Some("indexing is paused"@),
        !paused.contains(PauseMode::All) && paused.contains(PauseMode::Writes) && !(task is ScanAll)
            ==> refusal(paused, task) == Some("writes are paused"@),
        !paused.contains(PauseMode::All) && !paused.contains(PauseMode::Writes)
            && !paused.contains(PauseMode::Indexing) ==> refusal(paused, task) is None,
        !paused.contains(PauseMode::All) && !paused.contains(PauseMode::Writes) && !(
        task is ScanAll) ==> refusal(paused, task) is None,
{
}

/// Task ids are handed out in strictly increasing order: a task accepted
/// later has a larger id, and no recorded task shares the new id.
pub proof fn law_fresh_increasing_ids(s0: TaskQueueState, s1: TaskQueueState, r0: DaemonTaskRecord, r1: DaemonTaskRecord)
    requires
        s0.wf(),
        r0.id == s0.spec_next_id(),
        s1.spec_next_id() == s0.spec_next_id() + 1,
        r1.id == s1.spec_next_id(),
    ensures
        r0.id < r1.id,
        forall|k: int| 0 <= k < s0.spec_history().len() ==> #[trigger] s0.spec_history()[k].id != r0.id,
{
    assert forall|k: int| 0 <= k < s0.spec_history().len() implies #[trigger] s0.spec_history()[k].id != r0.id by {
        assert(s0.spec_history()[k].id < s0.spec_next_id());
    }
}

/// A finished task has left the queue.
pub proof fn law_finished_task_leaves_queue(s0: TaskQueueState, s1: TaskQueueState, id: u64)
    requires
        s1.spec_queued() == s0.spec_queued().filter(|x: DaemonTaskRecord| x.id != id),
    ensures
        forall|k: int| 0 <= k < s1.spec_queued().len() ==> #[trigger] s1.spec_queued()[k].id != id,
{
    lemma_filter_subset(s0.spec_queued(), |x: DaemonTaskRecord| x.id != id);
}

proof fn lemma_filter_subset<A>(s: Seq<A>, p: spec_fn(A) -> bool)
    ensures
        forall|k: int|
            0 <= k < s.filter(p).len() ==> exists|k0: int|
                0 <= k0 < s.len() && s[k0] == #[trigger] s.filter(p)[k] && p(s[k0]),
    decreases s.len(),
{
    reveal(Seq::filter);
    if s.len() > 0 {
        let t = s.drop_last();
        lemma_filter_subset(t, p);
        assert forall|k: int| 0 <= k < s.filter(p).len() implies exists|k0: int|
            0 <= k0 < s.len() && s[k0] == #[trigger] s.filter(p)[k] && p(s[k0]) by {
            if k < t.filter(p).len() {
                let k0 = choose|k0: int| 0 <= k0 < t.len() && t[k0] == t.filter(p)[k] && p(t[k0]);
                assert(s[k0] == t[k0]);
            } else {
                assert(s.filter(p)[k] == s.last());
                assert(s[s.len() - 1] == s.last());
            }
        }
    }
}

proof fn lemma_filter_unique(
    s: Seq<DaemonTaskRecord>,
    p: spec_fn(DaemonTaskRecord) -> bool,
    a: int,
    b: int,
)
    requires
        unique_ids(s),
        0 <= a < s.filter(p).len(),
        0 <= b < s.filter(p).len(),
        a != b,
    ensures
        s.filter(p)[a].id != s.filter(p)[b].id,
    decreases s.len(),
{
    reveal(Seq::filter);
    if s.len() > 0 {
        let t = s.drop_last();
        assert(unique_ids(t)) by {
            assert forall|i: int, j: int| 0 <= i < t.len() && 0 <= j < t.len() && i != j implies t[i].id
                != t[j].id by {
                assert(t[i] == s[i]);
                assert(t[j] == s[j]);
            }
        }
        let n = t.filter(p).len();
        if a < n && b < n {
            lemma_filter_unique(t, p, a, b);
        } else {
            lemma_filter_subset(t, p);
            let other = if a < n { a } else { b };
            let k0 = choose|k0: int| 0 <= k0 < t.len() && t[k0] == t.filter(p)[other] && p(t[k0]);
            assert(s[k0] == t[k0]);
            assert(s[s.len() - 1] == s.last());
        }
    }
}

} // verus!
