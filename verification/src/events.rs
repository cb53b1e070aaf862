//! Event vocabularies: log event kinds and the durable daemon event log.

use vstd::prelude::*;
use crate::text::{join, join_path, owned};

verus! {

/// Well-known log event kind identifiers used as `event_kind` field values.
#[derive(Clone, Copy, Debug, PartialEq, Eq)]
pub enum LogKind {
    ImportStarted,
    ImportFinished,
    ImportFailed,
    ItemRegistered,
    MetadataWritten,
    ScanStarted,
    ScanFinished,
    PauseChanged,
    WriteConflict,
    AutoClassifiedOnImport,
    CatLinkCreated,
    CategoryCreated,
    MetadataCreated,
    MultipleMainPdfCandidates,
    CatCopyReplacedByLink,
    CatLinkDeleted,
    CategoryRenamed,
    CategoryMerged,
    ItemDeleted,
}

/// The `snake_case` wire name of a log event kind.
pub open spec fn log_kind_name(k: LogKind) -> Seq<char> {
    match k {
        LogKind::ImportStarted => "import_started"@,
        LogKind::ImportFinished => "import_finished"@,
        LogKind::ImportFailed => "import_failed"@,
        LogKind::ItemRegistered => "item_registered"@,
        LogKind::MetadataWritten => "metadata_written"@,
        LogKind::ScanStarted => "scan_started"@,
        LogKind::ScanFinished => "scan_finished"@,
        LogKind::PauseChanged => "pause_changed"@,
        LogKind::WriteConflict => "write_conflict"@,
        LogKind::AutoClassifiedOnImport => "auto_classified_on_import"@,
        LogKind::CatLinkCreated => "cat_link_created"@,
        LogKind::CategoryCreated => "category_created"@,
        LogKind::MetadataCreated => "metadata_created"@,
        LogKind::MultipleMainPdfCandidates => "multiple_main_pdf_candidates"@,
        LogKind::CatCopyReplacedByLink => "cat_copy_replaced_by_link"@,
        LogKind::CatLinkDeleted => "cat_link_deleted"@,
        LogKind::CategoryRenamed => "category_renamed"@,
        LogKind::CategoryMerged => "category_merged"@,
        LogKind::ItemDeleted => "item_deleted"@,
    }
}

/// Three features that tell the kind names apart: length and the
/// characters at positions 3 and 9.
spec fn name_key(s: Seq<char>) -> (int, char, char) {
    (s.len() as int, s[3], s[9])
}

proof fn lemma_log_kind_key(k: LogKind)
    ensures
        log_kind_name(k).len() >= 10,
        name_key(log_kind_name(k)) == match k {
            LogKind::ImportStarted => (14int, 'o', 'a'),
            LogKind::ImportFinished => (15int, 'o', 'n'),
            LogKind::ImportFailed => (13int, 'o', 'i'),
            LogKind::ItemRegistered => (15int, 'm', 's'),
            LogKind::MetadataWritten => (16int, 'a', 'w'),
            LogKind::ScanStarted => (12int, 'n', 't'),
            LogKind::ScanFinished => (13int, 'n', 's'),
            LogKind::PauseChanged => (13int, 's', 'n'),
            LogKind::WriteConflict => (14int, 't', 'f'),
            LogKind::AutoClassifiedOnImport => (25int, 'o', 's'),
            LogKind::CatLinkCreated => (16int, '_', 'c'),
            LogKind::CategoryCreated => (16int, 'e', 'c'),
            LogKind::MetadataCreated => (16int, 'a', 'c'),
            LogKind::MultipleMainPdfCandidates => (28int, 't', 'm'),
            LogKind::CatCopyReplacedByLink => (25int, '_', 'r'),
            LogKind::CatLinkDeleted => (16int, '_', 'd'),
            LogKind::CategoryRenamed => (16int, 'e', 'r'),
            LogKind::CategoryMerged => (15int, 'e', 'm'),
            LogKind::ItemDeleted => (12int, 'm', 't'),
        },
{
    match k {
        LogKind::ImportStarted => {
            reveal_strlit("import_started");
            assert("import_started"@.len() == 14 && "import_started"@[3] == 'o' && "import_started"@[9] == 'a');
        },
        LogKind::ImportFinished => {
            reveal_strlit("import_finished");
            assert("import_finished"@.len() == 15 && "import_finished"@[3] == 'o' && "import_finished"@[9] == 'n');
        },
        LogKind::ImportFailed => {
            reveal_strlit("import_failed");
            assert("import_failed"@.len() == 13 && "import_failed"@[3] == 'o' && "import_failed"@[9] == 'i');
        },
        LogKind::ItemRegistered => {
            reveal_strlit("item_registered");
            assert("item_registered"@.len() == 15 && "item_registered"@[3] == 'm' && "item_registered"@[9] == 's');
        },
        LogKind::MetadataWritten => {
            reveal_strlit("metadata_written");
            assert("metadata_written"@.len() == 16 && "metadata_written"@[3] == 'a' && "metadata_written"@[9] == 'w');
        },
        LogKind::ScanStarted => {
            reveal_strlit("scan_started");
            assert("scan_started"@.len() == 12 && "scan_started"@[3] == 'n' && "scan_started"@[9] == 't');
        },
        LogKind::ScanFinished => {
            reveal_strlit("scan_finished");
            assert("scan_finished"@.len() == 13 && "scan_finished"@[3] == 'n' && "scan_finished"@[9] == 's');
        },
        LogKind::PauseChanged => {
            reveal_strlit("pause_changed");
            assert("pause_changed"@.len() == 13 && "pause_changed"@[3] == 's' && "pause_changed"@[9] == 'n');
        },
        LogKind::WriteConflict => {
            reveal_strlit("write_conflict");
            assert("write_conflict"@.len() == 14 && "write_conflict"@[3] == 't' && "write_conflict"@[9] == 'f');
        },
        LogKind::AutoClassifiedOnImport => {
            reveal_strlit("auto_classified_on_import");
            assert("auto_classified_on_import"@.len() == 25 && "auto_classified_on_import"@[3] == 'o' && "auto_classified_on_import"@[9] == 's');
        },
        LogKind::CatLinkCreated => {
            reveal_strlit("cat_link_created");
            assert("cat_link_created"@.len() == 16 && "cat_link_created"@[3] == '_' && "cat_link_created"@[9] == 'c');
        },
        LogKind::CategoryCreated => {
            reveal_strlit("category_created");
            assert("category_created"@.len() == 16 && "category_created"@[3] == 'e' && "category_created"@[9] == 'c');
        },
        LogKind::MetadataCreated => {
            reveal_strlit("metadata_created");
            assert("metadata_created"@.len() == 16 && "metadata_created"@[3] == 'a' && "metadata_created"@[9] == 'c');
        },
        LogKind::MultipleMainPdfCandidates => {
            reveal_strlit("multiple_main_pdf_candidates");
            assert("multiple_main_pdf_candidates"@.len() == 28 && "multiple_main_pdf_candidates"@[3] == 't' && "multiple_main_pdf_candidates"@[9] == 'm');
        },
        LogKind::CatCopyReplacedByLink => {
            reveal_strlit("cat_copy_replaced_by_link");
            assert("cat_copy_replaced_by_link"@.len() == 25 && "cat_copy_replaced_by_link"@[3] == '_' && "cat_copy_replaced_by_link"@[9] == 'r');
        },
        LogKind::CatLinkDeleted => {
            reveal_strlit("cat_link_deleted");
            assert("cat_link_deleted"@.len() == 16 && "cat_link_deleted"@[3] == '_' && "cat_link_deleted"@[9] == 'd');
        },
        LogKind::CategoryRenamed => {
            reveal_strlit("category_renamed");
            assert("category_renamed"@.len() == 16 && "category_renamed"@[3] == 'e' && "category_renamed"@[9] == 'r');
        },
        LogKind::CategoryMerged => {
            reveal_strlit("category_merged");
            assert("category_merged"@.len() == 15 && "category_merged"@[3] == 'e' && "category_merged"@[9] == 'm');
        },
        LogKind::ItemDeleted => {
            reveal_strlit("item_deleted");
            assert("item_deleted"@.len() == 12 && "item_deleted"@[3] == 'm' && "item_deleted"@[9] == 't');
        },
    }
}

/// Different kinds have different names, so a log line's kind can be read
/// back from its text.
pub proof fn law_log_kind_names_distinct(a: LogKind, b: LogKind)
    ensures
        log_kind_name(a) == log_kind_name(b) ==> a == b,
{
    lemma_log_kind_key(a);
    lemma_log_kind_key(b);
    if log_kind_name(a) == log_kind_name(b) {
        assert(name_key(log_kind_name(a)) == name_key(log_kind_name(b)));
    }
}

impl LogKind {
    /// Return the canonical `snake_case` string for this kind.
    pub fn as_str(self) -> (r: &'static str)
        ensures
            r@ == log_kind_name(self),
    {
        match self {
            LogKind::ImportStarted => "import_started",
            LogKind::ImportFinished => "import_finished",
            LogKind::ImportFailed => "import_failed",
            LogKind::ItemRegistered => "item_registered",
            LogKind::MetadataWritten => "metadata_written",
            LogKind::ScanStarted => "scan_started",
            LogKind::ScanFinished => "scan_finished",
            LogKind::PauseChanged => "pause_changed",
            LogKind::WriteConflict => "write_conflict",
            LogKind::AutoClassifiedOnImport => "auto_classified_on_import",
            LogKind::CatLinkCreated => "cat_link_created",
            LogKind::CategoryCreated => "category_created",
            LogKind::MetadataCreated => "metadata_created",
            LogKind::MultipleMainPdfCandidates => "multiple_main_pdf_candidates",
            LogKind::CatCopyReplacedByLink => "cat_copy_replaced_by_link",
            LogKind::CatLinkDeleted => "cat_link_deleted",
            LogKind::CategoryRenamed => "category_renamed",
            LogKind::CategoryMerged => "category_merged",
            LogKind::ItemDeleted => "item_deleted",
        }
    }
}

/// Event kind vocabulary of the durable daemon event log.
#[derive(Clone, Copy, Debug, PartialEq, Eq)]
pub enum EventKind {
    ImportStarted,
    ImportFinished,
    ImportFailed,
    ItemRegistered,
    MetadataWritten,
    ScanStarted,
    ScanFinished,
    PauseChanged,
    WriteConflict,
    AutoClassifiedOnImport,
    CatLinkCreated,
    CategoryCreated,
    ImportPendingUserConfirmation,
    ImportCancelled,
    MetadataCreated,
    MultipleMainPdfCandidates,
    CatCopyReplacedByLink,
    CatLinkDeleted,
    CategoryRenamed,
    CategoryMerged,
}

/// Durable daemon event written to `.localref/logs/events.jsonl`.
#[derive(Clone, Debug, PartialEq, Eq)]
pub struct Event {
    /// Monotonic event id inside the event log file.
    pub id: u64,
    /// Event kind.
    pub kind: EventKind,
    /// Human-readable event message.
    pub message: String,
    /// Related item id, when known.
    pub item_id: Option<String>,
    /// Related library-relative path, when known.
    pub path: Option<String>,
}

impl Event {
    /// Construct one event log record.
    pub fn new(
        id: u64,
        kind: EventKind,
        message: String,
        item_id: Option<String>,
        path: Option<String>,
    ) -> (r: Event)
        ensures
            r == (Event { id, kind, message, item_id, path }),
    {
        Event { id, kind, message, item_id, path }
    }
}

/// The durable event log of one library.
#[derive(Clone, Debug)]
pub struct EventLog {
    path: String,
}

impl View for EventLog {
    type V = Seq<char>;

    closed spec fn view(&self) -> Seq<char> {
        self.path@
    }
}

/// The id given to the next appended event: one past the last event's id,
/// or 1 for an empty log.
pub open spec fn next_id_after(events: Seq<Event>) -> int {
    if events.len() == 0 {
        1
    } else {
        events.last().id + 1
    }
}

impl EventLog {
    /// The event log of a library: `.localref/logs/events.jsonl`.
    pub fn new(library_root: &str) -> (r: EventLog)
        ensures
            r@ == join_path(
                join_path(join_path(library_root@, ".localref"@), "logs"@),
                "events.jsonl"@,
            ),
    {
        let state = join(library_root, ".localref");
        let logs = join(state.as_str(), "logs");
        EventLog { path: join(logs.as_str(), "events.jsonl") }
    }

    /// Path of the log file.
    pub fn path(&self) -> (r: &str)
        ensures
            r@ == self@,
    {
        self.path.as_str()
    }

    /// The id of the next event given the events already in the log; `None`
    /// when the last id leaves no room.
    pub fn next_event_id(events: &Vec<Event>) -> (r: Option<u64>)
        ensures
            match r {
                Some(id) => id == next_id_after(events@),
                None => next_id_after(events@) > u64::MAX,
            },
    {
        if events.len() == 0 {
            Some(1)
        } else {
            events[events.len() - 1].id.checked_add(1)
        }
    }

    /// Build the next event record to append to a log that holds `events`.
    pub fn next_event(
        events: &Vec<Event>,
        kind: EventKind,
        message: &str,
        item_id: Option<String>,
        path: Option<String>,
    ) -> (r: Option<Event>)
        ensures
            match r {
                Some(e) => e.id == next_id_after(events@) && e.kind == kind && e.message@
                    == message@ && e.item_id == item_id && e.path == path,
                None => next_id_after(events@) > u64::MAX,
            },
    {
        match EventLog::next_event_id(events) {
            Some(id) => Some(Event::new(id, kind, owned(message), item_id, path)),
            None => None,
        }
    }
}

} // verus!
