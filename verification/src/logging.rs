//! In-memory log ring buffer, log entry shape and the pure parts of log
//! record assembly (field routing, quote stripping, rotation names).

use vstd::prelude::*;
use crate::text::{chars_of, concat2, decimal, decimal_string, owned, push_char, push_str, str_eq, string_of, slice_range};

verus! {

/// One log entry returned by the ring buffer and REST API.
#[derive(Clone, Debug, PartialEq, Eq)]
pub struct LogEntry {
    /// Monotonic entry id.
    pub id: u64,
    /// RFC 3339 timestamp with millisecond precision.
    pub ts: String,
    /// Log level: TRACE, DEBUG, INFO, WARN, or ERROR.
    pub level: String,
    /// Module path that emitted the record.
    pub target: String,
    /// Human-readable log message.
    pub message: String,
    /// Optional stable event kind identifier.
    pub event_kind: Option<String>,
    /// Optional related item identifier.
    pub item_id: Option<String>,
    /// Optional library-relative path.
    pub path: Option<String>,
}

fn copy_opt(o: &Option<String>) -> (r: Option<String>)
    ensures
        r == *o,
{
    match o {
        Some(s) => Some(s.clone()),
        None => None,
    }
}

impl LogEntry {
    /// A duplicate of this entry, equal to it.
    pub fn duplicate(&self) -> (r: LogEntry)
        ensures
            r == *self,
    {
        LogEntry {
            id: self.id,
            ts: self.ts.clone(),
            level: self.level.clone(),
            target: self.target.clone(),
            message: self.message.clone(),
            event_kind: copy_opt(&self.event_kind),
            item_id: copy_opt(&self.item_id),
            path: copy_opt(&self.path),
        }
    }
}

/// Fixed-capacity ring buffer of recent [`LogEntry`] values: when full, the
/// oldest entry is evicted.
#[derive(Clone, Debug)]
pub struct LogRingBuffer {
    entries: Vec<LogEntry>,
    capacity: usize,
    next_id: u64,
}

/// Entries after pushing `e` into a buffer of capacity `cap` holding `s`.
pub open spec fn pushed(s: Seq<LogEntry>, cap: nat, e: LogEntry) -> Seq<LogEntry> {
    if s.len() >= cap {
        s.skip(1).push(e)
    } else {
        s.push(e)
    }
}

impl LogRingBuffer {
    /// Buffered entries, oldest first.
    pub closed spec fn spec_entries(&self) -> Seq<LogEntry> {
        self.entries@
    }

    /// Maximum number of entries kept.
    pub closed spec fn spec_capacity(&self) -> nat {
        self.capacity as nat
    }

    /// Id the next call of [`Self::next_id`] returns.
    pub closed spec fn spec_next_id(&self) -> u64 {
        self.next_id
    }

    /// The buffer never holds more entries than its capacity allows
    /// (a buffer of capacity zero stays empty).
    pub open spec fn wf(&self) -> bool {
        self.spec_entries().len() <= self.spec_capacity()
    }

    /// Create a ring buffer that holds at most `capacity` entries.
    pub fn new(capacity: usize) -> (r: LogRingBuffer)
        ensures
            r.wf(),
            r.spec_entries().len() == 0,
            r.spec_capacity() == capacity,
            r.spec_next_id() == 1,
    {
        LogRingBuffer { entries: Vec::new(), capacity, next_id: 1 }
    }

    /// Append one entry, evicting the oldest if the buffer is full.
    pub fn push(&mut self, entry: LogEntry)
        requires
            old(self).wf(),
            old(self).spec_capacity() > 0,
        ensures
            final(self).wf(),
            final(self).spec_entries() == pushed(
                old(self).spec_entries(),
                old(self).spec_capacity(),
                entry,
            ),
            final(self).spec_capacity() == old(self).spec_capacity(),
            final(self).spec_next_id() == old(self).spec_next_id(),
    {
        if self.entries.len() >= self.capacity {
            let _ = self.entries.remove(0);
        }
        self.entries.push(entry);
        proof {
            if old(self).entries@.len() >= old(self).capacity {
                assert(self.entries@ =~= old(self).entries@.skip(1).push(entry));
            }
        }
    }

    /// Return a snapshot of all buffered entries (oldest first).
    pub fn entries(&self) -> (r: Vec<LogEntry>)
        ensures
            r@ == self.spec_entries(),
    {
        let mut out: Vec<LogEntry> = Vec::new();
        let mut i: usize = 0;
        while i < self.entries.len()
            invariant
                i <= self.entries@.len(),
                out@ == self.entries@.take(i as int),
            decreases self.entries@.len() - i,
        {
            out.push(self.entries[i].duplicate());
            proof {
                assert(self.entries@.take(i + 1) == self.entries@.take(i as int).push(
                    self.entries@[i as int],
                ));
            }
            i = i + 1;
        }
        proof {
            assert(self.entries@.take(self.entries@.len() as int) == self.entries@);
        }
        out
    }

    /// Allocate the next monotonic entry id.
    pub fn next_id(&mut self) -> (r: u64)
        requires
            old(self).spec_next_id() < u64::MAX,
        ensures
            r == old(self).spec_next_id(),
            final(self).spec_next_id() == old(self).spec_next_id() + 1,
            final(self).spec_entries() == old(self).spec_entries(),
            final(self).spec_capacity() == old(self).spec_capacity(),
            final(self).wf() == old(self).wf(),
    {
        let id = self.next_id;
        self.next_id = self.next_id + 1;
        id
    }
}

/// The buffer keeps exactly the most recent entries: after a push the new
/// entry is last, the size stays within capacity, and every earlier entry
/// that is kept keeps its relative order.
pub proof fn law_ring_buffer_keeps_latest(s: Seq<LogEntry>, cap: nat, e: LogEntry)
    requires
        s.len() <= cap,
        cap > 0,
    ensures
        pushed(s, cap, e).len() <= cap,
        pushed(s, cap, e).last() == e,
        pushed(s, cap, e).len() == (if s.len() == cap { cap } else { s.len() + 1 }),
        forall|i: int|
            0 <= i < pushed(s, cap, e).len() - 1 ==> #[trigger] pushed(s, cap, e)[i] == s[i
                + s.len() + 1 - pushed(s, cap, e).len()],
{
}

/// Entries after pushing each of `es` in turn.
pub open spec fn pushed_all(s: Seq<LogEntry>, cap: nat, es: Seq<LogEntry>) -> Seq<LogEntry>
    decreases es.len(),
{
    if es.len() == 0 {
        s
    } else {
        pushed(pushed_all(s, cap, es.drop_last()), cap, es.last())
    }
}

/// The last `cap` entries of `s` (all of them when there are fewer).
pub open spec fn latest(s: Seq<LogEntry>, cap: nat) -> Seq<LogEntry> {
    if s.len() <= cap {
        s
    } else {
        s.skip(s.len() - cap)
    }
}

/// Over any run of pushes, a buffer of capacity `cap` that held at most
/// `cap` entries holds the last `cap` of its old entries followed by the
/// pushed ones, oldest first; from an empty buffer, the last `cap` pushed.
pub proof fn law_ring_buffer_keeps_latest_run(s: Seq<LogEntry>, cap: nat, es: Seq<LogEntry>)
    requires
        s.len() <= cap,
        cap > 0,
    ensures
        pushed_all(s, cap, es) == latest(s + es, cap),
        pushed_all(Seq::empty(), cap, es) == latest(es, cap),
        pushed_all(s, cap, es).len() <= cap,
    decreases es.len(),
{
    if es.len() > 0 {
        let init = es.drop_last();
        law_ring_buffer_keeps_latest_run(s, cap, init);
        let prev = pushed_all(s, cap, init);
        let all = s + es;
        assert(all =~= (s + init).push(es.last()));
        if prev.len() >= cap {
            assert(pushed(prev, cap, es.last()) =~= latest(all, cap));
        } else {
            assert(pushed(prev, cap, es.last()) =~= latest(all, cap));
        }
        assert(Seq::<LogEntry>::empty() + es =~= es);
        law_ring_buffer_keeps_latest_run(Seq::empty(), cap, init);
        let prev0 = pushed_all(Seq::empty(), cap, init);
        assert(Seq::<LogEntry>::empty() + init =~= init);
        assert(pushed(prev0, cap, es.last()) =~= latest(es, cap));
    } else {
        assert(s + es =~= s);
        assert(Seq::<LogEntry>::empty() + es =~= es);
    }
}

/// `Some(value)` unless the value is empty.
pub fn non_empty(value: String) -> (r: Option<String>)
    ensures
        match r {
            Some(v) => v@ == value@ && value@.len() > 0,
            None => value@.len() == 0,
        },
{
    if value.as_str().is_empty() {
        None
    } else {
        Some(value)
    }
}

/// The text without one pair of surrounding double quotes, when it has them.
pub open spec fn unquoted(s: Seq<char>) -> Seq<char> {
    if s.len() >= 2 && s[0] == '"' && s.last() == '"' {
        s.subrange(1, s.len() - 1)
    } else {
        s
    }
}

/// Remove the double quotes that `Debug` formatting puts around strings.
pub fn strip_debug_quotes(value: &str) -> (r: String)
    ensures
        r@ == unquoted(value@),
{
    let v = chars_of(value);
    if v.len() >= 2 && v[0] == '"' && v[v.len() - 1] == '"' {
        let inner = slice_range(&v, 1, v.len() - 1);
        string_of(&inner)
    } else {
        string_of(&v)
    }
}

/// Structured fields collected from one log event.
#[derive(Clone, Debug, Default, PartialEq, Eq)]
pub struct LogFieldVisitor {
    /// Log message.
    pub message: String,
    /// Event kind, when a non-empty one was recorded.
    pub event_kind: Option<String>,
    /// Related item id, when a non-empty one was recorded.
    pub item_id: Option<String>,
    /// Related path, when a non-empty one was recorded.
    pub path: Option<String>,
    /// Runtime target override.
    pub dyn_target: Option<String>,
}

/// Optional field value as recorded: empty text is absent.
pub open spec fn recorded(v: Seq<char>) -> Option<Seq<char>> {
    if v.len() == 0 {
        None
    } else {
        Some(v)
    }
}

/// View of an optional string.
pub open spec fn ov(o: Option<String>) -> Option<Seq<char>> {
    match o {
        Some(s) => Some(s@),
        None => None,
    }
}

impl LogFieldVisitor {
    /// Record a field given in its `Debug` rendering: quotes are stripped;
    /// the message field (named `message` or unnamed) takes the text, the
    /// known optional fields take it when non-empty, others are ignored.
    pub fn record_debug(&mut self, field: &str, display: &str)
        ensures
            ({
                let cleaned = unquoted(display@);
                if field@ == "message"@ || field@.len() == 0 {
                    final(self).message@ == cleaned && final(self).event_kind == old(self).event_kind
                        && final(self).item_id == old(self).item_id && final(self).path == old(
                        self,
                    ).path && final(self).dyn_target == old(self).dyn_target
                } else {
                    final(self).message == old(self).message && ov(final(self).event_kind) == (if field@
                        == "event_kind"@ {
                        recorded(cleaned)
                    } else {
                        ov(old(self).event_kind)
                    }) && ov(final(self).item_id) == (if field@ == "item_id"@ {
                        recorded(cleaned)
                    } else {
                        ov(old(self).item_id)
                    }) && ov(final(self).path) == (if field@ == "path"@ {
                        recorded(cleaned)
                    } else {
                        ov(old(self).path)
                    }) && ov(final(self).dyn_target) == (if field@ == "dyn_target"@ {
                        recorded(cleaned)
                    } else {
                        ov(old(self).dyn_target)
                    })
                }
            }),
    {
        let cleaned = strip_debug_quotes(display);
        if str_eq(field, "message") || field.is_empty() {
            self.message = cleaned;
        } else {
            self.record_optional(field, cleaned);
        }
    }

    /// Record a field given as a plain string: only the known optional
    /// fields are taken (when non-empty); the message is not set this way.
    pub fn record_str(&mut self, field: &str, value: &str)
        ensures
            final(self).message == old(self).message,
            ov(final(self).event_kind) == (if field@ == "event_kind"@ {
                recorded(value@)
            } else {
                ov(old(self).event_kind)
            }),
            ov(final(self).item_id) == (if field@ == "item_id"@ {
                recorded(value@)
            } else {
                ov(old(self).item_id)
            }),
            ov(final(self).path) == (if field@ == "path"@ {
                recorded(value@)
            } else {
                ov(old(self).path)
            }),
            ov(final(self).dyn_target) == (if field@ == "dyn_target"@ {
                recorded(value@)
            } else {
                ov(old(self).dyn_target)
            }),
    {
        self.record_optional(field, owned(value));
    }

    fn record_optional(&mut self, field: &str, value: String)
        ensures
            final(self).message == old(self).message,
            ov(final(self).event_kind) == (if field@ == "event_kind"@ {
                recorded(value@)
            } else {
                ov(old(self).event_kind)
            }),
            ov(final(self).item_id) == (if field@ == "item_id"@ {
                recorded(value@)
            } else {
                ov(old(self).item_id)
            }),
            ov(final(self).path) == (if field@ == "path"@ {
                recorded(value@)
            } else {
                ov(old(self).path)
            }),
            ov(final(self).dyn_target) == (if field@ == "dyn_target"@ {
                recorded(value@)
            } else {
                ov(old(self).dyn_target)
            }),
    {
        proof {
            reveal_strlit("event_kind");
            reveal_strlit("item_id");
            reveal_strlit("path");
            reveal_strlit("dyn_target");
            assert("event_kind"@.len() == 10);
            assert("item_id"@.len() == 7);
            assert("path"@.len() == 4);
            assert("dyn_target"@.len() == 10);
            assert("event_kind"@[0] != "dyn_target"@[0]);
        }
        if str_eq(field, "event_kind") {
            self.event_kind = non_empty(value);
        } else if str_eq(field, "item_id") {
            self.item_id = non_empty(value);
        } else if str_eq(field, "path") {
            self.path = non_empty(value);
        } else if str_eq(field, "dyn_target") {
            self.dyn_target = non_empty(value);
        }
    }
}

/// Numbered backup path of a rotated log file: `<path>.<index>`.
pub open spec fn rotated(path: Seq<char>, index: nat) -> Seq<char> {
    path + seq!['.'] + decimal(index)
}

/// Return the numbered backup path for `path` and `index`.
pub fn rotated_path(path: &str, index: u64) -> (r: String)
    ensures
        r@ == rotated(path@, index as nat),
{
    let mut out = owned(path);
    push_char(&mut out, '.');
    push_str(&mut out, decimal_string(index).as_str());
    out
}


/// Whether a write of `incoming` bytes starts a new log file first: the
/// active file holds something and the write would take it past the limit
/// (sizes saturate at `u64::MAX`).
pub fn needs_rotation(current_len: u64, incoming: u64, max_bytes: u64) -> (r: bool)
    ensures
        r == (current_len > 0 && (if current_len + incoming > u64::MAX {
            u64::MAX as int
        } else {
            current_len + incoming
        }) > max_bytes),
{
    current_len > 0 && current_len.saturating_add(incoming) > max_bytes
}

/// One filesystem step of a log rotation; each applies only when its
/// source exists.
#[derive(Clone, Debug, PartialEq, Eq)]
pub enum RotationStep {
    /// Delete the file.
    Remove(String),
    /// Rename `from` to `to`.
    Rename { from: String, to: String },
}

/// Plain form of a rotation step.
pub enum StepView {
    Remove(Seq<char>),
    Rename(Seq<char>, Seq<char>),
}

/// Plain form of a rotation step.
pub open spec fn step_view(s: RotationStep) -> StepView {
    match s {
        RotationStep::Remove(p) => StepView::Remove(p@),
        RotationStep::Rename { from, to } => StepView::Rename(from@, to@),
    }
}

/// The steps of rotating the log at `path` keeping `n` backups: with none
/// kept the active file is deleted; otherwise the oldest backup is deleted,
/// every other backup moves one number up (highest first), and the active
/// file becomes backup 1.
pub open spec fn rotation_step(path: Seq<char>, n: nat, k: int) -> StepView {
    if n == 0 {
        StepView::Remove(path)
    } else if k == 0 {
        StepView::Remove(rotated(path, n))
    } else if k < n {
        StepView::Rename(rotated(path, (n - k) as nat), rotated(path, (n - k + 1) as nat))
    } else {
        StepView::Rename(path, rotated(path, 1))
    }
}

/// Plan the rotation of the log at `path` keeping `backup_count` backups
/// (see [`rotation_step`]).
pub fn rotation_plan(path: &str, backup_count: u64) -> (r: Vec<RotationStep>)
    requires
        backup_count < u64::MAX,
    ensures
        r@.len() == (if backup_count == 0 {
            1
        } else {
            backup_count + 1
        }),
        forall|k: int|
            0 <= k < r@.len() ==> step_view(#[trigger] r@[k]) == rotation_step(
                path@,
                backup_count as nat,
                k,
            ),
{
    let mut steps: Vec<RotationStep> = Vec::new();
    if backup_count == 0 {
        steps.push(RotationStep::Remove(owned(path)));
        return steps;
    }
    steps.push(RotationStep::Remove(rotated_path(path, backup_count)));
    let mut index: u64 = backup_count - 1;
    while index >= 1
        invariant
            0 <= index < backup_count,
            steps@.len() == backup_count - index,
            forall|k: int|
                0 <= k < steps@.len() ==> step_view(#[trigger] steps@[k]) == rotation_step(
                    path@,
                    backup_count as nat,
                    k,
                ),
        decreases index,
    {
        steps.push(
            RotationStep::Rename {
                from: rotated_path(path, index),
                to: rotated_path(path, index + 1),
            },
        );
        index = index - 1;
    }
    steps.push(RotationStep::Rename { from: owned(path), to: rotated_path(path, 1) });
    steps
}

/// The file a rotation step removes or moves away.
pub open spec fn step_source(s: StepView) -> Seq<char> {
    match s {
        StepView::Remove(p) => p,
        StepView::Rename(from, _) => from,
    }
}

/// A rotation keeping `n > 0` backups moves every file one place up: each
/// rename's target is the file the step before removed or moved away, so no
/// rename overwrites a file that is still to be kept, and the active file
/// ends as backup 1.
pub proof fn law_rotation_never_overwrites(path: Seq<char>, n: nat)
    requires
        n > 0,
    ensures
        forall|k: int|
            0 < k <= n ==> (#[trigger] rotation_step(path, n, k) matches StepView::Rename(_, to)
                && to == step_source(rotation_step(path, n, k - 1))),
        rotation_step(path, n, n as int) == StepView::Rename(path, rotated(path, 1)),
{
}

} // verus!
