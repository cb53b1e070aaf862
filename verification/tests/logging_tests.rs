use localref::logging::{needs_rotation, rotation_plan, RotationStep};
use localref::logging::{rotated_path, strip_debug_quotes, LogEntry, LogFieldVisitor, LogRingBuffer};

fn entry(id: u64) -> LogEntry {
    LogEntry {
        id,
        ts: String::new(),
        level: "INFO".to_string(),
        target: "test".to_string(),
        message: format!("entry {id}"),
        event_kind: None,
        item_id: None,
        path: None,
    }
}

#[test]
fn ring_buffer_evicts_oldest_when_full() {
    let mut buffer = LogRingBuffer::new(3);
    for i in 1..=5 {
        buffer.push(entry(i));
    }
    let entries = buffer.entries();
    assert_eq!(entries.len(), 3);
    assert_eq!(entries[0].id, 3);
    assert_eq!(entries[2].id, 5);
}

#[test]
fn ring_buffer_next_id_is_monotonic() {
    let mut buffer = LogRingBuffer::new(10);
    assert_eq!(buffer.next_id(), 1);
    assert_eq!(buffer.next_id(), 2);
    assert_eq!(buffer.next_id(), 3);
}

#[test]
fn strip_debug_quotes_handles_strings_and_numbers() {
    assert_eq!(strip_debug_quotes("\"hello\""), "hello");
    assert_eq!(strip_debug_quotes("42"), "42");
    assert_eq!(strip_debug_quotes("\"a\""), "a");
    assert_eq!(strip_debug_quotes(""), "");
}

#[test]
fn ring_buffer_keeps_entries_in_arrival_order_below_capacity() {
    let mut buffer = LogRingBuffer::new(4);
    buffer.push(entry(7));
    buffer.push(entry(8));
    let entries = buffer.entries();
    assert_eq!(entries.len(), 2);
    assert_eq!(entries[0].id, 7);
    assert_eq!(entries[1].id, 8);
    assert_eq!(entries[1].message, "entry 8");
}

#[test]
fn strip_debug_quotes_keeps_a_lone_quote() {
    assert_eq!(strip_debug_quotes("\""), "\"");
    assert_eq!(strip_debug_quotes("\"open"), "\"open");
}

#[test]
fn rotated_path_appends_the_backup_index() {
    assert_eq!(rotated_path("logs/localref.jsonl", 1), "logs/localref.jsonl.1");
    assert_eq!(rotated_path("logs/localref.jsonl", 12), "logs/localref.jsonl.12");
}

#[test]
fn field_visitor_routes_known_fields() {
    let mut visitor = LogFieldVisitor::default();
    visitor.record_debug("message", "\"hello\"");
    visitor.record_str("event_kind", "write_conflict");
    visitor.record_str("item_id", "");
    visitor.record_debug("path", "\"All/Paper\"");
    visitor.record_str("dyn_target", "localref::plugin::x");
    visitor.record_str("other", "ignored");
    assert_eq!(visitor.message, "hello");
    assert_eq!(visitor.event_kind.as_deref(), Some("write_conflict"));
    assert_eq!(visitor.item_id, None);
    assert_eq!(visitor.path.as_deref(), Some("All/Paper"));
    assert_eq!(visitor.dyn_target.as_deref(), Some("localref::plugin::x"));
}

#[test]
fn rotation_starts_only_when_the_file_would_overflow() {
    assert!(!needs_rotation(0, 100, 10));
    assert!(!needs_rotation(5, 5, 10));
    assert!(needs_rotation(6, 5, 10));
    assert!(needs_rotation(u64::MAX - 1, 5, 10));
}

#[test]
fn rotation_plan_shifts_backups_highest_first() {
    let rename = |from: &str, to: &str| RotationStep::Rename { from: from.to_string(), to: to.to_string() };
    assert_eq!(
        rotation_plan("l.jsonl", 2),
        vec![
            RotationStep::Remove("l.jsonl.2".to_string()),
            rename("l.jsonl.1", "l.jsonl.2"),
            rename("l.jsonl", "l.jsonl.1"),
        ]
    );
    assert_eq!(rotation_plan("l.jsonl", 0), vec![RotationStep::Remove("l.jsonl".to_string())]);
    assert_eq!(rotation_plan("l.jsonl", 1), vec![RotationStep::Remove("l.jsonl.1".to_string()), rename("l.jsonl", "l.jsonl.1")]);
}
