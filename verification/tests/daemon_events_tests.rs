use localref::daemon::{
    scan_summary, task_completion_event, DaemonEvent, DaemonTask, DaemonTaskState, PauseMode,
    StatusKind, TaskQueueState,
};
use localref::error::LocalrefError;
use localref::types::CategoryPath;

#[test]
fn event_name_matches_wire_names() {
    assert_eq!(DaemonEvent::ItemImported { item_id: String::new() }.event_name(), "item_imported");
    assert_eq!(DaemonEvent::ItemDeleted { item_id: String::new() }.event_name(), "item_deleted");
    assert_eq!(DaemonEvent::MetadataPatched { item_id: String::new() }.event_name(), "metadata_patched");
    assert_eq!(
        DaemonEvent::CategoryChanged { item_id: None, category: None }.event_name(),
        "category_changed",
    );
    assert_eq!(DaemonEvent::ScanCompleted { indexed_items: 0 }.event_name(), "scan_completed");
    assert_eq!(DaemonEvent::ItemFileAdded { item_id: String::new() }.event_name(), "item_file_added");
    assert_eq!(DaemonEvent::RulesChanged.event_name(), "rules_changed");
    assert_eq!(DaemonEvent::SchedulesChanged.event_name(), "schedules_changed");
    assert_eq!(DaemonEvent::DaemonPaused.event_name(), "daemon_paused");
    assert_eq!(DaemonEvent::DaemonResumed.event_name(), "daemon_resumed");
    assert_eq!(
        DaemonEvent::StatusMessage { text: String::new(), kind: StatusKind::Info }.event_name(),
        "status_message",
    );
}

#[test]
fn status_kind_wire_names() {
    assert_eq!(StatusKind::default(), StatusKind::Info);
    assert_eq!(StatusKind::Success.as_str(), "success");
    assert_eq!(StatusKind::parse("error"), Some(StatusKind::Error));
    assert_eq!(StatusKind::parse("warning"), None);
}

#[test]
fn a_task_runs_and_completes_with_its_event() {
    let mut queue = TaskQueueState::new();
    let (record, allowed) = queue.begin(DaemonTask::ScanAll);
    assert!(allowed.is_ok());
    assert_eq!(record.id, 1);
    let status = queue.status();
    assert!(status.running);
    assert_eq!(status.queued_tasks, 1);
    let mut done = record.clone();
    done.indexed_items = Some(3);
    let (finished, event) = queue.settle(done, Ok(()));
    assert_eq!(finished.state, DaemonTaskState::Completed);
    assert_eq!(event, Some(DaemonEvent::ScanCompleted { indexed_items: 3 }));
    let status = queue.status();
    assert!(!status.running);
    assert_eq!(status.queued_tasks, 0);
    assert_eq!(status.recent_tasks.last().unwrap().state, DaemonTaskState::Completed);
}

#[test]
fn a_failed_task_records_the_error_text() {
    let mut queue = TaskQueueState::new();
    let (record, _) = queue.begin(DaemonTask::ImportFile { path: "x.pdf".to_string() });
    let (finished, event) = queue.settle(record, Err(LocalrefError::Conflict("busy".to_string())));
    assert_eq!(finished.state, DaemonTaskState::Failed);
    assert_eq!(finished.message.as_deref(), Some("conflict: busy"));
    assert_eq!(event, None);
}

#[test]
fn pause_modes_refuse_tasks() {
    let mut queue = TaskQueueState::new();
    let (status, event) = queue.pause(PauseMode::Writes);
    assert_eq!(status.paused_modes, vec![PauseMode::Writes]);
    assert_eq!(event, DaemonEvent::DaemonPaused);
    assert_eq!(
        queue.ensure_task_allowed(&DaemonTask::ScanAll),
        Err(LocalrefError::Unsupported("indexing is paused".to_string()))
    );
    assert_eq!(
        queue.ensure_task_allowed(&DaemonTask::DeleteItem { item_id: "lr:a".to_string() }),
        Err(LocalrefError::Unsupported("writes are paused".to_string()))
    );
    queue.pause(PauseMode::All);
    assert_eq!(
        queue.ensure_task_allowed(&DaemonTask::ScanAll),
        Err(LocalrefError::Unsupported("daemon is paused".to_string()))
    );
    queue.resume(PauseMode::All);
    let (status, event) = queue.resume(PauseMode::Writes);
    assert!(status.paused_modes.is_empty());
    assert_eq!(event, DaemonEvent::DaemonResumed);
    assert!(queue.ensure_task_allowed(&DaemonTask::ScanAll).is_ok());
}

#[test]
fn category_tasks_publish_category_changes() {
    let category = CategoryPath::new("Inbox").unwrap();
    let event = task_completion_event(
        &DaemonTask::AddCategory { item_id: "lr:a".to_string(), category },
        None,
    );
    assert_eq!(
        event,
        Some(DaemonEvent::CategoryChanged {
            item_id: Some("lr:a".to_string()),
            category: Some("Inbox".to_string()),
        })
    );
    assert_eq!(task_completion_event(&DaemonTask::ImportFile { path: "x".to_string() }, None), None);
}

#[test]
fn scan_summary_text() {
    assert_eq!(
        scan_summary(12, 1, 0),
        "indexed 12 item(s), imported 1 All folder(s), normalized 0 Cat folder(s)"
    );
}
