use localref::connector::{ConnectorAttachment, ConnectorItem};
use localref::json::JsonValue;
use localref::sessions::{AttachmentRoute, SessionBuffer};

fn item(session_id: &str, item_id: &str) -> ConnectorItem {
    ConnectorItem {
        session_id: Some(session_id.to_string()),
        uri: None,
        connector_item_id: Some(item_id.to_string()),
        item_type: Some("journalArticle".to_string()),
        title: "Paper".to_string(),
        abstract_note: None,
        doi: None,
        raw: JsonValue::object(vec![("title".to_string(), JsonValue::Str("Paper".to_string()))]),
    }
}

fn pdf_attachment(session_id: Option<&str>, parent_item_id: Option<&str>) -> ConnectorAttachment {
    ConnectorAttachment {
        session_id: session_id.map(str::to_string),
        parent_item_id: parent_item_id.map(str::to_string),
        title: Some("Paper".to_string()),
        filename: "paper.pdf".to_string(),
        mime_type: Some("application/pdf".to_string()),
        bytes: vec![1, 2, 3, 4],
        raw_metadata: None,
    }
}

/// Buffer one save session and import it into `All/Paper`.
fn imported_session(session_id: &str, item_id: &str) -> SessionBuffer {
    let mut buffer = SessionBuffer::new();
    buffer.accept_import(Some(session_id.to_string()), vec![item(session_id, item_id)]);
    let (index, import) = buffer.next_import().expect("an import is ready");
    assert_eq!(import.item.connector_item_id.as_deref(), Some(item_id));
    buffer.record_import(index, "All/Paper".to_string());
    buffer
}

#[test]
fn late_attachment_with_matching_session_attaches_to_item() {
    let mut buffer = imported_session("s1", "paper-1");
    match buffer.route_attachment(pdf_attachment(Some("s1"), Some("paper-1"))) {
        AttachmentRoute::SaveToItem { item_dir, attachment } => {
            assert_eq!(item_dir, "All/Paper");
            assert_eq!(attachment.filename, "paper.pdf");
            assert_eq!(attachment.bytes, vec![1, 2, 3, 4]);
        }
        other => panic!("the attachment must be written into the imported item directory, got {other:?}"),
    }
}

#[test]
fn late_attachment_with_mismatched_session_is_not_stranded() {
    // Item imported under session "s1", but the attachment reports a
    // different session id; because it names a parent item, it must still
    // land on the most recent session.
    let mut buffer = imported_session("s1", "paper-1");
    match buffer.route_attachment(pdf_attachment(Some("mismatch"), Some("paper-1"))) {
        AttachmentRoute::SaveToItem { item_dir, .. } => assert_eq!(item_dir, "All/Paper"),
        other => panic!("a mismatched-session child attachment must not be stranded, got {other:?}"),
    }
}

#[test]
fn attachment_before_import_is_buffered_with_its_session() {
    let mut buffer = SessionBuffer::new();
    buffer.accept_import(Some("s2".to_string()), vec![item("s2", "paper-2")]);
    match buffer.route_attachment(pdf_attachment(Some("s2"), Some("paper-2"))) {
        AttachmentRoute::Buffered => {}
        other => panic!("expected the attachment to wait for its item, got {other:?}"),
    }
    let (_, import) = buffer.next_import().expect("an import is ready");
    assert_eq!(import.attachments.len(), 1);
}

#[test]
fn standalone_attachment_without_parent_is_imported_alone() {
    let mut buffer = SessionBuffer::new();
    match buffer.route_attachment(pdf_attachment(None, None)) {
        AttachmentRoute::Standalone(import) => assert_eq!(import.attachments.len(), 1),
        other => panic!("expected a standalone import, got {other:?}"),
    }
}

#[test]
fn completed_sessions_are_pruned_to_the_limit() {
    let mut buffer = SessionBuffer::new();
    for n in 0..20 {
        let id = format!("s{n}");
        buffer.accept_import(Some(id.clone()), vec![item(&id, &format!("p{n}"))]);
        let (index, _) = buffer.next_import().expect("ready");
        buffer.record_import(index, format!("All/P{n}"));
    }
    buffer.prune_completed_sessions();
    assert!(buffer.sessions().len() <= localref::sessions::MAX_COMPLETED_SESSIONS);
    assert_eq!(buffer.sessions().last().unwrap().outcome.as_deref(), Some("All/P19"));
}
