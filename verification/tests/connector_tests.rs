use localref::connector::{
    connector_attachment_from_upload, connector_item_from_value, extension_for_attachment,
    filename_with_type_extension, item_title, strip_html_like_text, truncate_title, SaveItemsRequest,
};
use localref::json::{get_str, JsonValue};

fn obj(pairs: &[(&str, &str)]) -> JsonValue {
    JsonValue::object(
        pairs.iter().map(|(k, v)| (k.to_string(), JsonValue::Str(v.to_string()))).collect(),
    )
}

fn request(session: &str) -> SaveItemsRequest {
    SaveItemsRequest {
        session_id: Some(session.to_string()),
        uri: None,
        proxy: None,
        items: Vec::new(),
        single_file: None,
    }
}

const KNOWN_ZOTERO_ITEM_TYPES: &[&str] = &[
    "annotation",
    "artwork",
    "attachment",
    "audioRecording",
    "bill",
    "blogPost",
    "book",
    "bookSection",
    "case",
    "computerProgram",
    "conferencePaper",
    "dataset",
    "dictionaryEntry",
    "document",
    "email",
    "encyclopediaArticle",
    "film",
    "forumPost",
    "hearing",
    "instantMessage",
    "interview",
    "journalArticle",
    "letter",
    "magazineArticle",
    "manuscript",
    "map",
    "newspaperArticle",
    "note",
    "patent",
    "podcast",
    "preprint",
    "presentation",
    "radioBroadcast",
    "report",
    "standard",
    "statute",
    "thesis",
    "tvBroadcast",
    "videoRecording",
    "webpage",
];

#[test]
fn filename_extension_inference_does_not_duplicate_existing_extension() {
    assert_eq!(filename_with_type_extension("paper.pdf", Some("application/pdf"), None), "paper.pdf");
    assert_eq!(filename_with_type_extension("snapshot", None, Some("snapshot")), "snapshot.html");
}

#[test]
fn connector_items_accept_all_known_zotero_item_types() {
    let request = request("session-all-types");
    for item_type in KNOWN_ZOTERO_ITEM_TYPES {
        let item = obj(&[("id", item_type), ("itemType", item_type)]);
        let normalized = connector_item_from_value(&request, &item).unwrap();
        assert_eq!(normalized.item_type.as_deref(), Some(*item_type));
        assert!(!normalized.title.trim().is_empty());
    }
}

#[test]
fn connector_item_title_uses_type_specific_fields() {
    let request = request("session-specific-title");
    let cases = [
        (obj(&[("itemType", "case"), ("caseName", "Smith v. Jones")]), "Smith v. Jones"),
        (obj(&[("itemType", "email"), ("subject", "Archive request")]), "Archive request"),
        (obj(&[("itemType", "bill"), ("billNumber", "HB 123")]), "HB 123"),
        (obj(&[("itemType", "patent"), ("patentNumber", "US123")]), "US123"),
        (obj(&[("itemType", "statute"), ("nameOfAct", "Example Act")]), "Example Act"),
    ];
    for (item, expected_title) in cases {
        let normalized = connector_item_from_value(&request, &item).unwrap();
        assert_eq!(normalized.title, expected_title);
    }
}

#[test]
fn connector_item_title_uses_note_text_when_title_is_absent() {
    let request = request("session-note-title");
    let item = obj(&[
        ("id", "note-1"),
        ("itemType", "note"),
        ("note", "<p>Important note <b>with HTML</b></p>"),
    ]);
    let normalized = connector_item_from_value(&request, &item).unwrap();
    assert_eq!(normalized.title, "Important note with HTML");
    assert_eq!(get_str(&normalized.raw, "note"), Some("<p>Important note <b>with HTML</b></p>"));
}

#[test]
fn connector_item_keeps_session_and_identifiers() {
    let mut request = request("s-9");
    request.uri = Some("https://example.org/paper".to_string());
    let item = obj(&[
        ("id", "abc123"),
        ("itemType", "journalArticle"),
        ("title", "  A Title  "),
        ("DOI", "10.1/x"),
        ("abstractNote", "An abstract"),
    ]);
    let normalized = connector_item_from_value(&request, &item).unwrap();
    assert_eq!(normalized.session_id.as_deref(), Some("s-9"));
    assert_eq!(normalized.uri.as_deref(), Some("https://example.org/paper"));
    assert_eq!(normalized.connector_item_id.as_deref(), Some("abc123"));
    assert_eq!(normalized.title, "  A Title  ");
    assert_eq!(normalized.doi.as_deref(), Some("10.1/x"));
    assert_eq!(normalized.abstract_note.as_deref(), Some("An abstract"));
}

#[test]
fn html_is_stripped_and_titles_truncated() {
    assert_eq!(strip_html_like_text("<p>a <i>b</i></p>"), "a b");
    let long: String = std::iter::repeat('x').take(300).collect();
    let short = truncate_title(&long);
    assert_eq!(short.chars().count(), 83);
    assert!(short.ends_with("..."));
    assert_eq!(truncate_title("short"), "short");
    assert_eq!(item_title(&obj(&[("title", "T")]), None), "T");
}

#[test]
fn attachment_extension_from_mime_or_type() {
    assert_eq!(extension_for_attachment(Some("application/pdf"), None), Some("pdf"));
    assert_eq!(extension_for_attachment(Some("text/html"), None), Some("html"));
    assert_eq!(extension_for_attachment(None, None), None);
    assert_eq!(filename_with_type_extension("paper", Some("application/pdf"), None), "paper.pdf");
}

#[test]
fn attachment_upload_requires_metadata() {
    assert!(connector_attachment_from_upload(Some("s".to_string()), None, vec![1, 2]).is_err());
    let metadata = obj(&[("title", "Paper"), ("url", "https://example.org/paper.pdf"), ("contentType", "application/pdf")]);
    let upload = connector_attachment_from_upload(Some("s".to_string()), Some(metadata), vec![1, 2]);
    match upload {
        Ok(attachment) => {
            assert_eq!(attachment.bytes, vec![1, 2]);
            assert_eq!(attachment.session_id.as_deref(), Some("s"));
        }
        Err(message) => panic!("unexpected refusal: {message}"),
    }
}
