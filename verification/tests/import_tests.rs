use localref::import::{attachment_file_name, check_patch_id, check_revision, conflict_candidate_path, indexed_categories, unique_item_dir_name, CatNormalization};
use localref::model::Metadata;
use localref::types::CategoryPath;
use localref::connector::{ConnectorImport, ConnectorItem};
use localref::error::LocalrefError;
use localref::import::{
    attachment_alternative_name, ensure_inside_all, item_file_alternative_name, manual_item_id,
    metadata_from_import, unique_item_file_name, year_from_date, ImportPipeline,
};
use localref::json::JsonValue;
use localref::types::ItemId;

fn import_with_raw(id: &str, raw: JsonValue) -> ConnectorImport {
    ConnectorImport {
        item: ConnectorItem {
            session_id: Some(format!("session-{id}")),
            uri: None,
            connector_item_id: Some(id.to_string()),
            item_type: Some("journalArticle".to_string()),
            title: "Paper".to_string(),
            abstract_note: None,
            doi: None,
            raw,
        },
        attachments: Vec::new(),
    }
}

fn object(pairs: &[(&str, &str)]) -> JsonValue {
    JsonValue::object(pairs.iter().map(|(k, v)| (k.to_string(), JsonValue::Str(v.to_string()))).collect())
}

fn names(list: &[&str]) -> Vec<String> {
    list.iter().map(|s| s.to_string()).collect()
}

#[test]
fn import_populates_year_from_free_form_date() {
    let import = import_with_raw("paper-year", object(&[("title", "Paper"), ("date", "March 2021")]));
    let id = ItemId::new("lr:zotero:paper-year").unwrap();
    let metadata = metadata_from_import(&id, &import, &Vec::new(), &Vec::new(), "{}");
    assert_eq!(metadata.year, Some(2021));
}

#[test]
fn import_leaves_year_none_without_a_date() {
    let import = import_with_raw("paper-no-year", object(&[("title", "Paper")]));
    let id = ItemId::new("lr:zotero:paper-no-year").unwrap();
    let metadata = metadata_from_import(&id, &import, &Vec::new(), &Vec::new(), "{}");
    assert_eq!(metadata.year, None);
}

#[test]
fn year_is_the_first_four_digit_run() {
    assert_eq!(year_from_date("2021-03-15"), Some(2021));
    assert_eq!(year_from_date("15/03/1999"), Some(1999));
    assert_eq!(year_from_date("12345 then 2020"), Some(2020));
    assert_eq!(year_from_date("no year"), None);
    assert_eq!(year_from_date("21"), None);
}

#[test]
fn connector_metadata_records_source_and_files() {
    let import = import_with_raw("p", object(&[("title", "Paper")]));
    let id = ItemId::new("lr:zotero:p").unwrap();
    let metadata = metadata_from_import(&id, &import, &Vec::new(), &Vec::new(), "{\"title\":\"Paper\"}");
    assert_eq!(metadata.id, "lr:zotero:p");
    assert_eq!(metadata.import.source, "zotero-connector");
    assert_eq!(metadata.import.session_id.as_deref(), Some("session-p"));
    assert_eq!(metadata.files.main, None);
    assert_eq!(
        metadata.raw_connector,
        vec![
            ("connector_item_id".to_string(), "p".to_string()),
            ("raw_json".to_string(), "{\"title\":\"Paper\"}".to_string()),
        ]
    );
}

#[test]
fn unique_names_skip_taken_entries() {
    assert_eq!(unique_item_file_name("paper.pdf", &names(&["other.pdf"])), "paper.pdf");
    assert_eq!(unique_item_file_name("paper.pdf", &names(&["paper.pdf"])), "paper-2.pdf");
    assert_eq!(
        unique_item_file_name("paper.pdf", &names(&["paper.pdf", "paper-2.pdf", "paper-3.pdf"])),
        "paper-4.pdf"
    );
    assert_eq!(unique_item_file_name("notes", &names(&["notes"])), "notes-2");
}

#[test]
fn alternative_names() {
    assert_eq!(item_file_alternative_name("paper.pdf", 2), "paper-2.pdf");
    assert_eq!(attachment_alternative_name("paper.pdf", 3), "paper (3).pdf");
    assert_eq!(attachment_alternative_name("README", 2), "README (2)");
}

#[test]
fn manual_ids_use_the_sanitized_title() {
    assert_eq!(manual_item_id("My: Paper").unwrap().as_str(), "lr:manual:My_ Paper");
    assert!(manual_item_id("   ").is_err());
}

#[test]
fn inside_all_check() {
    assert!(ensure_inside_all("/lib/All", "/lib/All/Paper").is_ok());
    match ensure_inside_all("/lib/All", "/lib/All") {
        Err(LocalrefError::InvalidPathComponent { component, reason }) => {
            assert_eq!(component, "/lib/All");
            assert_eq!(reason, "manual All import must target a directory under All/");
        }
        other => panic!("unexpected {other:?}"),
    }
    assert!(ensure_inside_all("/lib/All", "/lib/Allx/Paper").is_err());
    assert!(ensure_inside_all("/lib/All", "/elsewhere").is_err());
}

#[test]
fn create_metadata_for_all_directory_decisions() {
    let pipeline = ImportPipeline::new("/lib");
    assert_eq!(pipeline.fs().root(), "/lib");
    assert_eq!(pipeline.locks().dir(), "/lib/.localref/locks");
    let files = names(&["paper.pdf", "notes.txt"]);
    let (outcome, metadata) = pipeline
        .create_metadata_for_all_directory(
            "/lib/All/Paper",
            "/lib/All",
            "/lib/All/Paper",
            true,
            false,
            Some("Paper".to_string()),
            &files,
        )
        .unwrap();
    assert_eq!(outcome.item_id.as_str(), "lr:manual:Paper");
    assert_eq!(outcome.written_files, vec!["/lib/All/Paper/metadata.toml".to_string()]);
    assert!(outcome.categories.is_empty());
    assert_eq!(metadata.files.main.as_deref(), Some("paper.pdf"));
    assert_eq!(metadata.files.extra.len(), 2);
    assert_eq!(metadata.files.extra[1].mime_type.as_deref(), Some("text/plain"));
    assert_eq!(metadata.import.source, "manual-all-directory");

    let exists = pipeline.create_metadata_for_all_directory(
        "/lib/All/Paper",
        "/lib/All",
        "/lib/All/Paper",
        true,
        true,
        Some("Paper".to_string()),
        &files,
    );
    assert_eq!(
        exists.err(),
        Some(LocalrefError::Conflict("metadata already exists at /lib/All/Paper/metadata.toml".to_string()))
    );
    let not_dir = pipeline.create_metadata_for_all_directory(
        "/lib/All/Paper",
        "/lib/All",
        "/lib/All/Paper",
        false,
        false,
        Some("Paper".to_string()),
        &files,
    );
    assert_eq!(not_dir.err(), Some(LocalrefError::MissingField("All item directory".to_string())));
}

#[test]
fn two_pdfs_leave_the_main_file_open() {
    let pipeline = ImportPipeline::new("/lib");
    let id = ItemId::new("lr:manual:X").unwrap();
    let (path, metadata) =
        pipeline.write_directory_metadata(&id, "X", "/lib/All/X", &names(&["a.pdf", "b.PDF"])).unwrap();
    assert_eq!(path, "/lib/All/X/metadata.toml");
    assert_eq!(metadata.files.main, None);
    assert_eq!(metadata.files.extra.len(), 2);
}

#[test]
fn uploaded_files_are_sanitized_made_unique_and_recorded() {
    let pipeline = ImportPipeline::new("/lib");
    let id = ItemId::new("lr:manual:X").unwrap();
    let (_, metadata) = pipeline.write_directory_metadata(&id, "X", "/lib/All/X", &names(&["a.pdf"])).unwrap();
    let (target, updated) = pipeline
        .add_uploaded_file_to_item("/lib/All/X", "a.pdf", &names(&["a.pdf", "metadata.toml"]), Some(metadata))
        .unwrap();
    assert_eq!(target, "/lib/All/X/a-2.pdf");
    let updated = updated.unwrap();
    assert_eq!(updated.files.main.as_deref(), Some("a.pdf"));
    assert!(updated.files.extra.iter().any(|f| f.path == "a-2.pdf"));

    let (target, none) = pipeline.add_uploaded_file_to_item("/lib/All/X", "b?.txt", &Vec::new(), None).unwrap();
    assert_eq!(target, "/lib/All/X/b_.txt");
    assert!(none.is_none());
    assert!(pipeline.add_uploaded_file_to_item("/lib/All/X", "  ", &Vec::new(), None).is_err());
}

#[test]
fn item_directories_and_attachments_get_free_names() {
    assert_eq!(unique_item_dir_name("Paper: One", &names(&["Other"])).unwrap(), "Paper_ One");
    assert_eq!(unique_item_dir_name("Paper", &names(&["Paper", "Paper (2)"])).unwrap(), "Paper (3)");
    assert!(unique_item_dir_name("  ", &Vec::new()).is_err());
    assert_eq!(attachment_file_name("paper.pdf", &names(&["paper.pdf"])).unwrap(), "paper (2).pdf");
    assert_eq!(attachment_file_name("a|b.txt", &Vec::new()).unwrap(), "a_b.txt");
}

#[test]
fn connector_import_plans_check_title_and_fall_back_to_unmatched() {
    let pipeline = ImportPipeline::new("/lib");
    let mut import = import_with_raw("p1", object(&[("title", "Paper")]));
    let plan = pipeline.import_connector_item_with_categories(&import, Vec::new()).unwrap();
    assert_eq!(plan.item_id.as_str(), "lr:zotero:p1");
    assert_eq!(plan.categories.len(), 1);
    assert_eq!(plan.categories[0].as_str(), "unmatched");
    assert!(plan.attachments.is_empty());
    let filed = pipeline
        .import_connector_item_with_categories(&import, vec![CategoryPath::new("Inbox").unwrap()])
        .unwrap();
    assert_eq!(filed.categories[0].as_str(), "Inbox");
    import.item.title = "   ".to_string();
    assert_eq!(
        pipeline.import_connector_item_with_categories(&import, Vec::new()).err().map(|e| e.message()),
        Some("missing required connector field: item.title".to_string())
    );
}

#[test]
fn webpage_imports_get_a_source_shortcut() {
    let pipeline = ImportPipeline::new("/lib");
    let mut import = import_with_raw("w1", object(&[("title", "Page")]));
    import.item.item_type = Some("webpage".to_string());
    import.item.uri = Some("https://example.org/".to_string());
    import.item.title = "Page".to_string();
    let plan = pipeline.import_connector_item_with_categories(&import, Vec::new()).unwrap();
    assert_eq!(plan.attachments.len(), 1);
    assert_eq!(plan.attachments[0].filename, "source.url");
    let text = String::from_utf8(plan.attachments[0].bytes.clone()).unwrap();
    assert!(text.starts_with("[InternetShortcut]\r\nURL=https://example.org/\r\n"));
}

#[test]
fn file_import_plans_name_directory_after_the_stem() {
    let pipeline = ImportPipeline::new("/lib");
    let plan = pipeline.import_file(Some("report.pdf"), &names(&["report"])).unwrap();
    assert_eq!(plan.dir_name, "report (2)");
    assert_eq!(plan.file_name, "report.pdf");
    assert_eq!(plan.item_id.as_str(), "lr:manual:report (2)");
    assert_eq!(plan.metadata.files.main.as_deref(), Some("report.pdf"));
    assert_eq!(plan.metadata.files.extra[0].mime_type.as_deref(), Some("application/pdf"));
    assert_eq!(
        pipeline.import_file(None, &Vec::new()).err(),
        Some(LocalrefError::MissingField("file stem".to_string()))
    );
}

#[test]
fn cat_directories_normalize_to_existing_or_new_items() {
    let pipeline = ImportPipeline::new("/lib");
    let id = ItemId::new("lr:zotero:x").unwrap();
    let (_, metadata) = pipeline.write_directory_metadata(&id, "X", "/lib/Cat/X", &Vec::new()).unwrap();
    let document = localref::storage::document_from_metadata("/lib", "/lib/All/X", metadata.clone(), "rev".to_string());
    match pipeline.normalize_cat_directory("X", Some(&metadata), &vec![document], &names(&["X"])).unwrap() {
        CatNormalization::Existing { item_id, object_path } => {
            assert_eq!(item_id.as_str(), "lr:zotero:x");
            assert_eq!(object_path, "All/X");
        }
        other => panic!("unexpected {other:?}"),
    }
    match pipeline.normalize_cat_directory("X", Some(&metadata), &Vec::new(), &names(&["X"])).unwrap() {
        CatNormalization::New { item_id, target_name, write_metadata } => {
            assert_eq!(item_id.as_str(), "lr:zotero:x");
            assert_eq!(target_name, "X (2)");
            assert!(!write_metadata);
        }
        other => panic!("unexpected {other:?}"),
    }
    match pipeline.normalize_cat_directory("Loose", None, &Vec::new(), &Vec::new()).unwrap() {
        CatNormalization::New { item_id, target_name, write_metadata } => {
            assert_eq!(item_id.as_str(), "lr:manual:Loose");
            assert_eq!(target_name, "Loose");
            assert!(write_metadata);
        }
        other => panic!("unexpected {other:?}"),
    }
}

#[test]
fn patches_keep_ids_and_indexed_categories_must_be_valid() {
    let id = ItemId::new("lr:a").unwrap();
    let pipeline = ImportPipeline::new("/lib");
    let (_, metadata) = pipeline.write_directory_metadata(&id, "A", "/lib/All/A", &Vec::new()).unwrap();
    assert!(check_patch_id("lr:a", &metadata).is_ok());
    assert_eq!(
        check_patch_id("lr:b", &metadata),
        Err(LocalrefError::Unsupported("metadata id cannot be changed".to_string()))
    );
    assert_eq!(conflict_candidate_path("/lib/All/A"), "/lib/All/A/metadata.daemon.toml");
    let cats = indexed_categories(&names(&["Inbox", "/Wireless/RIS/"])).unwrap();
    assert_eq!(cats[1].as_str(), "Wireless/RIS");
    assert_eq!(
        indexed_categories(&names(&["Inbox", "a//b"])),
        Err(LocalrefError::InvalidPathComponent {
            component: "a//b".to_string(),
            reason: "indexed category path is invalid".to_string(),
        })
    );
}

#[test]
fn revisions_are_checked_before_writes() {
    let text = "id = \"lr:a\"\n";
    let revision = Metadata::revision_for_text(text);
    assert!(check_revision(text, &revision, "lr:a").is_ok());
    assert_eq!(
        check_revision(text, "0000000000000000", "lr:a"),
        Err(LocalrefError::Conflict("metadata revision mismatch for lr:a".to_string()))
    );
}

#[test]
fn directory_metadata_with_a_blank_title_is_refused() {
    let pipeline = ImportPipeline::new("/lib");
    let id = ItemId::new("lr:manual:X").unwrap();
    assert_eq!(
        pipeline.write_directory_metadata(&id, "   ", "/lib/All/X", &Vec::new()).err(),
        Some(LocalrefError::MissingField("metadata.title".to_string()))
    );
}

#[test]
fn checked_metadata_writes_validate_then_compare_revisions() {
    let pipeline = ImportPipeline::new("/lib");
    let id = ItemId::new("lr:a").unwrap();
    let (_, metadata) = pipeline.write_directory_metadata(&id, "A", "/lib/All/A", &Vec::new()).unwrap();
    let text = "id = \"lr:a\"\n";
    let revision = Metadata::revision_for_text(text);
    match pipeline.write_metadata_if_revision("/lib/All/A", &metadata, text, &revision).unwrap() {
        localref::import::RevisionWrite::Replace { path } => assert_eq!(path, "/lib/All/A/metadata.toml"),
        other => panic!("unexpected {other:?}"),
    }
    match pipeline.write_metadata_if_revision("/lib/All/A", &metadata, text, "0000000000000000").unwrap() {
        localref::import::RevisionWrite::Conflict { candidate_path, error } => {
            assert_eq!(candidate_path, "/lib/All/A/metadata.daemon.toml");
            assert_eq!(error, LocalrefError::Conflict("metadata revision mismatch for lr:a".to_string()));
        }
        other => panic!("unexpected {other:?}"),
    }
    let mut invalid = metadata.clone();
    invalid.categories = vec!["a//b".to_string()];
    assert_eq!(
        pipeline.write_metadata_if_revision("/lib/All/A", &invalid, text, &revision).err(),
        Some(LocalrefError::InvalidPathComponent {
            component: "a//b".to_string(),
            reason: "metadata.categories entry is not a valid category".to_string(),
        })
    );
}

#[test]
fn filing_under_a_real_category_clears_unmatched() {
    let inbox = CategoryPath::new("Inbox").unwrap();
    assert_eq!(localref::import::unmatched_to_clear(&inbox).map(|c| c.as_str().to_string()), Some("unmatched".to_string()));
    let unmatched = CategoryPath::new("unmatched").unwrap();
    assert!(localref::import::unmatched_to_clear(&unmatched).is_none());
}

#[test]
fn scan_gives_metadata_only_to_plain_directories_without_it() {
    assert!(localref::import::unmanaged_all_entry("Paper", true, false));
    assert!(!localref::import::unmanaged_all_entry(".localref", true, false));
    assert!(!localref::import::unmanaged_all_entry("Paper", true, true));
    assert!(!localref::import::unmanaged_all_entry("paper.pdf", false, false));
    assert!(!localref::import::unmanaged_all_entry("", false, false));
    assert!(localref::import::unmanaged_all_entry("a.b", true, false));
}
