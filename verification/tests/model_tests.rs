use localref::model::{
    Creator, Metadata, MetadataFiles, MetadataImport, MetadataState, MetadataTags,
};

fn metadata_with_creators(creators: Vec<Creator>) -> Metadata {
    Metadata {
        id: "lr:test:1".to_string(),
        item_type: "journalArticle".to_string(),
        title: "A Paper".to_string(),
        abstract_note: None,
        doi: None,
        uri: None,
        year: None,
        venue: None,
        language: None,
        creators,
        categories: Vec::new(),
        files: MetadataFiles { main: None, extra: Vec::new() },
        tags: MetadataTags { items: Vec::new() },
        import: MetadataImport::default(),
        state: MetadataState { missing_main_file: false, removed_categories: Vec::new() },
        raw_connector: Vec::new(),
        extra: Vec::new(),
    }
}

fn two_creators() -> Metadata {
    metadata_with_creators(vec![
        Creator {
            role: "editor".to_string(),
            given: None,
            family: None,
            name: Some("Near Field Group".to_string()),
        },
        Creator {
            role: "bookAuthor".to_string(),
            given: Some("Ada".to_string()),
            family: Some("Lovelace".to_string()),
            name: None,
        },
    ])
}

#[test]
fn mod_revision_is_stable_for_same_text() {
    assert_eq!(Metadata::revision_for_text("abc"), Metadata::revision_for_text("abc"));
    assert_ne!(Metadata::revision_for_text("abc"), Metadata::revision_for_text("abcd"));
}

#[test]
fn lib_revision_is_stable_for_same_text() {
    assert_eq!(Metadata::revision_for_text("abc"), Metadata::revision_for_text("abc"));
    assert_ne!(Metadata::revision_for_text("abc"), Metadata::revision_for_text("abcd"));
}

#[test]
fn mod_creator_names_prefer_single_field_and_join_structured_names() {
    let metadata = two_creators();
    assert_eq!(
        metadata.creator_names(),
        vec!["Near Field Group".to_string(), "Ada Lovelace".to_string()]
    );
    assert_eq!(metadata.author_names(), vec!["Ada Lovelace".to_string()]);
}

#[test]
fn lib_creator_names_prefer_single_field_and_join_structured_names() {
    let metadata = two_creators();
    assert_eq!(
        metadata.creator_names(),
        vec!["Near Field Group".to_string(), "Ada Lovelace".to_string()]
    );
    assert_eq!(metadata.author_names(), vec!["Ada Lovelace".to_string()]);
}

#[test]
fn revision_is_the_fnv1a_hash_in_hex() {
    assert_eq!(Metadata::revision_for_text(""), "cbf29ce484222325");
    assert_eq!(Metadata::revision_for_text("a"), "af63dc4c8601ec8c");
}

#[test]
fn validate_reports_blank_fields_and_bad_categories() {
    let mut metadata = two_creators();
    assert!(metadata.validate().is_ok());
    metadata.categories = vec!["Wireless/RIS".to_string(), "a//b".to_string()];
    assert!(metadata.validate().is_err());
    metadata.categories = Vec::new();
    metadata.title = "   ".to_string();
    match metadata.validate() {
        Err(localref::error::LocalrefError::MissingField(field)) => assert_eq!(field, "metadata.title"),
        other => panic!("unexpected {other:?}"),
    }
    metadata.id = String::new();
    match metadata.validate() {
        Err(localref::error::LocalrefError::MissingField(field)) => assert_eq!(field, "metadata.id"),
        other => panic!("unexpected {other:?}"),
    }
}

#[test]
fn display_name_falls_back_to_given_or_family() {
    let given_only = Creator {
        role: "author".to_string(),
        given: Some(" Ada ".to_string()),
        family: None,
        name: None,
    };
    assert_eq!(given_only.display_name().as_deref(), Some("Ada"));
    let nothing = Creator { role: "author".to_string(), given: None, family: None, name: Some("  ".to_string()) };
    assert_eq!(nothing.display_name(), None);
}
