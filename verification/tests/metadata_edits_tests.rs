use localref::error::LocalrefError;
use localref::model::Metadata;

fn parse(text: &str) -> toml::Table {
    toml::from_str(text).expect("edited text is valid TOML")
}

fn strings(table: &toml::Table, key: &str) -> Vec<String> {
    match table.get(key) {
        Some(toml::Value::Array(values)) => values
            .iter()
            .map(|v| v.as_str().expect("string entry").to_string())
            .collect(),
        Some(other) => panic!("{key} is not an array: {other:?}"),
        None => Vec::new(),
    }
}

fn categories(text: &str) -> Vec<String> {
    strings(&parse(text), "categories")
}

fn tombstones(text: &str) -> Vec<String> {
    match parse(text).get("state") {
        Some(toml::Value::Table(state)) => strings(state, "removed_categories"),
        _ => Vec::new(),
    }
}

fn extra_value(text: &str, namespace: &str, key: &str) -> Option<String> {
    let table = parse(text);
    let extra = table.get("extra")?.as_table()?;
    let ns = extra.get(namespace)?.as_table()?;
    ns.get(key)?.as_str().map(str::to_string)
}

fn has_namespace(text: &str, namespace: &str) -> bool {
    parse(text)
        .get("extra")
        .and_then(|e| e.as_table())
        .is_some_and(|e| e.contains_key(namespace))
}

#[test]
fn apply_category_edits_preserves_comments_and_toggles_tombstones() {
    let original = r#"# item file
id = "lr:test:1"
type = "journalArticle"
title = "A Paper" # inline comment

[import]
source = "manual"
"#;

    // Add a category: appears in categories, no tombstone, comments kept.
    let added = Metadata::apply_category_edits(original, &["Wireless/RIS"], &[], &[]).unwrap();
    assert!(added.contains("# item file"));
    assert!(added.contains("# inline comment"));
    assert_eq!(categories(&added), vec!["Wireless/RIS".to_string()]);
    assert!(tombstones(&added).is_empty());

    // Remove it: dropped from categories, recorded as a tombstone.
    let removed = Metadata::apply_category_edits(&added, &[], &["Wireless/RIS"], &[]).unwrap();
    assert!(categories(&removed).is_empty());
    assert_eq!(tombstones(&removed), vec!["Wireless/RIS".to_string()]);

    // Re-add: clears the tombstone.
    let readded = Metadata::apply_category_edits(&removed, &["Wireless/RIS"], &[], &[]).unwrap();
    assert_eq!(categories(&readded), vec!["Wireless/RIS".to_string()]);
    assert!(tombstones(&readded).is_empty());

    // Drop (rename/merge): removed from categories WITHOUT a tombstone.
    let dropped = Metadata::apply_category_edits(&readded, &[], &[], &["Wireless/RIS"]).unwrap();
    assert!(categories(&dropped).is_empty());
    assert!(tombstones(&dropped).is_empty());
}

#[test]
fn apply_category_edits_tombstones_even_when_state_is_not_a_table() {
    let original = r#"id = "lr:test:1"
type = "journalArticle"
title = "A Paper"
categories = ["Wireless/RIS"]
state = "unexpected-scalar"
"#;

    let removed = Metadata::apply_category_edits(original, &[], &["Wireless/RIS"], &[]).unwrap();
    assert!(categories(&removed).is_empty());
    assert_eq!(
        tombstones(&removed),
        vec!["Wireless/RIS".to_string()],
        "removal must be tombstoned even when [state] started as a scalar",
    );
}

#[test]
fn apply_extra_edit_preserves_comments_and_prunes_empty() {
    let original = r#"# item file
id = "lr:test:1"
type = "document"
title = "A Paper" # inline comment
"#;

    // Set a value: table is created, comments kept.
    let set = Metadata::apply_extra_edit(original, "bibtexer", "cite_key", Some("smith2020")).unwrap();
    assert!(set.contains("# item file"));
    assert!(set.contains("# inline comment"));
    assert_eq!(extra_value(&set, "bibtexer", "cite_key").as_deref(), Some("smith2020"));

    // Remove it: the now-empty namespace table is pruned.
    let cleared = Metadata::apply_extra_edit(&set, "bibtexer", "cite_key", None).unwrap();
    assert!(!has_namespace(&cleared, "bibtexer"));
    assert!(cleared.contains("# inline comment"));
}

#[test]
fn category_edits_reject_invalid_toml() {
    let result = Metadata::apply_category_edits("id = ", &["A"], &[], &[]);
    assert!(matches!(result, Err(LocalrefError::TomlDe(_))));
}

#[test]
fn category_add_is_idempotent_and_keeps_order() {
    let original = "id = \"x\"\ncategories = [\"B\", \"A\"]\n";
    let once = Metadata::apply_category_edits(original, &["C", "A"], &[], &[]).unwrap();
    assert_eq!(categories(&once), vec!["B", "A", "C"]);
    let twice = Metadata::apply_category_edits(&once, &["C"], &[], &[]).unwrap();
    assert_eq!(categories(&twice), vec!["B", "A", "C"]);
}

#[test]
fn category_remove_drops_every_occurrence() {
    let original = "id = \"x\"\ncategories = [\"A\", \"B\", \"A\"]\n";
    let edited = Metadata::apply_category_edits(original, &[], &["A"], &[]).unwrap();
    assert_eq!(categories(&edited), vec!["B"]);
    assert_eq!(tombstones(&edited), vec!["A"]);
}

#[test]
fn category_edit_replaces_non_array_categories() {
    let original = "id = \"x\"\ncategories = \"A\"\n";
    let edited = Metadata::apply_category_edits(original, &["B"], &[], &[]).unwrap();
    assert_eq!(categories(&edited), vec!["B"]);
}

#[test]
fn category_edit_keeps_other_entries() {
    let original = "id = \"x\"\ntitle = \"T\"\n\n[state]\nnote = \"kept\"\n";
    let edited = Metadata::apply_category_edits(original, &[], &["A"], &[]).unwrap();
    let table = parse(&edited);
    assert_eq!(table.get("title").and_then(|v| v.as_str()), Some("T"));
    let state = table.get("state").and_then(|v| v.as_table()).unwrap();
    assert_eq!(state.get("note").and_then(|v| v.as_str()), Some("kept"));
    assert_eq!(tombstones(&edited), vec!["A"]);
}

#[test]
fn extra_edit_rejects_non_table_extra() {
    let original = "id = \"x\"\nextra = \"scalar\"\n";
    let result = Metadata::apply_extra_edit(original, "ns", "k", Some("v"));
    match result {
        Err(LocalrefError::InvalidPathComponent { component, reason }) => {
            assert_eq!(component, "extra");
            assert_eq!(reason, "metadata.extra is not a table");
        }
        other => panic!("unexpected result: {other:?}"),
    }
}

#[test]
fn extra_edit_rejects_invalid_toml() {
    let result = Metadata::apply_extra_edit("= 1", "ns", "k", None);
    assert!(matches!(result, Err(LocalrefError::TomlDe(_))));
}

#[test]
fn extra_clear_keeps_namespace_with_other_values() {
    let original = "id = \"x\"\n\n[extra.rating]\nstars = \"5\"\nnote = \"good\"\n";
    let cleared = Metadata::apply_extra_edit(original, "rating", "stars", None).unwrap();
    assert!(has_namespace(&cleared, "rating"));
    assert_eq!(extra_value(&cleared, "rating", "stars"), None);
    assert_eq!(extra_value(&cleared, "rating", "note").as_deref(), Some("good"));
}

#[test]
fn extra_set_overwrites_existing_value() {
    let original = "id = \"x\"\n\n[extra.rating]\nstars = \"5\"\n";
    let set = Metadata::apply_extra_edit(original, "rating", "stars", Some("3")).unwrap();
    assert_eq!(extra_value(&set, "rating", "stars").as_deref(), Some("3"));
}
