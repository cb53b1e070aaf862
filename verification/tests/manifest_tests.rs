use localref::error::LocalrefError;
use localref::manifest::{junction_action, plan_junctions, CatManifest, JunctionAction};

#[test]
fn remove_prunes_empty_items() {
    let mut manifest = CatManifest::default();
    manifest.insert("lr:test:1", "Inbox");
    manifest.remove("lr:test:1", "Inbox");
    assert!(!manifest.contains("lr:test:1", "Inbox"));
    // A fully-emptied item leaves the manifest equal to default.
    assert_eq!(manifest, CatManifest::default());
}

#[test]
fn manifest_load_missing_file_is_empty() {
    assert_eq!(CatManifest::load(None).unwrap(), CatManifest::default());
}

#[test]
fn manifest_save_then_load_round_trips() {
    let mut manifest = CatManifest::default();
    manifest.insert("lr:test:1", "Wireless/RIS");
    manifest.insert("lr:test:1", "Tagged");
    manifest.insert("lr:test:2", "Inbox");

    let loaded = CatManifest::load(Some(manifest.save().as_str())).unwrap();
    assert_eq!(loaded, manifest);
    assert!(loaded.contains("lr:test:1", "Wireless/RIS"));
    assert!(loaded.contains("lr:test:2", "Inbox"));
    assert!(!loaded.contains("lr:test:2", "Wireless/RIS"));
}

#[test]
fn projected_root_survives_the_document_round_trip() {
    let mut manifest = CatManifest::new();
    assert!(manifest.is_empty());
    assert_eq!(manifest.projected_root(), None);
    manifest.set_projected_root("D:/Vault");
    manifest.insert("lr:a", "Inbox");
    let document = manifest.to_document();
    assert_eq!(document[0].0, ".projected_root");
    assert_eq!(document[0].1, vec!["D:/Vault".to_string()]);
    let loaded = CatManifest::from_document(&document);
    assert_eq!(loaded.projected_root(), Some("D:/Vault"));
    assert_eq!(loaded, manifest);
}

#[test]
fn remove_item_drops_every_category_of_the_item() {
    let mut manifest = CatManifest::new();
    manifest.insert("lr:a", "Inbox");
    manifest.insert("lr:a", "Read");
    manifest.insert("lr:b", "Inbox");
    manifest.remove_item("lr:a");
    assert!(!manifest.contains("lr:a", "Inbox"));
    assert!(!manifest.contains("lr:a", "Read"));
    assert!(manifest.contains("lr:b", "Inbox"));
    assert!(!manifest.is_empty());
}

#[test]
fn insert_is_idempotent() {
    let mut once = CatManifest::new();
    once.insert("lr:a", "Inbox");
    let mut twice = CatManifest::new();
    twice.insert("lr:a", "Inbox");
    twice.insert("lr:a", "Inbox");
    assert_eq!(once, twice);
}

fn pairs(list: &[(&str, &str)]) -> Vec<(String, String)> {
    list.iter().map(|(a, b)| (a.to_string(), b.to_string())).collect()
}

fn action_for(
    plan: &[(String, String, localref::manifest::JunctionAction)],
    id: &str,
    category: &str,
) -> Option<localref::manifest::JunctionAction> {
    plan.iter().find(|(i, c, _)| i == id && c == category).map(|(_, _, a)| *a)
}

#[test]
fn scan_plan_follows_metadata() {
    let metadata = pairs(&[("a", "Kept"), ("a", "Deleted"), ("a", "New"), ("b", "Found")]);
    let manifest = pairs(&[("a", "Kept"), ("a", "Deleted"), ("b", "Dropped"), ("b", "Gone")]);
    let disk = pairs(&[("a", "Kept"), ("b", "Found"), ("b", "Dropped"), ("c", "Handmade")]);
    let plan = plan_junctions(&metadata, &manifest, &disk);
    assert_eq!(plan.len(), 7);
    assert_eq!(action_for(&plan, "a", "Kept"), Some(JunctionAction::InSync));
    // A junction deleted by hand comes back from metadata.
    assert_eq!(action_for(&plan, "a", "Deleted"), Some(JunctionAction::Project));
    assert_eq!(action_for(&plan, "a", "New"), Some(JunctionAction::Project));
    assert_eq!(action_for(&plan, "b", "Found"), Some(JunctionAction::Record));
    // Metadata dropped the category: the junction goes.
    assert_eq!(action_for(&plan, "b", "Dropped"), Some(JunctionAction::Unlink));
    assert_eq!(action_for(&plan, "b", "Gone"), Some(JunctionAction::Forget));
    // A hand-made junction is adopted into metadata.
    assert_eq!(action_for(&plan, "c", "Handmade"), Some(JunctionAction::Adopt));
}

#[test]
fn scan_plan_lists_each_pair_once() {
    let metadata = pairs(&[("a", "X"), ("a", "X")]);
    let plan = plan_junctions(&metadata, &metadata, &metadata);
    assert_eq!(plan.len(), 1);
    assert!(plan_junctions(&Vec::new(), &Vec::new(), &Vec::new()).is_empty());
}

#[test]
fn junction_action_table() {
    assert_eq!(junction_action(false, false, false), None);
    assert_eq!(junction_action(true, true, false), Some(JunctionAction::Project));
    assert_eq!(junction_action(false, true, true), Some(JunctionAction::Unlink));
    assert_eq!(junction_action(false, false, true), Some(JunctionAction::Adopt));
}

#[test]
fn saved_text_lists_the_root_and_each_item() {
    let mut manifest = CatManifest::new();
    manifest.set_projected_root("D:/Vault");
    manifest.insert("lr:a", "Inbox");
    manifest.insert("lr:a", "Read");
    let text = manifest.save();
    assert!(text.contains(".projected_root"));
    assert!(text.contains("D:/Vault"));
    assert!(text.contains("lr:a"));
    let loaded = CatManifest::load(Some(text.as_str())).unwrap();
    assert_eq!(loaded.projected_root(), Some("D:/Vault"));
    assert!(loaded.contains("lr:a", "Read"));
    assert_eq!(loaded, manifest);
}

#[test]
fn load_reads_hand_written_text() {
    let text = "\".projected_root\" = [\"C:/Old\", \"D:/New\"]\n\"lr:x\" = [\"B\", \"A\", \"B\"]\n";
    let loaded = CatManifest::load(Some(text)).unwrap();
    assert_eq!(loaded.projected_root(), Some("D:/New"));
    assert!(loaded.contains("lr:x", "A"));
    assert!(loaded.contains("lr:x", "B"));
    assert!(!loaded.contains(".projected_root", "D:/New"));
}

#[test]
fn load_of_empty_text_is_empty() {
    let loaded = CatManifest::load(Some("")).unwrap();
    assert!(loaded.is_empty());
    assert_eq!(loaded.projected_root(), None);
}

#[test]
fn load_refuses_values_that_are_not_string_lists() {
    assert!(matches!(CatManifest::load(Some("\"lr:x\" = [1, 2]\n")), Err(LocalrefError::TomlDe(_))));
    assert!(matches!(CatManifest::load(Some("\"lr:x\" = \"Inbox\"\n")), Err(LocalrefError::TomlDe(_))));
    assert!(matches!(CatManifest::load(Some("not = = toml")), Err(LocalrefError::TomlDe(_))));
}
