use localref::model::{Metadata, MetadataFiles, MetadataImport, MetadataState, MetadataTags};
use localref::rules::{Rule, RuleSet};

fn rule(name: &str, target: &str, query: &str) -> Rule {
    Rule { name: name.to_string(), target: target.to_string(), query: query.to_string() }
}

fn paper(title: &str, abstract_note: Option<&str>, tags: &[&str]) -> Metadata {
    Metadata {
        id: "lr:test:1".to_string(),
        item_type: "journalArticle".to_string(),
        title: title.to_string(),
        abstract_note: abstract_note.map(str::to_string),
        doi: None,
        uri: None,
        year: None,
        venue: None,
        language: None,
        creators: Vec::new(),
        categories: Vec::new(),
        files: MetadataFiles { main: None, extra: Vec::new() },
        tags: MetadataTags { items: tags.iter().map(|t| t.to_string()).collect() },
        import: MetadataImport::default(),
        state: MetadataState { missing_main_file: false, removed_categories: Vec::new() },
        raw_connector: Vec::new(),
        extra: Vec::new(),
    }
}

#[test]
fn matches_regex_and_substring_rules() {
    let rules = RuleSet::from_rules(vec![
        rule("near-field", "Wireless/RIS", "title:/near[- ]field/i OR abstract:channel"),
        rule("tag", "Tagged", "tags:ris"),
    ])
    .unwrap();
    let metadata = paper("Near Field Paper", Some("A channel model"), &["RIS"]);

    let categories = rules.match_metadata(&metadata).unwrap();

    assert_eq!(categories.len(), 2);
    assert_eq!(categories[0].as_str(), "Wireless/RIS");
    assert_eq!(categories[1].as_str(), "Tagged");
}

#[test]
fn returns_display_summaries_for_parsed_rules() {
    let rules = RuleSet::from_rules(vec![rule("near-field", "Wireless/RIS", "title:RIS")]).unwrap();

    let summaries = rules.summaries();

    assert_eq!(summaries.len(), 1);
    assert_eq!(summaries[0].name, "near-field");
    assert_eq!(summaries[0].target, "Wireless/RIS");
    assert_eq!(summaries[0].query, "title:RIS");
}

#[test]
fn unmatched_metadata_gets_no_category() {
    let rules = RuleSet::from_rules(vec![rule("tag", "Tagged", "tags:ris")]).unwrap();
    let categories = rules.match_metadata(&paper("Other", None, &["misc"])).unwrap();
    assert!(categories.is_empty());
    assert!(RuleSet::new().match_metadata(&paper("x", None, &[])).unwrap().is_empty());
}

#[test]
fn invalid_targets_and_queries_are_refused() {
    assert!(RuleSet::from_rules(vec![rule("bad", "  ", "title:x")]).is_err());
    assert!(RuleSet::from_rules(vec![rule("bad", "Ok", "title:/[unclosed/")]).is_err());
}

#[test]
fn repeated_targets_are_listed_once() {
    let rules = RuleSet::from_rules(vec![
        rule("a", "Inbox", "title:paper"),
        rule("b", "Inbox", "tags:ris"),
    ])
    .unwrap();
    let categories = rules.match_metadata(&paper("A paper", None, &["RIS"])).unwrap();
    assert_eq!(categories.len(), 1);
    assert_eq!(categories[0].as_str(), "Inbox");
}
