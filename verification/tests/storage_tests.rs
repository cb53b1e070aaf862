use localref::storage::scan_cat_memberships;

fn link(category: Option<&str>, target: Option<&str>) -> (Option<String>, Option<String>) {
    (category.map(str::to_string), target.map(str::to_string))
}

fn item(id: &str, path: Option<&str>) -> (String, Option<String>) {
    (id.to_string(), path.map(str::to_string))
}

#[test]
fn memberships_follow_links_to_their_items() {
    let links = vec![
        link(Some("Wireless/RIS"), Some("/lib/All/B")),
        link(Some("Inbox"), Some("/lib/All/A")),
        link(Some("Inbox"), Some("/lib/All/A")),
        link(None, Some("/lib/All/A")),
        link(Some("Lost"), None),
        link(Some("Gone"), Some("/lib/All/Missing")),
        link(Some("Archive"), Some("/lib/All/B")),
    ];
    let items = vec![item("lr:a", Some("/lib/All/A")), item("lr:b", Some("/lib/All/B")), item("lr:c", None)];
    let memberships = scan_cat_memberships(&links, &items);
    assert_eq!(
        memberships,
        vec![
            ("lr:a".to_string(), "Inbox".to_string()),
            ("lr:b".to_string(), "Archive".to_string()),
            ("lr:b".to_string(), "Wireless/RIS".to_string()),
        ]
    );
}

#[test]
fn the_first_item_at_a_path_takes_the_link() {
    let links = vec![link(Some("Inbox"), Some("/lib/All/A"))];
    let items = vec![item("lr:first", Some("/lib/All/A")), item("lr:second", Some("/lib/All/A"))];
    assert_eq!(
        scan_cat_memberships(&links, &items),
        vec![("lr:first".to_string(), "Inbox".to_string())]
    );
    assert!(scan_cat_memberships(&Vec::new(), &items).is_empty());
}

fn document(id: &str, categories: &[&str]) -> localref::model::ItemDocument {
    localref::model::ItemDocument {
        id: id.to_string(),
        object_path: format!("All/{id}"),
        metadata_revision: "0".to_string(),
        title: id.to_string(),
        authors: Vec::new(),
        abstract_note: None,
        item_type: "document".to_string(),
        doi: None,
        uri: None,
        main_file: None,
        extra_files: Vec::new(),
        tags: Vec::new(),
        venue: None,
        year: None,
        categories: categories.iter().map(|c| c.to_string()).collect(),
        extra: Vec::new(),
    }
}

#[test]
fn category_listing_includes_empty_category_directories() {
    let summaries = localref::storage::category_summaries(&vec!["Inbox/New".to_string()], &Vec::new());
    assert_eq!(summaries.len(), 1);
    assert_eq!(summaries[0].path, "Inbox/New");
    assert!(summaries[0].item_ids.is_empty());
}

#[test]
fn category_listing_groups_sorts_and_dedups() {
    let items = vec![
        document("lr:b", &["Wireless", "Inbox"]),
        document("lr:a", &["Wireless"]),
        document("lr:b", &["Wireless"]),
    ];
    let dirs = vec!["Empty".to_string(), "Wireless".to_string(), "Empty".to_string()];
    let summaries = localref::storage::category_summaries(&dirs, &items);
    let paths: Vec<&str> = summaries.iter().map(|s| s.path.as_str()).collect();
    assert_eq!(paths, vec!["Empty", "Inbox", "Wireless"]);
    assert!(summaries[0].item_ids.is_empty());
    assert_eq!(summaries[1].item_ids, vec!["lr:b".to_string()]);
    assert_eq!(summaries[2].item_ids, vec!["lr:a".to_string(), "lr:b".to_string()]);
}

#[test]
fn category_summary_for_finds_or_defaults() {
    let items = vec![document("lr:a", &["Inbox"])];
    let summaries = localref::storage::category_summaries(&Vec::new(), &items);
    let found = localref::storage::category_summary_for(&summaries, "Inbox");
    assert_eq!(found.path, "Inbox");
    assert_eq!(found.item_ids, vec!["lr:a".to_string()]);
    let missing = localref::storage::category_summary_for(&summaries, "Other");
    assert_eq!(missing.path, "Other");
    assert!(missing.item_ids.is_empty());
}

fn document_with_extra(id: &str, extra: &[(&str, &[(&str, &str)])]) -> localref::model::ItemDocument {
    let mut doc = document(id, &[]);
    doc.extra = extra
        .iter()
        .map(|(ns, fields)| {
            (ns.to_string(), fields.iter().map(|(k, v)| (k.to_string(), v.to_string())).collect())
        })
        .collect();
    doc
}

#[test]
fn extra_index_lists_carried_declared_fields_in_order() {
    let docs = vec![
        document_with_extra("lr:b", &[("rating", &[("stars", "5")]), ("bib", &[("key", "x")])]),
        document_with_extra("lr:a", &[("rating", &[("stars", "5")])]),
        document_with_extra("lr:c", &[("rating", &[("stars", "3")])]),
    ];
    let fields = vec![
        "rating.stars".to_string(),
        "missing.field".to_string(),
        "bib.key".to_string(),
        "nodot".to_string(),
    ];
    let index = localref::storage::build_extra_index(&docs, &fields);
    let names: Vec<&str> = index.iter().map(|(f, _)| f.as_str()).collect();
    assert_eq!(names, vec!["rating.stars", "bib.key"]);
    let stars = index[0].1.entries();
    assert_eq!(
        stars,
        vec![
            ("3".to_string(), vec!["lr:c".to_string()]),
            ("5".to_string(), vec!["lr:a".to_string(), "lr:b".to_string()]),
        ]
    );
    assert_eq!(index[1].1.entries(), vec![("x".to_string(), vec!["lr:b".to_string()])]);
    assert!(localref::storage::build_extra_index(&docs, &Vec::new()).is_empty());
}

#[test]
fn search_trims_lowercases_and_reads_declared_extra_fields() {
    let mut first = document_with_extra("lr:a", &[("bib", &[("key", "Smith2020")])]);
    first.title = "A Paper on RIS".to_string();
    let mut second = document_with_extra("lr:b", &[("rating", &[("stars", "five")])]);
    second.title = "Other".to_string();
    let items = vec![first, second];
    let fields = vec!["bib.key".to_string()];
    assert!(localref::storage::search_hits(&items, "   ", &fields).is_empty());
    assert!(localref::storage::search_hits(&items, "", &fields).is_empty());
    let hits = localref::storage::search_hits(&items, "  PAPER ", &fields);
    assert_eq!(hits.len(), 1);
    assert_eq!(hits[0].id, "lr:a");
    assert_eq!(hits[0].title, "A Paper on RIS");
    assert_eq!(hits[0].object_path, "All/lr:a");
    let by_extra = localref::storage::search_hits(&items, "smith2020", &fields);
    assert_eq!(by_extra.iter().map(|h| h.id.as_str()).collect::<Vec<_>>(), vec!["lr:a"]);
    assert!(localref::storage::search_hits(&items, "five", &fields).is_empty());
    let both = localref::storage::search_hits(&items, "lr:", &fields);
    assert_eq!(both.iter().map(|h| h.id.as_str()).collect::<Vec<_>>(), vec!["lr:a", "lr:b"]);
}

#[test]
fn paths_are_made_relative_to_the_library_root() {
    assert_eq!(localref::storage::relative_to_root("/lib", "/lib/All/Paper One"), "All/Paper One");
    assert_eq!(localref::storage::relative_to_root("/lib/", "/lib/All/X"), "All/X");
    assert_eq!(localref::storage::relative_to_root("/lib", "/other/All/X"), "/other/All/X");
    assert_eq!(localref::storage::relative_to_root("/lib", "/library/X"), "/library/X");
}
