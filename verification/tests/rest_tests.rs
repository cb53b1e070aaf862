use localref::rest::{capped_level, is_valid_item_relative_path, plugin_log_target, sanitize_plugin, PluginLogLevel};

#[test]
fn sanitize_plugin_slugs_unsafe_chars() {
    assert_eq!(sanitize_plugin("BibTexer"), "bibtexer");
    assert_eq!(sanitize_plugin("my plugin::x"), "my_plugin__x");
    assert_eq!(sanitize_plugin("keep-_09"), "keep-_09");
    assert_eq!(sanitize_plugin(""), "unknown");
}

#[test]
fn capped_level_never_exceeds_warn() {
    assert_eq!(capped_level("trace"), PluginLogLevel::Trace);
    assert_eq!(capped_level("INFO"), PluginLogLevel::Info);
    assert_eq!(capped_level("warn"), PluginLogLevel::Warn);
    // error and unknown both cap to WARN.
    assert_eq!(capped_level("error"), PluginLogLevel::Warn);
    assert_eq!(capped_level("nonsense"), PluginLogLevel::Warn);
}

#[test]
fn item_relative_paths_reject_escape_attempts() {
    assert!(is_valid_item_relative_path("paper.pdf"));
    assert!(is_valid_item_relative_path("figures/one.png"));
    assert!(!is_valid_item_relative_path("../paper.pdf"));
    assert!(!is_valid_item_relative_path("/tmp/paper.pdf"));
    assert!(!is_valid_item_relative_path(""));
}

#[test]
fn item_relative_paths_reject_inner_parent_and_leading_dot() {
    assert!(!is_valid_item_relative_path("figures/../../x"));
    assert!(!is_valid_item_relative_path("./paper.pdf"));
    assert!(is_valid_item_relative_path("figures//one.png"));
}

#[test]
fn plugin_log_targets_use_the_slug() {
    assert_eq!(plugin_log_target("My Plugin"), "localref::plugin::my_plugin");
    assert_eq!(capped_level("Debug"), PluginLogLevel::Debug);
}

fn entry(path: &str, kind: &str) -> localref::model::ItemFileEntry {
    localref::model::ItemFileEntry { path: path.to_string(), kind: kind.to_string(), bytes: None }
}

#[test]
fn file_entries_sort_by_path() {
    let entries = vec![
        entry("figures/one.png", "file"),
        entry("paper.pdf", "file"),
        entry("figures", "directory"),
        entry("abstract.txt", "file"),
    ];
    let sorted = localref::rest::sort_file_entries(entries);
    let paths: Vec<&str> = sorted.iter().map(|e| e.path.as_str()).collect();
    assert_eq!(paths, vec!["abstract.txt", "figures", "figures/one.png", "paper.pdf"]);
    assert_eq!(sorted[1].kind, "directory");
}

#[test]
fn file_entries_sort_keeps_equal_paths_in_order() {
    let entries = vec![entry("b", "first"), entry("a", "x"), entry("b", "second")];
    let sorted = localref::rest::sort_file_entries(entries);
    let kinds: Vec<&str> = sorted.iter().map(|e| e.kind.as_str()).collect();
    assert_eq!(kinds, vec!["x", "first", "second"]);
    assert!(localref::rest::sort_file_entries(Vec::new()).is_empty());
}
