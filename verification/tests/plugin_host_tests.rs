use localref::plugins::{
    build_action_args, decide_run_outcome, default_download_filename, safe_download_filename,
    FieldKind, PluginUiSpec, RunOutcome, RunOutput, UiAction, UiField, UiMount, UiPage, UiTarget,
};

/// A UI spec with one action and one form page for argument tests.
fn arg_test_ui() -> PluginUiSpec {
    PluginUiSpec {
        actions: vec![UiAction {
            id: "export_ris".to_string(),
            label: "Export RIS".to_string(),
            mount: UiMount::ContextMenu,
            target: UiTarget::Selection,
        }],
        pages: vec![UiPage {
            id: "active_form".to_string(),
            label: "Active Form".to_string(),
            mount: UiMount::DetailTab,
            route: "active".to_string(),
            action: Some("export_active".to_string()),
            target: UiTarget::Active,
            requires: Vec::new(),
            preview: None,
            fields: vec![UiField {
                name: "format".to_string(),
                label: "Format".to_string(),
                kind: FieldKind::Text,
                options: Vec::new(),
                default: None,
                required: false,
                show_if: None,
                enabled_if: None,
            }],
            display: Vec::new(),
        }],
    }
}

/// Form entries in key order, as a submitted form map yields them.
fn form(pairs: &[(&str, &str)]) -> Vec<(String, String)> {
    let mut entries: Vec<(String, String)> =
        pairs.iter().map(|(k, v)| ((*k).to_string(), (*v).to_string())).collect();
    entries.sort();
    entries
}

fn output(status: &str, result: Option<&str>, filename: Option<&str>, message: Option<&str>) -> RunOutput {
    RunOutput {
        status: status.to_string(),
        result: result.map(str::to_string),
        content_type: None,
        filename: filename.map(str::to_string),
        message: message.map(str::to_string),
    }
}

#[test]
fn build_action_args_selection_target_splits_and_trims_ids() {
    let ui = arg_test_ui();
    let args = build_action_args(
        Some(&ui),
        "export_ris",
        "http://127.0.0.1:7777",
        &form(&[("selected", "a,,b,"), ("format", "bibtex")]),
    );
    assert_eq!(args.endpoint, "http://127.0.0.1:7777");
    assert_eq!(args.selected, vec!["a".to_string(), "b".to_string()]);
    assert_eq!(args.active, None);
    assert_eq!(args.params, vec![("format".to_string(), "bibtex".to_string())]);
}

#[test]
fn build_action_args_active_target_takes_active_and_ignores_selected() {
    let ui = arg_test_ui();
    let args = build_action_args(
        Some(&ui),
        "export_active",
        "",
        &form(&[("active", "lr:zotero:one"), ("selected", "a,b")]),
    );
    assert!(args.selected.is_empty());
    assert_eq!(args.active.as_deref(), Some("lr:zotero:one"));
}

#[test]
fn build_action_args_unknown_action_targets_nothing() {
    let ui = arg_test_ui();
    let args = build_action_args(
        Some(&ui),
        "does_not_exist",
        "",
        &form(&[("active", "lr:zotero:one"), ("selected", "a,b")]),
    );
    assert!(args.selected.is_empty());
    assert_eq!(args.active, None);
}

#[test]
fn build_action_args_no_ui_spec_targets_nothing() {
    let args = build_action_args(None, "export_ris", "", &form(&[("selected", "a,b"), ("active", "x")]));
    assert!(args.selected.is_empty());
    assert_eq!(args.active, None);
}

#[test]
fn build_action_args_excludes_reserved_keys_from_params() {
    let ui = arg_test_ui();
    let args = build_action_args(
        Some(&ui),
        "export_ris",
        "",
        &form(&[
            ("plugin_action", "export_ris"),
            ("action", "export_ris"),
            ("return_to", "/?tab=x"),
            ("selected", "a"),
            ("active", "b"),
            ("format", "bibtex"),
        ]),
    );
    assert_eq!(args.params, vec![("format".to_string(), "bibtex".to_string())]);
}

#[test]
fn build_action_args_page_action_fallback_resolves_target() {
    // `export_active` is only a page action (not a top-level action), so the
    // target must come from the page's declared target (Active).
    let ui = arg_test_ui();
    let args = build_action_args(
        Some(&ui),
        "export_active",
        "",
        &form(&[("active", "lr:zotero:one"), ("selected", "a,b")]),
    );
    assert_eq!(args.active.as_deref(), Some("lr:zotero:one"));
    assert!(args.selected.is_empty());
}

#[test]
fn decide_run_outcome_error_status_reports_message() {
    let outcome = decide_run_outcome("export_bibtex", &output("error", None, None, Some("no items selected")));
    assert_eq!(outcome, RunOutcome::Error { message: "no items selected".to_string() });
}

#[test]
fn decide_run_outcome_result_yields_save_with_safe_filename() {
    let mut out = output("ok", Some("@article{demo}"), Some("localref-export.bib"), None);
    out.content_type = Some("text/x-bibtex".to_string());
    let outcome = decide_run_outcome("export_bibtex", &out);
    assert_eq!(
        outcome,
        RunOutcome::Save {
            filename: "localref-export.bib".to_string(),
            content: "@article{demo}".to_string(),
        }
    );
}

#[test]
fn decide_run_outcome_ok_without_result_is_done() {
    let outcome = decide_run_outcome("noop", &output("ok", None, None, None));
    assert_eq!(outcome, RunOutcome::Done);
}

#[test]
fn decide_run_outcome_error_without_message_uses_fallback() {
    let outcome = decide_run_outcome("noop", &output("failed", None, None, None));
    assert_eq!(outcome, RunOutcome::Error { message: "plugin action failed".to_string() });
}

#[test]
fn download_filenames_are_made_safe() {
    let outcome = decide_run_outcome("export", &output("ok", Some("x"), Some("../etc/passwd"), None));
    match outcome {
        RunOutcome::Save { filename, .. } => {
            assert!(!filename.contains('/'));
            assert_eq!(filename, "..etcpasswd");
            assert_eq!(filename, safe_download_filename("../etc/passwd"));
        }
        other => panic!("unexpected {other:?}"),
    }
    let fallback = decide_run_outcome("export bibtex", &output("ok", Some("x"), None, None));
    match fallback {
        RunOutcome::Save { filename, .. } => {
            assert_eq!(filename, "localref-export-bibtex.txt");
            assert_eq!(filename, default_download_filename("export bibtex"));
        }
        other => panic!("unexpected {other:?}"),
    }
}

#[test]
fn empty_safe_names_fall_back() {
    assert_eq!(safe_download_filename("///"), "localref-export.txt");
}
