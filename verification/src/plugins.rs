//! Plugin UI declarations and the host-side logic around plugin actions.
//!
//! Plugins declare actions and form pages; when a form is submitted the host
//! turns it into the plugin's arguments ([`build_action_args`]), and when the
//! plugin answers it decides what to do with the output
//! ([`decide_run_outcome`]).

use vstd::prelude::*;
use crate::model::opt_view;
use crate::text::{
    ascii_alnum, chars_of, is_ascii_alnum, is_whitespace, is_ws, owned, push_str, split,
    split_chars, str_eq, string_of,
};

verus! {

/// Kind of a form field.
#[derive(Clone, Copy, Debug, PartialEq, Eq)]
pub enum FieldKind {
    Text,
    Textarea,
    Number,
    Checkbox,
    Select,
    Radio,
}

/// Where a plugin action or page is mounted in the UI.
#[derive(Clone, Copy, Debug, PartialEq, Eq)]
pub enum UiMount {
    ActionButton,
    ContextMenu,
    DetailTab,
    MetadataPage,
    SelectionPage,
}

/// Which items an action applies to.
#[derive(Clone, Copy, Debug, PartialEq, Eq)]
pub enum UiTarget {
    /// The selected items.
    Selection,
    /// The active item.
    Active,
    /// No item (`none` on the wire).
    Nothing,
}

/// Data a plugin page needs.
#[derive(Clone, Copy, Debug, PartialEq, Eq)]
pub enum UiDataRequirement {
    Library,
    Selection,
    ActiveItem,
    ItemMetadata,
    ItemFiles,
    ItemCategories,
    ImportedItem,
}

/// A plugin action shown in the UI.
#[derive(Clone, Debug, PartialEq, Eq)]
pub struct UiAction {
    pub id: String,
    pub label: String,
    pub mount: UiMount,
    pub target: UiTarget,
}

/// A field of a plugin form page.
#[derive(Clone, Debug, PartialEq, Eq)]
pub struct UiField {
    pub name: String,
    pub label: String,
    pub kind: FieldKind,
    pub options: Vec<String>,
    pub default: Option<String>,
    pub required: bool,
    pub show_if: Option<String>,
    pub enabled_if: Option<String>,
}

/// A read-only text block of a plugin page.
#[derive(Clone, Debug, PartialEq, Eq)]
pub struct UiDisplay {
    pub id: String,
    pub text: String,
}

/// Live preview of a plugin page.
#[derive(Clone, Debug, PartialEq, Eq)]
pub struct PreviewSpec {
    pub action: String,
    pub debounce_ms: u64,
    pub into: String,
}

/// A plugin form page.
#[derive(Clone, Debug, PartialEq, Eq)]
pub struct UiPage {
    pub id: String,
    pub label: String,
    pub mount: UiMount,
    pub route: String,
    pub action: Option<String>,
    pub target: UiTarget,
    pub requires: Vec<UiDataRequirement>,
    pub preview: Option<PreviewSpec>,
    pub fields: Vec<UiField>,
    pub display: Vec<UiDisplay>,
}

/// Everything a plugin declares for the UI.
#[derive(Clone, Debug, PartialEq, Eq)]
pub struct PluginUiSpec {
    pub actions: Vec<UiAction>,
    pub pages: Vec<UiPage>,
}

/// The arguments of one plugin invocation.
#[derive(Clone, Debug, PartialEq, Eq)]
pub struct ActionArgs {
    /// REST endpoint the plugin calls back.
    pub endpoint: String,
    /// Targeted item ids (selection actions).
    pub selected: Vec<String>,
    /// Targeted item id (active-item actions).
    pub active: Option<String>,
    /// Form parameters, as `--param key=value` pairs.
    pub params: Vec<(String, String)>,
}

/// The answer envelope of a plugin action.
#[derive(Clone, Debug, PartialEq, Eq)]
pub struct RunOutput {
    pub status: String,
    pub result: Option<String>,
    pub content_type: Option<String>,
    pub filename: Option<String>,
    pub message: Option<String>,
}

/// What the host should do with a plugin action's output.
#[derive(Clone, Debug, PartialEq, Eq)]
pub enum RunOutcome {
    /// The action succeeded with no downloadable result.
    Done,
    /// The action produced text to save under `filename`.
    Save { filename: String, content: String },
    /// The action failed.
    Error { message: String },
}

/// A discovered plugin as shown by the desktop application.
#[derive(Clone, Debug, PartialEq, Eq)]
pub struct PluginDescriptor {
    pub name: String,
    pub description: Option<String>,
    pub dir: String,
    pub enabled: bool,
    pub ui: Option<PluginUiSpec>,
    pub hooks: Vec<String>,
    pub cron: Vec<String>,
}

/// A plugin action's output as handed to the desktop application.
#[derive(Clone, Debug, PartialEq, Eq)]
pub struct PluginRunResult {
    pub status: String,
    pub result: Option<String>,
    pub filename: Option<String>,
    pub content_type: Option<String>,
    pub message: Option<String>,
}

// ---------------------------------------------------------------------------
// Action arguments
// ---------------------------------------------------------------------------

/// Form keys that never become plugin parameters.
pub open spec fn is_reserved_key(k: Seq<char>) -> bool {
    k == "plugin_action"@ || k == "action"@ || k == "return_to"@ || k == "selected"@ || k
        == "active"@
}

/// The target declared for an action: a top-level action with that id, else
/// a page whose action it is, else none.
pub open spec fn declared_target(ui: Option<PluginUiSpec>, name: Seq<char>) -> UiTarget {
    match ui {
        None => UiTarget::Nothing,
        Some(ui) => match first_action(ui.actions@, name) {
            Some(t) => t,
            None => match first_page(ui.pages@, name) {
                Some(t) => t,
                None => UiTarget::Nothing,
            },
        },
    }
}

/// The target of the first action with this id.
pub open spec fn first_action(actions: Seq<UiAction>, name: Seq<char>) -> Option<UiTarget>
    decreases actions.len(),
{
    if actions.len() == 0 {
        None
    } else if actions[0].id@ == name {
        Some(actions[0].target)
    } else {
        first_action(actions.drop_first(), name)
    }
}

/// The target of the first page whose action has this name.
pub open spec fn first_page(pages: Seq<UiPage>, name: Seq<char>) -> Option<UiTarget>
    decreases pages.len(),
{
    if pages.len() == 0 {
        None
    } else if opt_view(pages[0].action) == Some(name) {
        Some(pages[0].target)
    } else {
        first_page(pages.drop_first(), name)
    }
}

/// The value of the first form entry with this key.
pub open spec fn form_get(form: Seq<(String, String)>, key: Seq<char>) -> Option<Seq<char>>
    decreases form.len(),
{
    if form.len() == 0 {
        None
    } else if form[0].0@ == key {
        Some(form[0].1@)
    } else {
        form_get(form.drop_first(), key)
    }
}

/// The non-empty pieces of a comma-separated list.
pub open spec fn nonempty_pieces(ps: Seq<Seq<char>>) -> Seq<Seq<char>>
    decreases ps.len(),
{
    if ps.len() == 0 {
        Seq::empty()
    } else {
        let rest = nonempty_pieces(ps.drop_last());
        if ps.last().len() > 0 {
            rest.push(ps.last())
        } else {
            rest
        }
    }
}

/// The ids listed in the `selected` form entry.
pub open spec fn selected_ids(form: Seq<(String, String)>) -> Seq<Seq<char>> {
    match form_get(form, "selected"@) {
        Some(csv) => nonempty_pieces(split(csv, seq![','])),
        None => Seq::empty(),
    }
}

/// The form entries that become parameters, in order.
pub open spec fn param_pairs(form: Seq<(String, String)>) -> Seq<(Seq<char>, Seq<char>)>
    decreases form.len(),
{
    if form.len() == 0 {
        Seq::empty()
    } else {
        let rest = param_pairs(form.drop_last());
        if is_reserved_key(form.last().0@) {
            rest
        } else {
            rest.push((form.last().0@, form.last().1@))
        }
    }
}

/// Views of string pairs.
pub open spec fn pair_views(ps: Seq<(String, String)>) -> Seq<(Seq<char>, Seq<char>)> {
    ps.map_values(|p: (String, String)| (p.0@, p.1@))
}

/// Views of strings.
pub open spec fn string_views(v: Seq<String>) -> Seq<Seq<char>> {
    v.map_values(|s: String| s@)
}

fn reserved_key(k: &str) -> (r: bool)
    ensures
        r == is_reserved_key(k@),
{
    str_eq(k, "plugin_action") || str_eq(k, "action") || str_eq(k, "return_to") || str_eq(
        k,
        "selected",
    ) || str_eq(k, "active")
}

fn form_value<'a>(form: &'a Vec<(String, String)>, key: &str) -> (r: Option<&'a String>)
    ensures
        match r {
            Some(v) => form_get(form@, key@) == Some(v@),
            None => form_get(form@, key@) is None,
        },
{
    let mut i: usize = 0;
    assert(form@.skip(0) =~= form@);
    while i < form.len()
        invariant
            i <= form@.len(),
            form_get(form@, key@) == form_get(form@.skip(i as int), key@),
        decreases form.len() - i,
    {
        proof {
            assert(form@.skip(i as int).drop_first() =~= form@.skip(i + 1));
            assert(form@.skip(i as int)[0] == form@[i as int]);
        }
        if str_eq(form[i].0.as_str(), key) {
            return Some(&form[i].1);
        }
        i = i + 1;
    }
    None
}

fn resolve_target(ui: Option<&PluginUiSpec>, action_name: &str) -> (r: UiTarget)
    ensures
        r == declared_target(
            match ui {
                Some(u) => Some(*u),
                None => None,
            },
            action_name@,
        ),
{
    match ui {
        None => UiTarget::Nothing,
        Some(spec) => {
            let mut i: usize = 0;
            assert(spec.actions@.skip(0) =~= spec.actions@);
            while i < spec.actions.len()
                invariant
                    i <= spec.actions@.len(),
                    ui == Some(spec),
                    first_action(spec.actions@, action_name@) == first_action(
                        spec.actions@.skip(i as int),
                        action_name@,
                    ),
                decreases spec.actions.len() - i,
            {
                proof {
                    assert(spec.actions@.skip(i as int).drop_first() =~= spec.actions@.skip(i + 1));
                    assert(spec.actions@.skip(i as int)[0] == spec.actions@[i as int]);
                }
                if str_eq(spec.actions[i].id.as_str(), action_name) {
                    return spec.actions[i].target;
                }
                i = i + 1;
            }
            let mut j: usize = 0;
            assert(spec.pages@.skip(0) =~= spec.pages@);
            while j < spec.pages.len()
                invariant
                    j <= spec.pages@.len(),
                    ui == Some(spec),
                    first_action(spec.actions@, action_name@) is None,
                    first_page(spec.pages@, action_name@) == first_page(
                        spec.pages@.skip(j as int),
                        action_name@,
                    ),
                decreases spec.pages.len() - j,
            {
                proof {
                    assert(spec.pages@.skip(j as int).drop_first() =~= spec.pages@.skip(j + 1));
                    assert(spec.pages@.skip(j as int)[0] == spec.pages@[j as int]);
                }
                let named = match &spec.pages[j].action {
                    Some(a) => str_eq(a.as_str(), action_name),
                    None => false,
                };
                if named {
                    return spec.pages[j].target;
                }
                j = j + 1;
            }
            UiTarget::Nothing
        },
    }
}

/// Turn a submitted form into plugin arguments: the action's declared
/// target decides whether the `selected` ids, the `active` id or neither are
/// forwarded, and every non-reserved entry becomes a parameter.
pub fn build_action_args(
    ui: Option<&PluginUiSpec>,
    action_name: &str,
    endpoint: &str,
    form: &Vec<(String, String)>,
) -> (r: ActionArgs)
    ensures
        ({
            let target = declared_target(
                match ui {
                    Some(u) => Some(*u),
                    None => None,
                },
                action_name@,
            );
            &&& r.endpoint@ == endpoint@
            &&& string_views(r.selected@) == if target == UiTarget::Selection {
                selected_ids(form@)
            } else {
                Seq::empty()
            }
            &&& opt_view(r.active) == if target == UiTarget::Active {
                match form_get(form@, "active"@) {
                    Some(a) => if a.len() > 0 {
                        Some(a)
                    } else {
                        None
                    },
                    None => None,
                }
            } else {
                None
            }
            &&& pair_views(r.params@) == param_pairs(form@)
        }),
{
    let target = resolve_target(ui, action_name);
    let mut selected: Vec<String> = Vec::new();
    if matches!(target, UiTarget::Selection) {
        if let Some(csv) = form_value(form, "selected") {
            let v = chars_of(csv.as_str());
            let sep: Vec<char> = vec![','];
            assert(sep@ =~= seq![',']);
            let pieces = split_chars(&v, &sep);
            let ghost ps = pieces@.map_values(|p: Vec<char>| p@);
            let mut i: usize = 0;
            while i < pieces.len()
                invariant
                    i <= pieces@.len(),
                    ps == pieces@.map_values(|p: Vec<char>| p@),
                    string_views(selected@) == nonempty_pieces(ps.take(i as int)),
                decreases pieces.len() - i,
            {
                proof {
                    assert(ps.take(i + 1).drop_last() =~= ps.take(i as int));
                    assert(ps.take(i + 1).last() == pieces@[i as int]@);
                }
                if pieces[i].len() > 0 {
                    let ghost before = selected@;
                    selected.push(string_of(&pieces[i]));
                    proof {
                        assert(string_views(selected@) =~= string_views(before).push(
                            pieces@[i as int]@,
                        ));
                    }
                }
                i = i + 1;
            }
            proof {
                assert(ps.take(pieces@.len() as int) =~= ps);
            }
        }
    }
    let active = if matches!(target, UiTarget::Active) {
        match form_value(form, "active") {
            Some(a) => if a.as_str().is_empty() {
                None
            } else {
                Some(a.clone())
            },
            None => None,
        }
    } else {
        None
    };
    let mut params: Vec<(String, String)> = Vec::new();
    let mut k: usize = 0;
    while k < form.len()
        invariant
            k <= form@.len(),
            pair_views(params@) == param_pairs(form@.take(k as int)),
        decreases form.len() - k,
    {
        proof {
            assert(form@.take(k + 1).drop_last() =~= form@.take(k as int));
            assert(form@.take(k + 1).last() == form@[k as int]);
        }
        if !reserved_key(form[k].0.as_str()) {
            let ghost before = params@;
            params.push((form[k].0.clone(), form[k].1.clone()));
            proof {
                assert(pair_views(params@) =~= pair_views(before).push(
                    (form@[k as int].0@, form@[k as int].1@),
                ));
            }
        }
        k = k + 1;
    }
    proof {
        assert(form@.take(form@.len() as int) =~= form@);
    }
    ActionArgs { endpoint: owned(endpoint), selected, active, params }
}

// ---------------------------------------------------------------------------
// Run outcomes and download names
// ---------------------------------------------------------------------------

/// The characters kept in a download name: ASCII letters, digits, `-`, `_`
/// and `.` as they are, whitespace as `-`; everything else is dropped.
pub open spec fn safe_chars(s: Seq<char>) -> Seq<char>
    decreases s.len(),
{
    if s.len() == 0 {
        Seq::empty()
    } else {
        let rest = safe_chars(s.drop_last());
        let c = s.last();
        if is_ascii_alnum(c) || c == '-' || c == '_' || c == '.' {
            rest.push(c)
        } else if is_ws(c) {
            rest.push('-')
        } else {
            rest
        }
    }
}

/// A filesystem-safe download name (`localref-export.txt` when nothing is
/// left).
pub open spec fn safe_name(s: Seq<char>) -> Seq<char> {
    if safe_chars(s).len() == 0 {
        "localref-export.txt"@
    } else {
        safe_chars(s)
    }
}

/// Reduce an arbitrary string to a filesystem-safe download filename.
pub fn safe_download_filename(value: &str) -> (r: String)
    ensures
        r@ == safe_name(value@),
{
    let v = chars_of(value);
    let mut out: Vec<char> = Vec::new();
    let mut i: usize = 0;
    while i < v.len()
        invariant
            i <= v@.len(),
            out@ == safe_chars(v@.take(i as int)),
        decreases v.len() - i,
    {
        let c = v[i];
        proof {
            assert(v@.take(i + 1).drop_last() =~= v@.take(i as int));
            assert(v@.take(i + 1).last() == c);
        }
        if ascii_alnum(c) || c == '-' || c == '_' || c == '.' {
            out.push(c);
        } else if is_whitespace(c) {
            out.push('-');
        }
        i = i + 1;
    }
    proof {
        assert(v@.take(v@.len() as int) =~= v@);
    }
    if out.len() == 0 {
        owned("localref-export.txt")
    } else {
        string_of(&out)
    }
}

/// The fallback download name for an action: `localref-<name>.txt`.
pub open spec fn default_name(action: Seq<char>) -> Seq<char> {
    "localref-"@ + safe_name(action) + ".txt"@
}

/// Build the fallback download filename from an action name.
pub fn default_download_filename(action_name: &str) -> (r: String)
    ensures
        r@ == default_name(action_name@),
{
    let mut out = owned("localref-");
    push_str(&mut out, safe_download_filename(action_name).as_str());
    push_str(&mut out, ".txt");
    out
}

/// Classify a plugin's output: an `ok` answer with result text is saved
/// (under its safe suggested name, else one derived from the action), an
/// `ok` answer without result is done, anything else is an error.
pub fn decide_run_outcome(action_name: &str, output: &RunOutput) -> (r: RunOutcome)
    ensures
        output.status@ == "ok"@ ==> match output.result {
            Some(result) => (r matches RunOutcome::Save { filename, content } && content@ == result@
                && filename@ == match output.filename {
                Some(f) => safe_name(f@),
                None => default_name(action_name@),
            }),
            None => r is Done,
        },
        output.status@ != "ok"@ ==> (r matches RunOutcome::Error { message } && message@
            == match output.message {
            Some(m) => m@,
            None => "plugin action failed"@,
        }),
{
    if str_eq(output.status.as_str(), "ok") {
        return match &output.result {
            Some(result) => RunOutcome::Save {
                filename: match &output.filename {
                    Some(f) => safe_download_filename(f.as_str()),
                    None => default_download_filename(action_name),
                },
                content: result.clone(),
            },
            None => RunOutcome::Done,
        };
    }
    RunOutcome::Error {
        message: match &output.message {
            Some(m) => m.clone(),
            None => owned("plugin action failed"),
        },
    }
}

} // verus!
