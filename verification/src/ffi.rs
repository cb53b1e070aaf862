//! Values exchanged with the desktop application: its error vocabulary, the
//! daemon configuration it starts with, and the settings forms it edits.

use vstd::prelude::*;
use crate::config::{
    addr_refusal, chosen_columns, clamped_width, config_inv, endpoint_ok, endpoint_text,
    keep_requested, known_columns, plugins_dir_of, requested_has, ConfigView, LocalrefConfig,
};
use crate::daemon::DaemonEvent;
use crate::error::{error_text, LocalrefError};
use crate::ordered::{string_listed, string_views};
use crate::text::{concat2, owned, trim, trim_str};

verus! {

/// Error returned to the desktop application.
#[derive(Clone, Debug, PartialEq, Eq)]
pub enum FfiError {
    /// A filesystem operation failed.
    Io { msg: String },
    /// The requested item, category, or resource does not exist.
    NotFound { msg: String },
    /// A metadata revision conflict: the UI must reload and re-prompt.
    Conflict { msg: String },
    /// Caller-supplied input was rejected.
    InvalidInput { msg: String },
    /// The operation is unsupported in this build or state.
    Unsupported { msg: String },
    /// A plugin invocation failed.
    Plugin { msg: String },
    /// An internal error with no more specific mapping.
    Internal { msg: String },
}

/// The kind of an [`FfiError`], without its message.
#[derive(Clone, Copy, Debug, PartialEq, Eq, Structural)]
pub enum FfiErrorKind {
    Io,
    NotFound,
    Conflict,
    InvalidInput,
    Unsupported,
    Plugin,
    Internal,
}

/// Kind and message of an error.
pub open spec fn ffi_parts(e: FfiError) -> (FfiErrorKind, Seq<char>) {
    match e {
        FfiError::Io { msg } => (FfiErrorKind::Io, msg@),
        FfiError::NotFound { msg } => (FfiErrorKind::NotFound, msg@),
        FfiError::Conflict { msg } => (FfiErrorKind::Conflict, msg@),
        FfiError::InvalidInput { msg } => (FfiErrorKind::InvalidInput, msg@),
        FfiError::Unsupported { msg } => (FfiErrorKind::Unsupported, msg@),
        FfiError::Plugin { msg } => (FfiErrorKind::Plugin, msg@),
        FfiError::Internal { msg } => (FfiErrorKind::Internal, msg@),
    }
}

/// The kind and message a library error is reported with: filesystem
/// failures and refused path components with their full text, missing
/// fields as not found, conflicts and unsupported operations with their own
/// message, everything else as internal.
pub open spec fn reported_as(e: LocalrefError) -> (FfiErrorKind, Seq<char>) {
    match e {
        LocalrefError::Io { .. } => (FfiErrorKind::Io, error_text(e)),
        LocalrefError::MissingField(field) => (FfiErrorKind::NotFound, field@),
        LocalrefError::Conflict(m) => (FfiErrorKind::Conflict, m@),
        LocalrefError::InvalidPathComponent { .. } => (FfiErrorKind::InvalidInput, error_text(e)),
        LocalrefError::Unsupported(m) => (FfiErrorKind::Unsupported, m@),
        _ => (FfiErrorKind::Internal, error_text(e)),
    }
}

/// The text shown for an error.
pub open spec fn ffi_text(e: FfiError) -> Seq<char> {
    let (k, m) = ffi_parts(e);
    match k {
        FfiErrorKind::Io => "io error: "@ + m,
        FfiErrorKind::NotFound => "not found: "@ + m,
        FfiErrorKind::Conflict => "conflict: "@ + m,
        FfiErrorKind::InvalidInput => "invalid input: "@ + m,
        FfiErrorKind::Unsupported => "unsupported: "@ + m,
        FfiErrorKind::Plugin => "plugin error: "@ + m,
        FfiErrorKind::Internal => "internal error: "@ + m,
    }
}

impl FfiError {
    /// Report a library error to the desktop application (see
    /// [`reported_as`]).
    pub fn from_error(value: LocalrefError) -> (r: FfiError)
        ensures
            ffi_parts(r) == reported_as(value),
    {
        match value {
            LocalrefError::Io { .. } => FfiError::Io { msg: value.message() },
            LocalrefError::MissingField(field) => FfiError::NotFound { msg: field },
            LocalrefError::Conflict(msg) => FfiError::Conflict { msg },
            LocalrefError::InvalidPathComponent { .. } => FfiError::InvalidInput { msg: value.message() },
            LocalrefError::Unsupported(msg) => FfiError::Unsupported { msg },
            _ => FfiError::Internal { msg: value.message() },
        }
    }

    /// The text shown for the error.
    pub fn message(&self) -> (r: String)
        ensures
            r@ == ffi_text(*self),
    {
        match self {
            FfiError::Io { msg } => concat2("io error: ", msg.as_str()),
            FfiError::NotFound { msg } => concat2("not found: ", msg.as_str()),
            FfiError::Conflict { msg } => concat2("conflict: ", msg.as_str()),
            FfiError::InvalidInput { msg } => concat2("invalid input: ", msg.as_str()),
            FfiError::Unsupported { msg } => concat2("unsupported: ", msg.as_str()),
            FfiError::Plugin { msg } => concat2("plugin error: ", msg.as_str()),
            FfiError::Internal { msg } => concat2("internal error: ", msg.as_str()),
        }
    }
}

/// Network and library configuration the desktop application starts the
/// daemon with.
#[derive(Clone, Debug, PartialEq, Eq)]
pub struct DaemonConfig {
    /// Absolute path to the library root.
    pub library_root: String,
    /// REST bind address.
    pub rest_addr: String,
    /// CSC (Zotero Connector) bind address.
    pub csc_addr: String,
    /// Public REST endpoint passed to plugins as `--endpoint`.
    pub rest_endpoint: String,
    /// Directory scanned for plugin bundles.
    pub plugins_dir: String,
}

impl DaemonConfig {
    /// The daemon configuration of a loaded configuration.
    pub fn from_config(config: &LocalrefConfig) -> (r: DaemonConfig)
        ensures
            r.library_root@ == config@.library_root,
            r.rest_addr@ == config@.rest_addr,
            r.csc_addr@ == config@.csc_addr,
            r.rest_endpoint@ == config@.rest_endpoint,
            r.plugins_dir@ == config@.plugins_dir,
    {
        DaemonConfig {
            library_root: owned(config.library_root()),
            rest_addr: owned(config.rest_addr()),
            csc_addr: owned(config.csc_addr()),
            rest_endpoint: owned(config.rest_endpoint()),
            plugins_dir: owned(config.plugins_dir()),
        }
    }
}

/// User-editable application settings shown by the settings window.
#[derive(Clone, Debug, PartialEq, Eq)]
pub struct AppSettings {
    pub config_path: String,
    pub repo_name: String,
    pub library_root: String,
    pub rest_addr: String,
    pub rest_endpoint: String,
    pub csc_addr: String,
    pub start_hidden: bool,
    pub quiet_start: bool,
}

/// The settings form of a configuration.
pub open spec fn settings_of(c: ConfigView, s: AppSettings) -> bool {
    &&& s.config_path@ == c.source_path
    &&& s.repo_name@ == c.workspace_name
    &&& s.library_root@ == c.library_root
    &&& s.rest_addr@ == c.rest_addr
    &&& s.rest_endpoint@ == c.rest_endpoint
    &&& s.csc_addr@ == c.csc_addr
    &&& s.start_hidden == c.start_hidden
    &&& s.quiet_start == c.quiet_start
}

/// The first refusal of a settings form, given the parses of its addresses:
/// a blank name, a blank library root, a REST address that does not parse,
/// an endpoint that is no HTTP(S) URL, a CSC address that does not parse.
pub open spec fn settings_refusal(
    s: AppSettings,
    rest_addr: Result<Seq<char>, Seq<char>>,
    csc_addr: Result<Seq<char>, Seq<char>>,
) -> Option<Seq<char>> {
    if trim(s.repo_name@).len() == 0 {
        Some("workspace_name must not be empty"@)
    } else if trim(s.library_root@).len() == 0 {
        Some("library_root must not be empty"@)
    } else if rest_addr is Err {
        Some(addr_refusal("rest.addr"@, rest_addr->Err_0))
    } else if !endpoint_ok(s.rest_endpoint@) {
        Some("rest.endpoint must start with http:// or https://"@)
    } else if csc_addr is Err {
        Some(addr_refusal("csc.addr"@, csc_addr->Err_0))
    } else {
        None
    }
}

/// The configuration a settings form turns `c` into once accepted.
pub open spec fn with_settings(
    c: ConfigView,
    s: AppSettings,
    rest_addr: Seq<char>,
    csc_addr: Seq<char>,
) -> ConfigView {
    ConfigView {
        workspace_name: trim(s.repo_name@),
        library_root: trim(s.library_root@),
        plugins_dir: plugins_dir_of(trim(s.library_root@)),
        rest_addr,
        rest_endpoint: endpoint_text(s.rest_endpoint@),
        csc_addr,
        start_hidden: s.start_hidden,
        quiet_start: s.quiet_start,
        ..c
    }
}

/// Plain view of an address parse.
pub open spec fn parse_text(p: Result<String, String>) -> Result<Seq<char>, Seq<char>> {
    match p {
        Ok(a) => Ok(a@),
        Err(e) => Err(e@),
    }
}

impl AppSettings {
    /// The settings form of a loaded configuration.
    pub fn from_config(config: &LocalrefConfig) -> (r: AppSettings)
        ensures
            settings_of(config@, r),
    {
        AppSettings {
            config_path: owned(config.source_path()),
            repo_name: owned(config.workspace_name()),
            library_root: owned(config.library_root()),
            rest_addr: owned(config.rest_addr()),
            rest_endpoint: owned(config.rest_endpoint()),
            csc_addr: owned(config.csc_addr()),
            start_hidden: config.desktop_start_hidden(),
            quiet_start: config.desktop_quiet_start(),
        }
    }

    /// Validate a settings form against a configuration; `rest_addr` and
    /// `csc_addr` are the parses of its address texts.  Returns the updated
    /// configuration, or the first refusal as invalid input.
    pub fn apply(
        self,
        config: LocalrefConfig,
        rest_addr: Result<String, String>,
        csc_addr: Result<String, String>,
    ) -> (r: Result<LocalrefConfig, FfiError>)
        ensures
            match settings_refusal(self, parse_text(rest_addr), parse_text(csc_addr)) {
                Some(m) => r matches Err(e) && ffi_parts(e) == (FfiErrorKind::InvalidInput, m),
                None => r matches Ok(c) && c@ == with_settings(
                    config@,
                    self,
                    parse_text(rest_addr)->Ok_0,
                    parse_text(csc_addr)->Ok_0,
                ) && (config_inv(config@) ==> config_inv(c@)),
            },
    {
        let mut config = config;
        let ghost c0 = config@;
        match config.set_workspace_name(self.repo_name.as_str()) {
            Ok(()) => {},
            Err(msg) => {
                return Err(FfiError::InvalidInput { msg });
            },
        }
        let library_root = trim_str(self.library_root.as_str());
        if library_root.as_str().is_empty() {
            return Err(FfiError::InvalidInput { msg: owned("library_root must not be empty") });
        }
        config.set_library_root(library_root.as_str());
        match config.set_rest_addr(rest_addr) {
            Ok(()) => {},
            Err(msg) => {
                return Err(FfiError::InvalidInput { msg });
            },
        }
        match config.set_rest_endpoint(self.rest_endpoint.as_str()) {
            Ok(()) => {},
            Err(msg) => {
                return Err(FfiError::InvalidInput { msg });
            },
        }
        match config.set_csc_addr(csc_addr) {
            Ok(()) => {},
            Err(msg) => {
                return Err(FfiError::InvalidInput { msg });
            },
        }
        config.set_desktop_start_hidden(self.start_hidden);
        config.set_desktop_quiet_start(self.quiet_start);
        Ok(config)
    }
}

/// Desktop-only layout preferences.
#[derive(Clone, Debug, PartialEq, Eq)]
pub struct DesktopUiSettings {
    pub author_visible: bool,
    pub venue_visible: bool,
    pub year_visible: bool,
    pub type_visible: bool,
    pub categories_visible: bool,
    pub detail_width: u32,
}

/// The visibility flags of a preferences form, in display order.
pub open spec fn column_flags(s: DesktopUiSettings) -> Seq<bool> {
    seq![s.author_visible, s.venue_visible, s.year_visible, s.type_visible, s.categories_visible]
}

/// The preferences form of a configuration: a column is visible when the
/// configuration lists it.
pub open spec fn ui_settings_of(c: ConfigView, s: DesktopUiSettings) -> bool {
    &&& forall|i: int| 0 <= i < 5 ==> #[trigger] column_flags(s)[i] == c.visible_columns.contains(
        known_columns()[i],
    )
    &&& s.detail_width == c.detail_width
}

/// The column names a preferences form makes visible, in display order.
pub open spec fn flagged_columns(flags: Seq<bool>, names: Seq<Seq<char>>) -> Seq<Seq<char>>
    decreases flags.len(),
{
    if flags.len() == 0 || names.len() == 0 {
        Seq::empty()
    } else {
        let rest = flagged_columns(flags.drop_last(), names.drop_last());
        if flags.last() {
            rest.push(names.last())
        } else {
            rest
        }
    }
}

/// The configuration a preferences form turns `c` into.
pub open spec fn with_ui_settings(c: ConfigView, s: DesktopUiSettings) -> ConfigView {
    ConfigView {
        visible_columns: flagged_columns(column_flags(s), known_columns()),
        detail_width: clamped_width(s.detail_width),
        ..c
    }
}

/// The kept names are exactly the known names that are requested.
proof fn lemma_keep_requested_contains(known: Seq<Seq<char>>, requested: Seq<String>, x: Seq<char>)
    ensures
        keep_requested(known, requested).contains(x) <==> (known.contains(x) && requested_has(
            requested,
            x,
        )),
    decreases known.len(),
{
    if known.len() > 0 {
        lemma_keep_requested_contains(known.drop_last(), requested, x);
        let rest = keep_requested(known.drop_last(), requested);
        if known.contains(x) {
            let i = choose|i: int| 0 <= i < known.len() && known[i] == x;
            if i < known.len() - 1 {
                assert(known.drop_last()[i] == x);
            }
        }
        if known.drop_last().contains(x) {
            let i = choose|i: int| 0 <= i < known.drop_last().len() && known.drop_last()[i] == x;
            assert(known[i] == x);
        }
        if requested_has(requested, known.last()) {
            assert(rest.push(known.last())[rest.len() as int] == known.last());
            if rest.push(known.last()).contains(x) && x != known.last() {
                let i = choose|i: int| 0 <= i < rest.len() + 1 && rest.push(known.last())[i] == x;
                assert(rest[i] == x);
            }
            if rest.contains(x) {
                let i = choose|i: int| 0 <= i < rest.len() && rest[i] == x;
                assert(rest.push(known.last())[i] == x);
            }
        }
        if known.contains(x) && !known.drop_last().contains(x) {
            let i = choose|i: int| 0 <= i < known.len() && known[i] == x;
            if i < known.len() - 1 {
                assert(known.drop_last()[i] == x);
            }
            assert(x == known.last());
        }
    }
}

/// The known column names are distinct.
proof fn lemma_known_columns_distinct()
    ensures
        forall|i: int, j: int|
            0 <= i < 5 && 0 <= j < 5 && i != j ==> known_columns()[i] != known_columns()[j],
{
    reveal_strlit("Author");
    reveal_strlit("Venue");
    reveal_strlit("Year");
    reveal_strlit("Type");
    reveal_strlit("Categories");
    assert("Author"@[0] == 'A');
    assert("Venue"@[0] == 'V');
    assert("Year"@[0] == 'Y');
    assert("Type"@[0] == 'T');
    assert("Categories"@[0] == 'C');
}

impl DesktopUiSettings {
    /// The preferences form of a loaded configuration.
    pub fn from_config(config: &LocalrefConfig) -> (r: DesktopUiSettings)
        ensures
            ui_settings_of(config@, r),
    {
        let columns = config.desktop_visible_columns();
        let r = DesktopUiSettings {
            author_visible: string_listed(columns, "Author"),
            venue_visible: string_listed(columns, "Venue"),
            year_visible: string_listed(columns, "Year"),
            type_visible: string_listed(columns, "Type"),
            categories_visible: string_listed(columns, "Categories"),
            detail_width: config.desktop_detail_width(),
        };
        proof {
            assert(string_views(columns@) =~= config@.visible_columns);
            assert forall|i: int| 0 <= i < 5 implies #[trigger] column_flags(r)[i]
                == config@.visible_columns.contains(known_columns()[i]) by {
                if i == 0 {
                } else if i == 1 {
                } else if i == 2 {
                } else if i == 3 {
                } else {
                }
            }
        }
        r
    }

    /// Apply a preferences form to a configuration.
    pub fn apply(&self, config: &mut LocalrefConfig)
        ensures
            final(config)@ == with_ui_settings(old(config)@, *self),
            config_inv(old(config)@) ==> config_inv(final(config)@),
    {
        let mut columns: Vec<String> = Vec::new();
        if self.author_visible {
            columns.push(owned("Author"));
        }
        if self.venue_visible {
            columns.push(owned("Venue"));
        }
        if self.year_visible {
            columns.push(owned("Year"));
        }
        if self.type_visible {
            columns.push(owned("Type"));
        }
        if self.categories_visible {
            columns.push(owned("Categories"));
        }
        let ghost requested = columns@;
        proof {
            reveal_with_fuel(flagged_columns, 6);
            assert(string_views(requested) =~= flagged_columns(column_flags(*self), known_columns()));
            lemma_flagged_requested(*self, requested);
            lemma_chosen_flagged(*self, requested);
        }
        config.set_desktop_visible_columns(columns);
        config.set_desktop_detail_width(self.detail_width);
    }
}

/// A name is among the flagged names exactly when one of its positions is
/// flagged.
proof fn lemma_flagged_contains(f: Seq<bool>, k: Seq<Seq<char>>, x: Seq<char>)
    requires
        f.len() == k.len(),
    ensures
        flagged_columns(f, k).contains(x) <==> exists|i: int| 0 <= i < f.len() && f[i] && k[i] == x,
    decreases f.len(),
{
    if f.len() > 0 {
        let fd = f.drop_last();
        let kd = k.drop_last();
        lemma_flagged_contains(fd, kd, x);
        let rest = flagged_columns(fd, kd);
        let out = flagged_columns(f, k);
        if out.contains(x) {
            let j = choose|j: int| 0 <= j < out.len() && out[j] == x;
            if f.last() && j == rest.len() {
                assert(f[f.len() - 1] && k[f.len() - 1] == x);
            } else {
                assert(rest[j] == x);
                assert(rest.contains(x));
                let i = choose|i: int| 0 <= i < fd.len() && fd[i] && kd[i] == x;
                assert(f[i] && k[i] == x);
            }
        }
        if exists|i: int| 0 <= i < f.len() && f[i] && k[i] == x {
            let i = choose|i: int| 0 <= i < f.len() && f[i] && k[i] == x;
            if i == f.len() - 1 {
                assert(out[rest.len() as int] == x);
            } else {
                assert(fd[i] && kd[i] == x);
                assert(rest.contains(x));
                let j = choose|j: int| 0 <= j < rest.len() && rest[j] == x;
                assert(out[j] == x);
            }
        }
    }
}

/// A list holding the flagged column names requests exactly the flagged
/// columns.
proof fn lemma_flagged_requested(s: DesktopUiSettings, requested: Seq<String>)
    requires
        string_views(requested) == flagged_columns(column_flags(s), known_columns()),
    ensures
        forall|i: int| 0 <= i < 5 ==> (#[trigger] column_flags(s)[i] <==> requested_has(requested, known_columns()[i])),
{
    lemma_known_columns_distinct();
    let f = column_flags(s);
    let k = known_columns();
    assert forall|i: int| 0 <= i < 5 implies (#[trigger] column_flags(s)[i] <==> requested_has(requested, known_columns()[i])) by {
        lemma_flagged_contains(f, k, k[i]);
        let sv = string_views(requested);
        if requested_has(requested, k[i]) {
            let m = choose|m: int| 0 <= m < requested.len() && (#[trigger] requested[m])@ == k[i];
            assert(sv[m] == k[i]);
            assert(sv.contains(k[i]));
            let j = choose|j: int| 0 <= j < f.len() && f[j] && k[j] == k[i];
            assert(j == i);
        }
        if f[i] {
            assert(sv.contains(k[i]));
            let m = choose|m: int| 0 <= m < sv.len() && sv[m] == k[i];
            assert(requested[m]@ == k[i]);
        }
    }
}

/// Choosing the columns of a preferences form's list gives the flagged
/// columns.
proof fn lemma_chosen_flagged(s: DesktopUiSettings, requested: Seq<String>)
    requires
        forall|i: int| 0 <= i < 5 ==> (#[trigger] column_flags(s)[i] <==> requested_has(requested, known_columns()[i])),
    ensures
        chosen_columns(requested) == flagged_columns(column_flags(s), known_columns()),
{
    let k = known_columns();
    let f = column_flags(s);
    assert forall|n: int| 0 <= n <= 5 implies #[trigger] keep_requested(k.take(n), requested)
        == flagged_columns(f.take(n), k.take(n)) by {
        lemma_keep_flagged_prefix(s, requested, n);
    }
    assert(k.take(5) =~= k);
    assert(f.take(5) =~= f);
}

proof fn lemma_keep_flagged_prefix(s: DesktopUiSettings, requested: Seq<String>, n: int)
    requires
        0 <= n <= 5,
        forall|i: int| 0 <= i < 5 ==> (#[trigger] column_flags(s)[i] <==> requested_has(requested, known_columns()[i])),
    ensures
        keep_requested(known_columns().take(n), requested) == flagged_columns(
            column_flags(s).take(n),
            known_columns().take(n),
        ),
    decreases n,
{
    if n > 0 {
        lemma_keep_flagged_prefix(s, requested, n - 1);
        let k = known_columns();
        let f = column_flags(s);
        assert(k.take(n).drop_last() =~= k.take(n - 1));
        assert(f.take(n).drop_last() =~= f.take(n - 1));
        assert(k.take(n).last() == k[n - 1]);
        assert(f.take(n).last() == f[n - 1]);
        assert(f[n - 1] <==> requested_has(requested, k[n - 1]));
    }
}

/// Layout preferences read back after they were applied are the ones
/// applied, with the detail width clamped.
pub proof fn law_ui_settings_round_trip(c: ConfigView, s: DesktopUiSettings, t: DesktopUiSettings)
    requires
        ui_settings_of(with_ui_settings(c, s), t),
    ensures
        column_flags(t) == column_flags(s),
        t.detail_width == clamped_width(s.detail_width),
{
    lemma_known_columns_distinct();
    let f = column_flags(s);
    let k = known_columns();
    assert forall|i: int| 0 <= i < 5 implies column_flags(t)[i] == f[i] by {
        lemma_flagged_contains(f, k, k[i]);
        assert(column_flags(t)[i] == flagged_columns(f, k).contains(k[i]));
        if flagged_columns(f, k).contains(k[i]) {
            let j = choose|j: int| 0 <= j < f.len() && f[j] && k[j] == k[i];
            assert(j == i);
        }
    }
    assert(column_flags(t) =~= column_flags(s));
}

/// Application settings read back after they were accepted are the ones
/// submitted: the name and library root trimmed, the endpoint normalised,
/// the addresses as parsed.
pub proof fn law_app_settings_round_trip(
    c: ConfigView,
    s: AppSettings,
    rest_addr: Seq<char>,
    csc_addr: Seq<char>,
    t: AppSettings,
)
    requires
        settings_of(with_settings(c, s, rest_addr, csc_addr), t),
    ensures
        t.repo_name@ == trim(s.repo_name@),
        t.library_root@ == trim(s.library_root@),
        t.rest_addr@ == rest_addr,
        t.rest_endpoint@ == endpoint_text(s.rest_endpoint@),
        t.csc_addr@ == csc_addr,
        t.start_hidden == s.start_hidden,
        t.quiet_start == s.quiet_start,
        t.config_path@ == c.source_path,
{
}

/// Foreign listener invoked on each daemon event; the desktop application
/// implements it.
pub trait DaemonEventListener {
    /// Called after each completed library mutation.
    fn on_event(&self, event: DaemonEvent);
}

} // verus!
