//! Process configuration: defaults, validation, editable settings and the
//! TOML text written back to the configuration file.
//!
//! Reading the file and parsing its TOML happen around this module, which
//! receives the parsed fields as a [`ConfigFile`].  Missing values take
//! documented defaults; invalid addresses and logging limits are refused.

use vstd::prelude::*;
use crate::model::opt_view;
use crate::text::{
    chars_of, decimal, decimal_string, has_prefix, is_blank, join, join_path, owned, push_char,
    push_str, str_eq, string_of, trim, trim_str,
};

verus! {

/// Default Zotero Connector listener address.
pub open spec fn default_csc_addr() -> Seq<char> {
    "127.0.0.1:23119"@
}

/// Default REST listener address.
pub open spec fn default_rest_addr() -> Seq<char> {
    "127.0.0.1:24817"@
}

/// Default maximum size of one log file.
pub const DEFAULT_LOG_MAX_FILE_BYTES: u64 = 10485760;

/// Default number of rotated log files kept.
pub const DEFAULT_LOG_BACKUP_COUNT: u32 = 2;

/// Smallest accepted log file size.
pub const MIN_LOG_FILE_BYTES: u64 = 65536;

/// Largest accepted number of rotated log files.
pub const MAX_LOG_BACKUP_COUNT: u32 = 10;

/// Narrowest detail pane.
pub const MIN_DETAIL_WIDTH: u32 = 340;

/// Widest detail pane.
pub const MAX_DETAIL_WIDTH: u32 = 620;

// ---------------------------------------------------------------------------
// Socket addresses
// ---------------------------------------------------------------------------

/// The outcome of parsing an address setting, as plain values: the parsed
/// address displayed, or the parser's error message.
pub open spec fn parse_view(p: Result<String, String>) -> Result<Seq<char>, Seq<char>> {
    match p {
        Ok(a) => Ok(a@),
        Err(e) => Err(e@),
    }
}

/// The error text for an invalid address in `field`.
pub open spec fn addr_refusal(field: Seq<char>, error: Seq<char>) -> Seq<char> {
    field + " must be a socket address: "@ + error
}

/// The outcome of an address setting given its parse: the displayed
/// address, or `<field> must be a socket address: <error>`.
pub fn checked_addr(parsed: Result<String, String>, field: &str) -> (r: Result<String, String>)
    ensures
        match parsed {
            Ok(a) => r == Ok::<String, String>(a),
            Err(e) => r matches Err(m) && m@ == addr_refusal(field@, e@),
        },
{
    match parsed {
        Ok(a) => Ok(a),
        Err(e) => {
            let mut m = owned(field);
            push_str(&mut m, " must be a socket address: ");
            push_str(&mut m, e.as_str());
            Err(m)
        },
    }
}

// ---------------------------------------------------------------------------
// Parsed configuration file
// ---------------------------------------------------------------------------

/// `[rest]` table.
#[derive(Clone, Debug, Default, PartialEq, Eq)]
pub struct RestConfigFile {
    pub addr: Option<String>,
    pub endpoint: Option<String>,
}

/// `[csc]` table.
#[derive(Clone, Debug, Default, PartialEq, Eq)]
pub struct CscConfigFile {
    pub addr: Option<String>,
}

/// `[desktop]` table.
#[derive(Clone, Debug, Default, PartialEq, Eq)]
pub struct DesktopConfigFile {
    pub start_hidden: Option<bool>,
    pub quiet_start: Option<bool>,
    pub visible_columns: Option<Vec<String>>,
    pub detail_width: Option<u32>,
}

/// `[logging]` table.
#[derive(Clone, Debug, Default, PartialEq, Eq)]
pub struct LoggingConfigFile {
    pub max_file_bytes: Option<u64>,
    pub backup_count: Option<u32>,
}

/// The parsed configuration file; every value is optional.
#[derive(Clone, Debug, Default, PartialEq, Eq)]
pub struct ConfigFile {
    /// Workspace display name (`workspace_name`, formerly `repo_name`).
    pub workspace_name: Option<String>,
    /// Library root directory.
    pub library_root: Option<String>,
    pub rest: Option<RestConfigFile>,
    pub csc: Option<CscConfigFile>,
    pub desktop: Option<DesktopConfigFile>,
    pub logging: Option<LoggingConfigFile>,
}

// ---------------------------------------------------------------------------
// Settings rules
// ---------------------------------------------------------------------------

/// The desktop list columns, in display order.
pub open spec fn known_columns() -> Seq<Seq<char>> {
    seq!["Author"@, "Venue"@, "Year"@, "Type"@, "Categories"@]
}

/// Some requested column has this name.
pub open spec fn requested_has(requested: Seq<String>, name: Seq<char>) -> bool {
    exists|i: int| 0 <= i < requested.len() && (#[trigger] requested[i])@ == name
}

/// The names of `known` that are requested, in `known`'s order.
pub open spec fn keep_requested(known: Seq<Seq<char>>, requested: Seq<String>) -> Seq<Seq<char>>
    decreases known.len(),
{
    if known.len() == 0 {
        known
    } else {
        let rest = keep_requested(known.drop_last(), requested);
        if requested_has(requested, known.last()) {
            rest.push(known.last())
        } else {
            rest
        }
    }
}

/// The known columns that `requested` names, in display order.
pub open spec fn chosen_columns(requested: Seq<String>) -> Seq<Seq<char>> {
    keep_requested(known_columns(), requested)
}

/// A detail width clamped to the accepted range.
pub open spec fn clamped_width(w: u32) -> u32 {
    if w < MIN_DETAIL_WIDTH {
        MIN_DETAIL_WIDTH
    } else if w > MAX_DETAIL_WIDTH {
        MAX_DETAIL_WIDTH
    } else {
        w
    }
}

/// Drop every trailing `/`.
pub open spec fn strip_trailing_slashes(s: Seq<char>) -> Seq<char>
    decreases s.len(),
{
    if s.len() > 0 && s.last() == '/' {
        strip_trailing_slashes(s.drop_last())
    } else {
        s
    }
}

/// The endpoint kept for a REST endpoint setting: trimmed, trailing `/`
/// dropped.
pub open spec fn endpoint_text(value: Seq<char>) -> Seq<char> {
    strip_trailing_slashes(trim(value))
}

/// An endpoint is accepted when it is an HTTP(S) URL.
pub open spec fn endpoint_ok(value: Seq<char>) -> bool {
    has_prefix(endpoint_text(value), "http://"@) || has_prefix(endpoint_text(value), "https://"@)
}

/// Plugins directory of a library root.
pub open spec fn plugins_dir_of(root: Seq<char>) -> Seq<char> {
    join_path(join_path(root, ".localref"@), "plugins"@)
}

/// Library root used when the file names none.
pub open spec fn default_library_root(home: Seq<char>) -> Seq<char> {
    join_path(join_path(home, ".localref"@), "libroot"@)
}

/// The columns chosen from a request, as strings in display order.
pub fn select_columns(columns: &Vec<String>) -> (r: Vec<String>)
    ensures
        r@.map_values(|c: String| c@) == chosen_columns(columns@),
{
    let known: Vec<&str> = vec!["Author", "Venue", "Year", "Type", "Categories"];
    let ghost kv = known@.map_values(|k: &str| k@);
    assert(kv =~= known_columns());
    let mut out: Vec<String> = Vec::new();
    let mut i: usize = 0;
    while i < known.len()
        invariant
            i <= known@.len(),
            kv == known@.map_values(|k: &str| k@),
            kv == known_columns(),
            out@.map_values(|c: String| c@) == keep_requested(kv.take(i as int), columns@),
        decreases known.len() - i,
    {
        let mut found = false;
        let mut j: usize = 0;
        while j < columns.len()
            invariant
                i < known@.len(),
                j <= columns@.len(),
                found <==> exists|m: int| 0 <= m < j && (#[trigger] columns@[m])@ == known@[i as int]@,
            decreases columns.len() - j,
        {
            if str_eq(columns[j].as_str(), known[i]) {
                found = true;
            }
            j = j + 1;
        }
        let ghost before = out@;
        proof {
            assert(kv.take(i + 1).drop_last() =~= kv.take(i as int));
            assert(kv.take(i + 1).last() == kv[i as int]);
            assert(kv[i as int] == known@[i as int]@);
        }
        if found {
            out.push(owned(known[i]));
            proof {
                assert(out@.map_values(|c: String| c@) =~= before.map_values(|c: String| c@).push(
                    known@[i as int]@,
                ));
            }
        }
        i = i + 1;
    }
    proof {
        assert(kv.take(known@.len() as int) =~= kv);
    }
    out
}

/// Clamp a detail width to the accepted range.
pub fn clamp_detail_width(width: u32) -> (r: u32)
    ensures
        r == clamped_width(width),
        MIN_DETAIL_WIDTH <= r <= MAX_DETAIL_WIDTH,
{
    if width < MIN_DETAIL_WIDTH {
        MIN_DETAIL_WIDTH
    } else if width > MAX_DETAIL_WIDTH {
        MAX_DETAIL_WIDTH
    } else {
        width
    }
}

// ---------------------------------------------------------------------------
// TOML text
// ---------------------------------------------------------------------------

/// `char::is_control`: the C0 and C1 control codes.
pub open spec fn is_control(c: char) -> bool {
    c <= '\u{1f}' || ('\u{7f}' <= c && c <= '\u{9f}')
}

/// Upper-case hexadecimal digit.
pub open spec fn hex_up(d: int) -> char {
    if d < 10 {
        (d + 48) as char
    } else {
        (d - 10 + 65) as char
    }
}

/// The TOML basic-string escape of one character.
pub open spec fn escaped_char(c: char) -> Seq<char> {
    if c == '\\' {
        seq!['\\', '\\']
    } else if c == '"' {
        seq!['\\', '"']
    } else if c == '\n' {
        seq!['\\', 'n']
    } else if c == '\r' {
        seq!['\\', 'r']
    } else if c == '\t' {
        seq!['\\', 't']
    } else if is_control(c) {
        seq!['\\', 'u', '0', '0', hex_up((c as u32) as int / 16), hex_up((c as u32) as int % 16)]
    } else {
        seq![c]
    }
}

/// The escaped body of a TOML basic string.
pub open spec fn toml_escaped(s: Seq<char>) -> Seq<char>
    decreases s.len(),
{
    if s.len() == 0 {
        Seq::empty()
    } else {
        toml_escaped(s.drop_last()) + escaped_char(s.last())
    }
}

fn hex_up_char(d: u32) -> (c: char)
    requires
        d < 16,
    ensures
        c == hex_up(d as int),
{
    if d < 10 {
        ((d + 48) as u8) as char
    } else {
        ((d - 10 + 65) as u8) as char
    }
}

/// Code point of a character below `U+00A0`.
fn low_code(c: char) -> (r: u32)
    requires
        c <= '\u{9f}',
    ensures
        r == c as u32,
        r <= 0x9f,
{
    c as u32
}

/// Escape a value for a TOML basic (double-quoted) string.
pub fn escape_toml_basic(value: &str) -> (r: String)
    ensures
        r@ == toml_escaped(value@),
{
    let v = chars_of(value);
    let mut out: Vec<char> = Vec::new();
    let mut i: usize = 0;
    while i < v.len()
        invariant
            i <= v@.len(),
            out@ == toml_escaped(v@.take(i as int)),
        decreases v.len() - i,
    {
        let c = v[i];
        let ghost before = out@;
        proof {
            assert(v@.take(i + 1).drop_last() =~= v@.take(i as int));
            assert(v@.take(i + 1).last() == c);
        }
        if c == '\\' {
            out.push('\\');
            out.push('\\');
        } else if c == '"' {
            out.push('\\');
            out.push('"');
        } else if c == '\n' {
            out.push('\\');
            out.push('n');
        } else if c == '\r' {
            out.push('\\');
            out.push('r');
        } else if c == '\t' {
            out.push('\\');
            out.push('t');
        } else if c <= '\u{1f}' || ('\u{7f}' <= c && c <= '\u{9f}') {
            let code: u32 = low_code(c);
            out.push('\\');
            out.push('u');
            out.push('0');
            out.push('0');
            out.push(hex_up_char(code / 16));
            out.push(hex_up_char(code % 16));
        } else {
            out.push(c);
        }
        proof {
            assert(out@ =~= before + escaped_char(c));
        }
        i = i + 1;
    }
    proof {
        assert(v@.take(v@.len() as int) =~= v@);
    }
    string_of(&out)
}

/// `true` or `false`.
pub open spec fn bool_text(b: bool) -> Seq<char> {
    if b {
        "true"@
    } else {
        "false"@
    }
}

/// Column names as a TOML array body: each quoted and escaped, joined by
/// `, `.
pub open spec fn columns_text(cols: Seq<Seq<char>>) -> Seq<char>
    decreases cols.len(),
{
    if cols.len() == 0 {
        Seq::empty()
    } else if cols.len() == 1 {
        seq!['"'] + toml_escaped(cols[0]) + seq!['"']
    } else {
        columns_text(cols.drop_last()) + ", "@ + seq!['"'] + toml_escaped(cols.last()) + seq!['"']
    }
}

// ---------------------------------------------------------------------------
// The configuration
// ---------------------------------------------------------------------------

/// Validated process configuration.
#[derive(Clone, Debug, PartialEq, Eq)]
pub struct LocalrefConfig {
    source_path: String,
    workspace_name: String,
    library_root: String,
    rest_addr: String,
    rest_endpoint: String,
    csc_addr: String,
    desktop_start_hidden: bool,
    desktop_quiet_start: bool,
    desktop_visible_columns: Vec<String>,
    desktop_detail_width: u32,
    log_max_file_bytes: u64,
    log_backup_count: u32,
    plugins_dir: String,
}

/// The configuration's settings as plain values.
pub struct ConfigView {
    pub source_path: Seq<char>,
    pub workspace_name: Seq<char>,
    pub library_root: Seq<char>,
    pub rest_addr: Seq<char>,
    pub rest_endpoint: Seq<char>,
    pub csc_addr: Seq<char>,
    pub start_hidden: bool,
    pub quiet_start: bool,
    pub visible_columns: Seq<Seq<char>>,
    pub detail_width: u32,
    pub log_max_file_bytes: u64,
    pub log_backup_count: u32,
    pub plugins_dir: Seq<char>,
}

impl View for LocalrefConfig {
    type V = ConfigView;

    closed spec fn view(&self) -> ConfigView {
        ConfigView {
            source_path: self.source_path@,
            workspace_name: self.workspace_name@,
            library_root: self.library_root@,
            rest_addr: self.rest_addr@,
            rest_endpoint: self.rest_endpoint@,
            csc_addr: self.csc_addr@,
            start_hidden: self.desktop_start_hidden,
            quiet_start: self.desktop_quiet_start,
            visible_columns: self.desktop_visible_columns@.map_values(|c: String| c@),
            detail_width: self.desktop_detail_width,
            log_max_file_bytes: self.log_max_file_bytes,
            log_backup_count: self.log_backup_count,
            plugins_dir: self.plugins_dir@,
        }
    }
}

/// Every configuration keeps its settings in range: the detail width
/// clamped, the logging limits accepted, the plugins directory under the
/// library root and the columns known ones in display order.
pub open spec fn config_inv(c: ConfigView) -> bool {
    &&& MIN_DETAIL_WIDTH <= c.detail_width <= MAX_DETAIL_WIDTH
    &&& c.log_max_file_bytes >= MIN_LOG_FILE_BYTES
    &&& c.log_backup_count <= MAX_LOG_BACKUP_COUNT
    &&& c.plugins_dir == plugins_dir_of(c.library_root)
    &&& exists|req: Seq<String>| c.visible_columns == chosen_columns(req)
}

/// The REST address text a file asks for (the default when it names none).
pub open spec fn rest_addr_text_of(file: ConfigFile) -> Seq<char> {
    match file.rest {
        Some(r) => match r.addr {
            Some(a) => a@,
            None => default_rest_addr(),
        },
        None => default_rest_addr(),
    }
}

/// The CSC address text a file asks for (the default when it names none).
pub open spec fn csc_addr_text_of(file: ConfigFile) -> Seq<char> {
    match file.csc {
        Some(c) => match c.addr {
            Some(a) => a@,
            None => default_csc_addr(),
        },
        None => default_csc_addr(),
    }
}

/// The REST address text to parse for a file.
pub fn rest_addr_text(file: &ConfigFile) -> (r: &str)
    ensures
        r@ == rest_addr_text_of(*file),
{
    proof {
        reveal_strlit("127.0.0.1:24817");
    }
    match &file.rest {
        Some(r) => match &r.addr {
            Some(a) => a.as_str(),
            None => "127.0.0.1:24817",
        },
        None => "127.0.0.1:24817",
    }
}

/// The CSC address text to parse for a file.
pub fn csc_addr_text(file: &ConfigFile) -> (r: &str)
    ensures
        r@ == csc_addr_text_of(*file),
{
    match &file.csc {
        Some(c) => match &c.addr {
            Some(a) => a.as_str(),
            None => "127.0.0.1:23119",
        },
        None => "127.0.0.1:23119",
    }
}

/// The workspace name a parsed file gives.
pub open spec fn file_workspace_name(file: ConfigFile) -> Seq<char> {
    match file.workspace_name {
        Some(n) => if trim(n@).len() > 0 {
            trim(n@)
        } else {
            "Localref"@
        },
        None => "Localref"@,
    }
}

/// The first validation failure of a parsed file, if any, in the order the
/// checks run: library root (home directory), REST address, CSC address,
/// log file size, log backup count.
pub open spec fn file_refusal(
    file: ConfigFile,
    home: Option<Seq<char>>,
    rest_parse: Result<Seq<char>, Seq<char>>,
    csc_parse: Result<Seq<char>, Seq<char>>,
) -> Option<Seq<char>> {
    let max_bytes = match file.logging {
        Some(l) => match l.max_file_bytes {
            Some(m) => m,
            None => DEFAULT_LOG_MAX_FILE_BYTES,
        },
        None => DEFAULT_LOG_MAX_FILE_BYTES,
    };
    let backups = match file.logging {
        Some(l) => match l.backup_count {
            Some(b) => b,
            None => DEFAULT_LOG_BACKUP_COUNT,
        },
        None => DEFAULT_LOG_BACKUP_COUNT,
    };
    if file.library_root is None && home is None {
        Some("LOCALREF_CONFIG is not set and no home directory was found"@)
    } else if rest_parse is Err {
        Some(addr_refusal("rest.addr"@, rest_parse->Err_0))
    } else if csc_parse is Err {
        Some(addr_refusal("csc.addr"@, csc_parse->Err_0))
    } else if max_bytes < MIN_LOG_FILE_BYTES {
        Some("logging.max_file_bytes must be at least 65536"@)
    } else if backups > MAX_LOG_BACKUP_COUNT {
        Some("logging.backup_count must be between 0 and 10"@)
    } else {
        None
    }
}

impl LocalrefConfig {
    /// Build the configuration from a parsed file.  `home` is the user's
    /// home directory, used for the default library root; `rest_addr` and
    /// `csc_addr` are the parses of the file's address texts
    /// ([`rest_addr_text`], [`csc_addr_text`]).
    pub fn from_config_file(
        source_path: &str,
        file: ConfigFile,
        home: Option<&str>,
        rest_addr: Result<String, String>,
        csc_addr: Result<String, String>,
    ) -> (r: Result<LocalrefConfig, String>)
        ensures
            match r {
                Ok(c) => {
                    let v = c@;
                    let desktop = match file.desktop {
                        Some(d) => d,
                        None => DesktopConfigFile {
                            start_hidden: None,
                            quiet_start: None,
                            visible_columns: None,
                            detail_width: None,
                        },
                    };
                    &&& file_refusal(file, opt_slice(home), parse_view(rest_addr), parse_view(csc_addr)) is None
                    &&& config_inv(v)
                    &&& v.source_path == source_path@
                    &&& v.workspace_name == file_workspace_name(file)
                    &&& v.library_root == match file.library_root {
                        Some(root) => root@,
                        None => default_library_root(opt_slice(home)->0),
                    }
                    &&& v.plugins_dir == plugins_dir_of(v.library_root)
                    &&& parse_view(rest_addr) == Ok::<Seq<char>, Seq<char>>(v.rest_addr)
                    &&& v.rest_endpoint == match file.rest {
                        Some(r) => match r.endpoint {
                            Some(e) => e@,
                            None => "http://"@ + v.rest_addr,
                        },
                        None => "http://"@ + v.rest_addr,
                    }
                    &&& parse_view(csc_addr) == Ok::<Seq<char>, Seq<char>>(v.csc_addr)
                    &&& v.start_hidden == match desktop.start_hidden {
                        Some(b) => b,
                        None => true,
                    }
                    &&& v.quiet_start == match desktop.quiet_start {
                        Some(b) => b,
                        None => true,
                    }
                    &&& v.visible_columns == match desktop.visible_columns {
                        Some(cols) => chosen_columns(cols@),
                        None => seq!["Author"@, "Venue"@, "Year"@, "Type"@],
                    }
                    &&& v.detail_width == clamped_width(
                        match desktop.detail_width {
                            Some(w) => w,
                            None => 420,
                        },
                    )
                    &&& v.log_max_file_bytes == match file.logging {
                        Some(l) => match l.max_file_bytes {
                            Some(m) => m,
                            None => DEFAULT_LOG_MAX_FILE_BYTES,
                        },
                        None => DEFAULT_LOG_MAX_FILE_BYTES,
                    }
                    &&& v.log_backup_count == match file.logging {
                        Some(l) => match l.backup_count {
                            Some(b) => b,
                            None => DEFAULT_LOG_BACKUP_COUNT,
                        },
                        None => DEFAULT_LOG_BACKUP_COUNT,
                    }
                },
                Err(m) => file_refusal(file, opt_slice(home), parse_view(rest_addr), parse_view(csc_addr)) == Some(m@),
            },
    {
        let library_root = match &file.library_root {
            Some(root) => root.clone(),
            None => match home {
                Some(h) => {
                    let state = join(h, ".localref");
                    join(state.as_str(), "libroot")
                },
                None => {
                    return Err(owned("LOCALREF_CONFIG is not set and no home directory was found"));
                },
            },
        };
        let workspace_name = match &file.workspace_name {
            Some(n) => {
                let t = trim_str(n.as_str());
                if t.as_str().is_empty() {
                    owned("Localref")
                } else {
                    t
                }
            },
            None => owned("Localref"),
        };
        let rest_addr = checked_addr(rest_addr, "rest.addr")?;
        let rest_endpoint = match &file.rest {
            Some(r) => match &r.endpoint {
                Some(e) => e.clone(),
                None => crate::text::concat2("http://", rest_addr.as_str()),
            },
            None => crate::text::concat2("http://", rest_addr.as_str()),
        };
        let csc_addr = checked_addr(csc_addr, "csc.addr")?;
        let state = join(library_root.as_str(), ".localref");
        let plugins_dir = join(state.as_str(), "plugins");
        let log_max_file_bytes: u64 = match &file.logging {
            Some(l) => match l.max_file_bytes {
                Some(m) => m,
                None => DEFAULT_LOG_MAX_FILE_BYTES,
            },
            None => DEFAULT_LOG_MAX_FILE_BYTES,
        };
        if log_max_file_bytes < MIN_LOG_FILE_BYTES {
            return Err(owned("logging.max_file_bytes must be at least 65536"));
        }
        let log_backup_count: u32 = match &file.logging {
            Some(l) => match l.backup_count {
                Some(b) => b,
                None => DEFAULT_LOG_BACKUP_COUNT,
            },
            None => DEFAULT_LOG_BACKUP_COUNT,
        };
        if log_backup_count > MAX_LOG_BACKUP_COUNT {
            return Err(owned("logging.backup_count must be between 0 and 10"));
        }
        let (start_hidden, quiet_start, detail_width) = match &file.desktop {
            Some(d) => (
                match d.start_hidden {
                    Some(b) => b,
                    None => true,
                },
                match d.quiet_start {
                    Some(b) => b,
                    None => true,
                },
                match d.detail_width {
                    Some(w) => w,
                    None => 420,
                },
            ),
            None => (true, true, 420),
        };
        let requested: Vec<String> = match &file.desktop {
            Some(d) => match &d.visible_columns {
                Some(cols) => cols.clone(),
                None => vec![owned("Author"), owned("Venue"), owned("Year"), owned("Type")],
            },
            None => vec![owned("Author"), owned("Venue"), owned("Year"), owned("Type")],
        };
        let columns = select_columns(&requested);
        proof {
            if file.desktop is None || file.desktop->0.visible_columns is None {
                lemma_default_columns(requested@);
            }
        }
        let config = LocalrefConfig {
            source_path: owned(source_path),
            workspace_name,
            library_root,
            rest_addr,
            rest_endpoint,
            csc_addr,
            desktop_start_hidden: start_hidden,
            desktop_quiet_start: quiet_start,
            desktop_visible_columns: columns,
            desktop_detail_width: clamp_detail_width(detail_width),
            log_max_file_bytes,
            log_backup_count,
            plugins_dir,
        };
        Ok(config)
    }
}

/// The configuration file text written for a configuration.
pub open spec fn config_text(v: ConfigView) -> Seq<char> {
    "workspace_name = \""@ + toml_escaped(v.workspace_name) + "\"\nlibrary_root = \""@
        + toml_escaped(v.library_root) + "\"\n\n[rest]\naddr = \""@ + v.rest_addr
        + "\"\nendpoint = \""@ + v.rest_endpoint + "\"\n\n[csc]\naddr = \""@ + v.csc_addr
        + "\"\n\n[desktop]\nstart_hidden = "@ + bool_text(v.start_hidden) + "\nquiet_start = "@
        + bool_text(v.quiet_start) + "\nvisible_columns = ["@ + columns_text(v.visible_columns)
        + "]\ndetail_width = "@ + decimal(v.detail_width as nat) + "\n\n[logging]\nmax_file_bytes = "@
        + decimal(v.log_max_file_bytes as nat) + "\nbackup_count = "@ + decimal(
        v.log_backup_count as nat,
    ) + "\n"@
}

fn push_bool(out: &mut String, b: bool)
    ensures
        final(out)@ == old(out)@ + bool_text(b),
{
    if b {
        push_str(out, "true");
    } else {
        push_str(out, "false");
    }
}

fn push_columns(out: &mut String, columns: &Vec<String>)
    ensures
        final(out)@ == old(out)@ + columns_text(columns@.map_values(|c: String| c@)),
{
    let mut i: usize = 0;
    while i < columns.len()
        invariant
            i <= columns@.len(),
            out@ == old(out)@ + columns_text(columns@.take(i as int).map_values(|c: String| c@)),
        decreases columns.len() - i,
    {
        proof {
            assert(columns@.take(i + 1).map_values(|c: String| c@).drop_last() =~= columns@.take(i as int).map_values(|c: String| c@));
            assert(columns@.take(i + 1).map_values(|c: String| c@).last() == columns@[i as int]@);
        }
        if i > 0 {
            push_str(out, ", ");
        }
        push_char(out, '"');
        push_str(out, escape_toml_basic(columns[i].as_str()).as_str());
        push_char(out, '"');
        proof {
            if i == 0 {
                assert(columns@.take(0).map_values(|c: String| c@) =~= Seq::<Seq<char>>::empty());
            }
        }
        i = i + 1;
    }
    proof {
        assert(columns@.take(columns@.len() as int) =~= columns@);
    }
}

impl LocalrefConfig {
    /// The configuration file text for this configuration.
    pub fn to_toml(&self) -> (r: String)
        ensures
            r@ == config_text(self@),
    {
        let mut out = owned("workspace_name = \"");
        push_str(&mut out, escape_toml_basic(self.workspace_name.as_str()).as_str());
        push_str(&mut out, "\"\nlibrary_root = \"");
        push_str(&mut out, escape_toml_basic(self.library_root.as_str()).as_str());
        push_str(&mut out, "\"\n\n[rest]\naddr = \"");
        push_str(&mut out, self.rest_addr.as_str());
        push_str(&mut out, "\"\nendpoint = \"");
        push_str(&mut out, self.rest_endpoint.as_str());
        push_str(&mut out, "\"\n\n[csc]\naddr = \"");
        push_str(&mut out, self.csc_addr.as_str());
        push_str(&mut out, "\"\n\n[desktop]\nstart_hidden = ");
        push_bool(&mut out, self.desktop_start_hidden);
        push_str(&mut out, "\nquiet_start = ");
        push_bool(&mut out, self.desktop_quiet_start);
        push_str(&mut out, "\nvisible_columns = [");
        push_columns(&mut out, &self.desktop_visible_columns);
        push_str(&mut out, "]\ndetail_width = ");
        push_str(&mut out, decimal_string(self.desktop_detail_width as u64).as_str());
        push_str(&mut out, "\n\n[logging]\nmax_file_bytes = ");
        push_str(&mut out, decimal_string(self.log_max_file_bytes).as_str());
        push_str(&mut out, "\nbackup_count = ");
        push_str(&mut out, decimal_string(self.log_backup_count as u64).as_str());
        push_str(&mut out, "\n");
        out
    }

    /// Set the library root; the plugins directory follows it.
    pub fn set_library_root(&mut self, root: &str)
        ensures
            final(self)@ == (ConfigView {
                library_root: root@,
                plugins_dir: plugins_dir_of(root@),
                ..old(self)@
            }),
            config_inv(old(self)@) ==> config_inv(final(self)@),
    {
        let state = join(root, ".localref");
        self.plugins_dir = join(state.as_str(), "plugins");
        self.library_root = owned(root);
    }

    /// Set the workspace name (trimmed); a blank name is refused.
    pub fn set_workspace_name(&mut self, name: &str) -> (r: Result<(), String>)
        ensures
            trim(name@).len() > 0 ==> r is Ok && final(self)@ == (ConfigView {
                workspace_name: trim(name@),
                ..old(self)@
            }),
            trim(name@).len() == 0 ==> (r matches Err(m) && m@ == "workspace_name must not be empty"@)
                && final(self)@ == old(self)@,
            config_inv(old(self)@) ==> config_inv(final(self)@),
    {
        let t = trim_str(name);
        if t.as_str().is_empty() {
            return Err(owned("workspace_name must not be empty"));
        }
        self.workspace_name = t;
        Ok(())
    }

    /// Former name of [`LocalrefConfig::set_workspace_name`].
    pub fn set_repo_name(&mut self, name: &str) -> (r: Result<(), String>)
        ensures
            trim(name@).len() > 0 ==> r is Ok && final(self)@ == (ConfigView {
                workspace_name: trim(name@),
                ..old(self)@
            }),
            trim(name@).len() == 0 ==> (r matches Err(m) && m@ == "workspace_name must not be empty"@)
                && final(self)@ == old(self)@,
            config_inv(old(self)@) ==> config_inv(final(self)@),
    {
        self.set_workspace_name(name)
    }

    /// Set the REST address from its parse (see [`checked_addr`]).
    pub fn set_rest_addr(&mut self, parsed: Result<String, String>) -> (r: Result<(), String>)
        ensures
            match parsed {
                Ok(a) => r is Ok && final(self)@ == (ConfigView { rest_addr: a@, ..old(self)@ }),
                Err(e) => (r matches Err(m) && m@ == addr_refusal("rest.addr"@, e@))
                    && final(self)@ == old(self)@,
            },
            config_inv(old(self)@) ==> config_inv(final(self)@),
    {
        self.rest_addr = checked_addr(parsed, "rest.addr")?;
        Ok(())
    }

    /// Set the CSC address from its parse (see [`checked_addr`]).
    pub fn set_csc_addr(&mut self, parsed: Result<String, String>) -> (r: Result<(), String>)
        ensures
            match parsed {
                Ok(a) => r is Ok && final(self)@ == (ConfigView { csc_addr: a@, ..old(self)@ }),
                Err(e) => (r matches Err(m) && m@ == addr_refusal("csc.addr"@, e@))
                    && final(self)@ == old(self)@,
            },
            config_inv(old(self)@) ==> config_inv(final(self)@),
    {
        self.csc_addr = checked_addr(parsed, "csc.addr")?;
        Ok(())
    }

    /// Set the REST endpoint: trimmed, trailing `/` dropped; it must be an
    /// HTTP(S) URL.
    pub fn set_rest_endpoint(&mut self, value: &str) -> (r: Result<(), String>)
        ensures
            endpoint_ok(value@) ==> r is Ok && final(self)@ == (ConfigView {
                rest_endpoint: endpoint_text(value@),
                ..old(self)@
            }),
            !endpoint_ok(value@) ==> (r matches Err(m) && m@
                == "rest.endpoint must start with http:// or https://"@)
                && final(self)@ == old(self)@,
            config_inv(old(self)@) ==> config_inv(final(self)@),
    {
        let t = trim_str(value);
        let mut v = chars_of(t.as_str());
        let ghost all = v@;
        while v.len() > 0 && v[v.len() - 1] == '/'
            invariant
                strip_trailing_slashes(v@) == strip_trailing_slashes(all),
            decreases v.len(),
        {
            let _ = v.pop();
        }
        let http = chars_of("http://");
        let https = chars_of("https://");
        if !(crate::text::starts_with_chars(&v, &http) || crate::text::starts_with_chars(&v, &https)) {
            return Err(owned("rest.endpoint must start with http:// or https://"));
        }
        self.rest_endpoint = string_of(&v);
        Ok(())
    }

    /// Set whether the desktop app starts hidden.
    pub fn set_desktop_start_hidden(&mut self, value: bool)
        ensures
            final(self)@ == (ConfigView { start_hidden: value, ..old(self)@ }),
            config_inv(old(self)@) ==> config_inv(final(self)@),
    {
        self.desktop_start_hidden = value;
    }

    /// Set whether the desktop app starts quietly.
    pub fn set_desktop_quiet_start(&mut self, value: bool)
        ensures
            final(self)@ == (ConfigView { quiet_start: value, ..old(self)@ }),
            config_inv(old(self)@) ==> config_inv(final(self)@),
    {
        self.desktop_quiet_start = value;
    }

    /// Set the visible list columns: the known ones requested, in display
    /// order.
    pub fn set_desktop_visible_columns(&mut self, columns: Vec<String>)
        ensures
            final(self)@ == (ConfigView { visible_columns: chosen_columns(columns@), ..old(self)@ }),
            config_inv(old(self)@) ==> config_inv(final(self)@),
    {
        self.desktop_visible_columns = select_columns(&columns);
    }

    /// Set the detail pane width, clamped to the accepted range.
    pub fn set_desktop_detail_width(&mut self, width: u32)
        ensures
            final(self)@ == (ConfigView { detail_width: clamped_width(width), ..old(self)@ }),
            config_inv(old(self)@) ==> config_inv(final(self)@),
    {
        self.desktop_detail_width = clamp_detail_width(width);
    }

    /// Path of the configuration file.
    pub fn source_path(&self) -> (r: &str)
        ensures
            r@ == self@.source_path,
    {
        self.source_path.as_str()
    }

    /// Library root directory.
    pub fn library_root(&self) -> (r: &str)
        ensures
            r@ == self@.library_root,
    {
        self.library_root.as_str()
    }

    /// Workspace display name.
    pub fn workspace_name(&self) -> (r: &str)
        ensures
            r@ == self@.workspace_name,
    {
        self.workspace_name.as_str()
    }

    /// Former name of [`LocalrefConfig::workspace_name`].
    pub fn repo_name(&self) -> (r: &str)
        ensures
            r@ == self@.workspace_name,
    {
        self.workspace_name.as_str()
    }

    /// REST listener address.
    pub fn rest_addr(&self) -> (r: &str)
        ensures
            r@ == self@.rest_addr,
    {
        self.rest_addr.as_str()
    }

    /// REST endpoint URL.
    pub fn rest_endpoint(&self) -> (r: &str)
        ensures
            r@ == self@.rest_endpoint,
    {
        self.rest_endpoint.as_str()
    }

    /// Zotero Connector listener address.
    pub fn csc_addr(&self) -> (r: &str)
        ensures
            r@ == self@.csc_addr,
    {
        self.csc_addr.as_str()
    }

    /// Whether the desktop app starts hidden.
    pub fn desktop_start_hidden(&self) -> (r: bool)
        ensures
            r == self@.start_hidden,
    {
        self.desktop_start_hidden
    }

    /// Whether the desktop app starts quietly.
    pub fn desktop_quiet_start(&self) -> (r: bool)
        ensures
            r == self@.quiet_start,
    {
        self.desktop_quiet_start
    }

    /// Visible list columns.
    pub fn desktop_visible_columns(&self) -> (r: &Vec<String>)
        ensures
            r@.map_values(|c: String| c@) == self@.visible_columns,
    {
        &self.desktop_visible_columns
    }

    /// Detail pane width.
    pub fn desktop_detail_width(&self) -> (r: u32)
        ensures
            r == self@.detail_width,
    {
        self.desktop_detail_width
    }

    /// Maximum size of one log file.
    pub fn log_max_file_bytes(&self) -> (r: u64)
        ensures
            r == self@.log_max_file_bytes,
    {
        self.log_max_file_bytes
    }

    /// Number of rotated log files kept.
    pub fn log_backup_count(&self) -> (r: u32)
        ensures
            r == self@.log_backup_count,
    {
        self.log_backup_count
    }

    /// Plugins directory.
    pub fn plugins_dir(&self) -> (r: &str)
        ensures
            r@ == self@.plugins_dir,
    {
        self.plugins_dir.as_str()
    }
}

/// Requesting the default columns chooses exactly them.
proof fn lemma_default_columns(requested: Seq<String>)
    requires
        requested.len() == 4,
        requested[0]@ == "Author"@,
        requested[1]@ == "Venue"@,
        requested[2]@ == "Year"@,
        requested[3]@ == "Type"@,
    ensures
        chosen_columns(requested) == seq!["Author"@, "Venue"@, "Year"@, "Type"@],
{
    reveal_strlit("Author");
    reveal_strlit("Venue");
    reveal_strlit("Year");
    reveal_strlit("Type");
    reveal_strlit("Categories");
    let k = known_columns();
    assert(requested_has(requested, "Author"@));
    assert(requested_has(requested, "Venue"@));
    assert(requested_has(requested, "Year"@));
    assert(requested_has(requested, "Type"@));
    assert(!requested_has(requested, "Categories"@)) by {
        if requested_has(requested, "Categories"@) {
            let i = choose|i: int| 0 <= i < requested.len() && (#[trigger] requested[i])@ == "Categories"@;
            assert(requested[i]@.len() != 10);
        }
    }
    assert(k.drop_last() =~= seq!["Author"@, "Venue"@, "Year"@, "Type"@]);
    assert(k.drop_last().drop_last() =~= seq!["Author"@, "Venue"@, "Year"@]);
    assert(k.drop_last().drop_last().drop_last() =~= seq!["Author"@, "Venue"@]);
    assert(k.drop_last().drop_last().drop_last().drop_last() =~= seq!["Author"@]);
    assert(k.drop_last().drop_last().drop_last().drop_last().drop_last() =~= Seq::<Seq<char>>::empty());
    reveal_with_fuel(keep_requested, 6);
    assert(keep_requested(k, requested) =~= seq!["Author"@, "Venue"@, "Year"@, "Type"@]);
}

/// Views of an optional string slice.
pub open spec fn opt_slice(o: Option<&str>) -> Option<Seq<char>> {
    match o {
        Some(s) => Some(s@),
        None => None,
    }
}

} // verus!
