//! Request bodies of the REST API and the rules its handlers apply to them:
//! plugin log targets and levels, and item-relative file paths.

use vstd::prelude::*;
use crate::daemon::StatusKind;
use crate::daemon::PauseMode;
use crate::model::{ItemFileEntry, Metadata};
use crate::ordered::{lemma_lex_irreflexive, lemma_lex_total, lemma_lex_transitive, lex_lt, str_compare};
use crate::text::{
    ascii_alnum, chars_of, is_ascii_alnum, lower, lower_char, owned, split, split_chars, str_eq,
    string_of, to_ascii_lowercase, to_lower_char,
};
use crate::types::CategoryPath;

verus! {

/// API response returned by scan endpoints.
#[derive(Clone, Debug, PartialEq, Eq)]
pub struct ScanResponse {
    /// Number of item documents indexed after the scan.
    pub indexed_items: usize,
}

/// Request body for daemon pause and resume operations.
#[derive(Clone, Debug, PartialEq, Eq)]
pub struct PauseRequest {
    /// Pause mode to add or remove.
    pub mode: PauseMode,
}

/// Request body for metadata patch operations.
#[derive(Clone, Debug, PartialEq)]
pub struct PatchMetadataRequest {
    /// Revision hash observed by the caller before editing.
    pub expected_revision: String,
    /// Complete replacement metadata document.
    pub metadata: Metadata,
}

/// Request body for setting one plugin `extra` value on an item.
#[derive(Clone, Debug, PartialEq, Eq)]
pub struct SetExtraRequest {
    /// Plugin namespace owning the field.
    pub namespace: String,
    /// Field key within the namespace.
    pub key: String,
    /// New value, or `None` to remove the key.
    pub value: Option<String>,
}

/// Request body for importing an existing `All/<dir>` directory.
#[derive(Clone, Debug, PartialEq, Eq)]
pub struct ImportFolderRequest {
    /// Absolute path or library-relative path to the directory.
    pub path: String,
}

/// Request body for opening one item-relative file path.
#[derive(Clone, Debug, PartialEq, Eq)]
pub struct OpenItemFileRequest {
    /// Path relative to the selected item directory.
    pub path: String,
}

/// Request body for adding one category to an item.
#[derive(Clone, Debug, PartialEq, Eq)]
pub struct CategoryRequest {
    /// Category path relative to `Cat/`.
    pub category: CategoryPath,
}

/// Request body for category rename and merge operations.
#[derive(Clone, Debug, PartialEq, Eq)]
pub struct CategoryMoveRequest {
    /// Source category path.
    pub from: CategoryPath,
    /// Destination category path.
    pub to: CategoryPath,
}

/// Request body for a plugin-originated log entry.
#[derive(Clone, Debug, PartialEq, Eq)]
pub struct PluginLogRequest {
    /// Originating plugin name (sanitized into the log target).
    pub plugin: String,
    /// Requested level: `trace`, `debug`, `info` or `warn`; anything else is
    /// capped to `warn`.
    pub level: String,
    /// Human-readable log message.
    pub message: String,
    /// Optional stable event-kind identifier.
    pub event_kind: Option<String>,
    /// Optional related item identifier.
    pub item_id: Option<String>,
    /// Optional library-relative path.
    pub path: Option<String>,
}

/// Request body for a plugin-pushed desktop status-bar message.
#[derive(Clone, Debug, PartialEq, Eq)]
pub struct StatusRequest {
    /// Message text to show in the status bar.
    pub text: String,
    /// Severity driving the status-bar indicator color.
    pub kind: StatusKind,
}

/// Level a plugin log entry is recorded at: never above `warn`.
#[derive(Clone, Copy, Debug, PartialEq, Eq, Structural)]
pub enum PluginLogLevel {
    Trace,
    Debug,
    Info,
    Warn,
}

/// A character kept in a plugin log target (lower-cased).
pub open spec fn slug_char(c: char) -> char {
    if is_ascii_alnum(c) || c == '_' || c == '-' {
        lower_char(c)
    } else {
        '_'
    }
}

/// The log-target slug of a plugin name: ASCII letters and digits
/// lower-cased, `_` and `-` kept, everything else `_`; empty becomes
/// `unknown`.
pub open spec fn plugin_slug(name: Seq<char>) -> Seq<char> {
    if name.len() == 0 {
        "unknown"@
    } else {
        name.map_values(|c: char| slug_char(c))
    }
}

/// Slug a plugin name into a safe log-target segment.
pub fn sanitize_plugin(name: &str) -> (r: String)
    ensures
        r@ == plugin_slug(name@),
{
    let v = chars_of(name);
    if v.len() == 0 {
        return owned("unknown");
    }
    let mut out: Vec<char> = Vec::new();
    let mut i: usize = 0;
    while i < v.len()
        invariant
            i <= v@.len(),
            out@ == v@.take(i as int).map_values(|c: char| slug_char(c)),
        decreases v.len() - i,
    {
        let c = v[i];
        out.push(
            if ascii_alnum(c) || c == '_' || c == '-' {
                to_lower_char(c)
            } else {
                '_'
            },
        );
        proof {
            assert(v@.take(i + 1).map_values(|c: char| slug_char(c)) =~= v@.take(
                i as int,
            ).map_values(|c: char| slug_char(c)).push(slug_char(c)));
        }
        i = i + 1;
    }
    proof {
        assert(v@.take(v@.len() as int) =~= v@);
    }
    string_of(&out)
}

/// The level recorded for a requested level name (ASCII case ignored).
pub open spec fn capped(level: Seq<char>) -> PluginLogLevel {
    if lower(level) == "trace"@ {
        PluginLogLevel::Trace
    } else if lower(level) == "debug"@ {
        PluginLogLevel::Debug
    } else if lower(level) == "info"@ {
        PluginLogLevel::Info
    } else {
        PluginLogLevel::Warn
    }
}

/// Parse a requested level, capping anything above `warn` (and anything
/// unrecognized) to `warn`.
pub fn capped_level(level: &str) -> (r: PluginLogLevel)
    ensures
        r == capped(level@),
{
    let l = to_ascii_lowercase(level);
    if str_eq(l.as_str(), "trace") {
        PluginLogLevel::Trace
    } else if str_eq(l.as_str(), "debug") {
        PluginLogLevel::Debug
    } else if str_eq(l.as_str(), "info") {
        PluginLogLevel::Info
    } else {
        PluginLogLevel::Warn
    }
}

/// Log target of a plugin: `localref::plugin::<slug>`.
pub fn plugin_log_target(plugin: &str) -> (r: String)
    ensures
        r@ == "localref::plugin::"@ + plugin_slug(plugin@),
{
    let mut out = owned("localref::plugin::");
    crate::text::push_str(&mut out, sanitize_plugin(plugin).as_str());
    out
}

/// An item-relative file path is accepted when it is not empty, not
/// absolute, and made of plain names only: no `..`, and no `.` as its first
/// component (empty components between separators and later `.` components
/// are ignored, as `Path::components` ignores them).
pub open spec fn valid_item_path(p: Seq<char>) -> bool {
    let parts = split(p, seq!['/']);
    &&& p.len() > 0
    &&& p[0] != '/'
    &&& parts[0] != seq!['.']
    &&& forall|i: int| 0 <= i < parts.len() ==> #[trigger] parts[i] != seq!['.', '.']
}

/// Whether an item-relative file path may be opened.
pub fn is_valid_item_relative_path(path: &str) -> (r: bool)
    ensures
        r == valid_item_path(path@),
{
    let v = chars_of(path);
    if v.len() == 0 || v[0] == '/' {
        return false;
    }
    let sep: Vec<char> = vec!['/'];
    assert(sep@ =~= seq!['/']);
    let parts = split_chars(&v, &sep);
    let ghost ps = parts@.map_values(|p: Vec<char>| p@);
    proof {
        crate::text::lemma_split_nonempty(v@, seq!['/']);
    }
    let first = &parts[0];
    if first.len() == 1 && first[0] == '.' {
        proof {
            assert(ps[0] =~= seq!['.']);
        }
        return false;
    }
    proof {
        if ps[0] == seq!['.'] {
            assert(first@.len() == 1 && first@[0] == '.');
        }
    }
    let mut i: usize = 0;
    while i < parts.len()
        invariant
            i <= parts@.len(),
            ps == parts@.map_values(|p: Vec<char>| p@),
            ps == split(path@, seq!['/']),
            forall|k: int| 0 <= k < i ==> #[trigger] ps[k] != seq!['.', '.'],
        decreases parts.len() - i,
    {
        let piece = &parts[i];
        proof {
            assert(ps[i as int] == piece@);
        }
        if piece.len() == 2 && piece[0] == '.' && piece[1] == '.' {
            proof {
                assert(piece@ =~= seq!['.', '.']);
                assert(ps == split(path@, seq!['/']));
                assert(split(path@, seq!['/'])[i as int] == seq!['.', '.']);
            }
            return false;
        }
        proof {
            if piece@ == seq!['.', '.'] {
                assert(piece@.len() == 2);
            }
        }
        i = i + 1;
    }
    true
}


/// Entries in order of their paths (equal paths in either order).
pub open spec fn entries_in_path_order(s: Seq<ItemFileEntry>) -> bool {
    forall|i: int, j: int| 0 <= i < j < s.len() ==> !lex_lt(#[trigger] s[j].path@, #[trigger] s[i].path@)
}

/// The entries of an item listing in path order: the same entries,
/// entries with equal paths keeping their relative order.
pub fn sort_file_entries(entries: Vec<ItemFileEntry>) -> (r: Vec<ItemFileEntry>)
    ensures
        r@.to_multiset() == entries@.to_multiset(),
        entries_in_path_order(r@),
{
    broadcast use vstd::seq_lib::group_to_multiset_ensures, vstd::multiset::group_multiset_axioms;

    let mut rest = entries;
    let mut out: Vec<ItemFileEntry> = Vec::new();
    let ghost all = rest@.to_multiset();
    proof {
        vstd::seq_lib::to_multiset_len(out@);
        assert(out@.to_multiset() =~= vstd::multiset::Multiset::<ItemFileEntry>::empty());
    }
    while rest.len() > 0
        invariant
            out@.to_multiset().add(rest@.to_multiset()) == all,
            entries_in_path_order(out@),
        decreases rest.len(),
    {
        let ghost before_rest = rest@;
        let e = rest.remove(0);
        let mut k: usize = 0;
        while k < out.len() && str_compare(e.path.as_str(), out[k].path.as_str()) >= 0
            invariant
                k <= out@.len(),
                forall|i: int| 0 <= i < k ==> !lex_lt(e.path@, #[trigger] out@[i].path@),
            decreases out.len() - k,
        {
            k = k + 1;
        }
        let ghost before = out@;
        out.insert(k, e);
        proof {
            assert forall|i: int, j: int| 0 <= i < j < out@.len() implies !lex_lt(
                #[trigger] out@[j].path@,
                #[trigger] out@[i].path@,
            ) by {
                let x = out@[i].path@;
                let y = out@[j].path@;
                lemma_lex_total(x, y);
                if i < k && j == k {
                    assert(!lex_lt(e.path@, before[i].path@));
                } else if i == k && j > k {
                    assert(lex_lt(e.path@, before[k as int].path@));
                    if j - 1 == k {
                        lemma_lex_irreflexive(before[k as int].path@);
                    }
                    assert(!lex_lt(before[j - 1].path@, before[k as int].path@));
                    lemma_lex_total(before[k as int].path@, before[j - 1].path@);
                    if before[k as int].path@ != before[j - 1].path@ {
                        lemma_lex_transitive(e.path@, before[k as int].path@, before[j - 1].path@);
                    }
                    lemma_lex_total(e.path@, before[j - 1].path@);
                } else if i < k && j > k {
                    assert(!lex_lt(before[j - 1].path@, before[i].path@));
                } else if i > k {
                    assert(!lex_lt(before[j - 1].path@, before[i - 1].path@));
                } else {
                    assert(!lex_lt(before[j].path@, before[i].path@));
                }
            }
            vstd::seq_lib::to_multiset_remove(before_rest, 0);
            vstd::seq_lib::to_multiset_insert(before, k as int, e);
            assert(rest@ == before_rest.remove(0));
            assert(out@ == before.insert(k as int, e));
            assert(before_rest.to_multiset().count(e) > 0) by {
                assert(before_rest[0] == e);
                vstd::seq_lib::to_multiset_contains(before_rest, e);
            }
            assert(out@.to_multiset().add(rest@.to_multiset()) =~= all);
        }
    }
    proof {
        vstd::seq_lib::to_multiset_len(rest@);
        assert(rest@.to_multiset() =~= vstd::multiset::Multiset::<ItemFileEntry>::empty());
        assert(out@.to_multiset() =~= all);
    }
    out
}

} // verus!
