//! Persistent Localref domain models and their pure rules: creator display
//! names, metadata validation, revision hashes and category-membership edits.

use vstd::prelude::*;
use vstd::string::StringSliceAdditionalSpecFns;
use crate::error::LocalrefError;
use crate::text::{
    blank, chars_of, contains_chars, contains_seq, is_blank, lower, lower_chars, owned,
    push_char, push_str, trim, trim_str,
};
use crate::types::{category_norm, category_ok, CategoryPath};

verus! {

/// View of an optional string.
pub open spec fn opt_view(o: Option<String>) -> Option<Seq<char>> {
    match o {
        Some(s) => Some(s@),
        None => None,
    }
}

/// Views of a list of strings.
pub open spec fn views(v: Seq<String>) -> Seq<Seq<char>> {
    v.map_values(|s: String| s@)
}

/// A present, non-blank value, trimmed; `None` otherwise.
pub open spec fn nonblank_trimmed(o: Option<Seq<char>>) -> Option<Seq<char>> {
    match o {
        Some(s) => if is_blank(s) {
            None
        } else {
            Some(trim(s))
        },
        None => None,
    }
}

/// Best user-visible creator name: the single-field name when present,
/// otherwise the given and family names joined by one space.
pub open spec fn display_name_of(
    name: Option<Seq<char>>,
    given: Option<Seq<char>>,
    family: Option<Seq<char>>,
) -> Option<Seq<char>> {
    match nonblank_trimmed(name) {
        Some(n) => Some(n),
        None => match (nonblank_trimmed(given), nonblank_trimmed(family)) {
            (Some(g), Some(f)) => Some(g + seq![' '] + f),
            (Some(g), None) => Some(g),
            (None, Some(f)) => Some(f),
            (None, None) => None,
        },
    }
}

/// A creator role counts as an author role when its lower-cased text
/// contains `author`.
pub open spec fn is_author_role(role: Seq<char>) -> bool {
    contains_seq(lower(role), "author"@)
}

/// Person or organization associated with a metadata record.
#[derive(Clone, Debug, PartialEq, Eq)]
pub struct Creator {
    /// Creator role, such as `author`.
    pub role: String,
    /// Given name, when structured creator data is available.
    pub given: Option<String>,
    /// Family name, when structured creator data is available.
    pub family: Option<String>,
    /// Single-field creator name.
    pub name: Option<String>,
}

impl Creator {
    /// Specification of [`Creator::display_name`].
    pub open spec fn spec_display_name(&self) -> Option<Seq<char>> {
        display_name_of(opt_view(self.name), opt_view(self.given), opt_view(self.family))
    }

    /// Return the best user-visible name for this creator.
    pub fn display_name(&self) -> (r: Option<String>)
        ensures
            opt_view(r) == self.spec_display_name(),
    {
        if let Some(name) = optional_trimmed(&self.name) {
            return Some(name);
        }
        let given = optional_trimmed(&self.given);
        let family = optional_trimmed(&self.family);
        match (given, family) {
            (Some(g), Some(f)) => {
                let mut out = g;
                push_char(&mut out, ' ');
                push_str(&mut out, f.as_str());
                Some(out)
            },
            (Some(g), None) => Some(g),
            (None, Some(f)) => Some(f),
            (None, None) => None,
        }
    }
}

/// The trimmed value when it is present and not blank.
pub fn optional_trimmed(value: &Option<String>) -> (r: Option<String>)
    ensures
        opt_view(r) == nonblank_trimmed(opt_view(*value)),
{
    match value {
        Some(s) => if blank(s.as_str()) {
            None
        } else {
            Some(trim_str(s.as_str()))
        },
        None => None,
    }
}

/// Whether a creator role is an author role.
pub fn author_role(role: &str) -> (r: bool)
    ensures
        r == is_author_role(role@),
{
    let v = chars_of(role);
    let l = lower_chars(&v);
    let needle = chars_of("author");
    contains_chars(&l, &needle)
}

/// Display names of the creators, in order, skipping those without one;
/// with `authors_only`, only creators with an author role count.
pub open spec fn names_of(cs: Seq<Creator>, authors_only: bool) -> Seq<Seq<char>>
    decreases cs.len(),
{
    if cs.len() == 0 {
        seq![]
    } else {
        let rest = names_of(cs.drop_last(), authors_only);
        let c = cs.last();
        if (!authors_only || is_author_role(c.role@)) && c.spec_display_name() is Some {
            rest.push(c.spec_display_name()->0)
        } else {
            rest
        }
    }
}

/// Collect creator display names (all, or authors only).
pub fn collect_names(cs: &Vec<Creator>, authors_only: bool) -> (r: Vec<String>)
    ensures
        views(r@) == names_of(cs@, authors_only),
{
    let mut out: Vec<String> = Vec::new();
    let mut i: usize = 0;
    while i < cs.len()
        invariant
            i <= cs.len(),
            views(out@) == names_of(cs@.take(i as int), authors_only),
        decreases cs.len() - i,
    {
        let c = &cs[i];
        proof {
            assert(cs@.take(i + 1).drop_last() == cs@.take(i as int));
            assert(cs@.take(i + 1).last() == cs@[i as int]);
        }
        let counts = !authors_only || author_role(c.role.as_str());
        if counts {
            match c.display_name() {
                Some(n) => {
                    let ghost before = out@;
                    out.push(n);
                    proof {
                        assert(views(out@) == views(before).push(n@));
                    }
                },
                None => {},
            }
        }
        i = i + 1;
    }
    proof {
        assert(cs@.take(cs.len() as int) == cs@);
    }
    out
}

/// Files associated with a metadata record.
#[derive(Clone, Debug, Default, PartialEq, Eq)]
pub struct MetadataFiles {
    /// Main file path relative to `All/<item>/`.
    pub main: Option<String>,
    /// Extra file records relative to `All/<item>/`.
    pub extra: Vec<MetadataFile>,
}

/// One file inside an item directory.
#[derive(Clone, Debug, PartialEq, Eq)]
pub struct MetadataFile {
    /// Relative path inside `All/<item>/`.
    pub path: String,
    /// File role, such as `attachment` or `source_url`.
    pub kind: String,
    /// MIME type, when known.
    pub mime_type: Option<String>,
}

/// Tags stored on the item.
#[derive(Clone, Debug, Default, PartialEq, Eq)]
pub struct MetadataTags {
    /// Tag names.
    pub items: Vec<String>,
}

/// Import provenance stored in metadata.
#[derive(Clone, Debug, PartialEq, Eq)]
pub struct MetadataImport {
    /// Import source, such as `zotero-connector`.
    pub source: String,
    /// Connector save session id, when the source supplies one.
    pub session_id: Option<String>,
    /// Optional import timestamp string.
    pub imported_at: Option<String>,
}

impl Default for MetadataImport {
    fn default() -> (r: Self)
        ensures
            r.source@ == "unknown"@,
            r.session_id is None,
            r.imported_at is None,
    {
        MetadataImport { source: owned("unknown"), session_id: None, imported_at: None }
    }
}

/// State flags stored in metadata.
#[derive(Clone, Debug, Default, PartialEq, Eq)]
pub struct MetadataState {
    /// Whether the main file is missing.
    pub missing_main_file: bool,
    /// Category paths the user explicitly removed (tombstones).
    pub removed_categories: Vec<String>,
}

/// Metadata stored in `All/<item>/metadata.toml`.
///
/// Key/value tables are kept as key-ordered lists of pairs.
#[derive(Clone, Debug, PartialEq)]
pub struct Metadata {
    /// Stable Localref item id.
    pub id: String,
    /// Zotero-compatible or Localref item type.
    pub item_type: String,
    /// User-visible literature title.
    pub title: String,
    /// Article or item abstract.
    pub abstract_note: Option<String>,
    /// DOI, when known.
    pub doi: Option<String>,
    /// Source URI, when known.
    pub uri: Option<String>,
    /// Publication year, when known.
    pub year: Option<i32>,
    /// Venue or container title, when known.
    pub venue: Option<String>,
    /// Language code or label, when known.
    pub language: Option<String>,
    /// Creators such as authors or editors.
    pub creators: Vec<Creator>,
    /// Category paths this item belongs to (source of truth for membership).
    pub categories: Vec<String>,
    /// Files stored inside the item directory.
    pub files: MetadataFiles,
    /// Tag metadata stored on the item.
    pub tags: MetadataTags,
    /// Import provenance.
    pub import: MetadataImport,
    /// Item state flags.
    pub state: MetadataState,
    /// Connector-specific raw data.
    pub raw_connector: Vec<(String, String)>,
    /// Plugin-owned per-item data, keyed by plugin namespace then field key.
    pub extra: Vec<(String, Vec<(String, String)>)>,
}

/// Item document stored in the query index.
#[derive(Clone, Debug, PartialEq, Eq)]
pub struct ItemDocument {
    /// Stable Localref item id.
    pub id: String,
    /// Relative object path under the library root, such as `All/Paper`.
    pub object_path: String,
    /// Revision hash of the source `metadata.toml` text.
    pub metadata_revision: String,
    /// Literature title.
    pub title: String,
    /// User-visible author names.
    pub authors: Vec<String>,
    /// Abstract text, when present.
    pub abstract_note: Option<String>,
    /// Item type from `metadata.toml`.
    pub item_type: String,
    /// DOI, when present.
    pub doi: Option<String>,
    /// Source URI, when present.
    pub uri: Option<String>,
    /// Main file path relative to the item directory, when present.
    pub main_file: Option<String>,
    /// Extra files relative to the item directory.
    pub extra_files: Vec<String>,
    /// Tag names.
    pub tags: Vec<String>,
    /// Venue or container title, when present.
    pub venue: Option<String>,
    /// Publication year, when present.
    pub year: Option<i32>,
    /// Category paths, sorted and without repetition.
    pub categories: Vec<String>,
    /// Plugin-owned per-item data, keyed by namespace then field key.
    pub extra: Vec<(String, Vec<(String, String)>)>,
}

/// Files currently present under one item directory.
#[derive(Clone, Debug, PartialEq, Eq)]
pub struct ItemFilesDocument {
    /// Stable Localref item id.
    pub item_id: String,
    /// Relative object path under the library root.
    pub object_path: String,
    /// Files and directories inside the item directory.
    pub files: Vec<ItemFileEntry>,
}

/// One filesystem entry inside an item directory.
#[derive(Clone, Debug, PartialEq, Eq)]
pub struct ItemFileEntry {
    /// Path relative to the item directory.
    pub path: String,
    /// Entry kind: `file`, `directory`, or `other`.
    pub kind: String,
    /// File size in bytes when the entry is a regular file.
    pub bytes: Option<u64>,
}

/// Full metadata payload paired with its source revision.
#[derive(Clone, Debug, PartialEq)]
pub struct MetadataDocument {
    /// Stable Localref item id.
    pub item_id: String,
    /// Revision hash of the source `metadata.toml` text.
    pub metadata_revision: String,
    /// Parsed metadata document.
    pub metadata: Metadata,
}

/// Search result returned by query APIs.
#[derive(Clone, Debug, PartialEq, Eq)]
pub struct SearchHit {
    /// Matching item id.
    pub id: String,
    /// Matching item title.
    pub title: String,
    /// User-visible creator names that participate in search.
    pub authors: Vec<String>,
    /// Relative object path under the library root.
    pub object_path: String,
    /// Optional DOI.
    pub doi: Option<String>,
    /// Optional abstract snippet.
    pub abstract_note: Option<String>,
}

/// Category summary derived from `Cat/` links.
#[derive(Clone, Debug, PartialEq, Eq)]
pub struct CategorySummary {
    /// Category path relative to `Cat/`.
    pub path: String,
    /// Item ids currently linked under this category.
    pub item_ids: Vec<String>,
}

/// A runtime-registered scheduled plugin call.
#[derive(Clone, Debug, PartialEq, Eq)]
pub struct ScheduledCall {
    /// Unique schedule id; used as the delete key.
    pub id: String,
    /// Target plugin name.
    pub plugin: String,
    /// Action id passed to the target plugin as `run <action>`.
    pub action: String,
    /// Parameters forwarded to the action, ordered by key.
    pub params: Vec<(String, String)>,
    /// Cron expression (sec min hour day-of-month month day-of-week).
    pub schedule: String,
}

/// Path of the schedules file for a library root.
pub fn schedules_path(library_root: &str) -> (r: String)
    ensures
        r@ == crate::text::join_path(crate::text::join_path(library_root@, ".localref"@), "schedules.toml"@),
{
    let state = crate::text::join(library_root, ".localref");
    crate::text::join(state.as_str(), "schedules.toml")
}

/// Path of the plugin enable/disable state file for a library root.
pub fn plugin_state_path(library_root: &str) -> (r: String)
    ensures
        r@ == crate::text::join_path(crate::text::join_path(library_root@, ".localref"@), "plugin-state.toml"@),
{
    let state = crate::text::join(library_root, ".localref");
    crate::text::join(state.as_str(), "plugin-state.toml")
}

/// Metadata that passes validation: id and title not blank, every category
/// a valid category path.
pub open spec fn metadata_valid(m: Metadata) -> bool {
    !is_blank(m.id@) && !is_blank(m.title@) && first_invalid_category(m.categories@, 0) is None
}

/// The error validation reports for `m`: a blank id first, then a blank
/// title, then the first category that is not a valid category path.
pub open spec fn validation_refusal(m: Metadata, e: LocalrefError) -> bool {
    if is_blank(m.id@) {
        e matches LocalrefError::MissingField(f) && f@ == "metadata.id"@
    } else if is_blank(m.title@) {
        e matches LocalrefError::MissingField(f) && f@ == "metadata.title"@
    } else {
        match first_invalid_category(m.categories@, 0) {
            Some(i) => e matches LocalrefError::InvalidPathComponent { component, reason }
                && component@ == m.categories@[i]@ && reason@
                == "metadata.categories entry is not a valid category"@,
            None => false,
        }
    }
}

/// Index of the first category whose text is not a valid category path.
pub open spec fn first_invalid_category(cats: Seq<String>, from: int) -> Option<int>
    decreases cats.len() - from,
{
    if from < 0 || from >= cats.len() {
        None
    } else if !category_ok(category_norm(cats[from]@)) {
        Some(from)
    } else {
        first_invalid_category(cats, from + 1)
    }
}

impl Metadata {
    /// Return user-visible creator names in metadata order.
    pub fn creator_names(&self) -> (r: Vec<String>)
        ensures
            views(r@) == names_of(self.creators@, false),
    {
        collect_names(&self.creators, false)
    }

    /// Return user-visible author names in metadata order.
    pub fn author_names(&self) -> (r: Vec<String>)
        ensures
            views(r@) == names_of(self.creators@, true),
    {
        collect_names(&self.creators, true)
    }

    /// Validate required metadata invariants.
    ///
    /// A blank id is reported first, then a blank title, then the first
    /// category entry that is not a valid category path.
    pub fn validate(&self) -> (r: Result<(), LocalrefError>)
        ensures
            r is Ok <==> metadata_valid(*self),
            r matches Err(e) ==> validation_refusal(*self, e),
            is_blank(self.id@) ==> (r matches Err(LocalrefError::MissingField(f))
                && f@ == "metadata.id"@),
            !is_blank(self.id@) && is_blank(self.title@) ==> (r matches Err(
                LocalrefError::MissingField(f),
            ) && f@ == "metadata.title"@),
            !is_blank(self.id@) && !is_blank(self.title@) ==> match first_invalid_category(
                self.categories@,
                0,
            ) {
                Some(i) => r matches Err(LocalrefError::InvalidPathComponent { component, reason })
                    && component@ == self.categories@[i]@ && reason@
                    == "metadata.categories entry is not a valid category"@,
                None => r is Ok,
            },
    {
        if blank(self.id.as_str()) {
            return Err(LocalrefError::MissingField(owned("metadata.id")));
        }
        if blank(self.title.as_str()) {
            return Err(LocalrefError::MissingField(owned("metadata.title")));
        }
        let mut i: usize = 0;
        while i < self.categories.len()
            invariant
                i <= self.categories.len(),
                !is_blank(self.id@),
                !is_blank(self.title@),
                first_invalid_category(self.categories@, 0) == first_invalid_category(
                    self.categories@,
                    i as int,
                ),
            decreases self.categories.len() - i,
        {
            let category = &self.categories[i];
            if CategoryPath::new(category.as_str()).is_none() {
                return Err(
                    LocalrefError::InvalidPathComponent {
                        component: owned(category.as_str()),
                        reason: owned("metadata.categories entry is not a valid category"),
                    },
                );
            }
            i = i + 1;
        }
        Ok(())
    }

    /// Return a stable revision hash for TOML text: the 64-bit FNV-1a hash
    /// of its UTF-8 bytes, as sixteen lower-case hex digits.
    pub fn revision_for_text(text: &str) -> (r: String)
        ensures
            r@ == hex_digits(fnv1a(text.spec_bytes()), 16),
    {
        let bytes = text.as_bytes();
        let mut hash: u64 = FNV_OFFSET;
        let mut i: usize = 0;
        while i < bytes.len()
            invariant
                i <= bytes@.len(),
                bytes@ == text.spec_bytes(),
                hash == fnv1a(bytes@.take(i as int)),
            decreases bytes.len() - i,
        {
            proof {
                assert(bytes@.take(i + 1).drop_last() == bytes@.take(i as int));
            }
            hash = (hash ^ (bytes[i] as u64)).wrapping_mul(FNV_PRIME);
            i = i + 1;
        }
        proof {
            assert(bytes@.take(bytes@.len() as int) == bytes@);
        }
        let digits = hex_of(hash, 16);
        crate::text::string_of(&digits)
    }
}

/// FNV-1a 64-bit offset basis.
pub const FNV_OFFSET: u64 = 0xcbf2_9ce4_8422_2325u64;

/// FNV-1a 64-bit prime.
pub const FNV_PRIME: u64 = 0x0000_0100_0000_01b3u64;

/// 64-bit FNV-1a hash of a byte sequence.
pub open spec fn fnv1a(bytes: Seq<u8>) -> u64
    decreases bytes.len(),
{
    if bytes.len() == 0 {
        FNV_OFFSET
    } else {
        let h = fnv1a(bytes.drop_last()) ^ (bytes.last() as u64);
        ((h as nat * FNV_PRIME as nat) % 0x1_0000_0000_0000_0000nat) as u64
    }
}

/// Lower-case hexadecimal digit for a value below sixteen.
pub open spec fn hex_digit(d: int) -> char {
    if d < 10 {
        (d + 48) as char
    } else {
        (d - 10 + 97) as char
    }
}

/// The last `n` hexadecimal digits of `h`, most significant first.
pub open spec fn hex_digits(h: u64, n: nat) -> Seq<char>
    decreases n,
{
    if n == 0 {
        seq![]
    } else {
        hex_digits(h / 16, (n - 1) as nat).push(hex_digit((h % 16) as int))
    }
}

/// Executable form of [`hex_digit`].
pub fn hex_char(d: u64) -> (c: char)
    requires
        d < 16,
    ensures
        c == hex_digit(d as int),
{
    if d < 10 {
        ((d + 48) as u8) as char
    } else {
        ((d - 10 + 97) as u8) as char
    }
}

/// Executable form of [`hex_digits`].
pub fn hex_of(h: u64, n: usize) -> (r: Vec<char>)
    ensures
        r@ == hex_digits(h, n as nat),
    decreases n,
{
    if n == 0 {
        Vec::new()
    } else {
        let mut r = hex_of(h / 16, n - 1);
        r.push(hex_char(h % 16));
        r
    }
}

} // verus!
