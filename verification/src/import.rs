//! Import rules: item ids, metadata built for new items, file naming inside
//! item directories and metadata file lists.
//!
//! The pipeline that copies files and writes `metadata.toml` runs around
//! these functions; everything it decides about names, ids and metadata
//! content is computed here.

use vstd::prelude::*;
use vstd::string::{StrSliceExecFns, StringSliceAdditionalSpecFns};
use crate::connector::{ConnectorAttachment, ConnectorImport};
use crate::error::LocalrefError;
use crate::json::{
    as_str, elements, field_array, field_str, first_trimmed, first_trimmed_string, get,
    key_views, JsonList, JsonValue,
};
use crate::model::{
    opt_view, Creator, ItemDocument, Metadata, MetadataFile, MetadataFiles, MetadataImport,
    MetadataState, MetadataTags,
};
use crate::paths::{extension_of, path_extension, path_prefix, path_stem, starts_with_path, stem_of};
use crate::lock::LockManager;
use crate::platformfs::{ntfs_component, ntfs_rejection, sanitize_ntfs_component, LibraryFs};
use crate::text::{concat2, decimal, decimal_string, join, join_path, lower, owned, push_char, push_str, str_eq, to_ascii_lowercase};
use crate::types::{CategoryPath, ItemId};

verus! {

/// Category assigned to connector imports that match no classification rule.
pub open spec fn unmatched_category() -> Seq<char> {
    "unmatched"@
}

/// Result of importing one item into `All/`.
#[derive(Debug)]
pub struct ImportOutcome {
    /// Generated Localref item id.
    pub item_id: ItemId,
    /// Directory created under `All/`.
    pub item_dir: String,
    /// Files written inside the item directory.
    pub written_files: Vec<String>,
    /// Categories linked for this imported item.
    pub categories: Vec<CategoryPath>,
}

// ---------------------------------------------------------------------------
// Item ids
// ---------------------------------------------------------------------------

/// The connector source of an item id: its connector item id, else its save
/// session id.
pub open spec fn connector_source(import: ConnectorImport) -> Option<Seq<char>> {
    match import.item.connector_item_id {
        Some(id) => Some(id@),
        None => opt_view(import.item.session_id),
    }
}

/// Item id for a connector import: `lr:zotero:<source>`.
pub fn connector_item_id(import: &ConnectorImport) -> (r: Result<ItemId, LocalrefError>)
    ensures
        match connector_source(*import) {
            Some(source) => r matches Ok(id) && id@ == "lr:zotero:"@ + source,
            None => r matches Err(LocalrefError::MissingField(f)) && f@
                == "item.connector_item_id or item.session_id"@,
        },
{
    let source = match &import.item.connector_item_id {
        Some(id) => id.as_str(),
        None => match &import.item.session_id {
            Some(s) => s.as_str(),
            None => {
                return Err(
                    LocalrefError::MissingField(owned("item.connector_item_id or item.session_id")),
                );
            },
        },
    };
    let text = concat2("lr:zotero:", source);
    proof {
        reveal_strlit("lr:zotero:");
        assert(!crate::text::is_blank(text@)) by {
            assert(text@[0] == 'l');
        }
    }
    match ItemId::new(text.as_str()) {
        Some(id) => Ok(id),
        None => Err(LocalrefError::MissingField(owned("item id"))),
    }
}

/// Item id for a manually imported directory or file: `lr:manual:` and the
/// sanitized title.
pub fn manual_item_id(title: &str) -> (r: Result<ItemId, LocalrefError>)
    ensures
        match ntfs_component(title@) {
            Some(c) => r matches Ok(id) && id@ == "lr:manual:"@ + c,
            None => r matches Err(e) && ntfs_rejection(title@, e),
        },
{
    let component = sanitize_ntfs_component(title)?;
    let text = concat2("lr:manual:", component.as_str());
    proof {
        reveal_strlit("lr:manual:");
        assert(!crate::text::is_blank(text@)) by {
            assert(text@[0] == 'l');
        }
    }
    match ItemId::new(text.as_str()) {
        Some(id) => Ok(id),
        None => Err(LocalrefError::MissingField(owned("manual item id"))),
    }
}

// ---------------------------------------------------------------------------
// MIME types
// ---------------------------------------------------------------------------

/// MIME type known for a path's extension (compared ignoring ASCII case):
/// PDF, plain text and HTML.
pub open spec fn mime_for(path: Seq<char>) -> Option<Seq<char>> {
    match path_extension(path) {
        Some(e) => if lower(e) == "pdf"@ {
            Some("application/pdf"@)
        } else if lower(e) == "txt"@ {
            Some("text/plain"@)
        } else if lower(e) == "html"@ {
            Some("text/html"@)
        } else {
            None
        },
        None => None,
    }
}

/// MIME type for a path, from its extension.
pub fn mime_type_for_path(path: &str) -> (r: Option<String>)
    ensures
        opt_view(r) == mime_for(path@),
{
    match extension_of(path) {
        Some(e) => {
            let l = to_ascii_lowercase(e.as_str());
            if str_eq(l.as_str(), "pdf") {
                Some(owned("application/pdf"))
            } else if str_eq(l.as_str(), "txt") {
                Some(owned("text/plain"))
            } else if str_eq(l.as_str(), "html") {
                Some(owned("text/html"))
            } else {
                None
            }
        },
        None => None,
    }
}

/// A file name whose extension is `pdf` (any ASCII case).
pub open spec fn is_pdf_name(name: Seq<char>) -> bool {
    match path_extension(name) {
        Some(e) => lower(e) == "pdf"@,
        None => false,
    }
}

/// Whether a file name has a `pdf` extension.
pub fn pdf_name(name: &str) -> (r: bool)
    ensures
        r == is_pdf_name(name@),
{
    match extension_of(name) {
        Some(e) => {
            let l = to_ascii_lowercase(e.as_str());
            str_eq(l.as_str(), "pdf")
        },
        None => false,
    }
}

// ---------------------------------------------------------------------------
// Creators and tags from connector JSON
// ---------------------------------------------------------------------------

/// A creator as plain text fields: role, given, family, name.
pub open spec fn creator_view(c: Creator) -> (Seq<char>, Option<Seq<char>>, Option<Seq<char>>, Option<Seq<char>>) {
    (c.role@, opt_view(c.given), opt_view(c.family), opt_view(c.name))
}

/// The creator read from one connector creator object, when it names
/// anyone: role defaults to `author`; blank fields count as absent.
pub open spec fn creator_of(v: JsonValue) -> Option<(Seq<char>, Option<Seq<char>>, Option<Seq<char>>, Option<Seq<char>>)> {
    let role = first_trimmed(v, seq!["creatorType"@, "role"@]);
    let given = first_trimmed(v, seq!["firstName"@, "given"@]);
    let family = first_trimmed(v, seq!["lastName"@, "family"@]);
    let name = first_trimmed(v, seq!["name"@]);
    if given is None && family is None && name is None {
        None
    } else {
        Some((
            match role {
                Some(r) => r,
                None => "author"@,
            },
            given,
            family,
            name,
        ))
    }
}

/// The creators read from a list of connector creator objects.
pub open spec fn creators_of(vs: Seq<JsonValue>) -> Seq<(Seq<char>, Option<Seq<char>>, Option<Seq<char>>, Option<Seq<char>>)>
    decreases vs.len(),
{
    if vs.len() == 0 {
        Seq::empty()
    } else {
        match creator_of(vs[0]) {
            Some(c) => seq![c] + creators_of(vs.drop_first()),
            None => creators_of(vs.drop_first()),
        }
    }
}

/// Creator views of a list of creators.
pub open spec fn creator_views(cs: Seq<Creator>) -> Seq<(Seq<char>, Option<Seq<char>>, Option<Seq<char>>, Option<Seq<char>>)> {
    cs.map_values(|c: Creator| creator_view(c))
}

/// Read one creator from a connector creator object.
pub fn creator_from_value(value: &JsonValue) -> (r: Option<Creator>)
    ensures
        match r {
            Some(c) => creator_of(*value) == Some(creator_view(c)),
            None => creator_of(*value) is None,
        },
{
    let role_keys: Vec<&str> = vec!["creatorType", "role"];
    assert(key_views(role_keys@) =~= seq!["creatorType"@, "role"@]);
    let given_keys: Vec<&str> = vec!["firstName", "given"];
    assert(key_views(given_keys@) =~= seq!["firstName"@, "given"@]);
    let family_keys: Vec<&str> = vec!["lastName", "family"];
    assert(key_views(family_keys@) =~= seq!["lastName"@, "family"@]);
    let name_keys: Vec<&str> = vec!["name"];
    assert(key_views(name_keys@) =~= seq!["name"@]);
    let role = match first_trimmed_string(value, &role_keys) {
        Some(r) => r,
        None => owned("author"),
    };
    let given = first_trimmed_string(value, &given_keys);
    let family = first_trimmed_string(value, &family_keys);
    let name = first_trimmed_string(value, &name_keys);
    if given.is_none() && family.is_none() && name.is_none() {
        None
    } else {
        Some(Creator { role, given, family, name })
    }
}

/// Read the creators listed in a connector item's `creators` array.
pub fn creators_from_raw(raw: &JsonValue) -> (r: Vec<Creator>)
    ensures
        creator_views(r@) == match field_array(*raw, "creators"@) {
            Some(vs) => creators_of(vs),
            None => Seq::empty(),
        },
{
    let mut out: Vec<Creator> = Vec::new();
    match get(raw, "creators") {
        Some(JsonValue::Array(list)) => {
            let mut cur: &JsonList = list;
            proof {
                assert(creator_views(out@) =~= Seq::empty());
                assert(Seq::<(Seq<char>, Option<Seq<char>>, Option<Seq<char>>, Option<Seq<char>>)>::empty() + creators_of(elements(*list)) =~= creators_of(elements(*list)));
            }
            loop
                invariant
                    field_array(*raw, "creators"@) == Some(elements(*list)),
                    creators_of(elements(*list)) == creator_views(out@) + creators_of(elements(*cur)),
                decreases *cur,
            {
                match cur {
                    JsonList::Nil => {
                        proof {
                            assert(creator_views(out@) + Seq::empty() =~= creator_views(out@));
                        }
                        return out;
                    },
                    JsonList::Cons(v, rest) => {
                        let ghost before = out@;
                        proof {
                            assert(elements(*cur) == seq![**v] + elements(**rest));
                            assert((seq![**v] + elements(**rest)).drop_first() =~= elements(**rest));
                            assert((seq![**v] + elements(**rest))[0] == **v);
                        }
                        match creator_from_value(&**v) {
                            Some(c) => {
                                out.push(c);
                                proof {
                                    assert(creator_views(out@) =~= creator_views(before) + seq![creator_view(c)]);
                                    assert(creator_views(before) + (seq![creator_view(c)] + creators_of(elements(**rest))) =~= creator_views(out@) + creators_of(elements(**rest)));
                                }
                            },
                            None => {},
                        }
                        cur = &**rest;
                    },
                }
            }
        },
        _ => out,
    }
}

/// The text of one connector tag: a string, or an object's `tag` string.
pub open spec fn tag_text(v: JsonValue) -> Option<Seq<char>> {
    match v {
        JsonValue::Str(s) => Some(s@),
        _ => field_str(v, "tag"@),
    }
}

/// The tag texts of a list of connector tags.
pub open spec fn tags_of(vs: Seq<JsonValue>) -> Seq<Seq<char>>
    decreases vs.len(),
{
    if vs.len() == 0 {
        Seq::empty()
    } else {
        match tag_text(vs[0]) {
            Some(t) => seq![t] + tags_of(vs.drop_first()),
            None => tags_of(vs.drop_first()),
        }
    }
}

/// Read the tags listed in a connector item's `tags` array.
pub fn tags_from_raw(raw: &JsonValue) -> (r: MetadataTags)
    ensures
        crate::model::views(r.items@) == match field_array(*raw, "tags"@) {
            Some(vs) => tags_of(vs),
            None => Seq::empty(),
        },
{
    let mut out: Vec<String> = Vec::new();
    match get(raw, "tags") {
        Some(JsonValue::Array(list)) => {
            let mut cur: &JsonList = list;
            proof {
                assert(Seq::<Seq<char>>::empty() + tags_of(elements(*list)) =~= tags_of(elements(*list)));
                assert(crate::model::views(out@) =~= Seq::empty());
            }
            loop
                invariant
                    field_array(*raw, "tags"@) == Some(elements(*list)),
                    tags_of(elements(*list)) == crate::model::views(out@) + tags_of(elements(*cur)),
                decreases *cur,
            {
                match cur {
                    JsonList::Nil => {
                        proof {
                            assert(crate::model::views(out@) + Seq::empty() =~= crate::model::views(out@));
                        }
                        return MetadataTags { items: out };
                    },
                    JsonList::Cons(v, rest) => {
                        let ghost before = out@;
                        proof {
                            assert((seq![**v] + elements(**rest)).drop_first() =~= elements(**rest));
                            assert((seq![**v] + elements(**rest))[0] == **v);
                        }
                        let text = match &**v {
                            JsonValue::Str(s) => Some(s.clone()),
                            other => match crate::json::get_str(other, "tag") {
                                Some(s) => Some(owned(s)),
                                None => None,
                            },
                        };
                        match text {
                            Some(t) => {
                                out.push(t);
                                proof {
                                    assert(crate::model::views(out@) =~= crate::model::views(before).push(t@));
                                    assert(crate::model::views(before) + (seq![t@] + tags_of(elements(**rest))) =~= crate::model::views(out@) + tags_of(elements(**rest)));
                                }
                            },
                            None => {},
                        }
                        cur = &**rest;
                    },
                }
            }
        },
        _ => MetadataTags { items: out },
    }
}

// ---------------------------------------------------------------------------
// Metadata for new items
// ---------------------------------------------------------------------------

/// A metadata file record as plain text: path, kind, MIME type.
pub open spec fn file_view(f: MetadataFile) -> (Seq<char>, Seq<char>, Option<Seq<char>>) {
    (f.path@, f.kind@, opt_view(f.mime_type))
}

/// File records as plain text.
pub open spec fn file_views(fs: Seq<MetadataFile>) -> Seq<(Seq<char>, Seq<char>, Option<Seq<char>>)> {
    fs.map_values(|f: MetadataFile| file_view(f))
}

/// The attachment records of a connector import: for each attachment that
/// was written under a file name, that name with the attachment's MIME type.
pub open spec fn written_attachment_files(
    atts: Seq<ConnectorAttachment>,
    names: Seq<Option<String>>,
    n: int,
) -> Seq<(Seq<char>, Seq<char>, Option<Seq<char>>)>
    decreases n,
{
    if n <= 0 {
        Seq::empty()
    } else {
        let before = written_attachment_files(atts, names, n - 1);
        match names[n - 1] {
            Some(name) => before.push((name@, "attachment"@, opt_view(atts[n - 1].mime_type))),
            None => before,
        }
    }
}

/// The smaller of two lengths.
pub open spec fn min_len(a: nat, b: nat) -> int {
    if a < b {
        a as int
    } else {
        b as int
    }
}

/// An ASCII digit.
pub open spec fn is_digit(c: char) -> bool {
    '0' <= c && c <= '9'
}

/// A four-digit year starts at `i`: four digits, neither preceded nor
/// followed by another digit.
pub open spec fn year_at(s: Seq<char>, i: int) -> bool {
    &&& 0 <= i && i + 4 <= s.len()
    &&& forall|k: int| i <= k < i + 4 ==> is_digit(#[trigger] s[k])
    &&& (i == 0 || !is_digit(s[i - 1]))
    &&& (i + 4 == s.len() || !is_digit(s[i + 4]))
}

/// Position of the first four-digit year at or after `i`.
pub open spec fn first_year_from(s: Seq<char>, i: int) -> Option<int>
    decreases s.len() - i,
{
    if i < 0 || i + 4 > s.len() {
        None
    } else if year_at(s, i) {
        Some(i)
    } else {
        first_year_from(s, i + 1)
    }
}

/// The publication year of a free-form date: its first run of exactly four
/// digits (`March 2021`, `2021-03-15` and `15/03/2021` all give 2021).
pub open spec fn date_year(s: Seq<char>) -> Option<int> {
    match first_year_from(s, 0) {
        Some(i) => Some(crate::text::digits_value(s.subrange(i, i + 4))),
        None => None,
    }
}

/// The publication year of a translated connector item: from its `date`.
pub open spec fn import_year(raw: JsonValue) -> Option<int> {
    match field_str(raw, "date"@) {
        Some(d) => date_year(d),
        None => None,
    }
}

/// Year of a free-form date (see [`date_year`]).
pub fn year_from_date(date: &str) -> (r: Option<i32>)
    ensures
        match r {
            Some(y) => date_year(date@) == Some(y as int),
            None => date_year(date@) is None,
        },
{
    let v = crate::text::chars_of(date);
    let n = v.len();
    if n < 4 {
        return None;
    }
    let mut i: usize = 0;
    while i <= n - 4
        invariant
            n == v@.len(),
            v@ == date@,
            n >= 4,
            i <= n - 3,
            first_year_from(v@, 0) == first_year_from(v@, i as int),
        decreases n - i,
    {
        let starts = (i == 0 || !('0' <= v[i - 1] && v[i - 1] <= '9')) && (i + 4 == n || !('0'
            <= v[i + 4] && v[i + 4] <= '9'));
        let digits = '0' <= v[i] && v[i] <= '9' && '0' <= v[i + 1] && v[i + 1] <= '9' && '0'
            <= v[i + 2] && v[i + 2] <= '9' && '0' <= v[i + 3] && v[i + 3] <= '9';
        proof {
            assert(digits <==> forall|k: int| i <= k < i + 4 ==> is_digit(#[trigger] v@[k])) by {
                if forall|k: int| i <= k < i + 4 ==> is_digit(#[trigger] v@[k]) {
                    assert(is_digit(v@[i as int]));
                    assert(is_digit(v@[i + 1]));
                    assert(is_digit(v@[i + 2]));
                    assert(is_digit(v@[i + 3]));
                }
            }
        }
        if starts && digits {
            let d0 = (v[i] as u32 - 48) as i32;
            let d1 = (v[i + 1] as u32 - 48) as i32;
            let d2 = (v[i + 2] as u32 - 48) as i32;
            let d3 = (v[i + 3] as u32 - 48) as i32;
            proof {
                let w = v@.subrange(i as int, i + 4);
                let w1 = w.drop_last();
                let w2 = w1.drop_last();
                let w3 = w2.drop_last();
                assert(w3.drop_last() =~= Seq::<char>::empty());
                assert(w3 =~= seq![v@[i as int]]);
                assert(w2 =~= seq![v@[i as int], v@[i + 1]]);
                assert(w1 =~= seq![v@[i as int], v@[i + 1], v@[i + 2]]);
                assert(w3.last() == v@[i as int]);
                assert(w2.last() == v@[i + 1]);
                assert(w1.last() == v@[i + 2]);
                assert(w.last() == v@[i + 3]);
                assert(d0 == v@[i as int] as int - 48);
                assert(d1 == v@[i + 1] as int - 48);
                assert(d2 == v@[i + 2] as int - 48);
                assert(d3 == v@[i + 3] as int - 48);
                assert(crate::text::digits_value(w3) == crate::text::digits_value(w3.drop_last()) * 10 + d0);
                assert(crate::text::digits_value(w3) == d0);
                assert(crate::text::digits_value(w2) == d0 * 10 + d1);
                assert(crate::text::digits_value(w1) == (d0 * 10 + d1) * 10 + d2);
                assert(crate::text::digits_value(w) == ((d0 * 10 + d1) * 10 + d2) * 10 + d3);
            }
            return Some(((d0 * 10 + d1) * 10 + d2) * 10 + d3);
        }
        i = i + 1;
    }
    None
}

/// Metadata for a connector import, before it is written.
///
/// `written_names` holds, for each attachment in order, the file name it was
/// written under (`None` when that name is not text); `raw_json` is the raw
/// item rendered as JSON text.
pub fn metadata_from_import(
    item_id: &ItemId,
    import: &ConnectorImport,
    attachments: &Vec<ConnectorAttachment>,
    written_names: &Vec<Option<String>>,
    raw_json: &str,
) -> (r: Metadata)
    ensures
        ({
            let files = written_attachment_files(
                attachments@,
                written_names@,
                min_len(attachments@.len(), written_names@.len()),
            );
            &&& r.id@ == item_id@
            &&& r.item_type@ == match import.item.item_type {
                Some(t) => t@,
                None => "unknown"@,
            }
            &&& r.title == import.item.title
            &&& r.abstract_note == import.item.abstract_note
            &&& r.doi == import.item.doi
            &&& r.uri == import.item.uri
            &&& (match r.year {
                Some(y) => import_year(import.item.raw) == Some(y as int),
                None => import_year(import.item.raw) is None,
            })
            &&& r.venue is None && r.language is None
            &&& creator_views(r.creators@) == match field_array(import.item.raw, "creators"@) {
                Some(vs) => creators_of(vs),
                None => Seq::empty(),
            }
            &&& r.categories@.len() == 0
            &&& file_views(r.files.extra@) == files
            &&& opt_view(r.files.main) == if files.len() > 0 {
                Some(files[0].0)
            } else {
                None
            }
            &&& crate::model::views(r.tags.items@) == match field_array(import.item.raw, "tags"@) {
                Some(vs) => tags_of(vs),
                None => Seq::empty(),
            }
            &&& r.import.source@ == "zotero-connector"@
            &&& r.import.session_id == import.item.session_id
            &&& r.import.imported_at is None
            &&& !r.state.missing_main_file && r.state.removed_categories@.len() == 0
            &&& r.raw_connector@.len() == if import.item.connector_item_id is Some {
                2int
            } else {
                1int
            }
            &&& match import.item.connector_item_id {
                Some(id) => r.raw_connector@[0].0@ == "connector_item_id"@ && r.raw_connector@[0].1
                    == id && r.raw_connector@[1].0@ == "raw_json"@ && r.raw_connector@[1].1@
                    == raw_json@,
                None => r.raw_connector@[0].0@ == "raw_json"@ && r.raw_connector@[0].1@
                    == raw_json@,
            }
            &&& r.extra@.len() == 0
        }),
{
    let mut extra: Vec<MetadataFile> = Vec::new();
    let n: usize = if attachments.len() < written_names.len() {
        attachments.len()
    } else {
        written_names.len()
    };
    let mut i: usize = 0;
    while i < n
        invariant
            i <= n,
            n == min_len(attachments@.len(), written_names@.len()),
            file_views(extra@) == written_attachment_files(attachments@, written_names@, i as int),
        decreases n - i,
    {
        match &written_names[i] {
            Some(name) => {
                let ghost before = extra@;
                extra.push(
                    MetadataFile {
                        path: name.clone(),
                        kind: owned("attachment"),
                        mime_type: attachments[i].mime_type.clone(),
                    },
                );
                proof {
                    assert(file_views(extra@) =~= file_views(before).push(file_view(extra@.last())));
                }
            },
            None => {},
        }
        i = i + 1;
    }
    let main = if extra.len() > 0 {
        Some(extra[0].path.clone())
    } else {
        None
    };
    let mut raw_connector: Vec<(String, String)> = Vec::new();
    if let Some(id) = &import.item.connector_item_id {
        raw_connector.push((owned("connector_item_id"), id.clone()));
    }
    raw_connector.push((owned("raw_json"), owned(raw_json)));
    let item_type = match &import.item.item_type {
        Some(t) => t.clone(),
        None => owned("unknown"),
    };
    let year = match crate::json::get_str(&import.item.raw, "date") {
        Some(d) => year_from_date(d),
        None => None,
    };
    Metadata {
        id: owned(item_id.as_str()),
        item_type,
        title: import.item.title.clone(),
        abstract_note: import.item.abstract_note.clone(),
        doi: import.item.doi.clone(),
        uri: import.item.uri.clone(),
        year,
        venue: None,
        language: None,
        creators: creators_from_raw(&import.item.raw),
        categories: Vec::new(),
        files: MetadataFiles { main, extra },
        tags: tags_from_raw(&import.item.raw),
        import: MetadataImport {
            source: owned("zotero-connector"),
            session_id: import.item.session_id.clone(),
            imported_at: None,
        },
        state: MetadataState { missing_main_file: false, removed_categories: Vec::new() },
        raw_connector,
        extra: Vec::new(),
    }
}

/// Number of PDF names in a list.
pub open spec fn pdf_names(names: Seq<String>) -> Seq<Seq<char>>
    decreases names.len(),
{
    if names.len() == 0 {
        Seq::empty()
    } else {
        let rest = pdf_names(names.drop_last());
        if is_pdf_name(names.last()@) {
            rest.push(names.last()@)
        } else {
            rest
        }
    }
}

/// The attachment records of a directory's files, in order.
pub open spec fn directory_files(names: Seq<String>) -> Seq<(Seq<char>, Seq<char>, Option<Seq<char>>)> {
    names.map_values(|n: String| (n@, "attachment"@, mime_for(n@)))
}

/// The metadata written for an existing directory under `All/` with item id
/// `id`, title `title` and files `files` (other than `metadata.toml`), in
/// directory order: every file is listed, and the main file is the PDF when
/// there is exactly one.
pub open spec fn all_directory_metadata(r: Metadata, id: Seq<char>, title: Seq<char>, files: Seq<String>) -> bool {
    &&& r.id@ == id
    &&& r.item_type@ == "document"@
    &&& r.title@ == title
    &&& r.abstract_note is None && r.doi is None && r.uri is None
    &&& r.year is None && r.venue is None && r.language is None
    &&& r.creators@.len() == 0 && r.categories@.len() == 0
    &&& file_views(r.files.extra@) == directory_files(files)
    &&& opt_view(r.files.main) == if pdf_names(files).len() == 1 {
        Some(pdf_names(files)[0])
    } else {
        None
    }
    &&& r.tags.items@.len() == 0
    &&& r.import.source@ == "manual-all-directory"@
    &&& r.import.session_id is None && r.import.imported_at is None
    &&& !r.state.missing_main_file && r.state.removed_categories@.len() == 0
    &&& r.raw_connector@.len() == 0 && r.extra@.len() == 0
}

/// Metadata for an existing directory under `All/` whose files (other than
/// `metadata.toml`) are `files`, in directory order: every file is listed,
/// and the main file is the PDF when there is exactly one.
pub fn metadata_from_all_directory(item_id: &ItemId, title: &str, files: &Vec<String>) -> (r:
    Metadata)
    ensures
        all_directory_metadata(r, item_id@, title@, files@),
{
    let mut extra: Vec<MetadataFile> = Vec::new();
    let mut pdfs: Vec<String> = Vec::new();
    let mut i: usize = 0;
    while i < files.len()
        invariant
            i <= files@.len(),
            file_views(extra@) == directory_files(files@.take(i as int)),
            crate::model::views(pdfs@) == pdf_names(files@.take(i as int)),
        decreases files.len() - i,
    {
        let name = &files[i];
        let ghost before = extra@;
        let ghost pbefore = pdfs@;
        extra.push(
            MetadataFile {
                path: name.clone(),
                kind: owned("attachment"),
                mime_type: mime_type_for_path(name.as_str()),
            },
        );
        if pdf_name(name.as_str()) {
            pdfs.push(name.clone());
        }
        proof {
            assert(files@.take(i + 1).drop_last() =~= files@.take(i as int));
            assert(files@.take(i + 1).last() == files@[i as int]);
            assert(directory_files(files@.take(i + 1)) =~= directory_files(files@.take(i as int)).push(
                (files@[i as int]@, "attachment"@, mime_for(files@[i as int]@)),
            ));
            assert(file_views(extra@) =~= file_views(before).push(file_view(extra@.last())));
            assert(crate::model::views(pdfs@) =~= if is_pdf_name(files@[i as int]@) {
                crate::model::views(pbefore).push(files@[i as int]@)
            } else {
                crate::model::views(pbefore)
            });
        }
        i = i + 1;
    }
    proof {
        assert(files@.take(files@.len() as int) =~= files@);
    }
    let main = if pdfs.len() == 1 {
        Some(pdfs[0].clone())
    } else {
        None
    };
    Metadata {
        id: owned(item_id.as_str()),
        item_type: owned("document"),
        title: owned(title),
        abstract_note: None,
        doi: None,
        uri: None,
        year: None,
        venue: None,
        language: None,
        creators: Vec::new(),
        categories: Vec::new(),
        files: MetadataFiles { main, extra },
        tags: MetadataTags { items: Vec::new() },
        import: MetadataImport {
            source: owned("manual-all-directory"),
            session_id: None,
            imported_at: None,
        },
        state: MetadataState { missing_main_file: false, removed_categories: Vec::new() },
        raw_connector: Vec::new(),
        extra: Vec::new(),
    }
}

/// Metadata for a single imported file, stored in its item directory under
/// `filename`.
pub fn file_import_metadata(item_id: &ItemId, title: &str, filename: &str) -> (r: Metadata)
    ensures
        r.id@ == item_id@,
        r.item_type@ == "document"@,
        r.title@ == title@,
        r.abstract_note is None && r.doi is None && r.uri is None,
        r.year is None && r.venue is None && r.language is None,
        r.creators@.len() == 0 && r.categories@.len() == 0,
        opt_view(r.files.main) == Some(filename@),
        file_views(r.files.extra@) == seq![(filename@, "attachment"@, mime_for(filename@))],
        r.tags.items@.len() == 0,
        r.import.source@ == "manual-file"@,
        r.import.session_id is None && r.import.imported_at is None,
        !r.state.missing_main_file && r.state.removed_categories@.len() == 0,
        r.raw_connector@.len() == 0 && r.extra@.len() == 0,
{
    let mut extra: Vec<MetadataFile> = Vec::new();
    extra.push(
        MetadataFile {
            path: owned(filename),
            kind: owned("attachment"),
            mime_type: mime_type_for_path(filename),
        },
    );
    proof {
        assert(file_views(extra@) =~= seq![(filename@, "attachment"@, mime_for(filename@))]);
    }
    Metadata {
        id: owned(item_id.as_str()),
        item_type: owned("document"),
        title: owned(title),
        abstract_note: None,
        doi: None,
        uri: None,
        year: None,
        venue: None,
        language: None,
        creators: Vec::new(),
        categories: Vec::new(),
        files: MetadataFiles { main: Some(owned(filename)), extra },
        tags: MetadataTags { items: Vec::new() },
        import: MetadataImport { source: owned("manual-file"), session_id: None, imported_at: None },
        state: MetadataState { missing_main_file: false, removed_categories: Vec::new() },
        raw_connector: Vec::new(),
        extra: Vec::new(),
    }
}

// ---------------------------------------------------------------------------
// Metadata file lists
// ---------------------------------------------------------------------------

/// Whether some record has this path.
pub open spec fn lists_path(fs: Seq<MetadataFile>, name: Seq<char>) -> bool {
    exists|i: int| 0 <= i < fs.len() && (#[trigger] fs[i]).path@ == name
}

fn has_path(fs: &Vec<MetadataFile>, name: &str) -> (r: bool)
    ensures
        r == lists_path(fs@, name@),
{
    let mut i: usize = 0;
    while i < fs.len()
        invariant
            i <= fs@.len(),
            forall|k: int| 0 <= k < i ==> (#[trigger] fs@[k]).path@ != name@,
        decreases fs.len() - i,
    {
        if str_eq(fs[i].path.as_str(), name) {
            return true;
        }
        i = i + 1;
    }
    false
}

/// `m1` is `m0` with the file `name` recorded: it becomes the main file when
/// there is none; otherwise it is listed as an attachment unless already
/// listed.  Nothing else changes.
pub open spec fn item_file_added(m0: Metadata, m1: Metadata, name: Seq<char>) -> bool {
    &&& m0.files.main is None ==> opt_view(m1.files.main) == Some(name) && m1.files.extra
        == m0.files.extra
    &&& m0.files.main is Some ==> m1.files.main == m0.files.main && file_views(m1.files.extra@)
        == if lists_path(m0.files.extra@, name) {
        file_views(m0.files.extra@)
    } else {
        file_views(m0.files.extra@).push((name, "attachment"@, None))
    }
    &&& m1 == (Metadata { files: m1.files, ..m0 })
}

/// Record a file added to an item (see [`item_file_added`]).
pub fn add_item_file(metadata: &mut Metadata, filename: &str)
    ensures
        item_file_added(*old(metadata), *final(metadata), filename@),
{
    if metadata.files.main.is_none() {
        metadata.files.main = Some(owned(filename));
    } else if !has_path(&metadata.files.extra, filename) {
        let ghost before = metadata.files.extra@;
        metadata.files.extra.push(
            MetadataFile { path: owned(filename), kind: owned("attachment"), mime_type: None },
        );
        proof {
            assert(file_views(metadata.files.extra@) =~= file_views(before).push(
                (filename@, "attachment"@, None),
            ));
        }
    }
}

/// Record a late connector attachment: it becomes the main file when there
/// is none, and it is listed (with its MIME type) unless already listed.
pub fn add_attachment_file(metadata: &mut Metadata, filename: &str, mime_type: &Option<String>)
    ensures
        old(metadata).files.main is None ==> opt_view(final(metadata).files.main) == Some(
            filename@,
        ),
        old(metadata).files.main is Some ==> final(metadata).files.main == old(
            metadata,
        ).files.main,
        file_views(final(metadata).files.extra@) == if lists_path(
            old(metadata).files.extra@,
            filename@,
        ) {
            file_views(old(metadata).files.extra@)
        } else {
            file_views(old(metadata).files.extra@).push(
                (filename@, "attachment"@, opt_view(*mime_type)),
            )
        },
        final(metadata).id == old(metadata).id,
        final(metadata).title == old(metadata).title,
        final(metadata).categories == old(metadata).categories,
        final(metadata).creators == old(metadata).creators,
{
    if metadata.files.main.is_none() {
        metadata.files.main = Some(owned(filename));
    }
    if !has_path(&metadata.files.extra, filename) {
        let ghost before = metadata.files.extra@;
        metadata.files.extra.push(
            MetadataFile {
                path: owned(filename),
                kind: owned("attachment"),
                mime_type: mime_type.clone(),
            },
        );
        proof {
            assert(file_views(metadata.files.extra@) =~= file_views(before).push(
                (filename@, "attachment"@, opt_view(*mime_type)),
            ));
        }
    }
}

/// A metadata patch must keep the item's id.
pub fn check_patch_id(item_id: &str, metadata: &Metadata) -> (r: Result<(), LocalrefError>)
    ensures
        r is Ok <==> metadata.id@ == item_id@,
        r matches Err(e) ==> e matches LocalrefError::Unsupported(m) && m@
            == "metadata id cannot be changed"@,
{
    if !str_eq(metadata.id.as_str(), item_id) {
        return Err(LocalrefError::Unsupported(owned("metadata id cannot be changed")));
    }
    Ok(())
}

/// Where a refused metadata write is kept instead: `metadata.daemon.toml`
/// beside the item's `metadata.toml`.
pub fn conflict_candidate_path(item_dir: &str) -> (r: String)
    ensures
        r@ == join_path(item_dir@, "metadata.daemon.toml"@),
{
    join(item_dir, "metadata.daemon.toml")
}

/// A revision check before a metadata write: the text on disk must still
/// have the revision the writer read.
pub fn check_revision(current_text: &str, expected_revision: &str, metadata_id: &str) -> (r:
    Result<(), LocalrefError>)
    ensures
        crate::model::hex_digits(crate::model::fnv1a(current_text.spec_bytes()), 16)
            == expected_revision@ <==> r is Ok,
        r matches Err(e) ==> e matches LocalrefError::Conflict(m) && m@
            == "metadata revision mismatch for "@ + metadata_id@,
{
    let current = Metadata::revision_for_text(current_text);
    if !str_eq(current.as_str(), expected_revision) {
        return Err(LocalrefError::Conflict(concat2("metadata revision mismatch for ", metadata_id)));
    }
    Ok(())
}

// ---------------------------------------------------------------------------
// Webpage source shortcut
// ---------------------------------------------------------------------------

/// Text of the Internet shortcut saved for a webpage import.
pub open spec fn shortcut_text(uri: Seq<char>, title: Seq<char>) -> Seq<char> {
    "[InternetShortcut]\r\nURL="@ + uri + "\r\nIconIndex=0\r\nHotKey=0\r\nIDList=\r\nWorkingDirectory=\r\n"@
        + "Comment="@ + title
}

/// Some attachment is already named `source.url` (ignoring ASCII case).
pub open spec fn has_source_url(atts: Seq<ConnectorAttachment>) -> bool {
    exists|i: int| 0 <= i < atts.len() && lower((#[trigger] atts[i]).filename@) == "source.url"@
}

/// A webpage import without a `source.url` attachment gets one, when the
/// page URI is known.
pub open spec fn adds_source_url(import: ConnectorImport) -> bool {
    &&& opt_view(import.item.item_type) == Some("webpage"@)
    &&& !has_source_url(import.attachments@)
    &&& import.item.uri is Some
}

/// `r` holds the attachments of an import, in order, followed by an
/// Internet shortcut to the page for a webpage import that lacks one.
pub open spec fn webpage_attachments(import: ConnectorImport, r: Seq<ConnectorAttachment>) -> bool {
    &&& r.len() == import.attachments@.len() + if adds_source_url(import) {
        1int
    } else {
        0int
    }
    &&& forall|i: int|
        0 <= i < import.attachments@.len() ==> (#[trigger] r[i]).same_as(&import.attachments@[i])
    &&& adds_source_url(import) ==> {
        let a = r.last();
        &&& a.session_id == import.item.session_id
        &&& a.parent_item_id == import.item.connector_item_id
        &&& opt_view(a.title) == Some("Source URL"@)
        &&& a.filename@ == "source.url"@
        &&& opt_view(a.mime_type) == Some("text/uri-list"@)
        &&& a.bytes@ == vstd::utf8::encode_utf8(
            shortcut_text(opt_view(import.item.uri)->0, import.item.title@),
        )
        &&& a.raw_metadata is None
    }
}

/// Return the attachments of an import, adding an Internet shortcut to the
/// page for webpage imports that lack one.
pub fn attachments_with_webpage_source(import: &ConnectorImport) -> (r: Vec<ConnectorAttachment>)
    ensures
        webpage_attachments(*import, r@),
{
    let mut out: Vec<ConnectorAttachment> = Vec::new();
    let mut found = false;
    let mut i: usize = 0;
    while i < import.attachments.len()
        invariant
            i <= import.attachments@.len(),
            out@.len() == i,
            forall|k: int| 0 <= k < i ==> (#[trigger] out@[k]).same_as(&import.attachments@[k]),
            found <==> exists|k: int|
                0 <= k < i && lower((#[trigger] import.attachments@[k]).filename@)
                    == "source.url"@,
        decreases import.attachments.len() - i,
    {
        let a = &import.attachments[i];
        let l = to_ascii_lowercase(a.filename.as_str());
        if str_eq(l.as_str(), "source.url") {
            found = true;
        }
        out.push(a.duplicate());
        i = i + 1;
    }
    let is_webpage = match &import.item.item_type {
        Some(t) => str_eq(t.as_str(), "webpage"),
        None => false,
    };
    if is_webpage && !found {
        if let Some(uri) = &import.item.uri {
            let mut text = owned("[InternetShortcut]\r\nURL=");
            push_str(&mut text, uri.as_str());
            push_str(&mut text, "\r\nIconIndex=0\r\nHotKey=0\r\nIDList=\r\nWorkingDirectory=\r\n");
            push_str(&mut text, "Comment=");
            push_str(&mut text, import.item.title.as_str());
            let bytes = text.as_str().as_bytes_vec();
            out.push(
                ConnectorAttachment {
                    session_id: import.item.session_id.clone(),
                    parent_item_id: import.item.connector_item_id.clone(),
                    title: Some(owned("Source URL")),
                    filename: owned("source.url"),
                    mime_type: Some(owned("text/uri-list")),
                    bytes,
                    raw_metadata: None,
                },
            );
        }
    }
    out
}

// ---------------------------------------------------------------------------
// Categories and file names
// ---------------------------------------------------------------------------

/// The categories an import is filed under: the matched ones, or
/// `unmatched` when none matched, so no item is left outside `Cat/`.
pub fn categories_or_unmatched(categories: Vec<CategoryPath>) -> (r: Vec<CategoryPath>)
    ensures
        categories@.len() > 0 ==> r@ == categories@,
        categories@.len() == 0 ==> r@.len() == 1 && r@[0]@ == unmatched_category(),
{
    if categories.len() > 0 {
        return categories;
    }
    let mut out: Vec<CategoryPath> = Vec::new();
    proof {
        reveal_strlit("unmatched");
        crate::types::lemma_plain_category("unmatched"@);
    }
    match CategoryPath::new("unmatched") {
        Some(p) => {
            out.push(p);
        },
        None => {},
    }
    out
}

/// An item is filed either under `unmatched` or under real categories,
/// never both: filing it under a real category takes it out of
/// `unmatched`.  The category to take it out of, `None` when `category`
/// is `unmatched` itself.
pub fn unmatched_to_clear(category: &CategoryPath) -> (r: Option<CategoryPath>)
    ensures
        category@ == unmatched_category() ==> r is None,
        category@ != unmatched_category() ==> (r matches Some(u) && u@ == unmatched_category()),
{
    proof {
        reveal_strlit("unmatched");
        crate::types::lemma_plain_category("unmatched"@);
    }
    if str_eq(category.as_str(), "unmatched") {
        return None;
    }
    CategoryPath::new("unmatched")
}

/// The `suffix`-th alternative name for an attachment whose name is taken:
/// `<stem> (<suffix>).<ext>`, or `<stem> (<suffix>)` without extension; the
/// stem falls back to the whole name.
pub open spec fn attachment_alternative(filename: Seq<char>, suffix: nat) -> Seq<char> {
    let stem = match path_stem(filename) {
        Some(s) => s,
        None => filename,
    };
    let numbered = stem + " ("@ + decimal(suffix) + seq![')'];
    match path_extension(filename) {
        Some(e) => numbered + seq!['.'] + e,
        None => numbered,
    }
}

/// Executable form of [`attachment_alternative`].
pub fn attachment_alternative_name(filename: &str, suffix: u64) -> (r: String)
    ensures
        r@ == attachment_alternative(filename@, suffix as nat),
{
    let mut out = match stem_of(filename) {
        Some(s) => s,
        None => owned(filename),
    };
    push_str(&mut out, " (");
    push_str(&mut out, decimal_string(suffix).as_str());
    push_char(&mut out, ')');
    match extension_of(filename) {
        Some(e) => {
            push_char(&mut out, '.');
            push_str(&mut out, e.as_str());
        },
        None => {},
    }
    out
}

/// The `suffix`-th alternative name for an added item file whose name is
/// taken: `<stem>-<suffix>.<ext>`, or `<stem>-<suffix>`; the stem falls back
/// to `file`.
pub open spec fn item_file_alternative(filename: Seq<char>, suffix: nat) -> Seq<char> {
    let stem = match path_stem(filename) {
        Some(s) => s,
        None => "file"@,
    };
    let numbered = stem + seq!['-'] + decimal(suffix);
    match path_extension(filename) {
        Some(e) => numbered + seq!['.'] + e,
        None => numbered,
    }
}

/// Executable form of [`item_file_alternative`].
pub fn item_file_alternative_name(filename: &str, suffix: u64) -> (r: String)
    ensures
        r@ == item_file_alternative(filename@, suffix as nat),
{
    let mut out = match stem_of(filename) {
        Some(s) => s,
        None => owned("file"),
    };
    push_char(&mut out, '-');
    push_str(&mut out, decimal_string(suffix).as_str());
    match extension_of(filename) {
        Some(e) => {
            push_char(&mut out, '.');
            push_str(&mut out, e.as_str());
        },
        None => {},
    }
    out
}


/// How a taken name is varied to find a free one.
#[derive(Clone, Copy, Debug, PartialEq, Eq, Structural)]
pub enum NameScheme {
    /// Added item files: `<stem>-<n>.<ext>`.
    ItemFile,
    /// Connector attachments: `<stem> (<n>).<ext>`.
    Attachment,
    /// Item directories: `<name> (<n>)`.
    ItemDir,
}

/// The `k`-th alternative of `name` under a scheme.
pub open spec fn alternative(scheme: NameScheme, name: Seq<char>, k: nat) -> Seq<char> {
    match scheme {
        NameScheme::ItemFile => item_file_alternative(name, k),
        NameScheme::Attachment => attachment_alternative(name, k),
        NameScheme::ItemDir => name + " ("@ + decimal(k) + seq![')'],
    }
}

/// Executable form of [`alternative`].
pub fn alternative_name(scheme: NameScheme, name: &str, k: u64) -> (r: String)
    ensures
        r@ == alternative(scheme, name@, k as nat),
{
    match scheme {
        NameScheme::ItemFile => item_file_alternative_name(name, k),
        NameScheme::Attachment => attachment_alternative_name(name, k),
        NameScheme::ItemDir => {
            let mut out = owned(name);
            push_str(&mut out, " (");
            push_str(&mut out, decimal_string(k).as_str());
            push_char(&mut out, ')');
            out
        },
    }
}

/// A name of the form `prefix + decimal(k) + suffix` determines `k`.
proof fn lemma_numbered_injective(prefix: Seq<char>, suffix: Seq<char>, a: nat, b: nat)
    requires
        prefix + decimal(a) + suffix == prefix + decimal(b) + suffix,
    ensures
        a == b,
{
    let na = prefix + decimal(a) + suffix;
    let nb = prefix + decimal(b) + suffix;
    let p = prefix.len();
    assert(na.subrange(p as int, na.len() - suffix.len()) =~= decimal(a));
    assert(nb.subrange(p as int, nb.len() - suffix.len()) =~= decimal(b));
    crate::text::lemma_decimal_injective(a, b);
}

/// Distinct suffixes give distinct alternative names.
proof fn lemma_alternative_injective(scheme: NameScheme, name: Seq<char>, a: nat, b: nat)
    requires
        alternative(scheme, name, a) == alternative(scheme, name, b),
    ensures
        a == b,
{
    let tail = match path_extension(name) {
        Some(e) => seq!['.'] + e,
        None => Seq::<char>::empty(),
    };
    match scheme {
        NameScheme::ItemFile => {
            let stem = match path_stem(name) {
                Some(s) => s,
                None => "file"@,
            };
            let prefix = stem + seq!['-'];
            assert(alternative(scheme, name, a) =~= prefix + decimal(a) + tail);
            assert(alternative(scheme, name, b) =~= prefix + decimal(b) + tail);
            lemma_numbered_injective(prefix, tail, a, b);
        },
        NameScheme::Attachment => {
            let stem = match path_stem(name) {
                Some(s) => s,
                None => name,
            };
            let prefix = stem + " ("@;
            let suffix = seq![')'] + tail;
            assert(alternative(scheme, name, a) =~= prefix + decimal(a) + suffix);
            assert(alternative(scheme, name, b) =~= prefix + decimal(b) + suffix);
            lemma_numbered_injective(prefix, suffix, a, b);
        },
        NameScheme::ItemDir => {
            let prefix = name + " ("@;
            assert(alternative(scheme, name, a) =~= prefix + decimal(a) + seq![')']);
            assert(alternative(scheme, name, b) =~= prefix + decimal(b) + seq![')']);
            lemma_numbered_injective(prefix, seq![')'], a, b);
        },
    }
}

/// The alternatives with suffixes `2 ..= n + 2`.
pub open spec fn alternative_candidates(scheme: NameScheme, name: Seq<char>, n: nat) -> Seq<
    Seq<char>,
> {
    Seq::new(n + 1, |i: int| alternative(scheme, name, (i + 2) as nat))
}

/// A list of `n` names cannot hold all of the `n + 1` first alternatives.
proof fn lemma_alternatives_not_all_taken(scheme: NameScheme, name: Seq<char>, taken: Seq<Seq<char>>)
    ensures
        exists|k: nat|
            2 <= k <= taken.len() + 2 && !taken.contains(#[trigger] alternative(scheme, name, k)),
{
    let n = taken.len();
    let c = alternative_candidates(scheme, name, n);
    assert forall|i: int, j: int| 0 <= i < c.len() && 0 <= j < c.len() && i != j implies c[i] != c[j] by {
        if c[i] == c[j] {
            lemma_alternative_injective(scheme, name, (i + 2) as nat, (j + 2) as nat);
        }
    }
    assert(c.no_duplicates());
    c.unique_seq_to_set();
    taken.lemma_cardinality_of_set();
    if forall|k: nat| 2 <= k <= n + 2 ==> taken.contains(#[trigger] alternative(scheme, name, k)) {
        assert forall|x: Seq<char>| c.to_set().contains(x) implies taken.to_set().contains(x) by {
            let i = choose|i: int| 0 <= i < c.len() && c[i] == x;
            assert(taken.contains(alternative(scheme, name, (i + 2) as nat)));
        }
        vstd::set_lib::lemma_len_subset(c.to_set(), taken.to_set());
        assert(false);
    }
}

/// `r` is the first free form of `name` among `taken`: the name itself when
/// free, else its first alternative (suffix 2, 3, ...) that is free.
pub open spec fn first_free(scheme: NameScheme, name: Seq<char>, taken: Seq<Seq<char>>, r: Seq<char>) -> bool {
    &&& !taken.contains(r)
    &&& !taken.contains(name) ==> r == name
    &&& taken.contains(name) ==> exists|k: nat|
        2 <= k && r == alternative(scheme, name, k) && forall|j: nat|
            2 <= j < k ==> taken.contains(#[trigger] alternative(scheme, name, j))
}

/// Only one name is the first free form of `name` among `taken`.
pub proof fn lemma_first_free_unique(
    scheme: NameScheme,
    name: Seq<char>,
    taken: Seq<Seq<char>>,
    r: Seq<char>,
    q: Seq<char>,
)
    requires
        first_free(scheme, name, taken, r),
        first_free(scheme, name, taken, q),
    ensures
        r == q,
{
    if taken.contains(name) {
        let k1 = choose|k: nat|
            2 <= k && r == alternative(scheme, name, k) && forall|j: nat|
                2 <= j < k ==> taken.contains(#[trigger] alternative(scheme, name, j));
        let k2 = choose|k: nat|
            2 <= k && q == alternative(scheme, name, k) && forall|j: nat|
                2 <= j < k ==> taken.contains(#[trigger] alternative(scheme, name, j));
        if k1 < k2 {
            assert(taken.contains(alternative(scheme, name, k1)));
        } else if k2 < k1 {
            assert(taken.contains(alternative(scheme, name, k2)));
        }
    }
}

/// The first free form of `name` among the entries `taken` (see
/// [`first_free`]).
pub fn first_free_name(scheme: NameScheme, name: &str, taken: &Vec<String>) -> (r: String)
    requires
        taken@.len() + 3 <= u64::MAX,
    ensures
        first_free(scheme, name@, crate::ordered::string_views(taken@), r@),
{
    let ghost tv = crate::ordered::string_views(taken@);
    if !crate::ordered::string_listed(taken, name) {
        return owned(name);
    }
    proof {
        lemma_alternatives_not_all_taken(scheme, name@, tv);
    }
    let bound: u64 = taken.len() as u64 + 2;
    let mut suffix: u64 = 2;
    loop
        invariant
            2 <= suffix <= bound,
            bound == taken@.len() + 2,
            tv == crate::ordered::string_views(taken@),
            tv.contains(name@),
            forall|j: nat| 2 <= j < suffix ==> tv.contains(#[trigger] alternative(scheme, name@, j)),
            exists|k: nat| suffix <= k <= bound && !tv.contains(#[trigger] alternative(scheme, name@, k)),
        decreases bound - suffix,
    {
        let candidate = alternative_name(scheme, name, suffix);
        if !crate::ordered::string_listed(taken, candidate.as_str()) {
            return candidate;
        }
        proof {
            let k = choose|k: nat| suffix <= k <= bound && !tv.contains(#[trigger] alternative(scheme, name@, k));
            assert(k != suffix);
        }
        suffix = suffix + 1;
    }
}

/// The name under which an added file is stored in an item directory whose
/// entries are `taken`: the file's own name when free, else the first free
/// alternative `<stem>-2.<ext>`, `<stem>-3.<ext>`, ...
pub fn unique_item_file_name(filename: &str, taken: &Vec<String>) -> (r: String)
    requires
        taken@.len() + 3 <= u64::MAX,
    ensures
        first_free(NameScheme::ItemFile, filename@, crate::ordered::string_views(taken@), r@),
{
    first_free_name(NameScheme::ItemFile, filename, taken)
}

/// The directory name of a new item titled `title` under `All/`, whose
/// entries are `taken`: the sanitized title when free, else the first free
/// `<title> (2)`, `<title> (3)`, ...
pub fn unique_item_dir_name(title: &str, taken: &Vec<String>) -> (r: Result<String, LocalrefError>)
    requires
        taken@.len() + 3 <= u64::MAX,
    ensures
        match ntfs_component(title@) {
            Some(base) => r matches Ok(name) && first_free(
                NameScheme::ItemDir,
                base,
                crate::ordered::string_views(taken@),
                name@,
            ),
            None => r matches Err(e) && ntfs_rejection(title@, e),
        },
{
    let base = sanitize_ntfs_component(title)?;
    Ok(first_free_name(NameScheme::ItemDir, base.as_str(), taken))
}

/// The file name a connector attachment is written under in an item
/// directory whose entries are `taken`: its sanitized name when free, else
/// the first free `<stem> (2).<ext>`, `<stem> (3).<ext>`, ...
pub fn attachment_file_name(filename: &str, taken: &Vec<String>) -> (r: Result<String, LocalrefError>)
    requires
        taken@.len() + 3 <= u64::MAX,
    ensures
        match ntfs_component(filename@) {
            Some(base) => r matches Ok(name) && first_free(
                NameScheme::Attachment,
                base,
                crate::ordered::string_views(taken@),
                name@,
            ),
            None => r matches Err(e) && ntfs_rejection(filename@, e),
        },
{
    let base = sanitize_ntfs_component(filename)?;
    Ok(first_free_name(NameScheme::Attachment, base.as_str(), taken))
}

// ---------------------------------------------------------------------------
// The import pipeline
// ---------------------------------------------------------------------------

/// The reason given when a manual import targets no directory under `All/`.
pub open spec fn outside_all_reason() -> Seq<char> {
    "manual All import must target a directory under All/"@
}

/// Check that a directory lies strictly under `All/`; both paths are
/// canonical.  The directory itself must not be `All/`.
pub fn ensure_inside_all(all_dir: &str, item_dir: &str) -> (r: Result<(), LocalrefError>)
    ensures
        r is Ok <==> (item_dir@ != all_dir@ && path_prefix(item_dir@, all_dir@)),
        r matches Err(e) ==> e matches LocalrefError::InvalidPathComponent { component, reason }
            && component@ == item_dir@ && reason@ == outside_all_reason(),
{
    if str_eq(item_dir, all_dir) || !starts_with_path(item_dir, all_dir) {
        return Err(
            LocalrefError::InvalidPathComponent {
                component: owned(item_dir),
                reason: owned("manual All import must target a directory under All/"),
            },
        );
    }
    Ok(())
}

/// Import pipeline rooted at one Localref library: its filesystem layout and
/// its lock directory.
#[derive(Clone, Debug)]
pub struct ImportPipeline {
    fs: LibraryFs,
    locks: LockManager,
}

/// What a connector import writes: the item id, the attachments to save
/// into the new item directory, and the categories it is linked under.
#[derive(Debug)]
pub struct ConnectorImportPlan {
    pub item_id: ItemId,
    pub attachments: Vec<ConnectorAttachment>,
    pub categories: Vec<CategoryPath>,
}

/// What importing one file writes: the new item directory's name under
/// `All/`, the file's name inside it, the item id and its metadata.
#[derive(Debug)]
pub struct FileImportPlan {
    pub dir_name: String,
    pub file_name: String,
    pub item_id: ItemId,
    pub metadata: Metadata,
}

/// What a checked metadata write does.
#[derive(Debug)]
pub enum RevisionWrite {
    /// Replace `metadata.toml` at `path` with the metadata.
    Replace { path: String },
    /// The file changed since it was read: keep the metadata at
    /// `candidate_path` and fail with `error`.
    Conflict { candidate_path: String, error: LocalrefError },
}

/// How a real directory under `Cat/` becomes an `All/` item with a link.
#[derive(Debug)]
pub enum CatNormalization {
    /// Its metadata names an indexed item: the directory is dropped and the
    /// link points at that item's directory.
    Existing { item_id: ItemId, object_path: String },
    /// It moves to `All/<target_name>`; `write_metadata` when it had no
    /// metadata of its own.
    New { item_id: ItemId, target_name: String, write_metadata: bool },
}

/// The id of the first indexed item with this id.
pub open spec fn indexed_object_path(items: Seq<ItemDocument>, id: Seq<char>) -> Option<Seq<char>>
    decreases items.len(),
{
    if items.len() == 0 {
        None
    } else if items[0].id@ == id {
        Some(items[0].object_path@)
    } else {
        indexed_object_path(items.drop_first(), id)
    }
}

fn find_indexed(items: &Vec<ItemDocument>, id: &str) -> (r: Option<String>)
    ensures
        opt_view(r) == indexed_object_path(items@, id@),
{
    let mut i: usize = 0;
    proof {
        assert(items@.skip(0) =~= items@);
    }
    while i < items.len()
        invariant
            i <= items@.len(),
            indexed_object_path(items@, id@) == indexed_object_path(items@.skip(i as int), id@),
        decreases items.len() - i,
    {
        proof {
            assert(items@.skip(i as int)[0] == items@[i as int]);
            assert(items@.skip(i as int).drop_first() =~= items@.skip(i + 1));
        }
        if str_eq(items[i].id.as_str(), id) {
            return Some(items[i].object_path.clone());
        }
        i = i + 1;
    }
    None
}

/// The first category that is not a valid category path, if any.
pub open spec fn first_invalid_text(cats: Seq<String>, from: int) -> Option<int>
    decreases cats.len() - from,
{
    if from < 0 || from >= cats.len() {
        None
    } else if !crate::types::category_ok(crate::types::category_norm(cats[from]@)) {
        Some(from)
    } else {
        first_invalid_text(cats, from + 1)
    }
}

/// The categories an item is indexed under, as category paths.  An invalid
/// one (the first) is refused.
pub fn indexed_categories(categories: &Vec<String>) -> (r: Result<Vec<CategoryPath>, LocalrefError>)
    ensures
        match first_invalid_text(categories@, 0) {
            Some(k) => r matches Err(e) && e matches LocalrefError::InvalidPathComponent {
                component,
                reason,
            } && component == categories@[k] && reason@ == "indexed category path is invalid"@,
            None => r matches Ok(cs) && cs@.len() == categories@.len() && forall|i: int|
                0 <= i < cs@.len() ==> (#[trigger] cs@[i])@ == crate::types::category_norm(
                    categories@[i]@,
                ),
        },
{
    let mut out: Vec<CategoryPath> = Vec::new();
    let mut i: usize = 0;
    while i < categories.len()
        invariant
            i <= categories@.len(),
            out@.len() == i,
            first_invalid_text(categories@, 0) == first_invalid_text(categories@, i as int),
            forall|k: int| 0 <= k < i ==> (#[trigger] out@[k])@ == crate::types::category_norm(
                categories@[k]@,
            ),
        decreases categories.len() - i,
    {
        match CategoryPath::new(categories[i].as_str()) {
            Some(c) => {
                out.push(c);
            },
            None => {
                return Err(
                    LocalrefError::InvalidPathComponent {
                        component: categories[i].clone(),
                        reason: owned("indexed category path is invalid"),
                    },
                );
            },
        }
        i = i + 1;
    }
    Ok(out)
}

impl ImportPipeline {
    /// The library root.
    pub closed spec fn spec_root(&self) -> Seq<char> {
        self.fs@
    }

    /// The lock directory.
    pub closed spec fn spec_lock_dir(&self) -> Seq<char> {
        self.locks.spec_dir()
    }

    /// Create an import pipeline for a library root.
    pub fn new(library_root: &str) -> (r: ImportPipeline)
        ensures
            r.spec_root() == library_root@,
            r.spec_lock_dir() == join_path(join_path(library_root@, ".localref"@), "locks"@),
    {
        ImportPipeline { fs: LibraryFs::new(library_root), locks: LockManager::new(library_root) }
    }

    /// The library layout.
    pub fn fs(&self) -> (r: &LibraryFs)
        ensures
            r@ == self.spec_root(),
    {
        &self.fs
    }

    /// The lock directory manager.
    pub fn locks(&self) -> (r: &LockManager)
        ensures
            r.spec_dir() == self.spec_lock_dir(),
    {
        &self.locks
    }

    /// Create metadata for an unmanaged existing directory under `All/`.
    ///
    /// `all_dir` and `canonical_dir` are the canonical forms of `All/` and of
    /// `item_dir`; `is_dir` and `metadata_exists` say whether `item_dir` is a
    /// directory and already holds `metadata.toml`; `dir_name` is its final
    /// component as text; `files` its files other than `metadata.toml`.
    /// Returns the outcome and the metadata to write to `metadata.toml`.
    pub fn create_metadata_for_all_directory(
        &self,
        item_dir: &str,
        all_dir: &str,
        canonical_dir: &str,
        is_dir: bool,
        metadata_exists: bool,
        dir_name: Option<String>,
        files: &Vec<String>,
    ) -> (r: Result<(ImportOutcome, Metadata), LocalrefError>)
        ensures
            !(canonical_dir@ != all_dir@ && path_prefix(canonical_dir@, all_dir@)) ==> (r matches Err(
                e,
            ) && e matches LocalrefError::InvalidPathComponent { component, reason }
                && component@ == canonical_dir@ && reason@ == outside_all_reason()),
            (canonical_dir@ != all_dir@ && path_prefix(canonical_dir@, all_dir@)) ==> {
                &&& !is_dir ==> (r matches Err(e) && e matches LocalrefError::MissingField(m)
                    && m@ == "All item directory"@)
                &&& is_dir && metadata_exists ==> (r matches Err(e) && e matches LocalrefError::Conflict(
                    m,
                ) && m@ == "metadata already exists at "@ + join_path(item_dir@, "metadata.toml"@))
                &&& is_dir && !metadata_exists && dir_name is None ==> (r matches Err(e)
                    && e matches LocalrefError::MissingField(m) && m@ == "item directory name"@)
                &&& is_dir && !metadata_exists ==> (dir_name matches Some(t) ==> match ntfs_component(t@) {
                    None => r matches Err(e) && ntfs_rejection(t@, e),
                    Some(c) => r matches Ok((out, md)) && out.item_id@ == "lr:manual:"@ + c
                        && out.item_dir@ == item_dir@ && crate::model::views(out.written_files@)
                        == seq![join_path(item_dir@, "metadata.toml"@)] && out.categories@.len()
                        == 0 && all_directory_metadata(md, out.item_id@, t@, files@),
                })
            },
    {
        ensure_inside_all(all_dir, canonical_dir)?;
        if !is_dir {
            return Err(LocalrefError::MissingField(owned("All item directory")));
        }
        let metadata_path = join(item_dir, "metadata.toml");
        if metadata_exists {
            return Err(
                LocalrefError::Conflict(concat2("metadata already exists at ", metadata_path.as_str())),
            );
        }
        let title = match dir_name {
            Some(t) => t,
            None => {
                return Err(LocalrefError::MissingField(owned("item directory name")));
            },
        };
        let item_id = manual_item_id(title.as_str())?;
        let metadata = metadata_from_all_directory(&item_id, title.as_str(), files);
        let mut written_files: Vec<String> = Vec::new();
        written_files.push(metadata_path);
        proof {
            assert(crate::model::views(written_files@) =~= seq![join_path(item_dir@, "metadata.toml"@)]);
        }
        Ok((ImportOutcome { item_id, item_dir: owned(item_dir), written_files, categories: Vec::new() }, metadata))
    }

    /// The metadata written for a manually imported `All/` directory
    /// `target` whose files are `files`, and the path it is written to.
    /// The metadata is validated first, as writing it does: a blank id or
    /// title is refused and nothing is to be written.
    pub fn write_directory_metadata(&self, item_id: &ItemId, title: &str, target: &str, files: &Vec<String>) -> (r: Result<
        (String, Metadata),
        LocalrefError,
    >)
        ensures
            r is Err <==> (crate::text::is_blank(item_id@) || crate::text::is_blank(title@)),
            r matches Err(e) ==> e matches LocalrefError::MissingField(f) && f@ == (if crate::text::is_blank(item_id@) {
                "metadata.id"@
            } else {
                "metadata.title"@
            }),
            r matches Ok((path, m)) ==> path@ == join_path(target@, "metadata.toml"@)
                && all_directory_metadata(m, item_id@, title@, files@) && crate::model::metadata_valid(m),
    {
        let metadata = metadata_from_all_directory(item_id, title, files);
        metadata.validate()?;
        Ok((join(target, "metadata.toml"), metadata))
    }

    /// A metadata write that must not overwrite changes made since the
    /// writer read `metadata.toml` (whose current text is `current_text`):
    /// the metadata is validated first; then, when the text still has
    /// `expected_revision`, `metadata.toml` is replaced, and otherwise the
    /// candidate goes to `metadata.daemon.toml` and the write fails with a
    /// conflict.
    pub fn write_metadata_if_revision(
        &self,
        item_dir: &str,
        metadata: &Metadata,
        current_text: &str,
        expected_revision: &str,
    ) -> (r: Result<RevisionWrite, LocalrefError>)
        ensures
            r is Err <==> !crate::model::metadata_valid(*metadata),
            r matches Err(e) ==> crate::model::validation_refusal(*metadata, e),
            r matches Ok(w) ==> match w {
                RevisionWrite::Replace { path } => crate::model::hex_digits(
                    crate::model::fnv1a(current_text.spec_bytes()),
                    16,
                ) == expected_revision@ && path@ == join_path(item_dir@, "metadata.toml"@),
                RevisionWrite::Conflict { candidate_path, error } => crate::model::hex_digits(
                    crate::model::fnv1a(current_text.spec_bytes()),
                    16,
                ) != expected_revision@ && candidate_path@ == join_path(item_dir@, "metadata.daemon.toml"@)
                    && (error matches LocalrefError::Conflict(m) && m@ == "metadata revision mismatch for "@
                    + metadata.id@),
            },
    {
        metadata.validate()?;
        match check_revision(current_text, expected_revision, metadata.id.as_str()) {
            Ok(()) => Ok(RevisionWrite::Replace { path: join(item_dir, "metadata.toml") }),
            Err(error) => Ok(RevisionWrite::Conflict { candidate_path: conflict_candidate_path(item_dir), error }),
        }
    }

    /// Place an uploaded file in an item directory whose entries are
    /// `taken`: the sanitized name, made unique, and the item's metadata
    /// (when it has a `metadata.toml`) with the file recorded.  Returns the
    /// target path and the updated metadata.
    pub fn add_uploaded_file_to_item(
        &self,
        item_dir: &str,
        filename: &str,
        taken: &Vec<String>,
        metadata: Option<Metadata>,
    ) -> (r: Result<(String, Option<Metadata>), LocalrefError>)
        requires
            taken@.len() + 3 <= u64::MAX,
        ensures
            ntfs_component(filename@) is None ==> (r matches Err(e) && ntfs_rejection(filename@, e)),
            ntfs_component(filename@) matches Some(c) ==> r matches Ok((target, md)) && exists|name: Seq<char>|
                {
                    &&& target@ == join_path(item_dir@, name)
                    &&& first_free(NameScheme::ItemFile, c, crate::ordered::string_views(taken@), name)
                    &&& (metadata is None ==> md is None)
                    &&& (metadata matches Some(m0) ==> md matches Some(m1) && item_file_added(m0, m1, name))
                },
    {
        let clean = sanitize_ntfs_component(filename)?;
        let name = unique_item_file_name(clean.as_str(), taken);
        let target = join(item_dir, name.as_str());
        let md = match metadata {
            Some(m) => {
                let mut m = m;
                add_item_file(&mut m, name.as_str());
                Some(m)
            },
            None => None,
        };
        Ok((target, md))
    }
}


impl ImportPipeline {
    /// Plan the import of one connector item linked under `categories`
    /// (the `unmatched` category when there is none): its title must not be
    /// blank, and it needs an id.
    pub fn import_connector_item_with_categories(
        &self,
        import: &ConnectorImport,
        categories: Vec<CategoryPath>,
    ) -> (r: Result<ConnectorImportPlan, LocalrefError>)
        ensures
            crate::text::is_blank(import.item.title@) ==> (r matches Err(e)
                && e matches LocalrefError::MissingField(f) && f@ == "item.title"@),
            !crate::text::is_blank(import.item.title@) ==> match connector_source(*import) {
                None => r matches Err(e) && e matches LocalrefError::MissingField(f) && f@
                    == "item.connector_item_id or item.session_id"@,
                Some(source) => r matches Ok(plan) && {
                    &&& plan.item_id@ == "lr:zotero:"@ + source
                    &&& webpage_attachments(*import, plan.attachments@)
                    &&& categories@.len() > 0 ==> plan.categories@ == categories@
                    &&& categories@.len() == 0 ==> plan.categories@.len() == 1
                        && plan.categories@[0]@ == unmatched_category()
                },
            },
    {
        if crate::text::blank(import.item.title.as_str()) {
            return Err(LocalrefError::MissingField(owned("item.title")));
        }
        let item_id = connector_item_id(import)?;
        let attachments = attachments_with_webpage_source(import);
        let categories = categories_or_unmatched(categories);
        Ok(ConnectorImportPlan { item_id, attachments, categories })
    }

    /// Plan the import of one file into a new `All/` item directory.
    /// `file_name` is the file's final path component as text, `all_entries`
    /// the names under `All/`.  The directory is named after the file's stem
    /// (made unique), the file keeps its sanitized name, and the item id
    /// follows the directory name.
    pub fn import_file(&self, file_name: Option<&str>, all_entries: &Vec<String>) -> (r: Result<
        FileImportPlan,
        LocalrefError,
    >)
        requires
            all_entries@.len() + 3 <= u64::MAX,
        ensures
            match file_name {
                None => r matches Err(e) && e matches LocalrefError::MissingField(f) && f@
                    == "file stem"@,
                Some(n) => match path_stem(n@) {
                    None => r matches Err(e) && e matches LocalrefError::MissingField(f) && f@
                        == "file stem"@,
                    Some(stem) => match ntfs_component(stem) {
                        None => r matches Err(e) && ntfs_rejection(stem, e),
                        Some(base) => match ntfs_component(n@) {
                            None => r matches Err(e) && ntfs_rejection(n@, e),
                            Some(clean) => exists|d: Seq<char>|
                                #![trigger first_free(NameScheme::ItemDir, base, crate::ordered::string_views(all_entries@), d)]
                                first_free(
                                    NameScheme::ItemDir,
                                    base,
                                    crate::ordered::string_views(all_entries@),
                                    d,
                                ) && file_plan(r, d, clean),
                        },
                    },
                },
            },
    {
        let name = match file_name {
            Some(n) => n,
            None => {
                return Err(LocalrefError::MissingField(owned("file stem")));
            },
        };
        let stem = match stem_of(name) {
            Some(s) => s,
            None => {
                return Err(LocalrefError::MissingField(owned("file stem")));
            },
        };
        let dir_name = unique_item_dir_name(stem.as_str(), all_entries)?;
        let clean = sanitize_ntfs_component(name)?;
        let ghost tv = crate::ordered::string_views(all_entries@);
        let ghost base = ntfs_component(stem@)->Some_0;
        let ghost d = dir_name@;
        let ghost cl = clean@;
        assert(first_free(NameScheme::ItemDir, base, tv, d));
        assert(ntfs_component(name@) == Some(cl));
        let item_id = match manual_item_id(dir_name.as_str()) {
            Ok(id) => id,
            Err(e) => {
                proof {
                    assert(file_plan(Err(e), d, cl));
                }
                return Err(e);
            },
        };
        let metadata = file_import_metadata(&item_id, dir_name.as_str(), clean.as_str());
        let r = Ok(FileImportPlan { dir_name, file_name: clean, item_id, metadata });
        proof {
            assert(file_plan(r, d, cl));
        }
        r
    }

    /// Plan the normalization of a real directory `entry_name` under `Cat/`.
    /// `metadata` is its `metadata.toml` when it has one, `items` the indexed
    /// items and `all_entries` the names under `All/`.
    pub fn normalize_cat_directory(
        &self,
        entry_name: &str,
        metadata: Option<&Metadata>,
        items: &Vec<ItemDocument>,
        all_entries: &Vec<String>,
    ) -> (r: Result<CatNormalization, LocalrefError>)
        requires
            all_entries@.len() + 3 <= u64::MAX,
        ensures
            match metadata {
                Some(m) => match indexed_object_path(items@, m.id@) {
                    Some(path) => if crate::text::is_blank(m.id@) {
                        r matches Err(e) && e matches LocalrefError::MissingField(f) && f@
                            == "metadata.id"@
                    } else {
                        r matches Ok(CatNormalization::Existing { item_id, object_path })
                            && item_id@ == m.id@ && object_path@ == path
                    },
                    None => match ntfs_component(entry_name@) {
                        None => r matches Err(e) && ntfs_rejection(entry_name@, e),
                        Some(base) => if crate::text::is_blank(m.id@) {
                            r matches Err(e) && e matches LocalrefError::MissingField(f) && f@
                                == "metadata.id"@
                        } else {
                            r matches Ok(CatNormalization::New { item_id, target_name, write_metadata })
                                && item_id@ == m.id@ && !write_metadata && first_free(
                                NameScheme::ItemDir,
                                base,
                                crate::ordered::string_views(all_entries@),
                                target_name@,
                            )
                        },
                    },
                },
                None => match ntfs_component(entry_name@) {
                    None => r matches Err(e) && ntfs_rejection(entry_name@, e),
                    Some(base) => exists|d: Seq<char>|
                        #![trigger first_free(NameScheme::ItemDir, base, crate::ordered::string_views(all_entries@), d)]
                        first_free(NameScheme::ItemDir, base, crate::ordered::string_views(all_entries@), d)
                            && new_dir_plan(r, d),
                },
            },
    {
        let existing = match metadata {
            Some(m) => find_indexed(items, m.id.as_str()),
            None => None,
        };
        let target = match existing {
            Some(_) => None,
            None => Some(unique_item_dir_name(entry_name, all_entries)?),
        };
        match metadata {
            Some(m) => {
                let item_id = match ItemId::new(m.id.as_str()) {
                    Some(id) => id,
                    None => {
                        return Err(LocalrefError::MissingField(owned("metadata.id")));
                    },
                };
                match (existing, target) {
                    (Some(object_path), _) => Ok(CatNormalization::Existing { item_id, object_path }),
                    (None, Some(target_name)) => Ok(
                        CatNormalization::New { item_id, target_name, write_metadata: false },
                    ),
                    (None, None) => Err(LocalrefError::MissingField(owned("All item directory name"))),
                }
            },
            None => {
                let target_name = match target {
                    Some(t) => t,
                    None => {
                        return Err(LocalrefError::MissingField(owned("All item directory name")));
                    },
                };
                let ghost d = target_name@;
                let item_id = match manual_item_id(target_name.as_str()) {
                    Ok(id) => id,
                    Err(e) => {
                        proof {
                            assert(new_dir_plan(Err(e), d));
                        }
                        return Err(e);
                    },
                };
                let r = Ok(CatNormalization::New { item_id, target_name, write_metadata: true });
                proof {
                    assert(new_dir_plan(r, d));
                }
                r
            },
        }
    }
}

/// The outcome of planning a file import into the directory `d` with the
/// sanitized file name `clean`: the item id follows the directory name.
pub open spec fn file_plan(r: Result<FileImportPlan, LocalrefError>, d: Seq<char>, clean: Seq<char>) -> bool {
    match ntfs_component(d) {
        None => r matches Err(e) && ntfs_rejection(d, e),
        Some(c) => r matches Ok(plan) && {
            &&& plan.dir_name@ == d
            &&& plan.file_name@ == clean
            &&& plan.item_id@ == "lr:manual:"@ + c
            &&& plan.metadata.id@ == plan.item_id@
            &&& plan.metadata.title@ == d
            &&& plan.metadata.import.source@ == "manual-file"@
            &&& opt_view(plan.metadata.files.main) == Some(clean)
            &&& file_views(plan.metadata.files.extra@) == seq![(clean, "attachment"@, mime_for(clean))]
        },
    }
}

/// The outcome of moving a metadata-less `Cat/` directory to `All/<d>`:
/// its item id follows the new directory name, and metadata is written.
pub open spec fn new_dir_plan(r: Result<CatNormalization, LocalrefError>, d: Seq<char>) -> bool {
    match ntfs_component(d) {
        None => r matches Err(e) && ntfs_rejection(d, e),
        Some(c) => r matches Ok(CatNormalization::New { item_id, target_name, write_metadata })
            && write_metadata && target_name@ == d && item_id@ == "lr:manual:"@ + c,
    }
}

/// An entry under `All/` that a scan gives metadata: a directory that is
/// not hidden (its name does not start with `.`) and holds no
/// `metadata.toml` yet.
pub open spec fn is_unmanaged_all_entry(name: Seq<char>, is_dir: bool, has_metadata: bool) -> bool {
    &&& is_dir
    &&& !has_metadata
    &&& !(name.len() > 0 && name[0] == '.')
}

/// Whether a scan gives the entry `name` under `All/` metadata, given
/// whether it is a directory and whether it holds a `metadata.toml`.
pub fn unmanaged_all_entry(name: &str, is_dir: bool, has_metadata: bool) -> (r: bool)
    ensures
        r == is_unmanaged_all_entry(name@, is_dir, has_metadata),
{
    if !is_dir || has_metadata {
        return false;
    }
    let chars = crate::text::chars_of(name);
    !(chars.len() > 0 && chars[0] == '.')
}

} // verus!
