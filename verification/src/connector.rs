//! Zotero Connector payloads and their normalisation.
//!
//! The connector posts translated items as JSON (`saveItems`) and uploads
//! attachment bytes with a JSON `X-Metadata` header (`saveAttachment`).  This
//! module turns those payloads into [`ConnectorItem`] and
//! [`ConnectorAttachment`] values: it picks a display title for every Zotero
//! item type, a file name for every upload, and infers a missing extension
//! from the MIME type or attachment kind.

use vstd::prelude::*;
use crate::json::{first_str, first_string, key_views, opt_str, JsonValue};
use crate::model::opt_view;
use crate::paths::{extension_of, path_extension};
use crate::text::{
    chars_of, concat2, concat3, is_ws, is_whitespace, lower, owned, push_char, push_str,
    str_eq, string_of, to_ascii_lowercase, trim, trim_chars,
};

verus! {

/// Bibliographic item payload received from Zotero Connector.
#[derive(Debug)]
pub struct ConnectorItem {
    /// Zotero save session identifier, when supplied.
    pub session_id: Option<String>,
    /// Source page URI, when supplied.
    pub uri: Option<String>,
    /// Zotero item id/key from the translated item payload, when supplied.
    pub connector_item_id: Option<String>,
    /// Zotero item type, such as `journalArticle`.
    pub item_type: Option<String>,
    /// Literature title.
    pub title: String,
    /// Abstract text, when supplied.
    pub abstract_note: Option<String>,
    /// DOI value, when supplied.
    pub doi: Option<String>,
    /// Raw translated Zotero JSON item.
    pub raw: JsonValue,
}

/// Attachment bytes uploaded by Zotero Connector.
#[derive(Debug)]
pub struct ConnectorAttachment {
    /// Zotero save session identifier, when supplied.
    pub session_id: Option<String>,
    /// Parent item id/key, when supplied by attachment metadata.
    pub parent_item_id: Option<String>,
    /// User-visible attachment title.
    pub title: Option<String>,
    /// Filename to use inside `All/<item>/`.
    pub filename: String,
    /// MIME type supplied by Zotero Connector.
    pub mime_type: Option<String>,
    /// Uploaded attachment bytes.
    pub bytes: Vec<u8>,
    /// Raw `X-Metadata` header decoded as JSON.
    pub raw_metadata: Option<JsonValue>,
}

/// Connector import command: an item and the attachments received for it.
#[derive(Debug)]
pub struct ConnectorImport {
    /// Main translated item payload.
    pub item: ConnectorItem,
    /// Attachments already received for this item.
    pub attachments: Vec<ConnectorAttachment>,
}

/// A `saveItems` request from Zotero Connector.
#[derive(Debug)]
pub struct SaveItemsRequest {
    /// Zotero save session identifier.
    pub session_id: Option<String>,
    /// Page URI that produced the translated items.
    pub uri: Option<String>,
    /// Optional Zotero proxy description.
    pub proxy: Option<JsonValue>,
    /// Translated items in Zotero item-array format.
    pub items: Vec<JsonValue>,
    /// Whether the connector expects old single-file snapshot handling.
    pub single_file: Option<bool>,
}

/// Import request emitted for one `saveItems` call.
#[derive(Debug)]
pub struct ConnectorImportRequest {
    /// Zotero save session identifier.
    pub session_id: Option<String>,
    /// Page URI that produced the translated items.
    pub uri: Option<String>,
    /// Translated item payloads as received.
    pub items: Vec<JsonValue>,
    /// Translated item payloads normalized into connector items.
    pub normalized_items: Vec<ConnectorItem>,
}

/// Connector request event, recorded for diagnostics.
#[derive(Debug)]
pub enum ConnectorEvent {
    /// A connector method was called.
    MethodCalled { method: String, path: String },
    /// A binary attachment upload was received.
    AttachmentReceived { session_id: Option<String>, metadata: Option<JsonValue>, bytes: usize },
    /// A webpage snapshot request was received.
    SnapshotReceived { session_id: Option<String>, uri: Option<String>, title: Option<String> },
}

impl ConnectorItem {
    /// A duplicate of this item, equal to it.
    pub fn duplicate(&self) -> (r: ConnectorItem)
        ensures
            r == *self,
    {
        ConnectorItem {
            session_id: self.session_id.clone(),
            uri: self.uri.clone(),
            connector_item_id: self.connector_item_id.clone(),
            item_type: self.item_type.clone(),
            title: self.title.clone(),
            abstract_note: self.abstract_note.clone(),
            doi: self.doi.clone(),
            raw: self.raw.duplicate(),
        }
    }
}

impl ConnectorAttachment {
    /// Both attachments hold the same data.
    pub open spec fn same_as(&self, other: &ConnectorAttachment) -> bool {
        &&& self.session_id == other.session_id
        &&& self.parent_item_id == other.parent_item_id
        &&& self.title == other.title
        &&& self.filename == other.filename
        &&& self.mime_type == other.mime_type
        &&& self.bytes@ == other.bytes@
        &&& self.raw_metadata == other.raw_metadata
    }

    /// A duplicate of this attachment holding the same data.
    pub fn duplicate(&self) -> (r: ConnectorAttachment)
        ensures
            r.same_as(self),
    {
        ConnectorAttachment {
            session_id: self.session_id.clone(),
            parent_item_id: self.parent_item_id.clone(),
            title: self.title.clone(),
            filename: self.filename.clone(),
            mime_type: self.mime_type.clone(),
            bytes: self.bytes.clone(),
            raw_metadata: match &self.raw_metadata {
                Some(m) => Some(m.duplicate()),
                None => None,
            },
        }
    }
}

// ---------------------------------------------------------------------------
// Titles
// ---------------------------------------------------------------------------

/// The fields that hold an item's display title, in order of preference.
pub open spec fn title_keys() -> Seq<Seq<char>> {
    seq![
        "title"@, "shortTitle"@, "caseName"@, "nameOfAct"@, "subject"@, "bookTitle"@,
        "publicationTitle"@, "proceedingsTitle"@, "encyclopediaTitle"@, "dictionaryTitle"@,
        "blogTitle"@, "websiteTitle"@, "forumTitle"@, "programTitle"@, "documentNumber"@,
        "reportNumber"@, "patentNumber"@, "billNumber"@, "docketNumber"@, "code"@,
    ]
}

/// The characters of `s` that stand outside `<...>` tags; `in_tag` tells
/// whether `s` starts inside one.
pub open spec fn untagged(s: Seq<char>, in_tag: bool) -> Seq<char>
    decreases s.len(),
{
    if s.len() == 0 {
        Seq::empty()
    } else if s[0] == '<' {
        untagged(s.drop_first(), true)
    } else if s[0] == '>' {
        untagged(s.drop_first(), false)
    } else if in_tag {
        untagged(s.drop_first(), true)
    } else {
        seq![s[0]] + untagged(s.drop_first(), false)
    }
}

/// The words of `s` joined by single spaces (`split_whitespace` then
/// `join(" ")`): `gap` tells whether whitespace was seen since the last word,
/// `started` whether a word was already written.
pub open spec fn squeezed(s: Seq<char>, gap: bool, started: bool) -> Seq<char>
    decreases s.len(),
{
    if s.len() == 0 {
        Seq::empty()
    } else if is_ws(s[0]) {
        squeezed(s.drop_first(), true, started)
    } else if gap && started {
        seq![' ', s[0]] + squeezed(s.drop_first(), false, true)
    } else {
        seq![s[0]] + squeezed(s.drop_first(), false, true)
    }
}

/// Text of a note with its tags removed and whitespace runs collapsed.
pub open spec fn stripped_text(s: Seq<char>) -> Seq<char> {
    squeezed(untagged(s, false), false, false)
}

/// A title shortened to 80 characters, marked with `...` when cut.
pub open spec fn truncated(s: Seq<char>) -> Seq<char> {
    if s.len() > 80 {
        s.take(80) + "..."@
    } else {
        s
    }
}

/// The title derived from an item's `note`, when the note has text.
pub open spec fn note_title(item: JsonValue) -> Option<Seq<char>> {
    match first_str(item, seq!["note"@]) {
        Some(n) => if stripped_text(n).len() > 0 {
            Some(truncated(stripped_text(n)))
        } else {
            None
        },
        None => None,
    }
}

/// The display title chosen for an item: a title-like field, else its note
/// text, else its URL, else its type and id.
pub open spec fn item_title_of(item: JsonValue, item_type: Option<Seq<char>>) -> Seq<char> {
    match first_str(item, title_keys()) {
        Some(t) => t,
        None => match note_title(item) {
            Some(t) => t,
            None => match first_str(item, seq!["url"@, "uri"@]) {
                Some(u) => u,
                None => {
                    let ty = match item_type {
                        Some(t) => t,
                        None => "item"@,
                    };
                    let id = match first_str(item, seq!["id"@, "itemID"@, "key"@]) {
                        Some(i) => i,
                        None => "untitled"@,
                    };
                    ty + seq!['-'] + id
                },
            },
        },
    }
}

/// Strip simple HTML/XML tags from a note body and collapse its whitespace.
pub fn strip_html_like_text(value: &str) -> (r: String)
    ensures
        r@ == stripped_text(value@),
{
    let v = chars_of(value);
    let mut kept: Vec<char> = Vec::new();
    let mut in_tag = false;
    let mut i: usize = 0;
    assert(v@.skip(0) =~= v@);
    while i < v.len()
        invariant
            i <= v@.len(),
            untagged(v@, false) == kept@ + untagged(v@.skip(i as int), in_tag),
        decreases v.len() - i,
    {
        let ch = v[i];
        proof {
            assert(v@.skip(i as int).drop_first() =~= v@.skip(i + 1));
            assert(v@.skip(i as int)[0] == ch);
        }
        if ch == '<' {
            in_tag = true;
        } else if ch == '>' {
            in_tag = false;
        } else if !in_tag {
            kept.push(ch);
            proof {
                assert(kept@ + untagged(v@.skip(i + 1), false) =~= kept@.drop_last() + (seq![ch]
                    + untagged(v@.skip(i + 1), false)));
            }
        }
        i = i + 1;
    }
    proof {
        assert(v@.skip(i as int) =~= Seq::<char>::empty());
        assert(kept@ =~= untagged(v@, false));
    }
    let mut out: Vec<char> = Vec::new();
    let mut gap = false;
    let mut started = false;
    let mut j: usize = 0;
    let ghost u = kept@;
    assert(u.skip(0) =~= u);
    while j < kept.len()
        invariant
            j <= kept@.len(),
            u == kept@,
            squeezed(u, false, false) == out@ + squeezed(u.skip(j as int), gap, started),
            started == (out@.len() > 0),
        decreases kept.len() - j,
    {
        let ch = kept[j];
        proof {
            assert(u.skip(j as int).drop_first() =~= u.skip(j + 1));
            assert(u.skip(j as int)[0] == ch);
        }
        if is_whitespace(ch) {
            gap = true;
        } else {
            let ghost before = out@;
            if gap && started {
                out.push(' ');
            }
            out.push(ch);
            proof {
                if gap && started {
                    assert(out@ =~= before + seq![' ', ch]);
                } else {
                    assert(out@ =~= before + seq![ch]);
                }
                assert(out@ + squeezed(u.skip(j + 1), false, true) =~= before + (if gap && started {
                    seq![' ', ch]
                } else {
                    seq![ch]
                } + squeezed(u.skip(j + 1), false, true)));
            }
            gap = false;
            started = true;
        }
        j = j + 1;
    }
    proof {
        assert(u.skip(j as int) =~= Seq::<char>::empty());
        assert(out@ =~= squeezed(u, false, false));
    }
    string_of(&out)
}

/// Shorten a long note-derived title to 80 characters plus `...`.
pub fn truncate_title(value: &str) -> (r: String)
    ensures
        r@ == truncated(value@),
{
    let v = chars_of(value);
    if v.len() > 80 {
        let mut out = string_of(&crate::text::slice_range(&v, 0, 80));
        push_str(&mut out, "...");
        proof {
            assert(v@.subrange(0, 80) =~= v@.take(80));
        }
        out
    } else {
        owned(value)
    }
}

/// Build a stable display title for any Zotero item type: the first
/// title-like field, else the note text, else the URL, else
/// `<type>-<id>`.
pub fn item_title(item: &JsonValue, item_type: Option<&str>) -> (r: String)
    ensures
        r@ == item_title_of(
            *item,
            match item_type {
                Some(t) => Some(t@),
                None => None,
            },
        ),
{
    let keys: Vec<&str> = vec![
        "title",
        "shortTitle",
        "caseName",
        "nameOfAct",
        "subject",
        "bookTitle",
        "publicationTitle",
        "proceedingsTitle",
        "encyclopediaTitle",
        "dictionaryTitle",
        "blogTitle",
        "websiteTitle",
        "forumTitle",
        "programTitle",
        "documentNumber",
        "reportNumber",
        "patentNumber",
        "billNumber",
        "docketNumber",
        "code",
    ];
    assert(key_views(keys@) =~= title_keys());
    if let Some(title) = first_string(item, &keys) {
        return title;
    }
    let note_keys: Vec<&str> = vec!["note"];
    assert(key_views(note_keys@) =~= seq!["note"@]);
    if let Some(note) = first_string(item, &note_keys) {
        let stripped = strip_html_like_text(note.as_str());
        if !stripped.as_str().is_empty() {
            return truncate_title(stripped.as_str());
        }
    }
    let url_keys: Vec<&str> = vec!["url", "uri"];
    assert(key_views(url_keys@) =~= seq!["url"@, "uri"@]);
    if let Some(url) = first_string(item, &url_keys) {
        return url;
    }
    let ty: &str = match item_type {
        Some(t) => t,
        None => "item",
    };
    let id_keys: Vec<&str> = vec!["id", "itemID", "key"];
    assert(key_views(id_keys@) =~= seq!["id"@, "itemID"@, "key"@]);
    let id = match first_string(item, &id_keys) {
        Some(i) => i,
        None => owned("untitled"),
    };
    let mut out = owned(ty);
    push_char(&mut out, '-');
    push_str(&mut out, id.as_str());
    out
}

// ---------------------------------------------------------------------------
// File names
// ---------------------------------------------------------------------------

/// A path separator in connector metadata: `/` or `\`.
pub open spec fn is_sep(c: char) -> bool {
    c == '/' || c == '\\'
}

/// The text after the last separator (all of it when there is none).
pub open spec fn last_piece(s: Seq<char>) -> Seq<char>
    decreases s.len(),
{
    if s.len() == 0 {
        s
    } else if is_sep(s.last()) {
        Seq::empty()
    } else {
        last_piece(s.drop_last()).push(s.last())
    }
}

/// The file name found in a metadata value: the last piece of the trimmed
/// text, unless the text or that piece is blank.
pub open spec fn filename_in(value: Seq<char>) -> Option<Seq<char>> {
    let t = trim(value);
    if t.len() == 0 || trim(last_piece(t)).len() == 0 {
        None
    } else {
        Some(last_piece(t))
    }
}

/// Extract a file name from connector attachment metadata.
pub fn filename_from_value(value: &str) -> (r: Option<String>)
    ensures
        opt_view(r) == filename_in(value@),
{
    let v = chars_of(value);
    let t = trim_chars(&v);
    if t.len() == 0 {
        return None;
    }
    let mut j: usize = t.len();
    proof {
        assert(t@.take(t@.len() as int) =~= t@);
        assert(t@.skip(t@.len() as int) =~= Seq::<char>::empty());
    }
    while j > 0 && t[j - 1] != '/' && t[j - 1] != '\\'
        invariant
            j <= t@.len(),
            last_piece(t@) == last_piece(t@.take(j as int)) + t@.skip(j as int),
        decreases j,
    {
        proof {
            let tj = t@.take(j as int);
            assert(tj.drop_last() =~= t@.take(j - 1));
            assert(tj.last() == t@[j - 1]);
            assert(t@.skip(j - 1) =~= seq![t@[j - 1]] + t@.skip(j as int));
            assert(last_piece(tj) == last_piece(t@.take(j - 1)).push(t@[j - 1]));
            assert(last_piece(t@.take(j - 1)).push(t@[j - 1]) + t@.skip(j as int) =~= last_piece(
                t@.take(j - 1),
            ) + t@.skip(j - 1));
        }
        j = j - 1;
    }
    proof {
        assert(t@.take(t@.len() as int) =~= t@);
        assert(t@.skip(t@.len() as int) =~= Seq::<char>::empty());
        if j == 0 {
            assert(t@.take(0) =~= Seq::<char>::empty());
        }
        assert(last_piece(t@.take(j as int)) =~= Seq::<char>::empty());
        assert(last_piece(t@) =~= t@.skip(j as int));
    }
    let piece = crate::text::slice_range(&t, j, t.len());
    let trimmed = trim_chars(&piece);
    proof {
        assert(piece@ =~= t@.skip(j as int));
    }
    if trimmed.len() == 0 {
        return None;
    }
    Some(string_of(&piece))
}

/// The extension inferred from attachment MIME type or kind metadata.
pub open spec fn extension_for(mime: Option<Seq<char>>, kind: Option<Seq<char>>) -> Option<
    Seq<char>,
> {
    let m = match mime {
        Some(m) => Some(lower(m)),
        None => None,
    };
    let k = match kind {
        Some(k) => Some(lower(k)),
        None => None,
    };
    if m == Some("application/pdf"@) {
        Some("pdf"@)
    } else if m == Some("application/epub+zip"@) {
        Some("epub"@)
    } else if m == Some("text/html"@) {
        Some("html"@)
    } else if m == Some("text/plain"@) {
        Some("txt"@)
    } else if m == Some("image/jpeg"@) {
        Some("jpg"@)
    } else if m == Some("image/png"@) {
        Some("png"@)
    } else if k == Some("pdf"@) {
        Some("pdf"@)
    } else if k == Some("epub"@) {
        Some("epub"@)
    } else if k == Some("snapshot"@) || k == Some("webpage"@) || k == Some("html"@) {
        Some("html"@)
    } else {
        None
    }
}

/// Views of an optional string slice.
pub open spec fn opt_slice(o: Option<&str>) -> Option<Seq<char>> {
    match o {
        Some(s) => Some(s@),
        None => None,
    }
}

/// Infer a file extension from Zotero attachment MIME/type metadata.
pub fn extension_for_attachment(mime_type: Option<&str>, attachment_type: Option<&str>) -> (r:
    Option<&'static str>)
    ensures
        opt_slice(r) == extension_for(opt_slice(mime_type), opt_slice(attachment_type)),
{
    if let Some(m) = mime_type {
        let l = to_ascii_lowercase(m);
        let l = l.as_str();
        if str_eq(l, "application/pdf") {
            return Some("pdf");
        } else if str_eq(l, "application/epub+zip") {
            return Some("epub");
        } else if str_eq(l, "text/html") {
            return Some("html");
        } else if str_eq(l, "text/plain") {
            return Some("txt");
        } else if str_eq(l, "image/jpeg") {
            return Some("jpg");
        } else if str_eq(l, "image/png") {
            return Some("png");
        }
    }
    if let Some(k) = attachment_type {
        let l = to_ascii_lowercase(k);
        let l = l.as_str();
        if str_eq(l, "pdf") {
            return Some("pdf");
        } else if str_eq(l, "epub") {
            return Some("epub");
        } else if str_eq(l, "snapshot") || str_eq(l, "webpage") || str_eq(l, "html") {
            return Some("html");
        }
    }
    None
}

/// The file name kept or given an inferred extension.
pub open spec fn with_type_extension(
    filename: Seq<char>,
    mime: Option<Seq<char>>,
    kind: Option<Seq<char>>,
) -> Seq<char> {
    if path_extension(filename) is Some {
        filename
    } else {
        match extension_for(mime, kind) {
            Some(e) => filename + seq!['.'] + e,
            None => filename,
        }
    }
}

/// Add a file extension inferred from attachment type when the name has
/// none.
pub fn filename_with_type_extension(
    filename: &str,
    mime_type: Option<&str>,
    attachment_type: Option<&str>,
) -> (r: String)
    ensures
        r@ == with_type_extension(filename@, opt_slice(mime_type), opt_slice(attachment_type)),
{
    if extension_of(filename).is_some() {
        return owned(filename);
    }
    match extension_for_attachment(mime_type, attachment_type) {
        Some(e) => {
            let mut out = owned(filename);
            push_char(&mut out, '.');
            push_str(&mut out, e);
            out
        },
        None => owned(filename),
    }
}

// ---------------------------------------------------------------------------
// Payload normalisation
// ---------------------------------------------------------------------------

/// Optional string view of an optional JSON text field.
pub open spec fn meta_str(metadata: Option<JsonValue>, keys: Seq<Seq<char>>) -> Option<
    Seq<char>,
> {
    match metadata {
        Some(m) => first_str(m, keys),
        None => None,
    }
}

/// The file name an upload is stored under, when its metadata names one.
pub open spec fn upload_filename(metadata: Option<JsonValue>) -> Option<Seq<char>> {
    match meta_str(metadata, seq!["filename"@, "title"@, "path"@, "url"@]) {
        Some(v) => match filename_in(v) {
            Some(f) => Some(
                with_type_extension(
                    f,
                    meta_str(metadata, seq!["mimeType"@, "contentType"@]),
                    meta_str(metadata, seq!["type"@, "attachmentType"@, "kind"@]),
                ),
            ),
            None => None,
        },
        None => None,
    }
}

/// `first_string` over optional metadata.
fn meta_string(metadata: &Option<JsonValue>, keys: &Vec<&str>) -> (r: Option<String>)
    ensures
        opt_str(r) == meta_str(*metadata, key_views(keys@)),
{
    match metadata {
        Some(m) => first_string(m, keys),
        None => None,
    }
}

/// Convert an uploaded attachment body into a connector attachment.
///
/// Fails when the metadata names no usable file name.
pub fn connector_attachment_from_upload(
    session_id: Option<String>,
    metadata: Option<JsonValue>,
    body: Vec<u8>,
) -> (r: Result<ConnectorAttachment, String>)
    ensures
        match r {
            Ok(a) => {
                &&& upload_filename(metadata) == Some(a.filename@)
                &&& a.session_id == session_id
                &&& opt_view(a.mime_type) == meta_str(metadata, seq!["mimeType"@, "contentType"@])
                &&& opt_view(a.parent_item_id) == meta_str(
                    metadata,
                    seq!["parentItem"@, "parentItemID"@, "itemID"@],
                )
                &&& opt_view(a.title) == meta_str(metadata, seq!["title"@, "filename"@, "name"@])
                &&& a.bytes@ == body@
                &&& a.raw_metadata == metadata
            },
            Err(m) => upload_filename(metadata) is None && m@
                == "attachment upload missing filename/title/path metadata"@,
        },
{
    let mime_keys: Vec<&str> = vec!["mimeType", "contentType"];
    assert(key_views(mime_keys@) =~= seq!["mimeType"@, "contentType"@]);
    let mime_type = meta_string(&metadata, &mime_keys);
    let type_keys: Vec<&str> = vec!["type", "attachmentType", "kind"];
    assert(key_views(type_keys@) =~= seq!["type"@, "attachmentType"@, "kind"@]);
    let attachment_type = meta_string(&metadata, &type_keys);
    let name_keys: Vec<&str> = vec!["filename", "title", "path", "url"];
    assert(key_views(name_keys@) =~= seq!["filename"@, "title"@, "path"@, "url"@]);
    let filename = match meta_string(&metadata, &name_keys) {
        Some(v) => match filename_from_value(v.as_str()) {
            Some(f) => {
                let m = match &mime_type {
                    Some(m) => Some(m.as_str()),
                    None => None,
                };
                let k = match &attachment_type {
                    Some(k) => Some(k.as_str()),
                    None => None,
                };
                filename_with_type_extension(f.as_str(), m, k)
            },
            None => {
                return Err(owned("attachment upload missing filename/title/path metadata"));
            },
        },
        None => {
            return Err(owned("attachment upload missing filename/title/path metadata"));
        },
    };
    let parent_keys: Vec<&str> = vec!["parentItem", "parentItemID", "itemID"];
    assert(key_views(parent_keys@) =~= seq!["parentItem"@, "parentItemID"@, "itemID"@]);
    let parent_item_id = meta_string(&metadata, &parent_keys);
    let title_keys: Vec<&str> = vec!["title", "filename", "name"];
    assert(key_views(title_keys@) =~= seq!["title"@, "filename"@, "name"@]);
    let title = meta_string(&metadata, &title_keys);
    Ok(
        ConnectorAttachment {
            session_id,
            parent_item_id,
            title,
            filename,
            mime_type,
            bytes: body,
            raw_metadata: metadata,
        },
    )
}

/// Convert one translated Zotero item into a connector item.  Never fails:
/// every item gets a title.
pub fn connector_item_from_value(
    request: &SaveItemsRequest,
    item: &JsonValue,
) -> (r: Result<ConnectorItem, String>)
    ensures
        r matches Ok(c) && {
            &&& c.session_id == request.session_id
            &&& opt_view(c.uri) == match request.uri {
                Some(u) => Some(u@),
                None => first_str(*item, seq!["url"@, "uri"@]),
            }
            &&& opt_view(c.connector_item_id) == first_str(*item, seq!["id"@, "itemID"@, "key"@])
            &&& opt_view(c.item_type) == first_str(*item, seq!["itemType"@, "type"@])
            &&& c.title@ == item_title_of(*item, first_str(*item, seq!["itemType"@, "type"@]))
            &&& opt_view(c.abstract_note) == first_str(*item, seq!["abstractNote"@, "abstract"@])
            &&& opt_view(c.doi) == first_str(*item, seq!["DOI"@, "doi"@])
            &&& c.raw == *item
        },
{
    let type_keys: Vec<&str> = vec!["itemType", "type"];
    assert(key_views(type_keys@) =~= seq!["itemType"@, "type"@]);
    let item_type = first_string(item, &type_keys);
    let title = item_title(
        item,
        match &item_type {
            Some(t) => Some(t.as_str()),
            None => None,
        },
    );
    let uri_keys: Vec<&str> = vec!["url", "uri"];
    assert(key_views(uri_keys@) =~= seq!["url"@, "uri"@]);
    let uri = match &request.uri {
        Some(u) => Some(u.clone()),
        None => first_string(item, &uri_keys),
    };
    let id_keys: Vec<&str> = vec!["id", "itemID", "key"];
    assert(key_views(id_keys@) =~= seq!["id"@, "itemID"@, "key"@]);
    let abstract_keys: Vec<&str> = vec!["abstractNote", "abstract"];
    assert(key_views(abstract_keys@) =~= seq!["abstractNote"@, "abstract"@]);
    let doi_keys: Vec<&str> = vec!["DOI", "doi"];
    assert(key_views(doi_keys@) =~= seq!["DOI"@, "doi"@]);
    Ok(
        ConnectorItem {
            session_id: request.session_id.clone(),
            uri,
            connector_item_id: first_string(item, &id_keys),
            item_type,
            title,
            abstract_note: first_string(item, &abstract_keys),
            doi: first_string(item, &doi_keys),
            raw: item.duplicate(),
        },
    )
}

/// The MIME types and kinds that name an extension differ from one another.
proof fn lemma_type_names_distinct()
    ensures
        "application/pdf"@ != "application/epub+zip"@,
        "application/pdf"@ != "text/html"@,
        "application/pdf"@ != "text/plain"@,
        "application/pdf"@ != "image/jpeg"@,
        "application/pdf"@ != "image/png"@,
        "application/epub+zip"@ != "text/html"@,
        "application/epub+zip"@ != "text/plain"@,
        "application/epub+zip"@ != "image/jpeg"@,
        "application/epub+zip"@ != "image/png"@,
        "text/html"@ != "text/plain"@,
        "text/html"@ != "image/jpeg"@,
        "text/html"@ != "image/png"@,
        "text/plain"@ != "image/jpeg"@,
        "text/plain"@ != "image/png"@,
        "image/jpeg"@ != "image/png"@,
        "pdf"@ != "epub"@,
        "pdf"@ != "snapshot"@,
        "pdf"@ != "webpage"@,
        "pdf"@ != "html"@,
        "epub"@ != "snapshot"@,
        "epub"@ != "webpage"@,
        "epub"@ != "html"@,
{
    reveal_strlit("application/pdf");
    reveal_strlit("application/epub+zip");
    reveal_strlit("text/html");
    reveal_strlit("text/plain");
    reveal_strlit("image/jpeg");
    reveal_strlit("image/png");
    reveal_strlit("pdf");
    reveal_strlit("epub");
    reveal_strlit("snapshot");
    reveal_strlit("webpage");
    reveal_strlit("html");
    assert("text/html"@[0] != "image/png"@[0]);
    assert("text/plain"@[0] != "image/jpeg"@[0]);
    assert("text/html"@.len() != "text/plain"@.len());
    assert("application/pdf"@.len() != "application/epub+zip"@.len());
    assert("epub"@.len() != "html"@.len() || "epub"@[0] != "html"@[0]);
    assert("image/jpeg"@.len() != "image/png"@.len());
    assert("pdf"@.len() != "snapshot"@.len());
    assert("pdf"@.len() != "webpage"@.len());
    assert("pdf"@.len() != "html"@.len());
    assert("epub"@.len() != "snapshot"@.len());
    assert("epub"@.len() != "webpage"@.len());
}

/// Each known MIME type, compared ASCII case-insensitively, gives its own
/// extension whatever the attachment kind: `application/pdf` gives `pdf`,
/// `application/epub+zip` gives `epub`, `text/html` gives `html`,
/// `text/plain` gives `txt`, `image/jpeg` gives `jpg` and `image/png` gives
/// `png`.
pub proof fn law_extension_from_mime_type(m: Seq<char>, kind: Option<Seq<char>>)
    ensures
        lower(m) == "application/pdf"@ ==> extension_for(Some(m), kind) == Some("pdf"@),
        lower(m) == "application/epub+zip"@ ==> extension_for(Some(m), kind) == Some("epub"@),
        lower(m) == "text/html"@ ==> extension_for(Some(m), kind) == Some("html"@),
        lower(m) == "text/plain"@ ==> extension_for(Some(m), kind) == Some("txt"@),
        lower(m) == "image/jpeg"@ ==> extension_for(Some(m), kind) == Some("jpg"@),
        lower(m) == "image/png"@ ==> extension_for(Some(m), kind) == Some("png"@),
{
    lemma_type_names_distinct();
}

/// Without a known MIME type the attachment kind, compared ASCII
/// case-insensitively, decides: `pdf` gives `pdf`, `epub` gives `epub`,
/// `snapshot`, `webpage` and `html` give `html`, and any other kind (or
/// none) gives no extension.
pub proof fn law_extension_from_kind(mime: Option<Seq<char>>, kind: Option<Seq<char>>)
    requires
        mime matches Some(m) ==> {
            let l = lower(m);
            &&& l != "application/pdf"@ && l != "application/epub+zip"@ && l != "text/html"@
            &&& l != "text/plain"@ && l != "image/jpeg"@ && l != "image/png"@
        },
    ensures
        kind is None ==> extension_for(mime, kind) is None,
        kind matches Some(k) ==> {
            let l = lower(k);
            &&& l == "pdf"@ ==> extension_for(mime, kind) == Some("pdf"@)
            &&& l == "epub"@ ==> extension_for(mime, kind) == Some("epub"@)
            &&& (l == "snapshot"@ || l == "webpage"@ || l == "html"@) ==> extension_for(mime, kind)
                == Some("html"@)
            &&& (l != "pdf"@ && l != "epub"@ && l != "snapshot"@ && l != "webpage"@ && l
                != "html"@) ==> extension_for(mime, kind) is None
        },
{
    lemma_type_names_distinct();
}

} // verus!
