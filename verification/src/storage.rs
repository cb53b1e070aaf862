//! Query index documents and search matching.
//!
//! Every item's `metadata.toml` becomes an [`ItemDocument`]; a search term
//! (already lower-cased by the caller) matches an item when some of its text
//! fields contain it after Unicode lower-casing.  Plugin `extra` fields take
//! part in search only when declared indexed, and feed a secondary index from
//! `namespace.key` to value to item ids.

use vstd::prelude::*;
use crate::model::{names_of, opt_view, views, CategorySummary, ItemDocument, Metadata, SearchHit};
use crate::ordered::{
    insert_sorted, lemma_lex_irreflexive, lemma_lex_total, lemma_lex_transitive, lex_lt, sorted,
    str_compare, string_listed, string_views,
};
use crate::rules::{index_from, year_string, year_text};
use crate::setmap::SetMap;
use crate::text::{chars_of, contains_chars, contains_seq, join, join_path, str_eq, to_lowercase, unicode_lower};

verus! {

// ---------------------------------------------------------------------------
// Documents
// ---------------------------------------------------------------------------

/// The sorted, repetition-free list of a metadata record's categories.
pub open spec fn category_set_of(doc: Seq<Seq<char>>, cats: Seq<String>) -> bool {
    &&& sorted(doc)
    &&& forall|c: Seq<char>| doc.contains(c) <==> views(cats).contains(c)
}

/// A path relative to the library root, with `/` separators: what is left
/// of `path` once the root's components are taken off (all of `path` when
/// it is not under the root), every backslash turned into `/`.
pub open spec fn relative_text(library_root: Seq<char>, path: Seq<char>) -> Seq<char> {
    crate::text::replace_char(
        match crate::paths::path_strip(path, library_root) {
            Some(rest) => rest,
            None => path,
        },
        '\\',
        '/',
    )
}

/// `path` relative to the library root with `/` separators (all of `path`
/// when it is not under the root).
pub fn relative_to_root(library_root: &str, path: &str) -> (r: String)
    ensures
        r@ == relative_text(library_root@, path@),
{
    let rest = match crate::paths::strip_prefix_of(path, library_root) {
        Some(rest) => rest,
        None => crate::text::owned(path),
    };
    let v = chars_of(rest.as_str());
    crate::text::string_of(&crate::text::replace_char_chars(&v, '\\', '/'))
}

/// Convert a metadata record and its item directory into an indexed
/// document; the object path is the directory relative to the library root.
pub fn document_from_metadata(
    library_root: &str,
    item_dir: &str,
    metadata: Metadata,
    metadata_revision: String,
) -> (r: ItemDocument)
    ensures
        r.id == metadata.id,
        r.object_path@ == relative_text(library_root@, item_dir@),
        r.metadata_revision == metadata_revision,
        r.title == metadata.title,
        views(r.authors@) == names_of(metadata.creators@, true),
        r.abstract_note == metadata.abstract_note,
        r.item_type == metadata.item_type,
        r.doi == metadata.doi,
        r.uri == metadata.uri,
        r.main_file == metadata.files.main,
        views(r.extra_files@) == metadata.files.extra@.map_values(
            |f: crate::model::MetadataFile| f.path@,
        ),
        r.tags == metadata.tags.items,
        r.venue == metadata.venue,
        r.year == metadata.year,
        category_set_of(string_views(r.categories@), metadata.categories@),
        r.extra == metadata.extra,
{
    let authors = metadata.author_names();
    let mut categories: Vec<String> = Vec::new();
    let mut i: usize = 0;
    while i < metadata.categories.len()
        invariant
            i <= metadata.categories@.len(),
            sorted(string_views(categories@)),
            forall|c: Seq<char>|
                string_views(categories@).contains(c) <==> views(
                    metadata.categories@.take(i as int),
                ).contains(c),
        decreases metadata.categories.len() - i,
    {
        insert_sorted(&mut categories, metadata.categories[i].as_str());
        proof {
            let before = views(metadata.categories@.take(i as int));
            let after = views(metadata.categories@.take(i + 1));
            assert(after =~= before.push(metadata.categories@[i as int]@));
            assert forall|c: Seq<char>| after.contains(c) <==> (before.contains(c) || c
                == metadata.categories@[i as int]@) by {
                if after.contains(c) {
                    let j = choose|j: int| 0 <= j < after.len() && after[j] == c;
                    if j < before.len() {
                        assert(before[j] == c);
                    }
                }
                if before.contains(c) {
                    let j = choose|j: int| 0 <= j < before.len() && before[j] == c;
                    assert(after[j] == c);
                }
                if c == metadata.categories@[i as int]@ {
                    assert(after[i as int] == c);
                }
            }
            assert forall|c: Seq<char>|
                string_views(categories@).contains(c) <==> after.contains(c) by {
                assert(string_views(categories@).contains(c) <==> (before.contains(c) || c
                    == metadata.categories@[i as int]@));
            }
        }
        i = i + 1;
    }
    proof {
        assert(metadata.categories@.take(metadata.categories@.len() as int)
            =~= metadata.categories@);
    }
    let mut extra_files: Vec<String> = Vec::new();
    let mut k: usize = 0;
    while k < metadata.files.extra.len()
        invariant
            k <= metadata.files.extra@.len(),
            views(extra_files@) == metadata.files.extra@.take(k as int).map_values(
                |f: crate::model::MetadataFile| f.path@,
            ),
        decreases metadata.files.extra.len() - k,
    {
        let ghost before = extra_files@;
        extra_files.push(metadata.files.extra[k].path.clone());
        proof {
            assert(metadata.files.extra@.take(k + 1) =~= metadata.files.extra@.take(k as int).push(
                metadata.files.extra@[k as int],
            ));
            assert(views(extra_files@) =~= views(before).push(
                metadata.files.extra@[k as int].path@,
            ));
        }
        k = k + 1;
    }
    proof {
        assert(metadata.files.extra@.take(metadata.files.extra@.len() as int)
            =~= metadata.files.extra@);
    }
    ItemDocument {
        id: metadata.id,
        object_path: relative_to_root(library_root, item_dir),
        metadata_revision,
        title: metadata.title,
        authors,
        abstract_note: metadata.abstract_note,
        item_type: metadata.item_type,
        doi: metadata.doi,
        uri: metadata.uri,
        main_file: metadata.files.main,
        extra_files,
        tags: metadata.tags.items,
        venue: metadata.venue,
        year: metadata.year,
        categories,
        extra: metadata.extra,
    }
}

// ---------------------------------------------------------------------------
// Search
// ---------------------------------------------------------------------------

/// A text contains the term after Unicode lower-casing.
pub open spec fn text_hit(text: Seq<char>, needle: Seq<char>) -> bool {
    contains_seq(unicode_lower(text), needle)
}

/// An optional text is present and contains the term.
pub open spec fn opt_hit(text: Option<String>, needle: Seq<char>) -> bool {
    match text {
        Some(t) => text_hit(t@, needle),
        None => false,
    }
}

/// Some text of a list contains the term.
pub open spec fn any_hit(texts: Seq<String>, needle: Seq<char>) -> bool {
    exists|i: int| 0 <= i < texts.len() && text_hit(#[trigger] texts[i]@, needle)
}

/// An indexed item contains the search term in its id, title, authors,
/// abstract, type, DOI, URI, venue, year, tags or categories.
pub open spec fn item_hit(item: ItemDocument, needle: Seq<char>) -> bool {
    ||| text_hit(item.id@, needle)
    ||| text_hit(item.title@, needle)
    ||| any_hit(item.authors@, needle)
    ||| opt_hit(item.abstract_note, needle)
    ||| text_hit(item.item_type@, needle)
    ||| opt_hit(item.doi, needle)
    ||| opt_hit(item.uri, needle)
    ||| opt_hit(item.venue, needle)
    ||| (item.year matches Some(y) && contains_seq(year_text(y), needle))
    ||| any_hit(item.tags@, needle)
    ||| any_hit(item.categories@, needle)
}

fn hit(text: &str, needle: &Vec<char>) -> (r: bool)
    ensures
        r == text_hit(text@, needle@),
{
    let l = to_lowercase(text);
    contains_chars(&chars_of(l.as_str()), needle)
}

fn opt_text_hit(text: &Option<String>, needle: &Vec<char>) -> (r: bool)
    ensures
        r == opt_hit(*text, needle@),
{
    match text {
        Some(t) => hit(t.as_str(), needle),
        None => false,
    }
}

fn list_hit(texts: &Vec<String>, needle: &Vec<char>) -> (r: bool)
    ensures
        r == any_hit(texts@, needle@),
{
    let mut i: usize = 0;
    while i < texts.len()
        invariant
            i <= texts@.len(),
            forall|k: int| 0 <= k < i ==> !text_hit(#[trigger] texts@[k]@, needle@),
        decreases texts.len() - i,
    {
        if hit(texts[i].as_str(), needle) {
            return true;
        }
        i = i + 1;
    }
    false
}

/// Whether an indexed item contains a normalized search term.
pub fn item_matches(item: &ItemDocument, needle: &str) -> (r: bool)
    ensures
        r == item_hit(*item, needle@),
{
    let n = chars_of(needle);
    hit(item.id.as_str(), &n) || hit(item.title.as_str(), &n) || list_hit(&item.authors, &n)
        || opt_text_hit(&item.abstract_note, &n) || hit(item.item_type.as_str(), &n)
        || opt_text_hit(&item.doi, &n) || opt_text_hit(&item.uri, &n) || opt_text_hit(
        &item.venue,
        &n,
    ) || match item.year {
        Some(y) => contains_chars(&chars_of(year_string(y).as_str()), &n),
        None => false,
    } || list_hit(&item.tags, &n) || list_hit(&item.categories, &n)
}

// ---------------------------------------------------------------------------
// Plugin extra fields
// ---------------------------------------------------------------------------

/// The value of the first entry with this key.
pub open spec fn pair_get(pairs: Seq<(String, String)>, key: Seq<char>) -> Option<Seq<char>>
    decreases pairs.len(),
{
    if pairs.len() == 0 {
        None
    } else if pairs[0].0@ == key {
        Some(pairs[0].1@)
    } else {
        pair_get(pairs.drop_first(), key)
    }
}

/// The fields of the first namespace with this name.
pub open spec fn namespace_get(
    extra: Seq<(String, Vec<(String, String)>)>,
    ns: Seq<char>,
) -> Option<Seq<(String, String)>>
    decreases extra.len(),
{
    if extra.len() == 0 {
        None
    } else if extra[0].0@ == ns {
        Some(extra[0].1@)
    } else {
        namespace_get(extra.drop_first(), ns)
    }
}

/// The value an item holds for a declared field `namespace.key` (split at
/// the first `.`); `None` when the field has no `.` or the item no value.
pub open spec fn extra_value(
    extra: Seq<(String, Vec<(String, String)>)>,
    field: Seq<char>,
) -> Option<Seq<char>> {
    let d = index_from(field, '.', 0);
    if d < 0 {
        None
    } else {
        match namespace_get(extra, field.take(d)) {
            Some(fields) => pair_get(fields, field.skip(d + 1)),
            None => None,
        }
    }
}

fn get_pair<'a>(pairs: &'a Vec<(String, String)>, key: &str) -> (r: Option<&'a String>)
    ensures
        match r {
            Some(v) => pair_get(pairs@, key@) == Some(v@),
            None => pair_get(pairs@, key@) is None,
        },
{
    let mut i: usize = 0;
    assert(pairs@.skip(0) =~= pairs@);
    while i < pairs.len()
        invariant
            i <= pairs@.len(),
            pair_get(pairs@, key@) == pair_get(pairs@.skip(i as int), key@),
        decreases pairs.len() - i,
    {
        proof {
            assert(pairs@.skip(i as int).drop_first() =~= pairs@.skip(i + 1));
            assert(pairs@.skip(i as int)[0] == pairs@[i as int]);
        }
        if str_eq(pairs[i].0.as_str(), key) {
            return Some(&pairs[i].1);
        }
        i = i + 1;
    }
    None
}

/// The value an item holds for a declared `namespace.key` field.
pub fn extra_field_value<'a>(
    extra: &'a Vec<(String, Vec<(String, String)>)>,
    field: &str,
) -> (r: Option<&'a String>)
    ensures
        match r {
            Some(v) => extra_value(extra@, field@) == Some(v@),
            None => extra_value(extra@, field@) is None,
        },
{
    let f = chars_of(field);
    let mut d: usize = 0;
    while d < f.len() && f[d] != '.'
        invariant
            d <= f@.len(),
            index_from(f@, '.', 0) == index_from(f@, '.', d as int),
        decreases f.len() - d,
    {
        d = d + 1;
    }
    if d == f.len() {
        return None;
    }
    let ns = crate::text::string_of(&crate::text::slice_range(&f, 0, d));
    let key = crate::text::string_of(&crate::text::slice_range(&f, d + 1, f.len()));
    proof {
        assert(f@.subrange(0, d as int) =~= f@.take(d as int));
        assert(f@.subrange(d + 1, f@.len() as int) =~= f@.skip(d + 1));
    }
    let mut i: usize = 0;
    assert(extra@.skip(0) =~= extra@);
    while i < extra.len()
        invariant
            i <= extra@.len(),
            f@ == field@,
            d < f@.len(),
            index_from(f@, '.', 0) == d as int,
            ns@ == f@.take(d as int),
            key@ == f@.skip(d + 1),
            namespace_get(extra@, ns@) == namespace_get(extra@.skip(i as int), ns@),
        decreases extra.len() - i,
    {
        proof {
            assert(extra@.skip(i as int).drop_first() =~= extra@.skip(i + 1));
            assert(extra@.skip(i as int)[0] == extra@[i as int]);
        }
        if str_eq(extra[i].0.as_str(), ns.as_str()) {
            return get_pair(&extra[i].1, key.as_str());
        }
        i = i + 1;
    }
    None
}

/// Some declared field holds a value that contains the term (after Unicode
/// lower-casing).
pub open spec fn indexed_hit(
    item: ItemDocument,
    needle: Seq<char>,
    fields: Seq<String>,
) -> bool {
    exists|i: int|
        0 <= i < fields.len() && match extra_value(item.extra@, (#[trigger] fields[i])@) {
            Some(v) => text_hit(v, needle),
            None => false,
        }
}

/// Whether any declared-indexed `extra` field value matches the term; only
/// declared fields (`namespace.key`) are consulted.
pub fn indexed_extra_matches(item: &ItemDocument, needle: &str, indexed_fields: &Vec<String>) -> (r:
    bool)
    ensures
        r == indexed_hit(*item, needle@, indexed_fields@),
{
    let n = chars_of(needle);
    let mut i: usize = 0;
    while i < indexed_fields.len()
        invariant
            i <= indexed_fields@.len(),
            n@ == needle@,
            forall|k: int|
                0 <= k < i ==> !match extra_value(item.extra@, (#[trigger] indexed_fields@[k])@) {
                    Some(v) => text_hit(v, needle@),
                    None => false,
                },
        decreases indexed_fields.len() - i,
    {
        match extra_field_value(&item.extra, indexed_fields[i].as_str()) {
            Some(v) => {
                if hit(v.as_str(), &n) {
                    return true;
                }
            },
            None => {},
        }
        i = i + 1;
    }
    false
}

/// The secondary extra index for one declared field: each value held by
/// some document, with the ids of the documents holding it.
pub open spec fn field_index_has(
    docs: Seq<ItemDocument>,
    field: Seq<char>,
    value: Seq<char>,
    id: Seq<char>,
) -> bool {
    exists|j: int|
        0 <= j < docs.len() && (#[trigger] docs[j]).id@ == id && extra_value(docs[j].extra@, field)
            == Some(value)
}

/// Build the secondary extra index of one declared field: value to the ids
/// of the documents carrying it, values and ids sorted and unique.
pub fn build_field_index(documents: &Vec<ItemDocument>, field: &str) -> (r: SetMap)
    ensures
        r.wf(),
        forall|v: Seq<char>, id: Seq<char>|
            #![trigger r.has(v, id)]
            r.has(v, id) <==> field_index_has(documents@, field@, v, id),
{
    let mut index = SetMap::new();
    let mut j: usize = 0;
    while j < documents.len()
        invariant
            j <= documents@.len(),
            index.wf(),
            forall|v: Seq<char>, id: Seq<char>|
                #![trigger index.has(v, id)]
                index.has(v, id) <==> field_index_has(documents@.take(j as int), field@, v, id),
        decreases documents.len() - j,
    {
        let doc = &documents[j];
        let ghost prev = documents@.take(j as int);
        let ghost next = documents@.take(j + 1);
        proof {
            assert(next =~= prev.push(documents@[j as int]));
        }
        match extra_field_value(&doc.extra, field) {
            Some(value) => {
                index.insert(value.as_str(), doc.id.as_str());
            },
            None => {},
        }
        proof {
            assert forall|v: Seq<char>, id: Seq<char>|
                #![trigger index.has(v, id)]
                index.has(v, id) <==> field_index_has(next, field@, v, id) by {
                if field_index_has(next, field@, v, id) {
                    let k = choose|k: int|
                        0 <= k < next.len() && (#[trigger] next[k]).id@ == id && extra_value(
                            next[k].extra@,
                            field@,
                        ) == Some(v);
                    if k < j {
                        assert(prev[k] == next[k]);
                        assert(field_index_has(prev, field@, v, id));
                    }
                }
                if field_index_has(prev, field@, v, id) {
                    let k = choose|k: int|
                        0 <= k < prev.len() && (#[trigger] prev[k]).id@ == id && extra_value(
                            prev[k].extra@,
                            field@,
                        ) == Some(v);
                    assert(next[k] == prev[k]);
                }
                if extra_value(doc.extra@, field@) == Some(v) && doc.id@ == id {
                    assert(next[j as int] == *doc);
                }
            }
        }
        j = j + 1;
    }
    proof {
        assert(documents@.take(documents@.len() as int) =~= documents@);
    }
    index
}

/// A field name is among the declared ones.
pub open spec fn declared(fields: Seq<String>, name: Seq<char>) -> bool {
    exists|m: int| 0 <= m < fields.len() && (#[trigger] fields[m])@ == name
}

/// Some document carries a value for `field`.
pub open spec fn field_carried(docs: Seq<ItemDocument>, field: Seq<char>) -> bool {
    exists|j: int| 0 <= j < docs.len() && #[trigger] extra_value(docs[j].extra@, field) is Some
}

/// The declared fields that some document carries, in declaration order.
pub open spec fn carried_fields(fields: Seq<String>, docs: Seq<ItemDocument>) -> Seq<Seq<char>>
    decreases fields.len(),
{
    if fields.len() == 0 {
        Seq::empty()
    } else {
        let rest = carried_fields(fields.drop_last(), docs);
        if field_carried(docs, fields.last()@) {
            rest.push(fields.last()@)
        } else {
            rest
        }
    }
}

/// The field names of an extra index.
pub open spec fn index_fields(r: Seq<(String, SetMap)>) -> Seq<Seq<char>> {
    r.map_values(|e: (String, SetMap)| e.0@)
}

/// Build the secondary extra index: for each declared field that some
/// document carries, in declaration order, the field with its value index.
pub fn build_extra_index(documents: &Vec<ItemDocument>, indexed_fields: &Vec<String>) -> (r: Vec<
    (String, SetMap),
>)
    ensures
        index_fields(r@) == carried_fields(indexed_fields@, documents@),
        forall|i: int|
            0 <= i < r@.len() ==> (#[trigger] r@[i]).1.wf() && declared(indexed_fields@, r@[i].0@)
                && (forall|v: Seq<char>, id: Seq<char>|
                #![trigger r@[i].1.has(v, id)]
                r@[i].1.has(v, id) <==> field_index_has(documents@, r@[i].0@, v, id)),
{
    let mut out: Vec<(String, SetMap)> = Vec::new();
    let mut i: usize = 0;
    while i < indexed_fields.len()
        invariant
            i <= indexed_fields@.len(),
            index_fields(out@) == carried_fields(indexed_fields@.take(i as int), documents@),
            forall|k: int|
                0 <= k < out@.len() ==> (#[trigger] out@[k]).1.wf() && declared(
                    indexed_fields@,
                    out@[k].0@,
                ) && (forall|v: Seq<char>, id: Seq<char>|
                    #![trigger out@[k].1.has(v, id)]
                    out@[k].1.has(v, id) <==> field_index_has(documents@, out@[k].0@, v, id)),
        decreases indexed_fields.len() - i,
    {
        let field = &indexed_fields[i];
        let index = build_field_index(documents, field.as_str());
        let ghost before = out@;
        proof {
            let taken = indexed_fields@.take(i + 1);
            assert(taken.drop_last() =~= indexed_fields@.take(i as int));
            assert(taken.last() == *field);
            if field_carried(documents@, field@) {
                let j = choose|j: int|
                    0 <= j < documents@.len() && #[trigger] extra_value(documents@[j].extra@, field@) is Some;
                let v = extra_value(documents@[j].extra@, field@)->0;
                assert(field_index_has(documents@, field@, v, documents@[j].id@));
                assert(index.has(v, documents@[j].id@));
            }
            if exists|v: Seq<char>, id: Seq<char>| index.has(v, id) {
                let (v, id) = choose|v: Seq<char>, id: Seq<char>| index.has(v, id);
                assert(field_index_has(documents@, field@, v, id));
            }
        }
        if !index.is_empty() {
            proof {
                assert(declared(indexed_fields@, field@));
            }
            out.push((field.clone(), index));
            proof {
                assert(index_fields(out@) =~= index_fields(before).push(field@));
                assert forall|k: int| 0 <= k < before.len() implies out@[k] == before[k] by {}
            }
        }
        i = i + 1;
    }
    proof {
        assert(indexed_fields@.take(indexed_fields@.len() as int) =~= indexed_fields@);
    }
    out
}

/// Resolve a scan target against a library root: an absolute target as is,
/// a relative one joined under the root.
pub fn path_from_scan_target(library_root: &str, target_path: &str) -> (r: String)
    ensures
        r@ == if crate::paths::path_absolute(target_path@) {
            target_path@
        } else {
            join_path(library_root@, target_path@)
        },
{
    if crate::paths::is_absolute(target_path) {
        crate::text::owned(target_path)
    } else {
        join(library_root, target_path)
    }
}


// ---------------------------------------------------------------------------
// Category memberships from category links
// ---------------------------------------------------------------------------

/// Order on (item id, category) pairs: by id, then by category.
pub open spec fn pair_lt(a: (Seq<char>, Seq<char>), b: (Seq<char>, Seq<char>)) -> bool {
    lex_lt(a.0, b.0) || (a.0 == b.0 && lex_lt(a.1, b.1))
}

/// Strictly increasing list of pairs (sorted and free of repetitions).
pub open spec fn pairs_sorted(s: Seq<(Seq<char>, Seq<char>)>) -> bool {
    forall|i: int, j: int| 0 <= i < j < s.len() ==> pair_lt(#[trigger] s[i], #[trigger] s[j])
}

/// Views of a list of string pairs.
pub open spec fn pair_views(v: Seq<(String, String)>) -> Seq<(Seq<char>, Seq<char>)> {
    v.map_values(|p: (String, String)| (p.0@, p.1@))
}

proof fn lemma_pair_transitive(a: (Seq<char>, Seq<char>), b: (Seq<char>, Seq<char>), c: (Seq<char>, Seq<char>))
    requires
        pair_lt(a, b),
        pair_lt(b, c),
    ensures
        pair_lt(a, c),
{
    if lex_lt(a.0, b.0) && lex_lt(b.0, c.0) {
        lemma_lex_transitive(a.0, b.0, c.0);
    } else if a.0 == b.0 && b.0 == c.0 {
        lemma_lex_transitive(a.1, b.1, c.1);
    }
}

/// Compare two pairs: `-1`, `0` or `1`.
fn pair_compare(a: &(String, String), b: &(String, String)) -> (r: i8)
    ensures
        r == 0 <==> (a.0@, a.1@) == (b.0@, b.1@),
        r < 0 <==> pair_lt((a.0@, a.1@), (b.0@, b.1@)),
        r > 0 <==> pair_lt((b.0@, b.1@), (a.0@, a.1@)),
{
    let c = str_compare(a.0.as_str(), b.0.as_str());
    proof {
        lemma_lex_irreflexive(a.0@);
        lemma_lex_irreflexive(a.1@);
        lemma_lex_total(a.1@, b.1@);
    }
    if c != 0 {
        c
    } else {
        str_compare(a.1.as_str(), b.1.as_str())
    }
}

/// Insert a pair into a strictly increasing list unless it is present.
fn insert_pair(v: &mut Vec<(String, String)>, x: (String, String))
    requires
        pairs_sorted(pair_views(old(v)@)),
    ensures
        pairs_sorted(pair_views(final(v)@)),
        forall|y: (Seq<char>, Seq<char>)|
            #![trigger pair_views(final(v)@).contains(y)]
            pair_views(final(v)@).contains(y) <==> (pair_views(old(v)@).contains(y) || y == (x.0@, x.1@)),
{
    let ghost xv = (x.0@, x.1@);
    let ghost before = pair_views(v@);
    let mut i: usize = 0;
    let mut below = v.len() > 0 && pair_compare(&v[0], &x) < 0;
    while below && i < v.len()
        invariant
            below ==> i < v@.len(),
            i <= v@.len(),
            before == pair_views(v@),
            pairs_sorted(before),
            xv == (x.0@, x.1@),
            forall|k: int| 0 <= k < i ==> pair_lt(#[trigger] before[k], xv),
            below ==> pair_lt(before[i as int], xv),
            !below ==> (i == v@.len() || !pair_lt(before[i as int], xv)),
        decreases v@.len() - i,
    {
        i = i + 1;
        below = i < v.len() && pair_compare(&v[i], &x) < 0;
        proof {
            if i < v@.len() {
                assert(before[i as int] == (v@[i as int].0@, v@[i as int].1@));
            }
        }
    }
    if i < v.len() {
        let c = pair_compare(&v[i], &x);
        proof {
            assert(before[i as int] == (v@[i as int].0@, v@[i as int].1@));
        }
        if c == 0 {
            proof {
                assert(before[i as int] == xv);
            }
            return;
        }
    }
    let pos = i;
    v.insert(pos, x);
    proof {
        let after = pair_views(v@);
        assert(after =~= before.insert(pos as int, xv));
        assert forall|a: int, b: int| 0 <= a < b < after.len() implies pair_lt(
            #[trigger] after[a],
            #[trigger] after[b],
        ) by {
            if b < pos {
                assert(after[a] == before[a] && after[b] == before[b]);
            } else if b == pos {
                assert(after[a] == before[a]);
            } else if a < pos {
                assert(after[a] == before[a]);
                assert(after[b] == before[b - 1]);
                if b - 1 != pos {
                    assert(pair_lt(before[pos as int], before[b - 1]));
                    lemma_pair_transitive(xv, before[pos as int], before[b - 1]);
                }
                lemma_pair_transitive(before[a], xv, before[b - 1]);
            } else if a == pos {
                assert(after[b] == before[b - 1]);
                if b - 1 != pos {
                    assert(pair_lt(before[pos as int], before[b - 1]));
                    lemma_pair_transitive(xv, before[pos as int], before[b - 1]);
                }
            } else {
                assert(after[a] == before[a - 1]);
                assert(after[b] == before[b - 1]);
            }
        }
        assert forall|y: (Seq<char>, Seq<char>)| after.contains(y) <==> (before.contains(y) || y == xv) by {
            if after.contains(y) {
                let k = choose|k: int| 0 <= k < after.len() && after[k] == y;
                if k < pos {
                    assert(before[k] == y);
                } else if k > pos {
                    assert(before[k - 1] == y);
                }
            }
            if before.contains(y) {
                let k = choose|k: int| 0 <= k < before.len() && before[k] == y;
                if k < pos {
                    assert(after[k] == y);
                } else {
                    assert(after[k + 1] == y);
                }
            }
            if y == xv {
                assert(after[pos as int] == y);
            }
        }
    }
}

/// The first item (id, canonical path) whose path is `target`.
pub open spec fn first_item_at(items: Seq<(String, Option<String>)>, target: Seq<char>) -> Option<Seq<char>>
    decreases items.len(),
{
    if items.len() == 0 {
        None
    } else if items[0].1 matches Some(p) && p@ == target {
        Some(items[0].0@)
    } else {
        first_item_at(items.drop_first(), target)
    }
}

/// The membership a category link records: its category and the first item
/// whose canonical path is the link's canonical target.
pub open spec fn link_membership(
    link: (Option<String>, Option<String>),
    items: Seq<(String, Option<String>)>,
) -> Option<(Seq<char>, Seq<char>)> {
    match (link.0, link.1) {
        (Some(category), Some(target)) => match first_item_at(items, target@) {
            Some(id) => Some((id, category@)),
            None => None,
        },
        _ => None,
    }
}

fn first_item(items: &Vec<(String, Option<String>)>, target: &str) -> (r: Option<String>)
    ensures
        opt_view(r) == first_item_at(items@, target@),
{
    let mut i: usize = 0;
    proof {
        assert(items@.skip(0) =~= items@);
    }
    while i < items.len()
        invariant
            i <= items@.len(),
            first_item_at(items@, target@) == first_item_at(items@.skip(i as int), target@),
        decreases items.len() - i,
    {
        proof {
            assert(items@.skip(i as int)[0] == items@[i as int]);
            assert(items@.skip(i as int).drop_first() =~= items@.skip(i + 1));
        }
        match &items[i].1 {
            Some(p) => {
                if str_eq(p.as_str(), target) {
                    return Some(items[i].0.clone());
                }
            },
            None => {},
        }
        i = i + 1;
    }
    None
}

/// Category memberships recorded by category links.  `links` holds, for
/// every item link under `Cat/`, its category and its canonical target
/// (`None` when either is unknown); `items` every item's id and canonical
/// directory (`None` when it cannot be resolved).  The result lists each
/// (item id, category) pair once, in order.
pub fn scan_cat_memberships(
    links: &Vec<(Option<String>, Option<String>)>,
    items: &Vec<(String, Option<String>)>,
) -> (r: Vec<(String, String)>)
    ensures
        pairs_sorted(pair_views(r@)),
        forall|p: (Seq<char>, Seq<char>)|
            #![trigger pair_views(r@).contains(p)]
            pair_views(r@).contains(p) <==> exists|k: int|
                0 <= k < links@.len() && link_membership(#[trigger] links@[k], items@) == Some(p),
{
    let mut out: Vec<(String, String)> = Vec::new();
    let mut i: usize = 0;
    while i < links.len()
        invariant
            i <= links@.len(),
            pairs_sorted(pair_views(out@)),
            forall|p: (Seq<char>, Seq<char>)|
                #![trigger pair_views(out@).contains(p)]
                pair_views(out@).contains(p) <==> exists|k: int|
                    0 <= k < i && link_membership(#[trigger] links@[k], items@) == Some(p),
        decreases links.len() - i,
    {
        let ghost before = pair_views(out@);
        match (&links[i].0, &links[i].1) {
            (Some(category), Some(target)) => {
                match first_item(items, target.as_str()) {
                    Some(id) => {
                        insert_pair(&mut out, (id, category.clone()));
                    },
                    None => {},
                }
            },
            _ => {},
        }
        proof {
            assert forall|p: (Seq<char>, Seq<char>)| pair_views(out@).contains(p) <==> exists|k: int|
                0 <= k < i + 1 && link_membership(#[trigger] links@[k], items@) == Some(p) by {
                if exists|k: int| 0 <= k < i + 1 && link_membership(#[trigger] links@[k], items@) == Some(p) {
                    let k = choose|k: int| 0 <= k < i + 1 && link_membership(#[trigger] links@[k], items@) == Some(p);
                    if k < i {
                        assert(before.contains(p));
                    }
                }
                if before.contains(p) {
                    let k = choose|k: int| 0 <= k < i && link_membership(#[trigger] links@[k], items@) == Some(p);
                    assert(0 <= k < i + 1);
                }
            }
        }
        i = i + 1;
    }
    out
}


// ---------------------------------------------------------------------------
// Category listing
// ---------------------------------------------------------------------------

/// The paths of a list of category summaries.
pub open spec fn summary_paths(s: Seq<CategorySummary>) -> Seq<Seq<char>> {
    s.map_values(|c: CategorySummary| c.path@)
}

/// Whether the listing shows category `p`: it is an empty category directory
/// or a category of some indexed item.
pub open spec fn category_listed(empty_dirs: Seq<String>, items: Seq<ItemDocument>, p: Seq<char>) -> bool {
    string_views(empty_dirs).contains(p) || exists|i: int|
        0 <= i < items.len() && #[trigger] string_views(items[i].categories@).contains(p)
}

/// Whether an item with id `id` is filed under category `p`.
pub open spec fn filed_under(items: Seq<ItemDocument>, p: Seq<char>, id: Seq<char>) -> bool {
    exists|i: int|
        0 <= i < items.len() && items[i].id@ == id && #[trigger] string_views(
            items[i].categories@,
        ).contains(p)
}

/// The category listing: every empty category directory and every category
/// of an indexed item, once each and in order, with the ids of the items
/// filed under it, once each and in order.
pub fn category_summaries(empty_dirs: &Vec<String>, items: &Vec<ItemDocument>) -> (r: Vec<
    CategorySummary,
>)
    ensures
        sorted(summary_paths(r@)),
        forall|p: Seq<char>|
            #![trigger summary_paths(r@).contains(p)]
            summary_paths(r@).contains(p) <==> category_listed(empty_dirs@, items@, p),
        forall|k: int|
            #![trigger r@[k]]
            0 <= k < r@.len() ==> sorted(string_views(r@[k].item_ids@)) && forall|id: Seq<char>|
                #![trigger string_views(r@[k].item_ids@).contains(id)]
                string_views(r@[k].item_ids@).contains(id) <==> filed_under(items@, r@[k].path@, id),
{
    let mut paths: Vec<String> = Vec::new();
    let mut d: usize = 0;
    while d < empty_dirs.len()
        invariant
            d <= empty_dirs@.len(),
            sorted(string_views(paths@)),
            forall|y: Seq<char>|
                #![trigger string_views(paths@).contains(y)]
                string_views(paths@).contains(y) <==> string_views(empty_dirs@.subrange(0, d as int)).contains(y),
        decreases empty_dirs.len() - d,
    {
        let ghost before = string_views(paths@);
        insert_sorted(&mut paths, empty_dirs[d].as_str());
        proof {
            let sub = string_views(empty_dirs@.subrange(0, d + 1));
            let prev = string_views(empty_dirs@.subrange(0, d as int));
            assert(sub =~= prev.push(empty_dirs@[d as int]@));
            assert forall|y: Seq<char>| #[trigger] string_views(paths@).contains(y) <==> sub.contains(y) by {
                if sub.contains(y) {
                    let q = choose|q: int| 0 <= q < sub.len() && sub[q] == y;
                    if q < prev.len() {
                        assert(prev[q] == y);
                    }
                }
                if prev.contains(y) {
                    let q = choose|q: int| 0 <= q < prev.len() && prev[q] == y;
                    assert(sub[q] == y);
                }
                if y == empty_dirs@[d as int]@ {
                    assert(sub[d as int] == y);
                }
            }
        }
        d = d + 1;
    }
    proof {
        assert(empty_dirs@.subrange(0, empty_dirs@.len() as int) =~= empty_dirs@);
    }
    let mut i: usize = 0;
    while i < items.len()
        invariant
            i <= items@.len(),
            sorted(string_views(paths@)),
            forall|y: Seq<char>|
                #![trigger string_views(paths@).contains(y)]
                string_views(paths@).contains(y) <==> (string_views(empty_dirs@).contains(y) || exists|m: int|
                    0 <= m < i && #[trigger] string_views(items@[m].categories@).contains(y)),
        decreases items.len() - i,
    {
        let cats = &items[i].categories;
        let mut c: usize = 0;
        while c < cats.len()
            invariant
                i < items@.len(),
                cats == &items@[i as int].categories,
                c <= cats@.len(),
                sorted(string_views(paths@)),
                forall|y: Seq<char>|
                    #![trigger string_views(paths@).contains(y)]
                    string_views(paths@).contains(y) <==> (string_views(empty_dirs@).contains(y)
                        || (exists|m: int|
                        0 <= m < i && #[trigger] string_views(items@[m].categories@).contains(y))
                        || string_views(cats@.subrange(0, c as int)).contains(y)),
            decreases cats.len() - c,
        {
            insert_sorted(&mut paths, cats[c].as_str());
            proof {
                let sub = string_views(cats@.subrange(0, c + 1));
                let prev = string_views(cats@.subrange(0, c as int));
                assert(sub =~= prev.push(cats@[c as int]@));
                assert forall|y: Seq<char>| #[trigger] string_views(paths@).contains(y) <==> (
                string_views(empty_dirs@).contains(y) || (exists|m: int|
                    0 <= m < i && #[trigger] string_views(items@[m].categories@).contains(y))
                    || sub.contains(y)) by {
                    if sub.contains(y) {
                        let q = choose|q: int| 0 <= q < sub.len() && sub[q] == y;
                        if q < prev.len() {
                            assert(prev[q] == y);
                        }
                    }
                    if prev.contains(y) {
                        let q = choose|q: int| 0 <= q < prev.len() && prev[q] == y;
                        assert(sub[q] == y);
                    }
                    if y == cats@[c as int]@ {
                        assert(sub[c as int] == y);
                    }
                }
            }
            c = c + 1;
        }
        proof {
            assert(cats@.subrange(0, cats@.len() as int) =~= cats@);
            assert forall|y: Seq<char>| #[trigger] string_views(paths@).contains(y) <==> (
            string_views(empty_dirs@).contains(y) || exists|m: int|
                0 <= m < i + 1 && #[trigger] string_views(items@[m].categories@).contains(y)) by {
                if exists|m: int| 0 <= m < i + 1 && #[trigger] string_views(items@[m].categories@).contains(y) {
                    let m = choose|m: int| 0 <= m < i + 1 && #[trigger] string_views(items@[m].categories@).contains(y);
                    if m < i {
                        assert(exists|m2: int| 0 <= m2 < i && #[trigger] string_views(items@[m2].categories@).contains(y));
                    }
                }
            }
        }
        i = i + 1;
    }
    let mut out: Vec<CategorySummary> = Vec::new();
    let mut k: usize = 0;
    while k < paths.len()
        invariant
            k <= paths@.len(),
            out@.len() == k,
            sorted(string_views(paths@)),
            forall|q: int| 0 <= q < k ==> #[trigger] out@[q].path@ == paths@[q]@,
            forall|q: int|
                #![trigger out@[q]]
                0 <= q < k ==> sorted(string_views(out@[q].item_ids@)) && forall|id: Seq<char>|
                    #![trigger string_views(out@[q].item_ids@).contains(id)]
                    string_views(out@[q].item_ids@).contains(id) <==> filed_under(items@, out@[q].path@, id),
        decreases paths.len() - k,
    {
        let p = paths[k].as_str();
        let mut ids: Vec<String> = Vec::new();
        let mut j: usize = 0;
        while j < items.len()
            invariant
                j <= items@.len(),
                sorted(string_views(ids@)),
                forall|id: Seq<char>|
                    #![trigger string_views(ids@).contains(id)]
                    string_views(ids@).contains(id) <==> exists|m: int|
                        0 <= m < j && items@[m].id@ == id && #[trigger] string_views(
                            items@[m].categories@,
                        ).contains(p@),
            decreases items.len() - j,
        {
            if string_listed(&items[j].categories, p) {
                insert_sorted(&mut ids, items[j].id.as_str());
            }
            proof {
                assert forall|id: Seq<char>| #[trigger] string_views(ids@).contains(id) <==> exists|m: int|
                    0 <= m < j + 1 && items@[m].id@ == id && #[trigger] string_views(
                        items@[m].categories@,
                    ).contains(p@) by {
                    if exists|m: int|
                        0 <= m < j + 1 && items@[m].id@ == id && #[trigger] string_views(
                            items@[m].categories@,
                        ).contains(p@) {
                        let m = choose|m: int|
                            0 <= m < j + 1 && items@[m].id@ == id && #[trigger] string_views(
                                items@[m].categories@,
                            ).contains(p@);
                        if m < j {
                            assert(exists|m2: int|
                                0 <= m2 < j && items@[m2].id@ == id && #[trigger] string_views(
                                    items@[m2].categories@,
                                ).contains(p@));
                        }
                    }
                }
            }
            j = j + 1;
        }
        let ghost before = out@;
        out.push(CategorySummary { path: paths[k].clone(), item_ids: ids });
        proof {
            assert forall|q: int|
                #![trigger out@[q]]
                0 <= q < k + 1 implies sorted(string_views(out@[q].item_ids@)) && forall|id: Seq<char>|
                    #![trigger string_views(out@[q].item_ids@).contains(id)]
                    string_views(out@[q].item_ids@).contains(id) <==> filed_under(items@, out@[q].path@, id) by {
                if q < k {
                    assert(out@[q] == before[q]);
                }
            }
        }
        k = k + 1;
    }
    proof {
        assert(summary_paths(out@) =~= string_views(paths@));
    }
    out
}

/// The summary of one category in a listing; a category the listing lacks
/// has no items.
pub fn category_summary_for(summaries: &Vec<CategorySummary>, category: &str) -> (r: CategorySummary)
    ensures
        r.path@ == category@,
        summary_paths(summaries@).contains(category@) ==> exists|k: int|
            0 <= k < summaries@.len() && summaries@[k].path@ == category@ && #[trigger] string_views(
                summaries@[k].item_ids@,
            ) == string_views(r.item_ids@),
        !summary_paths(summaries@).contains(category@) ==> r.item_ids@.len() == 0,
{
    let mut k: usize = 0;
    while k < summaries.len()
        invariant
            k <= summaries@.len(),
            forall|q: int| 0 <= q < k ==> summaries@[q].path@ != category@,
        decreases summaries.len() - k,
    {
        if str_eq(summaries[k].path.as_str(), category) {
            let mut ids: Vec<String> = Vec::new();
            let source = &summaries[k].item_ids;
            let mut j: usize = 0;
            while j < source.len()
                invariant
                    source == &summaries@[k as int].item_ids,
                    j <= source@.len(),
                    string_views(ids@) == string_views(source@.subrange(0, j as int)),
                decreases source.len() - j,
            {
                ids.push(source[j].clone());
                proof {
                    assert(string_views(source@.subrange(0, j + 1)) =~= string_views(
                        source@.subrange(0, j as int),
                    ).push(source@[j as int]@));
                }
                j = j + 1;
            }
            proof {
                assert(source@.subrange(0, source@.len() as int) =~= source@);
                assert(summary_paths(summaries@)[k as int] == category@);
            }
            return CategorySummary { path: crate::text::owned(category), item_ids: ids };
        }
        k = k + 1;
    }
    proof {
        if summary_paths(summaries@).contains(category@) {
            let q = choose|q: int| 0 <= q < summary_paths(summaries@).len() && summary_paths(summaries@)[q] == category@;
            assert(summaries@[q].path@ == category@);
        }
    }
    CategorySummary { path: crate::text::owned(category), item_ids: Vec::new() }
}


// ---------------------------------------------------------------------------
// Search
// ---------------------------------------------------------------------------

/// `h` is the search hit that reports `item`.
pub open spec fn reports(h: SearchHit, item: ItemDocument) -> bool {
    &&& h.id@ == item.id@
    &&& h.title@ == item.title@
    &&& string_views(h.authors@) == string_views(item.authors@)
    &&& h.object_path@ == item.object_path@
    &&& opt_view(h.doi) == opt_view(item.doi)
    &&& opt_view(h.abstract_note) == opt_view(item.abstract_note)
}

/// The items a (normalized) search term hits, in order: those whose text
/// fields or declared-indexed `extra` fields contain it.
pub open spec fn hit_items(items: Seq<ItemDocument>, needle: Seq<char>, fields: Seq<String>) -> Seq<
    ItemDocument,
>
    decreases items.len(),
{
    if items.len() == 0 {
        Seq::empty()
    } else {
        let rest = hit_items(items.drop_last(), needle, fields);
        if item_hit(items.last(), needle) || indexed_hit(items.last(), needle, fields) {
            rest.push(items.last())
        } else {
            rest
        }
    }
}

/// The search term a query stands for: trimmed, then lower-cased.
pub open spec fn search_needle(query: Seq<char>) -> Seq<char> {
    unicode_lower(crate::text::trim(query))
}

fn copy_strings(v: &Vec<String>) -> (r: Vec<String>)
    ensures
        string_views(r@) == string_views(v@),
{
    let mut out: Vec<String> = Vec::new();
    let mut i: usize = 0;
    while i < v.len()
        invariant
            i <= v@.len(),
            string_views(out@) == string_views(v@.take(i as int)),
        decreases v.len() - i,
    {
        out.push(v[i].clone());
        proof {
            assert(string_views(v@.take(i + 1)) =~= string_views(v@.take(i as int)).push(v@[i as int]@));
        }
        i = i + 1;
    }
    proof {
        assert(v@.take(v@.len() as int) =~= v@);
    }
    out
}

fn copy_opt_text(o: &Option<String>) -> (r: Option<String>)
    ensures
        opt_view(r) == opt_view(*o),
{
    match o {
        Some(s) => Some(s.clone()),
        None => None,
    }
}

/// The search hits of an already normalized term: one hit per item that
/// the term hits, in item order.
pub fn hits_for_needle(items: &Vec<ItemDocument>, needle: &str, indexed_fields: &Vec<String>) -> (r: Vec<
    SearchHit,
>)
    ensures
        r@.len() == hit_items(items@, needle@, indexed_fields@).len(),
        forall|k: int|
            0 <= k < r@.len() ==> reports(#[trigger] r@[k], hit_items(items@, needle@, indexed_fields@)[k]),
{
    let mut out: Vec<SearchHit> = Vec::new();
    let mut i: usize = 0;
    while i < items.len()
        invariant
            i <= items@.len(),
            out@.len() == hit_items(items@.take(i as int), needle@, indexed_fields@).len(),
            forall|k: int|
                0 <= k < out@.len() ==> reports(
                    #[trigger] out@[k],
                    hit_items(items@.take(i as int), needle@, indexed_fields@)[k],
                ),
        decreases items.len() - i,
    {
        let item = &items[i];
        proof {
            assert(items@.take(i + 1).drop_last() =~= items@.take(i as int));
            assert(items@.take(i + 1).last() == *item);
        }
        let ghost before = out@;
        if item_matches(item, needle) || indexed_extra_matches(item, needle, indexed_fields) {
            out.push(SearchHit {
                id: item.id.clone(),
                title: item.title.clone(),
                authors: copy_strings(&item.authors),
                object_path: item.object_path.clone(),
                doi: copy_opt_text(&item.doi),
                abstract_note: copy_opt_text(&item.abstract_note),
            });
            proof {
                assert forall|k: int| 0 <= k < out@.len() implies reports(
                    #[trigger] out@[k],
                    hit_items(items@.take(i + 1), needle@, indexed_fields@)[k],
                ) by {
                    if k < before.len() {
                        assert(out@[k] == before[k]);
                    }
                }
            }
        }
        i = i + 1;
    }
    proof {
        assert(items@.take(items@.len() as int) =~= items@);
    }
    out
}

/// Search the indexed items: the query is trimmed and lower-cased; an
/// empty term finds nothing, any other term gives one hit per item whose
/// text fields or declared-indexed `extra` fields contain it, in order.
pub fn search_hits(items: &Vec<ItemDocument>, query: &str, indexed_fields: &Vec<String>) -> (r: Vec<
    SearchHit,
>)
    ensures
        search_needle(query@).len() == 0 ==> r@.len() == 0,
        search_needle(query@).len() > 0 ==> r@.len() == hit_items(
            items@,
            search_needle(query@),
            indexed_fields@,
        ).len() && forall|k: int|
            0 <= k < r@.len() ==> reports(
                #[trigger] r@[k],
                hit_items(items@, search_needle(query@), indexed_fields@)[k],
            ),
{
    let trimmed = crate::text::trim_str(query);
    let needle = to_lowercase(trimmed.as_str());
    if needle.as_str().is_empty() {
        return Vec::new();
    }
    hits_for_needle(items, needle.as_str(), indexed_fields)
}

/// Some text field of an item, lower-cased, contains the term: its id,
/// title, an author, abstract, type, DOI, URI, venue, year, a tag or a
/// category.
pub open spec fn some_field_contains(item: ItemDocument, needle: Seq<char>) -> bool {
    ||| contains_seq(unicode_lower(item.id@), needle)
    ||| contains_seq(unicode_lower(item.title@), needle)
    ||| (exists|j: int|
        0 <= j < item.authors@.len() && contains_seq(unicode_lower(#[trigger] item.authors@[j]@), needle))
    ||| (item.abstract_note matches Some(a) && contains_seq(unicode_lower(a@), needle))
    ||| contains_seq(unicode_lower(item.item_type@), needle)
    ||| (item.doi matches Some(d) && contains_seq(unicode_lower(d@), needle))
    ||| (item.uri matches Some(u) && contains_seq(unicode_lower(u@), needle))
    ||| (item.venue matches Some(v) && contains_seq(unicode_lower(v@), needle))
    ||| (item.year matches Some(y) && contains_seq(year_text(y), needle))
    ||| (exists|j: int|
        0 <= j < item.tags@.len() && contains_seq(unicode_lower(#[trigger] item.tags@[j]@), needle))
    ||| (exists|j: int|
        0 <= j < item.categories@.len() && contains_seq(
            unicode_lower(#[trigger] item.categories@[j]@),
            needle,
        ))
}

/// An item whose field contains the term is among the items it hits.
proof fn lemma_hit_items_keeps(items: Seq<ItemDocument>, needle: Seq<char>, fields: Seq<String>, k: int)
    requires
        0 <= k < items.len(),
        item_hit(items[k], needle) || indexed_hit(items[k], needle, fields),
    ensures
        hit_items(items, needle, fields).contains(items[k]),
    decreases items.len(),
{
    let rest = hit_items(items.drop_last(), needle, fields);
    if k == items.len() - 1 {
        let all = rest.push(items.last());
        assert(all[all.len() - 1] == items[k]);
    } else {
        assert(items.drop_last()[k] == items[k]);
        lemma_hit_items_keeps(items.drop_last(), needle, fields, k);
        let j = choose|j: int| 0 <= j < rest.len() && rest[j] == items[k];
        if item_hit(items.last(), needle) || indexed_hit(items.last(), needle, fields) {
            assert(rest.push(items.last())[j] == items[k]);
        }
    }
}

/// Every item hit by the term is one of the searched items.
proof fn lemma_hit_items_from(items: Seq<ItemDocument>, needle: Seq<char>, fields: Seq<String>)
    ensures
        forall|x: ItemDocument| hit_items(items, needle, fields).contains(x) ==> items.contains(x),
    decreases items.len(),
{
    if items.len() > 0 {
        lemma_hit_items_from(items.drop_last(), needle, fields);
        let rest = hit_items(items.drop_last(), needle, fields);
        assert forall|x: ItemDocument| hit_items(items, needle, fields).contains(x) implies items.contains(
            x,
        ) by {
            let all = hit_items(items, needle, fields);
            if rest.contains(x) {
                assert(items.drop_last().contains(x));
                let j = choose|j: int| 0 <= j < items.drop_last().len() && items.drop_last()[j] == x;
                assert(items[j] == x);
            } else {
                let j = choose|j: int| 0 <= j < all.len() && all[j] == x;
                if j < rest.len() {
                    assert(all[j] == rest[j]);
                }
                assert(items[items.len() - 1] == x);
            }
        }
    }
}

/// An item matches a term when one of its text fields, lower-cased,
/// contains it, whichever field that is.
pub proof fn law_item_matches_each_field(item: ItemDocument, needle: Seq<char>)
    requires
        some_field_contains(item, needle),
    ensures
        item_hit(item, needle),
{
}

/// A search reports every item one of whose text fields, lower-cased,
/// contains the term (an author as much as a title), and reports only
/// searched items.
pub proof fn law_search_finds_every_field_match(
    items: Seq<ItemDocument>,
    needle: Seq<char>,
    fields: Seq<String>,
    k: int,
)
    requires
        0 <= k < items.len(),
        some_field_contains(items[k], needle),
    ensures
        hit_items(items, needle, fields).contains(items[k]),
        forall|x: ItemDocument| hit_items(items, needle, fields).contains(x) ==> items.contains(x),
{
    lemma_hit_items_keeps(items, needle, fields, k);
    lemma_hit_items_from(items, needle, fields);
}

} // verus!
