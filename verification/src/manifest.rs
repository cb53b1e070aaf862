//! Daemon-projected category junction manifest.
//!
//! `metadata.toml` is the source of truth for category membership; the
//! `Cat/` junctions are a projection of it.  The manifest records, per item
//! id, the set of categories for which a junction has been projected, so a
//! scan can tell user deletions from missing projections.  It is persisted
//! to `<library>/.localref/cat-manifest.toml` as a table from item id to
//! category list, with the projected root under a reserved key.

use vstd::prelude::*;
use toml_edit::{Array, DocumentMut, Item};
use crate::error::LocalrefError;
use crate::metadata_edits::{
    array_push, array_values, document_entries, document_root_mut, document_text, item_as_array_mut,
    item_shape, new_array_item, new_document, render_document, table_insert, TomlShape,
};
use crate::ordered::string_views;
use crate::setmap::SetMap;
use crate::text::{join, join_path, owned, str_eq};

verus! {

/// The manifest document held by the text of a manifest file: each key
/// with its list of strings, in the order of `toml::from_str`'s map; `None`
/// when the text is not TOML or a value is not a list of strings.
pub uninterp spec fn manifest_document(text: Seq<char>) -> Option<Seq<(Seq<char>, Seq<Seq<char>>)>>;

/// Parse the text of a manifest file as a map from keys to string lists
/// (`toml::from_str::<BTreeMap<String, Vec<String>>>`); the error is the
/// parser's message.
#[verifier::external_body]
fn parse_manifest_text(text: &str) -> (r: Result<Vec<(String, Vec<String>)>, String>)
    ensures
        match r {
            Ok(doc) => manifest_document(text@) == Some(doc_view(doc@)),
            Err(_) => manifest_document(text@) is None,
        },
{
    match toml::from_str::<std::collections::BTreeMap<String, Vec<String>>>(text) {
        Ok(map) => Ok(map.into_iter().collect()),
        Err(error) => Err(error.to_string()),
    }
}

/// A stored document by the text of its keys and values.
pub open spec fn doc_view(doc: Seq<(String, Vec<String>)>) -> Seq<(Seq<char>, Seq<Seq<char>>)> {
    doc.map_values(|e: (String, Vec<String>)| (e.0@, string_views(e.1@)))
}

/// The projected root a stored document records: the last value listed
/// under the reserved key (by its last non-empty occurrence), if any.
pub open spec fn stored_root(doc: Seq<(Seq<char>, Seq<Seq<char>>)>) -> Option<Seq<char>>
    decreases doc.len(),
{
    if doc.len() == 0 {
        None
    } else if doc.last().0 == projected_root_key() && doc.last().1.len() > 0 {
        Some(doc.last().1.last())
    } else {
        stored_root(doc.drop_last())
    }
}

/// A list of strings as the values of a TOML array.
pub open spec fn list_values(values: Seq<Seq<char>>) -> Seq<Option<Seq<char>>> {
    values.map_values(|v: Seq<char>| Some(v))
}

/// The root entries of the TOML document that lists `doc` in order, each
/// key set to the array of its strings (a later key replacing an earlier
/// one).
pub open spec fn document_shape(doc: Seq<(Seq<char>, Seq<Seq<char>>)>) -> Map<Seq<char>, TomlShape>
    decreases doc.len(),
{
    if doc.len() == 0 {
        Map::empty()
    } else {
        document_shape(doc.drop_last()).insert(
            doc.last().0,
            TomlShape::Array(list_values(doc.last().1)),
        )
    }
}

/// Append each of `values` to an array, in order.
fn push_all(a: &mut Array, values: &Vec<String>)
    ensures
        array_values(*final(a)) == array_values(*old(a)) + list_values(string_views(values@)),
{
    let ghost a0 = array_values(*a);
    let mut i: usize = 0;
    proof {
        assert(list_values(string_views(values@.subrange(0, 0))) =~= Seq::<Option<Seq<char>>>::empty());
        assert(a0 + Seq::<Option<Seq<char>>>::empty() =~= a0);
    }
    while i < values.len()
        invariant
            i <= values@.len(),
            array_values(*a) == a0 + list_values(string_views(values@.subrange(0, i as int))),
        decreases values.len() - i,
    {
        array_push(a, values[i].as_str());
        proof {
            let before = list_values(string_views(values@.subrange(0, i as int)));
            let after = list_values(string_views(values@.subrange(0, i + 1)));
            assert(after =~= before.push(Some(values@[i as int]@)));
            assert(a0 + after =~= (a0 + before).push(Some(values@[i as int]@)));
        }
        i = i + 1;
    }
    proof {
        assert(values@.subrange(0, values@.len() as int) =~= values@);
    }
}

/// An array entry holding `values`, in order.
fn list_item(values: &Vec<String>) -> (r: Item)
    ensures
        item_shape(r) == TomlShape::Array(list_values(string_views(values@))),
{
    let mut item = new_array_item();
    match item_as_array_mut(&mut item) {
        Some(a) => {
            push_all(a, values);
            assert(Seq::<Option<Seq<char>>>::empty() + list_values(string_views(values@))
                =~= list_values(string_views(values@)));
        },
        None => {},
    }
    item
}

/// Return the manifest file path for a library root.
pub fn manifest_path(library_root: &str) -> (r: String)
    ensures
        r@ == join_path(join_path(library_root@, ".localref"@), "cat-manifest.toml"@),
{
    let state = join(library_root, ".localref");
    join(state.as_str(), "cat-manifest.toml")
}

/// The reserved document key under which the projected root is stored
/// (never an item id: those start with `lr:`).
pub const PROJECTED_ROOT_KEY: &'static str = ".projected_root";

/// The reserved document key under which the projected root is stored.
pub open spec fn projected_root_key() -> Seq<char> {
    ".projected_root"@
}

/// Per-item set of categories for which a junction has been projected.
#[derive(Clone, Debug, PartialEq, Eq)]
pub struct CatManifest {
    entries: SetMap,
    projected_root: Option<String>,
}

impl Default for CatManifest {
    fn default() -> (r: CatManifest)
        ensures
            r.wf(),
            r.spec_entries().spec_keys().len() == 0,
            r.spec_root() is None,
    {
        CatManifest::new()
    }
}

impl CatManifest {
    /// The recorded `(item, category)` pairs.
    pub closed spec fn spec_entries(&self) -> SetMap {
        self.entries
    }

    /// Recorded projected root.
    pub closed spec fn spec_root(&self) -> Option<Seq<char>> {
        match self.projected_root {
            Some(r) => Some(r@),
            None => None,
        }
    }

    /// Canonical form of the recorded pairs.
    pub open spec fn wf(&self) -> bool {
        self.spec_entries().wf()
    }

    /// A junction for `(item, category)` is recorded as projected.
    pub open spec fn has(&self, item: Seq<char>, category: Seq<char>) -> bool {
        self.spec_entries().has(item, category)
    }

    /// `doc` is the stored document of this manifest: the projected root
    /// (when recorded) as a one-element list under the reserved key, then
    /// each item id with its categories, in order.
    pub open spec fn stored_as(&self, doc: Seq<(String, Vec<String>)>) -> bool {
        let offset = if self.spec_root() is Some {
            1int
        } else {
            0int
        };
        &&& doc.len() == self.spec_entries().spec_keys().len() + offset
        &&& self.spec_root() matches Some(root) ==> doc[0].0@ == projected_root_key()
            && string_views(doc[0].1@) == seq![root]
        &&& forall|k: int|
            offset <= k < doc.len() ==> (#[trigger] doc[k]).0@ == self.spec_entries().spec_keys()[k
                - offset] && string_views(doc[k].1@) == self.spec_entries().spec_members(k - offset)
    }

    /// This manifest records what the document `doc` lists: every key but
    /// the reserved one is an item id with its categories.
    pub open spec fn read_from(&self, doc: Seq<(String, Vec<String>)>) -> bool {
        forall|i: Seq<char>, c: Seq<char>|
            #![trigger self.has(i, c)]
            self.has(i, c) <==> i != projected_root_key() && exists|k: int|
                0 <= k < doc.len() && (#[trigger] doc[k]).0@ == i && string_views(doc[k].1@).contains(
                    c,
                )
    }

    /// An empty manifest.
    pub fn new() -> (r: CatManifest)
        ensures
            r.wf(),
            r.spec_entries().spec_keys().len() == 0,
            forall|i: Seq<char>, c: Seq<char>| !r.has(i, c),
            r.spec_root() is None,
    {
        CatManifest { entries: SetMap::new(), projected_root: None }
    }

    /// Record that a junction for `(item_id, category)` has been projected.
    pub fn insert(&mut self, item_id: &str, category: &str)
        requires
            old(self).wf(),
        ensures
            final(self).wf(),
            forall|i: Seq<char>, c: Seq<char>|
                #![trigger final(self).has(i, c)]
                final(self).has(i, c) <==> (old(self).has(i, c) || (i == item_id@ && c
                    == category@)),
            final(self).spec_root() == old(self).spec_root(),
    {
        self.entries.insert(item_id, category);
    }

    /// Remove one projected `(item_id, category)` record.  An item left with
    /// no categories is pruned, so a manifest with no live memberships stays
    /// clean.
    pub fn remove(&mut self, item_id: &str, category: &str)
        requires
            old(self).wf(),
        ensures
            final(self).wf(),
            forall|i: Seq<char>, c: Seq<char>|
                #![trigger final(self).has(i, c)]
                final(self).has(i, c) <==> (old(self).has(i, c) && !(i == item_id@ && c
                    == category@)),
            final(self).spec_root() == old(self).spec_root(),
    {
        self.entries.remove(item_id, category);
    }

    /// Drop every record for one item (e.g. when the item is deleted).
    pub fn remove_item(&mut self, item_id: &str)
        requires
            old(self).wf(),
        ensures
            final(self).wf(),
            forall|i: Seq<char>, c: Seq<char>|
                #![trigger final(self).has(i, c)]
                final(self).has(i, c) <==> (old(self).has(i, c) && i != item_id@),
            final(self).spec_root() == old(self).spec_root(),
    {
        self.entries.remove_key(item_id);
    }

    /// Whether a junction for `(item_id, category)` is recorded as projected.
    pub fn contains(&self, item_id: &str, category: &str) -> (r: bool)
        requires
            self.wf(),
        ensures
            r == self.has(item_id@, category@),
    {
        self.entries.contains(item_id, category)
    }

    /// Whether the manifest records no projected junctions at all.
    pub fn is_empty(&self) -> (r: bool)
        requires
            self.wf(),
        ensures
            r <==> forall|i: Seq<char>, c: Seq<char>| !self.has(i, c),
    {
        let r = self.entries.is_empty();
        proof {
            if !r {
                let (i, c) = choose|i: Seq<char>, c: Seq<char>| self.entries.has(i, c);
                assert(self.has(i, c));
            }
        }
        r
    }

    /// The absolute library root these junctions were last projected against.
    pub fn projected_root(&self) -> (r: Option<&str>)
        ensures
            match r {
                Some(s) => self.spec_root() == Some(s@),
                None => self.spec_root() is None,
            },
    {
        match &self.projected_root {
            Some(root) => Some(root.as_str()),
            None => None,
        }
    }

    /// Record the library root the junctions are being projected against.
    pub fn set_projected_root(&mut self, root: &str)
        requires
            old(self).wf(),
        ensures
            final(self).wf(),
            final(self).spec_root() == Some(root@),
            final(self).spec_entries() == old(self).spec_entries(),
    {
        self.projected_root = Some(owned(root));
    }

    /// The manifest as its stored document: the projected root (when
    /// recorded) as a one-element list under the reserved key, then each
    /// item id with its categories, in order.
    pub fn to_document(&self) -> (r: Vec<(String, Vec<String>)>)
        requires
            self.wf(),
        ensures
            self.stored_as(r@),
    {
        let entries = self.entries.entries();
        let mut doc: Vec<(String, Vec<String>)> = Vec::new();
        let ghost offset: int = if self.projected_root.is_some() {
            1
        } else {
            0
        };
        if let Some(root) = &self.projected_root {
            let mut values: Vec<String> = Vec::new();
            values.push(root.clone());
            proof {
                assert(string_views(values@) =~= seq![root@]);
            }
            doc.push((owned(".projected_root"), values));
        }
        let mut i: usize = 0;
        while i < entries.len()
            invariant
                i <= entries@.len(),
                offset == (if self.spec_root() is Some {
                    1int
                } else {
                    0int
                }),
                doc@.len() == i + offset,
                self.spec_root() matches Some(root) ==> doc@[0].0@ == projected_root_key()
                    && string_views(doc@[0].1@) == seq![root],
                entries@.len() == self.spec_entries().spec_keys().len(),
                forall|k: int|
                    0 <= k < entries@.len() ==> (#[trigger] entries@[k]).0@
                        == self.spec_entries().spec_keys()[k] && string_views(entries@[k].1@)
                        == self.spec_entries().spec_members(k),
                forall|k: int|
                    0 <= k < i ==> (#[trigger] doc@[k + offset]).0@ == self.spec_entries().spec_keys()[k]
                        && string_views(doc@[k + offset].1@) == self.spec_entries().spec_members(
                        k,
                    ),
            decreases entries.len() - i,
        {
            let (k, v) = (entries[i].0.clone(), entries[i].1.clone());
            proof {
                assert(string_views(v@) == string_views(entries@[i as int].1@));
            }
            doc.push((k, v));
            i = i + 1;
        }
        proof {
            assert forall|k: int| offset <= k < doc@.len() implies (#[trigger] doc@[k]).0@
                == self.spec_entries().spec_keys()[k - offset] && string_views(doc@[k].1@)
                == self.spec_entries().spec_members(k - offset) by {
                let j = k - offset;
                assert(doc@[j + offset] == doc@[k]);
            }
        }
        doc
    }

    /// The manifest read from its stored document: the reserved key's last
    /// value is the projected root; every other key is an item id whose
    /// listed categories are recorded.
    pub fn from_document(doc: &Vec<(String, Vec<String>)>) -> (r: CatManifest)
        ensures
            r.wf(),
            r.read_from(doc@),
            r.spec_root() == stored_root(doc_view(doc@)),
    {
        let mut entries = SetMap::new();
        let mut projected_root: Option<String> = None;
        let mut k: usize = 0;
        while k < doc.len()
            invariant
                k <= doc@.len(),
                entries.wf(),
                (match projected_root {
                    Some(root) => Some(root@),
                    None => None,
                }) == stored_root(doc_view(doc@.subrange(0, k as int))),
                forall|i: Seq<char>, c: Seq<char>|
                    #![trigger entries.has(i, c)]
                    entries.has(i, c) <==> i != projected_root_key() && exists|j: int|
                        0 <= j < k && (#[trigger] doc@[j]).0@ == i && string_views(
                            doc@[j].1@,
                        ).contains(c),
            decreases doc.len() - k,
        {
            let (key, values) = (&doc[k].0, &doc[k].1);
            proof {
                let seen = doc_view(doc@.subrange(0, k + 1));
                assert(seen.drop_last() =~= doc_view(doc@.subrange(0, k as int)));
                assert(seen.last() == (key@, string_views(values@)));
            }
            if str_eq(key.as_str(), ".projected_root") {
                if values.len() > 0 {
                    projected_root = Some(values[values.len() - 1].clone());
                }
                proof {
                    assert forall|i: Seq<char>, c: Seq<char>|
                        #![trigger entries.has(i, c)]
                        entries.has(i, c) <==> i != projected_root_key() && exists|j: int|
                            0 <= j < k + 1 && (#[trigger] doc@[j]).0@ == i && string_views(
                                doc@[j].1@,
                            ).contains(c) by {
                        if i != projected_root_key() && exists|j: int|
                            0 <= j < k + 1 && (#[trigger] doc@[j]).0@ == i && string_views(
                                doc@[j].1@,
                            ).contains(c) {
                            let j = choose|j: int|
                                0 <= j < k + 1 && (#[trigger] doc@[j]).0@ == i && string_views(
                                    doc@[j].1@,
                                ).contains(c);
                            assert(j != k);
                        }
                    }
                }
            } else {
                let mut m: usize = 0;
                while m < values.len()
                    invariant
                        m <= values@.len(),
                        key@ != projected_root_key(),
                        key@ == doc@[k as int].0@,
                        values@ == doc@[k as int].1@,
                        entries.wf(),
                        forall|i: Seq<char>, c: Seq<char>|
                            #![trigger entries.has(i, c)]
                            entries.has(i, c) <==> (i != projected_root_key() && exists|j: int|
                                0 <= j < k && (#[trigger] doc@[j]).0@ == i && string_views(
                                    doc@[j].1@,
                                ).contains(c)) || (i == key@ && string_views(
                                values@.take(m as int),
                            ).contains(c)),
                    decreases values.len() - m,
                {
                    entries.insert(key.as_str(), values[m].as_str());
                    proof {
                        let before = string_views(values@.take(m as int));
                        let after = string_views(values@.take(m + 1));
                        assert(after =~= before.push(values@[m as int]@));
                        assert forall|c: Seq<char>| after.contains(c) <==> (before.contains(c)
                            || c == values@[m as int]@) by {
                            if after.contains(c) {
                                let j = choose|j: int| 0 <= j < after.len() && after[j] == c;
                                if j < before.len() {
                                    assert(before[j] == c);
                                }
                            }
                            if before.contains(c) {
                                let j = choose|j: int| 0 <= j < before.len() && before[j] == c;
                                assert(after[j] == c);
                            }
                            if c == values@[m as int]@ {
                                assert(after[m as int] == c);
                            }
                        }
                    }
                    m = m + 1;
                }
                proof {
                    assert(values@.take(values@.len() as int) =~= values@);
                    assert forall|i: Seq<char>, c: Seq<char>|
                        #![trigger entries.has(i, c)]
                        entries.has(i, c) <==> i != projected_root_key() && exists|j: int|
                            0 <= j < k + 1 && (#[trigger] doc@[j]).0@ == i && string_views(
                                doc@[j].1@,
                            ).contains(c) by {
                        if i != projected_root_key() && exists|j: int|
                            0 <= j < k + 1 && (#[trigger] doc@[j]).0@ == i && string_views(
                                doc@[j].1@,
                            ).contains(c) {
                            let j = choose|j: int|
                                0 <= j < k + 1 && (#[trigger] doc@[j]).0@ == i && string_views(
                                    doc@[j].1@,
                                ).contains(c);
                            if j == k {
                                assert(string_views(values@.take(values@.len() as int)).contains(c));
                            }
                        }
                    }
                }
            }
            k = k + 1;
        }
        proof {
            assert(doc@.subrange(0, doc@.len() as int) =~= doc@);
        }
        CatManifest { entries, projected_root }
    }

    /// The stored document of this manifest by text: the projected root
    /// (when recorded) as a one-element list under the reserved key, then
    /// each item id with its categories, in order.
    pub open spec fn stored_view(&self) -> Seq<(Seq<char>, Seq<Seq<char>>)> {
        let items = Seq::new(
            self.spec_entries().spec_keys().len(),
            |k: int| (self.spec_entries().spec_keys()[k], self.spec_entries().spec_members(k)),
        );
        match self.spec_root() {
            Some(root) => seq![(projected_root_key(), seq![root])] + items,
            None => items,
        }
    }

    /// This manifest records what the document `doc` lists: every key but
    /// the reserved one is an item id with its categories.
    pub open spec fn lists(&self, doc: Seq<(Seq<char>, Seq<Seq<char>>)>) -> bool {
        forall|i: Seq<char>, c: Seq<char>|
            #![trigger self.has(i, c)]
            self.has(i, c) <==> i != projected_root_key() && exists|k: int|
                0 <= k < doc.len() && (#[trigger] doc[k]).0 == i && doc[k].1.contains(c)
    }

    /// Read the manifest from the text of its file, `None` standing for a
    /// missing file, which gives an empty manifest.  Fails when the text is
    /// not TOML or holds a value that is not a list of strings.
    pub fn load(file_text: Option<&str>) -> (r: Result<CatManifest, LocalrefError>)
        ensures
            match file_text {
                None => r matches Ok(m) && m.wf() && m.spec_entries().spec_keys().len() == 0
                    && m.spec_root() is None,
                Some(text) => match manifest_document(text@) {
                    Some(doc) => r matches Ok(m) && m.wf() && m.lists(doc) && m.spec_root()
                        == stored_root(doc),
                    None => r matches Err(e) && e is TomlDe,
                },
            },
    {
        match file_text {
            None => Ok(CatManifest::new()),
            Some(text) => match parse_manifest_text(text) {
                Ok(doc) => {
                    let m = CatManifest::from_document(&doc);
                    proof {
                        lemma_read_from_lists(m, doc@);
                    }
                    Ok(m)
                },
                Err(message) => Err(LocalrefError::TomlDe(message)),
            },
        }
    }

    /// The TOML document of this manifest: its stored document, each key
    /// set to the array of its strings.
    fn build_document(&self) -> (r: DocumentMut)
        requires
            self.wf(),
        ensures
            document_entries(r) == document_shape(self.stored_view()),
    {
        let stored = self.to_document();
        proof {
            lemma_stored_view(*self, stored@);
        }
        let mut doc = new_document();
        let mut k: usize = 0;
        proof {
            assert(doc_view(stored@.subrange(0, 0)) =~= Seq::<(Seq<char>, Seq<Seq<char>>)>::empty());
        }
        while k < stored.len()
            invariant
                k <= stored@.len(),
                document_entries(doc) == document_shape(doc_view(stored@.subrange(0, k as int))),
            decreases stored.len() - k,
        {
            let item = list_item(&stored[k].1);
            let root = document_root_mut(&mut doc);
            table_insert(root, stored[k].0.as_str(), item);
            proof {
                let done = doc_view(stored@.subrange(0, k + 1));
                assert(done.drop_last() =~= doc_view(stored@.subrange(0, k as int)));
                assert(done.last() == (stored@[k as int].0@, string_views(stored@[k as int].1@)));
            }
            k = k + 1;
        }
        proof {
            assert(stored@.subrange(0, stored@.len() as int) =~= stored@);
        }
        doc
    }

    /// The text of the manifest file: the stored document written out by
    /// `toml_edit`, for the caller to put at [`manifest_path`].
    pub fn save(&self) -> (r: String)
        requires
            self.wf(),
        ensures
            exists|doc: DocumentMut|
                #[trigger] document_text(doc) == r@ && document_entries(doc) == document_shape(
                    self.stored_view(),
                ),
    {
        let doc = self.build_document();
        let out = render_document(&doc);
        assert(document_text(doc) == out@);
        out
    }
}

/// What a manifest reads from a document, by the text of its keys and
/// values.
proof fn lemma_read_from_lists(m: CatManifest, doc: Seq<(String, Vec<String>)>)
    requires
        m.read_from(doc),
    ensures
        m.lists(doc_view(doc)),
{
    let view = doc_view(doc);
    assert forall|i: Seq<char>, c: Seq<char>| #![trigger m.has(i, c)] m.has(i, c) <==> i
        != projected_root_key() && exists|k: int|
        0 <= k < view.len() && (#[trigger] view[k]).0 == i && view[k].1.contains(c) by {
        if m.has(i, c) {
            let k = choose|k: int|
                0 <= k < doc.len() && (#[trigger] doc[k]).0@ == i && string_views(doc[k].1@).contains(c);
            assert(view[k] == (doc[k].0@, string_views(doc[k].1@)));
        }
        if i != projected_root_key() && exists|k: int|
            0 <= k < view.len() && (#[trigger] view[k]).0 == i && view[k].1.contains(c) {
            let k = choose|k: int|
                0 <= k < view.len() && (#[trigger] view[k]).0 == i && view[k].1.contains(c);
            assert(view[k] == (doc[k].0@, string_views(doc[k].1@)));
        }
    }
}

/// The document a manifest is stored as, by text.
proof fn lemma_stored_view(m: CatManifest, doc: Seq<(String, Vec<String>)>)
    requires
        m.stored_as(doc),
    ensures
        doc_view(doc) == m.stored_view(),
{
    let view = doc_view(doc);
    let expected = m.stored_view();
    let offset = if m.spec_root() is Some {
        1int
    } else {
        0int
    };
    assert forall|k: int| 0 <= k < view.len() implies #[trigger] view[k] == expected[k] by {
        assert(view[k] == (doc[k].0@, string_views(doc[k].1@)));
        if k >= offset {
            assert(doc[k].0@ == m.spec_entries().spec_keys()[k - offset]);
        }
    }
    assert(view =~= expected);
}

/// A well-formed manifest that records no junction holds no item at all:
/// removing an item's last category prunes the item, so an emptied manifest
/// is the same as a fresh one.
pub proof fn law_empty_manifest_has_no_items(m: CatManifest)
    requires
        m.wf(),
        forall|i: Seq<char>, c: Seq<char>| !m.has(i, c),
    ensures
        m.spec_entries().spec_keys().len() == 0,
{
    assert forall|i: Seq<char>, c: Seq<char>| !m.spec_entries().has(i, c) by {
        assert(!m.has(i, c));
    }
    m.spec_entries().lemma_empty_has_no_keys();
}

/// What a manifest records after `insert(i, c)` followed by `remove(i, c)`:
/// the pair is gone and every other pair is as before the insert.
pub proof fn law_insert_then_remove(
    before: CatManifest,
    inserted: CatManifest,
    removed: CatManifest,
    item: Seq<char>,
    category: Seq<char>,
)
    requires
        forall|i: Seq<char>, c: Seq<char>|
            #![trigger inserted.has(i, c)]
            inserted.has(i, c) <==> (before.has(i, c) || (i == item && c == category)),
        forall|i: Seq<char>, c: Seq<char>|
            #![trigger removed.has(i, c)]
            removed.has(i, c) <==> (inserted.has(i, c) && !(i == item && c == category)),
    ensures
        !removed.has(item, category),
        forall|i: Seq<char>, c: Seq<char>|
            #![trigger removed.has(i, c)]
            !(i == item && c == category) ==> (removed.has(i, c) <==> before.has(i, c)),
{
    assert forall|i: Seq<char>, c: Seq<char>|
        #![trigger removed.has(i, c)]
        !(i == item && c == category) implies (removed.has(i, c) <==> before.has(i, c)) by {
        assert(inserted.has(i, c) <==> before.has(i, c));
    }
}


/// Reading back the document a manifest is stored as gives the same
/// recorded pairs and the same projected root, provided no item is
/// recorded under the reserved key.
pub proof fn law_document_round_trip(m: CatManifest, r: CatManifest)
    requires
        m.wf(),
        forall|c: Seq<char>| !m.has(projected_root_key(), c),
        r.lists(m.stored_view()),
        r.spec_root() == stored_root(m.stored_view()),
    ensures
        forall|i: Seq<char>, c: Seq<char>| #![trigger r.has(i, c)] r.has(i, c) <==> m.has(i, c),
        r.spec_root() == m.spec_root(),
{
    let doc = m.stored_view();
    let offset = if m.spec_root() is Some {
        1int
    } else {
        0int
    };
    let keys = m.spec_entries().spec_keys();
    let items = Seq::new(
        keys.len(),
        |k: int| (keys[k], m.spec_entries().spec_members(k)),
    );
    assert forall|j: int| 0 <= j < items.len() implies (#[trigger] items[j]).0
        != projected_root_key() by {
        if keys[j] == projected_root_key() {
            m.spec_entries().lemma_members_nonempty(j);
            let c = m.spec_entries().spec_members(j)[0];
            assert(m.spec_entries().spec_members(j).contains(c));
            m.spec_entries().lemma_has_entry(keys[j], c);
            assert(m.has(projected_root_key(), c));
        }
    }
    match m.spec_root() {
        Some(root) => {
            let head = seq![(projected_root_key(), seq![root])];
            lemma_root_unchanged_by_items(head, items);
            assert(head.drop_last() =~= Seq::<(Seq<char>, Seq<Seq<char>>)>::empty());
        },
        None => {
            let none = Seq::<(Seq<char>, Seq<Seq<char>>)>::empty();
            lemma_root_unchanged_by_items(none, items);
            assert(none + items =~= items);
        },
    }
    assert forall|i: Seq<char>, c: Seq<char>| #![trigger r.has(i, c)] r.has(i, c) <==> m.has(i, c) by {
        m.spec_entries().lemma_has_entry(i, c);
        if r.has(i, c) {
            let k = choose|k: int| 0 <= k < doc.len() && (#[trigger] doc[k]).0 == i && doc[k].1.contains(c);
            if k >= offset {
                let j = k - offset;
                assert(doc[k] == items[j]);
                assert(keys[j] == i);
                assert(m.spec_entries().spec_members(j).contains(c));
            } else {
                assert(doc[k].0 == projected_root_key());
            }
        }
        if m.has(i, c) {
            let j = choose|j: int|
                0 <= j < keys.len() && keys[j] == i && m.spec_entries().spec_members(j).contains(c);
            let k = j + offset;
            assert(doc[k] == items[j]);
            assert(items[j].0 != projected_root_key());
        }
    }
}

/// Entries under keys other than the reserved one do not change the
/// projected root a document records.
proof fn lemma_root_unchanged_by_items(
    head: Seq<(Seq<char>, Seq<Seq<char>>)>,
    items: Seq<(Seq<char>, Seq<Seq<char>>)>,
)
    requires
        forall|j: int| 0 <= j < items.len() ==> (#[trigger] items[j]).0 != projected_root_key(),
    ensures
        stored_root(head + items) == stored_root(head),
    decreases items.len(),
{
    if items.len() == 0 {
        assert(head + items =~= head);
    } else {
        lemma_root_unchanged_by_items(head, items.drop_last());
        assert((head + items).drop_last() =~= head + items.drop_last());
        assert((head + items).last() == items[items.len() - 1]);
    }
}
} // verus!

verus! {

// ---------------------------------------------------------------------------
// Scan reconciliation of junctions
// ---------------------------------------------------------------------------

/// What a scan does about one (item id, category) pair, given whether the
/// item's metadata lists the category, whether the manifest records a
/// projected junction for it, and whether the junction is on disk.
#[derive(Clone, Copy, Debug, PartialEq, Eq, Structural)]
pub enum JunctionAction {
    /// Metadata, manifest and disk agree.
    InSync,
    /// Create the junction from metadata and record it.  A junction that
    /// was deleted in a file manager, or lost when the library moved, comes
    /// back this way: only metadata removes a category.
    Project,
    /// The junction is there already; record it.
    Record,
    /// Metadata dropped the category: remove the junction and its record.
    Unlink,
    /// Drop a record whose junction and metadata entry are both gone.
    Forget,
    /// A hand-made junction: add the category to the metadata and record it.
    Adopt,
}

/// The action for one pair; `None` when the pair appears nowhere.
pub open spec fn junction_action_of(in_metadata: bool, in_manifest: bool, on_disk: bool) -> Option<
    JunctionAction,
> {
    if in_metadata {
        if on_disk {
            if in_manifest {
                Some(JunctionAction::InSync)
            } else {
                Some(JunctionAction::Record)
            }
        } else {
            Some(JunctionAction::Project)
        }
    } else if on_disk {
        if in_manifest {
            Some(JunctionAction::Unlink)
        } else {
            Some(JunctionAction::Adopt)
        }
    } else if in_manifest {
        Some(JunctionAction::Forget)
    } else {
        None
    }
}

/// Whether the metadata lists the pair after the action.
pub open spec fn metadata_after(a: JunctionAction, in_metadata: bool) -> bool {
    match a {
        JunctionAction::Adopt => true,
        _ => in_metadata,
    }
}

/// Whether the manifest records the pair after the action.
pub open spec fn manifest_after(a: JunctionAction, in_manifest: bool) -> bool {
    match a {
        JunctionAction::Project | JunctionAction::Record | JunctionAction::Adopt => true,
        JunctionAction::Unlink | JunctionAction::Forget => false,
        JunctionAction::InSync => in_manifest,
    }
}

/// Whether the junction is on disk after the action.
pub open spec fn disk_after(a: JunctionAction, on_disk: bool) -> bool {
    match a {
        JunctionAction::Project => true,
        JunctionAction::Unlink => false,
        _ => on_disk,
    }
}

/// The action a scan takes for one pair (see [`junction_action_of`]).
pub fn junction_action(in_metadata: bool, in_manifest: bool, on_disk: bool) -> (r: Option<
    JunctionAction,
>)
    ensures
        r == junction_action_of(in_metadata, in_manifest, on_disk),
{
    if in_metadata {
        if on_disk {
            if in_manifest {
                Some(JunctionAction::InSync)
            } else {
                Some(JunctionAction::Record)
            }
        } else {
            Some(JunctionAction::Project)
        }
    } else if on_disk {
        if in_manifest {
            Some(JunctionAction::Unlink)
        } else {
            Some(JunctionAction::Adopt)
        }
    } else if in_manifest {
        Some(JunctionAction::Forget)
    } else {
        None
    }
}

/// After a scan acts on a pair, metadata, manifest and disk agree about it;
/// a pair that the metadata lists stays listed, and a category is removed
/// from an item only by its metadata.
pub proof fn law_scan_makes_junctions_agree(in_metadata: bool, in_manifest: bool, on_disk: bool)
    requires
        in_metadata || in_manifest || on_disk,
    ensures
        junction_action_of(in_metadata, in_manifest, on_disk) matches Some(a) && metadata_after(
            a,
            in_metadata,
        ) == manifest_after(a, in_manifest) && manifest_after(a, in_manifest) == disk_after(
            a,
            on_disk,
        ) && (in_metadata ==> metadata_after(a, in_metadata)),
{
}

/// Views of (item id, category) pairs.
pub open spec fn id_category_views(v: Seq<(String, String)>) -> Seq<(Seq<char>, Seq<char>)> {
    v.map_values(|p: (String, String)| (p.0@, p.1@))
}

/// The pair of a plan step.
pub open spec fn step_pair(s: (String, String, JunctionAction)) -> (Seq<char>, Seq<char>) {
    (s.0@, s.1@)
}

/// Whether a list holds the pair `p`.
fn pair_listed(v: &Vec<(String, String)>, id: &str, category: &str) -> (r: bool)
    ensures
        r == id_category_views(v@).contains((id@, category@)),
{
    let mut i: usize = 0;
    while i < v.len()
        invariant
            i <= v@.len(),
            forall|k: int| 0 <= k < i ==> id_category_views(v@)[k] != (id@, category@),
        decreases v.len() - i,
    {
        if str_eq(v[i].0.as_str(), id) && str_eq(v[i].1.as_str(), category) {
            assert(id_category_views(v@)[i as int] == (id@, category@));
            return true;
        }
        i = i + 1;
    }
    false
}

/// Whether a plan already has a step for the pair.
fn planned(plan: &Vec<(String, String, JunctionAction)>, id: &str, category: &str) -> (r: bool)
    ensures
        r == exists|k: int| 0 <= k < plan@.len() && #[trigger] step_pair(plan@[k]) == (id@, category@),
{
    let mut i: usize = 0;
    while i < plan.len()
        invariant
            i <= plan@.len(),
            forall|k: int| 0 <= k < i ==> #[trigger] step_pair(plan@[k]) != (id@, category@),
        decreases plan.len() - i,
    {
        if str_eq(plan[i].0.as_str(), id) && str_eq(plan[i].1.as_str(), category) {
            assert(step_pair(plan@[i as int]) == (id@, category@));
            return true;
        }
        i = i + 1;
    }
    false
}

/// The action that the three lists call for on a pair.
pub open spec fn planned_action(
    metadata: Seq<(String, String)>,
    manifest: Seq<(String, String)>,
    disk: Seq<(String, String)>,
    p: (Seq<char>, Seq<char>),
) -> Option<JunctionAction> {
    junction_action_of(
        id_category_views(metadata).contains(p),
        id_category_views(manifest).contains(p),
        id_category_views(disk).contains(p),
    )
}

/// A well-formed plan: one step per pair, each with the action the lists
/// call for.
pub open spec fn plan_ok(
    plan: Seq<(String, String, JunctionAction)>,
    metadata: Seq<(String, String)>,
    manifest: Seq<(String, String)>,
    disk: Seq<(String, String)>,
) -> bool {
    &&& forall|k: int|
        0 <= k < plan.len() ==> planned_action(metadata, manifest, disk, #[trigger] step_pair(plan[k]))
            == Some(plan[k].2)
    &&& forall|i: int, j: int|
        0 <= i < j < plan.len() ==> #[trigger] step_pair(plan[i]) != #[trigger] step_pair(plan[j])
}

/// Whether a plan has a step for the pair `p`.
pub open spec fn has_step(plan: Seq<(String, String, JunctionAction)>, p: (Seq<char>, Seq<char>)) -> bool {
    exists|k: int| 0 <= k < plan.len() && #[trigger] step_pair(plan[k]) == p
}

/// Whether one of the first `n` pairs of `source` is `p`.
spec fn listed_before(source: Seq<(String, String)>, n: int, p: (Seq<char>, Seq<char>)) -> bool {
    exists|m: int| 0 <= m < n && #[trigger] id_category_views(source)[m] == p
}

/// Add a step for every pair of `source` that has none yet.
fn plan_pairs(
    plan: &mut Vec<(String, String, JunctionAction)>,
    source: &Vec<(String, String)>,
    metadata: &Vec<(String, String)>,
    manifest: &Vec<(String, String)>,
    disk: &Vec<(String, String)>,
)
    requires
        plan_ok(old(plan)@, metadata@, manifest@, disk@),
        forall|p: (Seq<char>, Seq<char>)|
            #![trigger id_category_views(source@).contains(p)]
            id_category_views(source@).contains(p) ==> id_category_views(metadata@).contains(p)
                || id_category_views(manifest@).contains(p) || id_category_views(disk@).contains(p),
    ensures
        plan_ok(final(plan)@, metadata@, manifest@, disk@),
        forall|p: (Seq<char>, Seq<char>)|
            #[trigger] has_step(final(plan)@, p) <==> (has_step(old(plan)@, p) || id_category_views(
                source@,
            ).contains(p)),
{
    let ghost p0 = plan@;
    let mut i: usize = 0;
    while i < source.len()
        invariant
            i <= source@.len(),
            plan_ok(plan@, metadata@, manifest@, disk@),
            forall|p: (Seq<char>, Seq<char>)|
                #![trigger id_category_views(source@).contains(p)]
                id_category_views(source@).contains(p) ==> id_category_views(metadata@).contains(p)
                    || id_category_views(manifest@).contains(p) || id_category_views(disk@).contains(p),
            forall|p: (Seq<char>, Seq<char>)|
                #[trigger] has_step(plan@, p) <==> (has_step(p0, p) || listed_before(source@, i as int, p)),
        decreases source.len() - i,
    {
        let id = source[i].0.as_str();
        let category = source[i].1.as_str();
        let ghost p = (id@, category@);
        assert(id_category_views(source@)[i as int] == p);
        assert(id_category_views(source@).contains(p));
        let ghost before = plan@;
        if !planned(plan, id, category) {
            let in_metadata = pair_listed(metadata, id, category);
            let in_manifest = pair_listed(manifest, id, category);
            let on_disk = pair_listed(disk, id, category);
            match junction_action(in_metadata, in_manifest, on_disk) {
                Some(action) => {
                    plan.push((source[i].0.clone(), source[i].1.clone(), action));
                    assert(step_pair(plan@[before.len() as int]) == p);
                    assert forall|k: int| 0 <= k < before.len() implies #[trigger] step_pair(plan@[k])
                        == step_pair(before[k]) by {}
                },
                None => {},
            }
        }
        assert forall|q: (Seq<char>, Seq<char>)|
            #[trigger] has_step(plan@, q) <==> (has_step(p0, q) || listed_before(source@, i + 1, q)) by {
            if has_step(plan@, q) {
                let k = choose|k: int| 0 <= k < plan@.len() && #[trigger] step_pair(plan@[k]) == q;
                if k < before.len() {
                    assert(step_pair(before[k]) == q);
                    assert(has_step(before, q));
                } else {
                    assert(id_category_views(source@)[i as int] == q);
                }
            }
            if listed_before(source@, i + 1, q) {
                let m = choose|m: int| 0 <= m < i + 1 && #[trigger] id_category_views(source@)[m] == q;
                if m < i {
                    assert(listed_before(source@, i as int, q));
                } else if has_step(before, q) {
                    let k = choose|k: int| 0 <= k < before.len() && #[trigger] step_pair(before[k]) == q;
                    assert(step_pair(plan@[k]) == q);
                } else {
                    assert(step_pair(plan@[before.len() as int]) == q);
                }
            }
            if has_step(before, q) {
                let k = choose|k: int| 0 <= k < before.len() && #[trigger] step_pair(before[k]) == q;
                assert(step_pair(plan@[k]) == q);
            }
            if listed_before(source@, i as int, q) {
                let m = choose|m: int| 0 <= m < i && #[trigger] id_category_views(source@)[m] == q;
                assert(listed_before(source@, i + 1, q));
            }
        }
        i = i + 1;
    }
    assert forall|q: (Seq<char>, Seq<char>)|
        #[trigger] id_category_views(source@).contains(q) <==> listed_before(source@, source@.len() as int, q) by {
        if id_category_views(source@).contains(q) {
            let m = choose|m: int| 0 <= m < id_category_views(source@).len() && id_category_views(source@)[m] == q;
            assert(id_category_views(source@)[m] == q);
        }
    }
}

/// The scan's reconciliation plan over the (item id, category) pairs that
/// the items' metadata lists, that the manifest records, and whose
/// junctions are on disk: one step for every pair of any of the three, with
/// the action [`junction_action_of`] gives it.
pub fn plan_junctions(
    metadata: &Vec<(String, String)>,
    manifest: &Vec<(String, String)>,
    disk: &Vec<(String, String)>,
) -> (r: Vec<(String, String, JunctionAction)>)
    ensures
        plan_ok(r@, metadata@, manifest@, disk@),
        forall|p: (Seq<char>, Seq<char>)|
            #[trigger] has_step(r@, p) <==> (id_category_views(metadata@).contains(p)
                || id_category_views(manifest@).contains(p) || id_category_views(disk@).contains(p)),
{
    let mut plan: Vec<(String, String, JunctionAction)> = Vec::new();
    plan_pairs(&mut plan, metadata, metadata, manifest, disk);
    plan_pairs(&mut plan, manifest, metadata, manifest, disk);
    plan_pairs(&mut plan, disk, metadata, manifest, disk);
    plan
}

} // verus!
