//! Edits of `metadata.toml` text that keep the rest of the file as written.
//!
//! The text is parsed into a `toml_edit` document, the few entries the edit
//! concerns are changed in place, and the document is rendered again;
//! `toml_edit` keeps comments and formatting elsewhere.  The document is
//! described to the verifier by the shape of its entries ([`TomlShape`]):
//! the contracts fix the entries of the edited document, while its rendered
//! text is only named ([`document_text`]), so what survives of the original
//! formatting is not stated.

use vstd::prelude::*;
use toml_edit::{Array, DocumentMut, Item, Table, Value};
use crate::error::LocalrefError;
use crate::model::Metadata;
use crate::text::{owned, str_eq};

verus! {

#[verifier::external_type_specification]
#[verifier::external_body]
pub struct ExDocumentMut(DocumentMut);

#[verifier::external_type_specification]
#[verifier::external_body]
pub struct ExTable(Table);

#[verifier::external_type_specification]
#[verifier::external_body]
pub struct ExItem(Item);

#[verifier::external_type_specification]
#[verifier::external_body]
pub struct ExArray(Array);

/// The shape of one TOML entry, as far as these edits read it.
///
/// `Table` is a standard (bracketed) table with its entries; `Array` lists
/// an array's values, a string value as `Some(text)` and any other value as
/// `None`; `Text` is a string value; `Other` is every other kind of entry;
/// `Absent` stands for an empty placeholder entry, which TOML output omits.
pub enum TomlShape {
    Absent,
    Table(Map<Seq<char>, TomlShape>),
    Array(Seq<Option<Seq<char>>>),
    Text(Seq<char>),
    Other,
}

/// The entries of a document's root table (placeholders left out).
pub uninterp spec fn document_entries(doc: DocumentMut) -> Map<Seq<char>, TomlShape>;

/// The text that a document renders to.
pub uninterp spec fn document_text(doc: DocumentMut) -> Seq<char>;

/// The root entries of the document parsed from `text`, or `None` when the
/// text is not valid TOML.
pub uninterp spec fn parsed_entries(text: Seq<char>) -> Option<Map<Seq<char>, TomlShape>>;

/// The entries of a table (placeholders left out).
pub uninterp spec fn table_entries(t: Table) -> Map<Seq<char>, TomlShape>;

/// The shape of one entry.
pub uninterp spec fn item_shape(i: Item) -> TomlShape;

/// The values of an array.
pub uninterp spec fn array_values(a: Array) -> Seq<Option<Seq<char>>>;

/// No entries at all.
pub open spec fn no_entries() -> Map<Seq<char>, TomlShape> {
    Map::empty()
}

/// The entry under `key`, `Absent` when there is none.
pub open spec fn entry_at(m: Map<Seq<char>, TomlShape>, key: Seq<char>) -> TomlShape {
    if m.contains_key(key) {
        m[key]
    } else {
        TomlShape::Absent
    }
}

/// `m` with `key` set to `s` (an `Absent` shape removes the key).
pub open spec fn set_entry(m: Map<Seq<char>, TomlShape>, key: Seq<char>, s: TomlShape) -> Map<
    Seq<char>,
    TomlShape,
> {
    if s is Absent {
        m.remove(key)
    } else {
        m.insert(key, s)
    }
}

/// The values of an array entry; no values for any other entry.
pub open spec fn array_of(s: TomlShape) -> Seq<Option<Seq<char>>> {
    match s {
        TomlShape::Array(values) => values,
        _ => Seq::empty(),
    }
}

/// The entries of a table entry; no entries for any other entry.
pub open spec fn table_of(s: TomlShape) -> Map<Seq<char>, TomlShape> {
    match s {
        TomlShape::Table(m) => m,
        _ => Map::empty(),
    }
}

/// Parse `text` as a TOML document (`str::parse::<DocumentMut>`); the error
/// is the parser's message.
#[verifier::external_body]
fn parse_document(text: &str) -> (r: Result<DocumentMut, String>)
    ensures
        match r {
            Ok(doc) => parsed_entries(text@) == Some(document_entries(doc)),
            Err(_) => parsed_entries(text@) is None,
        },
{
    match text.parse::<DocumentMut>() {
        Ok(doc) => Ok(doc),
        Err(error) => Err(error.to_string()),
    }
}

/// Render a document (`DocumentMut`'s `Display`).
#[verifier::external_body]
pub(crate) fn render_document(doc: &DocumentMut) -> (r: String)
    ensures
        r@ == document_text(*doc),
{
    doc.to_string()
}

/// A new document with no entries (`DocumentMut::new`).
#[verifier::external_body]
pub(crate) fn new_document() -> (r: DocumentMut)
    ensures
        document_entries(r) == no_entries(),
{
    DocumentMut::new()
}

/// The root table of a document (`DocumentMut::as_table_mut`).
#[verifier::external_body]
pub(crate) fn document_root_mut(doc: &mut DocumentMut) -> (r: &mut Table)
    ensures
        table_entries(*r) == document_entries(*old(doc)),
        document_entries(*final(doc)) == table_entries(*final(r)),
{
    doc.as_table_mut()
}

/// Whether a table holds a non-placeholder entry under `key`
/// (`Table::contains_key`).
#[verifier::external_body]
fn table_contains_key(t: &Table, key: &str) -> (r: bool)
    ensures
        r == table_entries(*t).contains_key(key@),
{
    t.contains_key(key)
}

/// The entry under `key`, a placeholder being added when there is none
/// (`Table`'s `IndexMut`).
#[verifier::external_body]
fn table_index_mut<'a>(t: &'a mut Table, key: &str) -> (r: &'a mut Item)
    ensures
        item_shape(*r) == entry_at(table_entries(*old(t)), key@),
        table_entries(*old(t)).contains_key(key@) ==> !(item_shape(*r) is Absent),
        table_entries(*final(t)) == set_entry(table_entries(*old(t)), key@, item_shape(*final(r))),
{
    &mut t[key]
}

/// Set the entry under `key` (`Table::insert`).
#[verifier::external_body]
pub(crate) fn table_insert(t: &mut Table, key: &str, item: Item)
    ensures
        table_entries(*final(t)) == set_entry(table_entries(*old(t)), key@, item_shape(item)),
{
    let _ = t.insert(key, item);
}

/// Remove the entry under `key` (`Table::remove`).
#[verifier::external_body]
fn table_remove(t: &mut Table, key: &str)
    ensures
        table_entries(*final(t)) == table_entries(*old(t)).remove(key@),
{
    let _ = t.remove(key);
}

/// Whether a table has no entries (`Table::is_empty`).
#[verifier::external_body]
fn table_is_empty(t: &Table) -> (r: bool)
    ensures
        r == (table_entries(*t).dom() == Set::<Seq<char>>::empty()),
{
    t.is_empty()
}

/// Mark a table implicit or not (`Table::set_implicit`); this only decides
/// whether an otherwise empty table prints its header.
#[verifier::external_body]
fn table_set_implicit(t: &mut Table, implicit: bool)
    ensures
        table_entries(*final(t)) == table_entries(*old(t)),
{
    t.set_implicit(implicit)
}

/// A new empty table entry (`Table::new`).
#[verifier::external_body]
fn new_table_item() -> (r: Item)
    ensures
        item_shape(r) == TomlShape::Table(Map::empty()),
{
    Item::Table(Table::new())
}

/// A new empty array entry (`Array::new`).
#[verifier::external_body]
pub(crate) fn new_array_item() -> (r: Item)
    ensures
        item_shape(r) == TomlShape::Array(Seq::empty()),
{
    Item::Value(Value::Array(Array::new()))
}

/// A string entry (`toml_edit::value`).
#[verifier::external_body]
fn text_item(text: &str) -> (r: Item)
    ensures
        item_shape(r) == TomlShape::Text(text@),
{
    toml_edit::value(text)
}

/// The table inside a table entry (`Item::as_table_mut`).
#[verifier::external_body]
fn item_as_table_mut<'a>(i: &'a mut Item) -> (r: Option<&'a mut Table>)
    ensures
        r is Some <==> item_shape(*old(i)) is Table,
        r is None ==> *final(i) == *old(i),
        r matches Some(t) ==> TomlShape::Table(table_entries(*t)) == item_shape(*old(i))
            && item_shape(*final(i)) == TomlShape::Table(table_entries(*final(t))),
{
    i.as_table_mut()
}

/// The array inside an array entry (`Item::as_array_mut`).
#[verifier::external_body]
pub(crate) fn item_as_array_mut<'a>(i: &'a mut Item) -> (r: Option<&'a mut Array>)
    ensures
        r is Some <==> item_shape(*old(i)) is Array,
        r is None ==> *final(i) == *old(i),
        r matches Some(a) ==> TomlShape::Array(array_values(*a)) == item_shape(*old(i))
            && item_shape(*final(i)) == TomlShape::Array(array_values(*final(a))),
{
    i.as_array_mut()
}

/// The number of values in an array (`Array::len`).
#[verifier::external_body]
fn array_len(a: &Array) -> (r: usize)
    ensures
        r == array_values(*a).len(),
{
    a.len()
}

/// The string at position `index`, `None` for a value of another kind
/// (`Array::get`, then `Value::as_str`).
#[verifier::external_body]
fn array_text_at(a: &Array, index: usize) -> (r: Option<String>)
    requires
        index < array_values(*a).len(),
    ensures
        match r {
            Some(s) => array_values(*a)[index as int] == Some(s@),
            None => array_values(*a)[index as int] is None,
        },
{
    a.get(index).and_then(Value::as_str).map(str::to_owned)
}

/// Append a string value (`Array::push`).
#[verifier::external_body]
pub(crate) fn array_push(a: &mut Array, text: &str)
    ensures
        array_values(*final(a)) == array_values(*old(a)).push(Some(text@)),
{
    a.push(text)
}

/// Remove the value at position `index` (`Array::remove`); the arrays that
/// `toml_edit` builds hold values only, so the removal does not panic.
#[verifier::external_body]
fn array_remove_at(a: &mut Array, index: usize)
    requires
        index < array_values(*old(a)).len(),
    ensures
        array_values(*final(a)) == array_values(*old(a)).remove(index as int),
{
    let _ = a.remove(index);
}


/// An optional string slice as text.
pub open spec fn opt_text(value: Option<&str>) -> Option<Seq<char>> {
    match value {
        Some(v) => Some(v@),
        None => None,
    }
}

/// The values of a list as text.
pub open spec fn texts(values: Seq<&str>) -> Seq<Seq<char>> {
    values.map_values(|v: &str| v@)
}

/// `values` with the string `v` appended unless it is already there.
pub open spec fn with_value(values: Seq<Option<Seq<char>>>, v: Seq<char>) -> Seq<Option<Seq<char>>> {
    if values.contains(Some(v)) {
        values
    } else {
        values.push(Some(v))
    }
}

/// `values` with each of `vs` added in turn by [`with_value`].
pub open spec fn with_values(values: Seq<Option<Seq<char>>>, vs: Seq<Seq<char>>) -> Seq<
    Option<Seq<char>>,
>
    decreases vs.len(),
{
    if vs.len() == 0 {
        values
    } else {
        with_value(with_values(values, vs.drop_last()), vs.last())
    }
}

/// `values` without any occurrence of the string `v`, the rest in order.
pub open spec fn without_value(values: Seq<Option<Seq<char>>>, v: Seq<char>) -> Seq<
    Option<Seq<char>>,
>
    decreases values.len(),
{
    if values.len() == 0 {
        values
    } else {
        let rest = without_value(values.drop_last(), v);
        if values.last() == Some(v) {
            rest
        } else {
            rest.push(values.last())
        }
    }
}

/// `values` with each of `vs` removed in turn by [`without_value`].
pub open spec fn without_values(values: Seq<Option<Seq<char>>>, vs: Seq<Seq<char>>) -> Seq<
    Option<Seq<char>>,
>
    decreases vs.len(),
{
    if vs.len() == 0 {
        values
    } else {
        without_value(without_values(values, vs.drop_last()), vs.last())
    }
}

/// Whether an array holds the string `text`.
fn array_contains(a: &Array, text: &str) -> (r: bool)
    ensures
        r == array_values(*a).contains(Some(text@)),
{
    let n = array_len(a);
    let mut i: usize = 0;
    while i < n
        invariant
            n == array_values(*a).len(),
            i <= n,
            forall|k: int| 0 <= k < i ==> array_values(*a)[k] != Some(text@),
        decreases n - i,
    {
        match array_text_at(a, i) {
            Some(s) => {
                if str_eq(s.as_str(), text) {
                    assert(array_values(*a)[i as int] == Some(text@));
                    return true;
                }
            },
            None => {},
        }
        i += 1;
    }
    false
}

/// Remove every occurrence of the string `text` from an array.
fn array_remove_text(a: &mut Array, text: &str)
    ensures
        array_values(*final(a)) == without_value(array_values(*old(a)), text@),
{
    let ghost e0 = array_values(*a);
    let ghost mut j: int = 0;
    let mut i: usize = 0;
    proof {
        assert(e0.subrange(0, 0) =~= Seq::<Option<Seq<char>>>::empty());
        assert(e0.subrange(0, e0.len() as int) =~= e0);
    }
    while i < array_len(a)
        invariant
            0 <= j <= e0.len(),
            array_values(*a) == without_value(e0.subrange(0, j), text@) + e0.subrange(
                j,
                e0.len() as int,
            ),
            i == without_value(e0.subrange(0, j), text@).len(),
        decreases e0.len() - j,
    {
        let ghost w = without_value(e0.subrange(0, j), text@);
        assert(array_values(*a)[i as int] == e0[j]);
        let hit = match array_text_at(a, i) {
            Some(s) => str_eq(s.as_str(), text),
            None => false,
        };
        assert(e0.subrange(0, j + 1).drop_last() =~= e0.subrange(0, j));
        assert(e0.subrange(0, j + 1).last() == e0[j]);
        if hit {
            array_remove_at(a, i);
            assert(array_values(*a) =~= w + e0.subrange(j + 1, e0.len() as int));
        } else {
            assert(array_values(*a) =~= w.push(e0[j]) + e0.subrange(j + 1, e0.len() as int));
            i += 1;
        }
        proof {
            j = j + 1;
        }
    }
    assert(e0.subrange(0, j) =~= e0);
    assert(array_values(*a) =~= without_value(e0, text@));
}

/// Add the string `text` to an array entry unless it is already there; an
/// entry of another kind is left as it is.
fn array_insert(item: &mut Item, text: &str)
    ensures
        item_shape(*final(item)) == match item_shape(*old(item)) {
            TomlShape::Array(values) => TomlShape::Array(with_value(values, text@)),
            other => other,
        },
{
    match item_as_array_mut(item) {
        Some(a) => {
            if !array_contains(&*a, text) {
                array_push(a, text);
            }
        },
        None => {},
    }
}

/// Remove every occurrence of the string `text` from an array entry; an
/// entry of another kind is left as it is.
fn array_remove(item: &mut Item, text: &str)
    ensures
        item_shape(*final(item)) == match item_shape(*old(item)) {
            TomlShape::Array(values) => TomlShape::Array(without_value(values, text@)),
            other => other,
        },
{
    match item_as_array_mut(item) {
        Some(a) => {
            array_remove_text(a, text);
        },
        None => {},
    }
}

/// Make the entry under `key` an array, replacing an entry of another kind
/// (or none) by an empty one.
fn ensure_string_array(t: &mut Table, key: &str)
    ensures
        table_entries(*final(t)) == table_entries(*old(t)).insert(
            key@,
            TomlShape::Array(array_of(entry_at(table_entries(*old(t)), key@))),
        ),
{
    let ghost m0 = table_entries(*t);
    let is_array = if table_contains_key(t, key) {
        let item = table_index_mut(t, key);
        let found = item_as_array_mut(item);
        found.is_some()
    } else {
        false
    };
    if !is_array {
        table_insert(t, key, new_array_item());
    } else {
        assert(table_entries(*t) =~= m0.insert(key@, TomlShape::Array(array_of(entry_at(m0, key@)))));
    }
}

/// Add each of `values` in turn to the array under `key`.
fn insert_all(t: &mut Table, key: &str, values: &[&str])
    requires
        entry_at(table_entries(*old(t)), key@) is Array,
    ensures
        table_entries(*final(t)) == table_entries(*old(t)).insert(
            key@,
            TomlShape::Array(
                with_values(array_of(entry_at(table_entries(*old(t)), key@)), texts(values@)),
            ),
        ),
{
    let ghost m0 = table_entries(*t);
    let ghost e0 = array_of(entry_at(m0, key@));
    assert(m0 =~= m0.insert(key@, TomlShape::Array(with_values(e0, texts(values@).subrange(0, 0)))));
    let mut i: usize = 0;
    while i < values.len()
        invariant
            i <= values.len(),
            entry_at(m0, key@) is Array,
            e0 == array_of(entry_at(m0, key@)),
            table_entries(*t) == m0.insert(
                key@,
                TomlShape::Array(with_values(e0, texts(values@).subrange(0, i as int))),
            ),
        decreases values.len() - i,
    {
        let item = table_index_mut(t, key);
        array_insert(item, values[i]);
        assert(texts(values@).subrange(0, i + 1).drop_last() =~= texts(values@).subrange(0, i as int));
        i += 1;
        assert(table_entries(*t) =~= m0.insert(
            key@,
            TomlShape::Array(with_values(e0, texts(values@).subrange(0, i as int))),
        ));
    }
    assert(texts(values@).subrange(0, values.len() as int) =~= texts(values@));
}

/// Remove each of `values` in turn from the array under `key`.
fn remove_all(t: &mut Table, key: &str, values: &[&str])
    requires
        entry_at(table_entries(*old(t)), key@) is Array,
    ensures
        table_entries(*final(t)) == table_entries(*old(t)).insert(
            key@,
            TomlShape::Array(
                without_values(array_of(entry_at(table_entries(*old(t)), key@)), texts(values@)),
            ),
        ),
{
    let ghost m0 = table_entries(*t);
    let ghost e0 = array_of(entry_at(m0, key@));
    assert(m0 =~= m0.insert(key@, TomlShape::Array(without_values(e0, texts(values@).subrange(0, 0)))));
    let mut i: usize = 0;
    while i < values.len()
        invariant
            i <= values.len(),
            entry_at(m0, key@) is Array,
            e0 == array_of(entry_at(m0, key@)),
            table_entries(*t) == m0.insert(
                key@,
                TomlShape::Array(without_values(e0, texts(values@).subrange(0, i as int))),
            ),
        decreases values.len() - i,
    {
        let item = table_index_mut(t, key);
        array_remove(item, values[i]);
        assert(texts(values@).subrange(0, i + 1).drop_last() =~= texts(values@).subrange(0, i as int));
        i += 1;
        assert(table_entries(*t) =~= m0.insert(
            key@,
            TomlShape::Array(without_values(e0, texts(values@).subrange(0, i as int))),
        ));
    }
    assert(texts(values@).subrange(0, values.len() as int) =~= texts(values@));
}


/// The root entries after a category edit: `add` joins `categories` (once)
/// and leaves the `[state].removed_categories` tombstones; `remove` leaves
/// `categories` and becomes a tombstone; `drop` leaves both lists.  The lists
/// are applied in order: `add`, then `remove`, then `drop`.  A `categories`
/// entry that is not an array, or a `state` entry that is not a table, is
/// replaced by an empty one first; every other root entry stays.
pub open spec fn category_edits(
    root: Map<Seq<char>, TomlShape>,
    add: Seq<Seq<char>>,
    remove: Seq<Seq<char>>,
    drop: Seq<Seq<char>>,
) -> Map<Seq<char>, TomlShape> {
    let categories = without_values(
        without_values(with_values(array_of(entry_at(root, "categories"@)), add), remove),
        drop,
    );
    let state = table_of(entry_at(root, "state"@));
    let tombstones = with_values(
        without_values(without_values(array_of(entry_at(state, "removed_categories"@)), add), drop),
        remove,
    );
    root.insert("categories"@, TomlShape::Array(categories)).insert(
        "state"@,
        TomlShape::Table(state.insert("removed_categories"@, TomlShape::Array(tombstones))),
    )
}

/// The `extra` table after setting (`Some`) or clearing (`None`) the value
/// `key` of the namespace `ns`.  Setting creates the namespace table when
/// there is none, and changes nothing when the namespace is not a table;
/// clearing drops the namespace when it is left empty.
pub open spec fn extra_namespace_edit(
    extra: Map<Seq<char>, TomlShape>,
    ns: Seq<char>,
    key: Seq<char>,
    value: Option<Seq<char>>,
) -> Map<Seq<char>, TomlShape> {
    match value {
        Some(v) => {
            let with_ns = if extra.contains_key(ns) {
                extra
            } else {
                extra.insert(ns, TomlShape::Table(Map::empty()))
            };
            match with_ns[ns] {
                TomlShape::Table(m) => with_ns.insert(ns, TomlShape::Table(m.insert(key, TomlShape::Text(v)))),
                _ => with_ns,
            }
        },
        None => {
            if extra.contains_key(ns) && extra[ns] is Table {
                let m = table_of(extra[ns]).remove(key);
                if m.dom() == Set::<Seq<char>>::empty() {
                    extra.remove(ns)
                } else {
                    extra.insert(ns, TomlShape::Table(m))
                }
            } else {
                extra
            }
        },
    }
}

/// The root entries after an `extra` edit, or `None` when `extra` is there
/// but is not a table.  A missing `extra` table is created.
pub open spec fn extra_edit(
    root: Map<Seq<char>, TomlShape>,
    ns: Seq<char>,
    key: Seq<char>,
    value: Option<Seq<char>>,
) -> Option<Map<Seq<char>, TomlShape>> {
    let with_extra = if root.contains_key("extra"@) {
        root
    } else {
        root.insert("extra"@, TomlShape::Table(Map::empty()))
    };
    match with_extra["extra"@] {
        TomlShape::Table(extra) => Some(
            with_extra.insert("extra"@, TomlShape::Table(extra_namespace_edit(extra, ns, key, value))),
        ),
        _ => None,
    }
}

/// The keys these edits touch differ from one another.
proof fn lemma_keys_distinct()
    ensures
        "categories"@ != "state"@,
{
    reveal_strlit("categories");
    reveal_strlit("state");
    assert("categories"@.len() == 10);
    assert("state"@.len() == 5);
}

/// Apply a category edit to a root table.
fn edit_categories(root: &mut Table, add: &[&str], remove: &[&str], drop: &[&str])
    ensures
        table_entries(*final(root)) == category_edits(
            table_entries(*old(root)),
            texts(add@),
            texts(remove@),
            texts(drop@),
        ),
{
    let ghost m0 = table_entries(*root);
    proof {
        lemma_keys_distinct();
    }
    ensure_string_array(root, "categories");
    insert_all(root, "categories", add);
    remove_all(root, "categories", remove);
    remove_all(root, "categories", drop);
    let ghost m1 = table_entries(*root);
    assert(entry_at(m1, "state"@) == entry_at(m0, "state"@));
    let has_state = if table_contains_key(root, "state") {
        let item = table_index_mut(root, "state");
        let found = item_as_table_mut(item);
        found.is_some()
    } else {
        false
    };
    if !has_state {
        table_insert(root, "state", new_table_item());
    }
    let ghost m2 = table_entries(*root);
    assert(m2 =~= m1.insert("state"@, TomlShape::Table(table_of(entry_at(m0, "state"@)))));
    let ghost s0 = table_of(entry_at(m0, "state"@));
    let ghost tomb = with_values(
        without_values(without_values(array_of(entry_at(s0, "removed_categories"@)), texts(add@)), texts(drop@)),
        texts(remove@),
    );
    let item = table_index_mut(root, "state");
    match item_as_table_mut(item) {
        Some(state) => {
            table_set_implicit(state, false);
            ensure_string_array(state, "removed_categories");
            remove_all(state, "removed_categories", add);
            remove_all(state, "removed_categories", drop);
            insert_all(state, "removed_categories", remove);
            assert(table_entries(*state) =~= s0.insert("removed_categories"@, TomlShape::Array(tomb)));
        },
        None => {},
    }
    assert(table_entries(*root) == m2.insert("state"@, TomlShape::Table(s0.insert("removed_categories"@, TomlShape::Array(tomb)))));
    assert(table_entries(*root) =~= category_edits(m0, texts(add@), texts(remove@), texts(drop@)));
}

/// Apply an `extra` edit to a root table; `false` when `extra` is not a table.
fn edit_extra(root: &mut Table, namespace: &str, key: &str, value: Option<&str>) -> (ok: bool)
    ensures
        match extra_edit(table_entries(*old(root)), namespace@, key@, opt_text(value)) {
            Some(m) => ok && table_entries(*final(root)) == m,
            None => !ok,
        },
{
    let ghost m0 = table_entries(*root);
    if !table_contains_key(root, "extra") {
        table_insert(root, "extra", new_table_item());
    }
    let item = table_index_mut(root, "extra");
    match item_as_table_mut(item) {
        None => false,
        Some(extra) => {
            let ghost x0 = table_entries(*extra);
            table_set_implicit(extra, true);
            match value {
                Some(v) => {
                    if !table_contains_key(extra, namespace) {
                        table_insert(extra, namespace, new_table_item());
                    }
                    let ns_item = table_index_mut(extra, namespace);
                    match item_as_table_mut(ns_item) {
                        Some(ns) => {
                            table_insert(ns, key, text_item(v));
                        },
                        None => {},
                    }
                },
                None => {
                    if table_contains_key(extra, namespace) {
                        let ns_item = table_index_mut(extra, namespace);
                        let prune = match item_as_table_mut(ns_item) {
                            Some(ns) => {
                                table_remove(ns, key);
                                table_is_empty(&*ns)
                            },
                            None => false,
                        };
                        if prune {
                            table_remove(extra, namespace);
                        }
                    }
                },
            }
            assert(table_entries(*extra) =~= extra_namespace_edit(
                x0,
                namespace@,
                key@,
                opt_text(value),
            ));
            true
        },
    }
}

impl Metadata {
    /// Apply category membership edits to `metadata.toml` text in place.
    ///
    /// `add` joins the top-level `categories` array (once) and is cleared from
    /// the `[state].removed_categories` tombstones; `remove` leaves
    /// `categories` and is recorded as a tombstone, so automatic filing will
    /// not bring it back; `drop` leaves `categories` without a tombstone (for
    /// renames and merges).  The lists are applied in that order.  Comments and
    /// formatting elsewhere in the text are kept.  Fails exactly when the
    /// text is not valid TOML.
    pub fn apply_category_edits(text: &str, add: &[&str], remove: &[&str], drop: &[&str]) -> (r:
        Result<String, LocalrefError>)
        ensures
            match r {
                Ok(s) => match parsed_entries(text@) {
                    Some(root) => exists|doc: DocumentMut|
                        #[trigger] document_text(doc) == s@ && document_entries(doc)
                            == category_edits(root, texts(add@), texts(remove@), texts(drop@)),
                    None => false,
                },
                Err(e) => parsed_entries(text@) is None && e is TomlDe,
            },
    {
        let mut doc = match parse_document(text) {
            Ok(doc) => doc,
            Err(message) => return Err(LocalrefError::TomlDe(message)),
        };
        let ghost root0 = document_entries(doc);
        let root = document_root_mut(&mut doc);
        edit_categories(root, add, remove, drop);
        let out = render_document(&doc);
        assert(document_text(doc) == out@);
        Ok(out)
    }

    /// Set (`Some`) or clear (`None`) one plugin value
    /// `[extra.<namespace>] <key>` in `metadata.toml` text in place.
    ///
    /// Setting creates the tables as needed; clearing prunes the namespace
    /// table once it is empty.  Comments and formatting elsewhere are kept.
    /// Fails when the text is not valid TOML, and when `extra` is present but
    /// is not a table.
    pub fn apply_extra_edit(text: &str, namespace: &str, key: &str, value: Option<&str>) -> (r:
        Result<String, LocalrefError>)
        ensures
            match parsed_entries(text@) {
                None => r matches Err(e) && e is TomlDe,
                Some(root) => match extra_edit(root, namespace@, key@, opt_text(value)) {
                    Some(m) => r matches Ok(s) && exists|doc: DocumentMut|
                        #[trigger] document_text(doc) == s@ && document_entries(doc) == m,
                    None => r matches Err(e) && e == (LocalrefError::InvalidPathComponent {
                        component: e->component,
                        reason: e->reason,
                    }) && e->component@ == "extra"@ && e->reason@ == "metadata.extra is not a table"@,
                },
            },
    {
        let mut doc = match parse_document(text) {
            Ok(doc) => doc,
            Err(message) => return Err(LocalrefError::TomlDe(message)),
        };
        let root = document_root_mut(&mut doc);
        let ok = edit_extra(root, namespace, key, value);
        if !ok {
            return Err(LocalrefError::InvalidPathComponent {
                component: owned("extra"),
                reason: owned("metadata.extra is not a table"),
            });
        }
        let out = render_document(&doc);
        assert(document_text(doc) == out@);
        Ok(out)
    }
}

} // verus!

verus! {

/// What [`with_value`] holds: the old values and `v`.
proof fn lemma_with_value_contains(values: Seq<Option<Seq<char>>>, v: Seq<char>, x: Option<Seq<char>>)
    ensures
        with_value(values, v).contains(x) <==> values.contains(x) || x == Some(v),
{
    if !values.contains(Some(v)) {
        let p = values.push(Some(v));
        if values.contains(x) {
            let i = choose|i: int| 0 <= i < values.len() && values[i] == x;
            assert(p[i] == x);
        }
        if x == Some(v) {
            assert(p[values.len() as int] == x);
        }
        if p.contains(x) {
            let i = choose|i: int| 0 <= i < p.len() && p[i] == x;
            if i < values.len() {
                assert(values[i] == x);
            }
        }
    }
}

/// What [`without_value`] holds: the old values other than `v`.
proof fn lemma_without_value_contains(values: Seq<Option<Seq<char>>>, v: Seq<char>, x: Option<Seq<char>>)
    ensures
        without_value(values, v).contains(x) <==> values.contains(x) && x != Some(v),
    decreases values.len(),
{
    if values.len() > 0 {
        let init = values.drop_last();
        lemma_without_value_contains(init, v, x);
        let rest = without_value(init, v);
        assert(values =~= init.push(values.last()));
        if values.contains(x) {
            let i = choose|i: int| 0 <= i < values.len() && values[i] == x;
            if i < init.len() {
                assert(init[i] == x);
            }
        }
        if init.contains(x) {
            let i = choose|i: int| 0 <= i < init.len() && init[i] == x;
            assert(values[i] == x);
        }
        if values.last() != Some(v) {
            let p = rest.push(values.last());
            if rest.contains(x) {
                let i = choose|i: int| 0 <= i < rest.len() && rest[i] == x;
                assert(p[i] == x);
            }
            assert(p[rest.len() as int] == values.last());
            if p.contains(x) {
                let i = choose|i: int| 0 <= i < p.len() && p[i] == x;
                if i < rest.len() {
                    assert(rest[i] == x);
                }
            }
        }
    }
}

/// What [`with_values`] holds: the old values and every one of `vs`.
proof fn lemma_with_values_contains(values: Seq<Option<Seq<char>>>, vs: Seq<Seq<char>>, x: Seq<char>)
    ensures
        with_values(values, vs).contains(Some(x)) <==> values.contains(Some(x)) || vs.contains(x),
    decreases vs.len(),
{
    if vs.len() > 0 {
        let init = vs.drop_last();
        lemma_with_values_contains(values, init, x);
        lemma_with_value_contains(with_values(values, init), vs.last(), Some(x));
        assert(vs =~= init.push(vs.last()));
        if vs.contains(x) {
            let i = choose|i: int| 0 <= i < vs.len() && vs[i] == x;
            if i < init.len() {
                assert(init[i] == x);
            }
        }
        if init.contains(x) {
            let i = choose|i: int| 0 <= i < init.len() && init[i] == x;
            assert(vs[i] == x);
        }
        assert(vs[vs.len() - 1] == vs.last());
    }
}

/// What [`without_values`] holds: the old values other than those of `vs`.
proof fn lemma_without_values_contains(values: Seq<Option<Seq<char>>>, vs: Seq<Seq<char>>, x: Seq<char>)
    ensures
        without_values(values, vs).contains(Some(x)) <==> values.contains(Some(x)) && !vs.contains(x),
    decreases vs.len(),
{
    if vs.len() > 0 {
        let init = vs.drop_last();
        lemma_without_values_contains(values, init, x);
        lemma_without_value_contains(without_values(values, init), vs.last(), Some(x));
        assert(vs =~= init.push(vs.last()));
        if vs.contains(x) {
            let i = choose|i: int| 0 <= i < vs.len() && vs[i] == x;
            if i < init.len() {
                assert(init[i] == x);
            }
        }
        if init.contains(x) {
            let i = choose|i: int| 0 <= i < init.len() && init[i] == x;
            assert(vs[i] == x);
        }
        assert(vs[vs.len() - 1] == vs.last());
    }
}

/// The filed categories of a root table.
pub open spec fn filed_categories(root: Map<Seq<char>, TomlShape>) -> Seq<Option<Seq<char>>> {
    array_of(entry_at(root, "categories"@))
}

/// The category tombstones of a root table.
pub open spec fn category_tombstones(root: Map<Seq<char>, TomlShape>) -> Seq<Option<Seq<char>>> {
    array_of(entry_at(table_of(entry_at(root, "state"@)), "removed_categories"@))
}

/// After a category edit, a category is filed exactly when it was filed or
/// added, and neither removed nor dropped; it is tombstoned exactly when it
/// was removed, or was tombstoned before and neither added nor dropped.  No
/// root entry but `categories` and `state` changes.
pub proof fn law_category_edit_membership(
    root: Map<Seq<char>, TomlShape>,
    add: Seq<Seq<char>>,
    remove: Seq<Seq<char>>,
    drop: Seq<Seq<char>>,
    c: Seq<char>,
)
    ensures
        filed_categories(category_edits(root, add, remove, drop)).contains(Some(c)) <==> (
        filed_categories(root).contains(Some(c)) || add.contains(c)) && !remove.contains(c)
            && !drop.contains(c),
        category_tombstones(category_edits(root, add, remove, drop)).contains(Some(c)) <==> remove.contains(c)
            || (category_tombstones(root).contains(Some(c)) && !add.contains(c) && !drop.contains(c)),
        forall|k: Seq<char>|
            k != "categories"@ && k != "state"@ ==> entry_at(category_edits(root, add, remove, drop), k)
                == entry_at(root, k),
{
    lemma_keys_distinct();
    let cats0 = filed_categories(root);
    lemma_with_values_contains(cats0, add, c);
    lemma_without_values_contains(with_values(cats0, add), remove, c);
    lemma_without_values_contains(without_values(with_values(cats0, add), remove), drop, c);
    let t0 = category_tombstones(root);
    lemma_without_values_contains(t0, add, c);
    lemma_without_values_contains(without_values(t0, add), drop, c);
    lemma_with_values_contains(without_values(without_values(t0, add), drop), remove, c);
}

/// Setting an `extra` value succeeds whenever `extra` is absent or a table,
/// and the namespace then holds the value, unless the namespace is present
/// and not a table.
pub proof fn law_extra_set_reads_back(
    root: Map<Seq<char>, TomlShape>,
    ns: Seq<char>,
    key: Seq<char>,
    v: Seq<char>,
)
    requires
        !root.contains_key("extra"@) || root["extra"@] is Table,
        !table_of(entry_at(root, "extra"@)).contains_key(ns) || table_of(entry_at(root, "extra"@))[ns] is Table,
    ensures
        extra_edit(root, ns, key, Some(v)) is Some,
        entry_at(
            table_of(entry_at(table_of(entry_at(extra_edit(root, ns, key, Some(v))->0, "extra"@)), ns)),
            key,
        ) == TomlShape::Text(v),
{
}

/// Clearing an `extra` value leaves no value under its key, and a namespace
/// that a value was just set in, and that did not exist before, is gone
/// again.
pub proof fn law_extra_clear_removes(
    root: Map<Seq<char>, TomlShape>,
    ns: Seq<char>,
    key: Seq<char>,
    v: Seq<char>,
)
    requires
        !root.contains_key("extra"@) || root["extra"@] is Table,
    ensures
        extra_edit(root, ns, key, None) is Some,
        !table_of(entry_at(table_of(entry_at(extra_edit(root, ns, key, None)->0, "extra"@)), ns)).contains_key(key),
        !table_of(entry_at(root, "extra"@)).contains_key(ns) ==> !table_of(
            entry_at(
                extra_edit(extra_edit(root, ns, key, Some(v))->0, ns, key, None)->0,
                "extra"@,
            ),
        ).contains_key(ns),
{
    let set = extra_edit(root, ns, key, Some(v))->0;
    if !table_of(entry_at(root, "extra"@)).contains_key(ns) {
        let m = Map::<Seq<char>, TomlShape>::empty().insert(key, TomlShape::Text(v));
        assert(m.remove(key).dom() =~= Set::<Seq<char>>::empty());
    }
}

/// Setting a value in a namespace that `extra` does not have, then clearing
/// it, gives back the `extra` table as it was (the emptied namespace is
/// pruned); no other root entry changes, and when `extra` was there the
/// root entries are exactly as before.
pub proof fn law_extra_set_then_clear_restores(
    root: Map<Seq<char>, TomlShape>,
    ns: Seq<char>,
    key: Seq<char>,
    v: Seq<char>,
)
    requires
        !root.contains_key("extra"@) || root["extra"@] is Table,
        !table_of(entry_at(root, "extra"@)).contains_key(ns),
    ensures
        extra_edit(root, ns, key, Some(v)) is Some,
        extra_edit(extra_edit(root, ns, key, Some(v))->0, ns, key, None) is Some,
        table_of(entry_at(extra_edit(extra_edit(root, ns, key, Some(v))->0, ns, key, None)->0, "extra"@))
            == table_of(entry_at(root, "extra"@)),
        forall|k: Seq<char>|
            k != "extra"@ ==> entry_at(
                extra_edit(extra_edit(root, ns, key, Some(v))->0, ns, key, None)->0,
                k,
            ) == entry_at(root, k),
        root.contains_key("extra"@) ==> extra_edit(extra_edit(root, ns, key, Some(v))->0, ns, key, None)->0
            == root,
{
    let extra0 = table_of(entry_at(root, "extra"@));
    let set = extra_edit(root, ns, key, Some(v))->0;
    let m = Map::<Seq<char>, TomlShape>::empty().insert(key, TomlShape::Text(v));
    assert(m.remove(key).dom() =~= Set::<Seq<char>>::empty());
    let extra1 = extra0.insert(ns, TomlShape::Table(m));
    assert(table_of(entry_at(set, "extra"@)) == extra1);
    assert(extra1.remove(ns) =~= extra0);
    let after = extra_edit(set, ns, key, None)->0;
    assert(table_of(entry_at(after, "extra"@)) == extra0);
    if root.contains_key("extra"@) {
        assert(after =~= root);
    }
}

} // verus!
