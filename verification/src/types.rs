//! Shared value types: validated identifiers and library paths.

use vstd::prelude::*;
use crate::text::{
    blank, chars_of, is_blank, join, join_path, owned, replace_char, replace_char_chars, split,
    split_chars, string_of, strip_char, strip_char_chars, trim, trim_chars,
};

verus! {

/// Stable identifier for a Localref literature item (never blank).
#[derive(Clone, Debug, PartialEq, Eq, Hash)]
pub struct ItemId(String);

impl View for ItemId {
    type V = Seq<char>;

    open spec fn view(&self) -> Seq<char> {
        self.spec_text()
    }
}

impl ItemId {
    /// The identifier text.
    pub closed spec fn spec_text(&self) -> Seq<char> {
        self.0@
    }

    /// Create an item id; blank text (empty or whitespace only) is refused.
    pub fn new(value: &str) -> (r: Option<ItemId>)
        ensures
            r is None <==> is_blank(value@),
            r matches Some(id) ==> id@ == value@,
    {
        if blank(value) {
            None
        } else {
            Some(ItemId(owned(value)))
        }
    }

    /// A duplicate of this id, equal to it.
    pub fn duplicate(&self) -> (r: ItemId)
        ensures
            r == *self,
    {
        ItemId(self.0.clone())
    }

    /// Return the item id as a string slice.
    pub fn as_str(&self) -> (r: &str)
        ensures
            r@ == self@,
    {
        self.0.as_str()
    }
}

/// Text of a category path after normalisation: trimmed, stripped of
/// leading/trailing `/`, with `\` turned into `/`.
pub open spec fn category_norm(s: Seq<char>) -> Seq<char> {
    replace_char(strip_char(trim(s), '/'), '\\', '/')
}

/// A normalised category text is acceptable: non-empty and no `/`-separated
/// component is blank.
pub open spec fn category_ok(t: Seq<char>) -> bool {
    &&& t.len() > 0
    &&& forall|i: int|
        0 <= i < split(t, seq!['/']).len() ==> !is_blank(#[trigger] split(t, seq!['/'])[i])
}

proof fn lemma_no_slash_occurrence(s: Seq<char>, k: int)
    requires
        0 <= k,
        forall|i: int| 0 <= i < s.len() ==> s[i] != '/',
    ensures
        crate::text::first_occ_from(s, seq!['/'], k) is None,
    decreases s.len() - k,
{
    if k < s.len() && k + 1 <= s.len() {
        if crate::text::occurs_at(s, seq!['/'], k) {
            assert(s.subrange(k, k + 1)[0] == s[k]);
        }
        lemma_no_slash_occurrence(s, k + 1);
    }
}

/// A text of ordinary characters (no whitespace, `/` or `\`) is a category
/// path of one component, unchanged by normalisation.
pub proof fn lemma_plain_category(s: Seq<char>)
    requires
        s.len() > 0,
        forall|i: int|
            0 <= i < s.len() ==> !crate::text::is_ws(#[trigger] s[i]) && s[i] != '/' && s[i]
                != '\\',
    ensures
        category_norm(s) == s,
        category_ok(s),
{
    assert(crate::text::skip_ws_from(s, 0) == 0);
    assert(crate::text::skip_ws_back(s, s.len() as int) == s.len());
    assert(trim(s) =~= s);
    assert(crate::text::skip_char_from(s, '/', 0) == 0);
    assert(crate::text::skip_char_back(s, '/', s.len() as int) == s.len());
    assert(strip_char(s, '/') =~= s);
    assert(replace_char(s, '\\', '/') =~= s);
    lemma_no_slash_occurrence(s, 0);
    assert(split(s, seq!['/']) =~= seq![s.subrange(0, s.len() as int)]);
    assert(s.subrange(0, s.len() as int) =~= s);
    assert(!is_blank(s)) by {
        assert(!crate::text::is_ws(s[0]));
    }
}

/// Category path relative to the `Cat/` root.
#[derive(Clone, Debug, PartialEq, Eq, Hash)]
pub struct CategoryPath(String);

impl View for CategoryPath {
    type V = Seq<char>;

    open spec fn view(&self) -> Seq<char> {
        self.spec_text()
    }
}

impl CategoryPath {
    /// The normalised path text.
    pub closed spec fn spec_text(&self) -> Seq<char> {
        self.0@
    }

    /// Every category path holds an acceptable normalised text.
    pub closed spec fn wf(&self) -> bool {
        category_ok(self.0@)
    }

    /// Create a category path from a slash-separated string.
    ///
    /// The text is trimmed, surrounding `/` are removed and `\` becomes `/`;
    /// the result is refused when it is empty or has a blank component.
    pub fn new(value: &str) -> (r: Option<CategoryPath>)
        ensures
            r is Some <==> category_ok(category_norm(value@)),
            r matches Some(p) ==> p@ == category_norm(value@) && p.wf(),
    {
        let v = chars_of(value);
        let t = trim_chars(&v);
        let s = strip_char_chars(&t, '/');
        let n = replace_char_chars(&s, '\\', '/');
        if n.len() == 0 {
            return None;
        }
        let sep: Vec<char> = vec!['/'];
        let parts = split_chars(&n, &sep);
        let mut i: usize = 0;
        while i < parts.len()
            invariant
                i <= parts.len(),
                n@ == category_norm(value@),
                sep@ == seq!['/'],
                parts@.map_values(|p: Vec<char>| p@) == split(n@, sep@),
                forall|k: int| 0 <= k < i ==> !is_blank(#[trigger] split(n@, sep@)[k]),
            decreases parts.len() - i,
        {
            let piece = string_of(&parts[i]);
            proof {
                assert(split(n@, sep@)[i as int] == parts@[i as int]@);
            }
            if blank(piece.as_str()) {
                return None;
            }
            i = i + 1;
        }
        proof {
            assert(split(n@, sep@).len() == parts@.len());
        }
        Some(CategoryPath(string_of(&n)))
    }

    /// Return the category as a string slice.
    pub fn as_str(&self) -> (r: &str)
        ensures
            r@ == self@,
    {
        self.0.as_str()
    }

    /// A duplicate of this path, equal to it.
    pub fn duplicate(&self) -> (r: CategoryPath)
        ensures
            r == *self,
    {
        CategoryPath(self.0.clone())
    }

    /// Return path components separated by `/`.
    pub fn components(&self) -> (r: Vec<String>)
        ensures
            r@.map_values(|c: String| c@) == split(self@, seq!['/']),
    {
        let v = chars_of(self.0.as_str());
        let sep: Vec<char> = vec!['/'];
        proof {
            assert(sep@ =~= seq!['/']);
        }
        let parts = split_chars(&v, &sep);
        let mut out: Vec<String> = Vec::new();
        let mut i: usize = 0;
        while i < parts.len()
            invariant
                i <= parts.len(),
                out@.len() == i,
                forall|k: int| 0 <= k < i ==> #[trigger] out@[k]@ == parts@[k]@,
            decreases parts.len() - i,
        {
            out.push(string_of(&parts[i]));
            i = i + 1;
        }
        proof {
            assert(out@.map_values(|c: String| c@) =~= parts@.map_values(|p: Vec<char>| p@));
            assert(v@ == self@);
        }
        out
    }
}

/// Root path of one Localref library (a `/`-separated path text).
#[derive(Clone, Debug, PartialEq, Eq)]
pub struct LibraryRoot(String);

impl View for LibraryRoot {
    type V = Seq<char>;

    open spec fn view(&self) -> Seq<char> {
        self.spec_text()
    }
}

impl LibraryRoot {
    /// The root path text.
    pub closed spec fn spec_text(&self) -> Seq<char> {
        self.0@
    }

    /// Create a library root from a path.
    pub fn new(path: &str) -> (r: LibraryRoot)
        ensures
            r@ == path@,
    {
        LibraryRoot(owned(path))
    }

    /// Return the root path.
    pub fn path(&self) -> (r: &str)
        ensures
            r@ == self@,
    {
        self.0.as_str()
    }

    /// Return the `All/` directory path.
    pub fn all_dir(&self) -> (r: String)
        ensures
            r@ == join_path(self@, "All"@),
    {
        join(self.0.as_str(), "All")
    }

    /// Return the `Cat/` directory path.
    pub fn cat_dir(&self) -> (r: String)
        ensures
            r@ == join_path(self@, "Cat"@),
    {
        join(self.0.as_str(), "Cat")
    }

    /// Return the `.localref/` internal state directory path.
    pub fn state_dir(&self) -> (r: String)
        ensures
            r@ == join_path(self@, ".localref"@),
    {
        join(self.0.as_str(), ".localref")
    }
}

} // verus!
