//! Lexicographic order on character sequences and sorted string sets.
//!
//! `String`'s order compares UTF-8 bytes, which is the same as comparing
//! characters by code point; sorted lists of strings are therefore the
//! canonical form of `BTreeSet<String>` contents.

use vstd::prelude::*;
use crate::text::chars_of;

verus! {

/// Strict lexicographic order by code point.
pub open spec fn lex_lt(a: Seq<char>, b: Seq<char>) -> bool
    decreases a.len(),
{
    if a.len() == 0 {
        b.len() > 0
    } else if b.len() == 0 {
        false
    } else if a[0] != b[0] {
        a[0] < b[0]
    } else {
        lex_lt(a.drop_first(), b.drop_first())
    }
}

/// `lex_lt` is irreflexive.
pub proof fn lemma_lex_irreflexive(a: Seq<char>)
    ensures
        !lex_lt(a, a),
    decreases a.len(),
{
    if a.len() > 0 {
        lemma_lex_irreflexive(a.drop_first());
    }
}

/// `lex_lt` is total on distinct sequences and asymmetric.
pub proof fn lemma_lex_total(a: Seq<char>, b: Seq<char>)
    ensures
        a != b ==> (lex_lt(a, b) || lex_lt(b, a)),
        !(lex_lt(a, b) && lex_lt(b, a)),
    decreases a.len(),
{
    if a.len() > 0 && b.len() > 0 && a[0] == b[0] {
        lemma_lex_total(a.drop_first(), b.drop_first());
        if a != b {
            assert(a == seq![a[0]] + a.drop_first());
            assert(b == seq![b[0]] + b.drop_first());
            if a.drop_first() == b.drop_first() {
                assert(a =~= b);
            }
        }
    } else if a.len() == 0 && b.len() == 0 {
        assert(a =~= b);
    }
}

/// `lex_lt` is transitive.
pub proof fn lemma_lex_transitive(a: Seq<char>, b: Seq<char>, c: Seq<char>)
    requires
        lex_lt(a, b),
        lex_lt(b, c),
    ensures
        lex_lt(a, c),
    decreases a.len(),
{
    if a.len() > 0 && b.len() > 0 && c.len() > 0 && a[0] == b[0] && b[0] == c[0] {
        lemma_lex_transitive(a.drop_first(), b.drop_first(), c.drop_first());
    }
}

/// Lexicographic comparison of two character slices: `-1`, `0` or `1`.
pub fn lex_compare(a: &[char], b: &[char]) -> (r: i8)
    ensures
        r == 0 <==> a@ == b@,
        r < 0 <==> lex_lt(a@, b@),
        r > 0 <==> lex_lt(b@, a@),
{
    let mut i: usize = 0;
    proof {
        assert(a@.skip(0) == a@);
        assert(b@.skip(0) == b@);
    }
    while i < a.len() && i < b.len() && a[i] == b[i]
        invariant
            i <= a.len(),
            i <= b.len(),
            a@.take(i as int) == b@.take(i as int),
            lex_lt(a@, b@) == lex_lt(a@.skip(i as int), b@.skip(i as int)),
            lex_lt(b@, a@) == lex_lt(b@.skip(i as int), a@.skip(i as int)),
        decreases a.len() - i,
    {
        proof {
            assert(a@.skip(i as int).drop_first() == a@.skip(i + 1));
            assert(b@.skip(i as int).drop_first() == b@.skip(i + 1));
            assert(a@.take(i + 1) == a@.take(i as int).push(a@[i as int]));
            assert(b@.take(i + 1) == b@.take(i as int).push(b@[i as int]));
        }
        i = i + 1;
    }
    proof {
        lemma_lex_total(a@, b@);
        lemma_lex_irreflexive(a@);
    }
    if i == a.len() && i == b.len() {
        proof {
            assert(a@ == a@.take(i as int));
            assert(b@ == b@.take(i as int));
        }
        0
    } else if i == a.len() {
        proof {
            assert(a@.skip(i as int).len() == 0);
            if a@ == b@ {
                assert(a@.len() == b@.len());
            }
        }
        -1
    } else if i == b.len() {
        proof {
            assert(b@.skip(i as int).len() == 0);
            if a@ == b@ {
                assert(a@.len() == b@.len());
            }
        }
        1
    } else if a[i] < b[i] {
        proof {
            assert(a@.skip(i as int)[0] == a@[i as int]);
            assert(b@.skip(i as int)[0] == b@[i as int]);
            if a@ == b@ {
                assert(a@[i as int] == b@[i as int]);
            }
        }
        -1
    } else {
        proof {
            assert(a@.skip(i as int)[0] == a@[i as int]);
            assert(b@.skip(i as int)[0] == b@[i as int]);
            if a@ == b@ {
                assert(a@[i as int] == b@[i as int]);
            }
        }
        1
    }
}

/// Lexicographic comparison of two string slices.
pub fn str_compare(a: &str, b: &str) -> (r: i8)
    ensures
        r == 0 <==> a@ == b@,
        r < 0 <==> lex_lt(a@, b@),
        r > 0 <==> lex_lt(b@, a@),
{
    let va = chars_of(a);
    let vb = chars_of(b);
    lex_compare(&va, &vb)
}

/// Strictly increasing sequence of texts.
pub open spec fn sorted(s: Seq<Seq<char>>) -> bool {
    forall|i: int, j: int| 0 <= i < j < s.len() ==> lex_lt(#[trigger] s[i], #[trigger] s[j])
}

/// Views of a list of strings.
pub open spec fn string_views(v: Seq<String>) -> Seq<Seq<char>> {
    v.map_values(|s: String| s@)
}

/// Position at which `x` belongs in the sorted list `s`: the first element
/// not below `x`.
pub fn sorted_position(v: &Vec<String>, x: &str) -> (r: (usize, bool))
    requires
        sorted(string_views(v@)),
    ensures
        r.0 <= v@.len(),
        forall|k: int| 0 <= k < r.0 ==> lex_lt(#[trigger] v@[k]@, x@),
        r.1 <==> (r.0 < v@.len() && v@[r.0 as int]@ == x@),
        r.0 < v@.len() && !r.1 ==> lex_lt(x@, v@[r.0 as int]@),
        r.1 <==> string_views(v@).contains(x@),
{
    let mut i: usize = 0;
    while i < v.len()
        invariant
            i <= v@.len(),
            sorted(string_views(v@)),
            forall|k: int| 0 <= k < i ==> lex_lt(#[trigger] v@[k]@, x@),
        decreases v@.len() - i,
    {
        let c = str_compare(v[i].as_str(), x);
        if c >= 0 {
            let found = c == 0;
            proof {
                let sv = string_views(v@);
                if found {
                    assert(sv[i as int] == x@);
                } else {
                    assert forall|k: int| 0 <= k < sv.len() implies sv[k] != x@ by {
                        if k < i {
                            assert(lex_lt(v@[k]@, x@));
                            lemma_lex_irreflexive(x@);
                        } else if k == i {
                        } else {
                            assert(lex_lt(sv[i as int], sv[k]));
                            if sv[k] == x@ {
                                lemma_lex_total(x@, sv[i as int]);
                            }
                        }
                    }
                }
            }
            return (i, found);
        }
        i = i + 1;
    }
    proof {
        let sv = string_views(v@);
        assert forall|k: int| 0 <= k < sv.len() implies sv[k] != x@ by {
            assert(lex_lt(v@[k]@, x@));
            lemma_lex_irreflexive(x@);
        }
    }
    (i, false)
}

/// In a sorted sequence an element occurs at one position only.
pub proof fn lemma_sorted_unique(s: Seq<Seq<char>>, p: int, k: int)
    requires
        sorted(s),
        0 <= p < s.len(),
        0 <= k < s.len(),
        s[k] == s[p],
    ensures
        k == p,
{
    if k < p {
        assert(lex_lt(s[k], s[p]));
        lemma_lex_irreflexive(s[p]);
    } else if k > p {
        assert(lex_lt(s[p], s[k]));
        lemma_lex_irreflexive(s[p]);
    }
}

/// Inserting `x` at a position between smaller and larger elements keeps a
/// sorted sequence sorted.
pub proof fn lemma_sorted_insert(before: Seq<Seq<char>>, pos: int, x: Seq<char>)
    requires
        sorted(before),
        0 <= pos <= before.len(),
        forall|k: int| 0 <= k < pos ==> lex_lt(#[trigger] before[k], x),
        pos < before.len() ==> lex_lt(x, before[pos]),
    ensures
        sorted(before.insert(pos, x)),
{
    let after = before.insert(pos, x);
    assert forall|i: int, j: int| 0 <= i < j < after.len() implies lex_lt(
        #[trigger] after[i],
        #[trigger] after[j],
    ) by {
        if j < pos {
            assert(after[i] == before[i] && after[j] == before[j]);
        } else if j == pos {
            assert(after[i] == before[i]);
        } else if i < pos {
            assert(after[i] == before[i]);
            assert(after[j] == before[j - 1]);
            assert(lex_lt(before[i], x));
            if j - 1 != pos {
                assert(lex_lt(before[pos], before[j - 1]));
                lemma_lex_transitive(x, before[pos], before[j - 1]);
            }
            lemma_lex_transitive(before[i], x, before[j - 1]);
        } else if i == pos {
            assert(after[j] == before[j - 1]);
            if j - 1 != pos {
                assert(lex_lt(before[pos], before[j - 1]));
                lemma_lex_transitive(x, before[pos], before[j - 1]);
            }
        } else {
            assert(after[i] == before[i - 1]);
            assert(after[j] == before[j - 1]);
        }
    }
}

/// Removing an element keeps a sorted sequence sorted.
pub proof fn lemma_sorted_remove(before: Seq<Seq<char>>, pos: int)
    requires
        sorted(before),
        0 <= pos < before.len(),
    ensures
        sorted(before.remove(pos)),
{
    let after = before.remove(pos);
    assert forall|i: int, j: int| 0 <= i < j < after.len() implies lex_lt(
        #[trigger] after[i],
        #[trigger] after[j],
    ) by {
        let i0 = if i < pos { i } else { i + 1 };
        let j0 = if j < pos { j } else { j + 1 };
        assert(after[i] == before[i0]);
        assert(after[j] == before[j0]);
    }
}

/// Insert `x` into a sorted list of strings unless it is already present.
/// Returns whether it was inserted.
pub fn insert_sorted(v: &mut Vec<String>, x: &str) -> (r: bool)
    requires
        sorted(string_views(old(v)@)),
    ensures
        sorted(string_views(final(v)@)),
        r == !string_views(old(v)@).contains(x@),
        forall|y: Seq<char>|
            #![trigger string_views(final(v)@).contains(y)]
            string_views(final(v)@).contains(y) <==> (string_views(old(v)@).contains(y) || y == x@),
        final(v)@.len() == old(v)@.len() + (if r { 1int } else { 0int }),
{
    let (pos, found) = sorted_position(v, x);
    if found {
        return false;
    }
    let ghost before = string_views(v@);
    v.insert(pos, crate::text::owned(x));
    proof {
        let after = string_views(v@);
        assert(after =~= before.insert(pos as int, x@));
        lemma_sorted_insert(before, pos as int, x@);
        assert forall|y: Seq<char>| after.contains(y) <==> (before.contains(y) || y == x@) by {
            if after.contains(y) {
                let k = choose|k: int| 0 <= k < after.len() && after[k] == y;
                if k < pos {
                    assert(before[k] == y);
                } else if k > pos {
                    assert(before[k - 1] == y);
                }
            }
            if before.contains(y) {
                let k = choose|k: int| 0 <= k < before.len() && before[k] == y;
                if k < pos {
                    assert(after[k] == y);
                } else {
                    assert(after[k + 1] == y);
                }
            }
            if y == x@ {
                assert(after[pos as int] == y);
            }
        }
    }
    true
}

/// Remove `x` from a sorted list of strings.  Returns whether it was there.
pub fn remove_sorted(v: &mut Vec<String>, x: &str) -> (r: bool)
    requires
        sorted(string_views(old(v)@)),
    ensures
        sorted(string_views(final(v)@)),
        r == string_views(old(v)@).contains(x@),
        forall|y: Seq<char>|
            #![trigger string_views(final(v)@).contains(y)]
            string_views(final(v)@).contains(y) <==> (string_views(old(v)@).contains(y) && y != x@),
        final(v)@.len() == old(v)@.len() - (if r { 1int } else { 0int }),
{
    let (pos, found) = sorted_position(v, x);
    if !found {
        return false;
    }
    let ghost before = string_views(v@);
    let _ = v.remove(pos);
    proof {
        let after = string_views(v@);
        assert(after =~= before.remove(pos as int));
        lemma_sorted_remove(before, pos as int);
        assert forall|y: Seq<char>| after.contains(y) <==> (before.contains(y) && y != x@) by {
            if after.contains(y) {
                let k = choose|k: int| 0 <= k < after.len() && after[k] == y;
                let k0 = if k < pos { k } else { k + 1 };
                assert(before[k0] == y);
                if y == x@ {
                    assert(before[pos as int] == x@);
                    if k0 < pos {
                        assert(lex_lt(before[k0], before[pos as int]));
                    } else {
                        assert(lex_lt(before[pos as int], before[k0]));
                    }
                    lemma_lex_irreflexive(x@);
                }
            }
            if before.contains(y) && y != x@ {
                let k = choose|k: int| 0 <= k < before.len() && before[k] == y;
                assert(k != pos);
                if k < pos {
                    assert(after[k] == y);
                } else {
                    assert(after[k - 1] == y);
                }
            }
        }
    }
    true
}

/// Whether `x` is one of the strings of `v`.
pub fn string_listed(v: &Vec<String>, x: &str) -> (r: bool)
    ensures
        r == string_views(v@).contains(x@),
{
    let mut i: usize = 0;
    while i < v.len()
        invariant
            i <= v@.len(),
            forall|k: int| 0 <= k < i ==> v@[k]@ != x@,
        decreases v.len() - i,
    {
        if crate::text::str_eq(v[i].as_str(), x) {
            proof {
                assert(string_views(v@)[i as int] == x@);
            }
            return true;
        }
        i = i + 1;
    }
    proof {
        let sv = string_views(v@);
        if sv.contains(x@) {
            let k = choose|k: int| 0 <= k < sv.len() && sv[k] == x@;
            assert(v@[k]@ == x@);
        }
    }
    false
}

} // verus!
