//! Finite relations between texts, kept in canonical form as a map from
//! keys to sets of members (the shape of a `BTreeMap<String,
//! BTreeSet<String>>` whose sets are never empty).

use vstd::prelude::*;
use crate::ordered::{
    insert_sorted, lemma_sorted_insert, lemma_sorted_remove, lemma_sorted_unique, remove_sorted,
    sorted, sorted_position, string_views,
};
use crate::text::owned;

verus! {

/// A finite relation between texts, kept as a map from keys to sets of
/// members: keys sorted, each with a sorted, non-empty list of members.
#[derive(Clone, Debug, PartialEq, Eq)]
pub struct SetMap {
    keys: Vec<String>,
    sets: Vec<Vec<String>>,
}

impl SetMap {
    /// Keys in order.
    pub closed spec fn spec_keys(&self) -> Seq<Seq<char>> {
        string_views(self.keys@)
    }

    /// Members of the `i`-th key.
    pub closed spec fn spec_members(&self, i: int) -> Seq<Seq<char>> {
        string_views(self.sets@[i]@)
    }

    /// Canonical form: sorted keys, each with a sorted, non-empty list of
    /// members.
    pub closed spec fn wf(&self) -> bool {
        &&& self.keys@.len() == self.sets@.len()
        &&& sorted(self.spec_keys())
        &&& forall|i: int|
            0 <= i < self.keys@.len() ==> sorted(#[trigger] self.spec_members(i))
                && self.spec_members(i).len() > 0
    }

    /// The `k`-th entry relates `key` to `member`.
    pub closed spec fn entry(&self, k: int, key: Seq<char>, member: Seq<char>) -> bool {
        &&& 0 <= k < self.keys@.len()
        &&& self.spec_keys()[k] == key
        &&& self.spec_members(k).contains(member)
    }

    /// The pair `(key, member)` is in the relation.
    pub closed spec fn has(&self, key: Seq<char>, member: Seq<char>) -> bool {
        exists|k: int| #[trigger] self.entry(k, key, member)
    }

    /// Only the entry at a key's own position can hold it.
    proof fn lemma_entry_at(&self, k: int, p: int, key: Seq<char>, member: Seq<char>)
        requires
            self.wf(),
            self.entry(k, key, member),
            0 <= p < self.keys@.len(),
            self.spec_keys()[p] == key,
        ensures
            k == p,
    {
        lemma_sorted_unique(self.spec_keys(), p, k);
    }

    /// A pair is in the relation exactly when the members of its key's
    /// entry hold it.
    pub proof fn lemma_has_entry(&self, key: Seq<char>, member: Seq<char>)
        ensures
            self.has(key, member) <==> exists|k: int|
                0 <= k < self.spec_keys().len() && self.spec_keys()[k] == key
                    && self.spec_members(k).contains(member),
    {
        if self.has(key, member) {
            let k = choose|k: int| #[trigger] self.entry(k, key, member);
            assert(0 <= k < self.spec_keys().len());
        }
        if exists|k: int|
            0 <= k < self.spec_keys().len() && self.spec_keys()[k] == key
                && self.spec_members(k).contains(member) {
            let k = choose|k: int|
                0 <= k < self.spec_keys().len() && self.spec_keys()[k] == key
                    && self.spec_members(k).contains(member);
            assert(self.entry(k, key, member));
        }
    }

    /// Every key of a well-formed relation relates to some member.
    pub proof fn lemma_members_nonempty(&self, k: int)
        requires
            self.wf(),
            0 <= k < self.spec_keys().len(),
        ensures
            self.spec_members(k).len() > 0,
    {
    }

    /// A well-formed relation without pairs has no keys.
    pub proof fn lemma_empty_has_no_keys(&self)
        requires
            self.wf(),
            forall|i: Seq<char>, c: Seq<char>| !self.has(i, c),
        ensures
            self.spec_keys().len() == 0,
    {
        if self.keys@.len() > 0 {
            assert(self.spec_members(0).len() > 0);
            assert(self.spec_members(0).contains(self.spec_members(0)[0]));
            assert(self.entry(0, self.spec_keys()[0], self.spec_members(0)[0]));
            assert(self.has(self.spec_keys()[0], self.spec_members(0)[0]));
        }
    }

    /// The empty relation.
    pub fn new() -> (r: SetMap)
        ensures
            r.wf(),
            r.spec_keys().len() == 0,
            forall|i: Seq<char>, c: Seq<char>| !r.has(i, c),
    {
        SetMap { keys: Vec::new(), sets: Vec::new() }
    }

    /// Add the pair `(key, member)`.
    pub fn insert(&mut self, key: &str, member: &str)
        requires
            old(self).wf(),
        ensures
            final(self).wf(),
            forall|i: Seq<char>, c: Seq<char>|
                #![trigger final(self).has(i, c)]
                final(self).has(i, c) <==> (old(self).has(i, c) || (i == key@ && c
                    == member@)),
    {
        let (pos, found) = sorted_position(&self.keys, key);
        let ghost old_keys = self.spec_keys();
        let ghost old_self = *self;
        if found {
            let mut cats = self.sets.remove(pos);
            let ghost before = string_views(cats@);
            assert(before == old_self.spec_members(pos as int));
            assert(sorted(old_self.spec_members(pos as int)));
            insert_sorted(&mut cats, member);
            let ghost after = string_views(cats@);
            self.sets.insert(pos, cats);
            proof {
                assert(self.spec_keys() == old_keys);
                assert(self.spec_members(pos as int) == after);
                assert(self.sets@ =~= old_self.sets@.update(
                    pos as int,
                    self.sets@[pos as int],
                ));
                assert forall|k: int| 0 <= k < self.keys@.len() && k != pos implies
                    #[trigger] self.spec_members(k) == old_self.spec_members(k) by {}
                assert forall|k: int| 0 <= k < self.keys@.len() implies sorted(
                    #[trigger] self.spec_members(k),
                ) && self.spec_members(k).len() > 0 by {
                    if k != pos {
                        assert(self.spec_members(k) == old_self.spec_members(k));
                    } else {
                        assert(string_views(cats@).contains(member@));
                    }
                }
                assert forall|i: Seq<char>, c: Seq<char>|
                    #![trigger self.has(i, c)]
                    self.has(i, c) <==> (old_self.has(i, c) || (i == key@ && c
                        == member@)) by {
                    if self.has(i, c) {
                        let k = choose|k: int| #[trigger] self.entry(k, i, c);
                        if k != pos {
                            assert(old_self.entry(k, i, c));
                        } else if !(i == key@ && c == member@) {
                            assert(after.contains(c));
                            assert(old_self.entry(k, i, c));
                        }
                    }
                    if old_self.has(i, c) {
                        let k = choose|k: int| #[trigger] old_self.entry(k, i, c);
                        if k != pos {
                            assert(self.entry(k, i, c));
                        } else {
                            assert(after.contains(c));
                            assert(self.entry(k, i, c));
                        }
                    }
                    if i == key@ && c == member@ {
                        assert(after.contains(c));
                        assert(self.entry(pos as int, i, c));
                    }
                }
            }
        } else {
            let mut cats: Vec<String> = Vec::new();
            cats.push(owned(member));
            let ghost after = string_views(cats@);
            self.keys.insert(pos, owned(key));
            self.sets.insert(pos, cats);
            proof {
                let keys = self.spec_keys();
                assert(keys =~= old_keys.insert(pos as int, key@));
                assert(after =~= seq![member@]);
                assert forall|k: int| 0 <= k < pos implies crate::ordered::lex_lt(
                    #[trigger] old_keys[k],
                    key@,
                ) by {
                    assert(old_keys[k] == old_self.keys@[k]@);
                }
                lemma_sorted_insert(old_keys, pos as int, key@);
                assert(self.spec_members(pos as int) == after);
                assert forall|k: int| 0 <= k < pos implies #[trigger] self.spec_members(k)
                    == old_self.spec_members(k) by {}
                assert forall|k: int| pos < k <= old_keys.len() implies #[trigger] self.spec_members(k)
                    == old_self.spec_members(k - 1) by {}
                assert forall|k: int| 0 <= k < self.keys@.len() implies sorted(
                    #[trigger] self.spec_members(k),
                ) && self.spec_members(k).len() > 0 by {
                    if k < pos {
                        assert(self.spec_members(k) == old_self.spec_members(k));
                    } else if k > pos {
                        assert(self.spec_members(k) == old_self.spec_members(k - 1));
                    }
                }
                assert forall|i: Seq<char>, c: Seq<char>|
                    #![trigger self.has(i, c)]
                    self.has(i, c) <==> (old_self.has(i, c) || (i == key@ && c
                        == member@)) by {
                    if self.has(i, c) {
                        let k = choose|k: int| #[trigger] self.entry(k, i, c);
                        if k < pos {
                            assert(old_self.entry(k, i, c));
                        } else if k > pos {
                            assert(old_self.entry(k - 1, i, c));
                        } else {
                            assert(after.contains(c));
                        }
                    }
                    if old_self.has(i, c) {
                        let k = choose|k: int| #[trigger] old_self.entry(k, i, c);
                        if k < pos {
                            assert(self.entry(k, i, c));
                        } else {
                            assert(self.entry(k + 1, i, c));
                        }
                    }
                    if i == key@ && c == member@ {
                        assert(after[0] == c);
                        assert(self.entry(pos as int, i, c));
                    }
                }
            }
        }
    }

    /// Remove the pair `(key, member)`; a key left with no members is
    /// dropped.
    pub fn remove(&mut self, key: &str, member: &str)
        requires
            old(self).wf(),
        ensures
            final(self).wf(),
            forall|i: Seq<char>, c: Seq<char>|
                #![trigger final(self).has(i, c)]
                final(self).has(i, c) <==> (old(self).has(i, c) && !(i == key@ && c
                    == member@)),
    {
        let (pos, found) = sorted_position(&self.keys, key);
        if !found {
            proof {
                assert forall|i: Seq<char>, c: Seq<char>| self.has(i, c) implies !(i == key@
                    && c == member@) by {
                    let k = choose|k: int| #[trigger] self.entry(k, i, c);
                    if i == key@ {
                        assert(string_views(self.keys@)[k] == key@);
                    }
                }
            }
            return;
        }
        let ghost old_self = *self;
        let ghost old_keys = self.spec_keys();
        let mut cats = self.sets.remove(pos);
        let ghost before = string_views(cats@);
        assert(before == old_self.spec_members(pos as int));
        assert(sorted(old_self.spec_members(pos as int)));
        remove_sorted(&mut cats, member);
        let ghost after = string_views(cats@);
        if cats.len() == 0 {
            let _ = self.keys.remove(pos);
            proof {
                let keys = self.spec_keys();
                assert(keys =~= old_keys.remove(pos as int));
                lemma_sorted_remove(old_keys, pos as int);
                assert forall|k: int| 0 <= k < pos implies #[trigger] self.spec_members(k)
                    == old_self.spec_members(k) by {}
                assert forall|k: int| pos <= k < keys.len() implies #[trigger] self.spec_members(k)
                    == old_self.spec_members(k + 1) by {}
                assert forall|k: int| 0 <= k < self.keys@.len() implies sorted(
                    #[trigger] self.spec_members(k),
                ) && self.spec_members(k).len() > 0 by {
                    let k0 = if k < pos { k } else { k + 1 };
                    assert(self.spec_members(k) == old_self.spec_members(k0));
                }
                assert forall|i: Seq<char>, c: Seq<char>|
                    #![trigger self.has(i, c)]
                    self.has(i, c) <==> (old_self.has(i, c) && !(i == key@ && c
                        == member@)) by {
                    if self.has(i, c) {
                        let k = choose|k: int| #[trigger] self.entry(k, i, c);
                        let k0 = if k < pos { k } else { k + 1 };
                        assert(old_self.entry(k0, i, c));
                        if i == key@ {
                            old_self.lemma_entry_at(k0, pos as int, i, c);
                        }
                    }
                    if old_self.has(i, c) && !(i == key@ && c == member@) {
                        let k = choose|k: int| #[trigger] old_self.entry(k, i, c);
                        if k == pos {
                            assert(before.contains(c));
                            assert(after.contains(c));
                        } else if k < pos {
                            assert(self.entry(k, i, c));
                        } else {
                            assert(self.entry(k - 1, i, c));
                        }
                    }
                }
            }
        } else {
            self.sets.insert(pos, cats);
            proof {
                assert(self.spec_keys() == old_keys);
                assert(self.spec_members(pos as int) == after);
                assert(self.sets@ =~= old_self.sets@.update(
                    pos as int,
                    self.sets@[pos as int],
                ));
                assert forall|k: int| 0 <= k < self.keys@.len() && k != pos implies
                    #[trigger] self.spec_members(k) == old_self.spec_members(k) by {}
                assert forall|k: int| 0 <= k < self.keys@.len() implies sorted(
                    #[trigger] self.spec_members(k),
                ) && self.spec_members(k).len() > 0 by {
                    if k != pos {
                        assert(self.spec_members(k) == old_self.spec_members(k));
                    }
                }
                assert forall|i: Seq<char>, c: Seq<char>|
                    #![trigger self.has(i, c)]
                    self.has(i, c) <==> (old_self.has(i, c) && !(i == key@ && c
                        == member@)) by {
                    if self.has(i, c) {
                        let k = choose|k: int| #[trigger] self.entry(k, i, c);
                        if k != pos {
                            assert(old_self.entry(k, i, c));
                            if i == key@ {
                                old_self.lemma_entry_at(k, pos as int, i, c);
                            }
                        } else {
                            assert(after.contains(c));
                            assert(old_self.entry(k, i, c));
                        }
                    }
                    if old_self.has(i, c) && !(i == key@ && c == member@) {
                        let k = choose|k: int| #[trigger] old_self.entry(k, i, c);
                        if k == pos {
                            assert(before.contains(c));
                            assert(after.contains(c));
                        }
                        assert(self.entry(k, i, c));
                    }
                }
            }
        }
    }

    /// Remove every pair of one key.
    pub fn remove_key(&mut self, key: &str)
        requires
            old(self).wf(),
        ensures
            final(self).wf(),
            forall|i: Seq<char>, c: Seq<char>|
                #![trigger final(self).has(i, c)]
                final(self).has(i, c) <==> (old(self).has(i, c) && i != key@),
    {
        let (pos, found) = sorted_position(&self.keys, key);
        if !found {
            proof {
                assert forall|i: Seq<char>, c: Seq<char>| self.has(i, c) implies i != key@ by {
                    let k = choose|k: int| #[trigger] self.entry(k, i, c);
                    if i == key@ {
                        assert(string_views(self.keys@)[k] == key@);
                    }
                }
            }
            return;
        }
        let ghost old_self = *self;
        let ghost old_keys = self.spec_keys();
        let _ = self.keys.remove(pos);
        let _ = self.sets.remove(pos);
        proof {
            let keys = self.spec_keys();
            assert(keys =~= old_keys.remove(pos as int));
            lemma_sorted_remove(old_keys, pos as int);
            assert forall|k: int| 0 <= k < pos implies #[trigger] self.spec_members(k)
                == old_self.spec_members(k) by {}
            assert forall|k: int| pos <= k < keys.len() implies #[trigger] self.spec_members(k)
                == old_self.spec_members(k + 1) by {}
            assert forall|k: int| 0 <= k < self.keys@.len() implies sorted(
                #[trigger] self.spec_members(k),
            ) && self.spec_members(k).len() > 0 by {
                let k0 = if k < pos { k } else { k + 1 };
                assert(self.spec_members(k) == old_self.spec_members(k0));
            }
            assert forall|i: Seq<char>, c: Seq<char>|
                #![trigger self.has(i, c)]
                self.has(i, c) <==> (old_self.has(i, c) && i != key@) by {
                if self.has(i, c) {
                    let k = choose|k: int| #[trigger] self.entry(k, i, c);
                    let k0 = if k < pos { k } else { k + 1 };
                    assert(old_self.entry(k0, i, c));
                    if i == key@ {
                        old_self.lemma_entry_at(k0, pos as int, i, c);
                    }
                }
                if old_self.has(i, c) && i != key@ {
                    let k = choose|k: int| #[trigger] old_self.entry(k, i, c);
                    assert(k != pos);
                    if k < pos {
                        assert(self.entry(k, i, c));
                    } else {
                        assert(self.entry(k - 1, i, c));
                    }
                }
            }
        }
    }

    /// Whether the pair `(key, member)` is in the relation.
    pub fn contains(&self, key: &str, member: &str) -> (r: bool)
        requires
            self.wf(),
        ensures
            r == self.has(key@, member@),
    {
        let (pos, found) = sorted_position(&self.keys, key);
        if !found {
            proof {
                if self.has(key@, member@) {
                    let k = choose|k: int| #[trigger] self.entry(k, key@, member@);
                    assert(string_views(self.keys@)[k] == key@);
                }
            }
            return false;
        }
        assert(sorted(self.spec_members(pos as int)));
        let (_, in_cats) = sorted_position(&self.sets[pos], member);
        proof {
            if self.has(key@, member@) {
                let k = choose|k: int| #[trigger] self.entry(k, key@, member@);
                self.lemma_entry_at(k, pos as int, key@, member@);
            }
            if in_cats {
                assert(self.entry(pos as int, key@, member@));
            }
        }
        in_cats
    }

    /// Whether the relation is empty.
    pub fn is_empty(&self) -> (r: bool)
        requires
            self.wf(),
        ensures
            r <==> forall|i: Seq<char>, c: Seq<char>| !self.has(i, c),
    {
        let r = self.keys.len() == 0;
        proof {
            if !r {
                assert(self.spec_members(0).len() > 0);
                assert(self.spec_members(0).contains(self.spec_members(0)[0]));
                assert(self.entry(0, self.spec_keys()[0], self.spec_members(0)[0]));
                assert(self.has(self.spec_keys()[0], self.spec_members(0)[0]));
            } else {
                assert forall|i: Seq<char>, c: Seq<char>| !self.has(i, c) by {
                    if self.has(i, c) {
                        let k = choose|k: int| #[trigger] self.entry(k, i, c);
                    }
                }
            }
        }
        r
    }

    /// The relation's entries: each key with its members, in order.
    pub fn entries(&self) -> (r: Vec<(String, Vec<String>)>)
        requires
            self.wf(),
        ensures
            r@.len() == self.spec_keys().len(),
            forall|i: int|
                0 <= i < r@.len() ==> (#[trigger] r@[i]).0@ == self.spec_keys()[i] && string_views(
                    r@[i].1@,
                ) == self.spec_members(i),
    {
        let mut out: Vec<(String, Vec<String>)> = Vec::new();
        let mut i: usize = 0;
        while i < self.keys.len()
            invariant
                i <= self.keys@.len(),
                self.keys@.len() == self.sets@.len(),
                out@.len() == i,
                forall|k: int|
                    0 <= k < i ==> (#[trigger] out@[k]).0@ == self.spec_keys()[k] && string_views(
                        out@[k].1@,
                    ) == self.spec_members(k),
            decreases self.keys.len() - i,
        {
            let members = &self.sets[i];
            let mut copy: Vec<String> = Vec::new();
            let mut j: usize = 0;
            while j < members.len()
                invariant
                    j <= members@.len(),
                    string_views(copy@) == string_views(members@.take(j as int)),
                decreases members.len() - j,
            {
                let ghost before = copy@;
                copy.push(members[j].clone());
                proof {
                    assert(members@.take(j + 1) =~= members@.take(j as int).push(members@[j as int]));
                    assert(string_views(copy@) =~= string_views(before).push(members@[j as int]@));
                    assert(string_views(members@.take(j + 1)) =~= string_views(members@.take(j as int)).push(members@[j as int]@));
                }
                j = j + 1;
            }
            proof {
                assert(members@.take(members@.len() as int) =~= members@);
            }
            out.push((self.keys[i].clone(), copy));
            i = i + 1;
        }
        out
    }
}

} // verus!
