//! Imports waiting for the user to confirm their categories.
//!
//! Each pending import gets a fresh id; the user later confirms (or
//! overrides) the suggested categories, and the import is taken out of the
//! store to run.

use vstd::prelude::*;
use crate::connector::ConnectorImport;
use crate::types::CategoryPath;

verus! {

/// A pending import as shown to the user.
#[derive(Debug)]
pub struct PendingImportSession {
    /// Pending import id.
    pub id: u64,
    /// Item title.
    pub title: String,
    /// Item type, when known.
    pub item_type: Option<String>,
    /// Source URI, when known.
    pub uri: Option<String>,
    /// Categories suggested by the classification rules.
    pub suggested_categories: Vec<CategoryPath>,
}

/// The user's answer for a pending import: the categories to file it under
/// (`None` keeps the suggestion).
#[derive(Debug)]
pub struct PendingImportConfirmation {
    /// Categories chosen by the user.
    pub categories: Option<Vec<CategoryPath>>,
}

/// One pending import: what the user sees and the import itself.
#[derive(Debug)]
pub struct PendingImportRecord {
    /// The session shown to the user.
    pub session: PendingImportSession,
    /// The import waiting to run.
    pub import: ConnectorImport,
}

/// Both sessions show the same thing.
pub open spec fn same_session(a: PendingImportSession, b: PendingImportSession) -> bool {
    &&& a.id == b.id
    &&& a.title == b.title
    &&& a.item_type == b.item_type
    &&& a.uri == b.uri
    &&& a.suggested_categories@ == b.suggested_categories@
}

impl PendingImportSession {
    /// A duplicate showing the same thing.
    pub fn duplicate(&self) -> (r: PendingImportSession)
        ensures
            same_session(r, *self),
    {
        let mut cats: Vec<CategoryPath> = Vec::new();
        let mut i: usize = 0;
        while i < self.suggested_categories.len()
            invariant
                i <= self.suggested_categories@.len(),
                cats@ == self.suggested_categories@.take(i as int),
            decreases self.suggested_categories.len() - i,
        {
            cats.push(self.suggested_categories[i].duplicate());
            proof {
                assert(self.suggested_categories@.take(i + 1) =~= self.suggested_categories@.take(
                    i as int,
                ).push(self.suggested_categories@[i as int]));
            }
            i = i + 1;
        }
        proof {
            assert(self.suggested_categories@.take(self.suggested_categories@.len() as int)
                =~= self.suggested_categories@);
        }
        PendingImportSession {
            id: self.id,
            title: self.title.clone(),
            item_type: self.item_type.clone(),
            uri: self.uri.clone(),
            suggested_categories: cats,
        }
    }
}

/// Ids of a list of records.
pub open spec fn record_ids(rs: Seq<PendingImportRecord>) -> Seq<u64> {
    rs.map_values(|r: PendingImportRecord| r.session.id)
}

/// In-memory store of pending imports.
#[derive(Debug)]
pub struct PendingImportStore {
    next_id: u64,
    records: Vec<PendingImportRecord>,
}

impl PendingImportStore {
    /// The pending records, oldest first.
    pub closed spec fn spec_records(&self) -> Seq<PendingImportRecord> {
        self.records@
    }

    /// The id the next pending import will get.
    pub closed spec fn spec_next_id(&self) -> u64 {
        if self.next_id == 0 {
            1
        } else {
            self.next_id
        }
    }

    /// Every pending id is below the next id, and ids increase with age.
    pub closed spec fn wf(&self) -> bool {
        &&& forall|i: int|
            0 <= i < self.records@.len() ==> (#[trigger] self.records@[i]).session.id
                < self.spec_next_id()
        &&& forall|i: int, j: int|
            0 <= i < j < self.records@.len() ==> (#[trigger] self.records@[i]).session.id
                < (#[trigger] self.records@[j]).session.id
    }

    /// An empty store.
    pub fn new() -> (r: PendingImportStore)
        ensures
            r.wf(),
            r.spec_records().len() == 0,
            r.spec_next_id() == 1,
    {
        PendingImportStore { next_id: 0, records: Vec::new() }
    }

    /// Store an import awaiting confirmation and return its session, which
    /// gets the next id.
    pub fn create(&mut self, import: ConnectorImport, suggested_categories: Vec<CategoryPath>) -> (r:
        PendingImportSession)
        requires
            old(self).wf(),
            old(self).spec_next_id() < u64::MAX,
        ensures
            final(self).wf(),
            r.id == old(self).spec_next_id(),
            final(self).spec_next_id() == r.id + 1,
            r.title == import.item.title,
            r.item_type == import.item.item_type,
            r.uri == import.item.uri,
            r.suggested_categories@ == suggested_categories@,
            final(self).spec_records().len() == old(self).spec_records().len() + 1,
            final(self).spec_records().take(old(self).spec_records().len() as int) == old(
                self,
            ).spec_records(),
            same_session(final(self).spec_records().last().session, r),
            final(self).spec_records().last().import == import,
    {
        let id: u64 = if self.next_id == 0 {
            1
        } else {
            self.next_id
        };
        self.next_id = id + 1;
        let session = PendingImportSession {
            id,
            title: import.item.title.clone(),
            item_type: import.item.item_type.clone(),
            uri: import.item.uri.clone(),
            suggested_categories,
        };
        let shown = session.duplicate();
        let ghost before = self.records@;
        self.records.push(PendingImportRecord { session, import });
        proof {
            assert(self.records@.take(before.len() as int) =~= before);
        }
        shown
    }

    /// The pending sessions, oldest first.
    pub fn list(&self) -> (r: Vec<PendingImportSession>)
        ensures
            r@.len() == self.spec_records().len(),
            forall|i: int|
                0 <= i < r@.len() ==> same_session(
                    #[trigger] r@[i],
                    self.spec_records()[i].session,
                ),
    {
        let mut out: Vec<PendingImportSession> = Vec::new();
        let mut i: usize = 0;
        while i < self.records.len()
            invariant
                i <= self.records@.len(),
                out@.len() == i,
                forall|k: int|
                    0 <= k < i ==> same_session(#[trigger] out@[k], self.records@[k].session),
            decreases self.records.len() - i,
        {
            out.push(self.records[i].session.duplicate());
            i = i + 1;
        }
        out
    }

    /// Take the pending import with this id out of the store.
    pub fn take(&mut self, id: u64) -> (r: Option<PendingImportRecord>)
        requires
            old(self).wf(),
        ensures
            final(self).wf(),
            final(self).spec_next_id() == old(self).spec_next_id(),
            match r {
                Some(rec) => exists|i: int|
                    0 <= i < old(self).spec_records().len() && old(self).spec_records()[i] == rec
                        && rec.session.id == id && final(self).spec_records() == old(
                        self,
                    ).spec_records().remove(i),
                None => final(self).spec_records() == old(self).spec_records() && forall|i: int|
                    0 <= i < old(self).spec_records().len() ==> (#[trigger] old(
                        self,
                    ).spec_records()[i]).session.id != id,
            },
    {
        let mut i: usize = 0;
        while i < self.records.len()
            invariant
                i <= self.records@.len(),
                self.records@ == old(self).records@,
                self.next_id == old(self).next_id,
                old(self).wf(),
                forall|k: int| 0 <= k < i ==> (#[trigger] self.records@[k]).session.id != id,
            decreases self.records.len() - i,
        {
            if self.records[i].session.id == id {
                let rec = self.records.remove(i);
                proof {
                    let s = old(self).records@;
                    assert forall|a: int, b: int|
                        0 <= a < b < self.records@.len() implies (#[trigger] self.records@[a]).session.id
                        < (#[trigger] self.records@[b]).session.id by {
                        let a0 = if a < i { a } else { a + 1 };
                        let b0 = if b < i { b } else { b + 1 };
                        assert(self.records@[a] == s[a0]);
                        assert(self.records@[b] == s[b0]);
                    }
                    assert forall|a: int|
                        0 <= a < self.records@.len() implies (#[trigger] self.records@[a]).session.id
                        < self.spec_next_id() by {
                        let a0 = if a < i { a } else { a + 1 };
                        assert(self.records@[a] == s[a0]);
                    }
                }
                return Some(rec);
            }
            i = i + 1;
        }
        None
    }
}

/// Ids given by successive `create` calls strictly increase, so no two
/// pending imports ever share an id.
pub proof fn law_pending_ids_increase(store: PendingImportStore, i: int, j: int)
    requires
        store.wf(),
        0 <= i < j < store.spec_records().len(),
    ensures
        store.spec_records()[i].session.id < store.spec_records()[j].session.id,
{
}

} // verus!
