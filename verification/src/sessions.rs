//! Connector save sessions: routing items and late attachment uploads.
//!
//! A connector save arrives as a top-level item followed by attachment
//! uploads that refer to the same save session.  [`SessionBuffer`] keeps one
//! buffered session per save: the items, the attachments received so far,
//! and, once the session has been imported, the item directory it became.
//! The caller performs the imports and saves that the buffer asks for and
//! reports them back; the buffer decides where each upload belongs and
//! keeps only a bounded window of completed sessions.

use vstd::prelude::*;
use crate::connector::{ConnectorAttachment, ConnectorImport, ConnectorItem};
use crate::json::{as_str, field_str, json_get, lookup, JsonValue};
use crate::model::opt_view;
use crate::text::{owned, trim};

verus! {

/// Maximum number of already-imported sessions retained for late attachments.
pub const MAX_COMPLETED_SESSIONS: usize = 16;

/// One buffered connector save session.
#[derive(Debug)]
pub struct ConnectorSession {
    /// Zotero save session identifier, if the connector supplied one.
    pub session_id: Option<String>,
    /// Normalized connector items received for this session.
    pub items: Vec<ConnectorItem>,
    /// Attachments received for this session.
    pub attachments: Vec<ConnectorAttachment>,
    /// Item directory the session was imported into, once it has been.
    pub outcome: Option<String>,
}

/// Where an uploaded attachment goes.
#[derive(Debug)]
pub enum AttachmentRoute {
    /// No session holds it and it has no parent: import it as an item of its
    /// own.
    Standalone(ConnectorImport),
    /// Its session was already imported: save it into that item directory.
    SaveToItem { item_dir: String, attachment: ConnectorAttachment },
    /// It was added to a session that is not imported yet; the buffer may now
    /// have an import ready.
    Buffered,
    /// It names a parent but no session exists: kept in a new session of its
    /// own until its item arrives.
    Orphaned,
}

/// Number of imported sessions.
pub open spec fn completed_count(s: Seq<ConnectorSession>) -> nat
    decreases s.len(),
{
    if s.len() == 0 {
        0
    } else {
        (if s[0].outcome is Some {
            1nat
        } else {
            0nat
        }) + completed_count(s.drop_first())
    }
}

/// The sessions left after dropping the first `to_drop` imported ones.
pub open spec fn drop_completed(s: Seq<ConnectorSession>, to_drop: nat) -> Seq<ConnectorSession>
    decreases s.len(),
{
    if s.len() == 0 {
        s
    } else if to_drop > 0 && s[0].outcome is Some {
        drop_completed(s.drop_first(), (to_drop - 1) as nat)
    } else {
        seq![s[0]] + drop_completed(s.drop_first(), to_drop)
    }
}

/// The sessions not yet imported, in order.
pub open spec fn pending(s: Seq<ConnectorSession>) -> Seq<ConnectorSession>
    decreases s.len(),
{
    if s.len() == 0 {
        s
    } else if s[0].outcome is None {
        seq![s[0]] + pending(s.drop_first())
    } else {
        pending(s.drop_first())
    }
}

/// The sessions kept by pruning: the oldest imported sessions beyond the
/// retained window are dropped.
pub open spec fn pruned(s: Seq<ConnectorSession>) -> Seq<ConnectorSession> {
    if completed_count(s) > MAX_COMPLETED_SESSIONS {
        drop_completed(s, (completed_count(s) - MAX_COMPLETED_SESSIONS) as nat)
    } else {
        s
    }
}

/// Index of the first session with the given id.
pub open spec fn session_with_id(s: Seq<ConnectorSession>, id: Option<String>, from: int) -> Option<
    int,
>
    decreases s.len() - from,
{
    if from < 0 || from >= s.len() {
        None
    } else if opt_view(s[from].session_id) == opt_view(id) {
        Some(from)
    } else {
        session_with_id(s, id, from + 1)
    }
}

proof fn lemma_session_with_id_bounds(s: Seq<ConnectorSession>, id: Option<String>, from: int)
    ensures
        session_with_id(s, id, from) matches Some(i) ==> from <= i < s.len(),
    decreases s.len() - from,
{
    if 0 <= from < s.len() && opt_view(s[from].session_id) != opt_view(id) {
        lemma_session_with_id_bounds(s, id, from + 1);
    }
}

/// The session an upload belongs to: the first with its session id, else,
/// when it has no session id or names a parent item, the most recent one.
pub open spec fn attachment_session(s: Seq<ConnectorSession>, a: ConnectorAttachment) -> Option<
    int,
> {
    match session_with_id(s, a.session_id, 0) {
        Some(i) => Some(i),
        None => if (a.session_id is None || a.parent_item_id is Some) && s.len() > 0 {
            Some(s.len() - 1)
        } else {
            None
        },
    }
}

/// Index of the first pending session at or after `from` that has an item.
pub open spec fn ready_from(s: Seq<ConnectorSession>, from: int) -> Option<int>
    decreases s.len() - from,
{
    if from < 0 || from >= s.len() {
        None
    } else if s[from].outcome is None && s[from].items@.len() > 0 {
        Some(from)
    } else {
        ready_from(s, from + 1)
    }
}

/// Index of the first pending session at or after `from` with this id.
pub open spec fn pending_with_id(s: Seq<ConnectorSession>, id: Option<String>, from: int) -> Option<
    int,
>
    decreases s.len() - from,
{
    if from < 0 || from >= s.len() {
        None
    } else if opt_view(s[from].session_id) == opt_view(id) && s[from].outcome is None {
        Some(from)
    } else {
        pending_with_id(s, id, from + 1)
    }
}

/// Title of a standalone attachment import: its title unless blank, else its
/// file name.
pub open spec fn standalone_title(a: ConnectorAttachment) -> Seq<char> {
    match a.title {
        Some(t) => if trim(t@).len() > 0 {
            t@
        } else {
            a.filename@
        },
        None => a.filename@,
    }
}

/// Source URI of a standalone attachment: its metadata `url`, or `uri` when
/// there is no `url` member.
pub open spec fn standalone_uri(a: ConnectorAttachment) -> Option<Seq<char>> {
    match a.raw_metadata {
        Some(m) => match json_get(m, "url"@) {
            Some(v) => as_str(Some(v)),
            None => field_str(m, "uri"@),
        },
        None => None,
    }
}

/// Buffered connector save sessions.
#[derive(Debug)]
pub struct SessionBuffer {
    sessions: Vec<ConnectorSession>,
}

impl SessionBuffer {
    /// The buffered sessions, oldest first.
    pub closed spec fn spec_sessions(&self) -> Seq<ConnectorSession> {
        self.sessions@
    }

    /// An empty buffer.
    pub fn new() -> (r: SessionBuffer)
        ensures
            r.spec_sessions().len() == 0,
    {
        SessionBuffer { sessions: Vec::new() }
    }

    /// The buffered sessions, oldest first.
    pub fn sessions(&self) -> (r: &Vec<ConnectorSession>)
        ensures
            r@ == self.spec_sessions(),
    {
        &self.sessions
    }

    /// Record the items of one `saveItems` request: they replace the items
    /// of the pending session with the same id, or open a new session.
    pub fn accept_import(&mut self, session_id: Option<String>, items: Vec<ConnectorItem>)
        ensures
            ({
                let old_s = old(self).spec_sessions();
                let new_s = final(self).spec_sessions();
                match pending_with_id(old_s, session_id, 0) {
                    Some(i) => new_s == old_s.update(
                        i,
                        ConnectorSession {
                            session_id: old_s[i].session_id,
                            items: items,
                            attachments: old_s[i].attachments,
                            outcome: None,
                        },
                    ),
                    None => {
                        &&& new_s.len() == old_s.len() + 1
                        &&& new_s.take(old_s.len() as int) == old_s
                        &&& new_s.last().session_id == session_id
                        &&& new_s.last().items == items
                        &&& new_s.last().attachments@.len() == 0
                        &&& new_s.last().outcome is None
                    },
                }
            }),
    {
        let mut i: usize = 0;
        let ghost s0 = self.sessions@;
        while i < self.sessions.len()
            invariant
                i <= self.sessions@.len(),
                self.sessions@ == s0,
                s0 == old(self).sessions@,
                pending_with_id(self.sessions@, session_id, 0) == pending_with_id(
                    self.sessions@,
                    session_id,
                    i as int,
                ),
            decreases self.sessions.len() - i,
        {
            let same = match (&self.sessions[i].session_id, &session_id) {
                (Some(a), Some(b)) => crate::text::str_eq(a.as_str(), b.as_str()),
                (None, None) => true,
                _ => false,
            };
            if same && self.sessions[i].outcome.is_none() {
                let mut replaced = Vec::new();
                core::mem::swap(&mut replaced, &mut self.sessions);
                let mut session = replaced.remove(i);
                session.items = items;
                replaced.insert(i, session);
                core::mem::swap(&mut replaced, &mut self.sessions);
                proof {
                    assert(self.sessions@ =~= old(self).sessions@.update(
                        i as int,
                        self.sessions@[i as int],
                    ));
                }
                return;
            }
            i = i + 1;
        }
        self.sessions.push(
            ConnectorSession { session_id, items, attachments: Vec::new(), outcome: None },
        );
        proof {
            assert(self.sessions@.take(old(self).sessions@.len() as int) =~= old(self).sessions@);
        }
    }

    /// The next session ready to import: the first pending session with an
    /// item, with a copy of its first item and of its attachments.
    pub fn next_import(&self) -> (r: Option<(usize, ConnectorImport)>)
        ensures
            ({
                let s = self.spec_sessions();
                match r {
                    Some((i, import)) => {
                        &&& ready_from(s, 0) == Some(i as int)
                        &&& import.item == s[i as int].items@[0]
                        &&& import.attachments@.len() == s[i as int].attachments@.len()
                        &&& forall|k: int|
                            0 <= k < import.attachments@.len() ==> (
                            #[trigger] import.attachments@[k]).same_as(
                                &s[i as int].attachments@[k],
                            )
                    },
                    None => ready_from(s, 0) is None,
                }
            }),
    {
        let mut i: usize = 0;
        while i < self.sessions.len()
            invariant
                i <= self.sessions@.len(),
                ready_from(self.sessions@, 0) == ready_from(self.sessions@, i as int),
            decreases self.sessions.len() - i,
        {
            let session = &self.sessions[i];
            if session.outcome.is_none() && session.items.len() > 0 {
                let item = session.items[0].duplicate();
                let mut attachments: Vec<ConnectorAttachment> = Vec::new();
                let mut k: usize = 0;
                while k < session.attachments.len()
                    invariant
                        k <= session.attachments@.len(),
                        attachments@.len() == k,
                        forall|j: int|
                            0 <= j < k ==> (#[trigger] attachments@[j]).same_as(
                                &session.attachments@[j],
                            ),
                    decreases session.attachments.len() - k,
                {
                    attachments.push(session.attachments[k].duplicate());
                    k = k + 1;
                }
                return Some((i, ConnectorImport { item, attachments }));
            }
            i = i + 1;
        }
        None
    }

    /// Record that session `index` was imported into `item_dir`.
    pub fn record_import(&mut self, index: usize, item_dir: String)
        requires
            index < old(self).spec_sessions().len(),
        ensures
            final(self).spec_sessions().len() == old(self).spec_sessions().len(),
            final(self).spec_sessions()[index as int].outcome == Some(item_dir),
            final(self).spec_sessions()[index as int].session_id == old(
                self,
            ).spec_sessions()[index as int].session_id,
            final(self).spec_sessions()[index as int].items == old(
                self,
            ).spec_sessions()[index as int].items,
            final(self).spec_sessions()[index as int].attachments == old(
                self,
            ).spec_sessions()[index as int].attachments,
            forall|k: int|
                #![auto]
                0 <= k < old(self).spec_sessions().len() && k != index ==> final(self).spec_sessions()[k]
                    == old(self).spec_sessions()[k],
    {
        let mut all = Vec::new();
        core::mem::swap(&mut all, &mut self.sessions);
        let mut session = all.remove(index);
        session.outcome = Some(item_dir);
        all.insert(index, session);
        core::mem::swap(&mut all, &mut self.sessions);
    }

    /// Decide where an uploaded attachment goes, and buffer it when it
    /// belongs to a session that is not imported yet or names a parent that
    /// has not arrived.
    pub fn route_attachment(&mut self, attachment: ConnectorAttachment) -> (r: AttachmentRoute)
        ensures
            ({
                let old_s = old(self).spec_sessions();
                let new_s = final(self).spec_sessions();
                match attachment_session(old_s, attachment) {
                    Some(i) => match old_s[i].outcome {
                        Some(dir) => new_s == old_s && r == AttachmentRoute::SaveToItem {
                            item_dir: dir,
                            attachment: attachment,
                        },
                        None => r is Buffered && new_s.len() == old_s.len() && forall|k: int|
                            #![trigger new_s[k]]
                            0 <= k < old_s.len() ==> if k == i {
                                &&& new_s[k].session_id == old_s[k].session_id
                                &&& new_s[k].items == old_s[k].items
                                &&& new_s[k].outcome == old_s[k].outcome
                                &&& new_s[k].attachments@ == old_s[k].attachments@.push(attachment)
                            } else {
                                new_s[k] == old_s[k]
                            },
                    },
                    None => if attachment.parent_item_id is None {
                        new_s == old_s && (r matches AttachmentRoute::Standalone(import) && {
                            &&& import.item.session_id == attachment.session_id
                            &&& opt_view(import.item.uri) == standalone_uri(attachment)
                            &&& import.item.connector_item_id is None
                            &&& opt_view(import.item.item_type) == Some("attachment"@)
                            &&& import.item.title@ == standalone_title(attachment)
                            &&& import.item.abstract_note is None
                            &&& import.item.doi is None
                            &&& match attachment.raw_metadata {
                                Some(m) => import.item.raw == m,
                                None => import.item.raw matches JsonValue::Object(members)
                                    && (forall|key: Seq<char>|
                                    #![trigger lookup(members, key)]
                                    lookup(members, key) == if key == "title"@ {
                                        Some(JsonValue::Str(attachment.filename))
                                    } else {
                                        None
                                    }),
                            }
                            &&& import.attachments@.len() == 1
                            &&& import.attachments@[0] == attachment
                        })
                    } else {
                        r is Orphaned && new_s.len() == old_s.len() + 1 && new_s.take(
                            old_s.len() as int,
                        ) == old_s && new_s.last().session_id == attachment.session_id
                            && new_s.last().items@.len() == 0 && new_s.last().attachments@
                            == seq![attachment] && new_s.last().outcome is None
                    },
                }
            }),
    {
        let ghost old_s = self.sessions@;
        proof {
            lemma_session_with_id_bounds(old_s, attachment.session_id, 0);
        }
        let mut index: Option<usize> = None;
        let mut i: usize = 0;
        while i < self.sessions.len() && index.is_none()
            invariant
                i <= self.sessions@.len(),
                self.sessions@ == old_s,
                index is None ==> session_with_id(old_s, attachment.session_id, 0)
                    == session_with_id(old_s, attachment.session_id, i as int),
                index matches Some(k) ==> session_with_id(old_s, attachment.session_id, 0)
                    == Some(k as int) && k < old_s.len(),
            decreases self.sessions.len() - i,
        {
            let same = match (&self.sessions[i].session_id, &attachment.session_id) {
                (Some(a), Some(b)) => crate::text::str_eq(a.as_str(), b.as_str()),
                (None, None) => true,
                _ => false,
            };
            if same {
                index = Some(i);
            }
            i = i + 1;
        }
        if index.is_none() && (attachment.session_id.is_none() || attachment.parent_item_id.is_some())
            && self.sessions.len() > 0 {
            index = Some(self.sessions.len() - 1);
        }
        match index {
            None => {
                if attachment.parent_item_id.is_none() {
                    let title = match &attachment.title {
                        Some(t) => {
                            proof {
                                crate::text::lemma_trim_empty_iff_blank(t@);
                            }
                            if crate::text::blank(t.as_str()) {
                                attachment.filename.clone()
                            } else {
                                t.clone()
                            }
                        },
                        None => attachment.filename.clone(),
                    };
                    let uri = match &attachment.raw_metadata {
                        Some(m) => match crate::json::get(m, "url") {
                            Some(JsonValue::Str(s)) => Some(s.clone()),
                            Some(_) => None,
                            None => match crate::json::get_str(m, "uri") {
                                Some(s) => Some(owned(s)),
                                None => None,
                            },
                        },
                        None => None,
                    };
                    let raw = match &attachment.raw_metadata {
                        Some(m) => m.duplicate(),
                        None => {
                            let mut members: Vec<(String, JsonValue)> = Vec::new();
                            members.push((owned("title"), JsonValue::Str(attachment.filename.clone())));
                            let obj = JsonValue::object(members);
                            proof {
                                let ms = members@;
                                assert forall|key: Seq<char>|
                                    #![trigger crate::json::first_member(ms, key)]
                                    crate::json::first_member(ms, key) == if key == "title"@ {
                                        Some(JsonValue::Str(attachment.filename))
                                    } else {
                                        None
                                    } by {
                                    assert(ms.drop_first() =~= Seq::<(String, JsonValue)>::empty());
                                    assert(crate::json::first_member(ms.drop_first(), key) is None);
                                }
                            }
                            obj
                        },
                    };
                    let item = ConnectorItem {
                        session_id: attachment.session_id.clone(),
                        uri,
                        connector_item_id: None,
                        item_type: Some(owned("attachment")),
                        title,
                        abstract_note: None,
                        doi: None,
                        raw,
                    };
                    let mut attachments: Vec<ConnectorAttachment> = Vec::new();
                    attachments.push(attachment);
                    return AttachmentRoute::Standalone(ConnectorImport { item, attachments });
                }
                let mut attachments: Vec<ConnectorAttachment> = Vec::new();
                let session_id = attachment.session_id.clone();
                attachments.push(attachment);
                self.sessions.push(
                    ConnectorSession { session_id, items: Vec::new(), attachments, outcome: None },
                );
                proof {
                    assert(self.sessions@.take(old_s.len() as int) =~= old_s);
                    assert(attachments@ =~= seq![attachment]);
                }
                AttachmentRoute::Orphaned
            },
            Some(k) => {
                match &self.sessions[k].outcome {
                    Some(dir) => {
                        return AttachmentRoute::SaveToItem { item_dir: dir.clone(), attachment };
                    },
                    None => {},
                }
                let mut all = Vec::new();
                core::mem::swap(&mut all, &mut self.sessions);
                let mut session = all.remove(k);
                session.attachments.push(attachment);
                all.insert(k, session);
                core::mem::swap(&mut all, &mut self.sessions);
                AttachmentRoute::Buffered
            },
        }
    }

    /// Drop the oldest imported sessions once more than
    /// [`MAX_COMPLETED_SESSIONS`] have completed, preserving order and every
    /// not-yet-imported session.
    pub fn prune_completed_sessions(&mut self)
        ensures
            final(self).spec_sessions() == pruned(old(self).spec_sessions()),
    {
        let mut completed: usize = 0;
        let mut i: usize = 0;
        let ghost s = self.sessions@;
        assert(s.skip(0) =~= s);
        while i < self.sessions.len()
            invariant
                i <= self.sessions@.len(),
                s == self.sessions@,
                completed_count(s) == completed + completed_count(s.skip(i as int)),
                completed <= i,
            decreases self.sessions.len() - i,
        {
            proof {
                assert(s.skip(i as int).drop_first() =~= s.skip(i + 1));
            }
            if self.sessions[i].outcome.is_some() {
                completed = completed + 1;
            }
            i = i + 1;
        }
        proof {
            assert(s.skip(i as int) =~= Seq::<ConnectorSession>::empty());
        }
        if completed <= MAX_COMPLETED_SESSIONS {
            return;
        }
        let mut to_drop: usize = completed - MAX_COMPLETED_SESSIONS;
        let ghost d = to_drop as nat;
        let mut rest: Vec<ConnectorSession> = Vec::new();
        core::mem::swap(&mut rest, &mut self.sessions);
        let mut kept: Vec<ConnectorSession> = Vec::new();
        while rest.len() > 0
            invariant
                drop_completed(s, d) == kept@ + drop_completed(rest@, to_drop as nat),
            decreases rest.len(),
        {
            let ghost before = rest@;
            let session = rest.remove(0);
            proof {
                assert(before.drop_first() =~= rest@);
                assert(before[0] == session);
            }
            if to_drop > 0 && session.outcome.is_some() {
                to_drop = to_drop - 1;
            } else {
                let ghost k0 = kept@;
                kept.push(session);
                proof {
                    assert(kept@ + drop_completed(rest@, to_drop as nat) =~= k0 + (seq![session]
                        + drop_completed(rest@, to_drop as nat)));
                }
            }
        }
        proof {
            assert(kept@ =~= drop_completed(s, d));
        }
        self.sessions = kept;
    }
}

/// Dropping imported sessions keeps every pending session, in order.
pub proof fn lemma_drop_completed_keeps_pending(s: Seq<ConnectorSession>, d: nat)
    ensures
        pending(drop_completed(s, d)) == pending(s),
    decreases s.len(),
{
    if s.len() > 0 {
        lemma_drop_completed_keeps_pending(s.drop_first(), if d > 0 && s[0].outcome is Some {
            (d - 1) as nat
        } else {
            d
        });
        if !(d > 0 && s[0].outcome is Some) {
            let t = drop_completed(s.drop_first(), d);
            assert((seq![s[0]] + t).drop_first() =~= t);
            assert((seq![s[0]] + t)[0] == s[0]);
        }
    }
}

/// Dropping `d` of the imported sessions leaves `completed - d` of them.
pub proof fn lemma_drop_completed_count(s: Seq<ConnectorSession>, d: nat)
    requires
        d <= completed_count(s),
    ensures
        completed_count(drop_completed(s, d)) == completed_count(s) - d,
    decreases s.len(),
{
    if s.len() > 0 {
        if d > 0 && s[0].outcome is Some {
            lemma_drop_completed_count(s.drop_first(), (d - 1) as nat);
        } else {
            lemma_drop_completed_count(s.drop_first(), d);
            let t = drop_completed(s.drop_first(), d);
            assert((seq![s[0]] + t).drop_first() =~= t);
            assert((seq![s[0]] + t)[0] == s[0]);
        }
    }
}

/// Pruning keeps every session that is not yet imported, in order, and
/// leaves at most [`MAX_COMPLETED_SESSIONS`] imported ones (all of them when
/// there were no more).
pub proof fn law_prune_bounds_completed_sessions(s: Seq<ConnectorSession>)
    ensures
        pending(pruned(s)) == pending(s),
        completed_count(pruned(s)) == if completed_count(s) > MAX_COMPLETED_SESSIONS {
            MAX_COMPLETED_SESSIONS as nat
        } else {
            completed_count(s)
        },
{
    if completed_count(s) > MAX_COMPLETED_SESSIONS {
        let d = (completed_count(s) - MAX_COMPLETED_SESSIONS) as nat;
        lemma_drop_completed_keeps_pending(s, d);
        lemma_drop_completed_count(s, d);
    }
}

} // verus!
