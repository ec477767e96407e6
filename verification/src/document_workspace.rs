//! The open documents, as tabs: each has an id that is never given out
//! twice, and at most one of them is active.
use vstd::prelude::*;

use crate::document_session::DocumentSession;
use crate::text::{path_components, portable_path};

verus! {

/// The id of an open document.
#[derive(Clone, Copy, Debug, PartialEq, Eq, Hash, Structural)]
pub struct DocumentId(pub u64);

/// A tab of the tab bar: the document's id and path, and whether it is the
/// active one.
pub struct DocumentTab<'a> {
    pub id: DocumentId,
    pub path: &'a str,
    pub is_active: bool,
}

/// The open documents in tab order, which of them is active, and the next
/// id to give out.
pub struct DocumentWorkspace {
    next_document_id: u64,
    active_index: Option<usize>,
    documents: Vec<DocumentEntry>,
}

/// A document taken out of the workspace together with its tab position,
/// so that it can be put back.
pub struct ActiveDocumentSession {
    index: usize,
    entry: DocumentEntry,
}

struct DocumentEntry {
    id: DocumentId,
    session: DocumentSession,
}

/// The model of a workspace.
pub struct WorkspaceV {
    pub ids: Seq<u64>,
    pub sessions: Seq<DocumentSession>,
    pub active: Option<int>,
    pub next_id: u64,
}

impl View for DocumentWorkspace {
    type V = WorkspaceV;

    closed spec fn view(&self) -> WorkspaceV {
        WorkspaceV {
            ids: self.documents@.map_values(|e: DocumentEntry| e.id.0),
            sessions: self.documents@.map_values(|e: DocumentEntry| e.session),
            active: match self.active_index {
                Some(i) => Some(i as int),
                None => None,
            },
            next_id: self.next_document_id,
        }
    }
}

impl View for ActiveDocumentSession {
    type V = (int, u64, DocumentSession);

    closed spec fn view(&self) -> (int, u64, DocumentSession) {
        (self.index as int, self.entry.id.0, self.entry.session)
    }
}

/// A well-formed workspace: one id per document, no id twice, every id
/// below the next one, and a document active exactly when there is one.
pub open spec fn workspace_wf(w: WorkspaceV) -> bool {
    &&& w.ids.len() == w.sessions.len()
    &&& 0 < w.next_id
    &&& forall|i: int, j: int| 0 <= i < j < w.ids.len() ==> #[trigger] w.ids[i] != #[trigger] w.ids[j]
    &&& forall|i: int| 0 <= i < w.ids.len() ==> 0 < #[trigger] w.ids[i] < w.next_id
    &&& match w.active {
        Some(a) => 0 <= a < w.ids.len(),
        None => w.ids.len() == 0,
    }
}

/// The position of the document with id `id`, searching from `i`.
pub open spec fn id_position_from(ids: Seq<u64>, id: u64, i: int) -> Option<int>
    decreases ids.len() - i,
{
    if i < 0 || i >= ids.len() {
        None
    } else if ids[i] == id {
        Some(i)
    } else {
        id_position_from(ids, id, i + 1)
    }
}

/// The position of the document with id `id`.
pub open spec fn id_position(ids: Seq<u64>, id: u64) -> Option<int> {
    id_position_from(ids, id, 0)
}

proof fn lemma_id_position_from(ids: Seq<u64>, id: u64, i: int)
    requires
        0 <= i,
    ensures
        match id_position_from(ids, id, i) {
            Some(k) => i <= k < ids.len() && ids[k] == id,
            None => forall|j: int| i <= j < ids.len() ==> #[trigger] ids[j] != id,
        },
    decreases ids.len() - i,
{
    if i < ids.len() && ids[i] != id {
        lemma_id_position_from(ids, id, i + 1);
    }
}

/// Where the id sits: at the found position, and nowhere when none is found.
pub proof fn lemma_id_position(ids: Seq<u64>, id: u64)
    ensures
        match id_position(ids, id) {
            Some(k) => 0 <= k < ids.len() && ids[k] == id,
            None => forall|j: int| 0 <= j < ids.len() ==> #[trigger] ids[j] != id,
        },
{
    lemma_id_position_from(ids, id, 0);
}

/// The active tab after the tab at `index` closed, among `remaining` tabs:
/// its right neighbour, else its left one, when the closed tab was active;
/// the same document otherwise.
pub open spec fn active_after_close(active: Option<int>, index: int, remaining: nat) -> Option<int> {
    match active {
        Some(a) => if a == index {
            if remaining == 0 {
                None
            } else if index < remaining {
                Some(index)
            } else {
                Some(remaining - 1)
            }
        } else if a > index {
            Some(a - 1)
        } else {
            Some(a)
        },
        None => None,
    }
}

/// The workspace after taking out the active document.
pub open spec fn after_take(w: WorkspaceV) -> WorkspaceV {
    match w.active {
        Some(a) => WorkspaceV {
            ids: w.ids.remove(a),
            sessions: w.sessions.remove(a),
            active: active_after_close(w.active, a, (w.ids.len() - 1) as nat),
            next_id: w.next_id,
        },
        None => w,
    }
}

/// The workspace after putting back a document taken from position `index`:
/// over the tab of the same id if there is one, else at its old position (or
/// at the end, when fewer tabs are left); either way it becomes active.
pub open spec fn after_restore(w: WorkspaceV, index: int, id: u64, session: DocumentSession) -> WorkspaceV {
    match id_position(w.ids, id) {
        Some(k) => WorkspaceV {
            ids: w.ids,
            sessions: w.sessions.update(k, session),
            active: Some(k),
            next_id: w.next_id,
        },
        None => {
            let at = if index < w.ids.len() {
                index
            } else {
                w.ids.len() as int
            };
            WorkspaceV {
                ids: w.ids.insert(at, id),
                sessions: w.sessions.insert(at, session),
                active: Some(at),
                next_id: w.next_id,
            }
        },
    }
}

impl ActiveDocumentSession {
    /// The id of the taken document.
    pub fn id(&self) -> (r: DocumentId)
        ensures
            r.0 == self@.1,
    {
        self.entry.id
    }

    /// The taken document's session.
    pub fn session(&self) -> (r: &DocumentSession)
        ensures
            *r == self@.2,
    {
        &self.entry.session
    }
}

impl DocumentWorkspace {
    /// A workspace with no documents; the first id given out is 1.
    pub fn new() -> (r: Self)
        ensures
            r@.ids.len() == 0,
            r@.sessions.len() == 0,
            r@.active is None,
            r@.next_id == 1,
            workspace_wf(r@),
    {
        let r = DocumentWorkspace { next_document_id: 1, active_index: None, documents: Vec::new() };
        assert(r@.ids =~= Seq::<u64>::empty());
        r
    }

    /// Whether no document is open.
    pub fn is_empty(&self) -> (r: bool)
        ensures
            r == (self@.ids.len() == 0),
    {
        self.documents.len() == 0
    }

    fn active_index(&self) -> (r: Option<usize>)
        requires
            workspace_wf(self@),
        ensures
            match r {
                Some(i) => self@.active == Some(i as int) && i < self.documents@.len(),
                None => self@.active is None,
            },
    {
        self.active_index
    }

    /// The session of the active document.
    pub fn active_session(&self) -> (r: Option<&DocumentSession>)
        requires
            workspace_wf(self@),
        ensures
            match self@.active {
                Some(a) => r == Some(&self@.sessions[a]),
                None => r is None,
            },
    {
        match self.active_index() {
            Some(index) => Some(&self.documents[index].session),
            None => None,
        }
    }

    /// The id of the active document.
    pub fn active_document_id(&self) -> (r: Option<DocumentId>)
        requires
            workspace_wf(self@),
        ensures
            match self@.active {
                Some(a) => r == Some(DocumentId(self@.ids[a])),
                None => r is None,
            },
    {
        match self.active_index() {
            Some(index) => Some(self.documents[index].id),
            None => None,
        }
    }

    /// The path of the active document.
    pub fn current_file(&self) -> (r: Option<&str>)
        requires
            workspace_wf(self@),
        ensures
            match self@.active {
                Some(a) => r is Some && r->0@ == self@.sessions[a].path@,
                None => r is None,
            },
    {
        match self.active_index() {
            Some(index) => Some(self.documents[index].session.path.as_str()),
            None => None,
        }
    }

    /// The tabs, in order.
    pub fn document_tabs(&self) -> (r: Vec<DocumentTab<'_>>)
        requires
            workspace_wf(self@),
        ensures
            r@.len() == self@.ids.len(),
            forall|i: int|
                0 <= i < r@.len() ==> {
                    &&& (#[trigger] r@[i]).id == DocumentId(self@.ids[i])
                    &&& r@[i].path@ == self@.sessions[i].path@
                    &&& r@[i].is_active == (self@.active == Some(i))
                },
    {
        let ghost w = self@;
        let mut tabs: Vec<DocumentTab<'_>> = Vec::new();
        let mut i: usize = 0;
        while i < self.documents.len()
            invariant
                w == self@,
                workspace_wf(w),
                w.ids.len() == self.documents@.len(),
                i <= self.documents@.len(),
                tabs@.len() == i,
                forall|j: int|
                    0 <= j < i ==> {
                        &&& (#[trigger] tabs@[j]).id == DocumentId(w.ids[j])
                        &&& tabs@[j].path@ == w.sessions[j].path@
                        &&& tabs@[j].is_active == (w.active == Some(j))
                    },
            decreases self.documents.len() - i,
        {
            let entry = &self.documents[i];
            let is_active = match self.active_index {
                Some(a) => a == i,
                None => false,
            };
            tabs.push(DocumentTab { id: entry.id, path: entry.session.path.as_str(), is_active });
            i = i + 1;
        }
        tabs
    }

    fn index_for_id(&self, document_id: DocumentId) -> (r: Option<usize>)
        ensures
            match r {
                Some(k) => id_position(self@.ids, document_id.0) == Some(k as int),
                None => id_position(self@.ids, document_id.0) is None,
            },
    {
        let ghost ids = self@.ids;
        let mut i: usize = 0;
        while i < self.documents.len()
            invariant
                ids == self@.ids,
                ids.len() == self.documents@.len(),
                i <= self.documents@.len(),
                id_position_from(ids, document_id.0, i as int) == id_position_from(
                    ids,
                    document_id.0,
                    0,
                ),
            decreases self.documents.len() - i,
        {
            if self.documents[i].id == document_id {
                return Some(i);
            }
            i = i + 1;
        }
        None
    }

    fn allocate_document_id(&mut self) -> (r: DocumentId)
        requires
            old(self)@.next_id < u64::MAX,
        ensures
            r.0 == old(self)@.next_id,
            final(self)@ == (WorkspaceV { next_id: (old(self)@.next_id + 1) as u64, ..old(self)@ }),
    {
        let document_id = DocumentId(self.next_document_id);
        self.next_document_id = self.next_document_id + 1;
        document_id
    }

    /// Opens a document in a new tab at the end, makes it active and gives
    /// its new id.
    pub fn open_document(&mut self, session: DocumentSession) -> (r: DocumentId)
        requires
            workspace_wf(old(self)@),
            old(self)@.next_id < u64::MAX,
        ensures
            workspace_wf(final(self)@),
            r.0 == old(self)@.next_id,
            final(self)@.ids == old(self)@.ids.push(r.0),
            final(self)@.sessions == old(self)@.sessions.push(session),
            final(self)@.active == Some(old(self)@.ids.len() as int),
            final(self)@.next_id == old(self)@.next_id + 1,
    {
        let ghost w = self@;
        let id = self.allocate_document_id();
        self.documents.push(DocumentEntry { id, session });
        self.active_index = Some(self.documents.len() - 1);
        assert(self@.ids =~= w.ids.push(id.0));
        assert(self@.sessions =~= w.sessions.push(session));
        proof {
            lemma_fresh_id_keeps_wf(w, self@, id.0);
        }
        id
    }

    /// Shows `session` in the active tab, under a new id, or opens it in a
    /// new tab when none is active.
    pub fn replace_active_session(&mut self, session: DocumentSession) -> (r: DocumentId)
        requires
            workspace_wf(old(self)@),
            old(self)@.next_id < u64::MAX,
        ensures
            workspace_wf(final(self)@),
            r.0 == old(self)@.next_id,
            final(self)@.next_id == old(self)@.next_id + 1,
            match old(self)@.active {
                Some(a) => {
                    &&& final(self)@.ids == old(self)@.ids.update(a, r.0)
                    &&& final(self)@.sessions == old(self)@.sessions.update(a, session)
                    &&& final(self)@.active == Some(a)
                },
                None => {
                    &&& final(self)@.ids == old(self)@.ids.push(r.0)
                    &&& final(self)@.sessions == old(self)@.sessions.push(session)
                    &&& final(self)@.active == Some(old(self)@.ids.len() as int)
                },
            },
    {
        let ghost w = self@;
        let id = self.allocate_document_id();
        match self.active_index() {
            Some(index) => {
                self.documents.set(index, DocumentEntry { id, session });
                self.active_index = Some(index);
                assert(self@.ids =~= w.ids.update(index as int, id.0));
                assert(self@.sessions =~= w.sessions.update(index as int, session));
                proof {
                    lemma_fresh_id_keeps_wf(w, self@, id.0);
                }
            },
            None => {
                self.documents.push(DocumentEntry { id, session });
                self.active_index = Some(self.documents.len() - 1);
                assert(self@.ids =~= w.ids.push(id.0));
                assert(self@.sessions =~= w.sessions.push(session));
                proof {
                    lemma_fresh_id_keeps_wf(w, self@, id.0);
                }
            },
        }
        id
    }

    /// The same as `replace_active_session`.
    pub fn open_or_replace_active(&mut self, session: DocumentSession) -> (r: DocumentId)
        requires
            workspace_wf(old(self)@),
            old(self)@.next_id < u64::MAX,
        ensures
            workspace_wf(final(self)@),
            r.0 == old(self)@.next_id,
            final(self)@.next_id == old(self)@.next_id + 1,
            match old(self)@.active {
                Some(a) => {
                    &&& final(self)@.ids == old(self)@.ids.update(a, r.0)
                    &&& final(self)@.sessions == old(self)@.sessions.update(a, session)
                    &&& final(self)@.active == Some(a)
                },
                None => {
                    &&& final(self)@.ids == old(self)@.ids.push(r.0)
                    &&& final(self)@.sessions == old(self)@.sessions.push(session)
                    &&& final(self)@.active == Some(old(self)@.ids.len() as int)
                },
            },
    {
        self.replace_active_session(session)
    }

    /// Makes the document with this id active; `false`, and no change, when
    /// no open document has it.
    pub fn switch_to(&mut self, document_id: DocumentId) -> (r: bool)
        requires
            workspace_wf(old(self)@),
        ensures
            workspace_wf(final(self)@),
            match id_position(old(self)@.ids, document_id.0) {
                Some(k) => r && final(self)@ == (WorkspaceV { active: Some(k), ..old(self)@ }),
                None => !r && final(self)@ == old(self)@,
            },
    {
        proof {
            lemma_id_position(self@.ids, document_id.0);
        }
        match self.index_for_id(document_id) {
            Some(index) => {
                self.active_index = Some(index);
                true
            },
            None => false,
        }
    }

    /// Closes the document with this id and gives its session back; the
    /// active tab stays on the same document, or moves to the closed tab's
    /// right neighbour (else its left one) when the closed tab was active.
    pub fn close(&mut self, document_id: DocumentId) -> (r: Option<DocumentSession>)
        requires
            workspace_wf(old(self)@),
        ensures
            workspace_wf(final(self)@),
            match id_position(old(self)@.ids, document_id.0) {
                Some(k) => {
                    &&& r == Some(old(self)@.sessions[k])
                    &&& final(self)@.ids == old(self)@.ids.remove(k)
                    &&& final(self)@.sessions == old(self)@.sessions.remove(k)
                    &&& final(self)@.active == active_after_close(
                        old(self)@.active,
                        k,
                        (old(self)@.ids.len() - 1) as nat,
                    )
                    &&& final(self)@.next_id == old(self)@.next_id
                },
                None => r is None && final(self)@ == old(self)@,
            },
    {
        let ghost w = self@;
        proof {
            lemma_id_position(w.ids, document_id.0);
        }
        let index = match self.index_for_id(document_id) {
            Some(index) => index,
            None => return None,
        };
        let entry = self.documents.remove(index);
        let remaining = self.documents.len();
        self.active_index = match self.active_index {
            Some(active_index) => if active_index == index {
                if remaining == 0 {
                    None
                } else if index < remaining {
                    Some(index)
                } else {
                    Some(remaining - 1)
                }
            } else if active_index > index {
                Some(active_index - 1)
            } else {
                Some(active_index)
            },
            None => None,
        };
        assert(self@.ids =~= w.ids.remove(index as int));
        assert(self@.sessions =~= w.sessions.remove(index as int));
        proof {
            lemma_remove_keeps_ids_wf(w, index as int);
        }
        Some(entry.session)
    }

    /// Closes every document.
    pub fn clear_active_session(&mut self)
        requires
            workspace_wf(old(self)@),
        ensures
            workspace_wf(final(self)@),
            final(self)@.ids.len() == 0,
            final(self)@.sessions.len() == 0,
            final(self)@.active is None,
            final(self)@.next_id == old(self)@.next_id,
    {
        self.documents.clear();
        self.active_index = None;
        assert(self@.ids =~= Seq::<u64>::empty());
    }

    /// Takes the active document out, with its position, so that it can be
    /// worked on and put back; the tab after it (else before it) becomes
    /// active.
    pub fn take_active_session(&mut self) -> (r: Option<ActiveDocumentSession>)
        requires
            workspace_wf(old(self)@),
        ensures
            workspace_wf(final(self)@),
            final(self)@ == after_take(old(self)@),
            match old(self)@.active {
                Some(a) => r is Some && r->0@ == (a, old(self)@.ids[a], old(self)@.sessions[a]),
                None => r is None,
            },
    {
        let ghost w = self@;
        let index = match self.active_index() {
            Some(index) => index,
            None => return None,
        };
        let entry = self.documents.remove(index);
        let remaining = self.documents.len();
        self.active_index = if remaining == 0 {
            None
        } else if index < remaining {
            Some(index)
        } else {
            Some(remaining - 1)
        };
        assert(self@.ids =~= w.ids.remove(index as int));
        assert(self@.sessions =~= w.sessions.remove(index as int));
        proof {
            lemma_remove_keeps_ids_wf(w, index as int);
        }
        Some(ActiveDocumentSession { index, entry })
    }

    /// Puts back a document taken with `take_active_session` and makes it
    /// active.
    pub fn restore_active_session(&mut self, active_session: ActiveDocumentSession)
        requires
            workspace_wf(old(self)@),
            0 < active_session@.1 < old(self)@.next_id,
        ensures
            workspace_wf(final(self)@),
            final(self)@ == after_restore(
                old(self)@,
                active_session@.0,
                active_session@.1,
                active_session@.2,
            ),
    {
        let ghost w = self@;
        proof {
            lemma_id_position(w.ids, active_session@.1);
        }
        if let Some(index) = self.index_for_id(active_session.entry.id) {
            self.documents.set(index, active_session.entry);
            self.active_index = Some(index);
            assert(self@.ids =~= w.ids);
            assert(self@.sessions =~= w.sessions.update(index as int, active_session@.2));
            return;
        }
        let index = if active_session.index < self.documents.len() {
            active_session.index
        } else {
            self.documents.len()
        };
        let ghost id = active_session@.1;
        let ghost session = active_session@.2;
        self.documents.insert(index, active_session.entry);
        self.active_index = Some(index);
        assert(self@.ids =~= w.ids.insert(index as int, id));
        assert(self@.sessions =~= w.sessions.insert(index as int, session));
        assert forall|i: int, j: int| 0 <= i < j < self@.ids.len() implies #[trigger] self@.ids[i]
            != #[trigger] self@.ids[j] by {
            let ids2 = self@.ids;
            if i < index {
                assert(ids2[i] == w.ids[i]);
            } else if i > index {
                assert(ids2[i] == w.ids[i - 1]);
            }
            if j < index {
                assert(ids2[j] == w.ids[j]);
            } else if j > index {
                assert(ids2[j] == w.ids[j - 1]);
            }
        }
        assert forall|i: int| 0 <= i < self@.ids.len() implies 0 < #[trigger] self@.ids[i]
            < self@.next_id by {
            if i < index {
                assert(self@.ids[i] == w.ids[i]);
            } else if i > index {
                assert(self@.ids[i] == w.ids[i - 1]);
            }
        }
    }
}

/// Placing the fresh id `w.next_id` in a tab, at the end or over another id,
/// keeps the ids distinct and below the next id.
proof fn lemma_fresh_id_keeps_wf(w: WorkspaceV, w2: WorkspaceV, id: u64)
    requires
        workspace_wf(w),
        id == w.next_id,
        w2.next_id == w.next_id + 1,
        w2.ids.len() == w2.sessions.len(),
        w2.active matches Some(a) && 0 <= a < w2.ids.len(),
        w2.ids == w.ids.push(id) || exists|k: int| 0 <= k < w.ids.len() && w2.ids == w.ids.update(k, id),
    ensures
        workspace_wf(w2),
{
    assert forall|i: int| 0 <= i < w2.ids.len() implies 0 < #[trigger] w2.ids[i] < w2.next_id by {
        if w2.ids[i] != id {
            if w2.ids == w.ids.push(id) {
                assert(w2.ids[i] == w.ids[i]);
            } else {
                let k = choose|k: int| 0 <= k < w.ids.len() && w2.ids == w.ids.update(k, id);
                assert(w2.ids[i] == w.ids[i]);
            }
        }
    }
    assert forall|i: int, j: int| 0 <= i < j < w2.ids.len() implies #[trigger] w2.ids[i]
        != #[trigger] w2.ids[j] by {
        if w2.ids[i] != id && w2.ids[j] != id {
            if w2.ids == w.ids.push(id) {
                assert(w2.ids[i] == w.ids[i] && w2.ids[j] == w.ids[j]);
            } else {
                let k = choose|k: int| 0 <= k < w.ids.len() && w2.ids == w.ids.update(k, id);
                assert(w2.ids[i] == w.ids[i] && w2.ids[j] == w.ids[j]);
            }
        } else if w2.ids[i] == id {
            assert(w.ids.contains(w2.ids[j]) || w2.ids[j] == id);
            if w2.ids[j] == id {
                if w2.ids != w.ids.push(id) {
                    let k = choose|k: int| 0 <= k < w.ids.len() && w2.ids == w.ids.update(k, id);
                    assert(i == k || w2.ids[i] == w.ids[i]);
                    assert(j == k || w2.ids[j] == w.ids[j]);
                }
            }
        } else {
            assert(w.ids.contains(w2.ids[i]));
        }
    }
}

proof fn lemma_remove_keeps_ids_wf(w: WorkspaceV, k: int)
    requires
        workspace_wf(w),
        0 <= k < w.ids.len(),
    ensures
        forall|i: int, j: int|
            0 <= i < j < w.ids.remove(k).len() ==> #[trigger] w.ids.remove(k)[i]
                != #[trigger] w.ids.remove(k)[j],
        forall|i: int| 0 <= i < w.ids.remove(k).len() ==> 0 < #[trigger] w.ids.remove(k)[i] < w.next_id,
{
    let r = w.ids.remove(k);
    assert forall|i: int, j: int| 0 <= i < j < r.len() implies #[trigger] r[i] != #[trigger] r[j] by {
        let oi = if i < k { i } else { i + 1 };
        let oj = if j < k { j } else { j + 1 };
        assert(r[i] == w.ids[oi]);
        assert(r[j] == w.ids[oj]);
    }
    assert forall|i: int| 0 <= i < r.len() implies 0 < #[trigger] r[i] < w.next_id by {
        let oi = if i < k { i } else { i + 1 };
        assert(r[i] == w.ids[oi]);
    }
}

/// Taking the active document out and putting it back restores the
/// workspace exactly: the same tabs in the same order, the same one active.
pub proof fn law_take_then_restore(w: WorkspaceV)
    requires
        workspace_wf(w),
        w.active is Some,
    ensures
        ({
            let a = w.active->0;
            after_restore(after_take(w), a, w.ids[a], w.sessions[a]) == w
        }),
{
    let a = w.active->0;
    let t = after_take(w);
    lemma_remove_keeps_ids_wf(w, a);
    lemma_id_position(t.ids, w.ids[a]);
    assert forall|j: int| 0 <= j < t.ids.len() implies #[trigger] t.ids[j] != w.ids[a] by {
        let oj = if j < a { j } else { j + 1 };
        assert(t.ids[j] == w.ids[oj]);
    }
    assert(id_position(t.ids, w.ids[a]) is None);
    assert(a <= t.ids.len());
    assert(t.ids.insert(a, w.ids[a]) =~= w.ids);
    assert(t.sessions.insert(a, w.sessions[a]) =~= w.sessions);
}

/// Switching to a document that is open makes exactly that document active
/// and changes nothing else.
pub proof fn law_switch_to_open_document(w: WorkspaceV, k: int)
    requires
        workspace_wf(w),
        0 <= k < w.ids.len(),
    ensures
        id_position(w.ids, w.ids[k]) == Some(k),
{
    lemma_id_position(w.ids, w.ids[k]);
    let p = id_position(w.ids, w.ids[k]);
    if let Some(q) = p {
        if q != k {
            assert(w.ids[q] == w.ids[k]);
        }
    }
}

/// A tab whose session has the path text `path`.
pub open spec fn has_path(w: WorkspaceV, path: Seq<char>) -> bool {
    exists|i: int| 0 <= i < w.sessions.len() && (#[trigger] w.sessions[i]).path@ == path
}

impl DocumentWorkspace {
    /// The id of the first tab showing `path` (compared as paths), so that
    /// opening a file that is already open switches to its tab: a tab with
    /// the same text is always found, and the tab found may show the same
    /// path (the same text, when both paths are canonical) while every tab
    /// before it shows another text.
    pub fn document_id_for_path(&self, path: &str) -> (r: Option<DocumentId>)
        requires
            workspace_wf(self@),
        ensures
            has_path(self@, path@) ==> r is Some,
            r matches Some(id) ==> exists|k: int|
                {
                    &&& 0 <= k < self@.ids.len()
                    &&& self@.ids[k] == id.0
                    &&& crate::session::may_be_same_path(#[trigger] self@.sessions[k].path@, path@)
                    &&& forall|j: int| 0 <= j < k ==> (#[trigger] self@.sessions[j]).path@ != path@
                },
            (forall|k: int|
                0 <= k < self@.sessions.len() ==> portable_path(#[trigger] self@.sessions[k].path@))
                && portable_path(path@) ==> match r {
                Some(id) => exists|k: int|
                    {
                        &&& 0 <= k < self@.ids.len()
                        &&& self@.ids[k] == id.0
                        &&& path_components(#[trigger] self@.sessions[k].path@) == path_components(path@)
                        &&& forall|j: int|
                            0 <= j < k ==> path_components(#[trigger] self@.sessions[j].path@)
                                != path_components(path@)
                    },
                None => forall|k: int|
                    0 <= k < self@.sessions.len() ==> path_components(#[trigger] self@.sessions[k].path@)
                        != path_components(path@),
            },
    {
        let ghost w = self@;
        let ghost portable = (forall|k: int|
            0 <= k < w.sessions.len() ==> portable_path(#[trigger] w.sessions[k].path@))
            && portable_path(path@);
        let mut i: usize = 0;
        while i < self.documents.len()
            invariant
                w == self@,
                workspace_wf(w),
                w.ids.len() == self.documents@.len(),
                i <= self.documents@.len(),
                forall|k: int| 0 <= k < i ==> (#[trigger] w.sessions[k]).path@ != path@,
                portable == ((forall|k: int|
                    0 <= k < w.sessions.len() ==> portable_path(#[trigger] w.sessions[k].path@))
                    && portable_path(path@)),
                portable ==> forall|k: int|
                    0 <= k < i ==> path_components(#[trigger] w.sessions[k].path@) != path_components(
                        path@,
                    ),
            decreases self.documents.len() - i,
        {
            assert(w.sessions[i as int] == self.documents@[i as int].session);
            proof {
                if portable {
                    assert(portable_path(w.sessions[i as int].path@));
                }
            }
            if crate::session::same_path(self.documents[i].session.path.as_str(), path) {
                assert(w.ids[i as int] == self.documents@[i as int].id.0);
                assert(crate::session::may_be_same_path(w.sessions[i as int].path@, path@));
                return Some(self.documents[i].id);
            }
            i = i + 1;
        }
        None
    }
}

/// Opening a file only when no tab shows its path, and switching to the
/// tab otherwise, never leaves two tabs with the same path text: if the
/// tabs' paths were distinct before, they stay distinct after opening.
pub proof fn law_open_unless_shown_keeps_paths_distinct(
    w: WorkspaceV,
    session: DocumentSession,
)
    requires
        forall|i: int, j: int|
            0 <= i < j < w.sessions.len() ==> (#[trigger] w.sessions[i]).path@ != (
            #[trigger] w.sessions[j]).path@,
        !has_path(w, session.path@),
    ensures
        ({
            let s = w.sessions.push(session);
            forall|i: int, j: int|
                0 <= i < j < s.len() ==> (#[trigger] s[i]).path@ != (#[trigger] s[j]).path@
        }),
{
    let s = w.sessions.push(session);
    assert forall|i: int, j: int| 0 <= i < j < s.len() implies (#[trigger] s[i]).path@ != (
    #[trigger] s[j]).path@ by {
        if j == w.sessions.len() {
            assert(s[i] == w.sessions[i]);
        } else {
            assert(s[i] == w.sessions[i] && s[j] == w.sessions[j]);
        }
    }
}

impl DocumentWorkspace {
    /// The session of the active document, to change it.
    pub fn active_session_mut(&mut self) -> (r: Option<&mut DocumentSession>)
        requires
            workspace_wf(old(self)@),
        ensures
            final(self)@.ids == old(self)@.ids,
            final(self)@.active == old(self)@.active,
            final(self)@.next_id == old(self)@.next_id,
            match old(self)@.active {
                Some(a) => r matches Some(s) && *s == old(self)@.sessions[a] && final(self)@.sessions
                    == old(self)@.sessions.update(a, *final(s)),
                None => r is None && final(self)@.sessions == old(self)@.sessions,
            },
    {
        match self.active_index {
            Some(index) => {
                let entry = entry_at_mut(&mut self.documents, index);
                let session = session_of_mut(entry);
                Some(session)
            },
            None => None,
        }
    }
}

impl DocumentWorkspace {
    /// The session of the document with this id, to change it.
    pub fn active_session_mut_for_id(&mut self, document_id: DocumentId) -> (r: Option<
        &mut DocumentSession,
    >)
        requires
            workspace_wf(old(self)@),
        ensures
            final(self)@.ids == old(self)@.ids,
            final(self)@.active == old(self)@.active,
            final(self)@.next_id == old(self)@.next_id,
            match id_position(old(self)@.ids, document_id.0) {
                Some(k) => r matches Some(s) && *s == old(self)@.sessions[k] && final(self)@.sessions
                    == old(self)@.sessions.update(k, *final(s)),
                None => r is None && final(self)@.sessions == old(self)@.sessions,
            },
    {
        proof {
            lemma_id_position(old(self)@.ids, document_id.0);
        }
        match self.index_for_id(document_id) {
            Some(index) => {
                let entry = entry_at_mut(&mut self.documents, index);
                let session = session_of_mut(entry);
                Some(session)
            },
            None => None,
        }
    }
}

fn entry_at_mut(entries: &mut Vec<DocumentEntry>, i: usize) -> (entry: &mut DocumentEntry)
    requires
        i < old(entries)@.len(),
    ensures
        *entry == old(entries)@[i as int],
        final(entries)@ == old(entries)@.update(i as int, *final(entry)),
{
    &mut entries[i]
}

fn session_of_mut(entry: &mut DocumentEntry) -> (session: &mut DocumentSession)
    ensures
        *session == old(entry).session,
        *final(entry) == (DocumentEntry { session: *final(session), ..*old(entry) }),
{
    &mut entry.session
}

/// Closing a tab other than the active one leaves the same document
/// active; closing the active tab makes its right neighbour active, else
/// its left one, and none only when no tab is left.
pub proof fn law_close_keeps_active_document(w: WorkspaceV, k: int)
    requires
        workspace_wf(w),
        0 <= k < w.ids.len(),
    ensures
        ({
            let rest = w.ids.remove(k);
            let after = active_after_close(w.active, k, (w.ids.len() - 1) as nat);
            let a = w.active.unwrap();
            &&& w.active is Some && a != k ==> (after matches Some(b) && 0 <= b < rest.len()
                && rest[b] == w.ids[a])
            &&& w.active == Some(k) && k + 1 < w.ids.len() ==> (after matches Some(b) && rest[b]
                == w.ids[k + 1])
            &&& w.active == Some(k) && k + 1 == w.ids.len() && k > 0 ==> (after matches Some(b)
                && rest[b] == w.ids[k - 1])
            &&& w.active is Some ==> (after is None <==> rest.len() == 0)
        }),
{
}

} // verus!
