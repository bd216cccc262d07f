//! The confirmation dialogs of the workspace, as state machines: each holds
//! what it shows, and each button press gives the outcome the dialog emits.
use vstd::prelude::*;
use crate::text::{cat, cat3, u64_to_decimal, spec_decimal};

verus! {

/// An open document, by its UUID as a 128-bit value.
#[derive(Debug, Clone, Copy, PartialEq, Eq, Hash, Structural)]
pub struct DocumentId(pub u128);

/// How the user left the unsaved-changes dialog.
#[derive(Debug)]
pub enum UnsavedChangesOutcome {
    /// Close everything without saving.
    DiscardAll,
    /// Abort the close or quit.
    Cancelled,
    /// Save these documents first.
    SaveSelected(Vec<DocumentId>),
}

/// One document with unsaved changes.
#[derive(Debug, Clone)]
pub struct DirtySummaryEntry {
    pub id: DocumentId,
    pub name: String,
    pub summary: String,
}

/// What the unsaved-changes dialog is opened with.
#[derive(Debug, Clone)]
pub struct UnsavedChangesRequest {
    pub entries: Vec<DirtySummaryEntry>,
}

pub open spec fn has_id(s: Seq<(DocumentId, bool)>, id: DocumentId) -> bool {
    exists|i: int| 0 <= i < s.len() && s[i].0 == id
}

/// The check marks a list of `(document, checked)` pairs holds.
pub open spec fn check_map(s: Seq<(DocumentId, bool)>) -> Map<DocumentId, bool> {
    Map::new(|id: DocumentId| has_id(s, id), |id: DocumentId| s[choose|i: int| 0 <= i < s.len() && s[i].0 == id].1)
}

pub open spec fn distinct_ids(s: Seq<(DocumentId, bool)>) -> bool {
    forall|a: int, b: int| 0 <= a < s.len() && 0 <= b < s.len() && a != b ==> s[a].0 != s[b].0
}

/// The documents checked in a map of check marks.
pub open spec fn checked_ids(m: Map<DocumentId, bool>) -> Set<DocumentId> {
    m.dom().filter(|id: DocumentId| m[id])
}

proof fn lemma_check_at(s: Seq<(DocumentId, bool)>, i: int)
    requires
        distinct_ids(s),
        0 <= i < s.len(),
    ensures
        check_map(s).dom().contains(s[i].0),
        check_map(s)[s[i].0] == s[i].1,
{
    let j = choose|j: int| 0 <= j < s.len() && s[j].0 == s[i].0;
    assert(s[j].0 == s[i].0);
}

proof fn lemma_check_set(before: Seq<(DocumentId, bool)>, p: int, v: bool)
    requires
        distinct_ids(before),
        0 <= p < before.len(),
    ensures
        distinct_ids(before.update(p, (before[p].0, v))),
        check_map(before.update(p, (before[p].0, v))) == check_map(before).insert(before[p].0, v),
{
    let id = before[p].0;
    let after = before.update(p, (id, v));
    assert forall|a: int, b: int| 0 <= a < after.len() && 0 <= b < after.len() && a != b implies after[a].0 != after[b].0 by {
        assert(after[a].0 == before[a].0 && after[b].0 == before[b].0);
    }
    assert forall|x: DocumentId| has_id(after, x) <==> has_id(before, x) by {
        if has_id(after, x) {
            let k = choose|k: int| 0 <= k < after.len() && after[k].0 == x;
            assert(before[k].0 == x);
        }
        if has_id(before, x) {
            let k = choose|k: int| 0 <= k < before.len() && before[k].0 == x;
            assert(after[k].0 == x);
        }
    }
    assert(has_id(before, id));
    assert(check_map(after).dom() =~= check_map(before).insert(id, v).dom());
    assert forall|x: DocumentId| #[trigger] check_map(after).dom().contains(x) implies check_map(after)[x] == check_map(before).insert(id, v)[x] by {
        let k = choose|k: int| 0 <= k < after.len() && after[k].0 == x;
        lemma_check_at(after, k);
        if k != p {
            lemma_check_at(before, k);
        }
    }
    assert(check_map(after) =~= check_map(before).insert(id, v));
}

proof fn lemma_check_push(before: Seq<(DocumentId, bool)>, id: DocumentId, v: bool)
    requires
        distinct_ids(before),
        !has_id(before, id),
    ensures
        distinct_ids(before.push((id, v))),
        check_map(before.push((id, v))) == check_map(before).insert(id, v),
{
    let after = before.push((id, v));
    assert forall|a: int, b: int| 0 <= a < after.len() && 0 <= b < after.len() && a != b implies after[a].0 != after[b].0 by {
        if a < before.len() && b < before.len() {
            assert(after[a] == before[a] && after[b] == before[b]);
        } else if a < before.len() {
            assert(after[a] == before[a]);
        } else {
            assert(after[b] == before[b]);
        }
    }
    assert forall|x: DocumentId| has_id(after, x) <==> (has_id(before, x) || x == id) by {
        if has_id(after, x) {
            let k = choose|k: int| 0 <= k < after.len() && after[k].0 == x;
            if k < before.len() {
                assert(before[k].0 == x);
            }
        }
        if has_id(before, x) {
            let k = choose|k: int| 0 <= k < before.len() && before[k].0 == x;
            assert(after[k].0 == x);
        }
        if x == id {
            assert(after[before.len() as int].0 == x);
        }
    }
    assert(check_map(after).dom() =~= check_map(before).insert(id, v).dom());
    assert forall|x: DocumentId| #[trigger] check_map(after).dom().contains(x) implies check_map(after)[x] == check_map(before).insert(id, v)[x] by {
        let k = choose|k: int| 0 <= k < after.len() && after[k].0 == x;
        lemma_check_at(after, k);
        if k < before.len() {
            assert(after[k] == before[k]);
            lemma_check_at(before, k);
        }
    }
    assert(check_map(after) =~= check_map(before).insert(id, v));
}

proof fn lemma_push_unique<A>(s: Seq<A>, v: A)
    requires
        s.no_duplicates(),
        !s.contains(v),
    ensures
        s.push(v).no_duplicates(),
        forall|x: A| s.push(v).contains(x) <==> (s.contains(x) || x == v),
{
    let t = s.push(v);
    assert forall|i: int, j: int| 0 <= i < t.len() && 0 <= j < t.len() && i != j implies t[i] != t[j] by {
        if i < s.len() && j < s.len() {
            assert(t[i] == s[i] && t[j] == s[j]);
        } else if i < s.len() {
            assert(t[i] == s[i]);
        } else {
            assert(t[j] == s[j]);
        }
    }
    assert forall|x: A| t.contains(x) <==> (s.contains(x) || x == v) by {
        if t.contains(x) {
            let k = choose|k: int| 0 <= k < t.len() && t[k] == x;
            if k < s.len() {
                assert(s[k] == x);
            }
        }
        if s.contains(x) {
            let k = choose|k: int| 0 <= k < s.len() && s[k] == x;
            assert(t[k] == x);
        }
        if x == v {
            assert(t[s.len() as int] == x);
        }
    }
}

/// The dialog that lists documents with unsaved changes before a close or
/// quit, each with a check mark saying whether to save it.
#[derive(Debug)]
pub struct ModalUnsavedChanges {
    entries: Vec<DirtySummaryEntry>,
    selected: Vec<(DocumentId, bool)>,
    visible: bool,
}

impl ModalUnsavedChanges {
    pub closed spec fn wf(&self) -> bool {
        distinct_ids(self.selected@)
    }

    /// The documents listed.
    pub closed spec fn listed(&self) -> Seq<DirtySummaryEntry> {
        self.entries@
    }

    /// The check mark of each document that has one.
    pub closed spec fn checks(&self) -> Map<DocumentId, bool> {
        check_map(self.selected@)
    }

    pub closed spec fn shown(&self) -> bool {
        self.visible
    }

    /// A hidden dialog listing nothing.
    pub fn new() -> (r: ModalUnsavedChanges)
        ensures
            r.wf(),
            !r.shown(),
            r.listed().len() == 0,
            r.checks() == Map::<DocumentId, bool>::empty(),
    {
        let r = ModalUnsavedChanges { entries: Vec::new(), selected: Vec::new(), visible: false };
        assert(r.checks() =~= Map::<DocumentId, bool>::empty());
        r
    }

    pub fn is_visible(&self) -> (r: bool)
        ensures
            r == self.shown(),
    {
        self.visible
    }

    /// Shows the request's documents, every one checked.
    pub fn open(&mut self, request: UnsavedChangesRequest)
        ensures
            final(self).wf(),
            final(self).shown(),
            final(self).listed() == request.entries@,
            final(self).checks() == Map::new(
                |id: DocumentId| exists|i: int| 0 <= i < request.entries.len() && request.entries@[i].id == id,
                |id: DocumentId| true,
            ),
    {
        let entries = request.entries;
        let mut selected: Vec<(DocumentId, bool)> = Vec::new();
        let mut i: usize = 0;
        while i < entries.len()
            invariant
                i <= entries.len(),
                distinct_ids(selected@),
                forall|j: int| 0 <= j < selected.len() ==> (#[trigger] selected@[j]).1,
                forall|id: DocumentId| has_id(selected@, id) <==> exists|j: int| 0 <= j < i && (#[trigger] entries@[j]).id == id,
            decreases entries.len() - i,
        {
            let id = entries[i].id;
            let ghost before = selected@;
            match position_of(&selected, id) {
                Some(p) => {
                    assert(selected@[p as int].0 == id);
                },
                None => {
                    selected.push((id, true));
                    proof {
                        lemma_check_push(before, id, true);
                        assert(check_map(selected@).dom() == check_map(before).dom().insert(id));
                    }
                },
            }
            proof {
                assert forall|x: DocumentId| has_id(selected@, x) <==> (has_id(before, x) || x == id) by {
                    assert(check_map(selected@).dom().contains(x) == has_id(selected@, x));
                    assert(check_map(before).dom().contains(x) == has_id(before, x));
                }
                assert forall|x: DocumentId| has_id(selected@, x) <==> exists|j: int| 0 <= j < i + 1 && (#[trigger] entries@[j]).id == x by {
                    assert(has_id(before, x) <==> exists|j: int| 0 <= j < i && (#[trigger] entries@[j]).id == x);
                    if x == id {
                        assert(entries@[i as int].id == x);
                    } else if exists|j: int| 0 <= j < i + 1 && (#[trigger] entries@[j]).id == x {
                        let j = choose|j: int| 0 <= j < i + 1 && (#[trigger] entries@[j]).id == x;
                        assert(j < i);
                    }
                }
                assert forall|j: int| 0 <= j < selected.len() implies (#[trigger] selected@[j]).1 by {
                    if j < before.len() {
                        assert(selected@[j] == before[j]);
                    }
                }
            }
            i = i + 1;
        }
        self.entries = entries;
        self.selected = selected;
        self.visible = true;
        assert(check_map(self.selected@) =~= Map::new(
            |id: DocumentId| exists|i: int| 0 <= i < self.entries.len() && self.entries@[i].id == id,
            |id: DocumentId| true,
        ));
    }

    /// Hides the dialog and forgets its documents.
    pub fn close(&mut self)
        ensures
            final(self).wf(),
            !final(self).shown(),
            final(self).listed().len() == 0,
            final(self).checks() == Map::<DocumentId, bool>::empty(),
    {
        self.visible = false;
        self.entries = Vec::new();
        self.selected = Vec::new();
        assert(check_map(self.selected@) =~= Map::<DocumentId, bool>::empty());
    }

    /// Flips the check mark of a document; one without a mark becomes
    /// checked.
    pub fn toggle(&mut self, id: DocumentId)
        requires
            old(self).wf(),
        ensures
            final(self).wf(),
            final(self).shown() == old(self).shown(),
            final(self).listed() == old(self).listed(),
            final(self).checks() == old(self).checks().insert(
                id,
                !(old(self).checks().dom().contains(id) && old(self).checks()[id]),
            ),
    {
        let ghost before = self.selected@;
        let ghost old_checks = check_map(before);
        let mut selected: Vec<(DocumentId, bool)> = Vec::new();
        std::mem::swap(&mut selected, &mut self.selected);
        match position_of(&selected, id) {
            Some(p) => {
                let was = selected[p].1;
                proof {
                    lemma_check_at(before, p as int);
                    lemma_check_set(before, p as int, !was);
                }
                selected.set(p, (id, !was));
            },
            None => {
                proof {
                    lemma_check_push(before, id, true);
                }
                selected.push((id, true));
            },
        }
        self.selected = selected;
    }

    /// How many documents are checked.
    pub fn selected_count(&self) -> (r: usize)
        requires
            self.wf(),
        ensures
            r == checked_ids(self.checks()).len(),
    {
        let (count, _) = self.checked();
        count
    }

    /// The checked documents, each once.
    pub fn selected_ids(&self) -> (r: Vec<DocumentId>)
        requires
            self.wf(),
        ensures
            r@.no_duplicates(),
            r@.to_set() == checked_ids(self.checks()),
    {
        let (_, ids) = self.checked();
        ids
    }

    fn checked(&self) -> (r: (usize, Vec<DocumentId>))
        requires
            self.wf(),
        ensures
            r.1@.no_duplicates(),
            r.1@.to_set() == checked_ids(self.checks()),
            r.0 == checked_ids(self.checks()).len(),
            r.0 == r.1.len(),
    {
        let ghost s = self.selected@;
        let mut ids: Vec<DocumentId> = Vec::new();
        let mut i: usize = 0;
        while i < self.selected.len()
            invariant
                i <= self.selected.len(),
                s == self.selected@,
                distinct_ids(s),
                ids.len() <= i,
                ids@.no_duplicates(),
                forall|x: DocumentId| ids@.contains(x) <==> exists|j: int| 0 <= j < i && s[j].0 == x && s[j].1,
            decreases self.selected.len() - i,
        {
            let (id, checked) = self.selected[i];
            if checked {
                proof {
                    assert(!ids@.contains(id)) by {
                        if ids@.contains(id) {
                            let j = choose|j: int| 0 <= j < i && s[j].0 == id && s[j].1;
                            assert(s[j].0 == s[i as int].0);
                        }
                    }
                    lemma_push_unique(ids@, id);
                }
                let ghost old_ids = ids@;
                ids.push(id);
                proof {
                    assert forall|x: DocumentId| ids@.contains(x) <==> exists|j: int| 0 <= j < i + 1 && s[j].0 == x && s[j].1 by {
                        assert(ids@.contains(x) == (old_ids.contains(x) || x == id));
                        if exists|j: int| 0 <= j < i + 1 && s[j].0 == x && s[j].1 {
                            let j = choose|j: int| 0 <= j < i + 1 && s[j].0 == x && s[j].1;
                            if j == i {
                                assert(x == id);
                            }
                        }
                    }
                }
            } else {
                proof {
                    assert forall|x: DocumentId| ids@.contains(x) <==> exists|j: int| 0 <= j < i + 1 && s[j].0 == x && s[j].1 by {
                        if exists|j: int| 0 <= j < i + 1 && s[j].0 == x && s[j].1 {
                            let j = choose|j: int| 0 <= j < i + 1 && s[j].0 == x && s[j].1;
                            assert(j != i);
                        }
                    }
                }
            }
            i = i + 1;
        }
        proof {
            let m = check_map(s);
            assert forall|x: DocumentId| ids@.to_set().contains(x) <==> checked_ids(m).contains(x) by {
                if ids@.contains(x) {
                    let j = choose|j: int| 0 <= j < i && s[j].0 == x && s[j].1;
                    lemma_check_at(s, j);
                }
                if checked_ids(m).contains(x) {
                    let j = choose|j: int| 0 <= j < s.len() && s[j].0 == x;
                    lemma_check_at(s, j);
                }
            }
            assert(ids@.to_set() =~= checked_ids(m));
            ids@.unique_seq_to_set();
        }
        (ids.len(), ids)
    }

    /// "Don't save": the dialog closes and everything is discarded.
    pub fn discard_all(&mut self) -> (r: UnsavedChangesOutcome)
        ensures
            r is DiscardAll,
            final(self).wf(),
            !final(self).shown(),
            final(self).listed().len() == 0,
            final(self).checks() == Map::<DocumentId, bool>::empty(),
    {
        self.close();
        UnsavedChangesOutcome::DiscardAll
    }

    /// "Cancel": the dialog closes and the close or quit is aborted.
    pub fn cancel(&mut self) -> (r: UnsavedChangesOutcome)
        ensures
            r is Cancelled,
            final(self).wf(),
            !final(self).shown(),
            final(self).listed().len() == 0,
            final(self).checks() == Map::<DocumentId, bool>::empty(),
    {
        self.close();
        UnsavedChangesOutcome::Cancelled
    }

    /// "Save selected": with nothing checked the button is disabled and
    /// nothing happens; else the dialog closes asking to save the checked
    /// documents.
    pub fn save_selected(&mut self) -> (r: Option<UnsavedChangesOutcome>)
        requires
            old(self).wf(),
        ensures
            final(self).wf(),
            checked_ids(old(self).checks()).len() == 0 ==> r is None && *final(self) == *old(self),
            checked_ids(old(self).checks()).len() > 0 ==> (r matches Some(UnsavedChangesOutcome::SaveSelected(ids))
                && ids@.no_duplicates() && ids@.to_set() == checked_ids(old(self).checks())
                && !final(self).shown() && final(self).listed().len() == 0
                && final(self).checks() == Map::<DocumentId, bool>::empty()),
    {
        let (count, ids) = self.checked();
        if count == 0 {
            return None;
        }
        self.close();
        Some(UnsavedChangesOutcome::SaveSelected(ids))
    }

    /// The label of the save button: `Save selected (<count>)`.
    pub fn save_label(&self) -> (r: String)
        requires
            self.wf(),
        ensures
            r@ == "Save selected ("@ + spec_decimal(checked_ids(self.checks()).len()) + ")"@,
    {
        let count = self.selected_count();
        let digits = u64_to_decimal(count as u64);
        cat3("Save selected (", digits.as_str(), ")")
    }
}

fn position_of(s: &Vec<(DocumentId, bool)>, id: DocumentId) -> (r: Option<usize>)
    ensures
        match r {
            Some(p) => p < s.len() && s@[p as int].0 == id,
            None => !has_id(s@, id),
        },
{
    let mut i: usize = 0;
    while i < s.len()
        invariant
            i <= s.len(),
            forall|j: int| 0 <= j < i ==> s@[j].0 != id,
        decreases s.len() - i,
    {
        if s[i].0 == id {
            return Some(i);
        }
        i = i + 1;
    }
    None
}

/// How the user left the delete-connection dialog.
#[derive(Debug, Clone, Copy, PartialEq, Eq, Structural)]
pub enum DeleteConnectionOutcome {
    Confirmed,
    Cancelled,
}

/// What the delete-connection dialog is opened with.
#[derive(Debug, Clone)]
pub struct DeleteConnectionRequest {
    pub connection_name: String,
    /// Whether documents of this connection are open (the dialog then warns
    /// they will be closed).
    pub has_open_documents: bool,
}

/// The dialog that confirms deleting a connection.
#[derive(Debug)]
pub struct ModalDeleteConnection {
    pub request: Option<DeleteConnectionRequest>,
    pub visible: bool,
}

impl ModalDeleteConnection {
    pub fn new() -> (r: ModalDeleteConnection)
        ensures
            !r.visible,
            r.request is None,
    {
        ModalDeleteConnection { request: None, visible: false }
    }

    pub fn is_visible(&self) -> (r: bool)
        ensures
            r == self.visible,
    {
        self.visible
    }

    pub fn open(&mut self, request: DeleteConnectionRequest)
        ensures
            final(self).visible,
            final(self).request == Some(request),
    {
        self.request = Some(request);
        self.visible = true;
    }

    pub fn close(&mut self)
        ensures
            !final(self).visible,
            final(self).request is None,
    {
        self.visible = false;
        self.request = None;
    }

    /// "Delete" or "Cancel": the dialog closes and says which.
    pub fn resolve(&mut self, confirmed: bool) -> (r: DeleteConnectionOutcome)
        ensures
            r == (if confirmed { DeleteConnectionOutcome::Confirmed } else { DeleteConnectionOutcome::Cancelled }),
            !final(self).visible,
            final(self).request is None,
    {
        self.close();
        if confirmed {
            DeleteConnectionOutcome::Confirmed
        } else {
            DeleteConnectionOutcome::Cancelled
        }
    }
}

/// How the user left the SSH passphrase dialog.
#[derive(Debug)]
pub enum TunnelAuthOutcome {
    /// A passphrase, and whether to remember it for the session.
    Provided { passphrase: String, remember: bool },
    Cancelled,
}

/// What the SSH passphrase dialog is opened with.
#[derive(Debug, Clone)]
pub struct TunnelAuthRequest {
    /// The tunnel profile's UUID, as its 128-bit value.
    pub tunnel_id: u128,
    pub tunnel_name: String,
    pub host: String,
    pub port: u16,
    pub user: String,
    /// Whether the previous passphrase was rejected.
    pub last_attempt_failed: bool,
}

impl TunnelAuthRequest {
    /// An empty passphrase is refused; any other is accepted.
    pub fn validate_passphrase(passphrase: &str) -> (r: Result<(), &'static str>)
        ensures
            passphrase@.len() == 0 ==> (r matches Err(m) && m@ == "Passphrase cannot be empty"@),
            passphrase@.len() > 0 ==> r is Ok,
    {
        if passphrase.is_empty() {
            Err("Passphrase cannot be empty")
        } else {
            Ok(())
        }
    }

    /// The connection line the dialog shows: `Host: <host>:<port> · User: <user>`.
    pub fn connection_detail(&self) -> (r: String)
        ensures
            r@ == "Host: "@ + self.host@ + ":"@ + spec_decimal(self.port as nat) + " · User: "@ + self.user@,
    {
        let port = u64_to_decimal(self.port as u64);
        let head = cat3("Host: ", self.host.as_str(), ":");
        let middle = cat(head.as_str(), port.as_str());
        cat3(middle.as_str(), " · User: ", self.user.as_str())
    }
}

/// The dialog that asks for an SSH key's passphrase.
#[derive(Debug)]
pub struct ModalTunnelAuth {
    pub request: Option<TunnelAuthRequest>,
    pub visible: bool,
    /// Whether to remember the passphrase for the session.
    pub remember: bool,
}

impl ModalTunnelAuth {
    pub fn new() -> (r: ModalTunnelAuth)
        ensures
            r.request is None,
            !r.visible,
            r.remember,
    {
        ModalTunnelAuth { request: None, visible: false, remember: true }
    }

    pub fn is_visible(&self) -> (r: bool)
        ensures
            r == self.visible,
    {
        self.visible
    }

    /// Shows the request, with "remember" checked again.
    pub fn open(&mut self, request: TunnelAuthRequest)
        ensures
            final(self).request == Some(request),
            final(self).visible,
            final(self).remember,
    {
        self.remember = true;
        self.request = Some(request);
        self.visible = true;
    }

    pub fn close(&mut self)
        ensures
            final(self).request is None,
            !final(self).visible,
            final(self).remember == old(self).remember,
    {
        self.visible = false;
        self.request = None;
    }

    /// "Connect" with the typed passphrase: refused while it is empty;
    /// else the dialog closes and hands it on with the remember choice.
    pub fn connect(&mut self, passphrase: String) -> (r: Option<TunnelAuthOutcome>)
        ensures
            passphrase@.len() == 0 ==> r is None && *final(self) == *old(self),
            passphrase@.len() > 0 ==> (r matches Some(TunnelAuthOutcome::Provided { passphrase: p, remember })
                && p@ == passphrase@ && remember == old(self).remember
                && final(self).request is None && !final(self).visible),
    {
        if TunnelAuthRequest::validate_passphrase(passphrase.as_str()).is_err() {
            return None;
        }
        let remember = self.remember;
        self.close();
        Some(TunnelAuthOutcome::Provided { passphrase, remember })
    }

    /// "Cancel": the dialog closes and the connection attempt is abandoned.
    pub fn cancel(&mut self) -> (r: TunnelAuthOutcome)
        ensures
            r is Cancelled,
            final(self).request is None,
            !final(self).visible,
    {
        self.close();
        TunnelAuthOutcome::Cancelled
    }
}

} // verus!
