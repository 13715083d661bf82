//! The cheque lifecycle: a store of documents and their cheques, the status
//! transitions of a cheque, print tracking and document locking.

use vstd::prelude::*;
use crate::errors::{LifecycleError, RecordKind};
use crate::text::{blank, is_blank, same_text};

verus! {

/// The approval state of a cheque.
#[derive(Debug, Clone, Copy, PartialEq, Eq, Structural)]
pub enum ChequeStatus {
    Pending,
    Approved,
    Declined,
}

/// The user recorded as first signer when a cheque is approved.
pub const ACTING_SIGNER_ID: i64 = 1;

/// An uploaded source file, parent of the cheques read from it.
pub struct Document {
    pub id: i64,
    pub file_name: String,
    pub file_data: Vec<u8>,
    /// Seconds since the Unix epoch.
    pub created_at: i64,
    pub is_locked: bool,
}

/// One cheque read from a document.
pub struct Cheque {
    pub id: i64,
    pub document_id: i64,
    pub cheque_number: String,
    /// The amount in cents.
    pub amount_cents: u64,
    pub client_name: String,
    pub status: ChequeStatus,
    pub issue_date: Option<String>,
    pub date_field: Option<String>,
    pub remarks: Option<String>,
    pub decline_reason: Option<String>,
    pub current_signatures: u8,
    pub first_signature_user_id: Option<i64>,
    pub second_signature_user_id: Option<i64>,
    pub print_count: u64,
    /// Seconds since the Unix epoch.
    pub created_at: i64,
}

/// The documents and cheques of the workflow, with the ids that the next
/// inserted rows receive.
pub struct ChequeStore {
    pub documents: Vec<Document>,
    pub cheques: Vec<Cheque>,
    pub next_document_id: i64,
    pub next_cheque_id: i64,
}

pub open spec fn has_document(docs: Seq<Document>, id: i64) -> bool {
    exists|i: int| 0 <= i < docs.len() && (#[trigger] docs[i]).id == id
}

pub open spec fn has_cheque(cheques: Seq<Cheque>, id: i64) -> bool {
    exists|i: int| 0 <= i < cheques.len() && (#[trigger] cheques[i]).id == id
}

/// Signature bookkeeping of one cheque: at most two signatures, a first
/// signer exactly when there is one, and an approved cheque is signed.
pub open spec fn cheque_wf(c: Cheque) -> bool {
    &&& c.current_signatures <= 2
    &&& (c.current_signatures >= 1 <==> c.first_signature_user_id is Some)
    &&& (c.status == ChequeStatus::Approved ==> c.current_signatures >= 1)
}

/// The status that a status name denotes, if any.
pub open spec fn status_named(s: Seq<char>) -> Option<ChequeStatus> {
    if s == "Approved"@ {
        Some(ChequeStatus::Approved)
    } else if s == "Declined"@ {
        Some(ChequeStatus::Declined)
    } else if s == "Pending"@ {
        Some(ChequeStatus::Pending)
    } else {
        None
    }
}

/// The name stored for a status.
pub open spec fn status_text(s: ChequeStatus) -> Seq<char> {
    match s {
        ChequeStatus::Pending => "Pending"@,
        ChequeStatus::Approved => "Approved"@,
        ChequeStatus::Declined => "Declined"@,
    }
}

impl ChequeStatus {
    /// The name stored for the status.
    pub fn name(&self) -> (r: &'static str)
        ensures
            r@ == status_text(*self),
    {
        match self {
            ChequeStatus::Pending => "Pending",
            ChequeStatus::Approved => "Approved",
            ChequeStatus::Declined => "Declined",
        }
    }
}

/// The document with its lock set.
pub open spec fn locked(d: Document) -> Document {
    Document { is_locked: true, ..d }
}

/// The documents after locking every one with id `id`.
pub open spec fn lock_in(docs: Seq<Document>, id: i64) -> Seq<Document> {
    docs.map_values(|d: Document| if d.id == id { locked(d) } else { d })
}

/// The cheques after applying `f` to every one with id `id`.
pub open spec fn update_cheque(cheques: Seq<Cheque>, id: i64, f: spec_fn(Cheque) -> Cheque) -> Seq<
    Cheque,
> {
    cheques.map_values(|c: Cheque| if c.id == id { f(c) } else { c })
}

/// A cheque after a transition to `status`: approving records one signature
/// by the acting signer; remarks are replaced only when given; nothing else
/// changes.
pub open spec fn transitioned(c: Cheque, status: ChequeStatus, remarks: Option<String>) -> Cheque {
    let signed = if status == ChequeStatus::Approved {
        Cheque {
            status,
            current_signatures: 1,
            first_signature_user_id: Some(ACTING_SIGNER_ID),
            ..c
        }
    } else {
        Cheque { status, ..c }
    };
    if remarks is Some {
        Cheque { remarks, ..signed }
    } else {
        signed
    }
}

/// A cheque declined for `reason`, which becomes its remarks too.
pub open spec fn declined(c: Cheque, reason: String) -> Cheque {
    Cheque {
        status: ChequeStatus::Declined,
        decline_reason: Some(reason),
        remarks: Some(reason),
        ..c
    }
}

/// A cheque with its issue date set.
pub open spec fn with_issue_date(c: Cheque, date: String) -> Cheque {
    Cheque { issue_date: Some(date), ..c }
}

/// A cheque printed once more.
pub open spec fn printed(c: Cheque) -> Cheque {
    Cheque { print_count: (c.print_count + 1) as u64, ..c }
}

/// Reads a status name: "Pending", "Approved" or "Declined".
pub fn parse_status(name: &str) -> (r: Result<ChequeStatus, LifecycleError>)
    ensures
        match status_named(name@) {
            Some(st) => r == Ok::<ChequeStatus, LifecycleError>(st),
            None => r == Err::<ChequeStatus, LifecycleError>(LifecycleError::InvalidStatus),
        },
{
    if same_text(name, "Approved") {
        Ok(ChequeStatus::Approved)
    } else if same_text(name, "Declined") {
        Ok(ChequeStatus::Declined)
    } else if same_text(name, "Pending") {
        Ok(ChequeStatus::Pending)
    } else {
        Err(LifecycleError::InvalidStatus)
    }
}

/// The columns one status transition writes: the status always, the
/// signature of `signer` when there is one, and the remarks when given.
pub struct StatusChange {
    pub status: ChequeStatus,
    pub signer: Option<i64>,
    pub remarks: Option<String>,
}

/// A cheque with a status change written to it.
pub open spec fn changed(c: Cheque, ch: StatusChange) -> Cheque {
    let moved = Cheque { status: ch.status, ..c };
    let signed = if ch.signer is Some {
        Cheque { current_signatures: 1, first_signature_user_id: ch.signer, ..moved }
    } else {
        moved
    };
    if ch.remarks is Some {
        Cheque { remarks: ch.remarks, ..signed }
    } else {
        signed
    }
}

/// Decides a status transition of cheque `cheque_id`, which exists or not:
/// the status name is checked first, then the cheque's existence; the change
/// returned writes exactly what `transitioned` describes.
pub fn plan_status_change(
    new_status: &str,
    cheque_id: i64,
    exists: bool,
    remarks: Option<String>,
) -> (r: Result<StatusChange, LifecycleError>)
    ensures
        status_named(new_status@) is None ==> r == Err::<StatusChange, LifecycleError>(
            LifecycleError::InvalidStatus,
        ),
        status_named(new_status@) is Some && !exists ==> r == Err::<StatusChange, LifecycleError>(
            LifecycleError::NotFound { kind: RecordKind::Cheque, id: cheque_id },
        ),
        status_named(new_status@) is Some && exists ==> r is Ok && r->Ok_0.status == status_named(
            new_status@,
        )->0 && forall|c: Cheque| #[trigger]
            changed(c, r->Ok_0) == transitioned(c, status_named(new_status@)->0, remarks),
{
    let status = match parse_status(new_status) {
        Ok(st) => st,
        Err(e) => return Err(e),
    };
    if !exists {
        return Err(LifecycleError::NotFound { kind: RecordKind::Cheque, id: cheque_id });
    }
    let signer = if status == ChequeStatus::Approved {
        Some(ACTING_SIGNER_ID)
    } else {
        None
    };
    Ok(StatusChange { status, signer, remarks })
}

/// Writes a status change to a cheque.
pub fn apply_status_change(c: &mut Cheque, ch: StatusChange)
    ensures
        *final(c) == changed(*old(c), ch),
{
    c.status = ch.status;
    if ch.signer.is_some() {
        c.current_signatures = 1;
        c.first_signature_user_id = ch.signer;
    }
    if ch.remarks.is_some() {
        c.remarks = ch.remarks;
    }
}

/// Fails with `NotFound` for a record that does not exist.
pub fn require_found(kind: RecordKind, id: i64, exists: bool) -> (r: Result<(), LifecycleError>)
    ensures
        exists ==> r is Ok,
        !exists ==> r == Err::<(), LifecycleError>(LifecycleError::NotFound { kind, id }),
{
    if exists {
        Ok(())
    } else {
        Err(LifecycleError::NotFound { kind, id })
    }
}

/// Judges an update keyed by id by the rows it affected: none means the
/// record does not exist.
pub fn rows_verdict(kind: RecordKind, id: i64, rows_affected: u64) -> (r: Result<(), LifecycleError>)
    ensures
        rows_affected > 0 ==> r is Ok,
        rows_affected == 0 ==> r == Err::<(), LifecycleError>(LifecycleError::NotFound { kind, id }),
{
    require_found(kind, id, rows_affected > 0)
}

/// Decides a decline of cheque `cheque_id`: a blank reason is refused
/// first, then a missing cheque.
pub fn decline_verdict(cheque_id: i64, reason: &str, exists: bool) -> (r: Result<(), LifecycleError>)
    ensures
        is_blank(reason@) ==> r == Err::<(), LifecycleError>(LifecycleError::EmptyReason),
        !is_blank(reason@) && !exists ==> r == Err::<(), LifecycleError>(
            LifecycleError::NotFound { kind: RecordKind::Cheque, id: cheque_id },
        ),
        !is_blank(reason@) && exists ==> r is Ok,
{
    if blank(reason) {
        return Err(LifecycleError::EmptyReason);
    }
    require_found(RecordKind::Cheque, cheque_id, exists)
}

/// Decides a rename of document `document_id`: a blank name is refused
/// first, then a missing document.
pub fn rename_verdict(document_id: i64, new_name: &str, exists: bool) -> (r: Result<
    (),
    LifecycleError,
>)
    ensures
        is_blank(new_name@) ==> r == Err::<(), LifecycleError>(LifecycleError::EmptyName),
        !is_blank(new_name@) && !exists ==> r == Err::<(), LifecycleError>(
            LifecycleError::NotFound { kind: RecordKind::Document, id: document_id },
        ),
        !is_blank(new_name@) && exists ==> r is Ok,
{
    if blank(new_name) {
        return Err(LifecycleError::EmptyName);
    }
    require_found(RecordKind::Document, document_id, exists)
}

/// Decides a deletion from the document's lock state, `None` when it does
/// not exist: a missing document is not found, a locked one is kept.
pub fn deletion_verdict(document_id: i64, lock_state: Option<bool>) -> (r: Result<(), LifecycleError>)
    ensures
        lock_state is None ==> r == Err::<(), LifecycleError>(
            LifecycleError::NotFound { kind: RecordKind::Document, id: document_id },
        ),
        lock_state == Some(true) ==> r == Err::<(), LifecycleError>(LifecycleError::Locked),
        lock_state == Some(false) ==> r is Ok,
{
    match lock_state {
        None => Err(LifecycleError::NotFound { kind: RecordKind::Document, id: document_id }),
        Some(true) => Err(LifecycleError::Locked),
        Some(false) => Ok(()),
    }
}

/// Whether a document is locked, from its lock state, `None` when it does
/// not exist.
pub fn lock_state_verdict(document_id: i64, lock_state: Option<bool>) -> (r: Result<
    bool,
    LifecycleError,
>)
    ensures
        match lock_state {
            Some(b) => r == Ok::<bool, LifecycleError>(b),
            None => r == Err::<bool, LifecycleError>(
                LifecycleError::NotFound { kind: RecordKind::Document, id: document_id },
            ),
        },
{
    match lock_state {
        Some(b) => Ok(b),
        None => Err(LifecycleError::NotFound { kind: RecordKind::Document, id: document_id }),
    }
}

/// Replacing the cheque at `i` by `f` of it, keeping its id, its parent and
/// its signature bookkeeping, is applying `f` by id and keeps the store
/// well formed.
proof fn lemma_put_cheque(
    before: &ChequeStore,
    after: &ChequeStore,
    i: int,
    f: spec_fn(Cheque) -> Cheque,
)
    requires
        before.wf(),
        0 <= i < before.cheques@.len(),
        after.documents@ == before.documents@,
        after.next_document_id == before.next_document_id,
        after.next_cheque_id == before.next_cheque_id,
        after.cheques@ == before.cheques@.update(i, f(before.cheques@[i])),
        f(before.cheques@[i]).id == before.cheques@[i].id,
        f(before.cheques@[i]).document_id == before.cheques@[i].document_id,
        cheque_wf(f(before.cheques@[i])),
    ensures
        after.wf(),
        after.cheques@ == update_cheque(before.cheques@, before.cheques@[i].id, f),
{
    let old_cs = before.cheques@;
    let id = old_cs[i].id;
    assert(after.cheques@ =~= update_cheque(old_cs, id, f)) by {
        assert forall|k: int| 0 <= k < old_cs.len() implies after.cheques@[k] == (if old_cs[k].id
            == id {
            f(old_cs[k])
        } else {
            old_cs[k]
        }) by {
            if k != i {
                assert(old_cs[k].id != old_cs[i].id);
            }
        }
    }
    assert forall|a: int, b: int|
        0 <= a < b < after.cheques@.len() implies (#[trigger] after.cheques@[a]).id
            != (#[trigger] after.cheques@[b]).id by {
        assert(after.cheques@[a].id == old_cs[a].id);
        assert(after.cheques@[b].id == old_cs[b].id);
    }
    assert forall|k: int| 0 <= k < after.cheques@.len() implies has_document(
        after.documents@,
        (#[trigger] after.cheques@[k]).document_id,
    ) by {
        assert(after.cheques@[k].document_id == old_cs[k].document_id);
    }
    assert forall|k: int| 0 <= k < after.cheques@.len() implies 1 <= (
    #[trigger] after.cheques@[k]).id < after.next_cheque_id by {
        assert(after.cheques@[k].id == old_cs[k].id);
    }
    assert forall|k: int| 0 <= k < after.cheques@.len() implies cheque_wf(
        #[trigger] after.cheques@[k],
    ) by {
        if k != i {
            assert(after.cheques@[k] == old_cs[k]);
        }
    }
}

/// The document with a new name.
pub open spec fn renamed(d: Document, name: String) -> Document {
    Document { file_name: name, ..d }
}

/// The documents after renaming every one with id `id`.
pub open spec fn rename_in(docs: Seq<Document>, id: i64, name: String) -> Seq<Document> {
    docs.map_values(|d: Document| if d.id == id { renamed(d, name) } else { d })
}

/// The document with id `id` is locked.
pub open spec fn document_locked(docs: Seq<Document>, id: i64) -> bool {
    exists|i: int| 0 <= i < docs.len() && (#[trigger] docs[i]).id == id && docs[i].is_locked
}

/// The documents other than the one with id `id`.
pub open spec fn documents_without(docs: Seq<Document>, id: i64) -> Seq<Document> {
    docs.filter(|d: Document| d.id != id)
}

/// The cheques that do not belong to document `id`.
pub open spec fn cheques_without(cheques: Seq<Cheque>, id: i64) -> Seq<Cheque> {
    cheques.filter(|c: Cheque| c.document_id != id)
}

/// A freshly ingested cheque: pending, dated the ingestion day, unsigned
/// and never printed.
pub open spec fn new_cheque(
    id: i64,
    document_id: i64,
    cheque_number: String,
    amount_cents: u64,
    client_name: String,
    today: String,
    created_at: i64,
) -> Cheque {
    Cheque {
        id,
        document_id,
        cheque_number,
        amount_cents,
        client_name,
        status: ChequeStatus::Pending,
        issue_date: Some(today),
        date_field: Some(today),
        remarks: None,
        decline_reason: None,
        current_signatures: 0,
        first_signature_user_id: None,
        second_signature_user_id: None,
        print_count: 0,
        created_at,
    }
}

impl ChequeStore {
    /// Ids are unique and below the next ids handed out, every cheque has its
    /// parent document, and every cheque keeps its signature bookkeeping.
    pub open spec fn wf(&self) -> bool {
        &&& self.next_document_id >= 1
        &&& self.next_cheque_id >= 1
        &&& forall|i: int, j: int|
            0 <= i < j < self.documents@.len() ==> (#[trigger] self.documents@[i]).id
                != (#[trigger] self.documents@[j]).id
        &&& forall|i: int, j: int|
            0 <= i < j < self.cheques@.len() ==> (#[trigger] self.cheques@[i]).id
                != (#[trigger] self.cheques@[j]).id
        &&& forall|i: int|
            0 <= i < self.documents@.len() ==> 1 <= (#[trigger] self.documents@[i]).id
                < self.next_document_id
        &&& forall|i: int|
            0 <= i < self.cheques@.len() ==> 1 <= (#[trigger] self.cheques@[i]).id
                < self.next_cheque_id
        &&& forall|i: int|
            0 <= i < self.cheques@.len() ==> has_document(
                self.documents@,
                (#[trigger] self.cheques@[i]).document_id,
            )
        &&& forall|i: int| 0 <= i < self.cheques@.len() ==> cheque_wf(#[trigger] self.cheques@[i])
    }

    /// An empty store.
    pub fn new() -> (r: ChequeStore)
        ensures
            r.wf(),
            r.documents@.len() == 0,
            r.cheques@.len() == 0,
    {
        ChequeStore { documents: Vec::new(), cheques: Vec::new(), next_document_id: 1, next_cheque_id: 1 }
    }

    /// Stores an uploaded file as a new, unlocked document and returns its
    /// id.
    pub fn insert_document(&mut self, file_name: String, file_data: Vec<u8>, created_at: i64) -> (r:
        Result<i64, LifecycleError>)
        requires
            old(self).wf(),
        ensures
            final(self).wf(),
            final(self).cheques@ == old(self).cheques@,
            final(self).next_cheque_id == old(self).next_cheque_id,
            old(self).next_document_id == i64::MAX ==> r == Err::<i64, LifecycleError>(
                LifecycleError::Storage,
            ) && *final(self) == *old(self),
            old(self).next_document_id < i64::MAX ==> r == Ok::<i64, LifecycleError>(
                old(self).next_document_id,
            ) && final(self).next_document_id == old(self).next_document_id + 1
                && final(self).documents@ == old(self).documents@.push(
                Document {
                    id: old(self).next_document_id,
                    file_name,
                    file_data,
                    created_at,
                    is_locked: false,
                },
            ),
    {
        if self.next_document_id == i64::MAX {
            return Err(LifecycleError::Storage);
        }
        let id = self.next_document_id;
        let ghost before = self.documents@;
        self.documents.push(Document { id, file_name, file_data, created_at, is_locked: false });
        self.next_document_id = id + 1;
        assert forall|c: int| 0 <= c < self.cheques@.len() implies has_document(
            self.documents@,
            (#[trigger] self.cheques@[c]).document_id,
        ) by {
            let j = choose|j: int|
                0 <= j < before.len() && (#[trigger] before[j]).id == self.cheques@[c].document_id;
            assert(self.documents@[j] == before[j]);
        }
        Ok(id)
    }

    /// Adds a pending cheque to an existing document, dated `today`, and
    /// returns its id.
    pub fn insert_cheque(
        &mut self,
        document_id: i64,
        cheque_number: String,
        amount_cents: u64,
        client_name: String,
        today: String,
        created_at: i64,
    ) -> (r: Result<i64, LifecycleError>)
        requires
            old(self).wf(),
        ensures
            final(self).wf(),
            final(self).documents@ == old(self).documents@,
            final(self).next_document_id == old(self).next_document_id,
            !has_document(old(self).documents@, document_id) ==> r == Err::<i64, LifecycleError>(
                LifecycleError::NotFound { kind: RecordKind::Document, id: document_id },
            ),
            has_document(old(self).documents@, document_id) && old(self).next_cheque_id == i64::MAX
                ==> r == Err::<i64, LifecycleError>(LifecycleError::Storage),
            r is Err ==> *final(self) == *old(self),
            has_document(old(self).documents@, document_id) && old(self).next_cheque_id < i64::MAX
                ==> r == Ok::<i64, LifecycleError>(old(self).next_cheque_id)
                && final(self).next_cheque_id == old(self).next_cheque_id + 1
                && final(self).cheques@ == old(self).cheques@.push(
                new_cheque(
                    old(self).next_cheque_id,
                    document_id,
                    cheque_number,
                    amount_cents,
                    client_name,
                    today,
                    created_at,
                ),
            ),
    {
        if self.find_document(document_id).is_none() {
            return Err(LifecycleError::NotFound { kind: RecordKind::Document, id: document_id });
        }
        if self.next_cheque_id == i64::MAX {
            return Err(LifecycleError::Storage);
        }
        let id = self.next_cheque_id;
        let ghost before = self.cheques@;
        let c = Cheque {
            id,
            document_id,
            cheque_number,
            amount_cents,
            client_name,
            status: ChequeStatus::Pending,
            issue_date: Some(today.clone()),
            date_field: Some(today),
            remarks: None,
            decline_reason: None,
            current_signatures: 0,
            first_signature_user_id: None,
            second_signature_user_id: None,
            print_count: 0,
            created_at,
        };
        self.cheques.push(c);
        self.next_cheque_id = id + 1;
        assert forall|i: int, j: int|
            0 <= i < j < self.cheques@.len() implies (#[trigger] self.cheques@[i]).id
                != (#[trigger] self.cheques@[j]).id by {
            if j == before.len() {
                assert(self.cheques@[i] == before[i]);
            } else {
                assert(self.cheques@[i] == before[i]);
                assert(self.cheques@[j] == before[j]);
            }
        }
        assert forall|k: int| 0 <= k < self.cheques@.len() implies 1 <= (
        #[trigger] self.cheques@[k]).id < self.next_cheque_id && cheque_wf(self.cheques@[k])
            && has_document(self.documents@, self.cheques@[k].document_id) by {
            if k < before.len() {
                assert(self.cheques@[k] == before[k]);
            }
        }
        Ok(id)
    }

    fn find_document(&self, id: i64) -> (r: Option<usize>)
        ensures
            match r {
                Some(i) => i < self.documents@.len() && self.documents@[i as int].id == id,
                None => !has_document(self.documents@, id),
            },
    {
        let mut i: usize = 0;
        while i < self.documents.len()
            invariant
                i <= self.documents@.len(),
                forall|k: int| 0 <= k < i ==> (#[trigger] self.documents@[k]).id != id,
            decreases self.documents@.len() - i,
        {
            if self.documents[i].id == id {
                return Some(i);
            }
            i = i + 1;
        }
        None
    }

    fn find_cheque(&self, id: i64) -> (r: Option<usize>)
        ensures
            match r {
                Some(i) => i < self.cheques@.len() && self.cheques@[i as int].id == id,
                None => !has_cheque(self.cheques@, id),
            },
    {
        let mut i: usize = 0;
        while i < self.cheques.len()
            invariant
                i <= self.cheques@.len(),
                forall|k: int| 0 <= k < i ==> (#[trigger] self.cheques@[k]).id != id,
            decreases self.cheques@.len() - i,
        {
            if self.cheques[i].id == id {
                return Some(i);
            }
            i = i + 1;
        }
        None
    }

    /// Moves a cheque to `new_status`, which must name a status. Approving
    /// records the acting signer as first signature; given remarks replace
    /// the old ones, absent remarks leave them as they were.
    pub fn update_cheque_status(
        &mut self,
        cheque_id: i64,
        new_status: &str,
        remarks: Option<String>,
    ) -> (r: Result<(), LifecycleError>)
        requires
            old(self).wf(),
        ensures
            final(self).wf(),
            final(self).documents@ == old(self).documents@,
            final(self).next_document_id == old(self).next_document_id,
            final(self).next_cheque_id == old(self).next_cheque_id,
            status_named(new_status@) is None ==> r == Err::<(), LifecycleError>(
                LifecycleError::InvalidStatus,
            ) && final(self).cheques@ == old(self).cheques@,
            status_named(new_status@) is Some && !has_cheque(old(self).cheques@, cheque_id) ==> r
                == Err::<(), LifecycleError>(
                LifecycleError::NotFound { kind: RecordKind::Cheque, id: cheque_id },
            ) && final(self).cheques@ == old(self).cheques@,
            status_named(new_status@) is Some && has_cheque(old(self).cheques@, cheque_id) ==> r
                is Ok && final(self).cheques@ == update_cheque(
                old(self).cheques@,
                cheque_id,
                |c: Cheque| transitioned(c, status_named(new_status@)->0, remarks),
            ),
    {
        let found = self.find_cheque(cheque_id);
        let ghost given = remarks;
        let change = match plan_status_change(new_status, cheque_id, found.is_some(), remarks) {
            Ok(ch) => ch,
            Err(e) => return Err(e),
        };
        match found {
            None => Err(LifecycleError::NotFound { kind: RecordKind::Cheque, id: cheque_id }),
            Some(i) => {
                let ghost f = |c: Cheque| transitioned(c, status_named(new_status@)->0, given);
                let ghost old_store = *self;
                let ghost before_change = self.cheques@[i as int];
                let ghost ch = change;
                let mut c = self.cheques.remove(i);
                apply_status_change(&mut c, change);
                assert(changed(before_change, ch) == f(before_change));
                assert(c == f(before_change));
                self.cheques.insert(i, c);
                assert(self.cheques@ =~= old_store.cheques@.update(i as int, c));
                proof {
                    lemma_put_cheque(&old_store, self, i as int, f);
                }
                Ok(())
            },
        }
    }

    /// Declines a cheque for a reason that is not blank; the reason is kept
    /// both as decline reason and as remarks.
    pub fn update_decline_reason(&mut self, cheque_id: i64, reason: String) -> (r: Result<
        (),
        LifecycleError,
    >)
        requires
            old(self).wf(),
        ensures
            final(self).wf(),
            final(self).documents@ == old(self).documents@,
            final(self).next_document_id == old(self).next_document_id,
            final(self).next_cheque_id == old(self).next_cheque_id,
            is_blank(reason@) ==> r == Err::<(), LifecycleError>(LifecycleError::EmptyReason)
                && final(self).cheques@ == old(self).cheques@,
            !is_blank(reason@) && !has_cheque(old(self).cheques@, cheque_id) ==> r == Err::<
                (),
                LifecycleError,
            >(LifecycleError::NotFound { kind: RecordKind::Cheque, id: cheque_id })
                && final(self).cheques@ == old(self).cheques@,
            !is_blank(reason@) && has_cheque(old(self).cheques@, cheque_id) ==> r is Ok
                && final(self).cheques@ == update_cheque(
                old(self).cheques@,
                cheque_id,
                |c: Cheque| declined(c, reason),
            ),
    {
        let found = self.find_cheque(cheque_id);
        if let Err(e) = decline_verdict(cheque_id, reason.as_str(), found.is_some()) {
            return Err(e);
        }
        match found {
            None => Err(LifecycleError::NotFound { kind: RecordKind::Cheque, id: cheque_id }),
            Some(i) => {
                let ghost f = |c: Cheque| declined(c, reason);
                let ghost old_store = *self;
                let mut c = self.cheques.remove(i);
                c.status = ChequeStatus::Declined;
                c.decline_reason = Some(reason.clone());
                c.remarks = Some(reason);
                self.cheques.insert(i, c);
                assert(self.cheques@ =~= old_store.cheques@.update(i as int, c));
                proof {
                    lemma_put_cheque(&old_store, self, i as int, f);
                }
                Ok(())
            },
        }
    }

    /// Sets the issue date of a cheque.
    pub fn update_cheque_issue_date(&mut self, cheque_id: i64, issue_date: String) -> (r: Result<
        (),
        LifecycleError,
    >)
        requires
            old(self).wf(),
        ensures
            final(self).wf(),
            final(self).documents@ == old(self).documents@,
            final(self).next_document_id == old(self).next_document_id,
            final(self).next_cheque_id == old(self).next_cheque_id,
            !has_cheque(old(self).cheques@, cheque_id) ==> r == Err::<(), LifecycleError>(
                LifecycleError::NotFound { kind: RecordKind::Cheque, id: cheque_id },
            ) && final(self).cheques@ == old(self).cheques@,
            has_cheque(old(self).cheques@, cheque_id) ==> r is Ok && final(self).cheques@
                == update_cheque(
                old(self).cheques@,
                cheque_id,
                |c: Cheque| with_issue_date(c, issue_date),
            ),
    {
        let found = self.find_cheque(cheque_id);
        if let Err(e) = require_found(RecordKind::Cheque, cheque_id, found.is_some()) {
            return Err(e);
        }
        match found {
            None => Err(LifecycleError::NotFound { kind: RecordKind::Cheque, id: cheque_id }),
            Some(i) => {
                let ghost f = |c: Cheque| with_issue_date(c, issue_date);
                let ghost old_store = *self;
                let mut c = self.cheques.remove(i);
                c.issue_date = Some(issue_date);
                self.cheques.insert(i, c);
                assert(self.cheques@ =~= old_store.cheques@.update(i as int, c));
                proof {
                    lemma_put_cheque(&old_store, self, i as int, f);
                }
                Ok(())
            },
        }
    }

    /// Counts one more print of a cheque. A counter that cannot grow further
    /// is reported as a storage failure.
    pub fn increment_print_count(&mut self, cheque_id: i64) -> (r: Result<(), LifecycleError>)
        requires
            old(self).wf(),
        ensures
            final(self).wf(),
            final(self).documents@ == old(self).documents@,
            final(self).next_document_id == old(self).next_document_id,
            final(self).next_cheque_id == old(self).next_cheque_id,
            !has_cheque(old(self).cheques@, cheque_id) ==> r == Err::<(), LifecycleError>(
                LifecycleError::NotFound { kind: RecordKind::Cheque, id: cheque_id },
            ) && final(self).cheques@ == old(self).cheques@,
            r == Err::<(), LifecycleError>(LifecycleError::Storage) <==> has_cheque(
                old(self).cheques@,
                cheque_id,
            ) && exists|i: int|
                0 <= i < old(self).cheques@.len() && (#[trigger] old(self).cheques@[i]).id
                    == cheque_id && old(self).cheques@[i].print_count == u64::MAX,
            r is Err ==> final(self).cheques@ == old(self).cheques@,
            r is Ok <==> has_cheque(old(self).cheques@, cheque_id) && !exists|i: int|
                0 <= i < old(self).cheques@.len() && (#[trigger] old(self).cheques@[i]).id
                    == cheque_id && old(self).cheques@[i].print_count == u64::MAX,
            r is Ok ==> final(self).cheques@ == update_cheque(
                old(self).cheques@,
                cheque_id,
                |c: Cheque| printed(c),
            ),
    {
        let found = self.find_cheque(cheque_id);
        if let Err(e) = require_found(RecordKind::Cheque, cheque_id, found.is_some()) {
            return Err(e);
        }
        match found {
            None => Err(LifecycleError::NotFound { kind: RecordKind::Cheque, id: cheque_id }),
            Some(i) => {
                if self.cheques[i].print_count == u64::MAX {
                    assert forall|k: int|
                        0 <= k < self.cheques@.len() && (#[trigger] self.cheques@[k]).id
                            == cheque_id implies k == i by {
                        if k != i {
                            assert(self.cheques@[k].id != self.cheques@[i as int].id);
                        }
                    }
                    return Err(LifecycleError::Storage);
                }
                assert forall|k: int|
                    0 <= k < self.cheques@.len() && (#[trigger] self.cheques@[k]).id
                        == cheque_id implies k == i by {
                    if k != i {
                        assert(self.cheques@[k].id != self.cheques@[i as int].id);
                    }
                }
                let ghost f = |c: Cheque| printed(c);
                let ghost old_store = *self;
                let mut c = self.cheques.remove(i);
                c.print_count = c.print_count + 1;
                self.cheques.insert(i, c);
                assert(self.cheques@ =~= old_store.cheques@.update(i as int, c));
                proof {
                    lemma_put_cheque(&old_store, self, i as int, f);
                }
                Ok(())
            },
        }
    }

    /// Locks a document so that it can no longer be deleted. Locking a
    /// locked document succeeds and changes nothing.
    pub fn lock_document(&mut self, document_id: i64) -> (r: Result<(), LifecycleError>)
        requires
            old(self).wf(),
        ensures
            final(self).wf(),
            final(self).cheques@ == old(self).cheques@,
            final(self).next_document_id == old(self).next_document_id,
            final(self).next_cheque_id == old(self).next_cheque_id,
            has_document(old(self).documents@, document_id) ==> r is Ok && final(self).documents@
                == lock_in(old(self).documents@, document_id),
            !has_document(old(self).documents@, document_id) ==> r == Err::<(), LifecycleError>(
                LifecycleError::NotFound { kind: RecordKind::Document, id: document_id },
            ) && final(self).documents@ == old(self).documents@,
    {
        let found = self.find_document(document_id);
        if let Err(e) = require_found(RecordKind::Document, document_id, found.is_some()) {
            return Err(e);
        }
        match found {
            None => Err(LifecycleError::NotFound { kind: RecordKind::Document, id: document_id }),
            Some(i) => {
                let ghost before = self.documents@;
                let mut d = self.documents.remove(i);
                d.is_locked = true;
                self.documents.insert(i, d);
                assert(self.documents@ =~= lock_in(before, document_id)) by {
                    assert forall|k: int| 0 <= k < before.len() implies self.documents@[k] == (
                    if before[k].id == document_id {
                        locked(before[k])
                    } else {
                        before[k]
                    }) by {
                        if k != i {
                            assert(before[k].id != before[i as int].id);
                        }
                    }
                }
                assert forall|c: int| 0 <= c < self.cheques@.len() implies has_document(
                    self.documents@,
                    (#[trigger] self.cheques@[c]).document_id,
                ) by {
                    let j = choose|j: int|
                        0 <= j < before.len() && (#[trigger] before[j]).id
                            == self.cheques@[c].document_id;
                    assert(self.documents@[j].id == before[j].id);
                }
                Ok(())
            },
        }
    }

    /// Renames a document to a name that is not blank.
    pub fn rename_document(&mut self, document_id: i64, new_name: String) -> (r: Result<
        (),
        LifecycleError,
    >)
        requires
            old(self).wf(),
        ensures
            final(self).wf(),
            final(self).cheques@ == old(self).cheques@,
            final(self).next_document_id == old(self).next_document_id,
            final(self).next_cheque_id == old(self).next_cheque_id,
            is_blank(new_name@) ==> r == Err::<(), LifecycleError>(LifecycleError::EmptyName)
                && final(self).documents@ == old(self).documents@,
            !is_blank(new_name@) && !has_document(old(self).documents@, document_id) ==> r
                == Err::<(), LifecycleError>(
                LifecycleError::NotFound { kind: RecordKind::Document, id: document_id },
            ) && final(self).documents@ == old(self).documents@,
            !is_blank(new_name@) && has_document(old(self).documents@, document_id) ==> r is Ok
                && final(self).documents@ == rename_in(old(self).documents@, document_id, new_name),
    {
        let found = self.find_document(document_id);
        if let Err(e) = rename_verdict(document_id, new_name.as_str(), found.is_some()) {
            return Err(e);
        }
        match found {
            None => Err(LifecycleError::NotFound { kind: RecordKind::Document, id: document_id }),
            Some(i) => {
                let ghost before = self.documents@;
                let ghost name = new_name;
                let mut d = self.documents.remove(i);
                d.file_name = new_name;
                self.documents.insert(i, d);
                assert(self.documents@ =~= rename_in(before, document_id, name)) by {
                    assert forall|k: int| 0 <= k < before.len() implies self.documents@[k] == (
                    if before[k].id == document_id {
                        renamed(before[k], name)
                    } else {
                        before[k]
                    }) by {
                        if k != i {
                            assert(before[k].id != before[i as int].id);
                        }
                    }
                }
                assert forall|c: int| 0 <= c < self.cheques@.len() implies has_document(
                    self.documents@,
                    (#[trigger] self.cheques@[c]).document_id,
                ) by {
                    let j = choose|j: int|
                        0 <= j < before.len() && (#[trigger] before[j]).id
                            == self.cheques@[c].document_id;
                    assert(self.documents@[j].id == before[j].id);
                }
                Ok(())
            },
        }
    }

    /// Deletes an unlocked document together with its cheques. A locked
    /// document is kept, whether or not it has cheques.
    pub fn delete_document(&mut self, document_id: i64) -> (r: Result<(), LifecycleError>)
        requires
            old(self).wf(),
        ensures
            final(self).wf(),
            final(self).next_document_id == old(self).next_document_id,
            final(self).next_cheque_id == old(self).next_cheque_id,
            !has_document(old(self).documents@, document_id) ==> r == Err::<(), LifecycleError>(
                LifecycleError::NotFound { kind: RecordKind::Document, id: document_id },
            ),
            document_locked(old(self).documents@, document_id) ==> r == Err::<(), LifecycleError>(
                LifecycleError::Locked,
            ),
            r is Err ==> final(self).documents@ == old(self).documents@ && final(self).cheques@
                == old(self).cheques@,
            r is Ok <==> has_document(old(self).documents@, document_id) && !document_locked(
                old(self).documents@,
                document_id,
            ),
            r is Ok ==> final(self).documents@ == documents_without(old(self).documents@, document_id)
                && final(self).cheques@ == cheques_without(old(self).cheques@, document_id),
    {
        let found = self.find_document(document_id);
        let lock_state = match found {
            Some(i) => Some(self.documents[i].is_locked),
            None => None,
        };
        if let Err(e) = deletion_verdict(document_id, lock_state) {
            return Err(e);
        }
        match found {
            None => Err(LifecycleError::NotFound { kind: RecordKind::Document, id: document_id }),
            Some(i) => {
                assert(!document_locked(self.documents@, document_id)) by {
                    assert forall|k: int|
                        0 <= k < self.documents@.len() && (#[trigger] self.documents@[k]).id
                            == document_id implies !self.documents@[k].is_locked by {
                        if k != i {
                            assert(self.documents@[k].id != self.documents@[i as int].id);
                        }
                    }
                }
                let ghost old_store = *self;
                self.take_documents_without(document_id);
                self.take_cheques_without(document_id);
                proof {
                    let docs = self.documents@;
                    let cs = self.cheques@;
                    let old_docs = old_store.documents@;
                    let old_cs = old_store.cheques@;
                    let dpred = |d: Document| d.id != document_id;
                    let cpred = |c: Cheque| c.document_id != document_id;
                    broadcast use vstd::seq_lib::group_filter_ensures;

                    assert forall|c: int| 0 <= c < cs.len() implies has_document(
                        docs,
                        (#[trigger] cs[c]).document_id,
                    ) by {
                        let pid = cs[c].document_id;
                        assert(cpred(cs[c]));
                        assert(old_cs.contains(cs[c]));
                        let oc = choose|oc: int| 0 <= oc < old_cs.len() && old_cs[oc] == cs[c];
                        assert(has_document(old_docs, old_cs[oc].document_id));
                        let j = choose|j: int|
                            0 <= j < old_docs.len() && (#[trigger] old_docs[j]).id == pid;
                        assert(dpred(old_docs[j]));
                        assert(docs.contains(old_docs[j]));
                        let nj = choose|nj: int| 0 <= nj < docs.len() && docs[nj] == old_docs[j];
                        assert(docs[nj].id == pid);
                    }
                }
                Ok(())
            },
        }
    }

    /// Drops the document with id `id`, keeping the order of the others.
    fn take_documents_without(&mut self, id: i64)
        requires
            old(self).wf(),
        ensures
            final(self).documents@ == documents_without(old(self).documents@, id),
            final(self).cheques@ == old(self).cheques@,
            final(self).next_document_id == old(self).next_document_id,
            final(self).next_cheque_id == old(self).next_cheque_id,
            forall|i: int, j: int|
                0 <= i < j < final(self).documents@.len() ==> (#[trigger] final(self).documents@[i]).id
                    != (#[trigger] final(self).documents@[j]).id,
            forall|i: int|
                0 <= i < final(self).documents@.len() ==> 1 <= (#[trigger] final(self).documents@[i]).id
                    < final(self).next_document_id,
    {
        let ghost all = self.documents@;
        let ghost pred = |d: Document| d.id != id;
        let mut rest: Vec<Document> = Vec::new();
        std::mem::swap(&mut self.documents, &mut rest);
        let total = rest.len();
        let mut k: usize = 0;
        let ghost mut origin: Seq<int> = Seq::empty();
        while rest.len() > 0
            invariant
                all.len() == total,
                k + rest@.len() == all.len(),
                rest@ == all.subrange(k as int, all.len() as int),
                self.documents@ == all.subrange(0, k as int).filter(pred),
                origin.len() == self.documents@.len(),
                forall|a: int|
                    0 <= a < origin.len() ==> 0 <= #[trigger] origin[a] < k && self.documents@[a]
                        == all[origin[a]],
                forall|a: int, b: int| 0 <= a < b < origin.len() ==> #[trigger] origin[a] < #[trigger] origin[b],
                forall|i: int, j: int|
                    0 <= i < j < all.len() ==> (#[trigger] all[i]).id != (#[trigger] all[j]).id,
                forall|i: int|
                    0 <= i < all.len() ==> 1 <= (#[trigger] all[i]).id < self.next_document_id,
                self.cheques@ == old(self).cheques@,
                self.next_document_id == old(self).next_document_id,
                self.next_cheque_id == old(self).next_cheque_id,
                pred == (|d: Document| d.id != id),
            decreases rest@.len(),
        {
            let ghost prefix = self.documents@;
            let d = rest.remove(0);
            assert(d == all[k as int]);
            assert(all.subrange(0, k + 1).drop_last() =~= all.subrange(0, k as int));
            assert(all.subrange(0, k + 1).last() == all[k as int]);
            proof {
                reveal(Seq::filter);
            }
            assert(all.subrange(0, k + 1).filter(pred) == if pred(all[k as int]) {
                prefix.push(all[k as int])
            } else {
                prefix
            });
            if d.id != id {
                proof {
                    origin = origin.push(k as int);
                }
                self.documents.push(d);
            }
            k = k + 1;
            assert(rest@ =~= all.subrange(k as int, all.len() as int));
        }
        assert(all.subrange(0, all.len() as int) =~= all);
        assert forall|i: int, j: int|
            0 <= i < j < self.documents@.len() implies (#[trigger] self.documents@[i]).id
                != (#[trigger] self.documents@[j]).id by {
            assert(origin[i] < origin[j]);
        }
        assert forall|i: int|
            0 <= i < self.documents@.len() implies 1 <= (#[trigger] self.documents@[i]).id
                < self.next_document_id by {
            assert(self.documents@[i] == all[origin[i]]);
        }
    }

    /// Drops the cheques of document `id`, keeping the order of the others.
    fn take_cheques_without(&mut self, id: i64)
        requires
            forall|i: int, j: int|
                0 <= i < j < old(self).cheques@.len() ==> (#[trigger] old(self).cheques@[i]).id
                    != (#[trigger] old(self).cheques@[j]).id,
            forall|i: int|
                0 <= i < old(self).cheques@.len() ==> 1 <= (#[trigger] old(self).cheques@[i]).id
                    < old(self).next_cheque_id,
            forall|i: int| 0 <= i < old(self).cheques@.len() ==> cheque_wf(#[trigger] old(self).cheques@[i]),
        ensures
            final(self).cheques@ == cheques_without(old(self).cheques@, id),
            final(self).documents@ == old(self).documents@,
            final(self).next_document_id == old(self).next_document_id,
            final(self).next_cheque_id == old(self).next_cheque_id,
            forall|i: int, j: int|
                0 <= i < j < final(self).cheques@.len() ==> (#[trigger] final(self).cheques@[i]).id
                    != (#[trigger] final(self).cheques@[j]).id,
            forall|i: int|
                0 <= i < final(self).cheques@.len() ==> 1 <= (#[trigger] final(self).cheques@[i]).id
                    < final(self).next_cheque_id,
            forall|i: int| 0 <= i < final(self).cheques@.len() ==> cheque_wf(#[trigger] final(self).cheques@[i]),
            forall|a: int|
                0 <= a < final(self).cheques@.len() ==> old(self).cheques@.contains(
                    #[trigger] final(self).cheques@[a],
                ),
    {
        let ghost all = self.cheques@;
        let ghost pred = |c: Cheque| c.document_id != id;
        let mut rest: Vec<Cheque> = Vec::new();
        std::mem::swap(&mut self.cheques, &mut rest);
        let total = rest.len();
        let mut k: usize = 0;
        let ghost mut origin: Seq<int> = Seq::empty();
        while rest.len() > 0
            invariant
                all.len() == total,
                k + rest@.len() == all.len(),
                rest@ == all.subrange(k as int, all.len() as int),
                self.cheques@ == all.subrange(0, k as int).filter(pred),
                origin.len() == self.cheques@.len(),
                forall|a: int|
                    0 <= a < origin.len() ==> 0 <= #[trigger] origin[a] < k && self.cheques@[a]
                        == all[origin[a]],
                forall|a: int, b: int| 0 <= a < b < origin.len() ==> #[trigger] origin[a] < #[trigger] origin[b],
                forall|i: int, j: int|
                    0 <= i < j < all.len() ==> (#[trigger] all[i]).id != (#[trigger] all[j]).id,
                forall|i: int|
                    0 <= i < all.len() ==> 1 <= (#[trigger] all[i]).id < self.next_cheque_id,
                forall|i: int| 0 <= i < all.len() ==> cheque_wf(#[trigger] all[i]),
                self.documents@ == old(self).documents@,
                self.next_document_id == old(self).next_document_id,
                self.next_cheque_id == old(self).next_cheque_id,
                pred == (|c: Cheque| c.document_id != id),
            decreases rest@.len(),
        {
            let ghost prefix = self.cheques@;
            let c = rest.remove(0);
            assert(c == all[k as int]);
            assert(all.subrange(0, k + 1).drop_last() =~= all.subrange(0, k as int));
            assert(all.subrange(0, k + 1).last() == all[k as int]);
            proof {
                reveal(Seq::filter);
            }
            assert(all.subrange(0, k + 1).filter(pred) == if pred(all[k as int]) {
                prefix.push(all[k as int])
            } else {
                prefix
            });
            if c.document_id != id {
                proof {
                    origin = origin.push(k as int);
                }
                self.cheques.push(c);
            }
            k = k + 1;
            assert(rest@ =~= all.subrange(k as int, all.len() as int));
        }
        assert(all.subrange(0, all.len() as int) =~= all);
        assert forall|i: int, j: int|
            0 <= i < j < self.cheques@.len() implies (#[trigger] self.cheques@[i]).id
                != (#[trigger] self.cheques@[j]).id by {
            assert(origin[i] < origin[j]);
        }
        assert forall|i: int|
            0 <= i < self.cheques@.len() implies 1 <= (#[trigger] self.cheques@[i]).id
                < self.next_cheque_id && cheque_wf(self.cheques@[i]) by {
            assert(self.cheques@[i] == all[origin[i]]);
        }
        assert forall|a: int| 0 <= a < self.cheques@.len() implies all.contains(
            #[trigger] self.cheques@[a],
        ) by {
            assert(all[origin[a]] == self.cheques@[a]);
        }
    }

    /// Whether the document is locked.
    pub fn is_document_locked(&self, document_id: i64) -> (r: Result<bool, LifecycleError>)
        ensures
            match r {
                Ok(b) => exists|i: int|
                    0 <= i < self.documents@.len() && (#[trigger] self.documents@[i]).id
                        == document_id && self.documents@[i].is_locked == b,
                Err(e) => !has_document(self.documents@, document_id) && e
                    == LifecycleError::NotFound { kind: RecordKind::Document, id: document_id },
            },
            r is Err <==> !has_document(self.documents@, document_id),
    {
        let found = self.find_document(document_id);
        let lock_state = match found {
            Some(i) => Some(self.documents[i].is_locked),
            None => None,
        };
        lock_state_verdict(document_id, lock_state)
    }
}

/// Locking is idempotent: after a document is locked it is still there, so a
/// second lock succeeds, and that second lock leaves the documents exactly as
/// the first one did, with the document locked.
pub proof fn lemma_lock_idempotent(docs: Seq<Document>, id: i64)
    requires
        has_document(docs, id),
    ensures
        has_document(lock_in(docs, id), id),
        lock_in(lock_in(docs, id), id) == lock_in(docs, id),
        document_locked(lock_in(docs, id), id),
{
    let once = lock_in(docs, id);
    let i = choose|i: int| 0 <= i < docs.len() && (#[trigger] docs[i]).id == id;
    assert(once[i].id == id);
    assert(once[i].is_locked);
    assert(lock_in(once, id) =~= once);
}

/// The cheques after approving every one with id `id`.
pub open spec fn approve_in(cheques: Seq<Cheque>, id: i64, remarks: Option<String>) -> Seq<Cheque> {
    update_cheque(cheques, id, |c: Cheque| transitioned(c, ChequeStatus::Approved, remarks))
}

/// Approving a cheque leaves it approved with exactly one signature, by a
/// recorded first signer, whatever its state before and whatever remarks
/// come with the approval.
pub proof fn lemma_approval_signs(cheques: Seq<Cheque>, id: i64, remarks: Option<String>)
    ensures
        forall|i: int|
            0 <= i < cheques.len() && cheques[i].id == id ==> {
                &&& (#[trigger] approve_in(cheques, id, remarks)[i]).status
                    == ChequeStatus::Approved
                &&& approve_in(cheques, id, remarks)[i].current_signatures == 1
                &&& approve_in(cheques, id, remarks)[i].first_signature_user_id == Some(
                    ACTING_SIGNER_ID,
                )
            },
{
}

} // verus!
