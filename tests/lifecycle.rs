use cheque_workflow::errors::{LifecycleError, RecordKind};
use cheque_workflow::lifecycle::{
    decline_verdict, deletion_verdict, lock_state_verdict, plan_status_change, rename_verdict,
    require_found, rows_verdict, ChequeStatus, ChequeStore, ACTING_SIGNER_ID,
};

fn store_with_cheque() -> (ChequeStore, i64, i64) {
    let mut store = ChequeStore::new();
    let doc = store.insert_document("batch.xlsx".to_string(), vec![1, 2, 3], 1_700_000_000).unwrap();
    let cheque = store
        .insert_cheque(doc, "CH-1".to_string(), 12_345, "Jane Doe".to_string(), "2024-05-01".to_string(), 1_700_000_000)
        .unwrap();
    (store, doc, cheque)
}

fn cheque(store: &ChequeStore, id: i64) -> &cheque_workflow::lifecycle::Cheque {
    store.cheques.iter().find(|c| c.id == id).unwrap()
}

#[test]
fn ingested_cheque_starts_pending() {
    let (store, doc, id) = store_with_cheque();
    let c = cheque(&store, id);
    assert_eq!(c.document_id, doc);
    assert_eq!(c.status, ChequeStatus::Pending);
    assert_eq!(c.current_signatures, 0);
    assert_eq!(c.first_signature_user_id, None);
    assert_eq!(c.print_count, 0);
    assert_eq!(c.issue_date.as_deref(), Some("2024-05-01"));
    assert_eq!(c.date_field.as_deref(), Some("2024-05-01"));
}

#[test]
fn approval_records_first_signature() {
    let (mut store, _, id) = store_with_cheque();
    assert_eq!(store.update_cheque_status(id, "Approved", None), Ok(()));
    let c = cheque(&store, id);
    assert_eq!(c.status, ChequeStatus::Approved);
    assert_eq!(c.current_signatures, 1);
    assert_eq!(c.first_signature_user_id, Some(ACTING_SIGNER_ID));
    assert_eq!(c.second_signature_user_id, None);
}

#[test]
fn remarks_kept_when_absent() {
    let (mut store, _, id) = store_with_cheque();
    store.update_cheque_status(id, "Pending", Some("check payee".to_string())).unwrap();
    store.update_cheque_status(id, "Approved", None).unwrap();
    assert_eq!(cheque(&store, id).remarks.as_deref(), Some("check payee"));
    store.update_cheque_status(id, "Declined", Some("duplicate".to_string())).unwrap();
    let c = cheque(&store, id);
    assert_eq!(c.status, ChequeStatus::Declined);
    assert_eq!(c.remarks.as_deref(), Some("duplicate"));
    assert_eq!(c.current_signatures, 1);
}

#[test]
fn unknown_status_is_refused() {
    let (mut store, _, id) = store_with_cheque();
    assert_eq!(store.update_cheque_status(id, "approved", None), Err(LifecycleError::InvalidStatus));
    assert_eq!(store.update_cheque_status(999, "Shipped", None), Err(LifecycleError::InvalidStatus));
    assert_eq!(cheque(&store, id).status, ChequeStatus::Pending);
}

#[test]
fn decline_without_reason_is_refused() {
    let (mut store, _, id) = store_with_cheque();
    assert_eq!(store.update_decline_reason(id, String::new()), Err(LifecycleError::EmptyReason));
    assert_eq!(cheque(&store, id).status, ChequeStatus::Pending);
}

#[test]
fn decline_with_whitespace_reason_is_refused() {
    let (mut store, _, id) = store_with_cheque();
    assert_eq!(store.update_decline_reason(id, "  \t\n ".to_string()), Err(LifecycleError::EmptyReason));
    assert_eq!(store.update_decline_reason(id, "\u{3000}\u{a0}".to_string()), Err(LifecycleError::EmptyReason));
}

#[test]
fn decline_copies_reason_into_remarks() {
    let (mut store, _, id) = store_with_cheque();
    assert_eq!(store.update_decline_reason(id, "signature mismatch".to_string()), Ok(()));
    let c = cheque(&store, id);
    assert_eq!(c.status, ChequeStatus::Declined);
    assert_eq!(c.decline_reason.as_deref(), Some("signature mismatch"));
    assert_eq!(c.remarks.as_deref(), Some("signature mismatch"));
}

#[test]
fn issue_date_is_overwritten() {
    let (mut store, _, id) = store_with_cheque();
    store.update_cheque_issue_date(id, "2024-06-30".to_string()).unwrap();
    assert_eq!(cheque(&store, id).issue_date.as_deref(), Some("2024-06-30"));
    assert_eq!(cheque(&store, id).date_field.as_deref(), Some("2024-05-01"));
}

#[test]
fn print_count_increments() {
    let (mut store, _, id) = store_with_cheque();
    store.increment_print_count(id).unwrap();
    store.increment_print_count(id).unwrap();
    assert_eq!(cheque(&store, id).print_count, 2);
}

#[test]
fn locking_twice_succeeds() {
    let (mut store, doc, _) = store_with_cheque();
    assert_eq!(store.lock_document(doc), Ok(()));
    assert_eq!(store.lock_document(doc), Ok(()));
    assert_eq!(store.is_document_locked(doc), Ok(true));
}

#[test]
fn locked_document_with_cheques_cannot_be_deleted() {
    let (mut store, doc, id) = store_with_cheque();
    store.increment_print_count(id).unwrap();
    store.lock_document(doc).unwrap();
    assert_eq!(store.delete_document(doc), Err(LifecycleError::Locked));
    assert_eq!(store.documents.len(), 1);
    assert_eq!(store.cheques.len(), 1);
}

#[test]
fn locked_empty_document_cannot_be_deleted() {
    let mut store = ChequeStore::new();
    let doc = store.insert_document("empty.xlsx".to_string(), vec![], 0).unwrap();
    store.lock_document(doc).unwrap();
    assert_eq!(store.delete_document(doc), Err(LifecycleError::Locked));
}

#[test]
fn delete_cascades_to_cheques() {
    let (mut store, doc, _) = store_with_cheque();
    let other = store.insert_document("other.xlsx".to_string(), vec![9], 5).unwrap();
    let kept = store
        .insert_cheque(other, "CH-9".to_string(), 100, "Sam".to_string(), "2024-05-02".to_string(), 5)
        .unwrap();
    assert_eq!(store.is_document_locked(doc), Ok(false));
    assert_eq!(store.delete_document(doc), Ok(()));
    assert_eq!(store.documents.len(), 1);
    assert_eq!(store.documents[0].id, other);
    assert_eq!(store.cheques.len(), 1);
    assert_eq!(store.cheques[0].id, kept);
}

#[test]
fn rename_document() {
    let (mut store, doc, _) = store_with_cheque();
    assert_eq!(store.rename_document(doc, " ".to_string()), Err(LifecycleError::EmptyName));
    assert_eq!(store.rename_document(doc, "march.xlsx".to_string()), Ok(()));
    assert_eq!(store.documents[0].file_name, "march.xlsx");
}

#[test]
fn missing_ids_are_not_found() {
    let (mut store, _, _) = store_with_cheque();
    let cheque_missing = Err(LifecycleError::NotFound { kind: RecordKind::Cheque, id: 77 });
    let doc_missing = Err(LifecycleError::NotFound { kind: RecordKind::Document, id: 77 });
    assert_eq!(store.update_cheque_status(77, "Approved", None), cheque_missing);
    assert_eq!(store.update_decline_reason(77, "late".to_string()), cheque_missing);
    assert_eq!(store.update_cheque_issue_date(77, "2024-01-01".to_string()), cheque_missing);
    assert_eq!(store.increment_print_count(77), cheque_missing);
    assert_eq!(store.lock_document(77), doc_missing);
    assert_eq!(store.delete_document(77), doc_missing);
    assert_eq!(store.rename_document(77, "x".to_string()), doc_missing);
    assert_eq!(store.is_document_locked(77), Err(LifecycleError::NotFound { kind: RecordKind::Document, id: 77 }));
    assert_eq!(
        store.insert_cheque(77, "n".to_string(), 1, "c".to_string(), "d".to_string(), 0),
        Err(LifecycleError::NotFound { kind: RecordKind::Document, id: 77 })
    );
}

#[test]
fn ids_are_handed_out_in_order() {
    let mut store = ChequeStore::new();
    assert_eq!(store.insert_document("a".to_string(), vec![], 0), Ok(1));
    assert_eq!(store.insert_document("b".to_string(), vec![], 0), Ok(2));
    store.next_document_id = i64::MAX;
    assert_eq!(store.insert_document("c".to_string(), vec![], 0), Err(LifecycleError::Storage));
}

#[test]
fn lifecycle_messages() {
    assert_eq!(
        LifecycleError::NotFound { kind: RecordKind::Cheque, id: 42 }.message(),
        "Cheque with ID 42 not found"
    );
    assert_eq!(
        LifecycleError::NotFound { kind: RecordKind::Document, id: -7 }.message(),
        "Document with ID -7 not found"
    );
    assert!(LifecycleError::Locked.message().contains("audit trail"));
    assert_eq!(ChequeStatus::Declined.name(), "Declined");
}

#[test]
fn planned_approval_signs_and_keeps_absent_remarks() {
    let change = plan_status_change("Approved", 5, true, None).unwrap();
    assert_eq!(change.status, ChequeStatus::Approved);
    assert_eq!(change.signer, Some(ACTING_SIGNER_ID));
    assert_eq!(change.remarks, None);
    let change = plan_status_change("Pending", 5, true, Some("hold".to_string())).unwrap();
    assert_eq!(change.status, ChequeStatus::Pending);
    assert_eq!(change.signer, None);
    assert_eq!(change.remarks.as_deref(), Some("hold"));
}

#[test]
fn planned_transition_checks_name_then_existence() {
    assert!(matches!(plan_status_change("Paid", 5, false, None), Err(LifecycleError::InvalidStatus)));
    assert!(matches!(
        plan_status_change("Declined", 5, false, None),
        Err(LifecycleError::NotFound { kind: RecordKind::Cheque, id: 5 })
    ));
}

#[test]
fn verdicts() {
    assert_eq!(decline_verdict(3, " ", false), Err(LifecycleError::EmptyReason));
    assert_eq!(decline_verdict(3, "late", false), Err(LifecycleError::NotFound { kind: RecordKind::Cheque, id: 3 }));
    assert_eq!(decline_verdict(3, "late", true), Ok(()));
    assert_eq!(rename_verdict(4, "", true), Err(LifecycleError::EmptyName));
    assert_eq!(rename_verdict(4, "a.xlsx", false), Err(LifecycleError::NotFound { kind: RecordKind::Document, id: 4 }));
    assert_eq!(deletion_verdict(4, None), Err(LifecycleError::NotFound { kind: RecordKind::Document, id: 4 }));
    assert_eq!(deletion_verdict(4, Some(true)), Err(LifecycleError::Locked));
    assert_eq!(deletion_verdict(4, Some(false)), Ok(()));
    assert_eq!(lock_state_verdict(4, Some(true)), Ok(true));
    assert_eq!(lock_state_verdict(4, None), Err(LifecycleError::NotFound { kind: RecordKind::Document, id: 4 }));
    assert_eq!(rows_verdict(RecordKind::Cheque, 9, 0), Err(LifecycleError::NotFound { kind: RecordKind::Cheque, id: 9 }));
    assert_eq!(rows_verdict(RecordKind::Cheque, 9, 1), Ok(()));
    assert_eq!(require_found(RecordKind::Document, 2, true), Ok(()));
}
