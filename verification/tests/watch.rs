use solana_sdk::transaction::TransactionError;
use transaction_executor::signature_watch::{
    assess_statuses, contains_signature, retain_committed, CommitmentTier, ConfirmationStatus, PendingSignatures,
    SignatureBytes, SignatureStatus, WatchOutcome,
};

fn sig(b: u8) -> SignatureBytes {
    SignatureBytes { bytes: [b; 64] }
}

fn ok_status(confirmations: Option<usize>, level: Option<ConfirmationStatus>) -> SignatureStatus {
    SignatureStatus { slot: 5, confirmations, status: Ok(()), err: None, confirmation_status: level }
}

fn failed_status() -> SignatureStatus {
    SignatureStatus {
        slot: 6,
        confirmations: None,
        status: Err(TransactionError::AccountInUse),
        err: Some(TransactionError::AccountInUse),
        confirmation_status: Some(ConfirmationStatus::Finalized),
    }
}

#[test]
fn signatures_compare_byte_by_byte() {
    let a = sig(1);
    let mut b = sig(1);
    assert!(a.same_as(&b));
    b.bytes[63] = 2;
    assert!(!a.same_as(&b));
    assert!(contains_signature(&vec![sig(3), b], &b));
    assert!(!contains_signature(&vec![sig(3), b], &a));
    assert!(!contains_signature(&vec![], &a));
}

#[test]
fn pending_signatures_keep_the_send_order() {
    let mut pending = PendingSignatures::new();
    assert!(pending.is_empty());
    pending.record(sig(1));
    pending.record(sig(2));
    pending.record(sig(3));
    assert_eq!(pending.len(), 3);
    assert_eq!(pending.snapshot(), vec![sig(1), sig(2), sig(3)]);
}

#[test]
fn discarding_failed_signatures_keeps_the_others_in_order() {
    let mut pending = PendingSignatures::new();
    for b in [1, 2, 3, 2, 4] {
        pending.record(sig(b));
    }
    pending.discard_failed(&vec![sig(2), sig(9)]);
    assert_eq!(pending.snapshot(), vec![sig(1), sig(3), sig(4)]);
    pending.discard_failed(&vec![]);
    assert_eq!(pending.len(), 3);
    pending.discard_failed(&vec![sig(1), sig(3), sig(4)]);
    assert!(pending.is_empty());
}

#[test]
fn finalized_commitment_needs_a_rooted_block() {
    let kept = retain_committed(
        vec![Some(ok_status(None, None)), Some(ok_status(Some(3), Some(ConfirmationStatus::Confirmed))), None],
        CommitmentTier::Finalized,
    );
    assert_eq!(kept.len(), 3);
    assert!(kept[0].is_some());
    assert!(kept[1].is_none());
    assert!(kept[2].is_none());
}

#[test]
fn confirmed_commitment_follows_the_confirmation_status() {
    let kept = retain_committed(
        vec![
            Some(ok_status(Some(0), Some(ConfirmationStatus::Processed))),
            Some(ok_status(Some(0), Some(ConfirmationStatus::Confirmed))),
            Some(ok_status(Some(1), None)),
            Some(ok_status(Some(2), None)),
            Some(ok_status(None, None)),
        ],
        CommitmentTier::Confirmed,
    );
    let shape: Vec<bool> = kept.iter().map(|s| s.is_some()).collect();
    assert_eq!(shape, vec![false, true, false, true, true]);
}

#[test]
fn processed_commitment_keeps_every_report() {
    let kept = retain_committed(
        vec![Some(ok_status(Some(0), Some(ConfirmationStatus::Processed))), None, Some(failed_status())],
        CommitmentTier::Processed,
    );
    let shape: Vec<bool> = kept.iter().map(|s| s.is_some()).collect();
    assert_eq!(shape, vec![true, false, true]);
    assert_eq!(kept[0].as_ref().unwrap().slot, 5);
}

#[test]
fn first_success_is_reported_as_executed() {
    let signatures = vec![sig(1), sig(2), sig(3), sig(4)];
    let statuses = vec![Some(failed_status()), None, Some(ok_status(None, None)), Some(ok_status(None, None))];
    match assess_statuses(&signatures, &statuses) {
        WatchOutcome::Executed(s) => assert_eq!(s, sig(3)),
        WatchOutcome::Pending { .. } => panic!("a success was reported"),
    }
}

#[test]
fn without_success_the_failures_are_collected() {
    let signatures = vec![sig(1), sig(2), sig(3), sig(4)];
    let statuses = vec![Some(failed_status()), None, Some(failed_status())];
    match assess_statuses(&signatures, &statuses) {
        WatchOutcome::Executed(_) => panic!("no success was reported"),
        WatchOutcome::Pending { failed } => assert_eq!(failed, vec![sig(1), sig(3)]),
    }
}

#[test]
fn reports_beyond_the_signatures_are_ignored() {
    let signatures = vec![sig(1)];
    let statuses = vec![None, Some(ok_status(None, None))];
    match assess_statuses(&signatures, &statuses) {
        WatchOutcome::Executed(_) => panic!("the success has no signature"),
        WatchOutcome::Pending { failed } => assert!(failed.is_empty()),
    }
}

#[test]
fn no_report_no_conclusion() {
    match assess_statuses(&vec![], &vec![]) {
        WatchOutcome::Executed(_) => panic!("nothing was reported"),
        WatchOutcome::Pending { failed } => assert!(failed.is_empty()),
    }
}
