use brawler_server::balance_lab::http::SNAPSHOT_SCHEMA_VERSION;
use brawler_server::balance_lab::transaction::{
    PersistenceAction, PreparedTransaction, TransactionAction, TransactionContext, TransactionRejection,
    TransactionRequest, complete_transaction, prepare_transaction,
};

fn ready(revision: u64) -> TransactionContext {
    TransactionContext { revision, manifest_available: true, match_root_available: true, restart_pending: false }
}

fn apply(expected_revision: u64) -> TransactionRequest {
    TransactionRequest::Apply { transaction_id: 1, schema_version: SNAPSHOT_SCHEMA_VERSION, expected_revision }
}

fn rejection(action: TransactionAction) -> TransactionRejection {
    match action {
        TransactionAction::Reject { rejection, .. } => rejection,
        other => panic!("expected a rejection, got {other:?}"),
    }
}

#[test]
fn accepted_apply_persists_then_commits_the_next_revision() {
    let action = prepare_transaction(apply(0), ready(0), Ok(()));
    let prepared = PreparedTransaction { transaction_id: 1, next_revision: 1, persistence: PersistenceAction::Save };
    assert_eq!(action, TransactionAction::Persist(prepared));
    assert_eq!(
        complete_transaction(0, prepared, Ok(())),
        (1, TransactionAction::Commit { transaction_id: 1, revision: 1 })
    );
}

#[test]
fn restore_clears_persisted_tuning() {
    let action = prepare_transaction(TransactionRequest::Restore { transaction_id: 9, expected_revision: 4 }, ready(4), Ok(()));
    assert_eq!(
        action,
        TransactionAction::Persist(PreparedTransaction {
            transaction_id: 9,
            next_revision: 5,
            persistence: PersistenceAction::Clear,
        })
    );
}

#[test]
fn failed_persistence_rolls_back_to_the_applied_revision() {
    let prepared = PreparedTransaction { transaction_id: 3, next_revision: 8, persistence: PersistenceAction::Save };
    assert_eq!(
        complete_transaction(7, prepared, Err("disk full".to_string())),
        (
            7,
            TransactionAction::Reject {
                transaction_id: 3,
                rejection: TransactionRejection::NotPersisted("disk full".to_string()),
            }
        )
    );
}

#[test]
fn transactions_are_rejected_in_preparation_order() {
    let wrong_schema = TransactionRequest::Apply { transaction_id: 2, schema_version: 3, expected_revision: 5 };
    assert_eq!(rejection(prepare_transaction(wrong_schema, ready(0), Ok(()))), TransactionRejection::UnsupportedSchema);
    assert_eq!(rejection(prepare_transaction(apply(1), ready(0), Ok(()))), TransactionRejection::StaleRevision);
    let no_manifest = TransactionContext { manifest_available: false, ..ready(0) };
    assert_eq!(rejection(prepare_transaction(apply(0), no_manifest, Ok(()))), TransactionRejection::ManifestUnavailable);
    let no_root = TransactionContext { match_root_available: false, ..ready(0) };
    assert_eq!(rejection(prepare_transaction(apply(0), no_root, Ok(()))), TransactionRejection::MatchRootUnavailable);
    let pending = TransactionContext { restart_pending: true, ..ready(0) };
    assert_eq!(
        rejection(prepare_transaction(apply(0), pending, Err("bad".to_string()))),
        TransactionRejection::RestartPending
    );
    assert_eq!(
        rejection(prepare_transaction(apply(0), ready(0), Err("bad".to_string()))),
        TransactionRejection::Invalid("bad".to_string())
    );
    assert_eq!(
        rejection(prepare_transaction(apply(u64::MAX), ready(u64::MAX), Ok(()))),
        TransactionRejection::RevisionExhausted
    );
}
