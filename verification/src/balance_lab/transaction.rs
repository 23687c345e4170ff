//! The decisions of one balance-lab apply or restore transaction, taken on the fixed tick: a
//! request is prepared against the lab's state, the accepted tuning is persisted, and only a
//! persisted transaction commits the next applied revision.
//!
//! Validating the candidate tuning, persisting it and installing it into the running match are
//! the caller's work; it hands their verdicts to these steps and performs what they decide.

use vstd::prelude::*;
use crate::balance_lab::http::SNAPSHOT_SCHEMA_VERSION;

verus! {

/// A queued lab command.
#[derive(Clone, Copy, Debug, PartialEq, Eq, Structural)]
pub enum TransactionRequest {
    /// Apply a candidate snapshot written in schema `schema_version`.
    Apply { transaction_id: u64, schema_version: u16, expected_revision: u64 },
    /// Return to the baseline tuning.
    Restore { transaction_id: u64, expected_revision: u64 },
}

/// What persistence does with an accepted transaction.
#[derive(Clone, Copy, Debug, PartialEq, Eq, Structural)]
pub enum PersistenceAction {
    /// Save the candidate under the next revision.
    Save,
    /// Remove the saved tuning, so the baseline is loaded next time.
    Clear,
}

/// What the worker knows of its match when it prepares a transaction.
#[derive(Clone, Copy, Debug, PartialEq, Eq, Structural)]
pub struct TransactionContext {
    /// The applied revision.
    pub revision: u64,
    pub manifest_available: bool,
    pub match_root_available: bool,
    /// Whether another match reset is already staged.
    pub restart_pending: bool,
}

/// Why a transaction was rejected.
#[derive(Clone, Debug, PartialEq, Eq)]
pub enum TransactionRejection {
    UnsupportedSchema,
    StaleRevision,
    ManifestUnavailable,
    MatchRootUnavailable,
    RestartPending,
    /// The candidate, its roster or its map did not validate.
    Invalid(String),
    RevisionExhausted,
    /// The accepted tuning could not be persisted.
    NotPersisted(String),
}

/// A transaction that passed preparation and awaits persistence.
#[derive(Clone, Copy, Debug, PartialEq, Eq, Structural)]
pub struct PreparedTransaction {
    pub transaction_id: u64,
    pub next_revision: u64,
    pub persistence: PersistenceAction,
}

/// What the worker does next.
#[derive(Clone, Debug, PartialEq, Eq)]
pub enum TransactionAction {
    /// Publish the rejection; nothing changes.
    Reject { transaction_id: u64, rejection: TransactionRejection },
    /// Persist the accepted tuning, then report the outcome to the commit step.
    Persist(PreparedTransaction),
    /// Install the prepared tuning, stage the match restart and publish the applied revision.
    Commit { transaction_id: u64, revision: u64 },
}

/// The transaction identity of a request.
pub open spec fn request_id(request: TransactionRequest) -> u64 {
    match request {
        TransactionRequest::Apply { transaction_id, .. } => transaction_id,
        TransactionRequest::Restore { transaction_id, .. } => transaction_id,
    }
}

/// The preparation decision: the request's schema, then the expected revision, the worker's
/// manifest, the match root, a pending reset, the candidate's validation and the revision
/// space, in that order.
pub open spec fn prepared(
    request: TransactionRequest,
    context: TransactionContext,
    validation: Result<(), String>,
) -> TransactionAction {
    let id = request_id(request);
    let (expected, persistence) = match request {
        TransactionRequest::Apply { expected_revision, .. } => (expected_revision, PersistenceAction::Save),
        TransactionRequest::Restore { expected_revision, .. } => (expected_revision, PersistenceAction::Clear),
    };
    if request matches TransactionRequest::Apply { schema_version, .. } && schema_version != SNAPSHOT_SCHEMA_VERSION {
        TransactionAction::Reject { transaction_id: id, rejection: TransactionRejection::UnsupportedSchema }
    } else if expected != context.revision {
        TransactionAction::Reject { transaction_id: id, rejection: TransactionRejection::StaleRevision }
    } else if !context.manifest_available {
        TransactionAction::Reject { transaction_id: id, rejection: TransactionRejection::ManifestUnavailable }
    } else if !context.match_root_available {
        TransactionAction::Reject { transaction_id: id, rejection: TransactionRejection::MatchRootUnavailable }
    } else if context.restart_pending {
        TransactionAction::Reject { transaction_id: id, rejection: TransactionRejection::RestartPending }
    } else {
        match validation {
            Err(reason) => TransactionAction::Reject {
                transaction_id: id,
                rejection: TransactionRejection::Invalid(reason),
            },
            Ok(()) => if context.revision == u64::MAX {
                TransactionAction::Reject { transaction_id: id, rejection: TransactionRejection::RevisionExhausted }
            } else {
                TransactionAction::Persist(
                    PreparedTransaction {
                        transaction_id: id,
                        next_revision: (context.revision + 1) as u64,
                        persistence,
                    },
                )
            },
        }
    }
}

/// The commit decision after persistence: the applied revision that follows and the action.
pub open spec fn completed(revision: u64, prepared: PreparedTransaction, persisted: Result<(), String>) -> (
    u64,
    TransactionAction,
) {
    match persisted {
        Err(reason) => (
            revision,
            TransactionAction::Reject {
                transaction_id: prepared.transaction_id,
                rejection: TransactionRejection::NotPersisted(reason),
            },
        ),
        Ok(()) => (
            prepared.next_revision,
            TransactionAction::Commit { transaction_id: prepared.transaction_id, revision: prepared.next_revision },
        ),
    }
}

/// Prepares a queued request against the lab's state. `validation` is the verdict on the
/// candidate tuning, its mode-specific rules, the admitted roster's loadouts and the practice
/// map under it.
pub fn prepare_transaction(
    request: TransactionRequest,
    context: TransactionContext,
    validation: Result<(), String>,
) -> (action: TransactionAction)
    ensures
        action == prepared(request, context, validation),
{
    let (id, expected, persistence) = match request {
        TransactionRequest::Apply { transaction_id, schema_version, expected_revision } => {
            if schema_version != SNAPSHOT_SCHEMA_VERSION {
                return TransactionAction::Reject {
                    transaction_id: transaction_id,
                    rejection: TransactionRejection::UnsupportedSchema,
                };
            }
            (transaction_id, expected_revision, PersistenceAction::Save)
        },
        TransactionRequest::Restore { transaction_id, expected_revision } => {
            (transaction_id, expected_revision, PersistenceAction::Clear)
        },
    };
    if expected != context.revision {
        return TransactionAction::Reject { transaction_id: id, rejection: TransactionRejection::StaleRevision };
    }
    if !context.manifest_available {
        return TransactionAction::Reject { transaction_id: id, rejection: TransactionRejection::ManifestUnavailable };
    }
    if !context.match_root_available {
        return TransactionAction::Reject { transaction_id: id, rejection: TransactionRejection::MatchRootUnavailable };
    }
    if context.restart_pending {
        return TransactionAction::Reject { transaction_id: id, rejection: TransactionRejection::RestartPending };
    }
    if let Err(reason) = validation {
        return TransactionAction::Reject { transaction_id: id, rejection: TransactionRejection::Invalid(reason) };
    }
    if context.revision == u64::MAX {
        return TransactionAction::Reject { transaction_id: id, rejection: TransactionRejection::RevisionExhausted };
    }
    TransactionAction::Persist(
        PreparedTransaction { transaction_id: id, next_revision: context.revision + 1, persistence: persistence },
    )
}

/// Decides the commit of a prepared transaction once persistence reported: a persisted
/// transaction commits its next revision; one that could not be persisted is rejected and the
/// applied revision stays.
pub fn complete_transaction(revision: u64, prepared: PreparedTransaction, persisted: Result<(), String>) -> (step: (
    u64,
    TransactionAction,
))
    ensures
        step == completed(revision, prepared, persisted),
{
    match persisted {
        Err(reason) => (
            revision,
            TransactionAction::Reject {
                transaction_id: prepared.transaction_id,
                rejection: TransactionRejection::NotPersisted(reason),
            },
        ),
        Ok(()) => (
            prepared.next_revision,
            TransactionAction::Commit { transaction_id: prepared.transaction_id, revision: prepared.next_revision },
        ),
    }
}

/// A transaction moves the applied revision by exactly one, and only when it was prepared and
/// persisted; every rejection, including a failed persistence, leaves the revision where it
/// was. An apply persists by saving its candidate, a restore by clearing the saved tuning.
pub proof fn law_transaction_moves_revision_by_one(
    request: TransactionRequest,
    context: TransactionContext,
    validation: Result<(), String>,
    persisted: Result<(), String>,
)
    ensures
        match prepared(request, context, validation) {
            TransactionAction::Persist(p) => {
                &&& p.transaction_id == request_id(request)
                &&& p.next_revision == context.revision + 1
                &&& (p.persistence == PersistenceAction::Save <==> request is Apply)
                &&& (completed(context.revision, p, persisted).0 == context.revision + 1 <==> persisted is Ok)
                &&& (persisted is Err ==> completed(context.revision, p, persisted).0 == context.revision)
            },
            TransactionAction::Reject { transaction_id, .. } => transaction_id == request_id(request),
            TransactionAction::Commit { .. } => false,
        },
{
}


/// A transaction is only ever prepared against the revision it expects: whenever preparation
/// asks for persistence, the request's expected revision, for an apply and a restore alike, is
/// the applied revision; and a request expecting another revision is rejected as stale, unless
/// an apply already fails on its schema.
pub proof fn law_only_current_revision_is_prepared(
    request: TransactionRequest,
    context: TransactionContext,
    validation: Result<(), String>,
)
    ensures
        ({
            let expected = match request {
                TransactionRequest::Apply { expected_revision, .. } => expected_revision,
                TransactionRequest::Restore { expected_revision, .. } => expected_revision,
            };
            let bad_schema = request matches TransactionRequest::Apply { schema_version, .. }
                && schema_version != SNAPSHOT_SCHEMA_VERSION;
            &&& prepared(request, context, validation) is Persist ==> expected == context.revision
            &&& (expected != context.revision && !bad_schema) ==> prepared(request, context, validation) == (
            TransactionAction::Reject {
                transaction_id: match request {
                    TransactionRequest::Apply { transaction_id, .. } => transaction_id,
                    TransactionRequest::Restore { transaction_id, .. } => transaction_id,
                },
                rejection: TransactionRejection::StaleRevision,
            })
        }),
{
}

/// Preparation asks for persistence only when every precondition of a transaction holds: a
/// supported schema for an apply, the worker's manifest and match root, no other reset staged,
/// a valid candidate and a revision left; the prepared transaction keeps the request's
/// identity, moves to the next revision, and saves an apply's candidate or clears the saved
/// tuning for a restore.
pub proof fn law_persist_only_when_transaction_is_sound(
    request: TransactionRequest,
    context: TransactionContext,
    validation: Result<(), String>,
)
    ensures
        prepared(request, context, validation) matches TransactionAction::Persist(p) ==> {
            &&& !(request matches TransactionRequest::Apply { schema_version, .. } && schema_version
                != SNAPSHOT_SCHEMA_VERSION)
            &&& context.manifest_available
            &&& context.match_root_available
            &&& !context.restart_pending
            &&& validation is Ok
            &&& context.revision < u64::MAX
            &&& p.next_revision == context.revision + 1
            &&& p.transaction_id == match request {
                TransactionRequest::Apply { transaction_id, .. } => transaction_id,
                TransactionRequest::Restore { transaction_id, .. } => transaction_id,
            }
            &&& (p.persistence == PersistenceAction::Save <==> request is Apply)
        },
        prepared(request, context, validation) !is Commit,
{
}

/// After persistence reports, a persisted transaction commits exactly its prepared revision
/// under its own identity, and one that could not be persisted is rejected with the
/// persistence failure while the applied revision stays where it was.
pub proof fn law_commit_only_after_persistence(revision: u64, prepared: PreparedTransaction, persisted: Result<(), String>)
    ensures
        ({
            let (next, action) = completed(revision, prepared, persisted);
            &&& persisted is Ok ==> next == prepared.next_revision && action == (TransactionAction::Commit {
                transaction_id: prepared.transaction_id,
                revision: prepared.next_revision,
            })
            &&& persisted matches Err(reason) ==> next == revision && action == (TransactionAction::Reject {
                transaction_id: prepared.transaction_id,
                rejection: TransactionRejection::NotPersisted(reason),
            })
        }),
{
}
} // verus!
