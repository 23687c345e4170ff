//! How refusals of the profile authority reach lobby clients.

use vstd::prelude::*;
use crate::lobby::model::LobbyJoinRejection;
use crate::lobby::practice::PracticeStartRejection;

verus! {

/// Why the profile authority refused a request about a player's saved brawlers.
#[derive(Clone, Copy, Debug, PartialEq, Eq, Structural)]
pub enum ProfileAuthorityError {
    AccountInUse,
    AlreadyPending,
    QueueLocked,
    InvalidRequest,
    IdentifierExhausted,
    IncompatibleBuild,
    UnknownSession,
    TemporarilyUnavailable,
    StorageStopped,
}

/// The practice rejection for a build that the profile authority would not admit: an
/// incompatible build says so; a missing session or an unavailable store is the lobby's own
/// failure; every other refusal is an invalid build.
pub open spec fn practice_rejection_of(error: ProfileAuthorityError) -> PracticeStartRejection {
    match error {
        ProfileAuthorityError::IncompatibleBuild => PracticeStartRejection::IncompatibleBuild,
        ProfileAuthorityError::UnknownSession
        | ProfileAuthorityError::TemporarilyUnavailable
        | ProfileAuthorityError::StorageStopped => PracticeStartRejection::Internal,
        _ => PracticeStartRejection::InvalidBuild,
    }
}

/// The practice rejection for a build that the profile authority would not admit.
pub fn practice_admission_rejection(error: ProfileAuthorityError) -> (rejection: PracticeStartRejection)
    ensures
        rejection == practice_rejection_of(error),
{
    match error {
        ProfileAuthorityError::IncompatibleBuild => PracticeStartRejection::IncompatibleBuild,
        ProfileAuthorityError::UnknownSession
        | ProfileAuthorityError::TemporarilyUnavailable
        | ProfileAuthorityError::StorageStopped => PracticeStartRejection::Internal,
        ProfileAuthorityError::AccountInUse
        | ProfileAuthorityError::AlreadyPending
        | ProfileAuthorityError::QueueLocked
        | ProfileAuthorityError::InvalidRequest
        | ProfileAuthorityError::IdentifierExhausted => PracticeStartRejection::InvalidBuild,
    }
}

/// The join rejection for an account the profile authority would not load: an account in use
/// and a stopped store name themselves; anything else is an invalid account.
pub fn profile_authority_join_rejection(error: ProfileAuthorityError) -> (rejection: LobbyJoinRejection)
    ensures
        rejection == (match error {
            ProfileAuthorityError::AccountInUse => LobbyJoinRejection::AccountInUse,
            ProfileAuthorityError::StorageStopped => LobbyJoinRejection::StorageUnavailable,
            _ => LobbyJoinRejection::InvalidAccount,
        }),
{
    match error {
        ProfileAuthorityError::AccountInUse => LobbyJoinRejection::AccountInUse,
        ProfileAuthorityError::StorageStopped => LobbyJoinRejection::StorageUnavailable,
        _ => LobbyJoinRejection::InvalidAccount,
    }
}

/// The profile authority's answer to a request about saved brawlers.
#[derive(Clone, Copy, Debug, PartialEq, Eq, Structural)]
pub enum ProfileDecision {
    Accepted,
    InvalidRequest,
    StaleRevision,
    MissingBrawler,
    CapacityReached,
    QueueLocked,
    TemporarilyUnavailable,
    MissingPart,
    PartAlreadyEquipped,
    IncompatibleWeapon,
    IncompatibleBuild,
    StorageFault,
}

/// The join rejection for an account whose profile did not load with `decision`: a storage
/// fault says so; anything else is an invalid account.
pub fn profile_load_rejection(decision: ProfileDecision) -> (rejection: LobbyJoinRejection)
    ensures
        rejection == (match decision {
            ProfileDecision::StorageFault => LobbyJoinRejection::StorageUnavailable,
            _ => LobbyJoinRejection::InvalidAccount,
        }),
{
    match decision {
        ProfileDecision::StorageFault => LobbyJoinRejection::StorageUnavailable,
        _ => LobbyJoinRejection::InvalidAccount,
    }
}

/// The decision a client receives for a profile command that the authority refused with
/// `error`: a locked queue and an invalid request name themselves, an unknown session is an
/// invalid request, and other refusals are temporary. A stopped store has no decision: it
/// ends the lobby.
pub fn profile_command_error_decision(error: ProfileAuthorityError) -> (decision: Option<ProfileDecision>)
    ensures
        decision == (match error {
            ProfileAuthorityError::StorageStopped => None,
            ProfileAuthorityError::QueueLocked => Some(ProfileDecision::QueueLocked),
            ProfileAuthorityError::InvalidRequest | ProfileAuthorityError::UnknownSession => Some(
                ProfileDecision::InvalidRequest,
            ),
            _ => Some(ProfileDecision::TemporarilyUnavailable),
        }),
{
    match error {
        ProfileAuthorityError::StorageStopped => None,
        ProfileAuthorityError::QueueLocked => Some(ProfileDecision::QueueLocked),
        ProfileAuthorityError::InvalidRequest | ProfileAuthorityError::UnknownSession => Some(
            ProfileDecision::InvalidRequest,
        ),
        _ => Some(ProfileDecision::TemporarilyUnavailable),
    }
}

} // verus!
