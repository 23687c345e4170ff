//! Queue commands, decisions and aggregate snapshots exchanged with lobby clients, and the
//! admitted-build facts that queue admission reads.

use vstd::prelude::*;
use crate::ids::{BrawlerId, CatalogRevision, QueueRequestId, QueueTicketId};

verus! {

/// The identity of one advertised game type (for example `wipeout-2v2`).
#[derive(Clone, Debug, PartialEq, Eq)]
pub struct GameTypeId(pub String);

/// Two game-type identities name the same game type when their text is equal.
pub open spec fn same_game(a: GameTypeId, b: GameTypeId) -> bool {
    a.0@ == b.0@
}

impl GameTypeId {
    /// A copy of the identity.
    pub fn duplicate(&self) -> (copy: Self)
        ensures
            copy == *self,
    {
        GameTypeId(self.0.clone())
    }

    /// Whether both identities spell the same game type.
    pub fn same_as(&self, other: &Self) -> (same: bool)
        ensures
            same == same_game(*self, *other),
    {
        self.0 == other.0
    }

    /// The identity's text.
    pub fn as_str(&self) -> (text: &str)
        ensures
            text@ == self.0@,
    {
        self.0.as_str()
    }
}

/// The canonical build accepted for a queue ticket.
#[derive(Clone, Copy, Debug, PartialEq, Eq)]
pub struct AcceptedBuildSummary {
    pub weapon_preset_id: u16,
    pub ultimate_id: u16,
    pub passive_ids: [u16; 2],
    pub recipe_fingerprint: u64,
    pub revision: u16,
    pub source_build_preset_id: Option<u16>,
    pub total_points: u16,
}

/// The admitted saved-brawler build snapshot that a player asks to queue with.
#[derive(Clone, Copy, Debug, PartialEq, Eq)]
pub struct BuildSnapshot {
    pub brawler_id: BrawlerId,
    pub brawler_revision: u32,
    pub weapon_base_id: u16,
    pub ultimate_id: u16,
    pub passive_ids: [u16; 2],
}

/// The identity and cost that resolving a build snapshot against the content catalogs yields.
#[derive(Clone, Copy, Debug, PartialEq, Eq)]
pub struct ResolvedBuild {
    pub recipe_fingerprint: u64,
    pub revision: u16,
    pub source_build_preset_id: Option<u16>,
    pub total_points: u16,
}

/// What resolving an admitted snapshot against the content catalogs gave.
#[derive(Clone, Copy, Debug, PartialEq, Eq)]
pub enum BuildResolution {
    /// The standard fighter definition is not installed.
    FighterUnavailable,
    /// The snapshot does not resolve against the catalogs.
    Rejected,
    /// The snapshot resolves to this identity.
    Resolved(ResolvedBuild),
}

/// An admitted build snapshot together with its resolution.
#[derive(Clone, Copy, Debug, PartialEq, Eq)]
pub struct AdmittedBuild {
    pub snapshot: BuildSnapshot,
    pub resolution: BuildResolution,
}

/// The canonical summary of a resolved build snapshot.
pub open spec fn accepted_summary(snapshot: BuildSnapshot, resolved: ResolvedBuild) -> AcceptedBuildSummary {
    AcceptedBuildSummary {
        weapon_preset_id: snapshot.weapon_base_id,
        ultimate_id: snapshot.ultimate_id,
        passive_ids: snapshot.passive_ids,
        recipe_fingerprint: resolved.recipe_fingerprint,
        revision: resolved.revision,
        source_build_preset_id: resolved.source_build_preset_id,
        total_points: resolved.total_points,
    }
}

/// Builds the canonical summary of a resolved build snapshot.
pub fn summarize_build(snapshot: &BuildSnapshot, resolved: &ResolvedBuild) -> (summary: AcceptedBuildSummary)
    ensures
        summary == accepted_summary(*snapshot, *resolved),
{
    AcceptedBuildSummary {
        weapon_preset_id: snapshot.weapon_base_id,
        ultimate_id: snapshot.ultimate_id,
        passive_ids: snapshot.passive_ids,
        recipe_fingerprint: resolved.recipe_fingerprint,
        revision: resolved.revision,
        source_build_preset_id: resolved.source_build_preset_id,
        total_points: resolved.total_points,
    }
}

/// Ask to join the pool of one game type with one saved brawler.
#[derive(Clone, Debug, PartialEq, Eq)]
pub struct QueueJoinCommand {
    pub catalog_revision: CatalogRevision,
    pub game_type_id: GameTypeId,
    pub game_type_configuration_revision: u32,
    pub brawler_id: BrawlerId,
    pub brawler_revision: u32,
}

/// Ask to leave the queue with one ticket.
#[derive(Clone, Copy, Debug, PartialEq, Eq)]
pub struct QueueCancelCommand {
    pub ticket_id: QueueTicketId,
}

/// A queue command of one client.
#[derive(Clone, Debug, PartialEq, Eq)]
pub enum QueueCommand {
    Join(QueueJoinCommand),
    Cancel(QueueCancelCommand),
}

/// Two commands are the same request when every field agrees.
pub open spec fn same_command(a: QueueCommand, b: QueueCommand) -> bool {
    match (a, b) {
        (QueueCommand::Join(x), QueueCommand::Join(y)) => {
            &&& x.catalog_revision == y.catalog_revision
            &&& same_game(x.game_type_id, y.game_type_id)
            &&& x.game_type_configuration_revision == y.game_type_configuration_revision
            &&& x.brawler_id == y.brawler_id
            &&& x.brawler_revision == y.brawler_revision
        },
        (QueueCommand::Cancel(x), QueueCommand::Cancel(y)) => x.ticket_id == y.ticket_id,
        _ => false,
    }
}

/// One message of a lobby client to the queue: a command, or the acknowledgement of the
/// outcome of an earlier request.
#[derive(Clone, Debug, PartialEq, Eq)]
pub enum QueueClientMessage {
    Command { request_id: QueueRequestId, command: QueueCommand },
    OutcomeAck { request_id: QueueRequestId },
}

impl QueueCommand {
    /// A copy of the command.
    pub fn duplicate(&self) -> (copy: Self)
        ensures
            copy == *self,
    {
        match self {
            QueueCommand::Join(join) => QueueCommand::Join(QueueJoinCommand {
                catalog_revision: join.catalog_revision,
                game_type_id: join.game_type_id.duplicate(),
                game_type_configuration_revision: join.game_type_configuration_revision,
                brawler_id: join.brawler_id,
                brawler_revision: join.brawler_revision,
            }),
            QueueCommand::Cancel(cancel) => QueueCommand::Cancel(*cancel),
        }
    }

    /// Whether two commands are the same request.
    pub fn same_as(&self, other: &Self) -> (same: bool)
        ensures
            same == same_command(*self, *other),
    {
        match (self, other) {
            (QueueCommand::Join(x), QueueCommand::Join(y)) => {
                x.catalog_revision == y.catalog_revision && x.game_type_id.same_as(&y.game_type_id)
                    && x.game_type_configuration_revision == y.game_type_configuration_revision
                    && x.brawler_id == y.brawler_id && x.brawler_revision == y.brawler_revision
            },
            (QueueCommand::Cancel(x), QueueCommand::Cancel(y)) => x.ticket_id == y.ticket_id,
            _ => false,
        }
    }
}

/// Why a queue command was not applied.
#[derive(Clone, Copy, Debug, PartialEq, Eq, Structural)]
pub enum QueueRejection {
    StaleCatalog,
    UnknownGameType,
    StaleGameConfiguration,
    MustCancelFirst,
    TemporarilyUnavailable,
    InternalBuildResolution,
    TicketMismatch,
    StaleRequest,
    RateLimited { retry_after_millis: u16 },
}

/// The membership a joined player holds.
#[derive(Clone, Debug, PartialEq, Eq)]
pub struct QueueMembership {
    pub ticket_id: QueueTicketId,
    pub catalog_revision: CatalogRevision,
    pub game_type_id: GameTypeId,
    pub game_type_configuration_revision: u32,
    pub brawler_id: BrawlerId,
    pub brawler_revision: u32,
    pub accepted_build: AcceptedBuildSummary,
    pub admitted_at_pool_state_revision: u64,
}

impl QueueMembership {
    /// A copy of the membership.
    pub fn duplicate(&self) -> (copy: Self)
        ensures
            copy == *self,
    {
        QueueMembership {
            ticket_id: self.ticket_id,
            catalog_revision: self.catalog_revision,
            game_type_id: self.game_type_id.duplicate(),
            game_type_configuration_revision: self.game_type_configuration_revision,
            brawler_id: self.brawler_id,
            brawler_revision: self.brawler_revision,
            accepted_build: self.accepted_build,
            admitted_at_pool_state_revision: self.admitted_at_pool_state_revision,
        }
    }
}

/// The decision a queue command received.
#[derive(Clone, Debug, PartialEq, Eq)]
pub enum QueueDecision {
    Joined(QueueMembership),
    Cancelled { ticket_id: QueueTicketId, resulting_pool_state_revision: u64 },
    Rejected(QueueRejection),
}

impl QueueDecision {
    /// A copy of the decision.
    pub fn duplicate(&self) -> (copy: Self)
        ensures
            copy == *self,
    {
        match self {
            QueueDecision::Joined(membership) => QueueDecision::Joined(membership.duplicate()),
            QueueDecision::Cancelled { ticket_id, resulting_pool_state_revision } => {
                QueueDecision::Cancelled {
                    ticket_id: *ticket_id,
                    resulting_pool_state_revision: *resulting_pool_state_revision,
                }
            },
            QueueDecision::Rejected(rejection) => QueueDecision::Rejected(*rejection),
        }
    }
}

/// The outcome of one queue request, delivered until the client acknowledges it.
#[derive(Clone, Debug, PartialEq, Eq)]
pub struct QueueCommandOutcome {
    pub request_id: QueueRequestId,
    pub decision: QueueDecision,
}

impl QueueCommandOutcome {
    /// A copy of the outcome.
    pub fn duplicate(&self) -> (copy: Self)
        ensures
            copy == *self,
    {
        QueueCommandOutcome { request_id: self.request_id, decision: self.decision.duplicate() }
    }
}

/// The public aggregate row of one game-type pool.
#[derive(Clone, Debug, PartialEq, Eq)]
pub struct QueuePoolRow {
    pub game_type_id: GameTypeId,
    pub game_type_configuration_revision: u32,
    pub queued: u16,
    pub formation_size: u8,
}

impl QueuePoolRow {
    /// A copy of the row.
    pub fn duplicate(&self) -> (copy: Self)
        ensures
            copy == *self,
    {
        QueuePoolRow {
            game_type_id: self.game_type_id.duplicate(),
            game_type_configuration_revision: self.game_type_configuration_revision,
            queued: self.queued,
            formation_size: self.formation_size,
        }
    }
}

/// Whether the lobby currently forms matches.
#[derive(Clone, Copy, Debug, PartialEq, Eq, Structural)]
pub enum FormationAvailability {
    Available,
}

/// The privacy-safe aggregate view of every pool.
#[derive(Clone, Debug, PartialEq, Eq)]
pub struct QueuePoolSnapshot {
    pub catalog_revision: CatalogRevision,
    pub state_revision: u64,
    pub formation_availability: FormationAvailability,
    pub pools: Vec<QueuePoolRow>,
}

} // verus!
