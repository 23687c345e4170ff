//! When the lobby publishes the queue's aggregate snapshot, and how it screens a client's frame
//! of queue messages before applying them.

use vstd::prelude::*;
use crate::queue::model::{bump, Counter, SnapshotPublication};
use crate::queue::state::{QueueState, QueueTicketIdSource};
use crate::wire::{FormationAvailability, QueuePoolSnapshot};

verus! {

/// The most queue messages a client may send in one frame.
pub const MAX_QUEUE_MESSAGES_PER_FRAME: usize = 4;

/// The least time between two periodic refreshes of the snapshot, in milliseconds.
pub const SNAPSHOT_REFRESH_MILLIS: u64 = 1_000;

/// What the lobby owes its clients of the queue snapshot: a first publication to a newly
/// admitted client, a publication after a change, and when it last published.
pub struct QueueSnapshotPublication {
    pub initial_pending: bool,
    pub mutation_pending: bool,
    pub last_refresh_millis: u64,
}

/// The publication a frame owes: after a change (pending or reported now), then a first one to
/// a newly admitted client, then a periodic refresh once a second has passed, when clients are
/// connected.
pub open spec fn publication_owed(
    p: QueueSnapshotPublication,
    snapshot_changed: bool,
    now_millis: u64,
    has_clients: bool,
) -> Option<SnapshotPublication> {
    let elapsed = if now_millis >= p.last_refresh_millis {
        now_millis - p.last_refresh_millis
    } else {
        0
    };
    if p.mutation_pending || snapshot_changed {
        Some(SnapshotPublication::Mutation)
    } else if p.initial_pending {
        Some(SnapshotPublication::Initial)
    } else if has_clients && elapsed >= SNAPSHOT_REFRESH_MILLIS {
        Some(SnapshotPublication::Refresh)
    } else {
        None
    }
}

/// The telemetry counter of a publication of `kind`.
pub open spec fn publication_counter(kind: SnapshotPublication) -> Counter {
    match kind {
        SnapshotPublication::Initial => Counter::InitialSnapshots,
        SnapshotPublication::Mutation => Counter::MutationSnapshots,
        SnapshotPublication::Refresh => Counter::RefreshSnapshots,
    }
}

impl QueueSnapshotPublication {
    /// Nothing owed, and no refresh yet.
    pub fn new() -> (p: Self)
        ensures
            !p.initial_pending,
            !p.mutation_pending,
            p.last_refresh_millis == 0,
    {
        QueueSnapshotPublication { initial_pending: false, mutation_pending: false, last_refresh_millis: 0 }
    }

    /// Publish the queue's snapshot at `now_millis` if this frame owes one, `snapshot_changed`
    /// saying whether the frame changed it and `has_clients` whether any client is connected.
    /// A published snapshot is counted and settles what was owed; a change that is not
    /// published stays owed. Nothing is published once the queue's revision is exhausted.
    pub fn publish<T: QueueTicketIdSource>(
        &mut self,
        queue: &mut QueueState<T>,
        snapshot_changed: bool,
        now_millis: u64,
        has_clients: bool,
    ) -> (published: Option<(SnapshotPublication, QueuePoolSnapshot)>)
        ensures
            if old(queue)@.revision_exhausted {
                &&& final(queue)@ == old(queue)@
                &&& *final(self) == *old(self)
                &&& published is None
            } else {
                match publication_owed(*old(self), snapshot_changed, now_millis, has_clients) {
                    None => {
                        &&& final(queue)@ == old(queue)@
                        &&& final(self).mutation_pending == (old(self).mutation_pending || snapshot_changed)
                        &&& final(self).initial_pending == old(self).initial_pending
                        &&& final(self).last_refresh_millis == old(self).last_refresh_millis
                        &&& published is None
                    },
                    Some(kind) => {
                        &&& final(queue)@ == bump(old(queue)@, publication_counter(kind))
                        &&& !final(self).mutation_pending
                        &&& !final(self).initial_pending
                        &&& final(self).last_refresh_millis == now_millis
                        &&& published matches Some((k, snapshot)) && {
                            &&& k == kind
                            &&& snapshot.catalog_revision == old(queue)@.catalog_revision
                            &&& snapshot.state_revision == old(queue)@.state_revision
                            &&& snapshot.formation_availability == FormationAvailability::Available
                            &&& snapshot.pools@ == old(queue)@.pool_rows
                        }
                    },
                }
            },
    {
        if queue.revision_exhausted() {
            return None;
        }
        self.mutation_pending = self.mutation_pending || snapshot_changed;
        let elapsed = now_millis.saturating_sub(self.last_refresh_millis);
        let kind = if self.mutation_pending {
            SnapshotPublication::Mutation
        } else if self.initial_pending {
            SnapshotPublication::Initial
        } else if has_clients && elapsed >= SNAPSHOT_REFRESH_MILLIS {
            SnapshotPublication::Refresh
        } else {
            return None;
        };
        let snapshot = queue.snapshot();
        queue.record_snapshot_publication(kind);
        self.initial_pending = false;
        self.mutation_pending = false;
        self.last_refresh_millis = now_millis;
        Some((kind, snapshot))
    }
}

/// What becomes of a client's frame of queue messages.
#[derive(Clone, Copy, Debug, PartialEq, Eq, Structural)]
pub enum FrameVerdict {
    /// Nothing arrived.
    Empty,
    /// Messages from a link without a lobby session: count the abuse and disconnect it.
    Unauthenticated,
    /// Messages from a client already disconnecting: record the session's loss.
    Lost,
    /// Messages from a session that may not send now, or too many of them: count the abuse,
    /// record the session's loss and disconnect it.
    Abusive,
    /// Apply the messages.
    Collect,
}

/// The verdict on a frame of `message_count` queue messages (counted up to one more than a
/// frame may hold) from a link that `authenticated` says has a lobby session, that
/// `disconnected` says is disconnecting, and whose session `eligible` says may send now.
pub fn frame_verdict(message_count: usize, authenticated: bool, disconnected: bool, eligible: bool) -> (verdict: FrameVerdict)
    ensures
        verdict == (if message_count == 0 {
            FrameVerdict::Empty
        } else if !authenticated {
            FrameVerdict::Unauthenticated
        } else if disconnected {
            FrameVerdict::Lost
        } else if !eligible || message_count > MAX_QUEUE_MESSAGES_PER_FRAME {
            FrameVerdict::Abusive
        } else {
            FrameVerdict::Collect
        }),
{
    if message_count == 0 {
        FrameVerdict::Empty
    } else if !authenticated {
        FrameVerdict::Unauthenticated
    } else if disconnected {
        FrameVerdict::Lost
    } else if !eligible || message_count > MAX_QUEUE_MESSAGES_PER_FRAME {
        FrameVerdict::Abusive
    } else {
        FrameVerdict::Collect
    }
}

} // verus!
