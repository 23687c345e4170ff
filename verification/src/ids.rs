//! Nonzero identity newtypes shared by the lobby and the queue.

use vstd::prelude::*;

verus! {

/// An authenticated lobby session. Zero is never a valid identity.
#[derive(Clone, Copy, PartialEq, Eq, Structural, Debug, PartialOrd, Ord, Hash)]
pub struct LobbySessionId(pub u128);

impl LobbySessionId {
    /// Builds the identity, refusing zero.
    pub fn new(value: u128) -> (id: Option<Self>)
        ensures
            id == (if value == 0 { None } else { Some(LobbySessionId(value)) }),
    {
        if value == 0 {
            None
        } else {
            Some(LobbySessionId(value))
        }
    }

    /// The raw value of the identity.
    pub fn get(self) -> (value: u128)
        ensures
            value == self.0,
    {
        self.0
    }
}

/// A player identity inside the lobby and its matches. Zero is never a valid identity.
#[derive(Clone, Copy, PartialEq, Eq, Structural, Debug, PartialOrd, Ord, Hash)]
pub struct PlayerId(pub u64);

impl PlayerId {
    /// Builds the identity, refusing zero.
    pub fn new(value: u64) -> (id: Option<Self>)
        ensures
            id == (if value == 0 { None } else { Some(PlayerId(value)) }),
    {
        if value == 0 {
            None
        } else {
            Some(PlayerId(value))
        }
    }

    /// The raw value of the identity.
    pub fn get(self) -> (value: u64)
        ensures
            value == self.0,
    {
        self.0
    }
}

/// The stable authenticated Netcode client identity. Zero is never a valid identity.
#[derive(Clone, Copy, PartialEq, Eq, Structural, Debug, PartialOrd, Ord, Hash)]
pub struct NetcodeClientId(pub u64);

impl NetcodeClientId {
    /// Builds the identity, refusing zero.
    pub fn new(value: u64) -> (id: Option<Self>)
        ensures
            id == (if value == 0 { None } else { Some(NetcodeClientId(value)) }),
    {
        if value == 0 {
            None
        } else {
            Some(NetcodeClientId(value))
        }
    }

    /// The raw value of the identity.
    pub fn get(self) -> (value: u64)
        ensures
            value == self.0,
    {
        self.0
    }
}

/// A routed connection identity. Zero is never a valid identity.
#[derive(Clone, Copy, PartialEq, Eq, Structural, Debug, PartialOrd, Ord, Hash)]
pub struct RouteId(pub u128);

impl RouteId {
    /// Builds the identity, refusing zero.
    pub fn new(value: u128) -> (id: Option<Self>)
        ensures
            id == (if value == 0 { None } else { Some(RouteId(value)) }),
    {
        if value == 0 {
            None
        } else {
            Some(RouteId(value))
        }
    }

    /// The raw value of the identity.
    pub fn get(self) -> (value: u128)
        ensures
            value == self.0,
    {
        self.0
    }
}

/// A routed peer identity. Zero is never a valid identity.
#[derive(Clone, Copy, PartialEq, Eq, Structural, Debug, PartialOrd, Ord, Hash)]
pub struct PeerId(pub u128);

impl PeerId {
    /// Builds the identity, refusing zero.
    pub fn new(value: u128) -> (id: Option<Self>)
        ensures
            id == (if value == 0 { None } else { Some(PeerId(value)) }),
    {
        if value == 0 {
            None
        } else {
            Some(PeerId(value))
        }
    }

    /// The raw value of the identity.
    pub fn get(self) -> (value: u128)
        ensures
            value == self.0,
    {
        self.0
    }
}

/// A supervisor allocation request identity. Zero is never a valid identity.
#[derive(Clone, Copy, PartialEq, Eq, Structural, Debug, PartialOrd, Ord, Hash)]
pub struct RequestId(pub u64);

impl RequestId {
    /// Builds the identity, refusing zero.
    pub fn new(value: u64) -> (id: Option<Self>)
        ensures
            id == (if value == 0 { None } else { Some(RequestId(value)) }),
    {
        if value == 0 {
            None
        } else {
            Some(RequestId(value))
        }
    }

    /// The raw value of the identity.
    pub fn get(self) -> (value: u64)
        ensures
            value == self.0,
    {
        self.0
    }
}

/// One queue admission ticket. Zero is never a valid identity.
#[derive(Clone, Copy, PartialEq, Eq, Structural, Debug, PartialOrd, Ord, Hash)]
pub struct QueueTicketId(pub u128);

impl QueueTicketId {
    /// Builds the identity, refusing zero.
    pub fn new(value: u128) -> (id: Option<Self>)
        ensures
            id == (if value == 0 { None } else { Some(QueueTicketId(value)) }),
    {
        if value == 0 {
            None
        } else {
            Some(QueueTicketId(value))
        }
    }

    /// The raw value of the identity.
    pub fn get(self) -> (value: u128)
        ensures
            value == self.0,
    {
        self.0
    }
}

/// A client-chosen queue request identity. Zero is never a valid identity.
#[derive(Clone, Copy, PartialEq, Eq, Structural, Debug, PartialOrd, Ord, Hash)]
pub struct QueueRequestId(pub u64);

impl QueueRequestId {
    /// Builds the identity, refusing zero.
    pub fn new(value: u64) -> (id: Option<Self>)
        ensures
            id == (if value == 0 { None } else { Some(QueueRequestId(value)) }),
    {
        if value == 0 {
            None
        } else {
            Some(QueueRequestId(value))
        }
    }

    /// The raw value of the identity.
    pub fn get(self) -> (value: u64)
        ensures
            value == self.0,
    {
        self.0
    }
}

/// A client-chosen practice request identity. Zero is never a valid identity.
#[derive(Clone, Copy, PartialEq, Eq, Structural, Debug, PartialOrd, Ord, Hash)]
pub struct PracticeRequestId(pub u64);

impl PracticeRequestId {
    /// Builds the identity, refusing zero.
    pub fn new(value: u64) -> (id: Option<Self>)
        ensures
            id == (if value == 0 { None } else { Some(PracticeRequestId(value)) }),
    {
        if value == 0 {
            None
        } else {
            Some(PracticeRequestId(value))
        }
    }

    /// The raw value of the identity.
    pub fn get(self) -> (value: u64)
        ensures
            value == self.0,
    {
        self.0
    }
}

/// A reserved match roster. Zero is never a valid identity.
#[derive(Clone, Copy, PartialEq, Eq, Structural, Debug, PartialOrd, Ord, Hash)]
pub struct MatchReservationId(pub u128);

impl MatchReservationId {
    /// Builds the identity, refusing zero.
    pub fn new(value: u128) -> (id: Option<Self>)
        ensures
            id == (if value == 0 { None } else { Some(MatchReservationId(value)) }),
    {
        if value == 0 {
            None
        } else {
            Some(MatchReservationId(value))
        }
    }

    /// The raw value of the identity.
    pub fn get(self) -> (value: u128)
        ensures
            value == self.0,
    {
        self.0
    }
}

/// A saved brawler owned by a player profile. Zero is never a valid identity.
#[derive(Clone, Copy, PartialEq, Eq, Structural, Debug, PartialOrd, Ord, Hash)]
pub struct BrawlerId(pub u128);

impl BrawlerId {
    /// Builds the identity, refusing zero.
    pub fn new(value: u128) -> (id: Option<Self>)
        ensures
            id == (if value == 0 { None } else { Some(BrawlerId(value)) }),
    {
        if value == 0 {
            None
        } else {
            Some(BrawlerId(value))
        }
    }

    /// The raw value of the identity.
    pub fn get(self) -> (value: u128)
        ensures
            value == self.0,
    {
        self.0
    }
}

/// A supervisor allocation. Zero is never a valid identity.
#[derive(Clone, Copy, PartialEq, Eq, Structural, Debug, PartialOrd, Ord, Hash)]
pub struct AllocationId(pub u64);

impl AllocationId {
    /// Builds the identity, refusing zero.
    pub fn new(value: u64) -> (id: Option<Self>)
        ensures
            id == (if value == 0 { None } else { Some(AllocationId(value)) }),
    {
        if value == 0 {
            None
        } else {
            Some(AllocationId(value))
        }
    }

    /// The raw value of the identity.
    pub fn get(self) -> (value: u64)
        ensures
            value == self.0,
    {
        self.0
    }
}

/// A match created by the supervisor. Zero is never a valid identity.
#[derive(Clone, Copy, PartialEq, Eq, Structural, Debug, PartialOrd, Ord, Hash)]
pub struct MatchId(pub u64);

impl MatchId {
    /// Builds the identity, refusing zero.
    pub fn new(value: u64) -> (id: Option<Self>)
        ensures
            id == (if value == 0 { None } else { Some(MatchId(value)) }),
    {
        if value == 0 {
            None
        } else {
            Some(MatchId(value))
        }
    }

    /// The raw value of the identity.
    pub fn get(self) -> (value: u64)
        ensures
            value == self.0,
    {
        self.0
    }
}

/// A replicated network entity identity. Zero is never a valid identity.
#[derive(Clone, Copy, PartialEq, Eq, Structural, Debug, PartialOrd, Ord, Hash)]
pub struct NetworkEntityId(pub u64);

impl NetworkEntityId {
    /// Builds the identity, refusing zero.
    pub fn new(value: u64) -> (id: Option<Self>)
        ensures
            id == (if value == 0 { None } else { Some(NetworkEntityId(value)) }),
    {
        if value == 0 {
            None
        } else {
            Some(NetworkEntityId(value))
        }
    }

    /// The raw value of the identity.
    pub fn get(self) -> (value: u64)
        ensures
            value == self.0,
    {
        self.0
    }
}

/// Digest of the advertised catalog, held as its two 128-bit halves.
#[derive(Clone, Copy, PartialEq, Eq, Structural, Debug, PartialOrd, Ord, Hash)]
pub struct CatalogRevision(pub u128, pub u128);

/// A map preset of the embedded map catalog.
#[derive(Clone, Copy, PartialEq, Eq, Structural, Debug, PartialOrd, Ord, Hash)]
pub struct MapPresetId(pub u16);

} // verus!
