//! Privacy-safe aggregate queue telemetry.

use vstd::prelude::*;

verus! {

/// Saturating increment of a counter.
pub open spec fn sat_inc(value: u64) -> u64 {
    if value == u64::MAX {
        value
    } else {
        (value + 1) as u64
    }
}

/// A count reported in a `u16`, saturating at its maximum.
pub open spec fn cap16(count: int) -> u16 {
    if count > u16::MAX {
        u16::MAX
    } else {
        count as u16
    }
}

/// Aggregate queue counters. Nothing in it identifies a player.
#[derive(Clone, Copy, Debug, PartialEq, Eq, Structural)]
pub struct QueueTelemetry {
    pub current_tickets: u16,
    pub high_water_tickets: u16,
    pub current_pending_outcomes: u16,
    pub high_water_pending_outcomes: u16,
    pub admissions: u64,
    pub cancellations: u64,
    pub disconnect_removals: u64,
    pub build_rejections: u64,
    pub game_rejections: u64,
    pub membership_rejections: u64,
    pub unavailable_rejections: u64,
    pub rate_limit_notices: u64,
    pub protocol_abuse_disconnects: u64,
    pub suppressed_identical_retries: u64,
    pub early_identical_retries: u64,
    pub initial_snapshot_publications: u64,
    pub mutation_snapshot_publications: u64,
    pub refresh_snapshot_publications: u64,
}

/// Telemetry with every counter at zero.
pub open spec fn zero_telemetry() -> QueueTelemetry {
    QueueTelemetry {
        current_tickets: 0,
        high_water_tickets: 0,
        current_pending_outcomes: 0,
        high_water_pending_outcomes: 0,
        admissions: 0,
        cancellations: 0,
        disconnect_removals: 0,
        build_rejections: 0,
        game_rejections: 0,
        membership_rejections: 0,
        unavailable_rejections: 0,
        rate_limit_notices: 0,
        protocol_abuse_disconnects: 0,
        suppressed_identical_retries: 0,
        early_identical_retries: 0,
        initial_snapshot_publications: 0,
        mutation_snapshot_publications: 0,
        refresh_snapshot_publications: 0,
    }
}

/// The telemetry after observing the current ticket and pending-outcome counts: the current
/// values are the counts saturated at `u16::MAX`, and each high-water mark is the larger of its
/// previous value and the current one.
pub open spec fn observed(t: QueueTelemetry, tickets: int, pending: int) -> QueueTelemetry {
    let current_tickets = cap16(tickets);
    let current_pending = cap16(pending);
    QueueTelemetry {
        current_tickets: current_tickets,
        current_pending_outcomes: current_pending,
        high_water_tickets: if t.high_water_tickets >= current_tickets {
            t.high_water_tickets
        } else {
            current_tickets
        },
        high_water_pending_outcomes: if t.high_water_pending_outcomes >= current_pending {
            t.high_water_pending_outcomes
        } else {
            current_pending
        },
        ..t
    }
}

impl Default for QueueTelemetry {
    fn default() -> (telemetry: Self)
        ensures
            telemetry == zero_telemetry(),
    {
        QueueTelemetry {
            current_tickets: 0,
            high_water_tickets: 0,
            current_pending_outcomes: 0,
            high_water_pending_outcomes: 0,
            admissions: 0,
            cancellations: 0,
            disconnect_removals: 0,
            build_rejections: 0,
            game_rejections: 0,
            membership_rejections: 0,
            unavailable_rejections: 0,
            rate_limit_notices: 0,
            protocol_abuse_disconnects: 0,
            suppressed_identical_retries: 0,
            early_identical_retries: 0,
            initial_snapshot_publications: 0,
            mutation_snapshot_publications: 0,
            refresh_snapshot_publications: 0,
        }
    }
}

/// A count reported in a `u16`, saturating at its maximum.
pub fn saturate_count(count: usize) -> (reported: u16)
    ensures
        reported == cap16(count as int),
{
    if count > 65535 {
        u16::MAX
    } else {
        count as u16
    }
}

impl QueueTelemetry {
    /// Record the current ticket and pending-outcome counts and raise the high-water marks.
    pub fn observe_counts(&mut self, tickets: usize, pending: usize)
        ensures
            *final(self) == observed(*old(self), tickets as int, pending as int),
    {
        self.current_tickets = saturate_count(tickets);
        self.current_pending_outcomes = saturate_count(pending);
        if self.high_water_tickets < self.current_tickets {
            self.high_water_tickets = self.current_tickets;
        }
        if self.high_water_pending_outcomes < self.current_pending_outcomes {
            self.high_water_pending_outcomes = self.current_pending_outcomes;
        }
    }

    /// Saturating increment of one counter.
    pub fn increment(value: &mut u64)
        ensures
            *final(value) == sat_inc(*old(value)),
    {
        *value = value.saturating_add(1);
    }
}

} // verus!
