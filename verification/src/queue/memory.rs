//! Per-session command memory: replay of the last request, the outcome awaiting
//! acknowledgement, and the command token bucket.

use vstd::prelude::*;
use crate::ids::{QueueRequestId, QueueTicketId};
use crate::wire::{QueueCommand, QueueCommandOutcome};

verus! {

/// Commands a session may issue before it has to wait for a refill.
pub const COMMAND_TOKEN_CAPACITY: u8 = 4;
/// One token returns every this many milliseconds.
pub const COMMAND_REFILL_MILLIS: u64 = 1_000;
/// An identical retry of a pending request is answered again only after this many milliseconds.
pub const IDENTICAL_RETRY_MILLIS: u64 = 10_000;
/// This many early identical retries of a pending request disconnect the session.
pub const EARLY_IDENTICAL_RETRY_LIMIT: u8 = 4;

/// Saturating addition of two `u64` values.
pub open spec fn sat_add(a: u64, b: u64) -> u64 {
    if a + b > u64::MAX {
        u64::MAX
    } else {
        (a + b) as u64
    }
}

/// One remembered request and its outcome.
#[derive(Clone, Debug, PartialEq, Eq)]
pub struct LastCommand {
    pub request_id: QueueRequestId,
    pub command: QueueCommand,
    pub outcome: QueueCommandOutcome,
}

impl LastCommand {
    /// A copy of the remembered request.
    pub fn duplicate(&self) -> (copy: Self)
        ensures
            copy == *self,
    {
        LastCommand {
            request_id: self.request_id,
            command: self.command.duplicate(),
            outcome: self.outcome.duplicate(),
        }
    }
}

/// Command memory of one lobby session.
#[derive(Clone, Debug, PartialEq, Eq)]
pub struct QueueCommandMemory {
    pub last: Option<LastCommand>,
    pub pending_outcome: Option<LastCommand>,
    pub last_acknowledged_outcome_request_id: Option<QueueRequestId>,
    pub command_tokens: u8,
    pub command_token_refill_at: u64,
    pub rate_limit_notice_until: Option<u64>,
    pub identical_retry_not_before: Option<u64>,
    pub early_identical_retry_count: u8,
    pub active_ticket_id: Option<QueueTicketId>,
    pub last_cancelled: Option<(QueueTicketId, QueueCommandOutcome)>,
}

/// The memory of a session first seen at `now_millis`: a full token bucket and nothing
/// remembered.
pub open spec fn fresh_memory(now_millis: u64) -> QueueCommandMemory {
    QueueCommandMemory {
        last: None,
        pending_outcome: None,
        last_acknowledged_outcome_request_id: None,
        command_tokens: COMMAND_TOKEN_CAPACITY,
        command_token_refill_at: now_millis,
        rate_limit_notice_until: None,
        identical_retry_not_before: None,
        early_identical_retry_count: 0,
        active_ticket_id: None,
        last_cancelled: None,
    }
}

/// The memory after refilling its token bucket at `now_millis`. Nothing changes before the
/// refill instant. Otherwise every whole elapsed refill period returns one token, up to the
/// capacity, and the refill instant advances by those whole periods; a rate-limit notice whose
/// deadline has passed is cleared.
pub open spec fn refilled(m: QueueCommandMemory, now_millis: u64) -> QueueCommandMemory {
    if now_millis < m.command_token_refill_at {
        m
    } else {
        let tokens = (now_millis - m.command_token_refill_at) / (COMMAND_REFILL_MILLIS as int);
        let topped = if tokens > 0 {
            QueueCommandMemory {
                command_tokens: if m.command_tokens + tokens >= COMMAND_TOKEN_CAPACITY {
                    COMMAND_TOKEN_CAPACITY
                } else {
                    (m.command_tokens + tokens) as u8
                },
                command_token_refill_at: (m.command_token_refill_at + tokens * (COMMAND_REFILL_MILLIS as int)) as u64,
                ..m
            }
        } else {
            m
        };
        match topped.rate_limit_notice_until {
            Some(deadline) if now_millis >= deadline => QueueCommandMemory {
                rate_limit_notice_until: None,
                ..topped
            },
            _ => topped,
        }
    }
}

impl QueueCommandMemory {
    /// The memory of a session first seen at `now_millis`.
    pub fn new(now_millis: u64) -> (memory: Self)
        ensures
            memory == fresh_memory(now_millis),
    {
        QueueCommandMemory {
            last: None,
            pending_outcome: None,
            last_acknowledged_outcome_request_id: None,
            command_tokens: COMMAND_TOKEN_CAPACITY,
            command_token_refill_at: now_millis,
            rate_limit_notice_until: None,
            identical_retry_not_before: None,
            early_identical_retry_count: 0,
            active_ticket_id: None,
            last_cancelled: None,
        }
    }

    /// Refill the token bucket at `now_millis`.
    pub fn refill(&mut self, now_millis: u64)
        ensures
            *final(self) == refilled(*old(self), now_millis),
    {
        if now_millis < self.command_token_refill_at {
            return;
        }
        let elapsed = now_millis - self.command_token_refill_at;
        let tokens = elapsed / COMMAND_REFILL_MILLIS;
        if tokens > 0 {
            let added: u8 = if tokens > 255 {
                255
            } else {
                tokens as u8
            };
            let sum = self.command_tokens.saturating_add(added);
            self.command_tokens = if sum < COMMAND_TOKEN_CAPACITY {
                sum
            } else {
                COMMAND_TOKEN_CAPACITY
            };
            assert(tokens * 1000 <= elapsed) by (nonlinear_arith)
                requires
                    tokens == elapsed / 1000,
            ;
            self.command_token_refill_at = self.command_token_refill_at + tokens * COMMAND_REFILL_MILLIS;
        }
        if let Some(deadline) = self.rate_limit_notice_until {
            if now_millis >= deadline {
                self.rate_limit_notice_until = None;
            }
        }
    }
}

/// The token bucket never holds more than its capacity, and refilling never moves its refill
/// instant back nor past the refill time.
pub proof fn law_refill_stays_within_capacity(m: QueueCommandMemory, now_millis: u64)
    requires
        m.command_tokens <= COMMAND_TOKEN_CAPACITY,
    ensures
        refilled(m, now_millis).command_tokens <= COMMAND_TOKEN_CAPACITY,
        refilled(m, now_millis).command_tokens >= m.command_tokens,
        refilled(m, now_millis).command_token_refill_at >= m.command_token_refill_at,
        m.command_token_refill_at <= now_millis ==> refilled(m, now_millis).command_token_refill_at <= now_millis,
{
    if now_millis >= m.command_token_refill_at {
        let elapsed = now_millis - m.command_token_refill_at;
        let tokens = elapsed / (COMMAND_REFILL_MILLIS as int);
        assert(tokens * 1000 <= elapsed) by (nonlinear_arith)
            requires
                tokens == elapsed / 1000,
                elapsed >= 0,
        ;
        assert(tokens >= 0) by (nonlinear_arith)
            requires
                tokens == elapsed / 1000,
                elapsed >= 0,
        ;
    }
}

} // verus!
