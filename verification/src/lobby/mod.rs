//! Bounded lobby-worker session and allocation state: the authenticated roster and its
//! supervisor allocation transaction.

pub mod routing;
pub mod model;
pub mod state;
pub mod laws;
pub mod formation;
pub mod practice;
pub mod profile;
pub mod handoff;
pub mod queue_messages;
pub mod publication;
