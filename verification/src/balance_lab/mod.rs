//! Operator-facing projections of the balance lab that do not depend on tuning values, and the
//! decisions of its apply and restore transactions and of the version ladder of persisted tuning.

pub mod editor;
pub mod http;
pub mod migration;
pub mod request_text;
pub mod roster;
pub mod transaction;
