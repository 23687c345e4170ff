//! Bounded lobby and queue authority of the brawler server.

pub mod ids;
pub mod wire;
pub mod decimal;
pub mod catalog;
pub mod operator_catalog;
pub mod session;
pub mod queue;
pub mod balance_lab;
pub mod lobby;
pub mod admission;
