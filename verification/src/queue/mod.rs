//! Pure bounded queue authority and privacy-safe aggregate telemetry.

pub mod telemetry;
pub mod memory;
pub mod model;
pub mod state;
pub mod laws;
pub mod consistency;
