//! Event ticketing ledger whose events can move between a durable base tier
//! and a fast ephemeral tier.

pub mod address;
pub mod types;
pub mod ledger;
pub mod program;
pub mod delegation;
pub mod laws;
