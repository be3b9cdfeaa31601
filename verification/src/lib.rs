//! Change tracking for a bug-bounty programme: paging through the remote
//! leaderboard and disclosure stream, diffing them against what was last
//! seen, and deciding how each change notification is delivered.

pub mod breakdown;
pub mod client;
pub mod config;
pub mod models;
pub mod paging_laws;
pub mod poll;
pub mod ranking;
pub mod store;
pub mod text;
pub mod webhook;
