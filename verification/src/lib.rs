//! A counter per identity ("radioactivity"), kept in a host's key-value
//! storage and limited by time: one measurement a day raises it, a missed
//! day sends it back to one, the owner can clear every counter, and a
//! leaderboard ranks the identities.
//!
//! The rules are verified. The storage, the identity validator and the
//! response type are the host's; what is taken for granted about them is
//! written down in [`host`], and nowhere else.

pub mod contract;
pub mod decimal;
pub mod error;
pub mod host;
pub mod keys;
pub mod laws;
pub mod leaderboard;
pub mod msg;
pub mod reset;
pub mod state;
pub mod table;
