//! What a call carries in, and what a query hands back.

use crate::leaderboard::Entry;
use crate::state::Config;
use vstd::prelude::*;

verus! {

/// When a call runs.
#[derive(Clone, Copy, Debug, PartialEq, Eq)]
pub struct Env {
    /// The block time, in seconds.
    pub now: u64,
}

/// Who makes a call.
#[derive(Clone, Debug, PartialEq, Eq)]
pub struct MessageInfo {
    /// The caller's identity, as the host has verified it.
    pub sender: String,
}

/// Sets the library up; the caller becomes the owner.
#[derive(Clone, Debug, PartialEq, Eq)]
pub struct InstantiateMsg {}

/// The actions that change state.
#[derive(Clone, Debug, PartialEq, Eq)]
pub enum ExecuteMsg {
    /// Take one measurement for the caller.
    Measure {},
    /// Set every score to zero. Only the owner may.
    Reset {},
}

/// The questions that can be asked.
#[derive(Clone, Debug, PartialEq, Eq)]
pub enum QueryMsg {
    /// Who is the owner?
    Config {},
    /// What is the score of this identity?
    Radioactivity { address: String },
    /// Who scores what, highest first?
    Leaderboard {},
}

/// Reserved for changes of the stored layout.
#[derive(Clone, Debug, PartialEq, Eq)]
pub struct MigrateMsg {}

/// The answer to a [`QueryMsg`], one variant for each question.
#[derive(Clone, Debug, PartialEq, Eq)]
pub enum QueryResponse {
    Config(Config),
    Radioactivity(u64),
    Leaderboard(Vec<Entry>),
}

} // verus!
