//! The records that are kept, and the rule that one measurement applies to a
//! record.

use crate::error::ContractError;
use vstd::prelude::*;

verus! {

/// The length of a day, in seconds.
pub const SECONDS_IN_DAY: u64 = 86400;

/// The singleton configuration: who may reset the counters.
#[derive(Clone, Debug, PartialEq, Eq)]
pub struct Config {
    pub owner: String,
}

/// What is kept for one identity.
#[derive(Clone, Copy, Debug, PartialEq, Eq, Structural)]
pub struct UserState {
    /// Time of the last accepted measurement, in seconds.
    pub last_interaction: u64,
    /// The current score.
    pub radioactivity: u64,
}

/// The record that a first measurement at `now` creates.
pub open spec fn first_record(now: u64) -> UserState {
    UserState { last_interaction: now, radioactivity: 1 }
}

/// Seconds from a record's last accepted measurement to `now`; negative
/// when the clock has gone back.
pub open spec fn elapsed(state: UserState, now: u64) -> int {
    now - state.last_interaction
}

/// What a measurement at `now` makes of the record `previous`, if any.
///
/// With no record, the first one is created. Less than a day after the last
/// accepted measurement the attempt is turned down; so is one that comes
/// with an earlier time than the record holds. After more than two days the
/// streak is broken and the score starts again at one. From one day to two
/// days, both included, the score goes up by one; where it already stands
/// at the largest value, the attempt fails instead and the record stays.
pub open spec fn measured(previous: Option<UserState>, now: u64) -> Result<
    UserState,
    ContractError,
> {
    match previous {
        None => Ok(first_record(now)),
        Some(state) => {
            if elapsed(state, now) < SECONDS_IN_DAY {
                Err(ContractError::Limit)
            } else if elapsed(state, now) > 2 * SECONDS_IN_DAY {
                Ok(first_record(now))
            } else if state.radioactivity == u64::MAX {
                Err(ContractError::Overflow)
            } else {
                Ok(UserState {
                    last_interaction: now,
                    radioactivity: (state.radioactivity + 1) as u64,
                })
            }
        },
    }
}

/// A record after a reset: the score is zero, the time is kept.
pub open spec fn cleared(state: UserState) -> UserState {
    UserState { last_interaction: state.last_interaction, radioactivity: 0 }
}

impl UserState {
    /// Applies one measurement at `now` to the record `previous`, if any.
    pub fn measure(previous: Option<UserState>, now: u64) -> (res: Result<UserState, ContractError>)
        ensures
            res == measured(previous, now),
    {
        match previous {
            None => Ok(UserState { last_interaction: now, radioactivity: 1 }),
            Some(state) => {
                if now < state.last_interaction {
                    return Err(ContractError::Limit);
                }
                let time_diff: u64 = now - state.last_interaction;
                if time_diff < SECONDS_IN_DAY {
                    return Err(ContractError::Limit);
                }
                if time_diff > SECONDS_IN_DAY * 2 {
                    Ok(UserState { last_interaction: now, radioactivity: 1 })
                } else {
                    match state.radioactivity.checked_add(1) {
                        Some(raised) => Ok(
                            UserState { last_interaction: now, radioactivity: raised },
                        ),
                        None => Err(ContractError::Overflow),
                    }
                }
            },
        }
    }

    /// The record with its score set to zero.
    pub fn clear(&self) -> (res: UserState)
        ensures
            res == cleared(*self),
    {
        UserState { last_interaction: self.last_interaction, radioactivity: 0 }
    }
}

} // verus!
