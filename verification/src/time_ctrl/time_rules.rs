//! The rules of the shot clock and the time bank.

use vstd::prelude::*;

verus! {

/// A ready-made set of time rules.
#[derive(Clone, Copy, Debug, PartialEq, Eq, Structural)]
pub enum TimeProfile {
    /// The usual tournament or cash game.
    Standard,
    /// A fast game.
    Turbo,
    /// A game with much time to think.
    Deep,
}

/// How much time a player has.
#[derive(Clone, Copy, Debug, PartialEq, Eq, Structural)]
pub struct TimeRules {
    /// The seconds for one decision.
    pub base_action_secs: i32,
    /// The seconds in each player's time bank.
    pub bank_per_player_secs: i32,
    /// The seconds that the bank hands out at a time.
    pub bank_step_secs: i32,
}

impl TimeRules {
    /// The rules of a profile.
    pub open spec fn of(profile: TimeProfile) -> TimeRules {
        match profile {
            TimeProfile::Standard => TimeRules {
                base_action_secs: 20,
                bank_per_player_secs: 60,
                bank_step_secs: 20,
            },
            TimeProfile::Turbo => TimeRules {
                base_action_secs: 10,
                bank_per_player_secs: 30,
                bank_step_secs: 10,
            },
            TimeProfile::Deep => TimeRules {
                base_action_secs: 30,
                bank_per_player_secs: 120,
                bank_step_secs: 30,
            },
        }
    }

    pub fn new(base_action_secs: i32, bank_per_player_secs: i32, bank_step_secs: i32) -> (r:
        TimeRules)
        ensures
            r == (TimeRules { base_action_secs, bank_per_player_secs, bank_step_secs }),
    {
        TimeRules { base_action_secs, bank_per_player_secs, bank_step_secs }
    }

    /// 20 seconds a decision, a bank of 60 seconds in steps of 20.
    pub fn standard() -> (r: TimeRules)
        ensures
            r == TimeRules::of(TimeProfile::Standard),
    {
        TimeRules { base_action_secs: 20, bank_per_player_secs: 60, bank_step_secs: 20 }
    }

    /// 10 seconds a decision, a bank of 30 seconds in steps of 10.
    pub fn turbo() -> (r: TimeRules)
        ensures
            r == TimeRules::of(TimeProfile::Turbo),
    {
        TimeRules { base_action_secs: 10, bank_per_player_secs: 30, bank_step_secs: 10 }
    }

    /// 30 seconds a decision, a bank of 120 seconds in steps of 30.
    pub fn deep() -> (r: TimeRules)
        ensures
            r == TimeRules::of(TimeProfile::Deep),
    {
        TimeRules { base_action_secs: 30, bank_per_player_secs: 120, bank_step_secs: 30 }
    }

    /// The rules of a profile.
    pub fn from_profile(profile: TimeProfile) -> (r: TimeRules)
        ensures
            r == TimeRules::of(profile),
    {
        match profile {
            TimeProfile::Standard => TimeRules::standard(),
            TimeProfile::Turbo => TimeRules::turbo(),
            TimeProfile::Deep => TimeRules::deep(),
        }
    }
}

} // verus!
