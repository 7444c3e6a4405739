//! The time controller: a shot clock with a time bank for each player. It
//! counts seconds and says when a player has run out of time.

pub mod clock;
pub mod extra_time;
pub mod time_bank;
pub mod time_rules;

pub use clock::{TimeoutState, TurnClock};
pub use extra_time::ExtraTimeGrant;
pub use time_bank::{PlayerTimeBank, TimeBank};
pub use time_rules::{TimeProfile, TimeRules};

use crate::domain::chips::Chips;
use crate::domain::PlayerId;
use crate::engine::actions::PlayerActionKind;
use vstd::prelude::*;

verus! {

/// What the time controller asks the orchestrator to do.
#[derive(Clone, Copy, Debug, PartialEq, Eq, Structural)]
pub enum AutoActionDecision {
    /// Nothing: the turn is within the time.
    NoAction,
    /// The player has run out of time and has to be checked or folded.
    TimeoutCheckOrFold { player_id: PlayerId },
}

/// The time controller of a table or a tournament.
#[derive(Debug)]
pub struct TimeController {
    pub rules: TimeRules,
    pub bank: TimeBank,
    pub clock: TurnClock,
}

/// The action taken for a player who has run out of time: a check where
/// nothing is to call, else a fold.
pub fn auto_action_kind(to_call: Chips) -> (kind: PlayerActionKind)
    ensures
        kind == if to_call.0 == 0 {
            PlayerActionKind::Check
        } else {
            PlayerActionKind::Fold
        },
{
    if to_call.0 == 0 {
        PlayerActionKind::Check
    } else {
        PlayerActionKind::Fold
    }
}

impl TimeController {
    /// A controller with the rules of a profile, no banks, and a clock
    /// that runs for nobody.
    pub fn new(profile: TimeProfile) -> (c: TimeController)
        ensures
            c.rules == TimeRules::of(profile),
            c.bank@ == Map::<PlayerId, PlayerTimeBank>::empty(),
            c.clock.current_player is None,
            c.clock.remaining_action_secs == 0,
            c.clock.remaining_extra_secs == 0,
    {
        TimeController {
            rules: TimeRules::from_profile(profile),
            bank: TimeBank::new(),
            clock: TurnClock::new(),
        }
    }

    /// A controller with rules of one's own.
    pub fn with_rules(rules: TimeRules) -> (c: TimeController)
        ensures
            c.rules == rules,
            c.bank@ == Map::<PlayerId, PlayerTimeBank>::empty(),
            c.clock.current_player is None,
            c.clock.remaining_action_secs == 0,
            c.clock.remaining_extra_secs == 0,
    {
        TimeController { rules, bank: TimeBank::new(), clock: TurnClock::new() }
    }

    /// Gives the listed players fresh banks and drops all others.
    pub fn init_players(&mut self, players: &[PlayerId])
        ensures
            final(self).bank@ == time_bank::with_banks(
                Map::<PlayerId, PlayerTimeBank>::empty(),
                players@,
                time_bank::at_least_zero(old(self).rules.bank_per_player_secs),
                players@.len() as int,
            ),
            final(self).rules == old(self).rules,
            final(self).clock == old(self).clock,
    {
        self.bank.reset();
        self.bank.init_for_players(&self.rules, players);
    }

    /// Starts a player's turn.
    pub fn start_player_turn(&mut self, player_id: PlayerId) -> (g: ExtraTimeGrant)
        ensures
            final(self).clock == (TurnClock {
                current_player: Some(player_id),
                remaining_action_secs: time_bank::at_least_zero(old(self).rules.base_action_secs),
                remaining_extra_secs: 0,
            }),
            final(self).bank@ == old(self).bank@,
            final(self).rules == old(self).rules,
            g.granted_secs == 0,
    {
        self.clock.start_turn(player_id, &self.rules, &mut self.bank)
    }

    /// Stops the clock.
    pub fn clear_current_turn(&mut self)
        ensures
            final(self).clock.current_player is None,
            final(self).clock.remaining_action_secs == 0,
            final(self).clock.remaining_extra_secs == 0,
            final(self).bank == old(self).bank,
            final(self).rules == old(self).rules,
    {
        self.clock.clear();
    }

    /// A player has acted: where it was that player's turn, the clock
    /// stops; else nothing changes.
    pub fn on_manual_action(&mut self, player_id: PlayerId)
        ensures
            old(self).clock.current_player == Some(player_id) ==> final(self).clock == (TurnClock {
                current_player: None,
                remaining_action_secs: 0,
                remaining_extra_secs: 0,
            }),
            old(self).clock.current_player != Some(player_id) ==> final(self).clock == old(self).clock,
            final(self).bank == old(self).bank,
            final(self).rules == old(self).rules,
    {
        match self.clock.current_player {
            Some(current) => {
                if current == player_id {
                    self.clock.clear();
                }
            },
            None => {},
        }
    }

    /// Lets `delta_secs` seconds pass. Asks for a check or a fold exactly
    /// when the player whose turn it is has run out of all time.
    pub fn on_time_passed(&mut self, delta_secs: i32) -> (decision: AutoActionDecision)
        ensures
            final(self).rules == old(self).rules,
            old(self).clock.current_player is None ==> decision == AutoActionDecision::NoAction
                && final(self).clock == old(self).clock && final(self).bank@ == old(self).bank@,
            old(self).clock.current_player matches Some(player_id) ==> {
                let done = old(self).clock.after(
                    player_id,
                    delta_secs,
                    old(self).rules.bank_step_secs,
                    time_bank::seconds_left(old(self).bank@, player_id),
                );
                &&& decision == if done.state == (TimeoutState::TimedOut { player_id }) {
                    AutoActionDecision::TimeoutCheckOrFold { player_id }
                } else {
                    AutoActionDecision::NoAction
                }
                &&& final(self).clock == done.clock
                &&& time_bank::seconds_left(final(self).bank@, player_id) == done.bank
                &&& forall|other: PlayerId|
                    other != player_id ==> time_bank::seconds_left(final(self).bank@, other)
                        == time_bank::seconds_left(old(self).bank@, other)
            },
    {
        match self.clock.elapse_for_current(delta_secs, &self.rules, &mut self.bank) {
            TimeoutState::TimedOut { player_id } => AutoActionDecision::TimeoutCheckOrFold {
                player_id,
            },
            _ => AutoActionDecision::NoAction,
        }
    }

    /// The seconds left in a player's bank.
    pub fn remaining_bank_for(&self, player_id: PlayerId) -> (secs: i32)
        ensures
            secs == time_bank::seconds_left(self.bank@, player_id),
    {
        self.bank.remaining_for(player_id)
    }
}

} // verus!
