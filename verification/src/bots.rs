//! Simple players for trying the engine out. Each of them picks an action
//! from what a player sees when it is the player's turn; none of them looks
//! at the cards.

use crate::domain::chips::Chips;
use crate::domain::hand::{HandSummary, Street};
use crate::domain::player::PlayerAtTable;
use crate::domain::table::{SeatIndex, Table};
use crate::domain::TableId;
use crate::engine::actions::{PlayerAction, PlayerActionKind};
use crate::engine::game_loop::HandEngine;
use crate::engine::table_manager::TableManager;
use vstd::prelude::*;

verus! {

/// What a player looks at before acting.
#[derive(Clone, Copy, Debug, PartialEq, Eq, Structural)]
pub struct Spot {
    pub street: Street,
    pub big_blind: u64,
    /// The bet to match on this street.
    pub current_bet: u64,
    pub min_raise: u64,
    /// The chips in the pot.
    pub pot: u64,
    /// What the player has bet on this street.
    pub player_bet: u64,
    pub stack: u64,
}

/// A scripted hand.
#[derive(Clone, Copy, Debug, PartialEq, Eq, Structural)]
pub enum Scenario {
    /// Everybody checks and calls.
    SimpleCheckCall,
    /// Two players fold before the flop.
    WithFold,
    /// One player raises before the flop.
    WithRaises,
    /// One player raises big before the flop.
    WithAllInSidePots,
}

/// How the players of a table tend to play.
#[derive(Clone, Copy, Debug, PartialEq, Eq, Structural)]
pub enum TableProfile {
    TightPassive,
    LooseAggressive,
    PushOrFold,
    Mixed,
}

/// A simple player.
#[derive(Clone, Copy, Debug, PartialEq, Eq, Structural)]
pub enum Bot {
    /// Checks and calls.
    Plain,
    /// Follows a scenario.
    Scripted(Scenario),
    /// Plays a profile, carefully at some steps and busily at others.
    Profiled(TableProfile),
    /// Plays a profile as in a tournament.
    Tournament(TableProfile),
}

/// What is counted of a finished hand.
#[derive(Clone, Copy, Debug, PartialEq, Eq, Structural)]
pub struct HandStats {
    pub total_pot: u64,
    pub reached_showdown: bool,
}

/// The spot of a player at a table during a hand.
pub open spec fn spot(table: Table, engine: HandEngine, player: PlayerAtTable) -> Spot {
    Spot {
        street: table.street,
        big_blind: table.config.stakes.big_blind.0,
        current_bet: engine.betting.current_bet.0,
        min_raise: engine.betting.min_raise.0,
        pot: engine.pot.total.0,
        player_bet: player.current_bet.0,
        stack: player.stack.0,
    }
}

/// The chips of an amount; an amount beyond the largest number of chips
/// counts as that number.
pub open spec fn chips_of(amount: int) -> Chips {
    if amount > u64::MAX {
        Chips(u64::MAX)
    } else {
        Chips(amount as u64)
    }
}

impl Spot {
    /// What the player has to add to match the bet.
    pub open spec fn owed(self) -> int {
        if self.current_bet > self.player_bet {
            self.current_bet - self.player_bet
        } else {
            0
        }
    }

    /// All the player has: the bet of this street and the stack.
    pub open spec fn everything(self) -> int {
        self.player_bet + self.stack
    }

    /// The big blind, or one chip where the table has none.
    pub open spec fn unit(self) -> int {
        if self.big_blind == 0 {
            1
        } else {
            self.big_blind as int
        }
    }

    /// Whether the street is one on which the bot opens the betting.
    pub open spec fn after_the_flop(self) -> bool {
        self.street == Street::Flop || self.street == Street::Turn || self.street == Street::River
    }

    /// Whether the player can raise by the least amount allowed.
    pub open spec fn can_raise(self) -> bool {
        self.min_raise > 0 && self.current_bet + self.min_raise <= self.everything()
    }

    /// The least raise: the current bet and the least amount on top.
    pub open spec fn least_raise(self) -> PlayerActionKind {
        PlayerActionKind::Raise(chips_of(self.current_bet + self.min_raise))
    }

    /// The plain player: checks and calls, goes all-in where the stack
    /// does not cover the call, and after the flop opens for the larger of
    /// the big blind and the least raise.
    pub open spec fn base_choice(self) -> PlayerActionKind {
        if self.owed() > 0 {
            if self.stack <= self.owed() {
                PlayerActionKind::AllIn
            } else {
                PlayerActionKind::Call
            }
        } else if self.after_the_flop() {
            let opening = if self.min_raise > self.big_blind {
                self.min_raise
            } else {
                self.big_blind
            };
            if self.stack == 0 || opening == 0 {
                PlayerActionKind::Check
            } else {
                PlayerActionKind::Bet(Chips(opening))
            }
        } else {
            PlayerActionKind::Check
        }
    }

    /// The scripted player: the plain player, but for the moves that make
    /// the scenario, all of them at the first steps before the flop.
    pub open spec fn scenario_choice(self, scenario: Scenario, step: u32, seat: SeatIndex)
        -> PlayerActionKind {
        let early = self.street == Street::Preflop;
        match scenario {
            Scenario::SimpleCheckCall => self.base_choice(),
            Scenario::WithFold => if early && ((step == 1 && seat == 1) || (step == 2 && seat
                == 2)) {
                PlayerActionKind::Fold
            } else {
                self.base_choice()
            },
            Scenario::WithRaises => if early && step == 1 && seat == 2 {
                PlayerActionKind::Raise(Chips(300))
            } else {
                self.base_choice()
            },
            Scenario::WithAllInSidePots => if early && step == 1 && seat == 0 {
                PlayerActionKind::Raise(Chips(1_000))
            } else {
                self.base_choice()
            },
        }
    }

    /// Putting everything in, said as the action the engine accepts.
    pub open spec fn shove(self) -> PlayerActionKind {
        all_in_as(self.current_bet, self.min_raise, self.player_bet, self.stack)
    }

    /// The careful player: calls what the stack covers and folds else,
    /// and after the flop opens for one big blind. Never raises.
    pub open spec fn safe_choice(self) -> PlayerActionKind {
        if self.owed() > 0 {
            if self.stack < self.owed() {
                PlayerActionKind::Fold
            } else {
                PlayerActionKind::Call
            }
        } else if self.after_the_flop() && self.current_bet == 0 && self.big_blind > 0
            && self.stack >= self.big_blind {
            PlayerActionKind::Bet(Chips(self.big_blind))
        } else {
            PlayerActionKind::Check
        }
    }

    /// What the busy player does where no shove is due.
    pub open spec fn busy_line(self, pattern: int, profile: TableProfile) -> PlayerActionKind {
        let keen = pattern < aggression(profile);
        if self.owed() > 0 {
            if self.stack < self.owed() {
                PlayerActionKind::Fold
            } else if self.can_raise() && keen {
                self.least_raise()
            } else if gives_up(profile) && pattern == 0 {
                PlayerActionKind::Fold
            } else {
                PlayerActionKind::Call
            }
        } else if self.street == Street::Showdown || !keen {
            PlayerActionKind::Check
        } else if self.current_bet > 0 {
            if self.can_raise() {
                self.least_raise()
            } else {
                PlayerActionKind::Check
            }
        } else if self.street == Street::Preflop {
            if self.stack >= self.unit() {
                PlayerActionKind::Bet(
                    Chips(
                        if 2 * self.unit() <= self.stack {
                            (2 * self.unit()) as u64
                        } else {
                            self.stack
                        },
                    ),
                )
            } else {
                PlayerActionKind::Check
            }
        } else if self.stack >= self.unit() {
            PlayerActionKind::Bet(
                Chips(
                    if self.pot / 2 < self.unit() {
                        self.unit() as u64
                    } else if self.pot / 2 <= self.stack {
                        (self.pot / 2) as u64
                    } else {
                        self.stack
                    },
                ),
            )
        } else {
            PlayerActionKind::Check
        }
    }

    /// The busy player. With no chips it checks or folds. A stack of at
    /// most eight big blinds is shoved as often as the profile likes, a
    /// big stack into a big pot once in ten times; else the player bets
    /// and raises as often as the profile is aggressive.
    pub open spec fn professional_choice(
        self,
        seat: SeatIndex,
        hand_seq: u32,
        step: u32,
        profile: TableProfile,
    ) -> PlayerActionKind {
        let pattern = (hand_seq + step + seat) % 10;
        if self.stack == 0 {
            if self.owed() > 0 {
                PlayerActionKind::Fold
            } else {
                PlayerActionKind::Check
            }
        } else if self.stack <= 8 * self.unit() && pattern < short_stack_shoves(profile) {
            self.shove()
        } else if self.everything() > 20 * self.unit() && self.pot > 10 * self.unit() && pattern
            == 0 && profile != TableProfile::TightPassive {
            self.shove()
        } else {
            self.busy_line(pattern, profile)
        }
    }

    /// The player of a profile: careful at some steps, busy at the
    /// others, the more often careful the tighter the profile.
    pub open spec fn profile_choice(
        self,
        profile: TableProfile,
        hand_seq: u32,
        step: u32,
        seat: SeatIndex,
    ) -> PlayerActionKind {
        if (hand_seq + step + seat) % 8 < careful_steps(profile) {
            self.safe_choice()
        } else {
            self.professional_choice(seat, hand_seq, step, profile)
        }
    }

    /// A raise to the least total allowed, or a call where the player
    /// does not have it.
    pub open spec fn raise_or_call(self) -> PlayerActionKind {
        if self.current_bet + self.min_raise > self.everything() {
            PlayerActionKind::Call
        } else {
            self.least_raise()
        }
    }

    /// A bet of two big blinds, or of the stack where that is less.
    pub open spec fn opening_bet(self) -> PlayerActionKind {
        if self.stack == 0 {
            PlayerActionKind::Check
        } else if 2 * self.unit() <= self.stack {
            PlayerActionKind::Bet(Chips((2 * self.unit()) as u64))
        } else {
            PlayerActionKind::Bet(Chips(self.stack))
        }
    }

    /// The tournament player. With no chips it checks or folds; a stack
    /// of at most eight big blinds is shoved as often as the profile
    /// likes; a bet is raised or called, and folded where the stack does
    /// not cover it; with nothing to call the player opens or raises as
    /// often as the profile does on the street.
    pub open spec fn tournament_choice(
        self,
        profile: TableProfile,
        hand_seq: u32,
        step: u32,
        seat: SeatIndex,
    ) -> PlayerActionKind {
        let pattern = (hand_seq + step + seat) % 10;
        if self.stack == 0 {
            if self.owed() > 0 {
                PlayerActionKind::Fold
            } else {
                PlayerActionKind::Check
            }
        } else if self.stack <= 8 * self.unit() && pattern < short_stack_shoves(profile) {
            self.shove()
        } else if self.owed() > 0 {
            if self.stack < self.owed() {
                PlayerActionKind::Fold
            } else if pattern < raises_a_bet(profile) {
                self.raise_or_call()
            } else {
                PlayerActionKind::Call
            }
        } else if self.street == Street::Preflop {
            if pattern < opens_before_the_flop(profile) {
                self.opening_bet()
            } else {
                PlayerActionKind::Check
            }
        } else if pattern < opens_after_the_flop(profile) {
            if self.current_bet == 0 {
                self.opening_bet()
            } else {
                self.raise_or_call()
            }
        } else {
            PlayerActionKind::Check
        }
    }
}

/// Putting everything in, said as the action the engine accepts: a call
/// where it is no more than the bet or tops it by less than a raise, an
/// opening bet where there is no bet, else a raise.
pub open spec fn all_in_as(current_bet: u64, min_raise: u64, player_bet: u64, stack: u64)
    -> PlayerActionKind {
    let everything = player_bet + stack;
    if everything <= current_bet {
        PlayerActionKind::Call
    } else if current_bet == 0 {
        PlayerActionKind::Bet(chips_of(everything))
    } else if min_raise > 0 && everything - current_bet < min_raise {
        PlayerActionKind::Call
    } else {
        PlayerActionKind::Raise(chips_of(everything))
    }
}

/// In how many steps of ten a busy player of the profile bets or raises.
pub open spec fn aggression(profile: TableProfile) -> int {
    match profile {
        TableProfile::TightPassive => 2,
        TableProfile::PushOrFold => 6,
        TableProfile::Mixed => 4,
        TableProfile::LooseAggressive => 7,
    }
}

/// In how many steps of ten a player of the profile shoves a short stack.
pub open spec fn short_stack_shoves(profile: TableProfile) -> int {
    match profile {
        TableProfile::TightPassive => 0,
        TableProfile::PushOrFold => 7,
        TableProfile::Mixed => 4,
        TableProfile::LooseAggressive => 5,
    }
}

/// Whether a busy player of the profile folds to a bet now and then.
pub open spec fn gives_up(profile: TableProfile) -> bool {
    profile == TableProfile::TightPassive || profile == TableProfile::PushOrFold
}

/// In how many steps of eight a player of the profile plays carefully.
pub open spec fn careful_steps(profile: TableProfile) -> int {
    match profile {
        TableProfile::TightPassive => 4,
        TableProfile::PushOrFold => 3,
        TableProfile::Mixed => 2,
        TableProfile::LooseAggressive => 1,
    }
}

/// In how many steps of ten a tournament player of the profile raises a
/// bet.
pub open spec fn raises_a_bet(profile: TableProfile) -> int {
    match profile {
        TableProfile::TightPassive => 2,
        TableProfile::PushOrFold => 3,
        TableProfile::Mixed => 4,
        TableProfile::LooseAggressive => 6,
    }
}

/// In how many steps of ten a tournament player of the profile opens
/// before the flop.
pub open spec fn opens_before_the_flop(profile: TableProfile) -> int {
    match profile {
        TableProfile::TightPassive => 3,
        TableProfile::PushOrFold => 4,
        TableProfile::Mixed => 5,
        TableProfile::LooseAggressive => 7,
    }
}

/// In how many steps of ten a tournament player of the profile opens or
/// raises after the flop.
pub open spec fn opens_after_the_flop(profile: TableProfile) -> int {
    match profile {
        TableProfile::TightPassive => 4,
        TableProfile::PushOrFold => 3,
        TableProfile::Mixed => 2,
        TableProfile::LooseAggressive => 1,
    }
}

/// The profile of the `i`-th table of a simulation: the four profiles in
/// turn.
pub open spec fn profile_at(i: int) -> TableProfile {
    if i % 4 == 0 {
        TableProfile::TightPassive
    } else if i % 4 == 1 {
        TableProfile::LooseAggressive
    } else if i % 4 == 2 {
        TableProfile::PushOrFold
    } else {
        TableProfile::Mixed
    }
}

/// The chips of an amount, capped at the largest number of chips.
fn chips_from(amount: u128) -> (chips: Chips)
    ensures
        chips == chips_of(amount as int),
{
    if amount > u64::MAX as u128 {
        Chips(u64::MAX)
    } else {
        Chips(amount as u64)
    }
}

/// How often in ten steps a busy player of the profile bets or raises.
fn aggression_of(profile: TableProfile) -> (n: u64)
    ensures
        n == aggression(profile),
{
    match profile {
        TableProfile::TightPassive => 2,
        TableProfile::PushOrFold => 6,
        TableProfile::Mixed => 4,
        TableProfile::LooseAggressive => 7,
    }
}

/// How often in ten steps a player of the profile shoves a short stack.
fn short_stack_shoves_of(profile: TableProfile) -> (n: u64)
    ensures
        n == short_stack_shoves(profile),
{
    match profile {
        TableProfile::TightPassive => 0,
        TableProfile::PushOrFold => 7,
        TableProfile::Mixed => 4,
        TableProfile::LooseAggressive => 5,
    }
}

/// The step of the pattern that the players follow: it changes with the
/// hand, the step and the seat, and comes round after `period` steps.
fn pattern_of(hand_seq: u32, step: u32, seat: SeatIndex, period: u64) -> (pattern: u64)
    requires
        period > 0,
    ensures
        pattern == (hand_seq + step + seat) % (period as int),
{
    let sum: u64 = hand_seq as u64 + step as u64 + seat as u64;
    sum % period
}

impl Spot {
    /// Looks at the table as the player does.
    pub fn of(table: &Table, engine: &HandEngine, player: &PlayerAtTable) -> (s: Spot)
        ensures
            s == spot(*table, *engine, *player),
    {
        Spot {
            street: table.street,
            big_blind: table.config.stakes.big_blind.0,
            current_bet: engine.betting.current_bet.0,
            min_raise: engine.betting.min_raise.0,
            pot: engine.pot.total.0,
            player_bet: player.current_bet.0,
            stack: player.stack.0,
        }
    }

    /// What the player has to add to match the bet.
    pub fn to_call(&self) -> (amount: u64)
        ensures
            amount == self.owed(),
    {
        if self.current_bet > self.player_bet {
            self.current_bet - self.player_bet
        } else {
            0
        }
    }

    fn all_chips(&self) -> (amount: u128)
        ensures
            amount == self.everything(),
    {
        self.player_bet as u128 + self.stack as u128
    }

    fn one_blind(&self) -> (amount: u64)
        ensures
            amount == self.unit(),
            amount > 0,
    {
        if self.big_blind == 0 {
            1
        } else {
            self.big_blind
        }
    }

    fn is_after_the_flop(&self) -> (b: bool)
        ensures
            b == self.after_the_flop(),
    {
        match self.street {
            Street::Flop | Street::Turn | Street::River => true,
            _ => false,
        }
    }

    fn is_before_the_flop(&self) -> (b: bool)
        ensures
            b == (self.street == Street::Preflop),
    {
        match self.street {
            Street::Preflop => true,
            _ => false,
        }
    }

    fn is_at_showdown(&self) -> (b: bool)
        ensures
            b == (self.street == Street::Showdown),
    {
        match self.street {
            Street::Showdown => true,
            _ => false,
        }
    }

    fn raise_target(&self) -> (target: u128)
        ensures
            target == self.current_bet + self.min_raise,
    {
        self.current_bet as u128 + self.min_raise as u128
    }

    fn has_a_raise(&self) -> (b: bool)
        ensures
            b == self.can_raise(),
    {
        self.min_raise > 0 && self.raise_target() <= self.all_chips()
    }

    /// The action of the plain player.
    pub fn base(&self) -> (kind: PlayerActionKind)
        ensures
            kind == self.base_choice(),
    {
        let to_call = self.to_call();
        if to_call > 0 {
            if self.stack <= to_call {
                PlayerActionKind::AllIn
            } else {
                PlayerActionKind::Call
            }
        } else if self.is_after_the_flop() {
            let opening = if self.min_raise > self.big_blind {
                self.min_raise
            } else {
                self.big_blind
            };
            if self.stack == 0 || opening == 0 {
                PlayerActionKind::Check
            } else {
                PlayerActionKind::Bet(Chips(opening))
            }
        } else {
            PlayerActionKind::Check
        }
    }

    /// The action of the scripted player.
    pub fn scripted(&self, scenario: Scenario, step: u32, seat: SeatIndex) -> (kind:
        PlayerActionKind)
        ensures
            kind == self.scenario_choice(scenario, step, seat),
    {
        let early = self.is_before_the_flop();
        match scenario {
            Scenario::SimpleCheckCall => self.base(),
            Scenario::WithFold => {
                if early && ((step == 1 && seat == 1) || (step == 2 && seat == 2)) {
                    PlayerActionKind::Fold
                } else {
                    self.base()
                }
            },
            Scenario::WithRaises => {
                if early && step == 1 && seat == 2 {
                    PlayerActionKind::Raise(Chips(300))
                } else {
                    self.base()
                }
            },
            Scenario::WithAllInSidePots => {
                if early && step == 1 && seat == 0 {
                    PlayerActionKind::Raise(Chips(1_000))
                } else {
                    self.base()
                }
            },
        }
    }

    /// Everything goes in, said as the action that the engine accepts.
    pub fn all_in(&self) -> (kind: PlayerActionKind)
        ensures
            kind == self.shove(),
    {
        let total = self.all_chips();
        if total <= self.current_bet as u128 {
            PlayerActionKind::Call
        } else if self.current_bet == 0 {
            PlayerActionKind::Bet(chips_from(total))
        } else if self.min_raise > 0 && total - (self.current_bet as u128)
            < self.min_raise as u128 {
            PlayerActionKind::Call
        } else {
            PlayerActionKind::Raise(chips_from(total))
        }
    }

    /// The action of the careful player.
    pub fn safe(&self) -> (kind: PlayerActionKind)
        ensures
            kind == self.safe_choice(),
    {
        let to_call = self.to_call();
        if to_call > 0 {
            if self.stack < to_call {
                PlayerActionKind::Fold
            } else {
                PlayerActionKind::Call
            }
        } else if self.is_after_the_flop() && self.current_bet == 0 && self.big_blind > 0
            && self.stack >= self.big_blind {
            PlayerActionKind::Bet(Chips(self.big_blind))
        } else {
            PlayerActionKind::Check
        }
    }

    /// Two big blinds, or the stack where that is less.
    fn two_blinds_or_stack(&self) -> (amount: u64)
        ensures
            amount == if 2 * self.unit() <= self.stack {
                2 * self.unit()
            } else {
                self.stack as int
            },
    {
        let double: u128 = 2 * (self.one_blind() as u128);
        if double <= self.stack as u128 {
            double as u64
        } else {
            self.stack
        }
    }

    fn busy(&self, pattern: u64, profile: TableProfile) -> (kind: PlayerActionKind)
        ensures
            kind == self.busy_line(pattern as int, profile),
    {
        let keen = pattern < aggression_of(profile);
        let to_call = self.to_call();
        let unit = self.one_blind();
        if to_call > 0 {
            if self.stack < to_call {
                PlayerActionKind::Fold
            } else if self.has_a_raise() && keen {
                PlayerActionKind::Raise(chips_from(self.raise_target()))
            } else if pattern == 0 && match profile {
                TableProfile::TightPassive | TableProfile::PushOrFold => true,
                _ => false,
            } {
                PlayerActionKind::Fold
            } else {
                PlayerActionKind::Call
            }
        } else if self.is_at_showdown() || !keen {
            PlayerActionKind::Check
        } else if self.current_bet > 0 {
            if self.has_a_raise() {
                PlayerActionKind::Raise(chips_from(self.raise_target()))
            } else {
                PlayerActionKind::Check
            }
        } else if self.is_before_the_flop() {
            if self.stack >= unit {
                PlayerActionKind::Bet(Chips(self.two_blinds_or_stack()))
            } else {
                PlayerActionKind::Check
            }
        } else if self.stack >= unit {
            let half = self.pot / 2;
            PlayerActionKind::Bet(
                Chips(
                    if half < unit {
                        unit
                    } else if half <= self.stack {
                        half
                    } else {
                        self.stack
                    },
                ),
            )
        } else {
            PlayerActionKind::Check
        }
    }

    /// Whether the stack is at most eight big blinds.
    fn is_short(&self) -> (b: bool)
        ensures
            b == (self.stack <= 8 * self.unit()),
    {
        self.stack as u128 <= 8 * (self.one_blind() as u128)
    }

    /// The action of the busy player.
    pub fn professional(&self, seat: SeatIndex, hand_seq: u32, step: u32, profile: TableProfile)
        -> (kind: PlayerActionKind)
        ensures
            kind == self.professional_choice(seat, hand_seq, step, profile),
    {
        let pattern = pattern_of(hand_seq, step, seat, 10);
        let unit = self.one_blind();
        if self.stack == 0 {
            if self.to_call() > 0 {
                PlayerActionKind::Fold
            } else {
                PlayerActionKind::Check
            }
        } else if self.is_short() && pattern < short_stack_shoves_of(profile) {
            self.all_in()
        } else if self.all_chips() > 20 * (unit as u128) && self.pot as u128 > 10 * (unit as u128)
            && pattern == 0 && match profile {
            TableProfile::TightPassive => false,
            _ => true,
        } {
            self.all_in()
        } else {
            self.busy(pattern, profile)
        }
    }

    /// The action of the player of a profile.
    pub fn by_profile(&self, profile: TableProfile, hand_seq: u32, step: u32, seat: SeatIndex)
        -> (kind: PlayerActionKind)
        ensures
            kind == self.profile_choice(profile, hand_seq, step, seat),
    {
        let careful: u64 = match profile {
            TableProfile::TightPassive => 4,
            TableProfile::PushOrFold => 3,
            TableProfile::Mixed => 2,
            TableProfile::LooseAggressive => 1,
        };
        if pattern_of(hand_seq, step, seat, 8) < careful {
            self.safe()
        } else {
            self.professional(seat, hand_seq, step, profile)
        }
    }

    fn raise_else_call(&self) -> (kind: PlayerActionKind)
        ensures
            kind == self.raise_or_call(),
    {
        if self.raise_target() > self.all_chips() {
            PlayerActionKind::Call
        } else {
            PlayerActionKind::Raise(chips_from(self.raise_target()))
        }
    }

    fn opening(&self) -> (kind: PlayerActionKind)
        ensures
            kind == self.opening_bet(),
    {
        if self.stack == 0 {
            PlayerActionKind::Check
        } else {
            PlayerActionKind::Bet(Chips(self.two_blinds_or_stack()))
        }
    }

    /// The action of the tournament player.
    pub fn in_tournament(&self, profile: TableProfile, hand_seq: u32, step: u32, seat: SeatIndex)
        -> (kind: PlayerActionKind)
        ensures
            kind == self.tournament_choice(profile, hand_seq, step, seat),
    {
        let pattern = pattern_of(hand_seq, step, seat, 10);
        let to_call = self.to_call();
        if self.stack == 0 {
            if to_call > 0 {
                PlayerActionKind::Fold
            } else {
                PlayerActionKind::Check
            }
        } else if self.is_short() && pattern < short_stack_shoves_of(profile) {
            self.all_in()
        } else if to_call > 0 {
            let raises: u64 = match profile {
                TableProfile::TightPassive => 2,
                TableProfile::PushOrFold => 3,
                TableProfile::Mixed => 4,
                TableProfile::LooseAggressive => 6,
            };
            if self.stack < to_call {
                PlayerActionKind::Fold
            } else if pattern < raises {
                self.raise_else_call()
            } else {
                PlayerActionKind::Call
            }
        } else if self.is_before_the_flop() {
            let opens: u64 = match profile {
                TableProfile::TightPassive => 3,
                TableProfile::PushOrFold => 4,
                TableProfile::Mixed => 5,
                TableProfile::LooseAggressive => 7,
            };
            if pattern < opens {
                self.opening()
            } else {
                PlayerActionKind::Check
            }
        } else {
            let opens: u64 = match profile {
                TableProfile::TightPassive => 4,
                TableProfile::PushOrFold => 3,
                TableProfile::Mixed => 2,
                TableProfile::LooseAggressive => 1,
            };
            if pattern < opens {
                if self.current_bet == 0 {
                    self.opening()
                } else {
                    self.raise_else_call()
                }
            } else {
                PlayerActionKind::Check
            }
        }
    }
}

/// What a player has to add to match the bet of the street.
pub fn to_call_amount(engine: &HandEngine, player: &PlayerAtTable) -> (amount: u64)
    ensures
        amount == if engine.betting.current_bet.0 > player.current_bet.0 {
            engine.betting.current_bet.0 - player.current_bet.0
        } else {
            0
        },
{
    if engine.betting.current_bet.0 > player.current_bet.0 {
        engine.betting.current_bet.0 - player.current_bet.0
    } else {
        0
    }
}

/// The action of the plain player at a seat.
pub fn pick_base_action(
    table: &Table,
    engine: &HandEngine,
    _seat: SeatIndex,
    player: &PlayerAtTable,
) -> (kind: PlayerActionKind)
    ensures
        kind == spot(*table, *engine, *player).base_choice(),
{
    Spot::of(table, engine, player).base()
}

/// The action of the scripted player at a seat, at a step of the hand.
pub fn pick_scenario_action(
    scenario: Scenario,
    step: u32,
    table: &Table,
    engine: &HandEngine,
    seat: SeatIndex,
    player: &PlayerAtTable,
) -> (kind: PlayerActionKind)
    ensures
        kind == spot(*table, *engine, *player).scenario_choice(scenario, step, seat),
{
    Spot::of(table, engine, player).scripted(scenario, step, seat)
}

/// Everything a player has goes in, said as the action that the engine
/// accepts.
pub fn make_all_in_action(engine: &HandEngine, player: &PlayerAtTable) -> (kind: PlayerActionKind)
    ensures
        kind == all_in_as(
            engine.betting.current_bet.0,
            engine.betting.min_raise.0,
            player.current_bet.0,
            player.stack.0,
        ),
{
    let s = Spot {
        street: Street::Preflop,
        big_blind: 0,
        current_bet: engine.betting.current_bet.0,
        min_raise: engine.betting.min_raise.0,
        pot: engine.pot.total.0,
        player_bet: player.current_bet.0,
        stack: player.stack.0,
    };
    s.all_in()
}

/// The action of the careful player at a seat.
pub fn pick_safe_action(
    table: &Table,
    engine: &HandEngine,
    _seat: SeatIndex,
    player: &PlayerAtTable,
) -> (kind: PlayerActionKind)
    ensures
        kind == spot(*table, *engine, *player).safe_choice(),
{
    Spot::of(table, engine, player).safe()
}

/// The action of the busy player at a seat, at a step of a hand.
pub fn pick_professional_action(
    table: &Table,
    engine: &HandEngine,
    seat: SeatIndex,
    player: &PlayerAtTable,
    hand_seq: u32,
    step: u32,
    profile: TableProfile,
) -> (kind: PlayerActionKind)
    ensures
        kind == spot(*table, *engine, *player).professional_choice(seat, hand_seq, step, profile),
{
    Spot::of(table, engine, player).professional(seat, hand_seq, step, profile)
}

/// The action of the player of a profile at a seat, at a step of a hand.
pub fn pick_action_for_profile(
    profile: TableProfile,
    hand_seq: u32,
    step: u32,
    table: &Table,
    engine: &HandEngine,
    seat: SeatIndex,
    player: &PlayerAtTable,
) -> (kind: PlayerActionKind)
    ensures
        kind == spot(*table, *engine, *player).profile_choice(profile, hand_seq, step, seat),
{
    Spot::of(table, engine, player).by_profile(profile, hand_seq, step, seat)
}

/// The action of the tournament player at a seat, at a step of a hand.
pub fn pick_action(
    profile: TableProfile,
    hand_seq: u32,
    step: u32,
    table: &Table,
    engine: &HandEngine,
    seat: SeatIndex,
    player: &PlayerAtTable,
) -> (kind: PlayerActionKind)
    ensures
        kind == spot(*table, *engine, *player).tournament_choice(profile, hand_seq, step, seat),
{
    Spot::of(table, engine, player).in_tournament(profile, hand_seq, step, seat)
}

/// The profile of the `i`-th table of a simulation.
pub fn profile_for_table(i: usize) -> (profile: TableProfile)
    ensures
        profile == profile_at(i as int),
{
    let turn = i % 4;
    if turn == 0 {
        TableProfile::TightPassive
    } else if turn == 1 {
        TableProfile::LooseAggressive
    } else if turn == 2 {
        TableProfile::PushOrFold
    } else {
        TableProfile::Mixed
    }
}

/// The seconds a simulated player thinks at a step of a hand: one to
/// five.
pub fn think_secs(hand_seq: u32, step: u32, seat: SeatIndex) -> (secs: i32)
    ensures
        secs == (hand_seq + step + seat) % 5 + 1,
{
    let turn = pattern_of(hand_seq, step, seat, 5);
    turn as i32 + 1
}

impl Bot {
    /// The action of the player in a spot, at a step of a hand.
    pub open spec fn choice(self, s: Spot, hand_seq: u32, step: u32, seat: SeatIndex)
        -> PlayerActionKind {
        match self {
            Bot::Plain => s.base_choice(),
            Bot::Scripted(scenario) => s.scenario_choice(scenario, step, seat),
            Bot::Profiled(profile) => s.profile_choice(profile, hand_seq, step, seat),
            Bot::Tournament(profile) => s.tournament_choice(profile, hand_seq, step, seat),
        }
    }

    /// Picks the action of the player in a spot, at a step of a hand.
    pub fn pick(&self, s: &Spot, hand_seq: u32, step: u32, seat: SeatIndex) -> (kind:
        PlayerActionKind)
        ensures
            kind == self.choice(*s, hand_seq, step, seat),
    {
        match self {
            Bot::Plain => s.base(),
            Bot::Scripted(scenario) => s.scripted(*scenario, step, seat),
            Bot::Profiled(profile) => s.by_profile(*profile, hand_seq, step, seat),
            Bot::Tournament(profile) => s.in_tournament(*profile, hand_seq, step, seat),
        }
    }
}

/// The action that a simple player takes for the seat whose turn it is,
/// or `None` where it is nobody's turn or the seat is empty.
pub open spec fn turn_of(table: Table, engine: HandEngine, bot: Bot, hand_seq: u32, step: u32)
    -> Option<PlayerAction> {
    match engine.current_actor {
        Some(seat) if seat < table.seats@.len() => match table.seats@[seat as int] {
            Some(player) => Some(
                PlayerAction {
                    player_id: player.player_id,
                    seat,
                    kind: bot.choice(spot(table, engine, player), hand_seq, step, seat),
                },
            ),
            None => None,
        },
        _ => None,
    }
}

/// The next action at a table where simple players play: the action of
/// the player whose turn it is. `None` where there is no such table, no
/// hand at it, or nobody to act.
pub fn next_action(manager: &TableManager, table_id: TableId, bot: Bot, hand_seq: u32, step: u32)
    -> (action: Option<PlayerAction>)
    ensures
        action == match manager.managed(table_id) {
            Some(m) => match m.engine {
                Some(engine) => turn_of(m.table, engine, bot, hand_seq, step),
                None => None,
            },
            None => None,
        },
{
    let table = match manager.table(table_id) {
        Some(table) => table,
        None => {
            return None;
        },
    };
    let engine = match manager.hand_engine(table_id) {
        Some(engine) => engine,
        None => {
            return None;
        },
    };
    let seat = match engine.current_actor {
        Some(seat) => seat,
        None => {
            return None;
        },
    };
    if seat as usize >= table.seats.len() {
        return None;
    }
    match &table.seats[seat as usize] {
        Some(player) => {
            let kind = bot.pick(&Spot::of(table, engine, player), hand_seq, step, seat);
            Some(PlayerAction { player_id: player.player_id, seat, kind })
        },
        None => None,
    }
}

impl HandStats {
    /// What is counted of a hand with the given summary.
    pub fn of(summary: &HandSummary) -> (stats: HandStats)
        ensures
            stats.total_pot == summary.total_pot.0,
            stats.reached_showdown == (summary.street_reached == Street::Showdown),
    {
        HandStats {
            total_pot: summary.total_pot.0,
            reached_showdown: match summary.street_reached {
                Street::Showdown => true,
                _ => false,
            },
        }
    }
}

} // verus!
