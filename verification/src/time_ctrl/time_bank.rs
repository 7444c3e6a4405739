//! The time bank: the extra seconds that each player has left.

use crate::domain::PlayerId;
use crate::time_ctrl::time_rules::TimeRules;
use std::collections::HashMap;
use vstd::prelude::*;

verus! {

/// The time bank of one player, in seconds.
#[derive(Clone, Copy, Debug, PartialEq, Eq, Structural)]
pub struct PlayerTimeBank {
    pub remaining_secs: i32,
}

/// A number of seconds, or zero where it is negative.
pub open spec fn at_least_zero(secs: i32) -> i32 {
    if secs < 0 {
        0
    } else {
        secs
    }
}

/// What a bank with `remaining` seconds hands out when `requested`
/// seconds are asked for: the lesser of the two, and nothing where either
/// is not positive.
pub open spec fn granted(remaining: i32, requested: i32) -> i32 {
    if requested <= 0 || remaining <= 0 {
        0
    } else if requested < remaining {
        requested
    } else {
        remaining
    }
}

/// A bank after `secs` seconds were added, capped at `i32::MAX`. Adding
/// nothing or less changes nothing.
pub open spec fn topped_up(remaining: i32, secs: i32) -> i32 {
    if secs <= 0 {
        remaining
    } else if remaining + secs > i32::MAX {
        i32::MAX
    } else {
        (remaining + secs) as i32
    }
}

impl PlayerTimeBank {
    /// A bank with `initial_secs` seconds, or with none where that is
    /// negative.
    pub fn new(initial_secs: i32) -> (b: PlayerTimeBank)
        ensures
            b.remaining_secs == at_least_zero(initial_secs),
    {
        PlayerTimeBank {
            remaining_secs: if initial_secs < 0 {
                0
            } else {
                initial_secs
            },
        }
    }

    /// Hands out up to `requested` seconds and returns what was handed
    /// out.
    pub fn grant(&mut self, requested: i32) -> (g: i32)
        ensures
            g == granted(old(self).remaining_secs, requested),
            final(self).remaining_secs == old(self).remaining_secs - g,
    {
        if requested <= 0 || self.remaining_secs <= 0 {
            return 0;
        }
        let g = if requested < self.remaining_secs {
            requested
        } else {
            self.remaining_secs
        };
        self.remaining_secs = self.remaining_secs - g;
        g
    }

    /// Adds seconds to the bank.
    pub fn add(&mut self, secs: i32)
        ensures
            final(self).remaining_secs == topped_up(old(self).remaining_secs, secs),
    {
        if secs <= 0 {
            return ;
        }
        self.remaining_secs = if self.remaining_secs > i32::MAX - secs {
            i32::MAX
        } else {
            self.remaining_secs + secs
        };
    }
}

/// The time banks of the players of a table or a tournament.
#[derive(Debug)]
pub struct TimeBank {
    players: HashMap<PlayerId, PlayerTimeBank>,
}

impl View for TimeBank {
    type V = Map<PlayerId, PlayerTimeBank>;

    closed spec fn view(&self) -> Map<PlayerId, PlayerTimeBank> {
        self.players@
    }
}

/// The seconds that a player has left; none for a player without a bank.
pub open spec fn seconds_left(banks: Map<PlayerId, PlayerTimeBank>, player_id: PlayerId) -> i32 {
    if banks.contains_key(player_id) {
        banks[player_id].remaining_secs
    } else {
        0
    }
}

/// The banks after the first `upto` of the listed players were given a
/// bank of `initial` seconds. A player who has a bank keeps it.
pub open spec fn with_banks(
    banks: Map<PlayerId, PlayerTimeBank>,
    players: Seq<PlayerId>,
    initial: i32,
    upto: int,
) -> Map<PlayerId, PlayerTimeBank>
    decreases upto,
{
    if upto <= 0 {
        banks
    } else {
        let before = with_banks(banks, players, initial, upto - 1);
        if before.contains_key(players[upto - 1]) {
            before
        } else {
            before.insert(players[upto - 1], PlayerTimeBank { remaining_secs: initial })
        }
    }
}

impl Clone for TimeBank {
    fn clone(&self) -> (b: TimeBank)
        ensures
            b@ == self@,
    {
        TimeBank { players: self.players.clone() }
    }
}

impl Default for TimeBank {
    fn default() -> (b: TimeBank)
        ensures
            b@ == Map::<PlayerId, PlayerTimeBank>::empty(),
    {
        TimeBank::new()
    }
}

impl TimeBank {
    /// No banks.
    pub fn new() -> (b: TimeBank)
        ensures
            b@ == Map::<PlayerId, PlayerTimeBank>::empty(),
    {
        TimeBank { players: HashMap::new() }
    }

    /// Removes all banks.
    pub fn reset(&mut self)
        ensures
            final(self)@ == Map::<PlayerId, PlayerTimeBank>::empty(),
    {
        self.players.clear();
    }

    /// Gives every listed player who has no bank yet a bank of the size
    /// that the rules set.
    pub fn init_for_players(&mut self, rules: &TimeRules, players: &[PlayerId])
        ensures
            final(self)@ == with_banks(
                old(self)@,
                players@,
                at_least_zero(rules.bank_per_player_secs),
                players@.len() as int,
            ),
    {
        broadcast use vstd::std_specs::hash::group_hash_axioms;

        let initial = if rules.bank_per_player_secs < 0 {
            0
        } else {
            rules.bank_per_player_secs
        };
        let mut i: usize = 0;
        while i < players.len()
            invariant
                i <= players@.len(),
                initial == at_least_zero(rules.bank_per_player_secs),
                self@ == with_banks(old(self)@, players@, initial, i as int),
            decreases players@.len() - i,
        {
            let pid = players[i];
            if !self.players.contains_key(&pid) {
                self.players.insert(pid, PlayerTimeBank::new(initial));
            }
            i += 1;
        }
    }

    /// Adds seconds to a player's bank; a player without a bank gets one.
    /// Adding nothing or less changes nothing.
    pub fn add_time(&mut self, player_id: PlayerId, secs: i32)
        ensures
            secs <= 0 ==> final(self)@ == old(self)@,
            secs > 0 ==> final(self)@ == old(self)@.insert(
                player_id,
                PlayerTimeBank { remaining_secs: topped_up(seconds_left(old(self)@, player_id), secs) },
            ),
    {
        broadcast use vstd::std_specs::hash::group_hash_axioms;

        if secs <= 0 {
            return ;
        }
        let mut bank = match self.players.get(&player_id) {
            Some(b) => *b,
            None => PlayerTimeBank::new(0),
        };
        bank.add(secs);
        self.players.insert(player_id, bank);
    }

    /// Hands out up to `requested` seconds of a player's bank for the
    /// current turn and returns what was handed out: nothing for a player
    /// without a bank.
    pub fn grant_for_turn(&mut self, player_id: PlayerId, requested: i32) -> (g: i32)
        ensures
            g == granted(seconds_left(old(self)@, player_id), requested),
            g >= 0,
            g == 0 ==> final(self)@ == old(self)@,
            g > 0 ==> final(self)@ == old(self)@.insert(
                player_id,
                PlayerTimeBank {
                    remaining_secs: (seconds_left(old(self)@, player_id) - g) as i32,
                },
            ),
            seconds_left(final(self)@, player_id) == seconds_left(old(self)@, player_id) - g,
            forall|other: PlayerId|
                other != player_id ==> seconds_left(final(self)@, other) == seconds_left(
                    old(self)@,
                    other,
                ),
    {
        broadcast use vstd::std_specs::hash::group_hash_axioms;

        if requested <= 0 {
            return 0;
        }
        let mut bank = match self.players.get(&player_id) {
            Some(b) => *b,
            None => {
                return 0;
            },
        };
        let g = bank.grant(requested);
        if g > 0 {
            self.players.insert(player_id, bank);
        }
        g
    }

    /// The seconds that a player has left; none for a player without a
    /// bank.
    pub fn remaining_for(&self, player_id: PlayerId) -> (secs: i32)
        ensures
            secs == seconds_left(self@, player_id),
    {
        broadcast use vstd::std_specs::hash::group_hash_axioms;

        match self.players.get(&player_id) {
            Some(b) => b.remaining_secs,
            None => 0,
        }
    }
}

} // verus!
