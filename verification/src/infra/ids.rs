//! Identifiers from counters.

use crate::domain::{HandId, PlayerId, TableId, TournamentId};
use vstd::prelude::*;

verus! {

/// Hands out identifiers for tables, players, tournaments and hands:
/// 1, 2, 3, ... for each kind.
#[derive(Debug)]
pub struct IdGenerator {
    table_counter: u64,
    player_counter: u64,
    tournament_counter: u64,
    hand_counter: u64,
}

/// The counter after one more identifier; it starts over after `u64::MAX`.
pub open spec fn counted_on(counter: u64) -> u64 {
    if counter == u64::MAX {
        0
    } else {
        (counter + 1) as u64
    }
}

impl IdGenerator {
    /// The identifier that the next table gets.
    pub closed spec fn upcoming_table(&self) -> u64 {
        self.table_counter
    }

    /// The identifier that the next player gets.
    pub closed spec fn upcoming_player(&self) -> u64 {
        self.player_counter
    }

    /// The identifier that the next tournament gets.
    pub closed spec fn upcoming_tournament(&self) -> u64 {
        self.tournament_counter
    }

    /// The identifier that the next hand gets.
    pub closed spec fn upcoming_hand(&self) -> u64 {
        self.hand_counter
    }

    /// A generator whose first identifier of each kind is 1.
    pub fn new() -> (g: IdGenerator)
        ensures
            g.upcoming_table() == 1,
            g.upcoming_player() == 1,
            g.upcoming_tournament() == 1,
            g.upcoming_hand() == 1,
    {
        IdGenerator {
            table_counter: 1,
            player_counter: 1,
            tournament_counter: 1,
            hand_counter: 1,
        }
    }

    pub fn next_table_id(&mut self) -> (id: TableId)
        ensures
            id == old(self).upcoming_table(),
            final(self).upcoming_table() == counted_on(id),
            final(self).upcoming_player() == old(self).upcoming_player(),
            final(self).upcoming_tournament() == old(self).upcoming_tournament(),
            final(self).upcoming_hand() == old(self).upcoming_hand(),
    {
        let id = self.table_counter;
        self.table_counter = id.wrapping_add(1);
        id
    }

    pub fn next_player_id(&mut self) -> (id: PlayerId)
        ensures
            id == old(self).upcoming_player(),
            final(self).upcoming_player() == counted_on(id),
            final(self).upcoming_table() == old(self).upcoming_table(),
            final(self).upcoming_tournament() == old(self).upcoming_tournament(),
            final(self).upcoming_hand() == old(self).upcoming_hand(),
    {
        let id = self.player_counter;
        self.player_counter = id.wrapping_add(1);
        id
    }

    pub fn next_tournament_id(&mut self) -> (id: TournamentId)
        ensures
            id == old(self).upcoming_tournament(),
            final(self).upcoming_tournament() == counted_on(id),
            final(self).upcoming_table() == old(self).upcoming_table(),
            final(self).upcoming_player() == old(self).upcoming_player(),
            final(self).upcoming_hand() == old(self).upcoming_hand(),
    {
        let id = self.tournament_counter;
        self.tournament_counter = id.wrapping_add(1);
        id
    }

    pub fn next_hand_id(&mut self) -> (id: HandId)
        ensures
            id == old(self).upcoming_hand(),
            final(self).upcoming_hand() == counted_on(id),
            final(self).upcoming_table() == old(self).upcoming_table(),
            final(self).upcoming_player() == old(self).upcoming_player(),
            final(self).upcoming_tournament() == old(self).upcoming_tournament(),
    {
        let id = self.hand_counter;
        self.hand_counter = id.wrapping_add(1);
        id
    }
}

/// An identifier that people can read; inside, numbers are used.
#[derive(Clone, Debug, PartialEq, Eq, Hash)]
pub struct ExternalId(pub String);

} // verus!
