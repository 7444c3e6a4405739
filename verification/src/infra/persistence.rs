//! The store behind the engine: tables, the hands in play and the
//! tournaments, each under its identifier.

use crate::domain::table::Table;
use crate::domain::tournament::Tournament;
use crate::domain::{TableId, TournamentId};
use crate::state::HandEngineSnapshot;
use std::collections::HashMap;
use vstd::prelude::*;

verus! {

/// A store for the state of the engine.
pub trait PokerStorage {
    fn load_table(&self, id: TableId) -> Option<Table>;

    fn save_table(&mut self, table: &Table);

    /// The hand in play at a table, if there is one.
    fn load_active_hand(&self, table_id: TableId) -> Option<HandEngineSnapshot>;

    /// Keeps the hand in play at a table, or forgets it with `None`.
    fn save_active_hand(&mut self, table_id: TableId, snapshot: Option<HandEngineSnapshot>);

    fn load_tournament(&self, id: TournamentId) -> Option<Tournament>;

    fn save_tournament(&mut self, tournament: &Tournament);
}

/// A store in memory.
#[derive(Debug)]
pub struct InMemoryPokerStorage {
    tables: HashMap<TableId, Table>,
    active_hands: HashMap<TableId, HandEngineSnapshot>,
    tournaments: HashMap<TournamentId, Tournament>,
}

impl InMemoryPokerStorage {
    /// The tables that are kept, each under its identifier.
    pub closed spec fn tables(&self) -> Map<TableId, Table> {
        self.tables@
    }

    /// The hands that are kept, each under the identifier of its table.
    pub closed spec fn hands(&self) -> Map<TableId, HandEngineSnapshot> {
        self.active_hands@
    }

    /// The tournaments that are kept, each under its identifier.
    pub closed spec fn tournaments(&self) -> Map<TournamentId, Tournament> {
        self.tournaments@
    }

    /// An empty store.
    pub fn new() -> (s: InMemoryPokerStorage)
        ensures
            s.tables() == Map::<TableId, Table>::empty(),
            s.hands() == Map::<TableId, HandEngineSnapshot>::empty(),
            s.tournaments() == Map::<TournamentId, Tournament>::empty(),
    {
        InMemoryPokerStorage {
            tables: HashMap::new(),
            active_hands: HashMap::new(),
            tournaments: HashMap::new(),
        }
    }
}

impl Default for InMemoryPokerStorage {
    fn default() -> (s: InMemoryPokerStorage)
        ensures
            s.tables() == Map::<TableId, Table>::empty(),
            s.hands() == Map::<TableId, HandEngineSnapshot>::empty(),
            s.tournaments() == Map::<TournamentId, Tournament>::empty(),
    {
        InMemoryPokerStorage::new()
    }
}

impl PokerStorage for InMemoryPokerStorage {
    /// A copy of the table that is kept under the identifier.
    fn load_table(&self, id: TableId) -> (t: Option<Table>)
        ensures
            match t {
                Some(table) => self.tables().contains_key(id) && table.alike(&self.tables()[id]),
                None => !self.tables().contains_key(id),
            },
    {
        broadcast use vstd::std_specs::hash::group_hash_axioms;

        match self.tables.get(&id) {
            Some(table) => Some(table.clone()),
            None => None,
        }
    }

    /// Keeps a copy of the table under its identifier, in place of the
    /// one kept there before.
    fn save_table(&mut self, table: &Table)
        ensures
            final(self).hands() == old(self).hands(),
            final(self).tournaments() == old(self).tournaments(),
            final(self).tables().contains_key(table.id),
            final(self).tables()[table.id].alike(table),
            final(self).tables() == old(self).tables().insert(
                table.id,
                final(self).tables()[table.id],
            ),
    {
        broadcast use vstd::std_specs::hash::group_hash_axioms;

        self.tables.insert(table.id, table.clone());
    }

    /// A copy of the hand that is kept for the table.
    fn load_active_hand(&self, table_id: TableId) -> (h: Option<HandEngineSnapshot>)
        ensures
            match h {
                Some(hand) => self.hands().contains_key(table_id) && hand.alike(
                    &self.hands()[table_id],
                ),
                None => !self.hands().contains_key(table_id),
            },
    {
        broadcast use vstd::std_specs::hash::group_hash_axioms;

        match self.active_hands.get(&table_id) {
            Some(hand) => Some(hand.clone()),
            None => None,
        }
    }

    /// Keeps the hand for the table in place of the one kept before, or
    /// forgets the hand of the table with `None`.
    fn save_active_hand(&mut self, table_id: TableId, snapshot: Option<HandEngineSnapshot>)
        ensures
            final(self).tables() == old(self).tables(),
            final(self).tournaments() == old(self).tournaments(),
            final(self).hands() == match snapshot {
                Some(hand) => old(self).hands().insert(table_id, hand),
                None => old(self).hands().remove(table_id),
            },
    {
        broadcast use vstd::std_specs::hash::group_hash_axioms;

        match snapshot {
            Some(hand) => {
                self.active_hands.insert(table_id, hand);
            },
            None => {
                self.active_hands.remove(&table_id);
            },
        }
    }

    /// A copy of the tournament that is kept under the identifier.
    fn load_tournament(&self, id: TournamentId) -> (t: Option<Tournament>)
        ensures
            match t {
                Some(tournament) => self.tournaments().contains_key(id) && tournament.alike(
                    &self.tournaments()[id],
                ),
                None => !self.tournaments().contains_key(id),
            },
    {
        broadcast use vstd::std_specs::hash::group_hash_axioms;

        match self.tournaments.get(&id) {
            Some(tournament) => Some(tournament.clone()),
            None => None,
        }
    }

    /// Keeps a copy of the tournament under its identifier, in place of
    /// the one kept there before.
    fn save_tournament(&mut self, tournament: &Tournament)
        ensures
            final(self).tables() == old(self).tables(),
            final(self).hands() == old(self).hands(),
            final(self).tournaments().contains_key(tournament.id),
            final(self).tournaments()[tournament.id].alike(tournament),
            final(self).tournaments() == old(self).tournaments().insert(
                tournament.id,
                final(self).tournaments()[tournament.id],
            ),
    {
        broadcast use vstd::std_specs::hash::group_hash_axioms;

        self.tournaments.insert(tournament.id, tournament.clone());
    }
}

} // verus!
