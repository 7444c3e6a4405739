//! The table manager: several tables, each with the engine of its hand.

use crate::domain::table::{SeatIndex, Table};
use crate::domain::{HandId, TableId};
use crate::engine::actions::PlayerAction;
use crate::engine::errors::EngineError;
use crate::engine::game_loop;
use crate::engine::game_loop::{HandEngine, HandStatus};
use crate::engine::RandomSource;
use std::collections::hash_map::Entry;
use std::collections::HashMap;
use vstd::prelude::*;
use vstd::std_specs::convert::FromSpecImpl;

verus! {

/// Why the manager refused a call.
#[derive(Clone, Copy, Debug, PartialEq, Eq)]
pub enum ManagerError {
    /// No table has this identifier.
    TableNotFound(TableId),
    /// No hand was started at this table.
    NoActiveHand(TableId),
    /// The engine refused.
    Engine(EngineError),
}

impl From<EngineError> for ManagerError {
    fn from(e: EngineError) -> (r: ManagerError) {
        ManagerError::Engine(e)
    }
}

impl FromSpecImpl<EngineError> for ManagerError {
    open spec fn obeys_from_spec() -> bool {
        true
    }

    open spec fn from_spec(e: EngineError) -> ManagerError {
        ManagerError::Engine(e)
    }
}

/// A table with the engine of the hand that was started at it last.
#[derive(Debug)]
pub struct ManagedTable {
    pub table: Table,
    pub engine: Option<HandEngine>,
}

impl ManagedTable {
    /// A table without a hand.
    pub fn new(table: Table) -> (m: ManagedTable)
        ensures
            m.table == table,
            m.engine is None,
    {
        ManagedTable { table, engine: None }
    }
}

/// The manager of the tables.
#[derive(Debug)]
pub struct TableManager {
    tables: HashMap<TableId, ManagedTable>,
}

impl TableManager {
    /// The tables, each under the identifier under which it was added.
    pub closed spec fn tables(&self) -> Map<TableId, ManagedTable> {
        self.tables@
    }

    /// The table that is kept under an identifier.
    pub open spec fn managed(&self, table_id: TableId) -> Option<ManagedTable> {
        if self.tables().contains_key(table_id) {
            Some(self.tables()[table_id])
        } else {
            None
        }
    }

    /// Every table has as many seats as its configuration says.
    pub open spec fn well_formed(&self) -> bool {
        forall|id: TableId| #[trigger]
            self.tables().contains_key(id) ==> self.tables()[id].table.wf()
    }

    /// A manager without tables.
    pub fn new() -> (m: TableManager)
        ensures
            m.tables() == Map::<TableId, ManagedTable>::empty(),
    {
        TableManager { tables: HashMap::new() }
    }

    /// Adds a table under its identifier, without a hand. A table that
    /// was there under the identifier is replaced.
    pub fn add_table(&mut self, table: Table)
        ensures
            final(self).tables() == old(self).tables().insert(
                table.id,
                ManagedTable { table, engine: None },
            ),
    {
        broadcast use vstd::std_specs::hash::group_hash_axioms;

        let id = table.id;
        self.tables.insert(id, ManagedTable::new(table));
    }

    /// Whether there is a table under the identifier.
    pub fn has_table(&self, table_id: TableId) -> (b: bool)
        ensures
            b == self.tables().contains_key(table_id),
    {
        broadcast use vstd::std_specs::hash::group_hash_axioms;

        self.tables.contains_key(&table_id)
    }

    /// The table under the identifier.
    pub fn table(&self, table_id: TableId) -> (t: Option<&Table>)
        ensures
            match t {
                Some(table) => self.managed(table_id) matches Some(m) && m.table == *table,
                None => self.managed(table_id) is None,
            },
    {
        broadcast use vstd::std_specs::hash::group_hash_axioms;

        match self.tables.get(&table_id) {
            Some(managed) => Some(&managed.table),
            None => None,
        }
    }

    /// The table under the identifier, to be changed.
    pub fn table_mut(&mut self, table_id: TableId) -> (t: Option<&mut Table>)
        ensures
            match t {
                Some(table) => old(self).managed(table_id) matches Some(m) && {
                    &&& *table == m.table
                    &&& final(self).tables() == old(self).tables().insert(
                        table_id,
                        ManagedTable { table: *final(table), engine: m.engine },
                    )
                },
                None => {
                    &&& old(self).managed(table_id) is None
                    &&& final(self).tables() == old(self).tables()
                },
            },
    {
        broadcast use vstd::std_specs::hash::group_hash_axioms;

        if !self.tables.contains_key(&table_id) {
            return None;
        }
        match self.tables.entry(table_id) {
            Entry::Occupied(found) => Some(&mut found.into_mut().table),
            Entry::Vacant(_) => {
                assert(false);
                None
            },
        }
    }

    /// Whether a hand was started at the table.
    pub fn has_active_hand(&self, table_id: TableId) -> (b: bool)
        ensures
            b == (self.managed(table_id) matches Some(m) && m.engine is Some),
    {
        broadcast use vstd::std_specs::hash::group_hash_axioms;

        match self.tables.get(&table_id) {
            Some(managed) => managed.engine.is_some(),
            None => false,
        }
    }

    /// The engine of the hand at the table.
    pub fn hand_engine(&self, table_id: TableId) -> (e: Option<&HandEngine>)
        ensures
            match e {
                Some(engine) => self.managed(table_id) matches Some(m) && m.engine == Some(
                    *engine,
                ),
                None => !(self.managed(table_id) matches Some(m) && m.engine is Some),
            },
    {
        broadcast use vstd::std_specs::hash::group_hash_axioms;

        match self.tables.get(&table_id) {
            Some(managed) => match &managed.engine {
                Some(e) => Some(e),
                None => None,
            },
            None => None,
        }
    }

    /// The engine of the hand at the table, to be changed.
    pub fn hand_engine_mut(&mut self, table_id: TableId) -> (e: Option<&mut HandEngine>)
        ensures
            match e {
                Some(engine) => old(self).managed(table_id) matches Some(m) && {
                    &&& m.engine == Some(*engine)
                    &&& final(self).tables() == old(self).tables().insert(
                        table_id,
                        ManagedTable { table: m.table, engine: Some(*final(engine)) },
                    )
                },
                None => {
                    &&& !(old(self).managed(table_id) matches Some(m) && m.engine is Some)
                    &&& final(self).tables() == old(self).tables()
                },
            },
    {
        broadcast use vstd::std_specs::hash::group_hash_axioms;

        if !self.has_active_hand(table_id) {
            return None;
        }
        match self.tables.entry(table_id) {
            Entry::Occupied(found) => match &mut found.into_mut().engine {
                Some(e) => Some(e),
                None => {
                    assert(false);
                    None
                },
            },
            Entry::Vacant(_) => {
                assert(false);
                None
            },
        }
    }

    /// The seat whose turn it is at the table.
    pub fn current_actor_seat(&self, table_id: TableId) -> (seat: Option<SeatIndex>)
        ensures
            seat == match self.managed(table_id) {
                Some(m) => match m.engine {
                    Some(e) => e.current_actor,
                    None => None,
                },
                None => None,
            },
    {
        match self.hand_engine(table_id) {
            Some(e) => e.current_actor,
            None => None,
        }
    }

    /// Starts a hand at the table and keeps its engine. A start that is
    /// refused draws nothing from the source of randomness and changes
    /// nothing.
    pub fn start_hand<R: RandomSource>(&mut self, table_id: TableId, rng: &mut R, hand_id: HandId)
        -> (r: Result<(), ManagerError>)
        requires
            old(self).well_formed(),
        ensures
            final(self).well_formed(),
            r is Err ==> *final(rng) == *old(rng) && final(self).tables() == old(self).tables(),
            match old(self).managed(table_id) {
                None => r == Err::<(), ManagerError>(ManagerError::TableNotFound(table_id)),
                Some(before) => match game_loop::start_refusal(before.table) {
                    Some(e) => r == Err::<(), ManagerError>(ManagerError::Engine(e)),
                    None => r is Ok && {
                        let after = final(self).tables()[table_id];
                        &&& final(self).tables() == old(self).tables().insert(table_id, after)
                        &&& after.engine is Some
                        &&& game_loop::started(
                            before.table,
                            game_loop::shuffled_deck(old(rng)),
                            hand_id,
                            after.table,
                            after.engine.unwrap(),
                        )
                    },
                },
            },
    {
        broadcast use vstd::std_specs::hash::group_hash_axioms;

        match self.tables.entry(table_id) {
            Entry::Occupied(mut found) => {
                let managed = found.get_mut();
                match game_loop::start_hand(&mut managed.table, rng, hand_id) {
                    Ok(engine) => {
                        managed.engine = Some(engine);
                        Ok(())
                    },
                    Err(e) => {
                        assert(self.tables@ =~= old(self).tables@);
                        Err(ManagerError::Engine(e))
                    },
                }
            },
            Entry::Vacant(_) => {
                assert(self.tables@ =~= old(self).tables@);
                Err(ManagerError::TableNotFound(table_id))
            },
        }
    }

    /// Applies the action of a player at the table.
    pub fn apply_action(&mut self, table_id: TableId, action: PlayerAction) -> (r: Result<
        HandStatus,
        ManagerError,
    >)
        requires
            old(self).well_formed(),
        ensures
            final(self).well_formed(),
            match old(self).managed(table_id) {
                None => r == Err::<HandStatus, ManagerError>(ManagerError::TableNotFound(table_id))
                    && final(self).tables() == old(self).tables(),
                Some(m) => match m.engine {
                    None => r == Err::<HandStatus, ManagerError>(
                        ManagerError::NoActiveHand(table_id),
                    ) && final(self).tables() == old(self).tables(),
                    Some(engine) => {
                        &&& final(self).managed(table_id) matches Some(now)
                        &&& final(self).tables() == old(self).tables().insert(
                            table_id,
                            final(self).tables()[table_id],
                        )
                        &&& final(self).tables()[table_id].engine is Some
                        &&& match game_loop::acting_refusal(
                            game_loop::hand_view(m.table, engine),
                            action,
                        ) {
                            Some(e) => r == Err::<HandStatus, ManagerError>(
                                ManagerError::Engine(e),
                            ) && final(self).tables() == old(self).tables(),
                            None => r matches Ok(status) && {
                                let now = final(self).tables()[table_id];
                                let moved = game_loop::after_action(
                                    game_loop::hand_view(m.table, engine),
                                    game_loop::hand_frame(m.table, engine),
                                    action.seat,
                                    action.kind,
                                );
                                &&& game_loop::hand_view(now.table, now.engine.unwrap())
                                    == moved.view
                                &&& game_loop::hand_frame(now.table, now.engine.unwrap())
                                    == game_loop::hand_frame(m.table, engine)
                                &&& game_loop::reports(status, moved)
                            },
                        }
                    },
                },
            },
    {
        broadcast use vstd::std_specs::hash::group_hash_axioms;

        match self.tables.entry(table_id) {
            Entry::Occupied(mut found) => {
                let managed = found.get_mut();
                match &mut managed.engine {
                    None => {
                        assert(self.tables@ =~= old(self).tables@);
                        Err(ManagerError::NoActiveHand(table_id))
                    },
                    Some(engine) => {
                        match game_loop::apply_action(&mut managed.table, engine, action) {
                            Ok(status) => Ok(status),
                            Err(e) => {
                                assert(self.tables@ =~= old(self).tables@);
                                Err(ManagerError::Engine(e))
                            },
                        }
                    },
                }
            },
            Entry::Vacant(_) => {
                assert(self.tables@ =~= old(self).tables@);
                Err(ManagerError::TableNotFound(table_id))
            },
        }
    }
}

} // verus!
