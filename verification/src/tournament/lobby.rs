//! The lobby: the tournaments that exist, and registration in them.

use crate::domain::tournament::{Tournament, TournamentConfig, TournamentError};
use crate::domain::{PlayerId, TournamentId};
use crate::sorting;
use crate::sorting::sorted_keys;
use std::collections::hash_map::Entry;
use std::collections::HashMap;
use vstd::prelude::*;

verus! {

/// The lobby keeps the tournaments and gives each new one the next
/// identifier, beginning with 1.
#[derive(Debug)]
pub struct TournamentLobby {
    tournaments: HashMap<TournamentId, Tournament>,
    next_tournament_id: TournamentId,
}

impl TournamentLobby {
    /// The tournaments, each under its identifier.
    pub closed spec fn tournaments(&self) -> Map<TournamentId, Tournament> {
        self.tournaments@
    }

    /// The identifier that the next tournament gets.
    pub closed spec fn upcoming_id(&self) -> TournamentId {
        self.next_tournament_id
    }

    /// An empty lobby; its first tournament gets the identifier 1.
    pub fn new() -> (l: TournamentLobby)
        ensures
            l.tournaments() == Map::<TournamentId, Tournament>::empty(),
            l.upcoming_id() == 1,
    {
        TournamentLobby { tournaments: HashMap::new(), next_tournament_id: 1 }
    }

    /// Creates a tournament and returns its identifier. An invalid
    /// configuration is refused, and nothing changes.
    pub fn create_tournament(&mut self, owner: PlayerId, config: TournamentConfig) -> (r: Result<
        TournamentId,
        TournamentError,
    >)
        ensures
            match config.fault() {
                Some(fault) => {
                    &&& r matches Err(TournamentError::InvalidConfig(msg)) && msg@
                        == config.complaint(fault)
                    &&& final(self).tournaments() == old(self).tournaments()
                    &&& final(self).upcoming_id() == old(self).upcoming_id()
                },
                None => {
                    let id = old(self).upcoming_id();
                    let made = final(self).tournaments()[id];
                    &&& r == Ok::<TournamentId, TournamentError>(id)
                    &&& final(self).tournaments() == old(self).tournaments().insert(id, made)
                    &&& made.fresh(id, owner, config)
                    &&& final(self).upcoming_id() == crate::infra::ids::counted_on(id)
                },
            },
    {
        broadcast use vstd::std_specs::hash::group_hash_axioms;

        let id = self.next_tournament_id;
        let tournament = match Tournament::new(id, owner, config) {
            Ok(t) => t,
            Err(e) => {
                return Err(e);
            },
        };
        self.next_tournament_id = if id == u64::MAX {
            0
        } else {
            id + 1
        };
        self.tournaments.insert(id, tournament);
        Ok(id)
    }

    /// The tournament with the identifier.
    pub fn get(&self, id: TournamentId) -> (t: Option<&Tournament>)
        ensures
            match t {
                Some(tournament) => self.tournaments().contains_key(id) && *tournament
                    == self.tournaments()[id],
                None => !self.tournaments().contains_key(id),
            },
    {
        broadcast use vstd::std_specs::hash::group_hash_axioms;

        self.tournaments.get(&id)
    }

    /// The tournament with the identifier, to be changed.
    pub fn get_mut(&mut self, id: TournamentId) -> (t: Option<&mut Tournament>)
        ensures
            match t {
                Some(tournament) => {
                    &&& old(self).tournaments().contains_key(id)
                    &&& *tournament == old(self).tournaments()[id]
                    &&& final(self).tournaments() == old(self).tournaments().insert(
                        id,
                        *final(tournament),
                    )
                },
                None => {
                    &&& !old(self).tournaments().contains_key(id)
                    &&& final(self).tournaments() == old(self).tournaments()
                },
            },
            final(self).upcoming_id() == old(self).upcoming_id(),
    {
        broadcast use vstd::std_specs::hash::group_hash_axioms;

        if !self.tournaments.contains_key(&id) {
            return None;
        }
        match self.tournaments.entry(id) {
            Entry::Occupied(found) => Some(found.into_mut()),
            Entry::Vacant(_) => {
                assert(false);
                None
            },
        }
    }

    /// All tournaments, in rising order of their identifiers.
    pub fn all(&self) -> (list: Vec<&Tournament>)
        ensures
            list@.len() == self.tournaments().dom().len(),
            list@.len() == sorting::rising_keys(self.tournaments()).len(),
            forall|i: int|
                0 <= i < list@.len() ==> *(#[trigger] list@[i])
                    == self.tournaments()[sorting::rising_keys(self.tournaments())[i]],
    {
        broadcast use vstd::std_specs::hash::group_hash_axioms;

        let ids = sorted_keys(&self.tournaments);
        let mut list: Vec<&Tournament> = Vec::new();
        let mut i: usize = 0;
        while i < ids.len()
            invariant
                i <= ids@.len(),
                ids@ == sorting::rising_keys(self.tournaments@),
                forall|k: u64| ids@.contains(k) == self.tournaments@.contains_key(k),
                list@.len() == i,
                forall|j: int|
                    0 <= j < i ==> *(#[trigger] list@[j]) == self.tournaments@[ids@[j]],
            decreases ids@.len() - i,
        {
            assert(ids@.contains(ids@[i as int]));
            match self.tournaments.get(&ids[i]) {
                Some(tournament) => {
                    list.push(tournament);
                },
                None => {
                    assert(false);
                },
            }
            i += 1;
        }
        list
    }

    /// Registers a player in a tournament.
    pub fn register_player(&mut self, tournament_id: TournamentId, player_id: PlayerId) -> (r:
        Result<(), TournamentError>)
        ensures
            final(self).upcoming_id() == old(self).upcoming_id(),
            r is Err ==> final(self).tournaments() == old(self).tournaments(),
            if !old(self).tournaments().contains_key(tournament_id) {
                r == Err::<(), TournamentError>(
                    TournamentError::TournamentNotFound { tournament_id },
                )
            } else {
                let before = old(self).tournaments()[tournament_id];
                match before.registration_refusal(player_id) {
                    Some(e) => r == Err::<(), TournamentError>(e),
                    None => {
                        let after = final(self).tournaments()[tournament_id];
                        &&& r is Ok
                        &&& after.entered(before, player_id)
                        &&& final(self).tournaments() == old(self).tournaments().insert(
                            tournament_id,
                            after,
                        )
                    },
                }
            },
    {
        broadcast use vstd::std_specs::hash::group_hash_axioms;

        match self.tournaments.entry(tournament_id) {
            Entry::Occupied(mut found) => {
                let r = found.get_mut().register_player(player_id);
                if r.is_err() {
                    assert(self.tournaments@ =~= old(self).tournaments@);
                }
                r
            },
            Entry::Vacant(_) => {
                assert(self.tournaments@ =~= old(self).tournaments@);
                Err(TournamentError::TournamentNotFound { tournament_id })
            },
        }
    }
}

} // verus!
