//! The snapshot of a hand: plain data from which the engine of a hand in
//! play can be set up again.

use crate::domain::chips::Chips;
use crate::domain::deck::Deck;
use crate::domain::table::SeatIndex;
use crate::domain::{HandId, TableId};
use crate::engine::betting::BettingState;
use crate::engine::game_loop::HandEngine;
use crate::engine::hand_history::HandHistory;
use crate::engine::pot::Pot;
use crate::engine::side_pots;
use crate::engine::side_pots::{copy_side_pots, SidePot};
use std::collections::HashMap;
use vstd::prelude::*;

verus! {

/// A hand in play, frozen.
#[derive(Debug)]
pub struct HandEngineSnapshot {
    pub table_id: TableId,
    pub hand_id: HandId,
    pub deck: Deck,
    pub betting: BettingState,
    pub pot: Pot,
    pub side_pots: Vec<SidePot>,
    pub contributions: HashMap<SeatIndex, Chips>,
    pub current_actor: Option<SeatIndex>,
    pub history: HandHistory,
}

/// Copies what the seats put in.
pub fn copy_contributions(contributions: &HashMap<SeatIndex, Chips>) -> (copy: HashMap<
    SeatIndex,
    Chips,
>)
    ensures
        copy@ == contributions@,
{
    broadcast use vstd::std_specs::hash::group_hash_axioms;

    let mut copy: HashMap<SeatIndex, Chips> = HashMap::new();
    let mut seat: usize = 0;
    while seat < 256
        invariant
            seat <= 256,
            forall|s: SeatIndex|
                copy@.contains_key(s) <==> (s as int) < seat && contributions@.contains_key(s),
            forall|s: SeatIndex| copy@.contains_key(s) ==> copy@[s] == contributions@[s],
        decreases 256 - seat,
    {
        let s = seat as SeatIndex;
        match contributions.get(&s) {
            Some(chips) => {
                copy.insert(s, *chips);
            },
            None => {},
        }
        seat += 1;
    }
    assert(copy@ =~= contributions@);
    copy
}

impl HandEngineSnapshot {
    /// The snapshot shows the engine: every part is the same.
    pub open spec fn shows(&self, engine: &HandEngine) -> bool {
        &&& self.table_id == engine.table_id
        &&& self.hand_id == engine.hand_id
        &&& self.deck@ == engine.deck@
        &&& self.betting.current_bet == engine.betting.current_bet
        &&& self.betting.min_raise == engine.betting.min_raise
        &&& self.betting.last_aggressor == engine.betting.last_aggressor
        &&& self.betting.street == engine.betting.street
        &&& self.betting.to_act@ == engine.betting.to_act@
        &&& self.pot == engine.pot
        &&& side_pots::pot_views(self.side_pots@) == side_pots::pot_views(engine.side_pots@)
        &&& self.contributions@ == engine.contributions@
        &&& self.current_actor == engine.current_actor
        &&& self.history@ == engine.history@
        &&& self.history.numbered() == engine.history.numbered()
    }

    /// The two snapshots are alike: every part is the same.
    pub open spec fn alike(&self, other: &HandEngineSnapshot) -> bool {
        &&& self.table_id == other.table_id
        &&& self.hand_id == other.hand_id
        &&& self.deck@ == other.deck@
        &&& self.betting.current_bet == other.betting.current_bet
        &&& self.betting.min_raise == other.betting.min_raise
        &&& self.betting.last_aggressor == other.betting.last_aggressor
        &&& self.betting.street == other.betting.street
        &&& self.betting.to_act@ == other.betting.to_act@
        &&& self.pot == other.pot
        &&& side_pots::pot_views(self.side_pots@) == side_pots::pot_views(other.side_pots@)
        &&& self.contributions@ == other.contributions@
        &&& self.current_actor == other.current_actor
        &&& self.history@ == other.history@
        &&& self.history.numbered() == other.history.numbered()
    }

    /// Freezes an engine.
    pub fn from_engine(engine: &HandEngine) -> (s: HandEngineSnapshot)
        ensures
            s.shows(engine),
    {
        HandEngineSnapshot {
            table_id: engine.table_id,
            hand_id: engine.hand_id,
            deck: engine.deck.clone(),
            betting: engine.betting.clone(),
            pot: engine.pot,
            side_pots: copy_side_pots(&engine.side_pots),
            contributions: copy_contributions(&engine.contributions),
            current_actor: engine.current_actor,
            history: engine.history.clone(),
        }
    }

    /// Sets the engine up again.
    pub fn into_engine(self) -> (e: HandEngine)
        ensures
            self.shows(&e),
            e.deck == self.deck,
            e.betting == self.betting,
            e.side_pots == self.side_pots,
            e.contributions == self.contributions,
            e.history == self.history,
    {
        HandEngine {
            table_id: self.table_id,
            hand_id: self.hand_id,
            deck: self.deck,
            betting: self.betting,
            pot: self.pot,
            side_pots: self.side_pots,
            contributions: self.contributions,
            current_actor: self.current_actor,
            history: self.history,
        }
    }
}

impl Clone for HandEngineSnapshot {
    fn clone(&self) -> (s: HandEngineSnapshot)
        ensures
            s.alike(self),
    {
        HandEngineSnapshot {
            table_id: self.table_id,
            hand_id: self.hand_id,
            deck: self.deck.clone(),
            betting: self.betting.clone(),
            pot: self.pot,
            side_pots: copy_side_pots(&self.side_pots),
            contributions: copy_contributions(&self.contributions),
            current_actor: self.current_actor,
            history: self.history.clone(),
        }
    }
}

} // verus!
