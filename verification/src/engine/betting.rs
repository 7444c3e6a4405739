//! The state of one betting round.

use crate::domain::chips::Chips;
use crate::domain::hand::Street;
use crate::domain::table::SeatIndex;
use vstd::prelude::*;

verus! {

/// The betting round of one street.
#[derive(Debug, PartialEq, Eq)]
pub struct BettingState {
    /// The bet that every player has to match on this street.
    pub current_bet: Chips,
    /// By how much a raise has to exceed the current bet, at least.
    pub min_raise: Chips,
    /// The seat that bet or raised last.
    pub last_aggressor: Option<SeatIndex>,
    pub street: Street,
    /// The seats that still owe an action on this street, in turn order.
    pub to_act: Vec<SeatIndex>,
}

impl Clone for BettingState {
    fn clone(&self) -> (b: BettingState)
        ensures
            b.current_bet == self.current_bet,
            b.min_raise == self.min_raise,
            b.last_aggressor == self.last_aggressor,
            b.street == self.street,
            b.to_act@ == self.to_act@,
    {
        BettingState {
            current_bet: self.current_bet,
            min_raise: self.min_raise,
            last_aggressor: self.last_aggressor,
            street: self.street,
            to_act: self.to_act.clone(),
        }
    }
}

impl BettingState {
    /// The test that every seat but one passes.
    pub open spec fn other_than(seat: SeatIndex) -> spec_fn(SeatIndex) -> bool {
        |s: SeatIndex| s != seat
    }

    /// A queue without one seat.
    pub open spec fn without(queue: Seq<SeatIndex>, seat: SeatIndex) -> Seq<SeatIndex> {
        queue.filter(Self::other_than(seat))
    }

    /// A fresh round with nobody as the aggressor.
    pub fn new(street: Street, current_bet: Chips, min_raise: Chips, to_act: Vec<SeatIndex>) -> (b:
        BettingState)
        ensures
            b.current_bet == current_bet,
            b.min_raise == min_raise,
            b.last_aggressor is None,
            b.street == street,
            b.to_act == to_act,
    {
        BettingState { current_bet, min_raise, last_aggressor: None, street, to_act }
    }

    /// Takes a seat out of the queue; the others keep their order.
    pub fn mark_acted(&mut self, seat: SeatIndex)
        ensures
            final(self).to_act@ == Self::without(old(self).to_act@, seat),
            final(self).current_bet == old(self).current_bet,
            final(self).min_raise == old(self).min_raise,
            final(self).last_aggressor == old(self).last_aggressor,
            final(self).street == old(self).street,
    {
        let ghost pred = Self::other_than(seat);
        let mut kept: Vec<SeatIndex> = Vec::new();
        let mut i: usize = 0;
        while i < self.to_act.len()
            invariant
                i <= self.to_act@.len(),
                *self == *old(self),
                pred == Self::other_than(seat),
                kept@ == self.to_act@.take(i as int).filter(pred),
            decreases self.to_act@.len() - i,
        {
            proof {
                crate::seq_util::filter_step(self.to_act@, pred, i as int);
            }
            let s = self.to_act[i];
            if s != seat {
                kept.push(s);
            }
            i += 1;
        }
        proof {
            crate::seq_util::take_all(self.to_act@);
        }
        self.to_act = kept;
    }

    /// Records a bet or a raise: the new bet to match, the new minimum
    /// raise, the aggressor, and the queue of those who now have to answer.
    pub fn on_raise(
        &mut self,
        seat: SeatIndex,
        new_bet: Chips,
        raise_size: Chips,
        new_to_act: Vec<SeatIndex>,
    )
        ensures
            final(self).current_bet == new_bet,
            final(self).min_raise == raise_size,
            final(self).last_aggressor == Some(seat),
            final(self).to_act == new_to_act,
            final(self).street == old(self).street,
    {
        self.current_bet = new_bet;
        self.min_raise = raise_size;
        self.last_aggressor = Some(seat);
        self.to_act = new_to_act;
    }

    /// The round is complete when nobody owes an action.
    pub fn is_round_complete(&self) -> (done: bool)
        ensures
            done == (self.to_act@.len() == 0),
    {
        self.to_act.len() == 0
    }
}

} // verus!
