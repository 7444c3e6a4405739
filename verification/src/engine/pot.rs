//! The pot: all the chips put into the current hand.

use crate::domain::chips::Chips;
use vstd::prelude::*;

verus! {

/// The total of the pot. How it splits into side pots is worked out at
/// the showdown.
#[derive(Clone, Copy, Debug, PartialEq, Eq, Structural)]
pub struct Pot {
    pub total: Chips,
}

impl Pot {
    pub fn new() -> (p: Pot)
        ensures
            p.total == Chips(0),
    {
        Pot { total: Chips(0) }
    }

    pub fn add(&mut self, amount: Chips)
        ensures
            final(self).total == Chips::sat_add(old(self).total, amount),
    {
        self.total = self.total.saturating_add(amount);
    }

    pub fn reset(&mut self)
        ensures
            final(self).total == Chips(0),
    {
        self.total = Chips(0);
    }
}

} // verus!
