//! The hand engine: betting, street changes, side pots and the showdown.

pub mod actions;
pub mod betting;
pub mod errors;
pub mod game_loop;
pub mod hand_history;
pub mod invariants;
pub mod laws;
pub mod positions;
pub mod pot;
pub mod side_pots;
pub mod table_manager;
pub mod validation;

pub use actions::{PlayerAction, PlayerActionKind};
pub use errors::EngineError;
pub use game_loop::{
    advance_if_needed, apply_action, start_hand, start_hand_with_deck, HandEngine, HandStatus,
};
pub use hand_history::{HandEvent, HandEventKind, HandHistory};
pub use pot::Pot;
pub use side_pots::SidePot;
pub use table_manager::{ManagerError, TableManager};
use vstd::prelude::*;

verus! {

/// A sequence in a new order: element `i` is element `order[i]` of the
/// old one.
pub open spec fn arranged<T>(s: Seq<T>, order: Seq<int>) -> Seq<T> {
    Seq::new(s.len(), |i: int| s[order[i]])
}

/// The order that leaves `n` elements where they are.
pub open spec fn as_it_is(n: nat) -> Seq<int> {
    Seq::new(n, |i: int| i)
}

/// The source of randomness that shuffles the deck.
pub trait RandomSource {
    /// The order into which the source puts `n` elements when it shuffles
    /// them next: element `i` of the outcome is element `order[i]` of what
    /// was there. The state of the source and the number of elements
    /// decide it. A source that says nothing else leaves the elements
    /// where they are.
    open spec fn next_order(&self, n: nat) -> Seq<int> {
        as_it_is(n)
    }

    /// Puts the elements of a slice into the order that is next. The
    /// slice holds the same elements afterwards.
    fn shuffle<T>(&mut self, slice: &mut [T])
        ensures
            final(slice)@ == arranged(old(slice)@, old(self).next_order(old(slice)@.len())),
            final(slice)@.to_multiset() == old(slice)@.to_multiset(),
    ;
}

} // verus!
