//! What a player can do when it is the player's turn.

use crate::domain::chips::Chips;
use crate::domain::table::SeatIndex;
use crate::domain::PlayerId;
use vstd::prelude::*;

verus! {

/// The kind of an action.
#[derive(Clone, Copy, Debug, PartialEq, Eq, Structural)]
pub enum PlayerActionKind {
    Fold,
    Check,
    Call,
    /// The first bet of a street, of the given size.
    Bet(Chips),
    /// A raise of the street's bet to the given total.
    Raise(Chips),
    /// The whole stack goes in.
    AllIn,
}

/// An action of one player at one seat.
#[derive(Clone, Copy, Debug, PartialEq, Eq, Structural)]
pub struct PlayerAction {
    pub player_id: PlayerId,
    pub seat: SeatIndex,
    pub kind: PlayerActionKind,
}

} // verus!
