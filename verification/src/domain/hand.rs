//! Streets, hand ranks and the summary of a finished hand.

use crate::domain::card::Card;
use crate::domain::chips::Chips;
use crate::domain::{HandId, PlayerId, TableId};
use vstd::prelude::*;

verus! {

/// A betting round of a hand.
#[derive(Clone, Copy, Debug, PartialEq, Eq, Structural)]
pub enum Street {
    Preflop,
    Flop,
    Turn,
    River,
    Showdown,
}

/// The strength of a five-card hand as one comparable number: a stronger
/// hand has a greater number.
#[derive(Clone, Copy, Debug, PartialEq, Eq, Structural, PartialOrd, Ord)]
pub struct HandRank(pub u32);

/// What one player got out of a hand.
#[derive(Clone, Copy, Debug, PartialEq, Eq, Structural)]
pub struct PlayerHandResult {
    pub player_id: PlayerId,
    /// The rank shown, for a player who reached the showdown.
    pub rank: Option<HandRank>,
    /// The chips the player was awarded from the pot.
    pub net_chips: Chips,
    /// Whether the player won a pot, a split included.
    pub is_winner: bool,
}

/// A short account of a finished hand.
#[derive(Debug, PartialEq, Eq)]
pub struct HandSummary {
    pub hand_id: HandId,
    pub table_id: TableId,
    pub street_reached: Street,
    pub board: Vec<Card>,
    pub total_pot: Chips,
    pub results: Vec<PlayerHandResult>,
}

/// The mathematical value of a [`HandSummary`].
pub struct SummaryView {
    pub hand_id: HandId,
    pub table_id: TableId,
    pub street_reached: Street,
    pub board: Seq<Card>,
    pub total_pot: Chips,
    pub results: Seq<PlayerHandResult>,
}

impl View for HandSummary {
    type V = SummaryView;

    open spec fn view(&self) -> SummaryView {
        SummaryView {
            hand_id: self.hand_id,
            table_id: self.table_id,
            street_reached: self.street_reached,
            board: self.board@,
            total_pot: self.total_pot,
            results: self.results@,
        }
    }
}

impl Clone for HandSummary {
    fn clone(&self) -> (s: HandSummary)
        ensures
            s.hand_id == self.hand_id,
            s.table_id == self.table_id,
            s.street_reached == self.street_reached,
            s.board@ == self.board@,
            s.total_pot == self.total_pot,
            s.results@ == self.results@,
    {
        HandSummary {
            hand_id: self.hand_id,
            table_id: self.table_id,
            street_reached: self.street_reached,
            board: self.board.clone(),
            total_pot: self.total_pot,
            results: self.results.clone(),
        }
    }
}

} // verus!
