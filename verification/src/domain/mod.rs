//! The poker domain model: cards, players, tables, blinds and tournaments.

pub mod blinds;
pub mod card;
pub mod chips;
pub mod deck;
pub mod hand;
pub mod player;
pub mod table;
pub mod tournament;

pub use blinds::{AnteType, BlindLevel, BlindStructure};
pub use card::{Card, Rank, Suit};
pub use chips::Chips;
pub use deck::Deck;
pub use hand::{HandRank, HandSummary, PlayerHandResult, Street};
pub use tournament::{
    PlayerRegistration, RebalanceMove, TableBalancingConfig, Tournament, TournamentConfig,
    TournamentError, TournamentPlayer, TournamentScheduleConfig, TournamentStatus,
    TournamentTimeEvent,
};
pub use table::{SeatIndex, Table, TableConfig, TableStakes, TableType};
pub use player::{PlayerAtTable, PlayerProfile, PlayerStatus};
use vstd::prelude::*;

verus! {

/// Identifies a player.
pub type PlayerId = u64;

/// Identifies a table.
pub type TableId = u64;

/// Identifies a tournament.
pub type TournamentId = u64;

/// Identifies a hand.
pub type HandId = u64;

} // verus!
