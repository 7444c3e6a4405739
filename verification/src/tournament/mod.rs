//! Running tournaments: the lobby, the tables of a tournament and their
//! balance.

pub mod lobby;
pub mod rebalance;
pub mod runtime;

pub use lobby::TournamentLobby;
pub use runtime::{TournamentRuntime, TournamentTableInstance, TournamentTableSeat};
