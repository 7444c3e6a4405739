//! The commands: everything that changes the state.

use crate::domain::chips::Chips;
use crate::domain::tournament::TournamentConfig;
use crate::domain::{PlayerId, TableId, TournamentId};
use crate::engine::actions::PlayerAction;
use vstd::prelude::*;

verus! {

/// A command.
#[derive(Clone, Debug)]
pub enum Command {
    /// Make a new table.
    CreateTable(CreateTableCommand),
    /// Do something at a table that exists.
    TableCommand(TableCommand),
    /// Do something with a tournament.
    TournamentCommand(TournamentCommand),
}

/// Make a new table.
#[derive(Clone, Debug)]
pub struct CreateTableCommand {
    pub table_id: TableId,
    pub name: String,
    pub max_seats: u8,
    pub small_blind: Chips,
    pub big_blind: Chips,
    pub ante: Chips,
    pub ante_type: AnteTypeApi,
}

/// Who pays the ante, as the API names it.
#[derive(Clone, Copy, Debug, PartialEq, Eq, Structural)]
pub enum AnteTypeApi {
    NoAnte,
    Classic,
    BigBlind,
}

/// A command for a table that exists.
#[derive(Clone, Debug)]
pub enum TableCommand {
    SeatPlayer(SeatPlayerCommand),
    UnseatPlayer(UnseatPlayerCommand),
    AdjustStack(AdjustStackCommand),
    StartHand(StartHandCommand),
    PlayerAction(PlayerActionCommand),
}

/// Seat a player.
#[derive(Clone, Debug)]
pub struct SeatPlayerCommand {
    pub table_id: TableId,
    pub player_id: PlayerId,
    pub seat_index: u8,
    pub display_name: String,
    pub initial_stack: Chips,
}

/// Take a player off a seat.
#[derive(Clone, Copy, Debug, PartialEq, Eq, Structural)]
pub struct UnseatPlayerCommand {
    pub table_id: TableId,
    pub seat_index: u8,
}

/// Add chips to a stack, or take chips off it with a negative number.
#[derive(Clone, Copy, Debug, PartialEq, Eq, Structural)]
pub struct AdjustStackCommand {
    pub table_id: TableId,
    pub seat_index: u8,
    pub delta: i64,
}

/// Start a hand.
#[derive(Clone, Copy, Debug, PartialEq, Eq, Structural)]
pub struct StartHandCommand {
    pub table_id: TableId,
    pub hand_id: u64,
}

/// An action of a player in a hand.
#[derive(Clone, Copy, Debug, PartialEq, Eq, Structural)]
pub struct PlayerActionCommand {
    pub table_id: TableId,
    pub action: PlayerAction,
}

/// A command for a tournament.
#[derive(Clone, Debug)]
pub enum TournamentCommand {
    CreateTournament(CreateTournamentCommand),
    RegisterPlayer(RegisterPlayerInTournamentCommand),
    UnregisterPlayer(UnregisterPlayerFromTournamentCommand),
    StartTournament(StartTournamentCommand),
    AdvanceLevel(AdvanceLevelCommand),
    CloseTournament(CloseTournamentCommand),
}

/// Make a new tournament.
#[derive(Clone, Debug)]
pub struct CreateTournamentCommand {
    pub config: TournamentConfig,
}

/// Register a player in a tournament.
#[derive(Clone, Debug)]
pub struct RegisterPlayerInTournamentCommand {
    pub tournament_id: TournamentId,
    pub player_id: PlayerId,
    pub display_name: String,
}

/// Take a registration back before the start.
#[derive(Clone, Copy, Debug, PartialEq, Eq, Structural)]
pub struct UnregisterPlayerFromTournamentCommand {
    pub tournament_id: TournamentId,
    pub player_id: PlayerId,
}

/// Start a tournament.
#[derive(Clone, Copy, Debug, PartialEq, Eq, Structural)]
pub struct StartTournamentCommand {
    pub tournament_id: TournamentId,
}

/// Move a tournament to its next blind level.
#[derive(Clone, Copy, Debug, PartialEq, Eq, Structural)]
pub struct AdvanceLevelCommand {
    pub tournament_id: TournamentId,
}

/// Close a tournament.
#[derive(Clone, Copy, Debug, PartialEq, Eq, Structural)]
pub struct CloseTournamentCommand {
    pub tournament_id: TournamentId,
}

} // verus!
