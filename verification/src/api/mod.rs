//! The outer face of the engine: commands, queries, views and errors.

pub mod commands;
pub mod dto;
pub mod errors;
pub mod queries;

pub use commands::{
    AdjustStackCommand, AdvanceLevelCommand, AnteTypeApi, CloseTournamentCommand, Command,
    CreateTableCommand, CreateTournamentCommand, PlayerActionCommand,
    RegisterPlayerInTournamentCommand, SeatPlayerCommand, StartHandCommand,
    StartTournamentCommand, TableCommand, TournamentCommand, UnregisterPlayerFromTournamentCommand,
    UnseatPlayerCommand,
};
pub use dto::{
    map_hand_status_to_response, CommandResponse, HandHistoryItemDto, HandPlayerResultDto,
    PlayerAtTableDto, TableViewDto, TournamentViewDto,
};
pub use errors::ApiError;
pub use queries::{build_players_dto, build_table_view, Query, QueryResponse};
