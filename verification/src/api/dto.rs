//! The views that the API hands out.

use crate::domain::card::Card;
use crate::domain::chips::Chips;
use crate::domain::hand::{HandRank, PlayerHandResult, Street};
use crate::domain::player::PlayerStatus;
use crate::domain::{PlayerId, TableId, TournamentId};
use crate::engine::game_loop::HandStatus;
use vstd::prelude::*;

verus! {

/// A player at a table, as a client sees the player.
#[derive(Clone, Debug, PartialEq, Eq)]
pub struct PlayerAtTableDto {
    pub player_id: PlayerId,
    pub display_name: String,
    pub seat_index: u8,
    pub stack: Chips,
    pub current_bet: Chips,
    pub status: PlayerStatus,
    /// The hole cards, for the player's own eyes or an administrator's.
    pub hole_cards: Option<Vec<Card>>,
}

/// A table, as a client sees it.
#[derive(Clone, Debug, PartialEq, Eq)]
pub struct TableViewDto {
    pub table_id: TableId,
    pub name: String,
    pub max_seats: u8,
    pub small_blind: Chips,
    pub big_blind: Chips,
    pub ante: Chips,
    pub street: Street,
    pub dealer_button: Option<u8>,
    pub total_pot: Chips,
    pub board: Vec<Card>,
    pub players: Vec<PlayerAtTableDto>,
    pub hand_in_progress: bool,
    /// The seat whose turn it is, while a hand is played.
    pub current_actor_seat: Option<u8>,
}

/// A finished hand, for the history.
#[derive(Clone, Debug, PartialEq, Eq)]
pub struct HandHistoryItemDto {
    pub hand_id: u64,
    pub street_reached: Street,
    pub board: Vec<Card>,
    pub total_pot: Chips,
    pub players: Vec<HandPlayerResultDto>,
}

/// What one player got out of a hand.
#[derive(Clone, Copy, Debug, PartialEq, Eq, Structural)]
pub struct HandPlayerResultDto {
    pub player_id: PlayerId,
    pub seat_index: u8,
    pub net_chips: Chips,
    pub is_winner: bool,
    pub rank: Option<HandRank>,
}

/// A tournament, as the lobby shows it.
#[derive(Clone, Debug, PartialEq, Eq)]
pub struct TournamentViewDto {
    pub tournament_id: TournamentId,
    pub name: String,
    /// The status in words: "Registering", "Running", "Finished", ...
    pub status: String,
    pub current_level: u32,
    pub players_registered: u32,
    pub tables_running: u32,
}

/// The answer to a command.
#[derive(Clone, Debug, PartialEq, Eq)]
pub enum CommandResponse {
    /// Done; nothing to report.
    Done,
    TableState(TableViewDto),
    HandFinished { table: TableViewDto, history: Option<HandHistoryItemDto> },
    TableCreated(TableViewDto),
    TournamentState(TournamentViewDto),
}

/// The seat at which a table view shows a player: the seat of the last
/// entry among the first `n` that names the player, or 255 where none
/// does.
pub open spec fn shown_seat(players: Seq<PlayerAtTableDto>, player_id: PlayerId, n: int) -> u8
    decreases n,
{
    if n <= 0 {
        255
    } else if players[n - 1].player_id == player_id {
        players[n - 1].seat_index
    } else {
        shown_seat(players, player_id, n - 1)
    }
}

/// The result of a player as the API shows it.
pub open spec fn result_shown(players: Seq<PlayerAtTableDto>, result: PlayerHandResult)
    -> HandPlayerResultDto {
    HandPlayerResultDto {
        player_id: result.player_id,
        seat_index: shown_seat(players, result.player_id, players.len() as int),
        net_chips: result.net_chips,
        is_winner: result.is_winner,
        rank: result.rank,
    }
}

/// Finds the seat at which a table view shows a player.
fn find_seat(players: &Vec<PlayerAtTableDto>, player_id: PlayerId) -> (seat: u8)
    ensures
        seat == shown_seat(players@, player_id, players@.len() as int),
{
    let mut i: usize = players.len();
    while i > 0
        invariant
            i <= players@.len(),
            shown_seat(players@, player_id, players@.len() as int) == shown_seat(
                players@,
                player_id,
                i as int,
            ),
        decreases i,
    {
        i -= 1;
        if players[i].player_id == player_id {
            return players[i].seat_index;
        }
    }
    255
}

/// Turns the status of a hand into the answer to the command. While the
/// hand goes on, the answer is the table; once it is over, the answer is
/// the table and the hand for the history, with the seat of each player
/// taken from the table view.
pub fn map_hand_status_to_response(status: HandStatus, table_dto: TableViewDto) -> (r:
    CommandResponse)
    ensures
        status is Ongoing ==> r == CommandResponse::TableState(table_dto),
        status matches HandStatus::Finished(summary, _) ==> r matches CommandResponse::HandFinished {
            table,
            history: Some(item),
        } && {
            &&& table == table_dto
            &&& item.hand_id == summary.hand_id
            &&& item.street_reached == summary.street_reached
            &&& item.board == summary.board
            &&& item.total_pot == summary.total_pot
            &&& item.players@.len() == summary.results@.len()
            &&& forall|i: int|
                0 <= i < item.players@.len() ==> item.players@[i] == result_shown(
                    table_dto.players@,
                    summary.results@[i],
                )
        },
{
    match status {
        HandStatus::Ongoing => CommandResponse::TableState(table_dto),
        HandStatus::Finished(summary, _history) => {
            let mut players: Vec<HandPlayerResultDto> = Vec::new();
            let mut i: usize = 0;
            while i < summary.results.len()
                invariant
                    i <= summary.results@.len(),
                    players@.len() == i,
                    forall|j: int|
                        0 <= j < i ==> players@[j] == result_shown(
                            table_dto.players@,
                            summary.results@[j],
                        ),
                decreases summary.results@.len() - i,
            {
                let result = summary.results[i];
                players.push(
                    HandPlayerResultDto {
                        player_id: result.player_id,
                        seat_index: find_seat(&table_dto.players, result.player_id),
                        net_chips: result.net_chips,
                        is_winner: result.is_winner,
                        rank: result.rank,
                    },
                );
                i += 1;
            }
            let item = HandHistoryItemDto {
                hand_id: summary.hand_id,
                street_reached: summary.street_reached,
                board: summary.board,
                total_pot: summary.total_pot,
                players,
            };
            CommandResponse::HandFinished { table: table_dto, history: Some(item) }
        },
    }
}

} // verus!
