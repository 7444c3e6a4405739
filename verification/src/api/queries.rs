//! The queries: everything that only reads.

use crate::api::dto::{PlayerAtTableDto, TableViewDto, TournamentViewDto};
use crate::domain::card::Card;
use crate::domain::player::PlayerView;
use crate::domain::table::Table;
use crate::domain::{PlayerId, TableId, TournamentId};
use crate::engine::game_loop::HandEngine;
use crate::engine::positions;
use crate::engine::positions::{collect_seats_from, SeatTest};
use vstd::prelude::*;

verus! {

/// A query.
#[derive(Clone, Copy, Debug, PartialEq, Eq, Structural)]
pub enum Query {
    GetTable { table_id: TableId },
    ListTables,
    GetTournament { tournament_id: TournamentId },
}

/// The answer to a query.
#[derive(Clone, Debug, PartialEq, Eq)]
pub enum QueryResponse {
    Table(TableViewDto),
    Tables(Vec<TableViewDto>),
    TournamentInfo(TournamentViewDto),
}

/// The view shows a player as the player sits at `seat`: the cards only
/// where they are shown.
pub open spec fn shows_player(
    dto: PlayerAtTableDto,
    seat: u8,
    player: PlayerView,
    show_cards: bool,
) -> bool {
    &&& dto.player_id == player.player_id
    &&& dto.seat_index == seat
    &&& dto.stack == player.stack
    &&& dto.current_bet == player.current_bet
    &&& dto.status == player.status
    &&& match dto.hole_cards {
        Some(cards) => show_cards && cards@ == player.hole_cards,
        None => !show_cards,
    }
}

/// The view shows the table: all its public fields, the seat whose turn
/// it is where an engine is given, and the players as listed.
pub open spec fn shows_table(
    dto: TableViewDto,
    table: Table,
    engine: Option<&HandEngine>,
) -> bool {
    &&& dto.table_id == table.id
    &&& dto.name@ == table.name@
    &&& dto.max_seats == table.config.max_seats
    &&& dto.small_blind == table.config.stakes.small_blind
    &&& dto.big_blind == table.config.stakes.big_blind
    &&& dto.ante == table.config.stakes.ante
    &&& dto.street == table.street
    &&& dto.dealer_button == table.dealer_button
    &&& dto.total_pot == table.total_pot
    &&& dto.board@ == table.board@
    &&& dto.hand_in_progress == table.hand_in_progress
    &&& dto.current_actor_seat == match engine {
        Some(e) => e.current_actor,
        None => None,
    }
}

/// The view shows the player at the `k`-th taken seat of the table, with
/// the name that `resolve_name` gave and the cards where `is_hero` said
/// so.
pub open spec fn shows_seat<F: Fn(PlayerId) -> String, G: Fn(PlayerId) -> bool>(
    dto: PlayerAtTableDto,
    table: Table,
    k: int,
    resolve_name: F,
    is_hero: G,
) -> bool {
    let seat = taken_seats(table)[k];
    let player = table.seating()[seat as int].unwrap();
    &&& call_ensures(resolve_name, (player.player_id,), dto.display_name)
    &&& exists|show: bool|
        call_ensures(is_hero, (player.player_id,), show) && shows_player(dto, seat, player, show)
}

/// The taken seats of a table in rising order.
pub open spec fn taken_seats(table: Table) -> Seq<u8> {
    positions::seats_from(table.seating(), 0, SeatTest::Taken)
}

/// Builds the view of a table. The names come from `resolve_name`; the
/// hole cards of a player are shown exactly where `is_hero` says so.
pub fn build_table_view(
    table: &Table,
    engine: Option<&HandEngine>,
    resolve_name: impl Fn(PlayerId) -> String,
    is_hero: impl Fn(PlayerId) -> bool,
) -> (dto: TableViewDto)
    requires
        table.wf(),
        forall|id: PlayerId| call_requires(resolve_name, (id,)),
        forall|id: PlayerId| call_requires(is_hero, (id,)),
    ensures
        shows_table(dto, *table, engine),
        dto.players@.len() == taken_seats(*table).len(),
        forall|k: int|
            0 <= k < dto.players@.len() ==> shows_seat(
                #[trigger] dto.players@[k],
                *table,
                k,
                resolve_name,
                is_hero,
            ),
{
    let players = build_players_dto(table, &resolve_name, &is_hero);
    let current_actor_seat = match engine {
        Some(e) => e.current_actor,
        None => None,
    };
    TableViewDto {
        table_id: table.id,
        name: table.name.clone(),
        max_seats: table.config.max_seats,
        small_blind: table.config.stakes.small_blind,
        big_blind: table.config.stakes.big_blind,
        ante: table.config.stakes.ante,
        street: table.street,
        dealer_button: table.dealer_button,
        total_pot: table.total_pot,
        board: table.board.clone(),
        players,
        hand_in_progress: table.hand_in_progress,
        current_actor_seat,
    }
}

/// Builds the views of the players of a table, in rising order of their
/// seats.
pub fn build_players_dto(
    table: &Table,
    resolve_name: &impl Fn(PlayerId) -> String,
    is_hero: &impl Fn(PlayerId) -> bool,
) -> (players: Vec<PlayerAtTableDto>)
    requires
        table.wf(),
        forall|id: PlayerId| call_requires(*resolve_name, (id,)),
        forall|id: PlayerId| call_requires(*is_hero, (id,)),
    ensures
        players@.len() == taken_seats(*table).len(),
        forall|k: int|
            0 <= k < players@.len() ==> shows_seat(
                #[trigger] players@[k],
                *table,
                k,
                *resolve_name,
                *is_hero,
            ),
{
    let seats = collect_seats_from(table, 0, SeatTest::Taken);
    proof {
        positions::seats_from_facts(table.seating(), 0, SeatTest::Taken);
    }
    let mut players: Vec<PlayerAtTableDto> = Vec::new();
    let mut k: usize = 0;
    while k < seats.len()
        invariant
            k <= seats@.len(),
            seats@ == taken_seats(*table),
            forall|id: PlayerId| call_requires(*resolve_name, (id,)),
            forall|id: PlayerId| call_requires(*is_hero, (id,)),
            forall|i: int|
                0 <= i < seats@.len() ==> positions::seat_passes(
                    table.seating(),
                    SeatTest::Taken,
                    #[trigger] seats@[i] as int,
                ),
            players@.len() == k,
            forall|j: int|
                0 <= j < k ==> shows_seat(
                    #[trigger] players@[j],
                    *table,
                    j,
                    *resolve_name,
                    *is_hero,
                ),
        decreases seats@.len() - k,
    {
        let seat = seats[k];
        assert(positions::seat_passes(table.seating(), SeatTest::Taken, seats@[k as int] as int));
        match &table.seats[seat as usize] {
            Some(p) => {
                let show = is_hero(p.player_id);
                let hole_cards: Option<Vec<Card>> = if show {
                    Some(p.hole_cards.clone())
                } else {
                    None
                };
                let dto = PlayerAtTableDto {
                    player_id: p.player_id,
                    display_name: resolve_name(p.player_id),
                    seat_index: seat,
                    stack: p.stack,
                    current_bet: p.current_bet,
                    status: p.status,
                    hole_cards,
                };
                assert(shows_player(dto, seat, p@, show));
                assert(shows_seat(dto, *table, k as int, *resolve_name, *is_hero));
                players.push(dto);
            },
            None => {
                assert(false);
            },
        }
        k += 1;
    }
    players
}

} // verus!
