//! The mapping between the domain and the views of the API.

use crate::api::commands::AnteTypeApi;
use crate::api::dto::{PlayerAtTableDto, TableViewDto};
use crate::api::queries;
use crate::domain::blinds::AnteType;
use crate::domain::card::Card;
use crate::domain::table::Table;
use crate::domain::PlayerId;
use crate::engine::game_loop::HandEngine;
use crate::engine::positions;
use crate::engine::positions::{collect_seats_from, seat_meets, SeatTest};
use crate::text::decimal;
use vstd::prelude::*;
use vstd::string::StringExecFns;

verus! {

/// The ante type of the domain for the ante type of the API.
pub fn ante_type_from_api(api: AnteTypeApi) -> (domain: AnteType)
    ensures
        domain == match api {
            AnteTypeApi::NoAnte => AnteType::NoAnte,
            AnteTypeApi::Classic => AnteType::Classic,
            AnteTypeApi::BigBlind => AnteType::BigBlind,
        },
{
    match api {
        AnteTypeApi::NoAnte => AnteType::NoAnte,
        AnteTypeApi::Classic => AnteType::Classic,
        AnteTypeApi::BigBlind => AnteType::BigBlind,
    }
}

/// The ante type of the API for the ante type of the domain.
pub fn ante_type_to_api(domain: AnteType) -> (api: AnteTypeApi)
    ensures
        api == match domain {
            AnteType::NoAnte => AnteTypeApi::NoAnte,
            AnteType::Classic => AnteTypeApi::Classic,
            AnteType::BigBlind => AnteTypeApi::BigBlind,
        },
{
    match domain {
        AnteType::NoAnte => AnteTypeApi::NoAnte,
        AnteType::Classic => AnteTypeApi::Classic,
        AnteType::BigBlind => AnteTypeApi::BigBlind,
    }
}

/// Says how a player is called.
pub trait PlayerNameResolver {
    /// The name under which a player is shown.
    spec fn name_of(&self, player_id: PlayerId) -> Seq<char>;

    fn resolve_name(&self, player_id: PlayerId) -> (name: String)
        ensures
            name@ == self.name_of(player_id),
    ;
}

/// Calls every player "Player" and the player's number.
#[derive(Clone, Copy, Debug)]
pub struct DefaultNameResolver;

impl PlayerNameResolver for DefaultNameResolver {
    open spec fn name_of(&self, player_id: PlayerId) -> Seq<char> {
        "Player "@ + crate::text::decimal_digits(player_id)
    }

    fn resolve_name(&self, player_id: PlayerId) -> (name: String) {
        let mut name = String::from_str("Player ");
        let digits = decimal(player_id);
        name.append(digits.as_str());
        name
    }
}

/// The view shows the player at the `k`-th taken seat of the table, with
/// the name that the resolver gives and the cards where `is_hero` said so.
pub open spec fn shows_seat<R: PlayerNameResolver, G: Fn(PlayerId) -> bool>(
    dto: PlayerAtTableDto,
    table: Table,
    k: int,
    name_resolver: &R,
    is_hero: G,
) -> bool {
    let seat = queries::taken_seats(table)[k];
    let player = table.seating()[seat as int].unwrap();
    &&& dto.display_name@ == name_resolver.name_of(player.player_id)
    &&& exists|show: bool|
        call_ensures(is_hero, (player.player_id,), show) && queries::shows_player(
            dto,
            seat,
            player,
            show,
        )
}

/// Builds the view of a table. The names come from the resolver; the hole
/// cards of a player are shown exactly where `is_hero` says so.
pub fn map_table_to_dto<R: PlayerNameResolver, G: Fn(PlayerId) -> bool>(
    table: &Table,
    engine: Option<&HandEngine>,
    name_resolver: &R,
    is_hero: G,
) -> (dto: TableViewDto)
    requires
        table.wf(),
        forall|id: PlayerId| call_requires(is_hero, (id,)),
    ensures
        queries::shows_table(dto, *table, engine),
        dto.players@.len() == queries::taken_seats(*table).len(),
        forall|k: int|
            0 <= k < dto.players@.len() ==> shows_seat(
                #[trigger] dto.players@[k],
                *table,
                k,
                name_resolver,
                is_hero,
            ),
{
    let seats = collect_seats_from(table, 0, SeatTest::Taken);
    proof {
        positions::seats_from_facts(table.seating(), 0, SeatTest::Taken);
    }
    let mut players: Vec<PlayerAtTableDto> = Vec::new();
    let mut k: usize = 0;
    while k < seats.len()
        invariant
            k <= seats@.len(),
            seats@ == queries::taken_seats(*table),
            forall|id: PlayerId| call_requires(is_hero, (id,)),
            forall|i: int|
                0 <= i < seats@.len() ==> positions::seat_passes(
                    table.seating(),
                    SeatTest::Taken,
                    #[trigger] seats@[i] as int,
                ),
            players@.len() == k,
            forall|j: int|
                0 <= j < k ==> shows_seat(#[trigger] players@[j], *table, j, name_resolver, is_hero),
        decreases seats@.len() - k,
    {
        let seat = seats[k];
        assert(positions::seat_passes(table.seating(), SeatTest::Taken, seats@[k as int] as int));
        match &table.seats[seat as usize] {
            Some(p) => {
                let show = is_hero(p.player_id);
                let hole_cards: Option<Vec<Card>> = if show {
                    Some(p.hole_cards.clone())
                } else {
                    None
                };
                let dto = PlayerAtTableDto {
                    player_id: p.player_id,
                    display_name: name_resolver.resolve_name(p.player_id),
                    seat_index: seat,
                    stack: p.stack,
                    current_bet: p.current_bet,
                    status: p.status,
                    hole_cards,
                };
                assert(queries::shows_player(dto, seat, p@, show));
                assert(shows_seat(dto, *table, k as int, name_resolver, is_hero));
                players.push(dto);
            },
            None => {
                assert(false);
            },
        }
        k += 1;
    }
    let current_actor_seat = match engine {
        Some(e) => e.current_actor,
        None => None,
    };
    TableViewDto {
        table_id: table.id,
        name: table.name.clone(),
        max_seats: table.config.max_seats,
        small_blind: table.config.stakes.small_blind,
        big_blind: table.config.stakes.big_blind,
        ante: table.config.stakes.ante,
        street: table.street,
        dealer_button: table.dealer_button,
        total_pot: table.total_pot,
        board: table.board.clone(),
        players,
        hand_in_progress: table.hand_in_progress,
        current_actor_seat,
    }
}

/// Whether a seat holds a player who still contests the pot. A seat that
/// the table does not have holds nobody.
pub fn is_seat_active(table: &Table, seat_index: usize) -> (b: bool)
    ensures
        b == positions::seat_passes(table.seating(), SeatTest::InHand, seat_index as int),
{
    seat_meets(table, seat_index, SeatTest::InHand)
}

} // verus!
