//! The tables of a tournament, built from its seating.

use crate::domain::blinds::{BlindLevel, BlindStructure};
use crate::domain::chips::Chips;
use crate::domain::player::{PlayerAtTable, PlayerStatus, PlayerView};
use crate::domain::table::{Table, TableConfig, TableStakes, TableType};
use crate::domain::tournament;
use crate::domain::tournament::{PlayerRegistration, Tournament};
use crate::domain::{PlayerId, TableId, TournamentId};
use crate::text::decimal;
use vstd::prelude::*;
use vstd::string::StringExecFns;

verus! {

/// A player's seat at a table of a tournament.
#[derive(Clone, Copy, Debug, PartialEq, Eq, Structural)]
pub struct TournamentTableSeat {
    pub player_id: PlayerId,
    pub seat_index: u8,
    pub stack: Chips,
}

/// A table of a tournament, ready for the engine.
#[derive(Debug)]
pub struct TournamentTableInstance {
    pub tournament_id: TournamentId,
    pub table: Table,
    pub seats: Vec<TournamentTableSeat>,
}

/// Builds the tables of tournaments.
#[derive(Clone, Copy, Debug)]
pub struct TournamentRuntime;

/// The configuration of a tournament's tables at a blind level.
pub open spec fn table_config_at(level: BlindLevel, table_size: u8) -> TableConfig {
    TableConfig {
        max_seats: table_size,
        table_type: TableType::Tournament,
        stakes: TableStakes {
            small_blind: level.small_blind,
            big_blind: level.big_blind,
            ante_type: level.ante_type,
            ante: level.ante,
        },
        allow_straddle: false,
        allow_run_it_twice: false,
    }
}

/// The name of a table of a tournament.
pub open spec fn table_name(tournament_id: TournamentId, table_id: TableId) -> Seq<char> {
    "T#"@ + crate::text::decimal_digits(tournament_id) + " Table "@ + crate::text::decimal_digits(
        table_id,
    )
}

/// The seats of the players of a table: the `j`-th player sits at seat
/// `j` with the chips of the registration.
pub open spec fn seats_of(regs: Map<PlayerId, PlayerRegistration>, players: Seq<PlayerId>) -> Seq<
    TournamentTableSeat,
> {
    Seq::new(
        players.len(),
        |j: int|
            TournamentTableSeat {
                player_id: players[j],
                seat_index: j as u8,
                stack: regs[players[j]].total_chips,
            },
    )
}

/// What a seat of a tournament table holds: the `j`-th player, freshly
/// seated, as far as there are players.
pub open spec fn seat_of(regs: Map<PlayerId, PlayerRegistration>, players: Seq<PlayerId>, j: int)
    -> Option<PlayerView> {
    if j < players.len() {
        Some(
            PlayerView {
                player_id: players[j],
                stack: regs[players[j]].total_chips,
                current_bet: Chips(0),
                status: PlayerStatus::Active,
                hole_cards: Seq::empty(),
            },
        )
    } else {
        None
    }
}

/// The instance is the table that the plan gives these players.
pub open spec fn is_table_of(
    instance: TournamentTableInstance,
    t: Tournament,
    level: BlindLevel,
    entry: (TableId, Seq<PlayerId>),
) -> bool {
    &&& instance.tournament_id == t.id
    &&& instance.table.wf()
    &&& instance.table.id == entry.0
    &&& instance.table.name@ == table_name(t.id, entry.0)
    &&& instance.table.config == table_config_at(level, t.config.table_size)
    &&& instance.table.board@.len() == 0
    &&& instance.table.dealer_button is None
    &&& !instance.table.hand_in_progress
    &&& instance.seats@ == seats_of(t.registrations@, entry.1)
    &&& forall|j: int|
        0 <= j < instance.table.seats@.len() ==> (#[trigger] instance.table.seating()[j])
            == seat_of(t.registrations@, entry.1, j)
}

impl TournamentRuntime {
    /// Builds the tables of a tournament: the players who are still in
    /// are taken in rising order of their identifiers and seated table by
    /// table, from seat 0 up, with the blinds of the current level. A
    /// table that is smaller than two seats holds as many as it has.
    pub fn build_tables_for_tournament(tournament: &Tournament, next_table_id: TableId) -> (tables:
        Vec<TournamentTableInstance>)
        requires
            BlindStructure::find(tournament.config.blind_structure@, tournament.current_level)
                is Some,
            next_table_id + tournament.active_count() <= u64::MAX,
        ensures
            ({
                let plan = tournament::seating_plan(
                    tournament::active_ids(tournament.registrations@),
                    tournament::seating_size(tournament.config.table_size),
                    next_table_id,
                );
                let level = BlindStructure::find(
                    tournament.config.blind_structure@,
                    tournament.current_level,
                ).unwrap();
                &&& tables@.len() == plan.len()
                &&& forall|k: int|
                    0 <= k < tables@.len() ==> is_table_of(
                        #[trigger] tables@[k],
                        *tournament,
                        level,
                        plan[k],
                    )
            }),
    {
        broadcast use vstd::std_specs::hash::group_hash_axioms;

        let level = *tournament.current_blind_level();
        let ids = tournament.active_player_ids();
        let size: usize = if tournament.config.table_size < 2 {
            2
        } else {
            tournament.config.table_size as usize
        };
        let n = ids.len();
        let ghost regs = tournament.registrations@;
        let ghost plan = tournament::seating_plan(ids@, size as int, next_table_id);
        let mut tables: Vec<TournamentTableInstance> = Vec::new();
        let mut i: usize = 0;
        let mut k: usize = 0;
        proof {
            if n == 0 {
                assert((0 + size - 1) / (size as int) == 0) by (nonlinear_arith)
                    requires
                        size >= 2,
                ;
            }
        }
        while i < n
            invariant
                n == ids@.len(),
                2 <= size <= 255,
                size == tournament::seating_size(tournament.config.table_size),
                Some(level) == BlindStructure::find(
                    tournament.config.blind_structure@,
                    tournament.current_level,
                ),
                ids@ == tournament::active_ids(regs),
                forall|id: PlayerId| ids@.contains(id) <==> tournament::is_active(regs)(id),
                regs == tournament.registrations@,
                next_table_id + n <= u64::MAX,
                i <= n,
                k <= i,
                i == k * size,
                plan == tournament::seating_plan(ids@, size as int, next_table_id),
                k <= plan.len(),
                tables@.len() == k,
                forall|j: int|
                    0 <= j < k ==> is_table_of(#[trigger] tables@[j], *tournament, level, plan[j]),
                (i == n ==> plan.len() == k),
            decreases n - i,
        {
            let table_id: TableId = next_table_id + k as u64;
            let end: usize = if n - i < size {
                n
            } else {
                i + size
            };
            proof {
                assert((k + 1) * size == k * size + size) by (nonlinear_arith);
                assert(k < plan.len()) by {
                    assert((n + size - 1) / (size as int) > k) by (nonlinear_arith)
                        requires
                            k * size < n,
                            size >= 2,
                    ;
                }
                assert(plan[k as int] == (table_id, ids@.subrange(i as int, end as int)));
            }
            let ghost players = ids@.subrange(i as int, end as int);
            let config = TableConfig {
                max_seats: tournament.config.table_size,
                table_type: TableType::Tournament,
                stakes: TableStakes::new(
                    level.small_blind,
                    level.big_blind,
                    level.ante_type,
                    level.ante,
                ),
                allow_straddle: false,
                allow_run_it_twice: false,
            };
            let mut name = String::from_str("T#");
            let tid = decimal(tournament.id);
            name.append(tid.as_str());
            name.append(" Table ");
            let tab = decimal(table_id);
            name.append(tab.as_str());
            let mut table = Table::new(table_id, name, config);
            let mut seats: Vec<TournamentTableSeat> = Vec::new();
            let mut j: usize = 0;
            while i + j < end
                invariant
                    i + j <= end,
                    end <= n,
                    end - i <= size,
                    n == ids@.len(),
                    size <= 255,
                    regs == tournament.registrations@,
                    forall|id: PlayerId| ids@.contains(id) <==> tournament::is_active(regs)(id),
                    players == ids@.subrange(i as int, end as int),
                    table.wf(),
                    table.id == table_id,
                    table.name@ == table_name(tournament.id, table_id),
                    table.config == config,
                    table.board@.len() == 0,
                    table.dealer_button is None,
                    !table.hand_in_progress,
                    seats@ == seats_of(regs, players.take(j as int)),
                    forall|s: int|
                        0 <= s < table.seats@.len() ==> (#[trigger] table.seating()[s]) == seat_of(
                            regs,
                            players.take(j as int),
                            s,
                        ),
                decreases end - i - j,
            {
                let id = ids[i + j];
                assert(ids@.contains(ids@[i + j]));
                assert(players[j as int] == id);
                let stack = match tournament.registrations.get(&id) {
                    Some(reg) => reg.total_chips,
                    None => {
                        assert(false);
                        Chips(0)
                    },
                };
                let ghost before = table.seating();
                if j < table.seats.len() {
                    table.seats.set(j, Some(PlayerAtTable::new(id, stack)));
                }
                seats.push(TournamentTableSeat { player_id: id, seat_index: j as u8, stack });
                proof {
                    let now = players.take(j + 1);
                    assert(now =~= players.take(j as int).push(id));
                    assert(seats@ =~= seats_of(regs, now));
                    assert forall|s: int| 0 <= s < table.seats@.len() implies (
                    #[trigger] table.seating()[s]) == seat_of(regs, now, s) by {
                        if s != j {
                            assert(table.seating()[s] == before[s]);
                        }
                    }
                }
                j += 1;
            }
            proof {
                assert(players.take(j as int) =~= players);
            }
            let ghost built = tables@;
            let instance = TournamentTableInstance { tournament_id: tournament.id, table, seats };
            assert(is_table_of(instance, *tournament, level, plan[k as int]));
            tables.push(instance);
            proof {
                assert forall|j: int| 0 <= j < k + 1 implies is_table_of(
                    #[trigger] tables@[j],
                    *tournament,
                    level,
                    plan[j],
                ) by {
                    if j < k {
                        assert(tables@[j] == built[j]);
                    }
                }
                if end == n {
                    assert(plan.len() == k + 1) by {
                        assert((n + size - 1) / (size as int) == k + 1) by (nonlinear_arith)
                            requires
                                k * size < n,
                                n <= k * size + size,
                                size >= 2,
                        ;
                    }
                }
            }
            if end == n {
                return tables;
            }
            i = end;
            k += 1;
        }
        tables
    }
}

} // verus!
