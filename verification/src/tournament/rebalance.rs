//! Balancing the tables of a tournament: moving players from the fullest
//! table to the emptiest until the tables differ by no more than allowed.

use crate::domain::{PlayerId, TableId};
use crate::sorting;
use crate::sorting::{dedup_sorted, sort_ids, sorted_keys};
use std::collections::HashMap;
use vstd::prelude::*;

pub use crate::domain::tournament::RebalanceMove;

verus! {

/// A table and the players who sit at it.
#[derive(Debug)]
pub struct TableOccupancy {
    pub table_id: TableId,
    pub players: Vec<PlayerId>,
}

impl Clone for TableOccupancy {
    fn clone(&self) -> (t: TableOccupancy)
        ensures
            t.table_id == self.table_id,
            t.players@ == self.players@,
    {
        TableOccupancy { table_id: self.table_id, players: self.players.clone() }
    }
}

/// A plan to balance the tables: the moves in order, and who sits where
/// once they are made.
#[derive(Debug)]
pub struct RebalancePlan {
    pub moves: Vec<RebalanceMove>,
    pub final_distribution: HashMap<TableId, Vec<PlayerId>>,
}

/// Tables with their players, as mathematical values.
pub type Seating = Seq<(TableId, Seq<PlayerId>)>;

/// A list of tables as mathematical values.
pub open spec fn seating_of(tables: Seq<TableOccupancy>) -> Seating {
    Seq::new(tables.len(), |i: int| (tables[i].table_id, tables[i].players@))
}

/// The index of the fullest of the first `n` tables; of several, the
/// first.
pub open spec fn fullest(d: Seating, n: int) -> int
    decreases n,
{
    if n <= 1 {
        0
    } else {
        let f = fullest(d, n - 1);
        if d[n - 1].1.len() > d[f].1.len() {
            n - 1
        } else {
            f
        }
    }
}

/// The index of the emptiest of the first `n` tables; of several, the
/// first.
pub open spec fn emptiest(d: Seating, n: int) -> int
    decreases n,
{
    if n <= 1 {
        0
    } else {
        let e = emptiest(d, n - 1);
        if d[n - 1].1.len() < d[e].1.len() {
            n - 1
        } else {
            e
        }
    }
}

/// The fullest table has more players than the emptiest by more than the
/// allowed difference. With an allowed difference of zero nothing is ever
/// moved.
pub open spec fn needs_move(d: Seating, max_diff: u8) -> bool {
    &&& d.len() > 0
    &&& max_diff > 0
    &&& d[fullest(d, d.len() as int)].1.len() - d[emptiest(d, d.len() as int)].1.len() > max_diff
}

/// The move that is made next: the last player of the fullest table goes
/// to the emptiest.
pub open spec fn next_move(d: Seating) -> RebalanceMove {
    let hi = fullest(d, d.len() as int);
    let lo = emptiest(d, d.len() as int);
    RebalanceMove { player_id: d[hi].1.last(), from_table: d[hi].0, to_table: d[lo].0 }
}

/// The tables after the next move.
pub open spec fn after_move(d: Seating) -> Seating {
    let hi = fullest(d, d.len() as int);
    let lo = emptiest(d, d.len() as int);
    let p = d[hi].1.last();
    d.update(hi, (d[hi].0, d[hi].1.drop_last())).update(lo, (d[lo].0, d[lo].1.push(p)))
}

/// The moves that balance the tables, at most `fuel` of them.
pub open spec fn moves_to_balance(d: Seating, max_diff: u8, fuel: nat) -> Seq<RebalanceMove>
    decreases fuel,
{
    if fuel == 0 || !needs_move(d, max_diff) {
        Seq::empty()
    } else {
        seq![next_move(d)] + moves_to_balance(after_move(d), max_diff, (fuel - 1) as nat)
    }
}

/// The tables after the moves that balance them, at most `fuel` moves.
pub open spec fn balanced_from(d: Seating, max_diff: u8, fuel: nat) -> Seating
    decreases fuel,
{
    if fuel == 0 || !needs_move(d, max_diff) {
        d
    } else {
        balanced_from(after_move(d), max_diff, (fuel - 1) as nat)
    }
}

/// The sum of the squares of the head counts of the first `n` tables. It
/// falls with every move, which is why the moves come to an end.
pub open spec fn energy(d: Seating, n: int) -> int
    decreases n,
{
    if n <= 0 {
        0
    } else {
        energy(d, n - 1) + d[n - 1].1.len() * d[n - 1].1.len()
    }
}

/// The moves that balance the tables.
pub open spec fn balancing_moves(d: Seating, max_diff: u8) -> Seq<RebalanceMove> {
    moves_to_balance(d, max_diff, energy(d, d.len() as int) as nat)
}

/// The tables once they are balanced.
pub open spec fn balanced_seating(d: Seating, max_diff: u8) -> Seating {
    balanced_from(d, max_diff, energy(d, d.len() as int) as nat)
}

/// The fullest and the emptiest table are tables, and no table has more
/// or fewer players than they.
pub proof fn extremes(d: Seating, n: int)
    requires
        1 <= n <= d.len(),
    ensures
        0 <= fullest(d, n) < n,
        0 <= emptiest(d, n) < n,
        forall|i: int| 0 <= i < n ==> (#[trigger] d[i]).1.len() <= d[fullest(d, n)].1.len(),
        forall|i: int| 0 <= i < n ==> (#[trigger] d[i]).1.len() >= d[emptiest(d, n)].1.len(),
    decreases n,
{
    if n > 1 {
        extremes(d, n - 1);
    }
}

/// The energy is never negative.
pub proof fn energy_nonneg(d: Seating, n: int)
    ensures
        energy(d, n) >= 0,
    decreases n,
{
    if n > 0 {
        energy_nonneg(d, n - 1);
        assert(d[n - 1].1.len() * d[n - 1].1.len() >= 0) by (nonlinear_arith);
    }
}

/// Changing the players of one table changes the energy by the change of
/// that table's square.
pub proof fn energy_after_update(d: Seating, i: int, entry: (TableId, Seq<PlayerId>), n: int)
    requires
        0 <= i < d.len(),
        0 <= n <= d.len(),
    ensures
        energy(d.update(i, entry), n) == energy(d, n) + if i < n {
            entry.1.len() * entry.1.len() - d[i].1.len() * d[i].1.len()
        } else {
            0
        },
    decreases n,
{
    if n > 0 {
        energy_after_update(d, i, entry, n - 1);
    }
}

/// A move lowers the energy by two at least.
pub proof fn move_lowers_energy(d: Seating, max_diff: u8)
    requires
        needs_move(d, max_diff),
    ensures
        after_move(d).len() == d.len(),
        energy(after_move(d), d.len() as int) <= energy(d, d.len() as int) - 2,
        energy(d, d.len() as int) >= 2,
{
    let n = d.len() as int;
    extremes(d, n);
    let hi = fullest(d, n);
    let lo = emptiest(d, n);
    let a = d[hi].1.len() as int;
    let b = d[lo].1.len() as int;
    let p = d[hi].1.last();
    let first = d.update(hi, (d[hi].0, d[hi].1.drop_last()));
    energy_after_update(d, hi, (d[hi].0, d[hi].1.drop_last()), n);
    energy_after_update(first, lo, (d[lo].0, d[lo].1.push(p)), n);
    assert(first[lo] == d[lo]);
    assert((a - 1) * (a - 1) - a * a + (b + 1) * (b + 1) - b * b == 2 * (b - a) + 2)
        by (nonlinear_arith);
    energy_nonneg(after_move(d), n);
}

/// Whether the tables differ by no more than allowed.
pub open spec fn spread_within(d: Seating, max_diff: u8) -> bool {
    d.len() <= 1 || d[fullest(d, d.len() as int)].1.len() - d[emptiest(
        d,
        d.len() as int,
    )].1.len() <= max_diff
}

/// Finds the fullest and the emptiest table.
fn find_extremes(tables: &Vec<TableOccupancy>) -> (r: (usize, usize))
    requires
        tables@.len() > 0,
    ensures
        r.0 == fullest(seating_of(tables@), tables@.len() as int),
        r.1 == emptiest(seating_of(tables@), tables@.len() as int),
        r.0 < tables@.len(),
        r.1 < tables@.len(),
{
    let ghost d = seating_of(tables@);
    let mut hi: usize = 0;
    let mut lo: usize = 0;
    let mut i: usize = 1;
    while i < tables.len()
        invariant
            1 <= i <= tables@.len(),
            d == seating_of(tables@),
            hi == fullest(d, i as int),
            lo == emptiest(d, i as int),
            hi < i,
            lo < i,
        decreases tables@.len() - i,
    {
        if tables[i].players.len() > tables[hi].players.len() {
            hi = i;
        }
        if tables[i].players.len() < tables[lo].players.len() {
            lo = i;
        }
        i += 1;
    }
    (hi, lo)
}

/// Balances the tables in place and returns the moves it made, in order.
/// Each move takes the last player of the fullest table to the emptiest;
/// of several tables as full or as empty, the first in the list counts.
/// Afterwards the tables differ by no more than `max_seat_diff`, unless
/// that is zero: then nothing is moved.
pub fn rebalance_tables(tables: &mut Vec<TableOccupancy>, max_seat_diff: u8) -> (moves: Vec<
    RebalanceMove,
>)
    ensures
        moves@ == balancing_moves(seating_of(old(tables)@), max_seat_diff),
        seating_of(final(tables)@) == balanced_seating(seating_of(old(tables)@), max_seat_diff),
        !needs_move(seating_of(final(tables)@), max_seat_diff),
        final(tables)@.len() == old(tables)@.len(),
        forall|i: int|
            0 <= i < old(tables)@.len() ==> (#[trigger] final(tables)@[i]).table_id
                == old(tables)@[i].table_id,
{
    let mut moves: Vec<RebalanceMove> = Vec::new();
    let ghost start = seating_of(tables@);
    let ghost mut fuel: nat = energy(start, start.len() as int) as nat;
    proof {
        energy_nonneg(start, start.len() as int);
    }
    if tables.len() == 0 || max_seat_diff == 0 {
        return moves;
    }
    loop
        invariant
            tables@.len() == old(tables)@.len(),
            tables@.len() > 0,
            max_seat_diff > 0,
            forall|i: int|
                0 <= i < tables@.len() ==> (#[trigger] tables@[i]).table_id == old(tables)@[i].table_id,
            start == seating_of(old(tables)@),
            fuel >= energy(seating_of(tables@), tables@.len() as int),
            balancing_moves(start, max_seat_diff) == moves@ + moves_to_balance(
                seating_of(tables@),
                max_seat_diff,
                fuel,
            ),
            balanced_seating(start, max_seat_diff) == balanced_from(
                seating_of(tables@),
                max_seat_diff,
                fuel,
            ),
        ensures
            moves@ == balancing_moves(start, max_seat_diff),
            seating_of(tables@) == balanced_seating(start, max_seat_diff),
            !needs_move(seating_of(tables@), max_seat_diff),
            tables@.len() == old(tables)@.len(),
            forall|i: int|
                0 <= i < tables@.len() ==> (#[trigger] tables@[i]).table_id == old(tables)@[i].table_id,
        decreases fuel,
    {
        let ghost d = seating_of(tables@);
        let (hi, lo) = find_extremes(tables);
        let most = tables[hi].players.len();
        let least = tables[lo].players.len();
        proof {
            extremes(d, d.len() as int);
        }
        if most - least <= max_seat_diff as usize {
            proof {
                assert(!needs_move(d, max_seat_diff));
                assert(moves@ + Seq::<RebalanceMove>::empty() =~= moves@);
            }
            break;
        }
        proof {
            assert(needs_move(d, max_seat_diff));
            move_lowers_energy(d, max_seat_diff);
        }
        let from_table = tables[hi].table_id;
        let to_table = tables[lo].table_id;
        let mut giver = tables[hi].clone();
        let player_id = giver.players.pop().unwrap();
        tables.set(hi, giver);
        let mut taker = tables[lo].clone();
        taker.players.push(player_id);
        tables.set(lo, taker);
        let ghost done = moves@;
        moves.push(RebalanceMove { player_id, from_table, to_table });
        proof {
            assert(seating_of(tables@) =~= after_move(d));
            assert(done + (seq![next_move(d)] + moves_to_balance(
                after_move(d),
                max_seat_diff,
                (fuel - 1) as nat,
            )) =~= moves@ + moves_to_balance(after_move(d), max_seat_diff, (fuel - 1) as nat));
            fuel = (fuel - 1) as nat;
        }
    }
    moves
}

/// The tables of a map in rising order of their identifiers, each with
/// its players as listed.
pub open spec fn listed(m: Map<TableId, Vec<PlayerId>>) -> Seating {
    let keys = sorting::rising_keys(m);
    Seq::new(keys.len(), |i: int| (keys[i], m[keys[i]]@))
}

/// The tables of a map in rising order of their identifiers, each with
/// its players in rising order and none of them twice.
pub open spec fn tidy(m: Map<TableId, Vec<PlayerId>>) -> Seating {
    let keys = sorting::rising_keys(m);
    Seq::new(keys.len(), |i: int| (keys[i], sorting::rising_of(m[keys[i]]@.to_set())))
}

/// A map holds exactly the tables of a seating, each with its players.
pub open spec fn holds_seating(m: Map<TableId, Vec<PlayerId>>, d: Seating) -> bool {
    &&& forall|k: TableId|
        m.contains_key(k) <==> exists|i: int| 0 <= i < d.len() && (#[trigger] d[i]).0 == k
    &&& forall|i: int| 0 <= i < d.len() ==> m[(#[trigger] d[i]).0]@ == d[i].1
}

/// The tables of a map as a list, in rising order of their identifiers.
/// With `tidy_players` the players of each table are sorted and named
/// once.
fn table_list(tables: &HashMap<TableId, Vec<PlayerId>>, tidy_players: bool) -> (list: Vec<
    TableOccupancy,
>)
    ensures
        seating_of(list@) == if tidy_players {
            tidy(tables@)
        } else {
            listed(tables@)
        },
        list@.len() == tables@.dom().len(),
        forall|i: int|
            0 <= i < list@.len() ==> (#[trigger] list@[i]).table_id == sorting::rising_keys(
                tables@,
            )[i],
{
    broadcast use vstd::std_specs::hash::group_hash_axioms;

    let keys = sorted_keys(tables);
    let mut list: Vec<TableOccupancy> = Vec::new();
    let mut i: usize = 0;
    while i < keys.len()
        invariant
            i <= keys@.len(),
            keys@ == sorting::rising_keys(tables@),
            forall|k: u64| keys@.contains(k) == tables@.contains_key(k),
            list@.len() == i,
            forall|j: int|
                0 <= j < i ==> (#[trigger] list@[j]).table_id == keys@[j] && list@[j].players@
                    == if tidy_players {
                    sorting::rising_of(tables@[keys@[j]]@.to_set())
                } else {
                    tables@[keys@[j]]@
                },
        decreases keys@.len() - i,
    {
        let table_id = keys[i];
        assert(keys@.contains(keys@[i as int]));
        let players = match tables.get(&table_id) {
            Some(p) => p.clone(),
            None => {
                assert(false);
                Vec::new()
            },
        };
        assert(players@ =~= tables@[table_id]@);
        let players = if tidy_players {
            dedup_sorted(sort_ids(players))
        } else {
            players
        };
        list.push(TableOccupancy { table_id, players });
        i += 1;
    }
    proof {
        if tidy_players {
            assert(seating_of(list@) =~= tidy(tables@));
        } else {
            assert(seating_of(list@) =~= listed(tables@));
        }
    }
    list
}

/// Whether the tables differ by no more than `max_seat_diff` players. A
/// single table, or none, is always in balance.
pub fn is_balanced(tables: &HashMap<TableId, Vec<PlayerId>>, max_seat_diff: u8) -> (b: bool)
    ensures
        b == spread_within(listed(tables@), max_seat_diff),
{
    let list = table_list(tables, false);
    if list.len() <= 1 {
        return true;
    }
    let (hi, lo) = find_extremes(&list);
    proof {
        extremes(seating_of(list@), list@.len() as int);
    }
    list[hi].players.len() - list[lo].players.len() <= max_seat_diff as usize
}

/// Plans the moves that balance the tables.
///
/// With one table at most, or with an allowed difference of zero, nothing
/// moves and the plan ends where it began. Otherwise the tables are taken
/// in rising order of their identifiers, the players of each in rising
/// order and once; players then move from the fullest table to the
/// emptiest until the tables differ by no more than allowed.
pub fn compute_rebalance_plan(
    original_tables: &HashMap<TableId, Vec<PlayerId>>,
    max_seat_diff: u8,
) -> (plan: RebalancePlan)
    ensures
        original_tables@.dom().len() <= 1 || max_seat_diff == 0 ==> plan.moves@.len() == 0
            && holds_seating(plan.final_distribution@, listed(original_tables@)),
        original_tables@.dom().len() > 1 && max_seat_diff > 0 ==> plan.moves@ == balancing_moves(
            tidy(original_tables@),
            max_seat_diff,
        ) && holds_seating(
            plan.final_distribution@,
            balanced_seating(tidy(original_tables@), max_seat_diff),
        ) && spread_within(
            balanced_seating(tidy(original_tables@), max_seat_diff),
            max_seat_diff,
        ),
{
    let keep = original_tables.len() <= 1 || max_seat_diff == 0;
    let mut list = table_list(original_tables, !keep);
    let ghost start = seating_of(list@);
    let moves = if keep {
        Vec::new()
    } else {
        rebalance_tables(&mut list, max_seat_diff)
    };
    let final_distribution = distribution_of(&list);
    proof {
        let keys = sorting::rising_keys(original_tables@);
        sorting::rising_of_facts(original_tables@.dom());
        assert(list@.len() == keys.len());
        assert forall|i: int, j: int| 0 <= i < j < list@.len() implies list@[i].table_id
            != list@[j].table_id by {
            assert(list@[i].table_id == keys[i]);
            assert(list@[j].table_id == keys[j]);
        }
        if !keep {
            extremes(seating_of(list@), list@.len() as int);
        }
    }
    RebalancePlan { moves, final_distribution }
}

/// The map that holds the tables of a list.
fn distribution_of(list: &Vec<TableOccupancy>) -> (m: HashMap<TableId, Vec<PlayerId>>)
    ensures
        (forall|i: int, j: int|
            0 <= i < j < list@.len() ==> list@[i].table_id != list@[j].table_id) ==> holds_seating(
            m@,
            seating_of(list@),
        ),
{
    broadcast use vstd::std_specs::hash::group_hash_axioms;

    let ghost d = seating_of(list@);
    let mut m: HashMap<TableId, Vec<PlayerId>> = HashMap::new();
    let mut i: usize = 0;
    while i < list.len()
        invariant
            i <= list@.len(),
            d == seating_of(list@),
            forall|k: TableId|
                m@.contains_key(k) <==> exists|j: int| 0 <= j < i && (#[trigger] d[j]).0 == k,
            (forall|a: int, b: int|
                0 <= a < b < list@.len() ==> list@[a].table_id != list@[b].table_id) ==> forall|
                j: int,
            | 0 <= j < i ==> m@[(#[trigger] d[j]).0]@ == d[j].1,
        decreases list@.len() - i,
    {
        let ghost before = m@;
        let players = list[i].players.clone();
        assert(players@ =~= d[i as int].1);
        m.insert(list[i].table_id, players);
        proof {
            assert forall|k: TableId| m@.contains_key(k) <==> exists|j: int|
                0 <= j < i + 1 && (#[trigger] d[j]).0 == k by {
                if m@.contains_key(k) {
                    if k == d[i as int].0 {
                    } else {
                        assert(before.contains_key(k));
                        let j = choose|j: int| 0 <= j < i && (#[trigger] d[j]).0 == k;
                        assert(0 <= j < i + 1 && d[j].0 == k);
                    }
                }
                if exists|j: int| 0 <= j < i + 1 && (#[trigger] d[j]).0 == k {
                    let j = choose|j: int| 0 <= j < i + 1 && (#[trigger] d[j]).0 == k;
                    if j < i {
                        assert(before.contains_key(k));
                    }
                }
            }
            if forall|a: int, b: int|
                0 <= a < b < list@.len() ==> list@[a].table_id != list@[b].table_id {
                assert forall|j: int| 0 <= j < i + 1 implies m@[(#[trigger] d[j]).0]@
                    == d[j].1 by {
                    if j < i {
                        assert(list@[j].table_id != list@[i as int].table_id);
                        assert(before[d[j].0]@ == d[j].1);
                    }
                }
            }
        }
        i += 1;
    }
    m
}

/// The tables of a map as a list, in rising order of their identifiers.
pub fn snapshot_tables(tables: &HashMap<TableId, Vec<PlayerId>>) -> (list: Vec<TableOccupancy>)
    ensures
        seating_of(list@) == listed(tables@),
{
    table_list(tables, false)
}

} // verus!
