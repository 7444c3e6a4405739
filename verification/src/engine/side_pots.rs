//! Side pots: the layers of the pot by how much each seat put in.

use crate::domain::chips::Chips;
use crate::domain::table::SeatIndex;
use std::collections::HashMap;
use vstd::prelude::*;

verus! {

/// A layer of the pot and the seats that put in enough to contest it.
#[derive(Debug, PartialEq, Eq)]
pub struct SidePot {
    pub amount: Chips,
    pub eligible_seats: Vec<SeatIndex>,
}

/// The mathematical value of a [`SidePot`].
pub struct SidePotView {
    pub amount: Chips,
    pub eligible_seats: Seq<SeatIndex>,
}

impl View for SidePot {
    type V = SidePotView;

    open spec fn view(&self) -> SidePotView {
        SidePotView { amount: self.amount, eligible_seats: self.eligible_seats@ }
    }
}

impl Clone for SidePot {
    fn clone(&self) -> (p: SidePot)
        ensures
            p@ == self@,
    {
        SidePot { amount: self.amount, eligible_seats: self.eligible_seats.clone() }
    }
}

/// A list of side pots as mathematical values.
pub open spec fn pot_views(pots: Seq<SidePot>) -> Seq<SidePotView> {
    Seq::new(pots.len(), |i: int| pots[i]@)
}

/// The chips that a seat put in; nothing for a seat without an entry.
pub open spec fn put_in(m: Map<SeatIndex, Chips>, seat: int) -> int {
    if 0 <= seat < 256 && m.contains_key(seat as SeatIndex) {
        m[seat as SeatIndex].0 as int
    } else {
        0
    }
}

/// The least amount above `floor` that one of the seats below `n` put
/// in; zero where no seat put in more than `floor`.
pub open spec fn next_level(m: Map<SeatIndex, Chips>, floor: int, n: int) -> int
    decreases n,
{
    if n <= 0 {
        0
    } else {
        let rest = next_level(m, floor, n - 1);
        let c = put_in(m, n - 1);
        if c > floor && (rest == 0 || c < rest) {
            c
        } else {
            rest
        }
    }
}

/// The test of a seat: it put in at least `level`.
pub open spec fn reaches(m: Map<SeatIndex, Chips>, level: int) -> spec_fn(SeatIndex) -> bool {
    |s: SeatIndex| put_in(m, s as int) >= level
}

/// All 256 seat indices in rising order.
pub open spec fn all_seats() -> Seq<SeatIndex> {
    Seq::new(256, |i: int| i as SeatIndex)
}

/// The seats that put in at least `level`, in rising order.
pub open spec fn reaching(m: Map<SeatIndex, Chips>, level: int) -> Seq<SeatIndex> {
    all_seats().filter(reaches(m, level))
}

/// The layer between two levels: each seat that reached the upper level
/// pays the difference into it. An amount beyond `u64::MAX` is capped.
pub open spec fn layer(m: Map<SeatIndex, Chips>, floor: int, level: int) -> SidePotView {
    let seats = reaching(m, level);
    let amount = (level - floor) * seats.len();
    SidePotView {
        amount: Chips(
            if amount > u64::MAX {
                u64::MAX
            } else {
                amount as u64
            },
        ),
        eligible_seats: seats,
    }
}

/// The layers above `floor`, lowest first, at most `fuel` of them.
pub open spec fn layers(m: Map<SeatIndex, Chips>, floor: int, fuel: nat) -> Seq<SidePotView>
    decreases fuel,
{
    let level = next_level(m, floor, 256);
    if fuel == 0 || level == 0 {
        Seq::empty()
    } else {
        seq![layer(m, floor, level)] + layers(m, level, (fuel - 1) as nat)
    }
}

/// The side pots of a hand: one layer for each distinct positive amount
/// that a seat put in, lowest first.
pub open spec fn side_pots_of(m: Map<SeatIndex, Chips>) -> Seq<SidePotView> {
    layers(m, 0, 256)
}

/// The chips that a seat put in.
pub fn contribution_of(contributions: &HashMap<SeatIndex, Chips>, seat: SeatIndex) -> (c: u64)
    ensures
        c == put_in(contributions@, seat as int),
{
    broadcast use vstd::std_specs::hash::group_hash_axioms;

    match contributions.get(&seat) {
        Some(chips) => chips.0,
        None => 0,
    }
}

/// The least amount above `floor` that a seat put in, or zero.
fn level_above(contributions: &HashMap<SeatIndex, Chips>, floor: u64) -> (level: u64)
    ensures
        level == next_level(contributions@, floor as int, 256),
        level == 0 || level > floor,
{
    let mut level: u64 = 0;
    let mut seat: usize = 0;
    while seat < 256
        invariant
            seat <= 256,
            level == next_level(contributions@, floor as int, seat as int),
            level == 0 || level > floor,
        decreases 256 - seat,
    {
        let c = contribution_of(contributions, seat as SeatIndex);
        if c > floor && (level == 0 || c < level) {
            level = c;
        }
        seat += 1;
    }
    level
}

/// The seats that put in at least `level`, in rising order.
fn seats_reaching(contributions: &HashMap<SeatIndex, Chips>, level: u64) -> (seats: Vec<SeatIndex>)
    ensures
        seats@ == reaching(contributions@, level as int),
        seats@.len() <= 256,
{
    let ghost pred = reaches(contributions@, level as int);
    let mut seats: Vec<SeatIndex> = Vec::new();
    let mut seat: usize = 0;
    while seat < 256
        invariant
            seat <= 256,
            pred == reaches(contributions@, level as int),
            seats@ == all_seats().take(seat as int).filter(pred),
            seats@.len() <= seat,
        decreases 256 - seat,
    {
        proof {
            crate::seq_util::filter_step(all_seats(), pred, seat as int);
        }
        if contribution_of(contributions, seat as SeatIndex) >= level {
            seats.push(seat as SeatIndex);
        }
        seat += 1;
    }
    proof {
        crate::seq_util::take_all(all_seats());
    }
    seats
}

/// Splits what the seats put in into side pots, lowest layer first. A seat
/// that put in nothing is in no pot.
pub fn compute_side_pots(contributions: &HashMap<SeatIndex, Chips>) -> (pots: Vec<SidePot>)
    ensures
        pot_views(pots@) == side_pots_of(contributions@),
{
    let mut pots: Vec<SidePot> = Vec::new();
    let mut floor: u64 = 0;
    let mut round: usize = 0;
    while round < 256
        invariant
            round <= 256,
            side_pots_of(contributions@) == pot_views(pots@) + layers(
                contributions@,
                floor as int,
                (256 - round) as nat,
            ),
        decreases 256 - round,
    {
        let level = level_above(contributions, floor);
        if level == 0 {
            assert(layers(contributions@, floor as int, (256 - round) as nat) =~= Seq::empty());
            assert(pot_views(pots@) + Seq::<SidePotView>::empty() =~= pot_views(pots@));
            return pots;
        }
        let seats = seats_reaching(contributions, level);
        let diff: u128 = (level - floor) as u128;
        let count: u128 = seats.len() as u128;
        assert(diff * count <= 0xFFFF_FFFF_FFFF_FFFF * 256) by (nonlinear_arith)
            requires
                0 <= diff <= 0xFFFF_FFFF_FFFF_FFFF,
                0 <= count <= 256,
        ;
        let wide: u128 = diff * count;
        let amount: u64 = if wide > u64::MAX as u128 {
            u64::MAX
        } else {
            wide as u64
        };
        let ghost before = pot_views(pots@);
        let pot = SidePot { amount: Chips(amount), eligible_seats: seats };
        proof {
            assert(pot@ == layer(contributions@, floor as int, level as int));
        }
        pots.push(pot);
        proof {
            assert(pot_views(pots@) =~= before.push(pot@));
            assert(before + (seq![pot@] + layers(
                contributions@,
                level as int,
                (256 - round - 1) as nat,
            )) =~= before.push(pot@) + layers(
                contributions@,
                level as int,
                (256 - round - 1) as nat,
            ));
        }
        floor = level;
        round += 1;
    }
    assert(layers(contributions@, floor as int, 0) =~= Seq::empty());
    assert(pot_views(pots@) + Seq::<SidePotView>::empty() =~= pot_views(pots@));
    pots
}

/// Copies a list of side pots.
pub fn copy_side_pots(pots: &Vec<SidePot>) -> (copy: Vec<SidePot>)
    ensures
        pot_views(copy@) == pot_views(pots@),
{
    let mut copy: Vec<SidePot> = Vec::new();
    let mut i: usize = 0;
    while i < pots.len()
        invariant
            i <= pots@.len(),
            copy@.len() == i,
            forall|j: int| 0 <= j < i ==> (#[trigger] copy@[j])@ == pots@[j]@,
        decreases pots@.len() - i,
    {
        copy.push(pots[i].clone());
        i += 1;
    }
    assert(pot_views(copy@) =~= pot_views(pots@));
    copy
}

/// The chips that the seats below `n` put in above `floor`, together.
pub open spec fn chips_above(m: Map<SeatIndex, Chips>, floor: int, n: int) -> int
    decreases n,
{
    if n <= 0 {
        0
    } else {
        chips_above(m, floor, n - 1) + if put_in(m, n - 1) > floor {
            put_in(m, n - 1) - floor
        } else {
            0
        }
    }
}

/// How many of the seats below `n` put in more than `floor`.
pub open spec fn seats_above(m: Map<SeatIndex, Chips>, floor: int, n: int) -> int
    decreases n,
{
    if n <= 0 {
        0
    } else {
        seats_above(m, floor, n - 1) + if put_in(m, n - 1) > floor {
            1int
        } else {
            0int
        }
    }
}

/// The amounts of the first `k` pots, together.
pub open spec fn amounts_sum(pots: Seq<SidePotView>, k: int) -> int
    decreases k,
{
    if k <= 0 {
        0
    } else {
        amounts_sum(pots, k - 1) + pots[k - 1].amount.0
    }
}

/// The least amount above a floor is an amount that a seat put in, and
/// no seat put in an amount between the floor and it.
pub proof fn next_level_facts(m: Map<SeatIndex, Chips>, floor: int, n: int)
    requires
        0 <= floor,
        0 <= n,
    ensures
        next_level(m, floor, n) == 0 || next_level(m, floor, n) > floor,
        next_level(m, floor, n) == 0 ==> forall|s: int|
            0 <= s < n ==> #[trigger] put_in(m, s) <= floor,
        next_level(m, floor, n) > 0 ==> exists|s: int|
            0 <= s < n && #[trigger] put_in(m, s) == next_level(m, floor, n),
        next_level(m, floor, n) > 0 ==> forall|s: int|
            0 <= s < n && #[trigger] put_in(m, s) > floor ==> put_in(m, s) >= next_level(
                m,
                floor,
                n,
            ),
    decreases n,
{
    if n > 0 {
        next_level_facts(m, floor, n - 1);
        let rest = next_level(m, floor, n - 1);
        let c = put_in(m, n - 1);
        let now = next_level(m, floor, n);
        if now > 0 {
            if now == c && c > floor && (rest == 0 || c < rest) {
                assert(put_in(m, n - 1) == now);
            } else {
                let s = choose|s: int| 0 <= s < n - 1 && #[trigger] put_in(m, s) == rest;
                assert(0 <= s < n && put_in(m, s) == now);
            }
        }
    }
}

/// The seats that reach a level are as many as the seats that put in
/// that much.
pub proof fn reaching_counts(m: Map<SeatIndex, Chips>, level: int, n: int)
    requires
        0 <= n <= 256,
        level >= 1,
    ensures
        all_seats().take(n).filter(reaches(m, level)).len() == seats_above(m, level - 1, n),
    decreases n,
{
    if n > 0 {
        reaching_counts(m, level, n - 1);
        crate::seq_util::filter_step(all_seats(), reaches(m, level), n - 1);
        assert(all_seats()[n - 1] == (n - 1) as SeatIndex);
    } else {
        assert(all_seats().take(0) =~= Seq::<SeatIndex>::empty());
        assert(all_seats().take(0).filter(reaches(m, level)).len() == 0) by {
            reveal(Seq::filter);
        }
    }
}

/// Between a floor and the next level above it, every seat above the
/// floor pays the whole difference.
pub proof fn chips_between(m: Map<SeatIndex, Chips>, floor: int, level: int, n: int)
    requires
        0 <= floor < level,
        0 <= n <= 256,
        forall|s: int| 0 <= s < n && #[trigger] put_in(m, s) > floor ==> put_in(m, s) >= level,
    ensures
        chips_above(m, floor, n) == chips_above(m, level, n) + (level - floor) * seats_above(
            m,
            floor,
            n,
        ),
        seats_above(m, floor, n) == seats_above(m, level - 1, n),
        seats_above(m, level, n) <= seats_above(m, floor, n),
        0 <= seats_above(m, floor, n) <= n,
        0 <= chips_above(m, level, n),
    decreases n,
{
    if n > 0 {
        chips_between(m, floor, level, n - 1);
        let c = seats_above(m, floor, n - 1);
        assert((level - floor) * (c + 1) == (level - floor) * c + (level - floor))
            by (nonlinear_arith);
        assert(put_in(m, n - 1) > floor ==> put_in(m, n - 1) >= level);
    } else {
        assert((level - floor) * 0 == 0) by (nonlinear_arith);
    }
}

/// A seat that put in the level is above the floor and not above the
/// level: fewer seats are above the level than above the floor.
pub proof fn fewer_above(m: Map<SeatIndex, Chips>, floor: int, level: int, n: int, s: int)
    requires
        0 <= floor < level,
        0 <= s < n <= 256,
        put_in(m, s) == level,
        forall|t: int| 0 <= t < n && #[trigger] put_in(m, t) > floor ==> put_in(m, t) >= level,
    ensures
        seats_above(m, level, n) < seats_above(m, floor, n),
    decreases n,
{
    chips_between(m, floor, level, n - 1);
    if s < n - 1 {
        fewer_above(m, floor, level, n - 1, s);
    }
}

/// Where no seat is above a floor, no chips are.
pub proof fn none_above(m: Map<SeatIndex, Chips>, floor: int, n: int)
    requires
        forall|s: int| 0 <= s < n ==> #[trigger] put_in(m, s) <= floor,
    ensures
        chips_above(m, floor, n) == 0,
        seats_above(m, floor, n) == 0,
    decreases n,
{
    if n > 0 {
        none_above(m, floor, n - 1);
        assert(put_in(m, n - 1) <= floor);
    }
}

/// The chips above a floor are the chips of the seats above it.
pub proof fn above_bounds(m: Map<SeatIndex, Chips>, floor: int, n: int)
    requires
        0 <= floor,
        0 <= n,
    ensures
        0 <= seats_above(m, floor, n) <= n,
        0 <= chips_above(m, floor, n),
        seats_above(m, floor, n) == 0 ==> chips_above(m, floor, n) == 0,
    decreases n,
{
    if n > 0 {
        above_bounds(m, floor, n - 1);
    }
}

/// The layers above a floor hold all the chips above it, as long as they
/// fit into a `u64`.
pub proof fn layers_hold_chips(m: Map<SeatIndex, Chips>, floor: int, fuel: nat)
    requires
        0 <= floor,
        seats_above(m, floor, 256) <= fuel,
        chips_above(m, floor, 256) <= u64::MAX,
    ensures
        amounts_sum(layers(m, floor, fuel), layers(m, floor, fuel).len() as int) == chips_above(
            m,
            floor,
            256,
        ),
        forall|k: int|
            0 <= k < layers(m, floor, fuel).len() ==> (#[trigger] layers(
                m,
                floor,
                fuel,
            )[k]).eligible_seats.len() > 0 && layers(m, floor, fuel)[k].amount.0 > 0 && layers(
                m,
                floor,
                fuel,
            )[k].eligible_seats.len() <= 256,
    decreases fuel,
{
    let level = next_level(m, floor, 256);
    next_level_facts(m, floor, 256);
    above_bounds(m, floor, 256);
    if level == 0 {
        none_above(m, floor, 256);
    } else {
        let s = choose|s: int| 0 <= s < 256 && #[trigger] put_in(m, s) == level;
        chips_between(m, floor, level, 256);
        fewer_above(m, floor, level, 256, s);
        reaching_counts(m, level, 256);
        crate::seq_util::take_all(all_seats());
        let count = seats_above(m, floor, 256);
        assert(reaching(m, level).len() == count);
        assert(count >= 1) by {
            above_bounds(m, level, 256);
        }
        let amount = (level - floor) * count;
        assert(amount >= 1 && amount <= chips_above(m, floor, 256)) by (nonlinear_arith)
            requires
                amount == (level - floor) * count,
                level - floor >= 1,
                count >= 1,
                chips_above(m, floor, 256) == chips_above(m, level, 256) + (level - floor)
                    * count,
                chips_above(m, level, 256) >= 0,
        ;
        assert(fuel > 0);
        let rest = layers(m, level, (fuel - 1) as nat);
        layers_hold_chips(m, level, (fuel - 1) as nat);
        let all = layers(m, floor, fuel);
        assert(all =~= seq![layer(m, floor, level)] + rest);
        amounts_sum_after_first(layer(m, floor, level), rest, rest.len() as int);
        assert forall|k: int| 0 <= k < all.len() implies (#[trigger] all[k]).eligible_seats.len()
            > 0 && all[k].amount.0 > 0 && all[k].eligible_seats.len() <= 256 by {
            if k > 0 {
                assert(all[k] == rest[k - 1]);
            }
        }
    }
}

/// The amounts of a list of pots behind a first pot.
pub proof fn amounts_sum_after_first(first: SidePotView, rest: Seq<SidePotView>, k: int)
    requires
        0 <= k <= rest.len(),
    ensures
        amounts_sum(seq![first] + rest, k + 1) == first.amount.0 + amounts_sum(rest, k),
    decreases k,
{
    let all = seq![first] + rest;
    if k > 0 {
        amounts_sum_after_first(first, rest, k - 1);
        assert(all[k] == rest[k - 1]);
    } else {
        assert(all[0] == first);
        assert(amounts_sum(all, 0) == 0);
    }
}

/// The chips above nothing are all the chips.
pub proof fn above_nothing(m: Map<SeatIndex, Chips>, n: int)
    ensures
        chips_above(m, 0, n) == crate::engine::game_loop::sum_put_in(m, n),
    decreases n,
{
    if n > 0 {
        above_nothing(m, n - 1);
    }
}

/// The side pots of a hand hold all the chips that the seats put in, as
/// long as those fit into a `u64`; and every side pot holds chips and
/// names a seat.
pub proof fn side_pots_hold_all_chips(m: Map<SeatIndex, Chips>)
    requires
        crate::engine::game_loop::total_put_in(m) <= u64::MAX,
    ensures
        amounts_sum(side_pots_of(m), side_pots_of(m).len() as int)
            == crate::engine::game_loop::total_put_in(m),
        forall|k: int|
            0 <= k < side_pots_of(m).len() ==> (#[trigger] side_pots_of(
                m,
            )[k]).eligible_seats.len() > 0 && side_pots_of(m)[k].amount.0 > 0 && side_pots_of(
                m,
            )[k].eligible_seats.len() <= 256,
{
    above_nothing(m, 256);
    above_bounds(m, 0, 256);
    layers_hold_chips(m, 0, 256);
}

} // verus!
