//! Seats in clockwise order: who sits next, who is the dealer.

use crate::domain::player::{PlayerStatus, PlayerView};
use crate::domain::table;
use crate::domain::table::{SeatIndex, Table};
use vstd::prelude::*;

verus! {

/// What a seat has to hold to be picked up by a walk round the table.
#[derive(Clone, Copy, Debug, PartialEq, Eq, Structural)]
pub enum SeatTest {
    /// Any player.
    Taken,
    /// A player who takes part in the next hand: neither busted nor
    /// sitting out.
    Live,
    /// A player who can still bet.
    Active,
    /// A player who still contests the pot: active or all-in.
    InHand,
}

/// The seat `k` steps clockwise of `start` at a table of `n` seats. A
/// start beyond the last seat is taken round the table first.
pub open spec fn turn(n: int, start: int, k: int) -> int {
    let s = start % n;
    if s + k < n {
        s + k
    } else {
        s + k - n
    }
}

/// All `n` seats in clockwise order, beginning at `start`.
pub open spec fn clockwise(n: nat, start: int) -> Seq<SeatIndex> {
    Seq::new(n, |k: int| turn(n as int, start, k) as SeatIndex)
}

/// Whether seat `i` exists and holds a player who meets the test.
pub open spec fn seat_passes(seats: Seq<Option<PlayerView>>, test: SeatTest, i: int) -> bool {
    table::taken(seats, i) && match test {
        SeatTest::Taken => true,
        SeatTest::Live => seats[i].unwrap().is_live(),
        SeatTest::Active => seats[i].unwrap().status == PlayerStatus::Active,
        SeatTest::InHand => seats[i].unwrap().in_hand(),
    }
}

/// The test as a function of the seat index.
pub open spec fn passing(seats: Seq<Option<PlayerView>>, test: SeatTest) -> spec_fn(
    SeatIndex,
) -> bool {
    |s: SeatIndex| seat_passes(seats, test, s as int)
}

/// The seats that meet a test, in clockwise order beginning at `start`.
pub open spec fn seats_from(seats: Seq<Option<PlayerView>>, start: int, test: SeatTest) -> Seq<
    SeatIndex,
> {
    clockwise(seats.len(), start).filter(passing(seats, test))
}

/// The first seat of a list, if it has one.
pub open spec fn first_of(order: Seq<SeatIndex>) -> Option<SeatIndex> {
    if order.len() > 0 {
        Some(order[0])
    } else {
        None
    }
}

/// The seat that holds a player and comes first clockwise, beginning at
/// `start` itself or at the seat after it.
pub open spec fn next_taken(seats: Seq<Option<PlayerView>>, start: int, include_start: bool)
    -> Option<SeatIndex> {
    first_of(
        seats_from(
            seats,
            if include_start {
                start
            } else {
                start + 1
            },
            SeatTest::Taken,
        ),
    )
}

/// Where the button goes for the next hand: to the first taken seat after
/// the button, or, where there has been no button, to the lowest taken
/// seat.
pub open spec fn dealer_after(seats: Seq<Option<PlayerView>>, button: Option<SeatIndex>)
    -> Option<SeatIndex> {
    match button {
        Some(b) => next_taken(seats, b as int, false),
        None => next_taken(seats, 0, true),
    }
}

/// A walk round a table of at most 256 seats meets every seat once.
pub proof fn clockwise_facts(n: nat, start: int)
    requires
        n <= 256,
        0 <= start,
    ensures
        clockwise(n, start).len() == n,
        clockwise(n, start).no_duplicates(),
        forall|k: int| 0 <= k < n ==> 0 <= #[trigger] turn(n as int, start, k) < n,
        forall|k: int| 0 <= k < n ==> (#[trigger] clockwise(n, start)[k]) < n,
        forall|s: SeatIndex| (s as int) < n ==> clockwise(n, start).contains(s),
{
    let walk = clockwise(n, start);
    if n > 0 {
        let s = start % (n as int);
        assert(0 <= s < n);
        assert forall|s2: SeatIndex| (s2 as int) < n implies walk.contains(s2) by {
            let k = if s2 >= s {
                s2 - s
            } else {
                s2 - s + n
            };
            assert(walk[k] == s2);
        }
    }
}

/// The seats picked up by a walk exist, meet the test, and come up once.
pub proof fn seats_from_facts(seats: Seq<Option<PlayerView>>, start: int, test: SeatTest)
    requires
        seats.len() <= 256,
        0 <= start,
    ensures
        seats_from(seats, start, test).len() <= seats.len(),
        seats_from(seats, start, test).no_duplicates(),
        forall|i: int|
            0 <= i < seats_from(seats, start, test).len() ==> seat_passes(
                seats,
                test,
                #[trigger] seats_from(seats, start, test)[i] as int,
            ),
        forall|s: SeatIndex|
            seat_passes(seats, test, s as int) ==> seats_from(seats, start, test).contains(s),
{
    let walk = clockwise(seats.len(), start);
    let pred = passing(seats, test);
    clockwise_facts(seats.len(), start);
    crate::seq_util::filter_facts(walk, pred);
    crate::seq_util::filter_no_duplicates(walk, pred);
    assert forall|s: SeatIndex| seat_passes(seats, test, s as int) implies seats_from(
        seats,
        start,
        test,
    ).contains(s) by {
        assert(walk.contains(s));
        let k = choose|k: int| 0 <= k < walk.len() && walk[k] == s;
        assert(pred(walk[k]));
    }
}

/// Whether a seat of the table holds a player who meets the test.
pub fn seat_meets(table: &Table, seat: usize, test: SeatTest) -> (b: bool)
    ensures
        b == seat_passes(table.seating(), test, seat as int),
{
    if seat >= table.seats.len() {
        return false;
    }
    match &table.seats[seat] {
        None => false,
        Some(p) => match test {
            SeatTest::Taken => true,
            SeatTest::Live => p.is_live(),
            SeatTest::Active => match p.status {
                PlayerStatus::Active => true,
                _ => false,
            },
            SeatTest::InHand => p.is_in_hand(),
        },
    }
}

/// The seats that meet a test, in clockwise order beginning at `start`.
pub fn collect_seats_from(table: &Table, start: usize, test: SeatTest) -> (order: Vec<SeatIndex>)
    requires
        table.wf(),
    ensures
        order@ == seats_from(table.seating(), start as int, test),
        order@.len() <= table.seats@.len(),
{
    let n = table.seats.len();
    let mut order: Vec<SeatIndex> = Vec::new();
    if n == 0 {
        assert(clockwise(0, start as int) =~= Seq::<SeatIndex>::empty());
        return order;
    }
    let first = start % n;
    let ghost walk = clockwise(n as nat, start as int);
    let ghost pred = passing(table.seating(), test);
    let mut idx: usize = first;
    let mut k: usize = 0;
    while k < n
        invariant
            table.wf(),
            n == table.seats@.len(),
            0 < n <= 255,
            first == start % n,
            k <= n,
            idx < n,
            k < n ==> idx == turn(n as int, start as int, k as int),
            walk == clockwise(n as nat, start as int),
            pred == passing(table.seating(), test),
            order@ == walk.take(k as int).filter(pred),
            order@.len() <= k,
        decreases n - k,
    {
        proof {
            crate::seq_util::filter_step(walk, pred, k as int);
            assert(walk[k as int] == idx as SeatIndex);
        }
        if seat_meets(table, idx, test) {
            order.push(idx as SeatIndex);
        }
        idx = if idx + 1 == n {
            0
        } else {
            idx + 1
        };
        k += 1;
    }
    proof {
        crate::seq_util::take_all(walk);
    }
    order
}

/// The first taken seat clockwise, beginning at `start` itself or at the
/// seat after it. `None` at a table without players.
pub fn next_occupied_seat(table: &Table, start: SeatIndex, include_start: bool) -> (seat: Option<
    SeatIndex,
>)
    requires
        table.wf(),
    ensures
        seat == next_taken(table.seating(), start as int, include_start),
        seat matches Some(s) ==> table::taken(table.seating(), s as int),
{
    let from: usize = if include_start {
        start as usize
    } else {
        start as usize + 1
    };
    let order = collect_seats_from(table, from, SeatTest::Taken);
    proof {
        seats_from_facts(table.seating(), from as int, SeatTest::Taken);
    }
    if order.len() > 0 {
        Some(order[0])
    } else {
        None
    }
}

/// The taken seats in clockwise order, beginning at `start`.
pub fn collect_occupied_seats_from(table: &Table, start: SeatIndex) -> (order: Vec<SeatIndex>)
    requires
        table.wf(),
    ensures
        order@ == seats_from(table.seating(), start as int, SeatTest::Taken),
{
    collect_seats_from(table, start as usize, SeatTest::Taken)
}

/// Where the button goes for the next hand.
pub fn next_dealer(table: &Table) -> (seat: Option<SeatIndex>)
    requires
        table.wf(),
    ensures
        seat == dealer_after(table.seating(), table.dealer_button),
        seat matches Some(s) ==> table::taken(table.seating(), s as int),
{
    match table.dealer_button {
        Some(button) => next_occupied_seat(table, button, false),
        None => next_occupied_seat(table, 0, true),
    }
}

/// Two tables at which the same seats meet a test are walked alike.
pub proof fn seats_from_agrees(
    a: Seq<Option<PlayerView>>,
    b: Seq<Option<PlayerView>>,
    start: int,
    test: SeatTest,
)
    requires
        a.len() == b.len(),
        forall|i: int| 0 <= i < a.len() ==> seat_passes(a, test, i) == seat_passes(b, test, i),
    ensures
        seats_from(a, start, test) == seats_from(b, start, test),
{
    let walk = clockwise(a.len(), start);
    assert forall|k: int| 0 <= k < walk.len() implies passing(a, test)(#[trigger] walk[k])
        == passing(b, test)(walk[k]) by {
        let s = walk[k] as int;
        if s < a.len() {
        } else {
            assert(!seat_passes(a, test, s));
            assert(!seat_passes(b, test, s));
        }
    }
    crate::seq_util::filter_agrees(walk, passing(a, test), passing(b, test));
}

} // verus!
