//! What holds of every hand, from its start to its end.

use crate::domain::card::Card;
use crate::domain::chips::Chips;
use crate::domain::hand::Street;
use crate::domain::player::{PlayerStatus, PlayerView};
use crate::domain::table::{SeatIndex, Table, TableStakes};
use crate::domain::HandId;
use crate::engine::actions::{PlayerAction, PlayerActionKind};
use crate::engine::betting::BettingState;
use crate::engine::game_loop;
use crate::engine::game_loop::{HandEngine, HandFrame, HandView, Settling};
use crate::engine::positions;
use crate::engine::positions::SeatTest;
use crate::engine::side_pots;
use crate::engine::validation;
use vstd::prelude::*;

verus! {

/// The chips at a seat; none at an empty seat.
pub open spec fn stack_at(seats: Seq<Option<PlayerView>>, i: int) -> int {
    match seats[i] {
        Some(p) => p.stack.0 as int,
        None => 0,
    }
}

/// The bet at a seat on the current street; none at an empty seat.
pub open spec fn bet_at(seats: Seq<Option<PlayerView>>, i: int) -> int {
    match seats[i] {
        Some(p) => p.current_bet.0 as int,
        None => 0,
    }
}

/// Every seat in the queue holds a player who can still bet.
pub open spec fn queue_can_bet(v: HandView) -> bool {
    forall|i: int|
        0 <= i < v.to_act.len() ==> positions::seat_passes(
            v.seats,
            SeatTest::Active,
            #[trigger] v.to_act[i] as int,
        )
}

/// What holds of a hand whoever is to act.
///
/// What the seats put in adds up to the pot. While the hand is played,
/// the chips in play fit into a `u64`. Whoever is in the queue can still
/// bet: no player who folded is in it. No player has bet more on the
/// street than the street's bet.
pub open spec fn chips_in_order(v: HandView) -> bool {
    &&& v.seats.len() <= 255
    &&& game_loop::total_put_in(v.contributions) == v.pot.0
    &&& v.in_progress ==> game_loop::chips_in_play(v.seats, v.pot) <= u64::MAX
    &&& queue_can_bet(v)
    &&& forall|i: int| 0 <= i < v.seats.len() ==> #[trigger] bet_at(v.seats, i) <= v.current_bet.0
}

/// What holds of a hand after every command.
///
/// The chips are in order. The seat whose turn it is, if there is one,
/// is in the queue and can still bet. Once the hand is over, it is
/// nobody's turn and nobody is in the queue.
pub open spec fn in_order(v: HandView) -> bool {
    &&& chips_in_order(v)
    &&& v.current_actor matches Some(s) ==> v.to_act.contains(s) && positions::seat_passes(
        v.seats,
        SeatTest::Active,
        s as int,
    )
    &&& !v.in_progress ==> v.current_actor is None && v.to_act.len() == 0
}

/// No stack is negative: chips are counted in unsigned numbers.
pub proof fn stacks_never_negative(v: HandView, i: int)
    requires
        0 <= i < v.seats.len(),
    ensures
        stack_at(v.seats, i) >= 0,
{
}

/// The stacks of the first seats add up to no less than nothing and to
/// no less than any one of them.
pub proof fn sum_stacks_bounds(seats: Seq<Option<PlayerView>>, n: int, i: int)
    requires
        0 <= i < n <= seats.len(),
    ensures
        0 <= stack_at(seats, i) <= game_loop::sum_stacks(seats, n),
    decreases n,
{
    sum_stacks_nonneg(seats, n - 1);
    if i < n - 1 {
        sum_stacks_bounds(seats, n - 1, i);
    }
}

/// A sum of stacks is not negative.
pub proof fn sum_stacks_nonneg(seats: Seq<Option<PlayerView>>, n: int)
    ensures
        0 <= game_loop::sum_stacks(seats, n),
    decreases n,
{
    if n > 0 {
        sum_stacks_nonneg(seats, n - 1);
    }
}

/// Changing one seat changes the sum of the stacks by the change of that
/// seat's stack.
pub proof fn sum_stacks_update(
    seats: Seq<Option<PlayerView>>,
    i: int,
    value: Option<PlayerView>,
    n: int,
)
    requires
        0 <= i < seats.len(),
        0 <= n <= seats.len(),
    ensures
        game_loop::sum_stacks(seats.update(i, value), n) == game_loop::sum_stacks(seats, n) + if i
            < n {
            stack_at(seats.update(i, value), i) - stack_at(seats, i)
        } else {
            0
        },
    decreases n,
{
    if n > 0 {
        sum_stacks_update(seats, i, value, n - 1);
    }
}

/// Seats with the same stacks have the same sum of stacks.
pub proof fn sum_stacks_same(a: Seq<Option<PlayerView>>, b: Seq<Option<PlayerView>>, n: int)
    requires
        0 <= n <= a.len(),
        a.len() == b.len(),
        forall|i: int| 0 <= i < n ==> #[trigger] stack_at(a, i) == stack_at(b, i),
    ensures
        game_loop::sum_stacks(a, n) == game_loop::sum_stacks(b, n),
    decreases n,
{
    if n > 0 {
        sum_stacks_same(a, b, n - 1);
        assert(stack_at(a, n - 1) == stack_at(b, n - 1));
    }
}

/// The hand that an action leaves, before it moves on, has its chips in
/// order.
pub proof fn effect_keeps_chips(v: HandView, action: PlayerAction)
    requires
        in_order(v),
        game_loop::acting_refusal(v, action) is None,
    ensures
        chips_in_order(game_loop::after_effect(v, action.seat, action.kind)),
        game_loop::after_effect(v, action.seat, action.kind).in_progress,
        game_loop::after_effect(v, action.seat, action.kind).seats.len() == v.seats.len(),
{
    let seat = action.seat;
    let kind = action.kind;
    let w = game_loop::after_effect(v, seat, kind);
    let p = v.seats[seat as int].unwrap();
    let q = game_loop::after_paying(p, kind, v.current_bet);
    let paid = game_loop::payment(p, kind, v.current_bet);
    let n = v.seats.len() as int;

    // The chips that change hands stay in play.
    sum_stacks_bounds(v.seats, n, seat as int);
    sum_stacks_update(v.seats, seat as int, Some(q), n);
    game_loop::put_in_within_sum(v.contributions, seat as int, 256);
    game_loop::sum_put_in_with_more(v.contributions, seat, paid, 256);
    assert(game_loop::total_put_in(w.contributions) == w.pot.0);
    assert(game_loop::chips_in_play(w.seats, w.pot) <= u64::MAX);

    // Nobody has bet more than the street's bet.
    assert(bet_at(v.seats, seat as int) <= v.current_bet.0);
    assert forall|i: int| 0 <= i < w.seats.len() implies #[trigger] bet_at(w.seats, i)
        <= w.current_bet.0 by {
        assert(bet_at(v.seats, i) <= v.current_bet.0);
    }

    // Whoever is in the queue can still bet.
    let raised = game_loop::raises(p, kind, v.current_bet);
    let queue = if raised {
        BettingState::without(positions::seats_from(w.seats, seat + 1, SeatTest::Active), seat)
    } else {
        v.to_act
    };
    let pred = BettingState::other_than(seat);
    crate::seq_util::filter_facts(queue, pred);
    assert forall|i: int| 0 <= i < w.to_act.len() implies positions::seat_passes(
        w.seats,
        SeatTest::Active,
        #[trigger] w.to_act[i] as int,
    ) by {
        let s = w.to_act[i];
        assert(pred(s));
        assert(queue.contains(s));
        let k = choose|k: int| 0 <= k < queue.len() && queue[k] == s;
        if raised {
            let all = positions::seats_from(w.seats, seat + 1, SeatTest::Active);
            crate::seq_util::filter_facts(all, pred);
            positions::seats_from_facts(w.seats, seat + 1, SeatTest::Active);
            assert(all.contains(queue[k]));
            let l = choose|l: int| 0 <= l < all.len() && all[l] == s;
            assert(positions::seat_passes(w.seats, SeatTest::Active, all[l] as int));
        } else {
            assert(positions::seat_passes(v.seats, SeatTest::Active, v.to_act[k] as int));
        }
    }
}

/// Marking busted players changes neither stacks nor bets.
pub proof fn busted_marked_keeps(seats: Seq<Option<PlayerView>>)
    ensures
        game_loop::busted_marked(seats).len() == seats.len(),
        forall|i: int|
            0 <= i < seats.len() ==> #[trigger] stack_at(game_loop::busted_marked(seats), i)
                == stack_at(seats, i),
        forall|i: int|
            0 <= i < seats.len() ==> #[trigger] bet_at(game_loop::busted_marked(seats), i)
                == bet_at(seats, i),
{
}

/// A hand that its only contender wins ends in order.
pub proof fn uncontested_in_order(w: HandView, f: HandFrame)
    requires
        chips_in_order(w),
        game_loop::contenders(w.seats).len() > 0,
    ensures
        in_order(game_loop::won_uncontested(w, f).0),
{
    let end = game_loop::won_uncontested(w, f).0;
    positions::seats_from_facts(w.seats, 0, SeatTest::InHand);
    let winner = game_loop::contenders(w.seats)[0];
    assert(positions::seat_passes(w.seats, SeatTest::InHand, winner as int));
    let p = w.seats[winner as int].unwrap();
    let paid = w.seats.update(
        winner as int,
        Some(PlayerView { stack: Chips::sat_add(p.stack, w.pot), ..p }),
    );
    busted_marked_keeps(paid);
    assert forall|i: int| 0 <= i < end.seats.len() implies #[trigger] bet_at(end.seats, i)
        <= end.current_bet.0 by {
        assert(bet_at(game_loop::busted_marked(paid), i) == bet_at(paid, i));
        assert(bet_at(w.seats, i) <= w.current_bet.0);
    }
}

/// The seats differ in stacks alone.
pub open spec fn same_but_stacks(a: Seq<Option<PlayerView>>, b: Seq<Option<PlayerView>>) -> bool {
    &&& a.len() == b.len()
    &&& forall|i: int|
        0 <= i < a.len() ==> match (#[trigger] a[i], b[i]) {
            (Some(p), Some(q)) => q == (PlayerView { stack: q.stack, ..p }),
            (None, None) => true,
            _ => false,
        }
}

/// Seats that differ in stacks alone have the same bets.
pub proof fn same_but_stacks_same_bets(a: Seq<Option<PlayerView>>, b: Seq<Option<PlayerView>>)
    requires
        same_but_stacks(a, b),
    ensures
        forall|i: int| 0 <= i < a.len() ==> #[trigger] bet_at(a, i) == bet_at(b, i),
{
    assert forall|i: int| 0 <= i < a.len() implies #[trigger] bet_at(a, i) == bet_at(b, i) by {
        let x = a[i];
    }
}

/// Showing cards changes no seat.
pub proof fn revealed_keeps_seats(st: Settling, board: Seq<Card>, cands: Seq<SeatIndex>, j: int)
    ensures
        game_loop::revealed(st, board, cands, j).seats == st.seats,
    decreases j,
{
    if j > 0 {
        revealed_keeps_seats(st, board, cands, j - 1);
    }
}

/// Paying prizes changes stacks alone.
pub proof fn awarded_keeps_hands(st: Settling, winners: Seq<SeatIndex>, amount: Chips, j: int)
    requires
        forall|k: int|
            0 <= k < winners.len() ==> crate::domain::table::taken(
                st.seats,
                #[trigger] winners[k] as int,
            ),
        j <= winners.len(),
    ensures
        same_but_stacks(st.seats, game_loop::awarded(st, winners, amount, j).seats),
    decreases j,
{
    let n = st.seats.len() as int;
    if j > 0 {
        awarded_keeps_hands(st, winners, amount, j - 1);
        let b = game_loop::awarded(st, winners, amount, j - 1);
        let now = game_loop::awarded(st, winners, amount, j);
        let seat = winners[j - 1] as int;
        assert(crate::domain::table::taken(st.seats, winners[j - 1] as int));
        let x = st.seats[seat];
        assert(b.seats[seat] is Some);
        assert forall|i: int| 0 <= i < n implies match (#[trigger] st.seats[i], now.seats[i]) {
            (Some(held), Some(q)) => q == (PlayerView { stack: q.stack, ..held }),
            (None, None) => true,
            _ => false,
        } by {
            let y = b.seats[i];
        }
    } else {
        assert forall|i: int| 0 <= i < n implies match (#[trigger] st.seats[i], st.seats[i]) {
            (Some(held), Some(q)) => q == (PlayerView { stack: q.stack, ..held }),
            (None, None) => true,
            _ => false,
        } by {}
    }
}

/// The winners of a pot sit at seats that are taken.
pub proof fn winners_are_seated(
    seats: Seq<Option<PlayerView>>,
    board: Seq<Card>,
    pot: side_pots::SidePotView,
)
    ensures
        forall|k: int|
            0 <= k < game_loop::pot_winners(seats, board, pot).len()
                ==> crate::domain::table::taken(
                seats,
                #[trigger] game_loop::pot_winners(seats, board, pot)[k] as int,
            ),
{
    let cands = game_loop::pot_candidates(seats, board, pot);
    let winners = game_loop::pot_winners(seats, board, pot);
    let show = game_loop::can_show(seats, board);
    crate::seq_util::filter_facts(pot.eligible_seats, show);
    let top = game_loop::top_rank(seats, board, cands, cands.len() as int);
    crate::seq_util::filter_facts(cands, game_loop::has_rank(seats, board, top));
    assert forall|k: int| 0 <= k < winners.len() implies crate::domain::table::taken(
        seats,
        #[trigger] winners[k] as int,
    ) by {
        assert(cands.contains(winners[k]));
        let c = choose|c: int| 0 <= c < cands.len() && cands[c] == winners[k];
        assert(show(cands[c]));
    }
}

/// Settling a pot changes stacks alone.
pub proof fn after_pot_keeps_hands(st: Settling, board: Seq<Card>, pot: side_pots::SidePotView)
    ensures
        same_but_stacks(st.seats, game_loop::after_pot(st, board, pot).seats),
{
    let cands = game_loop::pot_candidates(st.seats, board, pot);
    let winners = game_loop::pot_winners(st.seats, board, pot);
    let shown = game_loop::revealed(st, board, cands, cands.len() as int);
    revealed_keeps_seats(st, board, cands, cands.len() as int);
    winners_are_seated(st.seats, board, pot);
    awarded_keeps_hands(shown, winners, pot.amount, winners.len() as int);
}

/// Settling pots changes stacks alone.
pub proof fn after_pots_keep_hands(
    st: Settling,
    board: Seq<Card>,
    pots: Seq<side_pots::SidePotView>,
    k: int,
)
    ensures
        same_but_stacks(st.seats, game_loop::after_pots(st, board, pots, k).seats),
    decreases k,
{
    if k > 0 {
        after_pots_keep_hands(st, board, pots, k - 1);
        let before = game_loop::after_pots(st, board, pots, k - 1);
        after_pot_keeps_hands(before, board, pots[k - 1]);
        same_but_stacks_chain(
            st.seats,
            before.seats,
            game_loop::after_pot(before, board, pots[k - 1]).seats,
        );
    } else {
        assert forall|i: int| 0 <= i < st.seats.len() implies match (
            #[trigger] st.seats[i],
            st.seats[i],
        ) {
            (Some(held), Some(q)) => q == (PlayerView { stack: q.stack, ..held }),
            (None, None) => true,
            _ => false,
        } by {}
    }
}

/// The prizes of the first `j` of `n` winners of a pot, together.
pub open spec fn prizes_sum(amount: Chips, n: int, j: int) -> int
    decreases j,
{
    if j <= 0 {
        0
    } else {
        prizes_sum(amount, n, j - 1) + game_loop::prize(amount, n, j - 1).0
    }
}

/// The prizes of the winners of a pot add up to the pot.
pub proof fn prizes_add_up(amount: Chips, n: int, j: int)
    requires
        1 <= n <= u64::MAX,
        0 <= j <= n,
    ensures
        prizes_sum(amount, n, j) == j * (amount.0 as int / n) + if j < amount.0 as int % n {
            j
        } else {
            amount.0 as int % n
        },
        0 <= prizes_sum(amount, n, j) <= amount.0,
        j == n ==> prizes_sum(amount, n, j) == amount.0,
    decreases j,
{
    let share = amount.0 as int / n;
    let rem = amount.0 as int % n;
    assert(amount.0 == n * share + rem && 0 <= rem < n) by {
        vstd::arithmetic::div_mod::lemma_fundamental_div_mod(amount.0 as int, n);
    }
    assert(share >= 0) by (nonlinear_arith)
        requires
            amount.0 == n * share + rem,
            0 <= rem < n,
            n >= 1,
            amount.0 >= 0,
    ;
    if j > 0 {
        prizes_add_up(amount, n, j - 1);
        assert(amount.0 / (n as u64) == share);
        assert(amount.0 % (n as u64) == rem);
        assert(j * share == (j - 1) * share + share) by (nonlinear_arith);
    } else {
        assert(0 * share == 0) by (nonlinear_arith);
    }
    assert(j * share <= n * share) by (nonlinear_arith)
        requires
            0 <= j <= n,
            share >= 0,
    ;
}

/// Paying the first `j` winners their prizes adds the prizes to the
/// stacks and changes nothing else.
pub proof fn awarded_adds_prizes(st: Settling, winners: Seq<SeatIndex>, amount: Chips, j: int)
    requires
        forall|k: int|
            0 <= k < winners.len() ==> crate::domain::table::taken(
                st.seats,
                #[trigger] winners[k] as int,
            ),
        1 <= winners.len() <= u64::MAX,
        0 <= j <= winners.len(),
        game_loop::sum_stacks(st.seats, st.seats.len() as int) + amount.0 <= u64::MAX,
    ensures
        game_loop::sum_stacks(
            game_loop::awarded(st, winners, amount, j).seats,
            st.seats.len() as int,
        ) == game_loop::sum_stacks(st.seats, st.seats.len() as int) + prizes_sum(
            amount,
            winners.len() as int,
            j,
        ),
    decreases j,
{
    let n = st.seats.len() as int;
    if j > 0 {
        awarded_adds_prizes(st, winners, amount, j - 1);
        awarded_keeps_hands(st, winners, amount, j - 1);
        prizes_add_up(amount, winners.len() as int, j - 1);
        prizes_add_up(amount, winners.len() as int, j);
        let b = game_loop::awarded(st, winners, amount, j - 1);
        let seat = winners[j - 1] as int;
        assert(crate::domain::table::taken(st.seats, winners[j - 1] as int));
        let x = st.seats[seat];
        assert(b.seats[seat] is Some);
        let p = b.seats[seat].unwrap();
        let won = game_loop::prize(amount, winners.len() as int, j - 1);
        sum_stacks_bounds(b.seats, n, seat);
        assert(p.stack.0 + won.0 <= u64::MAX);
        sum_stacks_update(
            b.seats,
            seat,
            Some(PlayerView { stack: Chips::sat_add(p.stack, won), ..p }),
            n,
        );
    }
}

/// The best rank among candidates is the rank of one of them.
pub proof fn top_rank_attained(
    seats: Seq<Option<PlayerView>>,
    board: Seq<Card>,
    cands: Seq<SeatIndex>,
    j: int,
) -> (i: int)
    requires
        1 <= j <= cands.len(),
    ensures
        0 <= i < j,
        game_loop::shown_rank(seats, board, cands[i]).0 == game_loop::top_rank(
            seats,
            board,
            cands,
            j,
        ),
    decreases j,
{
    let rank = game_loop::shown_rank(seats, board, cands[j - 1]).0;
    if j == 1 {
        assert(game_loop::top_rank(seats, board, cands, 0) == 0);
        assert(game_loop::top_rank(seats, board, cands, 1) == rank);
        0
    } else {
        let before = top_rank_attained(seats, board, cands, j - 1);
        if rank > game_loop::top_rank(seats, board, cands, j - 1) {
            j - 1
        } else {
            before
        }
    }
}

/// Seats that differ in stacks alone have the same candidates and the
/// same winners for a pot.
pub proof fn same_but_stacks_same_winners(
    a: Seq<Option<PlayerView>>,
    b: Seq<Option<PlayerView>>,
    board: Seq<Card>,
    pot: side_pots::SidePotView,
)
    requires
        same_but_stacks(a, b),
    ensures
        game_loop::pot_candidates(a, board, pot) == game_loop::pot_candidates(b, board, pot),
{
    assert forall|i: int| 0 <= i < pot.eligible_seats.len() implies game_loop::can_show(
        a,
        board,
    )(#[trigger] pot.eligible_seats[i]) == game_loop::can_show(b, board)(
        pot.eligible_seats[i],
    ) by {
        let s = pot.eligible_seats[i] as int;
        if s < a.len() {
            let x = a[s];
        }
    }
    crate::seq_util::filter_agrees(
        pot.eligible_seats,
        game_loop::can_show(a, board),
        game_loop::can_show(b, board),
    );
}

/// Settling a pot changes stacks alone; a pot that has a candidate is
/// paid out in full.
pub proof fn after_pot_pays(st: Settling, board: Seq<Card>, pot: side_pots::SidePotView)
    requires
        game_loop::sum_stacks(st.seats, st.seats.len() as int) + pot.amount.0 <= u64::MAX,
        pot.eligible_seats.len() <= 256,
    ensures
        game_loop::sum_stacks(game_loop::after_pot(st, board, pot).seats, st.seats.len() as int)
            == game_loop::sum_stacks(st.seats, st.seats.len() as int) + if game_loop::pot_candidates(
            st.seats,
            board,
            pot,
        ).len() > 0 {
            pot.amount.0 as int
        } else {
            0
        },
{
    let cands = game_loop::pot_candidates(st.seats, board, pot);
    let winners = game_loop::pot_winners(st.seats, board, pot);
    let shown = game_loop::revealed(st, board, cands, cands.len() as int);
    revealed_keeps_seats(st, board, cands, cands.len() as int);
    winners_are_seated(st.seats, board, pot);
    let top = game_loop::top_rank(st.seats, board, cands, cands.len() as int);
    let best = game_loop::has_rank(st.seats, board, top);
    crate::seq_util::filter_facts(cands, best);
    crate::seq_util::filter_facts(pot.eligible_seats, game_loop::can_show(st.seats, board));
    if cands.len() > 0 {
        let i = top_rank_attained(st.seats, board, cands, cands.len() as int);
        assert(best(cands[i]));
        assert(winners.contains(cands[i]));
        assert(winners.len() > 0);
        awarded_adds_prizes(shown, winners, pot.amount, winners.len() as int);
        prizes_add_up(pot.amount, winners.len() as int, winners.len() as int);
    } else {
        assert(winners.len() == 0);
    }
}

/// Whether each of the first `k` pots has a candidate at the showdown.
pub open spec fn pots_contested(
    seats: Seq<Option<PlayerView>>,
    board: Seq<Card>,
    pots: Seq<side_pots::SidePotView>,
    k: int,
) -> bool {
    forall|i: int|
        0 <= i < k ==> game_loop::pot_candidates(seats, board, #[trigger] pots[i]).len() > 0
}

/// Differing in stacks alone carries over.
pub proof fn same_but_stacks_chain(
    a: Seq<Option<PlayerView>>,
    b: Seq<Option<PlayerView>>,
    c: Seq<Option<PlayerView>>,
)
    requires
        same_but_stacks(a, b),
        same_but_stacks(b, c),
    ensures
        same_but_stacks(a, c),
{
    assert forall|i: int| 0 <= i < a.len() implies match (#[trigger] a[i], c[i]) {
        (Some(p), Some(q)) => q == (PlayerView { stack: q.stack, ..p }),
        (None, None) => true,
        _ => false,
    } by {
        let x = b[i];
    }
}

/// Settling pots changes stacks alone; pots that all have a candidate
/// are paid out in full.
pub proof fn after_pots_pay(
    st: Settling,
    board: Seq<Card>,
    pots: Seq<side_pots::SidePotView>,
    k: int,
)
    requires
        0 <= k <= pots.len(),
        game_loop::sum_stacks(st.seats, st.seats.len() as int) + side_pots::amounts_sum(pots, k)
            <= u64::MAX,
        forall|i: int| 0 <= i < k ==> (#[trigger] pots[i]).eligible_seats.len() <= 256,
    ensures
        pots_contested(st.seats, board, pots, k) ==> game_loop::sum_stacks(
            game_loop::after_pots(st, board, pots, k).seats,
            st.seats.len() as int,
        ) == game_loop::sum_stacks(st.seats, st.seats.len() as int) + side_pots::amounts_sum(
            pots,
            k,
        ),
        game_loop::sum_stacks(
            game_loop::after_pots(st, board, pots, k).seats,
            st.seats.len() as int,
        ) <= game_loop::sum_stacks(st.seats, st.seats.len() as int) + side_pots::amounts_sum(
            pots,
            k,
        ),
    decreases k,
{
    let n = st.seats.len() as int;
    if k > 0 {
        after_pots_pay(st, board, pots, k - 1);
        let before = game_loop::after_pots(st, board, pots, k - 1);
        after_pots_keep_hands(st, board, pots, k - 1);
        after_pot_pays(before, board, pots[k - 1]);
        same_but_stacks_same_winners(st.seats, before.seats, board, pots[k - 1]);
        if pots_contested(st.seats, board, pots, k) {
            assert(game_loop::pot_candidates(st.seats, board, pots[k - 1]).len() > 0);
            assert(pots_contested(st.seats, board, pots, k - 1)) by {
                assert forall|i: int| 0 <= i < k - 1 implies game_loop::pot_candidates(
                    st.seats,
                    board,
                    #[trigger] pots[i],
                ).len() > 0 by {}
            }
        }
    }
}

/// A hand that ends in a showdown ends in order.
pub proof fn showdown_in_order(w: HandView, f: HandFrame)
    requires
        chips_in_order(w),
    ensures
        in_order(game_loop::showdown(w, f).0),
{
    let end = game_loop::showdown(w, f).0;
    let pots = side_pots::side_pots_of(w.contributions);
    let start = Settling {
        seats: w.seats,
        history: w.history,
        results: Seq::new(w.seats.len(), |i: int| None::<crate::domain::hand::PlayerHandResult>),
    };
    let settled = game_loop::after_pots(start, w.board, pots, pots.len() as int);
    after_pots_keep_hands(start, w.board, pots, pots.len() as int);
    same_but_stacks_same_bets(w.seats, settled.seats);
    busted_marked_keeps(settled.seats);
    assert forall|i: int| 0 <= i < end.seats.len() implies #[trigger] bet_at(end.seats, i)
        <= end.current_bet.0 by {
        assert(bet_at(game_loop::busted_marked(settled.seats), i) == bet_at(settled.seats, i));
        assert(bet_at(w.seats, i) == bet_at(settled.seats, i));
        assert(bet_at(w.seats, i) <= w.current_bet.0);
    }
}

/// A hand on its next street is in order.
pub proof fn next_street_in_order(w: HandView, f: HandFrame, count: nat, street: Street)
    requires
        chips_in_order(w),
        w.in_progress,
    ensures
        in_order(game_loop::next_street(w, f, count, street)),
        game_loop::next_street(w, f, count, street).in_progress,
        game_loop::next_street(w, f, count, street).street == street,
{
    let x = game_loop::next_street(w, f, count, street);
    let seats = game_loop::cleared_bets(w.seats);
    assert(x.seats == seats);
    let n = w.seats.len() as int;
    assert forall|i: int| 0 <= i < n implies #[trigger] stack_at(seats, i) == stack_at(
        w.seats,
        i,
    ) by {}
    sum_stacks_same(seats, w.seats, n);
    let start: int = match f.dealer {
        Some(d) => d + 1,
        None => 0,
    };
    positions::seats_from_facts(seats, start, SeatTest::Active);
    assert forall|i: int| 0 <= i < x.seats.len() implies #[trigger] bet_at(x.seats, i)
        <= x.current_bet.0 by {}
    if x.to_act.len() > 0 {
        assert(x.to_act[0] == x.to_act[0]);
        assert(x.to_act.contains(x.to_act[0]));
    }
}

/// A hand that moves on from a finished betting round stays in order.
pub proof fn advanced_in_order(w: HandView, f: HandFrame)
    requires
        chips_in_order(w),
        w.in_progress,
        w.street != Street::Showdown,
    ensures
        in_order(game_loop::advanced(w, f).view),
    decreases game_loop::streets_left(w.street),
{
    match w.street {
        Street::Preflop => {
            let x = game_loop::next_street(w, f, 3, Street::Flop);
            next_street_in_order(w, f, 3, Street::Flop);
            if x.to_act.len() == 0 {
                advanced_in_order(x, f);
            }
        },
        Street::Flop => {
            let x = game_loop::next_street(w, f, 1, Street::Turn);
            next_street_in_order(w, f, 1, Street::Turn);
            if x.to_act.len() == 0 {
                advanced_in_order(x, f);
            }
        },
        Street::Turn => {
            let x = game_loop::next_street(w, f, 1, Street::River);
            next_street_in_order(w, f, 1, Street::River);
            if x.to_act.len() == 0 {
                advanced_in_order(x, f);
            }
        },
        Street::River => {
            showdown_in_order(w, f);
        },
        Street::Showdown => {},
    }
}

/// Every action that is applied to a hand in order leaves the hand in
/// order: what the seats put in adds up to the pot; the seat whose turn
/// it is can still bet and is in the queue; nobody who folded is in the
/// queue; no bet exceeds the street's bet; and once the hand is over it
/// is nobody's turn.
pub proof fn action_keeps_order(v: HandView, f: HandFrame, action: PlayerAction)
    requires
        in_order(v),
        game_loop::acting_refusal(v, action) is None,
    ensures
        in_order(game_loop::after_action(v, f, action.seat, action.kind).view),
{
    let w = game_loop::after_effect(v, action.seat, action.kind);
    effect_keeps_chips(v, action);
    if game_loop::contenders(w.seats).len() == 1 {
        uncontested_in_order(w, f);
    } else if w.to_act.len() == 0 {
        advanced_in_order(w, f);
    } else {
        assert(w.to_act.contains(w.to_act[0]));
    }
}

/// The chips that the seats below `n` pay in antes and blinds.
pub open spec fn posted_sum(
    seats: Seq<Option<PlayerView>>,
    stakes: TableStakes,
    sb: SeatIndex,
    bb: SeatIndex,
    n: int,
) -> int
    decreases n,
{
    if n <= 0 {
        0
    } else {
        posted_sum(seats, stakes, sb, bb, n - 1) + game_loop::posted_chips(
            seats[n - 1],
            stakes,
            n - 1,
            sb,
            bb,
        ).0
    }
}

/// Where no seat put in anything, nothing was put in.
pub proof fn nothing_put_in(m: Map<SeatIndex, Chips>, n: int)
    requires
        forall|j: int| 0 <= j < n ==> #[trigger] side_pots::put_in(m, j) == 0,
    ensures
        game_loop::sum_put_in(m, n) == 0,
    decreases n,
{
    if n > 0 {
        nothing_put_in(m, n - 1);
        assert(side_pots::put_in(m, n - 1) == 0);
    }
}

/// What is posted comes off the stacks and adds up, in the pot and in
/// what the seats put in.
pub proof fn posted_adds_up(
    seats: Seq<Option<PlayerView>>,
    stakes: TableStakes,
    sb: SeatIndex,
    bb: SeatIndex,
    n: int,
)
    requires
        0 <= n <= seats.len() <= 255,
        game_loop::sum_stacks(seats, seats.len() as int) <= u64::MAX,
    ensures
        0 <= posted_sum(seats, stakes, sb, bb, n) <= game_loop::sum_stacks(seats, n),
        game_loop::sum_stacks(game_loop::posted_seats(seats, stakes, sb, bb), n) + posted_sum(
            seats,
            stakes,
            sb,
            bb,
            n,
        ) == game_loop::sum_stacks(seats, n),
        game_loop::posted_pot(seats, stakes, sb, bb, n).0 == posted_sum(seats, stakes, sb, bb, n),
        game_loop::sum_put_in(game_loop::posted_map(seats, stakes, sb, bb, n), 256) == posted_sum(
            seats,
            stakes,
            sb,
            bb,
            n,
        ),
        forall|j: int|
            n <= j < 256 ==> #[trigger] side_pots::put_in(
                game_loop::posted_map(seats, stakes, sb, bb, n),
                j,
            ) == 0,
    decreases n,
{
    if n > 0 {
        posted_adds_up(seats, stakes, sb, bb, n - 1);
        let before = game_loop::posted_map(seats, stakes, sb, bb, n - 1);
        let paid = game_loop::posted_chips(seats[n - 1], stakes, n - 1, sb, bb);
        sum_stacks_nonneg(seats, n - 1);
        sum_stacks_grows(seats, n, seats.len() as int);
        assert(side_pots::put_in(before, n - 1) == 0);
        game_loop::sum_put_in_with_more(before, (n - 1) as SeatIndex, paid, 256);
        let now = game_loop::posted_map(seats, stakes, sb, bb, n);
        assert forall|j: int| n <= j < 256 implies #[trigger] side_pots::put_in(now, j) == 0 by {
            assert(side_pots::put_in(before, j) == 0);
        }
    } else {
        nothing_put_in(game_loop::posted_map(seats, stakes, sb, bb, 0), 256);
    }
}

/// The sum of the stacks of more seats is no less.
pub proof fn sum_stacks_grows(seats: Seq<Option<PlayerView>>, n: int, m: int)
    requires
        0 <= n <= m,
    ensures
        game_loop::sum_stacks(seats, n) <= game_loop::sum_stacks(seats, m),
    decreases m - n,
{
    if n < m {
        sum_stacks_grows(seats, n, m - 1);
    }
}

/// A hand that was started is in order, given a table whose chips fit
/// into a `u64`, a small blind that is no greater than the big blind,
/// and no bet left standing before a player who does not take part.
pub proof fn started_in_order(
    pre: Table,
    pile: Seq<Card>,
    hand_id: HandId,
    post: Table,
    engine: HandEngine,
)
    requires
        game_loop::ready_for_hand(pre),
        game_loop::start_refusal(pre) is None,
        game_loop::started(pre, pile, hand_id, post, engine),
    ensures
        in_order(game_loop::hand_view(post, engine)),
{
    let v = game_loop::hand_view(post, engine);
    let seats = pre.seating();
    let stakes = pre.config.stakes;
    let dealer = positions::dealer_after(seats, pre.dealer_button).unwrap();
    let order = game_loop::dealing_order(seats, dealer);
    let sb = game_loop::small_blind_seat(order);
    let bb = game_loop::big_blind_seat(order);
    let posted = game_loop::posted_seats(seats, stakes, sb, bb);
    let cards = 2 * (order.len() as int);
    let n = seats.len() as int;

    game_loop::dealt_seats_facts(posted, order, pile, cards);
    assert forall|i: int| 0 <= i < n implies #[trigger] stack_at(v.seats, i) == stack_at(
        posted,
        i,
    ) && bet_at(v.seats, i) == bet_at(posted, i) by {
        assert(game_loop::dealt_seats(posted, order, pile, cards)[i] == v.seats[i]);
    }
    sum_stacks_same(v.seats, posted, n);
    posted_adds_up(seats, stakes, sb, bb, n);

    // Whoever is in the queue can still bet.
    positions::seats_from_facts(posted, bb + 1, SeatTest::Active);
    assert forall|i: int| 0 <= i < v.to_act.len() implies positions::seat_passes(
        v.seats,
        SeatTest::Active,
        #[trigger] v.to_act[i] as int,
    ) by {
        let s = v.to_act[i] as int;
        assert(positions::seat_passes(posted, SeatTest::Active, s));
        assert(game_loop::dealt_seats(posted, order, pile, cards)[s] == v.seats[s]);
    }
    if v.to_act.len() > 0 {
        assert(v.to_act.contains(v.to_act[0]));
    }

    // No bet exceeds the big blind.
    assert forall|i: int| 0 <= i < v.seats.len() implies #[trigger] bet_at(v.seats, i)
        <= v.current_bet.0 by {
        assert(bet_at(v.seats, i) == bet_at(posted, i));
        assert(posted[i] == game_loop::posted_seat(seats[i], stakes, i, sb, bb));
    }
}

/// At a showdown in which every side pot has a candidate, the winners
/// are paid exactly the pot: the stacks grow by it, all in all.
pub proof fn showdown_pays_the_pot(v: HandView, f: HandFrame)
    requires
        chips_in_order(v),
        v.in_progress,
        pots_contested(
            v.seats,
            v.board,
            side_pots::side_pots_of(v.contributions),
            side_pots::side_pots_of(v.contributions).len() as int,
        ),
    ensures
        game_loop::sum_stacks(game_loop::showdown(v, f).0.seats, v.seats.len() as int)
            == game_loop::sum_stacks(v.seats, v.seats.len() as int) + v.pot.0,
        game_loop::showdown(v, f).1.total_pot == v.pot,
{
    let pots = side_pots::side_pots_of(v.contributions);
    let n = v.seats.len() as int;
    let start = Settling {
        seats: v.seats,
        history: v.history,
        results: Seq::new(v.seats.len(), |i: int| None::<crate::domain::hand::PlayerHandResult>),
    };
    sum_stacks_nonneg(v.seats, n);
    side_pots::side_pots_hold_all_chips(v.contributions);
    after_pots_pay(start, v.board, pots, pots.len() as int);
    let settled = game_loop::after_pots(start, v.board, pots, pots.len() as int);
    after_pots_keep_hands(start, v.board, pots, pots.len() as int);
    busted_marked_keeps(settled.seats);
    sum_stacks_same(game_loop::busted_marked(settled.seats), settled.seats, n);
}

} // verus!
