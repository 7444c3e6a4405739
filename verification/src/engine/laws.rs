//! What an action and a start do to a hand, said seat by seat and chip by
//! chip. Each law is proved from what `apply_action` and `start_hand`
//! state of their outcome.

use crate::domain::card::Card;
use crate::domain::hand::Street;
use crate::domain::player::{PlayerStatus, PlayerView};
use crate::domain::table::{SeatIndex, Table, TableStakes};
use crate::domain::HandId;
use crate::engine::actions::{PlayerAction, PlayerActionKind};
use crate::engine::betting::BettingState;
use crate::engine::game_loop;
use crate::engine::game_loop::{HandEngine, HandFrame, HandView};
use crate::engine::invariants;
use crate::engine::positions;
use crate::engine::positions::SeatTest;
use crate::engine::side_pots;
use vstd::prelude::*;

verus! {

/// Moving on to later streets and to the showdown moves no chips into the
/// pot: the pot and what each seat put in stay as they are.
pub proof fn moving_on_keeps_the_pot(v: HandView, f: HandFrame)
    ensures
        game_loop::advanced(v, f).view.pot == v.pot,
        game_loop::advanced(v, f).view.contributions == v.contributions,
    decreases game_loop::streets_left(v.street),
{
    match v.street {
        Street::Preflop => {
            let w = game_loop::next_street(v, f, 3, Street::Flop);
            if w.to_act.len() == 0 {
                moving_on_keeps_the_pot(w, f);
            }
        },
        Street::Flop => {
            let w = game_loop::next_street(v, f, 1, Street::Turn);
            if w.to_act.len() == 0 {
                moving_on_keeps_the_pot(w, f);
            }
        },
        Street::Turn => {
            let w = game_loop::next_street(v, f, 1, Street::River);
            if w.to_act.len() == 0 {
                moving_on_keeps_the_pot(w, f);
            }
        },
        _ => {},
    }
}

/// An action moves into the pot exactly what the acting seat pays: after
/// it, what the seats put in still adds up to the pot; the pot has grown
/// by the payment, and so has what the acting seat put in; what every
/// other seat put in is as before; a fold and a check pay nothing.
pub proof fn action_pays_into_the_pot(v: HandView, f: HandFrame, action: PlayerAction)
    requires
        invariants::in_order(v),
        game_loop::acting_refusal(v, action) is None,
    ensures
        ({
            let w = game_loop::after_action(v, f, action.seat, action.kind).view;
            let paid = game_loop::payment(
                v.seats[action.seat as int].unwrap(),
                action.kind,
                v.current_bet,
            );
            &&& game_loop::total_put_in(w.contributions) == w.pot.0
            &&& w.pot.0 == v.pot.0 + paid.0
            &&& side_pots::put_in(w.contributions, action.seat as int) == side_pots::put_in(
                v.contributions,
                action.seat as int,
            ) + paid.0
            &&& forall|s: SeatIndex|
                s != action.seat ==> side_pots::put_in(w.contributions, s as int)
                    == side_pots::put_in(v.contributions, s as int)
            &&& action.kind == PlayerActionKind::Fold || action.kind == PlayerActionKind::Check
                ==> paid.0 == 0
        }),
{
    let seat = action.seat;
    let e = game_loop::after_effect(v, seat, action.kind);
    let n = v.seats.len() as int;
    invariants::effect_keeps_chips(v, action);
    invariants::action_keeps_order(v, f, action);
    invariants::sum_stacks_bounds(v.seats, n, seat as int);
    game_loop::put_in_within_sum(v.contributions, seat as int, 256);
    moving_on_keeps_the_pot(e, f);
}

/// While the hand goes on after an action, the seat whose turn it is
/// heads the queue and can still bet, and so can every seat of the queue:
/// no seat that folded is in it. A queue that held no seat twice holds
/// none twice afterwards.
pub proof fn actor_heads_the_queue(v: HandView, f: HandFrame, action: PlayerAction)
    requires
        invariants::in_order(v),
        game_loop::acting_refusal(v, action) is None,
    ensures
        ({
            let moved = game_loop::after_action(v, f, action.seat, action.kind);
            let w = moved.view;
            &&& invariants::queue_can_bet(w)
            &&& w.current_actor matches Some(s) ==> w.to_act.len() > 0 && s == w.to_act[0]
                && positions::seat_passes(w.seats, SeatTest::Active, s as int)
            &&& !w.in_progress ==> w.current_actor is None && w.to_act.len() == 0
            &&& v.to_act.no_duplicates() ==> w.to_act.no_duplicates()
        }),
{
    let seat = action.seat;
    let e = game_loop::after_effect(v, seat, action.kind);
    invariants::effect_keeps_chips(v, action);
    invariants::action_keeps_order(v, f, action);
    let pred = BettingState::other_than(seat);
    let all = positions::seats_from(e.seats, seat + 1, SeatTest::Active);
    positions::seats_from_facts(e.seats, seat + 1, SeatTest::Active);
    crate::seq_util::filter_no_duplicates(all, pred);
    crate::seq_util::filter_no_duplicates(all.filter(pred), pred);
    if v.to_act.no_duplicates() {
        crate::seq_util::filter_no_duplicates(v.to_act, pred);
    }
    if game_loop::contenders(e.seats).len() != 1 && e.to_act.len() == 0 {
        moved_actor_heads(e, f);
        moved_queue_is_unique(e, f);
    }
}

/// The queue of a hand that has moved on holds no seat twice.
pub proof fn moved_queue_is_unique(v: HandView, f: HandFrame)
    requires
        v.seats.len() <= 255,
        v.to_act.len() == 0,
    ensures
        game_loop::advanced(v, f).view.to_act.no_duplicates(),
    decreases game_loop::streets_left(v.street),
{
    let start: int = match f.dealer {
        Some(d) => d + 1,
        None => 0,
    };
    match v.street {
        Street::Preflop => {
            let w = game_loop::next_street(v, f, 3, Street::Flop);
            assert(w.seats.len() == v.seats.len());
            positions::seats_from_facts(w.seats, start, SeatTest::Active);
            if w.to_act.len() == 0 {
                moved_queue_is_unique(w, f);
            }
        },
        Street::Flop => {
            let w = game_loop::next_street(v, f, 1, Street::Turn);
            assert(w.seats.len() == v.seats.len());
            positions::seats_from_facts(w.seats, start, SeatTest::Active);
            if w.to_act.len() == 0 {
                moved_queue_is_unique(w, f);
            }
        },
        Street::Turn => {
            let w = game_loop::next_street(v, f, 1, Street::River);
            assert(w.seats.len() == v.seats.len());
            positions::seats_from_facts(w.seats, start, SeatTest::Active);
            if w.to_act.len() == 0 {
                moved_queue_is_unique(w, f);
            }
        },
        Street::River => {},
        Street::Showdown => {},
    }
}

/// On the street to which a hand has moved on, the seat whose turn it is
/// heads the queue.
pub proof fn moved_actor_heads(v: HandView, f: HandFrame)
    requires
        v.street != Street::Showdown,
    ensures
        ({
            let w = game_loop::advanced(v, f).view;
            w.current_actor matches Some(s) ==> w.to_act.len() > 0 && s == w.to_act[0]
        }),
    decreases game_loop::streets_left(v.street),
{
    match v.street {
        Street::Preflop => {
            let w = game_loop::next_street(v, f, 3, Street::Flop);
            if w.to_act.len() == 0 {
                moved_actor_heads(w, f);
            }
        },
        Street::Flop => {
            let w = game_loop::next_street(v, f, 1, Street::Turn);
            if w.to_act.len() == 0 {
                moved_actor_heads(w, f);
            }
        },
        Street::Turn => {
            let w = game_loop::next_street(v, f, 1, Street::River);
            if w.to_act.len() == 0 {
                moved_actor_heads(w, f);
            }
        },
        _ => {},
    }
}

/// After an action no bet exceeds the bet of the street. Before the hand
/// moves on, the bet of a player who bet, raised or went all-in above the
/// street's bet is the street's bet, and so is the bet of a player who
/// called and has chips left.
pub proof fn bets_stay_within_the_street_bet(v: HandView, f: HandFrame, action: PlayerAction)
    requires
        invariants::in_order(v),
        game_loop::acting_refusal(v, action) is None,
    ensures
        ({
            let w = game_loop::after_action(v, f, action.seat, action.kind).view;
            let e = game_loop::after_effect(v, action.seat, action.kind);
            let p = v.seats[action.seat as int].unwrap();
            let q = e.seats[action.seat as int].unwrap();
            &&& forall|i: int|
                0 <= i < w.seats.len() ==> #[trigger] invariants::bet_at(w.seats, i)
                    <= w.current_bet.0
            &&& game_loop::raises(p, action.kind, v.current_bet) ==> q.current_bet
                == e.current_bet
            &&& action.kind == PlayerActionKind::Call && q.stack.0 > 0 ==> q.current_bet
                == e.current_bet
        }),
{
    invariants::effect_keeps_chips(v, action);
    invariants::action_keeps_order(v, f, action);
    assert(invariants::bet_at(v.seats, action.seat as int) <= v.current_bet.0);
}

/// The chips that the player at a seat owes when a hand starts: the ante
/// where the seat owes one, and the blind at a blind seat. A player who
/// does not take part owes nothing, and so does an empty seat.
pub open spec fn due_at_start(
    seat_value: Option<PlayerView>,
    stakes: TableStakes,
    seat: int,
    sb: SeatIndex,
    bb: SeatIndex,
) -> int {
    match seat_value {
        Some(p) => if p.is_live() {
            (if game_loop::owes_ante(stakes, seat, bb) {
                stakes.ante.0 as int
            } else {
                0
            }) + (if seat == sb {
                stakes.small_blind.0 as int
            } else if seat == bb {
                stakes.big_blind.0 as int
            } else {
                0
            })
        } else {
            0
        },
        None => 0,
    }
}

/// A seat pays at the start what it owes, or its whole stack where that
/// is less.
pub proof fn posted_is_due(
    seat_value: Option<PlayerView>,
    stakes: TableStakes,
    seat: int,
    sb: SeatIndex,
    bb: SeatIndex,
)
    ensures
        game_loop::posted_chips(seat_value, stakes, seat, sb, bb).0 == match seat_value {
            Some(p) => if due_at_start(seat_value, stakes, seat, sb, bb) < p.stack.0 {
                due_at_start(seat_value, stakes, seat, sb, bb)
            } else {
                p.stack.0 as int
            },
            None => 0,
        },
{
}

/// What a seat below `n` put in once antes and blinds are posted is what
/// it paid.
pub proof fn posted_map_at(
    seats: Seq<Option<PlayerView>>,
    stakes: TableStakes,
    sb: SeatIndex,
    bb: SeatIndex,
    n: int,
    s: int,
)
    requires
        0 <= s < n <= seats.len() <= 255,
        game_loop::sum_stacks(seats, seats.len() as int) <= u64::MAX,
    ensures
        side_pots::put_in(game_loop::posted_map(seats, stakes, sb, bb, n), s)
            == game_loop::posted_chips(seats[s], stakes, s, sb, bb).0,
    decreases n,
{
    invariants::posted_adds_up(seats, stakes, sb, bb, n - 1);
    let before = game_loop::posted_map(seats, stakes, sb, bb, n - 1);
    if s < n - 1 {
        posted_map_at(seats, stakes, sb, bb, n - 1, s);
    } else {
        assert(side_pots::put_in(before, n - 1) == 0);
    }
}

/// At the start of a hand every seat pays what it owes in antes and
/// blinds, or its whole stack where that is less: so much comes off its
/// stack, which never goes below nothing, and so much it has put in. The
/// stacks and the pot together hold the chips that the stacks held
/// before.
pub proof fn start_takes_what_is_due(
    pre: Table,
    pile: Seq<Card>,
    hand_id: HandId,
    post: Table,
    engine: HandEngine,
)
    requires
        pre.wf(),
        game_loop::sum_stacks(pre.seating(), pre.seating().len() as int) <= u64::MAX,
        game_loop::start_refusal(pre) is None,
        game_loop::started(pre, pile, hand_id, post, engine),
    ensures
        ({
            let seats = pre.seating();
            let stakes = pre.config.stakes;
            let dealer = positions::dealer_after(seats, pre.dealer_button).unwrap();
            let order = game_loop::dealing_order(seats, dealer);
            let sb = game_loop::small_blind_seat(order);
            let bb = game_loop::big_blind_seat(order);
            &&& post.seating().len() == seats.len()
            &&& forall|s: int|
                0 <= s < seats.len() ==> {
                    let due = due_at_start(seats[s], stakes, s, sb, bb);
                    let paid = if due < invariants::stack_at(seats, s) {
                        due
                    } else {
                        invariants::stack_at(seats, s)
                    };
                    &&& #[trigger] invariants::stack_at(post.seating(), s) == invariants::stack_at(
                        seats,
                        s,
                    ) - paid
                    &&& side_pots::put_in(engine.contributions@, s) == paid
                }
            &&& game_loop::sum_stacks(post.seating(), seats.len() as int) + engine.pot.total.0
                == game_loop::sum_stacks(seats, seats.len() as int)
        }),
{
    let seats = pre.seating();
    let stakes = pre.config.stakes;
    let dealer = positions::dealer_after(seats, pre.dealer_button).unwrap();
    let order = game_loop::dealing_order(seats, dealer);
    let sb = game_loop::small_blind_seat(order);
    let bb = game_loop::big_blind_seat(order);
    let posted = game_loop::posted_seats(seats, stakes, sb, bb);
    let cards = 2 * (order.len() as int);
    let n = seats.len() as int;
    game_loop::dealt_seats_facts(posted, order, pile, cards);
    assert forall|i: int| 0 <= i < n implies #[trigger] invariants::stack_at(post.seating(), i)
        == invariants::stack_at(posted, i) by {
        assert(game_loop::dealt_seats(posted, order, pile, cards)[i] == post.seating()[i]);
    }
    invariants::sum_stacks_same(post.seating(), posted, n);
    invariants::posted_adds_up(seats, stakes, sb, bb, n);
    assert forall|s: int| 0 <= s < n implies {
        let due = due_at_start(seats[s], stakes, s, sb, bb);
        let paid = if due < invariants::stack_at(seats, s) {
            due
        } else {
            invariants::stack_at(seats, s)
        };
        &&& #[trigger] invariants::stack_at(post.seating(), s) == invariants::stack_at(seats, s)
            - paid
        &&& side_pots::put_in(engine.contributions@, s) == paid
    } by {
        posted_is_due(seats[s], stakes, s, sb, bb);
        posted_map_at(seats, stakes, sb, bb, n, s);
        assert(posted[s] == game_loop::posted_seat(seats[s], stakes, s, sb, bb));
    }
}

/// When a hand has started, those who can still bet are to act, each
/// once, clockwise and beginning after the big blind, and it is the turn
/// of the first of them.
pub proof fn start_sets_the_queue(
    pre: Table,
    pile: Seq<Card>,
    hand_id: HandId,
    post: Table,
    engine: HandEngine,
)
    requires
        pre.wf(),
        game_loop::start_refusal(pre) is None,
        game_loop::started(pre, pile, hand_id, post, engine),
    ensures
        engine.betting.to_act@.no_duplicates(),
        invariants::queue_can_bet(game_loop::hand_view(post, engine)),
        forall|s: SeatIndex|
            positions::seat_passes(post.seating(), SeatTest::Active, s as int)
                ==> engine.betting.to_act@.contains(s),
        engine.current_actor == positions::first_of(engine.betting.to_act@),
{
    let v = game_loop::hand_view(post, engine);
    let seats = pre.seating();
    let stakes = pre.config.stakes;
    let dealer = positions::dealer_after(seats, pre.dealer_button).unwrap();
    let order = game_loop::dealing_order(seats, dealer);
    let sb = game_loop::small_blind_seat(order);
    let bb = game_loop::big_blind_seat(order);
    let posted = game_loop::posted_seats(seats, stakes, sb, bb);
    let cards = 2 * (order.len() as int);
    game_loop::dealt_seats_facts(posted, order, pile, cards);
    positions::seats_from_facts(posted, bb + 1, SeatTest::Active);
    assert forall|i: int| 0 <= i < v.to_act.len() implies positions::seat_passes(
        v.seats,
        SeatTest::Active,
        #[trigger] v.to_act[i] as int,
    ) by {
        let s = v.to_act[i] as int;
        assert(positions::seat_passes(posted, SeatTest::Active, s));
        assert(game_loop::dealt_seats(posted, order, pile, cards)[s] == v.seats[s]);
    }
    assert forall|s: SeatIndex|
        positions::seat_passes(post.seating(), SeatTest::Active, s as int) implies v.to_act.contains(
        s,
    ) by {
        assert(game_loop::dealt_seats(posted, order, pile, cards)[s as int] == v.seats[s as int]);
        assert(positions::seat_passes(posted, SeatTest::Active, s as int));
    }
}

/// No listed seat has a rank above the greatest rank of the list.
pub proof fn top_rank_is_greatest(
    seats: Seq<Option<PlayerView>>,
    board: Seq<Card>,
    cands: Seq<SeatIndex>,
    j: int,
    i: int,
)
    requires
        0 <= i < j <= cands.len(),
    ensures
        game_loop::shown_rank(seats, board, cands[i]).0 <= game_loop::top_rank(
            seats,
            board,
            cands,
            j,
        ),
    decreases j,
{
    if i < j - 1 {
        top_rank_is_greatest(seats, board, cands, j - 1, i);
    }
}

/// A pot goes to the best hands among those who contest it: every winner
/// is eligible for the pot and shows cards, so has not folded, and no
/// seat that contests the pot has a better rank than a winner. A pot that
/// is contested has a winner.
pub proof fn winners_hold_the_best_hand(
    seats: Seq<Option<PlayerView>>,
    board: Seq<Card>,
    pot: side_pots::SidePotView,
)
    ensures
        forall|k: int|
            0 <= k < game_loop::pot_winners(seats, board, pot).len() ==> {
                let w = #[trigger] game_loop::pot_winners(seats, board, pot)[k];
                &&& pot.eligible_seats.contains(w)
                &&& game_loop::shows_cards(seats, board, w as int)
                &&& forall|i: int|
                    0 <= i < game_loop::pot_candidates(seats, board, pot).len()
                        ==> game_loop::shown_rank(
                        seats,
                        board,
                        #[trigger] game_loop::pot_candidates(seats, board, pot)[i],
                    ).0 <= game_loop::shown_rank(seats, board, w).0
            },
        game_loop::pot_candidates(seats, board, pot).len() > 0 ==> game_loop::pot_winners(
            seats,
            board,
            pot,
        ).len() > 0,
{
    let cands = game_loop::pot_candidates(seats, board, pot);
    let top = game_loop::top_rank(seats, board, cands, cands.len() as int);
    let best = game_loop::has_rank(seats, board, top);
    let winners = game_loop::pot_winners(seats, board, pot);
    crate::seq_util::filter_facts(pot.eligible_seats, game_loop::can_show(seats, board));
    crate::seq_util::filter_facts(cands, best);
    assert forall|k: int| 0 <= k < winners.len() implies {
        let w = #[trigger] winners[k];
        &&& pot.eligible_seats.contains(w)
        &&& game_loop::shows_cards(seats, board, w as int)
        &&& forall|i: int|
            0 <= i < cands.len() ==> game_loop::shown_rank(seats, board, #[trigger] cands[i]).0
                <= game_loop::shown_rank(seats, board, w).0
    } by {
        let w = winners[k];
        assert(best(w));
        assert(cands.contains(w));
        let at = choose|at: int| 0 <= at < cands.len() && cands[at] == w;
        assert(game_loop::can_show(seats, board)(cands[at]));
        assert(pot.eligible_seats.contains(cands[at]));
        assert forall|i: int| 0 <= i < cands.len() implies game_loop::shown_rank(
            seats,
            board,
            #[trigger] cands[i],
        ).0 <= game_loop::shown_rank(seats, board, w).0 by {
            top_rank_is_greatest(seats, board, cands, cands.len() as int, i);
        }
    }
    if cands.len() > 0 {
        let i = invariants::top_rank_attained(seats, board, cands, cands.len() as int);
        assert(best(cands[i]));
        assert(winners.contains(cands[i]));
    }
}

/// A fold moves no chips: the player is folded with the stack as it was,
/// the pot is as it was, the seat is no longer in the queue, and whoever
/// is left in the queue can still bet, so has not folded. The pot stays
/// as it was when the hand moves on.
pub proof fn fold_moves_no_chips(v: HandView, f: HandFrame, action: PlayerAction)
    requires
        invariants::in_order(v),
        game_loop::acting_refusal(v, action) is None,
        action.kind == PlayerActionKind::Fold,
    ensures
        ({
            let e = game_loop::after_effect(v, action.seat, action.kind);
            let w = game_loop::after_action(v, f, action.seat, action.kind).view;
            let p = v.seats[action.seat as int].unwrap();
            let q = e.seats[action.seat as int].unwrap();
            &&& q.status == PlayerStatus::Folded
            &&& q.stack == p.stack
            &&& e.pot == v.pot
            &&& w.pot == v.pot
            &&& !e.to_act.contains(action.seat)
            &&& invariants::queue_can_bet(e)
            &&& invariants::queue_can_bet(w)
        }),
{
    let seat = action.seat;
    let e = game_loop::after_effect(v, seat, action.kind);
    invariants::effect_keeps_chips(v, action);
    invariants::action_keeps_order(v, f, action);
    moving_on_keeps_the_pot(e, f);
    let pred = BettingState::other_than(seat);
    crate::seq_util::filter_facts(v.to_act, pred);
    if e.to_act.contains(seat) {
        let k = choose|k: int| 0 <= k < e.to_act.len() && e.to_act[k] == seat;
        assert(pred(e.to_act[k]));
    }
}

} // verus!
