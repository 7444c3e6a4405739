//! The hand as a state machine: starting a hand, applying actions, moving
//! from street to street, and settling the pot.

use crate::domain::blinds::AnteType;
use crate::domain::card::Card;
use crate::domain::chips::Chips;
use crate::domain::deck::Deck;
use crate::domain::hand::{HandRank, HandSummary, PlayerHandResult, Street, SummaryView};
use crate::domain::player::{PlayerAtTable, PlayerStatus, PlayerView};
use crate::domain::table;
use crate::domain::table::{SeatIndex, Table, TableStakes};
use crate::domain::{HandId, TableId};
use crate::engine::actions::{PlayerAction, PlayerActionKind};
use crate::engine::betting::BettingState;
use crate::engine::errors::EngineError;
use crate::engine::hand_history::{EventView, HandEventKind, HandHistory};
use crate::engine::invariants;
use crate::engine::positions;
use crate::engine::positions::{collect_seats_from, next_dealer, seat_meets, SeatTest};
use crate::engine::pot::Pot;
use crate::engine::side_pots;
use crate::engine::side_pots::{compute_side_pots, contribution_of, SidePot};
use crate::engine::validation;
use crate::engine::validation::validate_action;
use crate::eval::evaluator;
use crate::eval::evaluator::evaluate_best_hand;
use crate::engine::RandomSource;
use std::collections::HashMap;
use vstd::prelude::*;

verus! {

/// How a hand stands after an action.
#[derive(Debug)]
pub enum HandStatus {
    /// The hand goes on.
    Ongoing,
    /// The hand is over: its summary and its whole history.
    Finished(HandSummary, HandHistory),
}

/// The engine's state of the hand that is being played at a table.
#[derive(Debug)]
pub struct HandEngine {
    pub table_id: TableId,
    pub hand_id: HandId,
    pub deck: Deck,
    pub betting: BettingState,
    pub pot: Pot,
    /// The side pots; worked out at the showdown.
    pub side_pots: Vec<SidePot>,
    /// The chips each seat has put into this hand, over all streets.
    pub contributions: HashMap<SeatIndex, Chips>,
    /// The seat whose turn it is.
    pub current_actor: Option<SeatIndex>,
    pub history: HandHistory,
}

/// The lesser of two amounts.
pub open spec fn min_chips(a: Chips, b: Chips) -> Chips {
    if a.0 < b.0 {
        a
    } else {
        b
    }
}

/// The chips that all seats below `n` put in, together.
pub open spec fn sum_put_in(m: Map<SeatIndex, Chips>, n: int) -> int
    decreases n,
{
    if n <= 0 {
        0
    } else {
        sum_put_in(m, n - 1) + side_pots::put_in(m, n - 1)
    }
}

/// The chips that all the seats put in, together.
pub open spec fn total_put_in(m: Map<SeatIndex, Chips>) -> int {
    sum_put_in(m, 256)
}

/// The stacks of the seats below `n`, together.
pub open spec fn sum_stacks(seats: Seq<Option<PlayerView>>, n: int) -> int
    decreases n,
{
    if n <= 0 {
        0
    } else {
        sum_stacks(seats, n - 1) + match seats[n - 1] {
            Some(p) => p.stack.0 as int,
            None => 0,
        }
    }
}

/// All the chips in play: the stacks and the pot. Where they fit into a
/// `u64`, no amount of the hand is ever capped.
pub open spec fn chips_in_play(seats: Seq<Option<PlayerView>>, pot: Chips) -> int {
    sum_stacks(seats, seats.len() as int) + pot.0
}

/// A map with `amount` more for a seat; unchanged where the amount is zero.
pub open spec fn with_more(m: Map<SeatIndex, Chips>, seat: SeatIndex, amount: Chips) -> Map<
    SeatIndex,
    Chips,
> {
    if amount.0 == 0 {
        m
    } else {
        m.insert(seat, Chips::sat_add(Chips(side_pots::put_in(m, seat as int) as u64), amount))
    }
}

/// A pot with `amount` more.
pub open spec fn pot_with_more(pot: Chips, amount: Chips) -> Chips {
    if amount.0 == 0 {
        pot
    } else {
        Chips::sat_add(pot, amount)
    }
}

/// Adding to one seat adds the same to the sum, as long as nothing is
/// capped.
pub proof fn sum_put_in_with_more(m: Map<SeatIndex, Chips>, seat: SeatIndex, amount: Chips, n: int)
    requires
        0 <= n <= 256,
        side_pots::put_in(m, seat as int) + amount.0 <= u64::MAX,
    ensures
        sum_put_in(with_more(m, seat, amount), n) == sum_put_in(m, n) + if seat < n {
            amount.0 as int
        } else {
            0
        },
    decreases n,
{
    if n > 0 {
        sum_put_in_with_more(m, seat, amount, n - 1);
    }
}

/// No seat put in more than all seats together.
pub proof fn put_in_within_sum(m: Map<SeatIndex, Chips>, seat: int, n: int)
    requires
        0 <= seat < n <= 256,
    ensures
        0 <= side_pots::put_in(m, seat) <= sum_put_in(m, n),
        0 <= sum_put_in(m, n),
    decreases n,
{
    sum_put_in_nonneg(m, n - 1);
    if seat < n - 1 {
        put_in_within_sum(m, seat, n - 1);
    }
}

/// A sum of amounts is not negative.
pub proof fn sum_put_in_nonneg(m: Map<SeatIndex, Chips>, n: int)
    ensures
        0 <= sum_put_in(m, n),
    decreases n,
{
    if n > 0 {
        sum_put_in_nonneg(m, n - 1);
    }
}

impl HandEngine {
    /// An engine for a new hand: empty pot, no contributions, nobody to
    /// act yet, empty history.
    pub fn new(table_id: TableId, hand_id: HandId, deck: Deck, betting: BettingState) -> (e:
        HandEngine)
        ensures
            e.table_id == table_id,
            e.hand_id == hand_id,
            e.deck == deck,
            e.betting == betting,
            e.pot.total == Chips(0),
            e.side_pots@.len() == 0,
            e.contributions@ == Map::<SeatIndex, Chips>::empty(),
            e.current_actor is None,
            e.history@ == Seq::<EventView>::empty(),
            e.history.events@.len() == 0,
            e.history.numbered(),
    {
        HandEngine {
            table_id,
            hand_id,
            deck,
            betting,
            pot: Pot::new(),
            side_pots: Vec::new(),
            contributions: HashMap::new(),
            current_actor: None,
            history: HandHistory::new(),
        }
    }
}

/// Takes up to `amount` from a player's stack and returns what was taken.
pub fn take_from_stack(player: &mut PlayerAtTable, amount: Chips) -> (paid: Chips)
    ensures
        paid == min_chips(amount, old(player).stack),
        final(player)@ == (PlayerView {
            stack: Chips((old(player).stack.0 - paid.0) as u64),
            ..old(player)@
        }),
{
    let paid = if player.stack.0 < amount.0 {
        player.stack
    } else {
        amount
    };
    player.stack = Chips(player.stack.0 - paid.0);
    paid
}

/// Adds chips that a seat put in to the pot and to the seat's
/// contribution. An amount of zero changes nothing.
pub fn add_contribution(engine: &mut HandEngine, seat: SeatIndex, amount: Chips)
    ensures
        final(engine).pot.total == pot_with_more(old(engine).pot.total, amount),
        final(engine).contributions@ == with_more(old(engine).contributions@, seat, amount),
        final(engine).table_id == old(engine).table_id,
        final(engine).hand_id == old(engine).hand_id,
        final(engine).deck == old(engine).deck,
        final(engine).betting == old(engine).betting,
        final(engine).side_pots == old(engine).side_pots,
        final(engine).current_actor == old(engine).current_actor,
        final(engine).history == old(engine).history,
{
    broadcast use vstd::std_specs::hash::group_hash_axioms;

    if amount.is_zero() {
        return ;
    }
    engine.pot.add(amount);
    let before = contribution_of(&engine.contributions, seat);
    engine.contributions.insert(seat, Chips(before).saturating_add(amount));
}

/// A player who has been made ready for a new hand: active, with no bet
/// and no cards.
pub open spec fn fresh(p: PlayerView) -> PlayerView {
    PlayerView {
        status: PlayerStatus::Active,
        current_bet: Chips(0),
        hole_cards: Seq::empty(),
        ..p
    }
}

/// A player after a forced payment of up to `due` chips. A blind counts
/// as the player's bet, an ante does not. A player whom the payment
/// leaves without chips is all-in.
pub open spec fn forced(p: PlayerView, due: Chips, as_bet: bool) -> PlayerView {
    let paid = min_chips(due, p.stack);
    let stack = Chips((p.stack.0 - paid.0) as u64);
    PlayerView {
        stack,
        current_bet: if as_bet {
            Chips::sat_add(p.current_bet, paid)
        } else {
            p.current_bet
        },
        status: if stack.0 == 0 {
            PlayerStatus::AllIn
        } else {
            p.status
        },
        ..p
    }
}

/// The seats that take part in a hand, in the order in which they are
/// dealt: clockwise, beginning after the dealer.
pub open spec fn dealing_order(seats: Seq<Option<PlayerView>>, dealer: SeatIndex) -> Seq<
    SeatIndex,
> {
    positions::seats_from(seats, dealer + 1, SeatTest::Live)
}

/// The seat of the small blind. Heads-up the last seat of the dealing
/// order posts it, which is the dealer; else the first seat after the
/// dealer.
pub open spec fn small_blind_seat(order: Seq<SeatIndex>) -> SeatIndex {
    if order.len() == 2 {
        order[1]
    } else {
        order[0]
    }
}

/// The seat of the big blind: heads-up the seat that is not the dealer,
/// else the second seat after the dealer.
pub open spec fn big_blind_seat(order: Seq<SeatIndex>) -> SeatIndex {
    if order.len() == 2 {
        order[0]
    } else {
        order[1]
    }
}

/// Whether the player at a seat owes the ante.
pub open spec fn owes_ante(stakes: TableStakes, seat: int, bb: SeatIndex) -> bool {
    match stakes.ante_type {
        AnteType::NoAnte => false,
        AnteType::Classic => true,
        AnteType::BigBlind => seat == bb,
    }
}

/// A player who takes part in the hand after the ante was paid.
pub open spec fn after_ante(p: PlayerView, stakes: TableStakes, seat: int, bb: SeatIndex)
    -> PlayerView {
    if owes_ante(stakes, seat, bb) {
        forced(fresh(p), stakes.ante, false)
    } else {
        fresh(p)
    }
}

/// A seat after antes and blinds were posted. A player who takes part is
/// made ready, pays the ante where one is owed, and then the blind at a
/// blind seat. A seat without such a player stays as it is.
pub open spec fn posted_seat(
    seat_value: Option<PlayerView>,
    stakes: TableStakes,
    seat: int,
    sb: SeatIndex,
    bb: SeatIndex,
) -> Option<PlayerView> {
    match seat_value {
        Some(p) => if p.is_live() {
            let q = after_ante(p, stakes, seat, bb);
            if seat == sb {
                Some(forced(q, stakes.small_blind, true))
            } else if seat == bb {
                Some(forced(q, stakes.big_blind, true))
            } else {
                Some(q)
            }
        } else {
            Some(p)
        },
        None => None,
    }
}

/// The chips that a seat pays in antes and blinds.
pub open spec fn posted_chips(
    seat_value: Option<PlayerView>,
    stakes: TableStakes,
    seat: int,
    sb: SeatIndex,
    bb: SeatIndex,
) -> Chips {
    match seat_value {
        Some(p) => Chips(
            (p.stack.0 - posted_seat(seat_value, stakes, seat, sb, bb).unwrap().stack.0) as u64,
        ),
        None => Chips(0),
    }
}

/// All seats after antes and blinds were posted.
pub open spec fn posted_seats(
    seats: Seq<Option<PlayerView>>,
    stakes: TableStakes,
    sb: SeatIndex,
    bb: SeatIndex,
) -> Seq<Option<PlayerView>> {
    Seq::new(seats.len(), |i: int| posted_seat(seats[i], stakes, i, sb, bb))
}

/// What the seats below `n` have put in once antes and blinds are posted.
pub open spec fn posted_map(
    seats: Seq<Option<PlayerView>>,
    stakes: TableStakes,
    sb: SeatIndex,
    bb: SeatIndex,
    n: int,
) -> Map<SeatIndex, Chips>
    decreases n,
{
    if n <= 0 {
        Map::empty()
    } else {
        with_more(
            posted_map(seats, stakes, sb, bb, n - 1),
            (n - 1) as SeatIndex,
            posted_chips(seats[n - 1], stakes, n - 1, sb, bb),
        )
    }
}

/// The pot once the seats below `n` have posted antes and blinds.
pub open spec fn posted_pot(
    seats: Seq<Option<PlayerView>>,
    stakes: TableStakes,
    sb: SeatIndex,
    bb: SeatIndex,
    n: int,
) -> Chips
    decreases n,
{
    if n <= 0 {
        Chips(0)
    } else {
        pot_with_more(
            posted_pot(seats, stakes, sb, bb, n - 1),
            posted_chips(seats[n - 1], stakes, n - 1, sb, bb),
        )
    }
}

/// The antes as the history lists them: for every seat of the list, the
/// seat and what its player pays.
pub open spec fn ante_list(
    seats: Seq<Option<PlayerView>>,
    stakes: TableStakes,
    payers: Seq<SeatIndex>,
) -> Seq<(SeatIndex, Chips)> {
    Seq::new(
        payers.len(),
        |k: int| (payers[k], min_chips(stakes.ante, seats[payers[k] as int].unwrap().stack)),
    )
}

/// The seats that pay the ante, in the order in which the history lists
/// them: nobody, the big blind, or all who take part, clockwise from the
/// dealer.
pub open spec fn ante_payers(
    seats: Seq<Option<PlayerView>>,
    stakes: TableStakes,
    dealer: SeatIndex,
    bb: SeatIndex,
) -> Seq<SeatIndex> {
    match stakes.ante_type {
        AnteType::NoAnte => Seq::empty(),
        AnteType::Classic => positions::seats_from(seats, dealer as int, SeatTest::Live),
        AnteType::BigBlind => seq![bb],
    }
}

/// What a blind seat pays as its blind.
pub open spec fn blind_paid(
    seats: Seq<Option<PlayerView>>,
    stakes: TableStakes,
    seat: SeatIndex,
    bb: SeatIndex,
    due: Chips,
) -> Chips {
    min_chips(due, after_ante(seats[seat as int].unwrap(), stakes, seat as int, bb).stack)
}

/// The event that records the blinds and antes.
pub open spec fn blinds_event(
    seats: Seq<Option<PlayerView>>,
    stakes: TableStakes,
    dealer: SeatIndex,
    sb: SeatIndex,
    bb: SeatIndex,
) -> EventView {
    EventView::BlindsPosted {
        dealer,
        small_blind: Some((sb, blind_paid(seats, stakes, sb, bb, stakes.small_blind))),
        big_blind: Some((bb, blind_paid(seats, stakes, bb, bb, stakes.big_blind))),
        ante: ante_list(seats, stakes, ante_payers(seats, stakes, dealer, bb)),
    }
}

/// The seats after the first `k` cards were dealt from a pile: the
/// `k`-th card, counted from zero and from the top of the pile, goes to
/// the seat at place `k mod m` of the order of `m` seats. Once the pile
/// is empty, nothing more is dealt.
pub open spec fn dealt_seats(
    seats: Seq<Option<PlayerView>>,
    order: Seq<SeatIndex>,
    pile: Seq<Card>,
    k: int,
) -> Seq<Option<PlayerView>>
    decreases k,
{
    if k <= 0 {
        seats
    } else {
        let before = dealt_seats(seats, order, pile, k - 1);
        let to = order[(k - 1) % (order.len() as int)] as int;
        if k - 1 < pile.len() && 0 <= to < before.len() && before[to] is Some {
            let p = before[to].unwrap();
            before.update(
                to,
                Some(
                    PlayerView {
                        hole_cards: p.hole_cards.push(pile[pile.len() - k]),
                        ..p
                    },
                ),
            )
        } else {
            before
        }
    }
}

/// The events that record the first `k` cards dealt.
pub open spec fn dealt_events(order: Seq<SeatIndex>, pile: Seq<Card>, k: int) -> Seq<EventView>
    decreases k,
{
    if k <= 0 {
        Seq::empty()
    } else {
        let before = dealt_events(order, pile, k - 1);
        if k - 1 < pile.len() {
            before.push(
                EventView::HoleCardsDealt {
                    seat: order[(k - 1) % (order.len() as int)],
                    cards: seq![pile[pile.len() - k]],
                },
            )
        } else {
            before
        }
    }
}

/// Makes every player who takes part ready for a new hand and posts antes
/// and blinds. The dealing order decides the blinds: heads-up the dealer
/// posts the small blind. With fewer than two players who take part,
/// nothing happens.
///
/// Afterwards the street's bet is the big blind, the big blind is the
/// aggressor, and the players who can still bet are to act, clockwise,
/// beginning after the big blind.
///
/// A step of the start of a hand: the engine is fresh, nothing is in the
/// pot yet.
fn post_blinds_and_antes(table: &mut Table, engine: &mut HandEngine, dealer_seat: SeatIndex)
    requires
        old(table).wf(),
        old(engine).contributions@ == Map::<SeatIndex, Chips>::empty(),
        old(engine).pot.total == Chips(0),
    ensures
        final(table).wf(),
        final(table).id == old(table).id,
        final(table).name == old(table).name,
        final(table).config == old(table).config,
        final(table).board == old(table).board,
        final(table).dealer_button == old(table).dealer_button,
        final(table).current_hand_id == old(table).current_hand_id,
        final(table).street == old(table).street,
        final(table).hand_in_progress == old(table).hand_in_progress,
        final(table).total_pot == old(table).total_pot,
        final(engine).table_id == old(engine).table_id,
        final(engine).hand_id == old(engine).hand_id,
        final(engine).deck == old(engine).deck,
        final(engine).side_pots == old(engine).side_pots,
        final(engine).betting.street == old(engine).betting.street,
        old(engine).history.numbered() && old(engine).history.events@.len() < u32::MAX
            ==> final(engine).history.numbered(),
        final(engine).history.events@.len() <= old(engine).history.events@.len() + 1,
        ({
            let seats = old(table).seating();
            let stakes = old(table).config.stakes;
            let order = dealing_order(seats, dealer_seat);
            let sb = small_blind_seat(order);
            let bb = big_blind_seat(order);
            if order.len() < 2 {
                &&& final(table).seating() == seats
                &&& final(engine).betting == old(engine).betting
                &&& final(engine).pot == old(engine).pot
                &&& final(engine).contributions == old(engine).contributions
                &&& final(engine).current_actor == old(engine).current_actor
                &&& final(engine).history == old(engine).history
            } else {
                &&& final(table).seating() == posted_seats(seats, stakes, sb, bb)
                &&& final(engine).betting.current_bet == stakes.big_blind
                &&& final(engine).betting.min_raise == stakes.big_blind
                &&& final(engine).betting.last_aggressor == Some(bb)
                &&& final(engine).betting.to_act@ == positions::seats_from(
                    final(table).seating(),
                    bb + 1,
                    SeatTest::Active,
                )
                &&& final(engine).current_actor == positions::first_of(final(engine).betting.to_act@)
                &&& final(engine).pot.total == posted_pot(seats, stakes, sb, bb, seats.len() as int)
                &&& final(engine).contributions@ == posted_map(
                    seats,
                    stakes,
                    sb,
                    bb,
                    seats.len() as int,
                )
                &&& final(engine).history@ == old(engine).history@.push(
                    blinds_event(seats, stakes, dealer_seat, sb, bb),
                )
            }
        }),
{
    let stakes = table.config.stakes;
    let order = collect_seats_from(table, dealer_seat as usize + 1, SeatTest::Live);
    if order.len() < 2 {
        return ;
    }
    proof {
        positions::seats_from_facts(table.seating(), dealer_seat + 1, SeatTest::Live);
    }
    let (sb, bb) = if order.len() == 2 {
        (order[1], order[0])
    } else {
        (order[0], order[1])
    };
    let ghost seats = table.seating();
    assert(positions::seat_passes(seats, SeatTest::Live, order@[0] as int));
    assert(positions::seat_passes(seats, SeatTest::Live, order@[1] as int));
    assert(sb != bb) by {
        assert(order@[0] != order@[1]);
    }

    // The list of antes for the history, read before anything is paid.
    let payers: Vec<SeatIndex> = match stakes.ante_type {
        AnteType::NoAnte => Vec::new(),
        AnteType::Classic => collect_seats_from(table, dealer_seat as usize, SeatTest::Live),
        AnteType::BigBlind => {
            let mut one: Vec<SeatIndex> = Vec::new();
            one.push(bb);
            one
        },
    };
    proof {
        positions::seats_from_facts(seats, dealer_seat as int, SeatTest::Live);
        assert(payers@ =~= ante_payers(seats, stakes, dealer_seat, bb));
    }
    let mut antes: Vec<(SeatIndex, Chips)> = Vec::new();
    let mut k: usize = 0;
    while k < payers.len()
        invariant
            k <= payers@.len(),
            table.wf(),
            table.seating() == seats,
            forall|i: int|
                0 <= i < payers@.len() ==> positions::seat_passes(
                    seats,
                    SeatTest::Live,
                    #[trigger] payers@[i] as int,
                ),
            antes@.len() == k,
            forall|j: int| 0 <= j < k ==> antes@[j] == ante_list(seats, stakes, payers@)[j],
        decreases payers@.len() - k,
    {
        let seat = payers[k];
        assert(positions::seat_passes(seats, SeatTest::Live, payers@[k as int] as int));
        let paid = match &table.seats[seat as usize] {
            Some(p) => if p.stack.0 < stakes.ante.0 {
                p.stack
            } else {
                stakes.ante
            },
            None => Chips(0),
        };
        antes.push((seat, paid));
        k += 1;
    }
    assert(antes@ =~= ante_list(seats, stakes, payers@));

    // Every seat in turn: ready, ante, blind.
    let mut sb_paid = Chips(0);
    let mut bb_paid = Chips(0);
    let n = table.seats.len();
    let mut i: usize = 0;
    while i < n
        invariant
            i <= n,
            n == seats.len(),
            n <= 255,
            sb != bb,
            (sb as int) < n,
            (bb as int) < n,
            stakes == old(table).config.stakes,
            seats == old(table).seating(),
            positions::seat_passes(seats, SeatTest::Live, sb as int),
            positions::seat_passes(seats, SeatTest::Live, bb as int),
            table.wf(),
            table.seats@.len() == n,
            table.id == old(table).id,
            table.name == old(table).name,
            table.config == old(table).config,
            table.board == old(table).board,
            table.dealer_button == old(table).dealer_button,
            table.current_hand_id == old(table).current_hand_id,
            table.street == old(table).street,
            table.hand_in_progress == old(table).hand_in_progress,
            table.total_pot == old(table).total_pot,
            engine.table_id == old(engine).table_id,
            engine.hand_id == old(engine).hand_id,
            engine.deck == old(engine).deck,
            engine.side_pots == old(engine).side_pots,
            engine.betting == old(engine).betting,
            engine.current_actor == old(engine).current_actor,
            engine.history == old(engine).history,
            forall|j: int|
                0 <= j < i ==> table.seating()[j] == posted_seat(seats[j], stakes, j, sb, bb),
            forall|j: int| i <= j < n ==> table.seating()[j] == seats[j],
            engine.pot.total == posted_pot(seats, stakes, sb, bb, i as int),
            engine.contributions@ == posted_map(seats, stakes, sb, bb, i as int),
            (sb as int) < i ==> sb_paid == blind_paid(seats, stakes, sb, bb, stakes.small_blind),
            (bb as int) < i ==> bb_paid == blind_paid(seats, stakes, bb, bb, stakes.big_blind),
        decreases n - i,
    {
        let ghost before = table.seating();
        let mut total = Chips(0);
        match &mut table.seats[i] {
            Some(p) => {
                if p.is_live() {
                    p.status = PlayerStatus::Active;
                    p.current_bet = Chips(0);
                    p.hole_cards = Vec::new();
                    let pays_ante = match stakes.ante_type {
                        AnteType::NoAnte => false,
                        AnteType::Classic => true,
                        AnteType::BigBlind => i == bb as usize,
                    };
                    if pays_ante {
                        let paid = take_from_stack(p, stakes.ante);
                        if p.stack.0 == 0 {
                            p.status = PlayerStatus::AllIn;
                        }
                        total = paid;
                    }
                    if i == sb as usize || i == bb as usize {
                        let due = if i == sb as usize {
                            stakes.small_blind
                        } else {
                            stakes.big_blind
                        };
                        let paid = take_from_stack(p, due);
                        p.current_bet = p.current_bet.saturating_add(paid);
                        if p.stack.0 == 0 {
                            p.status = PlayerStatus::AllIn;
                        }
                        if i == sb as usize {
                            sb_paid = paid;
                        } else {
                            bb_paid = paid;
                        }
                        total = Chips(total.0 + paid.0);
                    }
                }
            },
            None => {},
        }
        proof {
            assert(table.seating()[i as int] == posted_seat(seats[i as int], stakes, i as int, sb, bb));
            assert(total == posted_chips(seats[i as int], stakes, i as int, sb, bb));
            assert forall|j: int| 0 <= j < i + 1 implies table.seating()[j] == posted_seat(
                seats[j],
                stakes,
                j,
                sb,
                bb,
            ) by {
                if j < i {
                    assert(table.seating()[j] == before[j]);
                }
            }
            assert forall|j: int| i + 1 <= j < n implies table.seating()[j] == seats[j] by {
                assert(table.seating()[j] == before[j]);
            }
        }
        add_contribution(engine, i as SeatIndex, total);
        i += 1;
    }
    proof {
        assert(table.seating() =~= posted_seats(seats, stakes, sb, bb));
    }
    engine.betting.current_bet = stakes.big_blind;
    engine.betting.min_raise = stakes.big_blind;
    engine.betting.last_aggressor = Some(bb);
    engine.history.push(
        HandEventKind::BlindsPosted {
            dealer: dealer_seat,
            small_blind: Some((sb, sb_paid)),
            big_blind: Some((bb, bb_paid)),
            ante: antes,
        },
    );
    let to_act = collect_seats_from(table, bb as usize + 1, SeatTest::Active);
    engine.current_actor = if to_act.len() > 0 {
        Some(to_act[0])
    } else {
        None
    };
    engine.betting.to_act = to_act;
}

/// Dealing and posting leave it as it was who sits where and who takes
/// part.
pub open spec fn same_players(a: Seq<Option<PlayerView>>, b: Seq<Option<PlayerView>>) -> bool {
    &&& a.len() == b.len()
    &&& forall|i: int|
        0 <= i < a.len() ==> (#[trigger] a[i] is Some) == (b[i] is Some) && (a[i] is Some
            ==> a[i].unwrap().is_live() == b[i].unwrap().is_live() && a[i].unwrap().player_id
            == b[i].unwrap().player_id)
}

/// No more events record the deal than cards were to be dealt.
pub proof fn dealt_events_len(order: Seq<SeatIndex>, pile: Seq<Card>, k: int)
    requires
        0 <= k,
    ensures
        dealt_events(order, pile, k).len() <= k,
    decreases k,
{
    if k > 0 {
        dealt_events_len(order, pile, k - 1);
    }
}

/// Dealing changes nothing but hole cards.
pub proof fn dealt_seats_facts(
    seats: Seq<Option<PlayerView>>,
    order: Seq<SeatIndex>,
    pile: Seq<Card>,
    k: int,
)
    ensures
        dealt_seats(seats, order, pile, k).len() == seats.len(),
        forall|i: int|
            0 <= i < seats.len() ==> match (#[trigger] dealt_seats(seats, order, pile, k)[i]) {
                Some(q) => seats[i] is Some && q == (PlayerView {
                    hole_cards: q.hole_cards,
                    ..seats[i].unwrap()
                }),
                None => seats[i] is None,
            },
    decreases k,
{
    if k > 0 {
        dealt_seats_facts(seats, order, pile, k - 1);
    }
}

/// Deals two hole cards to every player who takes part, one at a time,
/// clockwise and beginning after the dealer, in two rounds. Without a
/// dealer button nothing is dealt; once the deck is empty nothing more is
/// dealt.
pub fn deal_hole_cards(table: &mut Table, engine: &mut HandEngine)
    requires
        old(table).wf(),
    ensures
        final(table).wf(),
        final(table).id == old(table).id,
        final(table).name == old(table).name,
        final(table).config == old(table).config,
        final(table).board == old(table).board,
        final(table).dealer_button == old(table).dealer_button,
        final(table).current_hand_id == old(table).current_hand_id,
        final(table).street == old(table).street,
        final(table).hand_in_progress == old(table).hand_in_progress,
        final(table).total_pot == old(table).total_pot,
        final(engine).table_id == old(engine).table_id,
        final(engine).hand_id == old(engine).hand_id,
        final(engine).betting == old(engine).betting,
        final(engine).pot == old(engine).pot,
        final(engine).side_pots == old(engine).side_pots,
        final(engine).contributions == old(engine).contributions,
        final(engine).current_actor == old(engine).current_actor,
        match old(table).dealer_button {
            None => {
                &&& final(table).seating() == old(table).seating()
                &&& final(engine).deck == old(engine).deck
                &&& final(engine).history == old(engine).history
            },
            Some(dealer) => {
                let order = dealing_order(old(table).seating(), dealer);
                let cards = 2 * (order.len() as int);
                &&& final(table).seating() == dealt_seats(
                    old(table).seating(),
                    order,
                    old(engine).deck@,
                    cards,
                )
                &&& final(engine).deck@ == Deck::rest(old(engine).deck@, cards as nat)
                &&& final(engine).history@ == old(engine).history@ + dealt_events(
                    order,
                    old(engine).deck@,
                    cards,
                )
            },
        },
        final(engine).history.events@.len() >= old(engine).history.events@.len(),
        old(engine).history.numbered() && final(engine).history.events@.len() <= u32::MAX + 1
            ==> final(engine).history.numbered(),
{
    let dealer = match table.dealer_button {
        Some(d) => d,
        None => {
            return ;
        },
    };
    let order = collect_seats_from(table, dealer as usize + 1, SeatTest::Live);
    let m = order.len();
    let ghost seats = table.seating();
    let ghost pile = engine.deck@;
    let ghost events = engine.history@;
    proof {
        positions::seats_from_facts(seats, dealer + 1, SeatTest::Live);
        assert(events + dealt_events(order@, pile, 0) =~= events);
    }
    if m == 0 {
        assert(engine.deck@ =~= Deck::rest(pile, 0));
        return ;
    }
    let mut k: usize = 0;
    let mut j: usize = 0;
    let mut round: usize = 0;
    while round < 2
        invariant
            round <= 2,
            0 < m <= 255,
            m == order@.len(),
            j < m,
            (round == 0 && k == j) || (round == 1 && k == m + j) || (round == 2 && k == 2 * m && j
                == 0),
            seats == old(table).seating(),
            pile == old(engine).deck@,
            events == old(engine).history@,
            order@ == dealing_order(seats, dealer),
            forall|i: int|
                0 <= i < order@.len() ==> positions::seat_passes(
                    seats,
                    SeatTest::Live,
                    #[trigger] order@[i] as int,
                ),
            table.wf(),
            table.seats@.len() == seats.len(),
            table.id == old(table).id,
            table.name == old(table).name,
            table.config == old(table).config,
            table.board == old(table).board,
            table.dealer_button == old(table).dealer_button,
            table.current_hand_id == old(table).current_hand_id,
            table.street == old(table).street,
            table.hand_in_progress == old(table).hand_in_progress,
            table.total_pot == old(table).total_pot,
            engine.table_id == old(engine).table_id,
            engine.hand_id == old(engine).hand_id,
            engine.betting == old(engine).betting,
            engine.pot == old(engine).pot,
            engine.side_pots == old(engine).side_pots,
            engine.contributions == old(engine).contributions,
            engine.current_actor == old(engine).current_actor,
            table.seating() == dealt_seats(seats, order@, pile, k as int),
            engine.deck@ == Deck::rest(pile, k as nat),
            engine.history@ == events + dealt_events(order@, pile, k as int),
            engine.history.events@.len() >= old(engine).history.events@.len(),
            old(engine).history.numbered() && engine.history.events@.len() <= u32::MAX + 1
                ==> engine.history.numbered(),
        decreases 2 * m - k,
    {
        let seat = order[j];
        proof {
            assert(positions::seat_passes(seats, SeatTest::Live, order@[j as int] as int));
            dealt_seats_facts(seats, order@, pile, k as int);
            assert(table.seating()[seat as int] is Some) by {
                assert(seats[seat as int] is Some);
                assert(dealt_seats(seats, order@, pile, k as int)[seat as int] is Some);
            }
            assert(k == round * m + j) by {
                if round == 1 {
                    assert(1 * m == m);
                }
            }
            vstd::arithmetic::div_mod::lemma_fundamental_div_mod_converse(
                k as int,
                m as int,
                round as int,
                j as int,
            );
            assert(k as int % (m as int) == j);
        }
        let ghost before = table.seating();
        let ghost history = engine.history@;
        match engine.deck.draw_one() {
            Some(card) => {
                match &mut table.seats[seat as usize] {
                    Some(p) => {
                        p.hole_cards.push(card);
                    },
                    None => {
                        assert(false);
                    },
                }
                let mut cards: Vec<Card> = Vec::new();
                cards.push(card);
                engine.history.push(HandEventKind::HoleCardsDealt { seat, cards });
                proof {
                    assert(k < pile.len());
                    assert(card == pile[pile.len() - (k + 1)]);
                    assert(cards@ =~= seq![card]);
                    assert(table.seating() =~= dealt_seats(seats, order@, pile, k + 1));
                    assert(engine.deck@ =~= Deck::rest(pile, (k + 1) as nat));
                    assert(engine.history@ =~= events + dealt_events(order@, pile, k + 1));
                }
            },
            None => {
                proof {
                    assert(k >= pile.len());
                    assert(table.seating() =~= dealt_seats(seats, order@, pile, k + 1));
                    assert(engine.deck@ =~= Deck::rest(pile, (k + 1) as nat));
                    assert(engine.history@ =~= events + dealt_events(order@, pile, k + 1));
                }
            },
        }
        k += 1;
        j += 1;
        if j == m {
            j = 0;
            round += 1;
        }
    }
}

/// Why a hand cannot be started, or `None` where it can.
///
/// No hand may be in progress, and at least two players have to take
/// part.
pub open spec fn start_refusal(table: Table) -> Option<EngineError> {
    if table.hand_in_progress {
        Some(EngineError::HandAlreadyInProgress)
    } else {
        match positions::dealer_after(table.seating(), table.dealer_button) {
            None => Some(EngineError::NotEnoughPlayers),
            Some(dealer) => {
                let players = dealing_order(table.seating(), dealer).len();
                if players < 2 {
                    Some(EngineError::NotEnoughPlayers)
                } else {
                    None
                }
            },
        }
    }
}

/// The table and the engine of a hand that was started on the table
/// `pre` with the pile `pile`.
///
/// The button moves to the next taken seat. The players who take part are
/// made ready, post antes and blinds, and are dealt two cards each from
/// the top of the pile, one at a time, while the pile has cards: however
/// many take part, the hand starts. The street's bet is the big blind;
/// those who can still bet are to act, beginning after the big blind.
/// The history records the start, the blinds and every card dealt.
pub open spec fn started(
    pre: Table,
    pile: Seq<Card>,
    hand_id: HandId,
    post: Table,
    engine: HandEngine,
) -> bool {
    let seats = pre.seating();
    let stakes = pre.config.stakes;
    let dealer = positions::dealer_after(seats, pre.dealer_button).unwrap();
    let order = dealing_order(seats, dealer);
    let sb = small_blind_seat(order);
    let bb = big_blind_seat(order);
    let posted = posted_seats(seats, stakes, sb, bb);
    let cards = 2 * (order.len() as int);
    &&& post.wf()
    &&& post.id == pre.id
    &&& post.name == pre.name
    &&& post.config == pre.config
    &&& post.seating() == dealt_seats(posted, order, pile, cards)
    &&& post.board@ == Seq::<Card>::empty()
    &&& post.dealer_button == Some(dealer)
    &&& post.current_hand_id == Some(hand_id)
    &&& post.street == Street::Preflop
    &&& post.hand_in_progress
    &&& post.total_pot == Chips(0)
    &&& engine.table_id == pre.id
    &&& engine.hand_id == hand_id
    &&& engine.deck@ == Deck::rest(pile, cards as nat)
    &&& engine.betting.street == Street::Preflop
    &&& engine.betting.current_bet == stakes.big_blind
    &&& engine.betting.min_raise == stakes.big_blind
    &&& engine.betting.last_aggressor == Some(bb)
    &&& engine.betting.to_act@ == positions::seats_from(posted, bb + 1, SeatTest::Active)
    &&& engine.current_actor == positions::first_of(engine.betting.to_act@)
    &&& engine.pot.total == posted_pot(seats, stakes, sb, bb, seats.len() as int)
    &&& engine.contributions@ == posted_map(seats, stakes, sb, bb, seats.len() as int)
    &&& engine.side_pots@.len() == 0
    &&& engine.history@ == seq![
        EventView::HandStarted { table_id: pre.id, hand_id },
        blinds_event(seats, stakes, dealer, sb, bb),
    ] + dealt_events(order, pile, cards)
    &&& engine.history.numbered()
}

/// How a start ends: with the refusal and the table untouched, or with
/// the hand started.
pub open spec fn start_outcome(
    pre: Table,
    pile: Seq<Card>,
    hand_id: HandId,
    r: Result<HandEngine, EngineError>,
    post: Table,
) -> bool {
    match start_refusal(pre) {
        Some(e) => r == Err::<HandEngine, EngineError>(e) && post == pre,
        None => r matches Ok(engine) && started(pre, pile, hand_id, post, engine),
    }
}

/// Posting antes and blinds leaves it as it was who sits where and who
/// takes part.
pub proof fn posted_same_players(
    seats: Seq<Option<PlayerView>>,
    stakes: TableStakes,
    sb: SeatIndex,
    bb: SeatIndex,
)
    ensures
        same_players(seats, posted_seats(seats, stakes, sb, bb)),
{
}

/// Tables with the same players are dealt in the same order.
pub proof fn same_players_same_order(
    a: Seq<Option<PlayerView>>,
    b: Seq<Option<PlayerView>>,
    dealer: SeatIndex,
)
    requires
        same_players(a, b),
    ensures
        dealing_order(a, dealer) == dealing_order(b, dealer),
{
    assert forall|i: int| 0 <= i < a.len() implies positions::seat_passes(a, SeatTest::Live, i)
        == positions::seat_passes(b, SeatTest::Live, i) by {
        assert((a[i] is Some) == (b[i] is Some));
    }
    positions::seats_from_agrees(a, b, dealer + 1, SeatTest::Live);
}

/// The table is fit for a hand that keeps its chips in order: its chips
/// fit into a `u64`, the small blind is no greater than the big blind,
/// and no bet is left standing before a player who does not take part.
pub open spec fn ready_for_hand(table: Table) -> bool {
    &&& table.wf()
    &&& sum_stacks(table.seating(), table.seating().len() as int) <= u64::MAX
    &&& table.config.stakes.small_blind.0 <= table.config.stakes.big_blind.0
    &&& forall|i: int|
        0 <= i < table.seating().len() ==> (#[trigger] table.seating()[i] matches Some(p)
            ==> p.is_live() || p.current_bet.0 == 0)
}

/// Says why a hand cannot be started on the table, or `None` where it
/// can.
pub fn refusal_to_start(table: &Table) -> (e: Option<EngineError>)
    requires
        table.wf(),
    ensures
        e == start_refusal(*table),
{
    if table.hand_in_progress {
        return Some(EngineError::HandAlreadyInProgress);
    }
    let dealer = match next_dealer(table) {
        Some(d) => d,
        None => {
            return Some(EngineError::NotEnoughPlayers);
        },
    };
    let order = collect_seats_from(table, dealer as usize + 1, SeatTest::Live);
    if order.len() < 2 {
        return Some(EngineError::NotEnoughPlayers);
    }
    None
}

/// Starts a hand with the given pile of cards, which is dealt from the
/// top as it is. Where the pile runs out, the cards are dealt that it
/// holds.
pub fn start_hand_with_deck(table: &mut Table, deck: Deck, new_hand_id: HandId) -> (r: Result<
    HandEngine,
    EngineError,
>)
    requires
        old(table).wf(),
    ensures
        start_outcome(*old(table), deck@, new_hand_id, r, *final(table)),
        r matches Ok(engine) ==> (ready_for_hand(*old(table)) ==> invariants::in_order(
            hand_view(*final(table), engine),
        )),
{
    if table.hand_in_progress {
        return Err(EngineError::HandAlreadyInProgress);
    }
    let dealer = match next_dealer(table) {
        Some(d) => d,
        None => {
            return Err(EngineError::NotEnoughPlayers);
        },
    };
    let order = collect_seats_from(table, dealer as usize + 1, SeatTest::Live);
    if order.len() < 2 {
        return Err(EngineError::NotEnoughPlayers);
    }
    let ghost seats = table.seating();
    let ghost stakes = table.config.stakes;
    let ghost pile = deck@;
    let ghost sb = small_blind_seat(order@);
    let ghost bb = big_blind_seat(order@);

    table.board = Vec::new();
    table.total_pot = Chips(0);
    table.current_hand_id = Some(new_hand_id);
    table.street = Street::Preflop;
    table.hand_in_progress = true;
    table.dealer_button = Some(dealer);

    let mut engine = HandEngine::new(
        table.id,
        new_hand_id,
        deck,
        BettingState::new(Street::Preflop, Chips(0), table.config.stakes.big_blind, Vec::new()),
    );
    engine.history.push(HandEventKind::HandStarted { table_id: table.id, hand_id: new_hand_id });
    post_blinds_and_antes(table, &mut engine, dealer);
    let ghost posted = table.seating();
    let ghost to_act = engine.betting.to_act@;
    proof {
        posted_same_players(seats, stakes, sb, bb);
        same_players_same_order(seats, posted, dealer);
    }
    deal_hole_cards(table, &mut engine);
    proof {
        let cards = 2 * (order@.len() as int);
        dealt_events_len(order@, pile, cards);
        assert(engine.history@.len() <= 2 + cards);
        assert(engine.history@ =~= seq![
            EventView::HandStarted { table_id: table.id, hand_id: new_hand_id },
            blinds_event(seats, stakes, dealer, sb, bb),
        ] + dealt_events(order@, pile, cards));
        assert(started(*old(table), pile, new_hand_id, *table, engine));
        if ready_for_hand(*old(table)) {
            invariants::started_in_order(*old(table), pile, new_hand_id, *table, engine);
        }
    }
    Ok(engine)
}

/// The deck of 52 cards in the order into which a source of randomness
/// shuffles it next.
pub open spec fn shuffled_deck<R: RandomSource>(rng: &R) -> Seq<Card> {
    crate::engine::arranged(Deck::standard(), rng.next_order(52))
}

/// Starts a hand: shuffles a fresh deck of 52 cards with the given source
/// of randomness and deals from it. A start that is refused draws nothing
/// from the source and leaves the table as it is.
pub fn start_hand<R: RandomSource>(table: &mut Table, rng: &mut R, new_hand_id: HandId) -> (r:
    Result<HandEngine, EngineError>)
    requires
        old(table).wf(),
    ensures
        start_outcome(*old(table), shuffled_deck(old(rng)), new_hand_id, r, *final(table)),
        r is Err ==> *final(rng) == *old(rng),
        r is Ok ==> shuffled_deck(old(rng)).to_multiset() == Deck::standard().to_multiset(),
        r matches Ok(engine) ==> (ready_for_hand(*old(table)) ==> invariants::in_order(
            hand_view(*final(table), engine),
        )),
{
    match refusal_to_start(table) {
        Some(e) => {
            return Err(e);
        },
        None => {},
    }
    let mut deck = Deck::standard_52();
    rng.shuffle(deck.cards.as_mut_slice());
    start_hand_with_deck(table, deck, new_hand_id)
}

/// The state of a hand as a mathematical value: what the table and the
/// engine hold of it.
pub struct HandView {
    pub seats: Seq<Option<PlayerView>>,
    pub board: Seq<Card>,
    pub street: Street,
    pub in_progress: bool,
    /// The pot as the table shows it.
    pub table_pot: Chips,
    pub deck: Seq<Card>,
    pub current_bet: Chips,
    pub min_raise: Chips,
    pub last_aggressor: Option<SeatIndex>,
    pub betting_street: Street,
    pub to_act: Seq<SeatIndex>,
    pub pot: Chips,
    pub side_pots: Seq<side_pots::SidePotView>,
    pub contributions: Map<SeatIndex, Chips>,
    pub current_actor: Option<SeatIndex>,
    pub history: Seq<EventView>,
}

/// What stays the same while a hand is played.
pub struct HandFrame {
    pub table_id: TableId,
    pub hand_id: HandId,
    pub dealer: Option<SeatIndex>,
    pub big_blind: Chips,
}

/// The state of the hand that a table and an engine hold.
pub open spec fn hand_view(table: Table, engine: HandEngine) -> HandView {
    HandView {
        seats: table.seating(),
        board: table.board@,
        street: table.street,
        in_progress: table.hand_in_progress,
        table_pot: table.total_pot,
        deck: engine.deck@,
        current_bet: engine.betting.current_bet,
        min_raise: engine.betting.min_raise,
        last_aggressor: engine.betting.last_aggressor,
        betting_street: engine.betting.street,
        to_act: engine.betting.to_act@,
        pot: engine.pot.total,
        side_pots: side_pots::pot_views(engine.side_pots@),
        contributions: engine.contributions@,
        current_actor: engine.current_actor,
        history: engine.history@,
    }
}

/// What stays the same while the hand of a table and an engine is played.
pub open spec fn hand_frame(table: Table, engine: HandEngine) -> HandFrame {
    HandFrame {
        table_id: engine.table_id,
        hand_id: engine.hand_id,
        dealer: table.dealer_button,
        big_blind: table.config.stakes.big_blind,
    }
}

/// The parts of a table and an engine that no action changes are the
/// same in both pairs.
pub open spec fn same_frame(t1: Table, e1: HandEngine, t2: Table, e2: HandEngine) -> bool {
    &&& t1.id == t2.id
    &&& t1.name == t2.name
    &&& t1.config == t2.config
    &&& t1.dealer_button == t2.dealer_button
    &&& t1.current_hand_id == t2.current_hand_id
    &&& t1.wf() == t2.wf()
    &&& e1.table_id == e2.table_id
    &&& e1.hand_id == e2.hand_id
}

/// The seats once every player without chips is marked as busted. A
/// player who sits out stays as he is.
pub open spec fn busted_marked(seats: Seq<Option<PlayerView>>) -> Seq<Option<PlayerView>> {
    Seq::new(
        seats.len(),
        |i: int|
            match seats[i] {
                Some(p) => if p.stack.0 == 0 && p.is_live() {
                    Some(PlayerView { status: PlayerStatus::Busted, ..p })
                } else {
                    Some(p)
                },
                None => None,
            },
    )
}

/// The seats once the bets of the street are cleared.
pub open spec fn cleared_bets(seats: Seq<Option<PlayerView>>) -> Seq<Option<PlayerView>> {
    Seq::new(
        seats.len(),
        |i: int|
            match seats[i] {
                Some(p) => Some(PlayerView { current_bet: Chips(0), ..p }),
                None => None,
            },
    )
}

/// The result of the player at a taken seat in a hand that one player
/// won without a showdown.
pub open spec fn uncontested_result(
    seats: Seq<Option<PlayerView>>,
    seat: SeatIndex,
    winner: SeatIndex,
    pot: Chips,
) -> PlayerHandResult {
    PlayerHandResult {
        player_id: seats[seat as int].unwrap().player_id,
        rank: None,
        net_chips: if seat == winner {
            pot
        } else {
            Chips(0)
        },
        is_winner: seat == winner,
    }
}

/// The results of a hand that one player won without a showdown: one for
/// every taken seat, in rising order of the seats.
pub open spec fn uncontested_results(
    seats: Seq<Option<PlayerView>>,
    winner: SeatIndex,
    pot: Chips,
) -> Seq<PlayerHandResult> {
    let taken = positions::seats_from(seats, 0, SeatTest::Taken);
    Seq::new(taken.len(), |k: int| uncontested_result(seats, taken[k], winner, pot))
}

/// The players who still contest the pot, in rising order of their seats.
pub open spec fn contenders(seats: Seq<Option<PlayerView>>) -> Seq<SeatIndex> {
    positions::seats_from(seats, 0, SeatTest::InHand)
}

/// The hand once its only contender has taken the pot: the pot is added
/// to the winner's stack, the history records the award and the end, the
/// players without chips are marked as busted, and nobody is to act.
pub open spec fn won_uncontested(v: HandView, f: HandFrame) -> (HandView, SummaryView) {
    let winner = contenders(v.seats)[0];
    let p = v.seats[winner as int].unwrap();
    let paid = v.seats.update(
        winner as int,
        Some(PlayerView { stack: Chips::sat_add(p.stack, v.pot), ..p }),
    );
    let seats = busted_marked(paid);
    (
        HandView {
            seats,
            street: Street::Showdown,
            in_progress: false,
            table_pot: Chips(0),
            to_act: Seq::empty(),
            current_actor: None,
            history: v.history.push(
                EventView::PotAwarded { seat: winner, player_id: p.player_id, amount: v.pot },
            ).push(EventView::HandFinished { hand_id: f.hand_id, table_id: f.table_id }),
            ..v
        },
        SummaryView {
            hand_id: f.hand_id,
            table_id: f.table_id,
            street_reached: Street::Showdown,
            board: v.board,
            total_pot: v.pot,
            results: uncontested_results(seats, winner, v.pot),
        },
    )
}

/// The players who have to answer a bet or a raise: those who can still
/// bet, clockwise and beginning after the raiser, without the raiser.
pub fn collect_betting_order_after_raise(table: &Table, raiser_seat: SeatIndex) -> (order: Vec<
    SeatIndex,
>)
    requires
        table.wf(),
    ensures
        order@ == BettingState::without(
            positions::seats_from(table.seating(), raiser_seat + 1, SeatTest::Active),
            raiser_seat,
        ),
{
    let all = collect_seats_from(table, raiser_seat as usize + 1, SeatTest::Active);
    let ghost pred = BettingState::other_than(raiser_seat);
    let mut order: Vec<SeatIndex> = Vec::new();
    let mut i: usize = 0;
    while i < all.len()
        invariant
            i <= all@.len(),
            pred == BettingState::other_than(raiser_seat),
            order@ == all@.take(i as int).filter(pred),
        decreases all@.len() - i,
    {
        proof {
            crate::seq_util::filter_step(all@, pred, i as int);
        }
        if all[i] != raiser_seat {
            order.push(all[i]);
        }
        i += 1;
    }
    proof {
        crate::seq_util::take_all(all@);
    }
    order
}

/// The number of players who still contest the pot.
pub fn count_active_players(table: &Table) -> (n: usize)
    requires
        table.wf(),
    ensures
        n == contenders(table.seating()).len(),
{
    collect_seats_from(table, 0, SeatTest::InHand).len()
}

/// Marks every player without chips as busted, unless the player sits
/// out or is busted already.
pub fn update_busted_statuses_after_hand(table: &mut Table)
    ensures
        final(table).seating() == busted_marked(old(table).seating()),
        final(table).id == old(table).id,
        final(table).name == old(table).name,
        final(table).config == old(table).config,
        final(table).board == old(table).board,
        final(table).dealer_button == old(table).dealer_button,
        final(table).current_hand_id == old(table).current_hand_id,
        final(table).street == old(table).street,
        final(table).hand_in_progress == old(table).hand_in_progress,
        final(table).total_pot == old(table).total_pot,
        final(table).seats@.len() == old(table).seats@.len(),
{
    let n = table.seats.len();
    let ghost seats = table.seating();
    let mut i: usize = 0;
    while i < n
        invariant
            i <= n,
            n == seats.len(),
            seats == old(table).seating(),
            table.seats@.len() == n,
            table.id == old(table).id,
            table.name == old(table).name,
            table.config == old(table).config,
            table.board == old(table).board,
            table.dealer_button == old(table).dealer_button,
            table.current_hand_id == old(table).current_hand_id,
            table.street == old(table).street,
            table.hand_in_progress == old(table).hand_in_progress,
            table.total_pot == old(table).total_pot,
            forall|j: int| 0 <= j < i ==> table.seating()[j] == busted_marked(seats)[j],
            forall|j: int| i <= j < n ==> table.seating()[j] == seats[j],
        decreases n - i,
    {
        let ghost before = table.seating();
        match &mut table.seats[i] {
            Some(p) => {
                if p.stack.0 == 0 && p.is_live() {
                    p.status = PlayerStatus::Busted;
                }
            },
            None => {},
        }
        proof {
            assert forall|j: int| 0 <= j < i + 1 implies table.seating()[j] == busted_marked(
                seats,
            )[j] by {
                if j < i {
                    assert(table.seating()[j] == before[j]);
                }
            }
            assert forall|j: int| i + 1 <= j < n implies table.seating()[j] == seats[j] by {
                assert(table.seating()[j] == before[j]);
            }
        }
        i += 1;
    }
    assert(table.seating() =~= busted_marked(seats));
}

/// The results of a hand that `winner_seat` won without a showdown: one
/// for every player at the table, in rising order of the seats; the
/// winner takes the pot.
pub fn build_results_single_winner(table: &Table, winner_seat: SeatIndex, total_pot: Chips) -> (res:
    Vec<PlayerHandResult>)
    requires
        table.wf(),
    ensures
        res@ == uncontested_results(table.seating(), winner_seat, total_pot),
{
    let taken = collect_seats_from(table, 0, SeatTest::Taken);
    proof {
        positions::seats_from_facts(table.seating(), 0, SeatTest::Taken);
    }
    let mut res: Vec<PlayerHandResult> = Vec::new();
    let mut k: usize = 0;
    while k < taken.len()
        invariant
            k <= taken@.len(),
            taken@ == positions::seats_from(table.seating(), 0, SeatTest::Taken),
            forall|i: int|
                0 <= i < taken@.len() ==> positions::seat_passes(
                    table.seating(),
                    SeatTest::Taken,
                    #[trigger] taken@[i] as int,
                ),
            res@.len() == k,
            forall|j: int|
                0 <= j < k ==> res@[j] == uncontested_result(
                    table.seating(),
                    taken@[j],
                    winner_seat,
                    total_pot,
                ),
        decreases taken@.len() - k,
    {
        let seat = taken[k];
        assert(positions::seat_passes(table.seating(), SeatTest::Taken, taken@[k as int] as int));
        match &table.seats[seat as usize] {
            Some(p) => {
                let is_winner = seat == winner_seat;
                res.push(
                    PlayerHandResult {
                        player_id: p.player_id,
                        rank: None,
                        net_chips: if is_winner {
                            total_pot
                        } else {
                            Chips(0)
                        },
                        is_winner,
                    },
                );
            },
            None => {
                assert(false);
            },
        }
        k += 1;
    }
    assert(res@ =~= uncontested_results(table.seating(), winner_seat, total_pot));
    res
}

/// Ends a hand that all players but one have given up: the one who is
/// left takes the pot without showing cards.
pub fn finish_hand_without_showdown(table: &mut Table, engine: &mut HandEngine) -> (summary:
    HandSummary)
    requires
        old(table).wf(),
        contenders(old(table).seating()).len() > 0,
    ensures
        (hand_view(*final(table), *final(engine)), summary@) == won_uncontested(
            hand_view(*old(table), *old(engine)),
            hand_frame(*old(table), *old(engine)),
        ),
        same_frame(*old(table), *old(engine), *final(table), *final(engine)),
        final(engine).history.events@.len() >= old(engine).history.events@.len(),
        old(engine).history.numbered() && final(engine).history.events@.len() <= u32::MAX + 1
            ==> final(engine).history.numbered(),
{
    let order = collect_seats_from(table, 0, SeatTest::InHand);
    proof {
        positions::seats_from_facts(table.seating(), 0, SeatTest::InHand);
    }
    let winner_seat = order[0];
    assert(positions::seat_passes(table.seating(), SeatTest::InHand, order@[0] as int));
    let total_pot = engine.pot.total;
    let ghost seats = table.seating();
    table.street = Street::Showdown;
    let mut winner_id: u64 = 0;
    match &mut table.seats[winner_seat as usize] {
        Some(winner) => {
            winner.stack = winner.stack.saturating_add(total_pot);
            winner_id = winner.player_id;
        },
        None => {
            assert(false);
        },
    }
    proof {
        let p = seats[winner_seat as int].unwrap();
        assert(table.seating() =~= seats.update(
            winner_seat as int,
            Some(PlayerView { stack: Chips::sat_add(p.stack, total_pot), ..p }),
        ));
    }
    engine.history.push(
        HandEventKind::PotAwarded { seat: winner_seat, player_id: winner_id, amount: total_pot },
    );
    engine.history.push(
        HandEventKind::HandFinished { hand_id: engine.hand_id, table_id: engine.table_id },
    );
    update_busted_statuses_after_hand(table);
    table.total_pot = Chips(0);
    table.hand_in_progress = false;
    engine.current_actor = None;
    engine.betting.to_act = Vec::new();
    let results = build_results_single_winner(table, winner_seat, total_pot);
    let summary = HandSummary {
        hand_id: engine.hand_id,
        table_id: engine.table_id,
        street_reached: table.street,
        board: table.board.clone(),
        total_pot,
        results,
    };
    proof {
        let want = won_uncontested(
            hand_view(*old(table), *old(engine)),
            hand_frame(*old(table), *old(engine)),
        );
        assert(hand_view(*table, *engine).to_act =~= want.0.to_act);
        assert(hand_view(*table, *engine) == want.0);
        assert(summary@ == want.1);
    }
    summary
}

/// The hand once `count` cards were dealt to the board and the street
/// has changed: the cards come off the top of the deck, and the history
/// records the board and the new street.
pub open spec fn board_dealt(v: HandView, count: nat, street: Street) -> HandView {
    let board = v.board + Deck::top(v.deck, count);
    HandView {
        board,
        deck: Deck::rest(v.deck, count),
        street,
        history: v.history.push(EventView::BoardDealt { street, cards: board }).push(
            EventView::StreetChanged { street },
        ),
        ..v
    }
}

/// The players who are to act on a new street: those who can still bet,
/// clockwise and beginning after the dealer.
pub open spec fn street_queue(seats: Seq<Option<PlayerView>>, dealer: Option<SeatIndex>) -> Seq<
    SeatIndex,
> {
    positions::seats_from(
        seats,
        match dealer {
            Some(d) => d + 1,
            None => 0,
        },
        SeatTest::Active,
    )
}

/// The hand once the betting of a new street is set up: the bets of the
/// players are cleared, nothing is to call, the minimum raise is the big
/// blind, and those who can still bet are to act.
pub open spec fn bets_reset(v: HandView, f: HandFrame, street: Street) -> HandView {
    let seats = cleared_bets(v.seats);
    let queue = street_queue(seats, f.dealer);
    HandView {
        seats,
        current_bet: Chips(0),
        min_raise: f.big_blind,
        last_aggressor: None,
        betting_street: street,
        to_act: queue,
        current_actor: positions::first_of(queue),
        ..v
    }
}

/// The hand on its next street.
pub open spec fn next_street(v: HandView, f: HandFrame, count: nat, street: Street) -> HandView {
    bets_reset(board_dealt(v, count, street), f, street)
}

/// Deals `count` cards from the top of the deck to the board and changes
/// the street.
pub fn deal_board_cards(table: &mut Table, engine: &mut HandEngine, count: usize, street: Street)
    ensures
        hand_view(*final(table), *final(engine)) == board_dealt(
            hand_view(*old(table), *old(engine)),
            count as nat,
            street,
        ),
        same_frame(*old(table), *old(engine), *final(table), *final(engine)),
        final(table).seats == old(table).seats,
        final(engine).betting == old(engine).betting,
        final(engine).side_pots == old(engine).side_pots,
        final(engine).history.events@.len() >= old(engine).history.events@.len(),
        old(engine).history.numbered() && final(engine).history.events@.len() <= u32::MAX + 1
            ==> final(engine).history.numbered(),
{
    let mut cards = engine.deck.draw_n(count);
    let ghost drawn = cards@;
    let ghost board = table.board@;
    let mut i: usize = 0;
    while i < cards.len()
        invariant
            i <= cards@.len(),
            cards@ == drawn,
            table.board@ == board + drawn.take(i as int),
            table.id == old(table).id,
            table.name == old(table).name,
            table.config == old(table).config,
            table.seats == old(table).seats,
            table.dealer_button == old(table).dealer_button,
            table.current_hand_id == old(table).current_hand_id,
            table.street == old(table).street,
            table.hand_in_progress == old(table).hand_in_progress,
            table.total_pot == old(table).total_pot,
        decreases cards@.len() - i,
    {
        table.board.push(cards[i]);
        assert(table.board@ =~= board + drawn.take(i + 1));
        i += 1;
    }
    assert(drawn.take(drawn.len() as int) =~= drawn);
    engine.history.push(HandEventKind::BoardDealt { street, cards: table.board.clone() });
    table.street = street;
    engine.history.push(HandEventKind::StreetChanged { street });
}

/// Sets up the betting of a new street: clears the bets of the players
/// and names those who are to act, beginning after the dealer.
pub fn reset_bets_for_new_street(table: &mut Table, engine: &mut HandEngine, street: Street)
    requires
        old(table).wf(),
    ensures
        hand_view(*final(table), *final(engine)) == bets_reset(
            hand_view(*old(table), *old(engine)),
            hand_frame(*old(table), *old(engine)),
            street,
        ),
        same_frame(*old(table), *old(engine), *final(table), *final(engine)),
        final(engine).history == old(engine).history,
{
    let n = table.seats.len();
    let ghost seats = table.seating();
    let mut i: usize = 0;
    while i < n
        invariant
            i <= n,
            n == seats.len(),
            seats == old(table).seating(),
            table.seats@.len() == n,
            table.id == old(table).id,
            table.name == old(table).name,
            table.config == old(table).config,
            table.board == old(table).board,
            table.dealer_button == old(table).dealer_button,
            table.current_hand_id == old(table).current_hand_id,
            table.street == old(table).street,
            table.hand_in_progress == old(table).hand_in_progress,
            table.total_pot == old(table).total_pot,
            forall|j: int| 0 <= j < i ==> table.seating()[j] == cleared_bets(seats)[j],
            forall|j: int| i <= j < n ==> table.seating()[j] == seats[j],
        decreases n - i,
    {
        let ghost before = table.seating();
        match &mut table.seats[i] {
            Some(p) => {
                p.current_bet = Chips(0);
            },
            None => {},
        }
        proof {
            assert forall|j: int| 0 <= j < i + 1 implies table.seating()[j] == cleared_bets(
                seats,
            )[j] by {
                if j < i {
                    assert(table.seating()[j] == before[j]);
                }
            }
            assert forall|j: int| i + 1 <= j < n implies table.seating()[j] == seats[j] by {
                assert(table.seating()[j] == before[j]);
            }
        }
        i += 1;
    }
    assert(table.seating() =~= cleared_bets(seats));
    let start: usize = match table.dealer_button {
        Some(d) => d as usize + 1,
        None => 0,
    };
    let to_act = collect_seats_from(table, start, SeatTest::Active);
    engine.current_actor = if to_act.len() > 0 {
        Some(to_act[0])
    } else {
        None
    };
    engine.betting = BettingState::new(street, Chips(0), table.config.stakes.big_blind, to_act);
}

/// What a showdown has settled so far: the seats with their stacks, the
/// history, and the result of every seat that took part.
pub struct Settling {
    pub seats: Seq<Option<PlayerView>>,
    pub history: Seq<EventView>,
    pub results: Seq<Option<PlayerHandResult>>,
}

/// Whether the player at a seat shows cards: the seat is taken, the
/// player has neither folded nor busted, and hole cards and board make
/// five to seven cards.
pub open spec fn shows_cards(seats: Seq<Option<PlayerView>>, board: Seq<Card>, seat: int) -> bool {
    &&& table::taken(seats, seat)
    &&& seats[seat].unwrap().status != PlayerStatus::Folded
    &&& seats[seat].unwrap().status != PlayerStatus::Busted
    &&& 5 <= seats[seat].unwrap().hole_cards.len() + board.len() <= 7
}

/// The test of a seat: its player shows cards.
pub open spec fn can_show(seats: Seq<Option<PlayerView>>, board: Seq<Card>) -> spec_fn(
    SeatIndex,
) -> bool {
    |s: SeatIndex| shows_cards(seats, board, s as int)
}

/// The rank of the best hand of the player at a seat.
pub open spec fn shown_rank(seats: Seq<Option<PlayerView>>, board: Seq<Card>, seat: SeatIndex)
    -> HandRank {
    evaluator::best_rank(seats[seat as int].unwrap().hole_cards + board)
}

/// The greatest rank among the first `j` of the listed seats; zero for
/// none.
pub open spec fn top_rank(
    seats: Seq<Option<PlayerView>>,
    board: Seq<Card>,
    cands: Seq<SeatIndex>,
    j: int,
) -> u32
    decreases j,
{
    if j <= 0 {
        0
    } else {
        let before = top_rank(seats, board, cands, j - 1);
        let rank = shown_rank(seats, board, cands[j - 1]).0;
        if rank > before {
            rank
        } else {
            before
        }
    }
}

/// The test of a seat: its player's rank is `top`.
pub open spec fn has_rank(seats: Seq<Option<PlayerView>>, board: Seq<Card>, top: u32) -> spec_fn(
    SeatIndex,
) -> bool {
    |s: SeatIndex| shown_rank(seats, board, s).0 == top
}

/// The result of a seat once its player has shown a hand of a rank.
pub open spec fn with_rank(before: Option<PlayerHandResult>, player_id: u64, rank: HandRank)
    -> PlayerHandResult {
    match before {
        Some(r) => PlayerHandResult { rank: Some(rank), ..r },
        None => PlayerHandResult {
            player_id,
            rank: Some(rank),
            net_chips: Chips(0),
            is_winner: false,
        },
    }
}

/// The result of a seat once its player has won a prize.
pub open spec fn with_prize(before: Option<PlayerHandResult>, player_id: u64, prize: Chips)
    -> PlayerHandResult {
    match before {
        Some(r) => PlayerHandResult {
            net_chips: Chips::sat_add(r.net_chips, prize),
            is_winner: true,
            ..r
        },
        None => PlayerHandResult { player_id, rank: None, net_chips: prize, is_winner: true },
    }
}

/// The showdown once the first `j` of the listed seats have shown their
/// cards: the history records each hand with its rank, and the results
/// hold the ranks.
pub open spec fn revealed(st: Settling, board: Seq<Card>, cands: Seq<SeatIndex>, j: int)
    -> Settling
    decreases j,
{
    if j <= 0 {
        st
    } else {
        let b = revealed(st, board, cands, j - 1);
        let seat = cands[j - 1];
        let p = b.seats[seat as int].unwrap();
        let rank = shown_rank(b.seats, board, seat);
        Settling {
            history: b.history.push(
                EventView::ShowdownReveal {
                    seat,
                    player_id: p.player_id,
                    hole_cards: p.hole_cards,
                    rank_value: rank.0,
                },
            ),
            results: b.results.update(
                seat as int,
                Some(with_rank(b.results[seat as int], p.player_id, rank)),
            ),
            ..b
        }
    }
}

/// The share of the `j`-th of `n` winners in a pot: an equal part, and
/// one chip more for the first winners as long as the remainder lasts.
pub open spec fn prize(amount: Chips, n: int, j: int) -> Chips {
    Chips(
        (amount.0 / (n as u64) + if j < amount.0 % (n as u64) {
            1int
        } else {
            0int
        }) as u64,
    )
}

/// The showdown once the first `j` winners have been paid their share of
/// a pot.
pub open spec fn awarded(st: Settling, winners: Seq<SeatIndex>, amount: Chips, j: int) -> Settling
    decreases j,
{
    if j <= 0 {
        st
    } else {
        let b = awarded(st, winners, amount, j - 1);
        let seat = winners[j - 1];
        let p = b.seats[seat as int].unwrap();
        let won = prize(amount, winners.len() as int, j - 1);
        Settling {
            seats: b.seats.update(
                seat as int,
                Some(PlayerView { stack: Chips::sat_add(p.stack, won), ..p }),
            ),
            history: b.history.push(
                EventView::PotAwarded { seat, player_id: p.player_id, amount: won },
            ),
            results: b.results.update(
                seat as int,
                Some(with_prize(b.results[seat as int], p.player_id, won)),
            ),
        }
    }
}

/// The seats that contest a pot: its eligible seats whose players show
/// cards.
pub open spec fn pot_candidates(
    seats: Seq<Option<PlayerView>>,
    board: Seq<Card>,
    pot: side_pots::SidePotView,
) -> Seq<SeatIndex> {
    pot.eligible_seats.filter(can_show(seats, board))
}

/// The seats that win a pot: the candidates with the best rank.
pub open spec fn pot_winners(
    seats: Seq<Option<PlayerView>>,
    board: Seq<Card>,
    pot: side_pots::SidePotView,
) -> Seq<SeatIndex> {
    let cands = pot_candidates(seats, board, pot);
    cands.filter(has_rank(seats, board, top_rank(seats, board, cands, cands.len() as int)))
}

/// The showdown once one more pot is settled: its candidates show their
/// cards in the order of its eligible seats, and those with the best rank
/// split it.
pub open spec fn after_pot(st: Settling, board: Seq<Card>, pot: side_pots::SidePotView)
    -> Settling {
    let cands = pot_candidates(st.seats, board, pot);
    let winners = pot_winners(st.seats, board, pot);
    awarded(
        revealed(st, board, cands, cands.len() as int),
        winners,
        pot.amount,
        winners.len() as int,
    )
}

/// The showdown once the first `k` pots are settled.
pub open spec fn after_pots(
    st: Settling,
    board: Seq<Card>,
    pots: Seq<side_pots::SidePotView>,
    k: int,
) -> Settling
    decreases k,
{
    if k <= 0 {
        st
    } else {
        after_pot(after_pots(st, board, pots, k - 1), board, pots[k - 1])
    }
}

/// The results that are set among the first `n`, in rising order of the
/// seats.
pub open spec fn present(results: Seq<Option<PlayerHandResult>>, n: int) -> Seq<PlayerHandResult>
    decreases n,
{
    if n <= 0 {
        Seq::empty()
    } else {
        match results[n - 1] {
            Some(r) => present(results, n - 1).push(r),
            None => present(results, n - 1),
        }
    }
}

/// The side pots as they stand at the showdown: each layer with the seats
/// that contest it, which are the seats that reached it and show cards.
pub open spec fn contested_pots(
    seats: Seq<Option<PlayerView>>,
    board: Seq<Card>,
    pots: Seq<side_pots::SidePotView>,
) -> Seq<side_pots::SidePotView> {
    Seq::new(
        pots.len(),
        |k: int|
            side_pots::SidePotView {
                amount: pots[k].amount,
                eligible_seats: pot_candidates(seats, board, pots[k]),
            },
    )
}

/// The hand once the showdown is over.
///
/// The side pots are worked out from what the seats put in and settled
/// from the lowest layer up. Then the history records the end, the
/// players without chips are marked as busted, and nobody is to act. The
/// summary lists the result of every player who showed cards or won, in
/// rising order of the seats.
///
/// A layer that only folded seats reached has nobody to win it: its chips
/// are awarded to no one and leave play. That happens where a player who
/// folded had put in more than everyone who stayed, as a big blind who
/// folds to two shorter all-ins. What is awarded is the whole pot exactly
/// where every layer is contested (`invariants::pots_contested`).
pub open spec fn showdown(v: HandView, f: HandFrame) -> (HandView, SummaryView) {
    let pots = side_pots::side_pots_of(v.contributions);
    let start = Settling {
        seats: v.seats,
        history: v.history,
        results: Seq::new(v.seats.len(), |i: int| None::<PlayerHandResult>),
    };
    let end = after_pots(start, v.board, pots, pots.len() as int);
    (
        HandView {
            seats: busted_marked(end.seats),
            street: Street::Showdown,
            in_progress: false,
            table_pot: Chips(0),
            side_pots: contested_pots(v.seats, v.board, pots),
            to_act: Seq::empty(),
            current_actor: None,
            history: end.history.push(
                EventView::HandFinished { hand_id: f.hand_id, table_id: f.table_id },
            ),
            ..v
        },
        SummaryView {
            hand_id: f.hand_id,
            table_id: f.table_id,
            street_reached: Street::Showdown,
            board: v.board,
            total_pot: v.pot,
            results: present(end.results, end.results.len() as int),
        },
    )
}

/// Whether the player at a seat shows cards.
fn seat_shows_cards(table: &Table, seat: SeatIndex) -> (b: bool)
    ensures
        b == shows_cards(table.seating(), table.board@, seat as int),
{
    if seat as usize >= table.seats.len() {
        return false;
    }
    match &table.seats[seat as usize] {
        Some(p) => {
            let out = match p.status {
                PlayerStatus::Folded => true,
                PlayerStatus::Busted => true,
                _ => false,
            };
            let holes = p.hole_cards.len();
            let board = table.board.len();
            !out && holes <= 7 && board <= 7 && 5 <= holes + board && holes + board <= 7
        },
        None => false,
    }
}

/// The seats that contest a pot.
fn candidates_of(table: &Table, pot: &SidePot) -> (cands: Vec<SeatIndex>)
    ensures
        cands@ == pot_candidates(table.seating(), table.board@, pot@),
{
    let ghost show = can_show(table.seating(), table.board@);
    let mut cands: Vec<SeatIndex> = Vec::new();
    let mut i: usize = 0;
    while i < pot.eligible_seats.len()
        invariant
            i <= pot.eligible_seats@.len(),
            show == can_show(table.seating(), table.board@),
            cands@ == pot.eligible_seats@.take(i as int).filter(show),
        decreases pot.eligible_seats@.len() - i,
    {
        proof {
            crate::seq_util::filter_step(pot.eligible_seats@, show, i as int);
        }
        if seat_shows_cards(table, pot.eligible_seats[i]) {
            cands.push(pot.eligible_seats[i]);
        }
        i += 1;
    }
    proof {
        crate::seq_util::take_all(pot.eligible_seats@);
    }
    cands
}

/// Settles one pot: its candidates show their cards, and those with the
/// best rank split it; the remainder goes chip by chip to the first of
/// them.
fn settle_pot(
    table: &mut Table,
    engine: &mut HandEngine,
    results: &mut Vec<Option<PlayerHandResult>>,
    pot: &SidePot,
)
    requires
        old(results)@.len() == old(table).seats@.len(),
    ensures
        (Settling {
            seats: final(table).seating(),
            history: final(engine).history@,
            results: final(results)@,
        }) == after_pot(
            Settling {
                seats: old(table).seating(),
                history: old(engine).history@,
                results: old(results)@,
            },
            old(table).board@,
            pot@,
        ),
        final(results)@.len() == final(table).seats@.len(),
        final(table).seats@.len() == old(table).seats@.len(),
        final(table).id == old(table).id,
        final(table).name == old(table).name,
        final(table).config == old(table).config,
        final(table).board == old(table).board,
        final(table).dealer_button == old(table).dealer_button,
        final(table).current_hand_id == old(table).current_hand_id,
        final(table).street == old(table).street,
        final(table).hand_in_progress == old(table).hand_in_progress,
        final(table).total_pot == old(table).total_pot,
        final(engine).table_id == old(engine).table_id,
        final(engine).hand_id == old(engine).hand_id,
        final(engine).deck == old(engine).deck,
        final(engine).betting == old(engine).betting,
        final(engine).pot == old(engine).pot,
        final(engine).side_pots == old(engine).side_pots,
        final(engine).contributions == old(engine).contributions,
        final(engine).current_actor == old(engine).current_actor,
        final(engine).history.events@.len() >= old(engine).history.events@.len(),
        old(engine).history.numbered() && final(engine).history.events@.len() <= u32::MAX + 1
            ==> final(engine).history.numbered(),
{
    let ghost seats = table.seating();
    let ghost board = table.board@;
    let ghost st0 = Settling { seats, history: engine.history@, results: results@ };
    let ghost show = can_show(seats, board);

    // Who contests the pot.
    let cands = candidates_of(table, pot);
    proof {
        crate::seq_util::filter_facts(pot.eligible_seats@, show);
    }
    // The candidates show their cards.
    let mut ranks: Vec<HandRank> = Vec::new();
    let mut top: u32 = 0;
    let mut j: usize = 0;
    while j < cands.len()
        invariant
            j <= cands@.len(),
            seats == table.seating(),
            board == table.board@,
            *table == *old(table),
            results@.len() == seats.len(),
            forall|k: int| 0 <= k < cands@.len() ==> show(#[trigger] cands@[k]),
            show == can_show(seats, board),
            ranks@.len() == j,
            forall|k: int| 0 <= k < j ==> ranks@[k] == shown_rank(seats, board, cands@[k]),
            top == top_rank(seats, board, cands@, j as int),
            (Settling { seats, history: engine.history@, results: results@ }) == revealed(
                st0,
                board,
                cands@,
                j as int,
            ),
            engine.table_id == old(engine).table_id,
            engine.hand_id == old(engine).hand_id,
            engine.deck == old(engine).deck,
            engine.betting == old(engine).betting,
            engine.pot == old(engine).pot,
            engine.side_pots == old(engine).side_pots,
            engine.contributions == old(engine).contributions,
            engine.current_actor == old(engine).current_actor,
            engine.history.events@.len() >= old(engine).history.events@.len(),
            old(engine).history.numbered() && engine.history.events@.len() <= u32::MAX + 1
                ==> engine.history.numbered(),
        decreases cands@.len() - j,
    {
        let seat = cands[j];
        assert(show(cands@[j as int]));
        match &table.seats[seat as usize] {
            Some(p) => {
                let rank = evaluate_best_hand(p.hole_cards.as_slice(), table.board.as_slice());
                proof {
                    evaluator::best_rank_is(p.hole_cards@ + table.board@, rank);
                }
                engine.history.push(
                    HandEventKind::ShowdownReveal {
                        seat,
                        player_id: p.player_id,
                        hole_cards: p.hole_cards.clone(),
                        rank_value: rank.0,
                    },
                );
                let entry = match results[seat as usize] {
                    Some(r) => PlayerHandResult { rank: Some(rank), ..r },
                    None => PlayerHandResult {
                        player_id: p.player_id,
                        rank: Some(rank),
                        net_chips: Chips(0),
                        is_winner: false,
                    },
                };
                results.set(seat as usize, Some(entry));
                if rank.0 > top {
                    top = rank.0;
                }
                ranks.push(rank);
            },
            None => {
                assert(false);
            },
        }
        j += 1;
    }

    // Those with the best rank win.
    let ghost best = has_rank(seats, board, top);
    let mut winners: Vec<SeatIndex> = Vec::new();
    let mut j: usize = 0;
    while j < cands.len()
        invariant
            j <= cands@.len(),
            ranks@.len() == cands@.len(),
            forall|k: int|
                0 <= k < cands@.len() ==> ranks@[k] == shown_rank(seats, board, cands@[k]),
            best == has_rank(seats, board, top),
            winners@ == cands@.take(j as int).filter(best),
            winners@.len() <= j,
        decreases cands@.len() - j,
    {
        proof {
            crate::seq_util::filter_step(cands@, best, j as int);
        }
        if ranks[j].0 == top {
            winners.push(cands[j]);
        }
        j += 1;
    }
    proof {
        crate::seq_util::take_all(cands@);
        crate::seq_util::filter_facts(cands@, best);
        assert(winners@ == pot_winners(seats, board, pot@));
        assert forall|k: int| 0 <= k < winners@.len() implies show(#[trigger] winners@[k]) by {
            assert(cands@.contains(winners@[k]));
            let c = choose|c: int| 0 <= c < cands@.len() && cands@[c] == winners@[k];
            assert(show(cands@[c]));
        }
    }
    if winners.len() == 0 {
        return ;
    }

    // The winners split the pot.
    let count = winners.len() as u64;
    let share = pot.amount.0 / count;
    let remainder = pot.amount.0 % count;
    let ghost shown = Settling { seats, history: engine.history@, results: results@ };
    let mut j: usize = 0;
    while j < winners.len()
        invariant
            j <= winners@.len(),
            0 < winners@.len(),
            count == winners@.len(),
            share == pot.amount.0 / count,
            remainder == pot.amount.0 % count,
            board == table.board@,
            forall|k: int| 0 <= k < winners@.len() ==> show(#[trigger] winners@[k]),
            show == can_show(seats, board),
            results@.len() == seats.len(),
            table.seats@.len() == seats.len(),
            forall|i: int| 0 <= i < seats.len() ==> (#[trigger] table.seating()[i] is Some) == (
            seats[i] is Some),
            (Settling { seats: table.seating(), history: engine.history@, results: results@ })
                == awarded(shown, winners@, pot.amount, j as int),
            table.id == old(table).id,
            table.name == old(table).name,
            table.config == old(table).config,
            table.board == old(table).board,
            table.dealer_button == old(table).dealer_button,
            table.current_hand_id == old(table).current_hand_id,
            table.street == old(table).street,
            table.hand_in_progress == old(table).hand_in_progress,
            table.total_pot == old(table).total_pot,
            engine.table_id == old(engine).table_id,
            engine.hand_id == old(engine).hand_id,
            engine.deck == old(engine).deck,
            engine.betting == old(engine).betting,
            engine.pot == old(engine).pot,
            engine.side_pots == old(engine).side_pots,
            engine.contributions == old(engine).contributions,
            engine.current_actor == old(engine).current_actor,
            engine.history.events@.len() >= old(engine).history.events@.len(),
            old(engine).history.numbered() && engine.history.events@.len() <= u32::MAX + 1
                ==> engine.history.numbered(),
        decreases winners@.len() - j,
    {
        let seat = winners[j];
        assert(show(winners@[j as int]));
        assert(table.seating()[seat as int] is Some);
        let extra: u64 = if (j as u64) < remainder {
            1
        } else {
            0
        };
        assert(share + extra <= pot.amount.0) by (nonlinear_arith)
            requires
                share == pot.amount.0 / count,
                remainder == pot.amount.0 % count,
                count >= 1,
                extra == 0 || (extra == 1 && remainder >= 1),
        ;
        let won = Chips(share + extra);
        assert(won == prize(pot.amount, winners@.len() as int, j as int));
        let ghost before = table.seating();
        let mut player_id: u64 = 0;
        match &mut table.seats[seat as usize] {
            Some(p) => {
                p.stack = p.stack.saturating_add(won);
                player_id = p.player_id;
            },
            None => {
                assert(false);
            },
        }
        proof {
            let p = before[seat as int].unwrap();
            assert(table.seating() =~= before.update(
                seat as int,
                Some(PlayerView { stack: Chips::sat_add(p.stack, won), ..p }),
            ));
        }
        engine.history.push(HandEventKind::PotAwarded { seat, player_id, amount: won });
        let entry = match results[seat as usize] {
            Some(r) => PlayerHandResult {
                net_chips: r.net_chips.saturating_add(won),
                is_winner: true,
                ..r
            },
            None => PlayerHandResult { player_id, rank: None, net_chips: won, is_winner: true },
        };
        results.set(seat as usize, Some(entry));
        j += 1;
    }
}

/// Ends a hand with a showdown: the side pots are worked out and settled
/// one by one, and the players without chips are marked as busted.
///
/// The chips of a layer that only folded seats reached are awarded to no
/// one; the awards add up to the pot where every layer is contested
/// (`invariants::showdown_pays_the_pot`).
pub fn finish_hand_with_showdown(table: &mut Table, engine: &mut HandEngine) -> (summary:
    HandSummary)
    requires
        old(table).wf(),
    ensures
        (hand_view(*final(table), *final(engine)), summary@) == showdown(
            hand_view(*old(table), *old(engine)),
            hand_frame(*old(table), *old(engine)),
        ),
        same_frame(*old(table), *old(engine), *final(table), *final(engine)),
        final(engine).history.events@.len() >= old(engine).history.events@.len(),
        old(engine).history.numbered() && final(engine).history.events@.len() <= u32::MAX + 1
            ==> final(engine).history.numbered(),
{
    let ghost v = hand_view(*table, *engine);
    let ghost f = hand_frame(*table, *engine);
    table.street = Street::Showdown;
    let pots = compute_side_pots(&engine.contributions);
    let ghost views = side_pots::pot_views(pots@);
    let mut contested: Vec<SidePot> = Vec::new();
    let mut c: usize = 0;
    while c < pots.len()
        invariant
            c <= pots@.len(),
            views == side_pots::pot_views(pots@),
            table.seating() == v.seats,
            table.board@ == v.board,
            contested@.len() == c,
            forall|k: int|
                0 <= k < c ==> (#[trigger] contested@[k])@ == contested_pots(
                    v.seats,
                    v.board,
                    views,
                )[k],
        decreases pots@.len() - c,
    {
        let eligible_seats = candidates_of(table, &pots[c]);
        assert(views[c as int] == pots@[c as int]@);
        contested.push(SidePot { amount: pots[c].amount, eligible_seats });
        c += 1;
    }
    assert(side_pots::pot_views(contested@) =~= contested_pots(v.seats, v.board, views));
    engine.side_pots = contested;

    let n = table.seats.len();
    let mut results: Vec<Option<PlayerHandResult>> = Vec::new();
    let mut i: usize = 0;
    while i < n
        invariant
            i <= n,
            results@.len() == i,
            forall|j: int| 0 <= j < i ==> results@[j] is None,
        decreases n - i,
    {
        results.push(None);
        i += 1;
    }
    let ghost start = Settling { seats: v.seats, history: v.history, results: results@ };
    assert(start.results =~= Seq::new(v.seats.len(), |i: int| None::<PlayerHandResult>));

    let mut k: usize = 0;
    while k < pots.len()
        invariant
            k <= pots@.len(),
            views == side_pots::pot_views(pots@),
            v == hand_view(*old(table), *old(engine)),
            start == (Settling {
                seats: v.seats,
                history: v.history,
                results: Seq::new(v.seats.len(), |i: int| None::<PlayerHandResult>),
            }),
            (Settling { seats: table.seating(), history: engine.history@, results: results@ })
                == after_pots(start, v.board, views, k as int),
            results@.len() == table.seats@.len(),
            table.seats@.len() == old(table).seats@.len(),
            table.id == old(table).id,
            table.name == old(table).name,
            table.config == old(table).config,
            table.board == old(table).board,
            table.dealer_button == old(table).dealer_button,
            table.current_hand_id == old(table).current_hand_id,
            table.street == Street::Showdown,
            table.hand_in_progress == old(table).hand_in_progress,
            table.total_pot == old(table).total_pot,
            engine.table_id == old(engine).table_id,
            engine.hand_id == old(engine).hand_id,
            engine.deck == old(engine).deck,
            engine.betting == old(engine).betting,
            engine.pot == old(engine).pot,
            side_pots::pot_views(engine.side_pots@) == contested_pots(v.seats, v.board, views),
            engine.contributions == old(engine).contributions,
            engine.current_actor == old(engine).current_actor,
            engine.history.events@.len() >= old(engine).history.events@.len(),
            old(engine).history.numbered() && engine.history.events@.len() <= u32::MAX + 1
                ==> engine.history.numbered(),
        decreases pots@.len() - k,
    {
        settle_pot(table, engine, &mut results, &pots[k]);
        k += 1;
    }
    engine.history.push(
        HandEventKind::HandFinished { hand_id: engine.hand_id, table_id: engine.table_id },
    );
    update_busted_statuses_after_hand(table);
    table.total_pot = Chips(0);
    table.hand_in_progress = false;
    engine.current_actor = None;
    engine.betting.to_act = Vec::new();

    let mut listed: Vec<PlayerHandResult> = Vec::new();
    let mut i: usize = 0;
    while i < results.len()
        invariant
            i <= results@.len(),
            listed@ == present(results@, i as int),
        decreases results@.len() - i,
    {
        match results[i] {
            Some(r) => {
                listed.push(r);
            },
            None => {},
        }
        i += 1;
    }
    let summary = HandSummary {
        hand_id: engine.hand_id,
        table_id: engine.table_id,
        street_reached: table.street,
        board: table.board.clone(),
        total_pot: engine.pot.total,
        results: listed,
    };
    proof {
        let want = showdown(v, f);
        assert(hand_view(*table, *engine).to_act =~= want.0.to_act);
        assert(hand_view(*table, *engine) == want.0);
        assert(summary@ == want.1);
    }
    summary
}

/// What moving on gives: the hand on a later street, or the hand settled
/// with its summary.
pub struct Advance {
    pub view: HandView,
    pub summary: Option<SummaryView>,
}

/// How many streets lie ahead of a street.
pub open spec fn streets_left(street: Street) -> nat {
    match street {
        Street::Preflop => 4,
        Street::Flop => 3,
        Street::Turn => 2,
        Street::River => 1,
        Street::Showdown => 0,
    }
}

/// The hand once it has moved on from a finished betting round.
///
/// Before the river the next street is dealt, three cards for the flop
/// and one for the turn and the river; where nobody can bet on the new
/// street, the hand moves on again. After the river comes the showdown.
pub open spec fn advanced(v: HandView, f: HandFrame) -> Advance
    decreases streets_left(v.street),
{
    match v.street {
        Street::Preflop => {
            let w = next_street(v, f, 3, Street::Flop);
            if w.to_act.len() > 0 {
                Advance { view: w, summary: None }
            } else {
                advanced(w, f)
            }
        },
        Street::Flop => {
            let w = next_street(v, f, 1, Street::Turn);
            if w.to_act.len() > 0 {
                Advance { view: w, summary: None }
            } else {
                advanced(w, f)
            }
        },
        Street::Turn => {
            let w = next_street(v, f, 1, Street::River);
            if w.to_act.len() > 0 {
                Advance { view: w, summary: None }
            } else {
                advanced(w, f)
            }
        },
        Street::River => {
            let (w, summary) = showdown(v, f);
            Advance { view: w, summary: Some(summary) }
        },
        Street::Showdown => Advance { view: v, summary: None },
    }
}

/// The status says what the move gave: the hand goes on, or it is
/// finished with this summary and the whole history.
pub open spec fn reports(status: HandStatus, moved: Advance) -> bool {
    match moved.summary {
        None => status is Ongoing,
        Some(s) => status matches HandStatus::Finished(summary, history) && summary@ == s
            && history@ == moved.view.history,
    }
}

/// Moves the hand on from a finished betting round: to the next street,
/// or to the showdown after the river. On the showdown street there is
/// nothing to move on to: that is an internal error, and nothing
/// changes.
pub fn advance_if_needed(table: &mut Table, engine: &mut HandEngine) -> (r: Result<
    HandStatus,
    EngineError,
>)
    requires
        old(table).wf(),
    ensures
        old(table).street == Street::Showdown ==> (r matches Err(EngineError::Internal(_))
            && *final(table) == *old(table) && *final(engine) == *old(engine)),
        old(table).street != Street::Showdown ==> (r matches Ok(status) && {
            let moved = advanced(
                hand_view(*old(table), *old(engine)),
                hand_frame(*old(table), *old(engine)),
            );
            &&& hand_view(*final(table), *final(engine)) == moved.view
            &&& reports(status, moved)
        }),
        same_frame(*old(table), *old(engine), *final(table), *final(engine)),
        final(engine).history.events@.len() >= old(engine).history.events@.len(),
        old(engine).history.numbered() && final(engine).history.events@.len() <= u32::MAX + 1
            ==> final(engine).history.numbered(),
{
    let ghost f = hand_frame(*table, *engine);
    let ghost goal = advanced(hand_view(*table, *engine), f);
    loop
        invariant
            table.wf(),
            f == hand_frame(*old(table), *old(engine)),
            f == hand_frame(*table, *engine),
            same_frame(*old(table), *old(engine), *table, *engine),
            old(table).street != Street::Showdown ==> table.street != Street::Showdown && goal
                == advanced(hand_view(*table, *engine), f),
            old(table).street == Street::Showdown ==> *table == *old(table) && *engine == *old(engine),
            goal == advanced(
                hand_view(*old(table), *old(engine)),
                hand_frame(*old(table), *old(engine)),
            ),
            engine.history.events@.len() >= old(engine).history.events@.len(),
            old(engine).history.numbered() && engine.history.events@.len() <= u32::MAX + 1
                ==> engine.history.numbered(),
        decreases streets_left(table.street),
    {
        let (count, street) = match table.street {
            Street::Preflop => (3usize, Street::Flop),
            Street::Flop => (1usize, Street::Turn),
            Street::Turn => (1usize, Street::River),
            Street::River => {
                let summary = finish_hand_with_showdown(table, engine);
                let history = engine.history.clone();
                return Ok(HandStatus::Finished(summary, history));
            },
            Street::Showdown => {
                return Err(EngineError::Internal("the hand is already at the showdown"));
            },
        };
        deal_board_cards(table, engine, count, street);
        reset_bets_for_new_street(table, engine, street);
        if engine.betting.to_act.len() > 0 {
            return Ok(HandStatus::Ongoing);
        }
    }
}

/// Why an action is refused, or `None` where it is applied.
///
/// The checks come in this order: a hand is in progress; the seat
/// exists; it is taken; it is taken by the player who acts; it is that
/// seat's turn; the rules of betting allow the action. A hand that is in
/// progress is never at the showdown: there the action is refused as an
/// internal error.
pub open spec fn acting_refusal(v: HandView, action: PlayerAction) -> Option<EngineError> {
    if !v.in_progress {
        Some(EngineError::NoActiveHand)
    } else if action.seat >= v.seats.len() {
        Some(EngineError::InvalidSeat(action.seat))
    } else {
        match v.seats[action.seat as int] {
            None => Some(EngineError::EmptySeat),
            Some(p) => if p.player_id != action.player_id {
                Some(EngineError::PlayerNotAtTable(action.player_id))
            } else if v.current_actor != Some(action.seat) {
                Some(EngineError::NotPlayersTurn(action.player_id))
            } else {
                match validation::refusal(p, action.kind, v.current_bet, v.min_raise) {
                    Some(e) => Some(e),
                    None => if v.street == Street::Showdown {
                        Some(EngineError::Internal("the hand is already at the showdown"))
                    } else {
                        None
                    },
                }
            },
        }
    }
}

/// The chips that an action asks of the player, before the stack caps
/// them: nothing for a fold or a check, the difference to the street's
/// bet for a call, the bet for a bet, the difference to the new total
/// for a raise, the whole stack for all-in.
pub open spec fn asked(p: PlayerView, kind: PlayerActionKind, current_bet: Chips) -> Chips {
    match kind {
        PlayerActionKind::Fold => Chips(0),
        PlayerActionKind::Check => Chips(0),
        PlayerActionKind::Call => Chips::sat_sub(current_bet, p.current_bet),
        PlayerActionKind::Bet(amount) => amount,
        PlayerActionKind::Raise(target) => Chips::sat_sub(target, p.current_bet),
        PlayerActionKind::AllIn => p.stack,
    }
}

/// Whether an action moves chips.
pub open spec fn moves_chips(kind: PlayerActionKind) -> bool {
    kind != PlayerActionKind::Fold && kind != PlayerActionKind::Check
}

/// The chips that the player pays for an action: what is asked, or the
/// whole stack where that is less.
pub open spec fn payment(p: PlayerView, kind: PlayerActionKind, current_bet: Chips) -> Chips {
    min_chips(asked(p, kind, current_bet), p.stack)
}

/// The player after an action: a fold folds; a payment comes off the
/// stack and is added to the bet; a player who was asked for the whole
/// stack or more is all-in.
pub open spec fn after_paying(p: PlayerView, kind: PlayerActionKind, current_bet: Chips)
    -> PlayerView {
    let paid = payment(p, kind, current_bet);
    PlayerView {
        stack: Chips((p.stack.0 - paid.0) as u64),
        current_bet: Chips::sat_add(p.current_bet, paid),
        status: if kind == PlayerActionKind::Fold {
            PlayerStatus::Folded
        } else if moves_chips(kind) && p.stack.0 <= asked(p, kind, current_bet).0 {
            PlayerStatus::AllIn
        } else {
            p.status
        },
        ..p
    }
}

/// Whether an action raises the bet of the street: a bet and a raise do;
/// all-in does where it exceeds the bet, however little.
pub open spec fn raises(p: PlayerView, kind: PlayerActionKind, current_bet: Chips) -> bool {
    match kind {
        PlayerActionKind::Bet(_) => true,
        PlayerActionKind::Raise(_) => true,
        PlayerActionKind::AllIn => after_paying(p, kind, current_bet).current_bet.0
            > current_bet.0,
        _ => false,
    }
}

/// The hand once the player at a seat has acted, before it moves on.
///
/// The payment goes into the pot and into the seat's contribution. A
/// raise sets the street's bet to the player's bet, the minimum raise to
/// its excess over the bet before, the player as the aggressor, and all
/// who can still bet to act again, clockwise from the seat after the
/// player. The player is no longer to act, and the history records the
/// action.
pub open spec fn after_effect(v: HandView, seat: SeatIndex, kind: PlayerActionKind) -> HandView {
    let p = v.seats[seat as int].unwrap();
    let q = after_paying(p, kind, v.current_bet);
    let paid = payment(p, kind, v.current_bet);
    let seats = v.seats.update(seat as int, Some(q));
    let raised = raises(p, kind, v.current_bet);
    let pot = pot_with_more(v.pot, paid);
    HandView {
        seats,
        contributions: with_more(v.contributions, seat, paid),
        pot,
        current_bet: if raised {
            q.current_bet
        } else {
            v.current_bet
        },
        min_raise: if raised {
            Chips::sat_sub(q.current_bet, v.current_bet)
        } else {
            v.min_raise
        },
        last_aggressor: if raised {
            Some(seat)
        } else {
            v.last_aggressor
        },
        to_act: BettingState::without(
            if raised {
                BettingState::without(
                    positions::seats_from(seats, seat + 1, SeatTest::Active),
                    seat,
                )
            } else {
                v.to_act
            },
            seat,
        ),
        history: v.history.push(
            EventView::PlayerActed {
                player_id: p.player_id,
                seat,
                action: kind,
                new_stack: q.stack,
                pot_after: pot,
            },
        ),
        ..v
    }
}

/// The hand once an action is applied.
///
/// First the action takes effect. Then, where one contender is left, that
/// player takes the pot at once. Else, where nobody is left to act, the
/// hand moves on to the next street or the showdown. Else it is the turn
/// of the next player to act.
pub open spec fn after_action(v: HandView, f: HandFrame, seat: SeatIndex, kind: PlayerActionKind)
    -> Advance {
    let w = after_effect(v, seat, kind);
    if contenders(w.seats).len() == 1 {
        let (end, summary) = won_uncontested(w, f);
        Advance { view: end, summary: Some(summary) }
    } else if w.to_act.len() == 0 {
        advanced(w, f)
    } else {
        Advance { view: HandView { current_actor: Some(w.to_act[0]), ..w }, summary: None }
    }
}

/// Lets the action of a player take effect: chips, bets, the queue of
/// those to act, and the history.
fn take_effect(table: &mut Table, engine: &mut HandEngine, seat: SeatIndex, kind: PlayerActionKind)
    requires
        old(table).wf(),
        table::taken(old(table).seating(), seat as int),
    ensures
        hand_view(*final(table), *final(engine)) == after_effect(
            hand_view(*old(table), *old(engine)),
            seat,
            kind,
        ),
        same_frame(*old(table), *old(engine), *final(table), *final(engine)),
        final(engine).history.events@.len() >= old(engine).history.events@.len(),
        old(engine).history.numbered() && final(engine).history.events@.len() <= u32::MAX + 1
            ==> final(engine).history.numbered(),
{
    let bet_before = engine.betting.current_bet;
    let ghost seats = table.seating();
    let ghost held = seats[seat as int].unwrap();
    let mut paid = Chips(0);
    let mut player_id: u64 = 0;
    let mut new_stack = Chips(0);
    let mut new_bet = Chips(0);
    match &mut table.seats[seat as usize] {
        Some(p) => {
            let due = match kind {
                PlayerActionKind::Fold => Chips(0),
                PlayerActionKind::Check => Chips(0),
                PlayerActionKind::Call => bet_before.saturating_sub(p.current_bet),
                PlayerActionKind::Bet(amount) => amount,
                PlayerActionKind::Raise(target) => target.saturating_sub(p.current_bet),
                PlayerActionKind::AllIn => p.stack,
            };
            let moves = match kind {
                PlayerActionKind::Fold => false,
                PlayerActionKind::Check => false,
                _ => true,
            };
            let all_in = moves && p.stack.0 <= due.0;
            paid = take_from_stack(p, due);
            p.current_bet = p.current_bet.saturating_add(paid);
            match kind {
                PlayerActionKind::Fold => {
                    p.status = PlayerStatus::Folded;
                },
                _ => {
                    if all_in {
                        p.status = PlayerStatus::AllIn;
                    }
                },
            }
            player_id = p.player_id;
            new_stack = p.stack;
            new_bet = p.current_bet;
        },
        None => {
            assert(false);
        },
    }
    proof {
        assert(paid == payment(held, kind, bet_before));
        assert(table.seating() =~= seats.update(
            seat as int,
            Some(after_paying(held, kind, bet_before)),
        ));
    }
    add_contribution(engine, seat, paid);
    let raised = match kind {
        PlayerActionKind::Bet(_) => true,
        PlayerActionKind::Raise(_) => true,
        PlayerActionKind::AllIn => new_bet.0 > bet_before.0,
        _ => false,
    };
    if raised {
        let queue = collect_betting_order_after_raise(table, seat);
        engine.betting.on_raise(seat, new_bet, new_bet.saturating_sub(bet_before), queue);
    }
    engine.betting.mark_acted(seat);
    engine.history.push(
        HandEventKind::PlayerActed {
            player_id,
            seat,
            action: kind,
            new_stack,
            pot_after: engine.pot.total,
        },
    );
}

/// Applies the action of a player.
///
/// A refused action changes nothing. An applied action either leaves the
/// hand going, with the next player to act, or finishes it: then the
/// status carries the summary and the whole history.
pub fn apply_action(table: &mut Table, engine: &mut HandEngine, action: PlayerAction) -> (r:
    Result<HandStatus, EngineError>)
    requires
        old(table).wf(),
    ensures
        match acting_refusal(hand_view(*old(table), *old(engine)), action) {
            Some(e) => r == Err::<HandStatus, EngineError>(e) && *final(table) == *old(table)
                && *final(engine) == *old(engine),
            None => r matches Ok(status) && {
                let moved = after_action(
                    hand_view(*old(table), *old(engine)),
                    hand_frame(*old(table), *old(engine)),
                    action.seat,
                    action.kind,
                );
                &&& hand_view(*final(table), *final(engine)) == moved.view
                &&& reports(status, moved)
            },
        },
        same_frame(*old(table), *old(engine), *final(table), *final(engine)),
        final(engine).history.events@.len() >= old(engine).history.events@.len(),
        old(engine).history.numbered() && final(engine).history.events@.len() <= u32::MAX + 1
            ==> final(engine).history.numbered(),
        invariants::in_order(hand_view(*old(table), *old(engine))) ==> invariants::in_order(
            hand_view(*final(table), *final(engine)),
        ),
{
    proof {
        let v = hand_view(*table, *engine);
        if invariants::in_order(v) && acting_refusal(v, action) is None {
            invariants::action_keeps_order(v, hand_frame(*table, *engine), action);
        }
    }
    if !table.hand_in_progress {
        return Err(EngineError::NoActiveHand);
    }
    let seat = action.seat;
    if seat as usize >= table.seats.len() {
        return Err(EngineError::InvalidSeat(seat));
    }
    match &table.seats[seat as usize] {
        None => {
            return Err(EngineError::EmptySeat);
        },
        Some(player) => {
            if player.player_id != action.player_id {
                return Err(EngineError::PlayerNotAtTable(action.player_id));
            }
            let turn = match engine.current_actor {
                Some(actor) => actor == seat,
                None => false,
            };
            if !turn {
                return Err(EngineError::NotPlayersTurn(action.player_id));
            }
            match validate_action(player, &action.kind, &engine.betting) {
                Ok(()) => {},
                Err(e) => {
                    return Err(e);
                },
            }
        },
    }
    match table.street {
        Street::Showdown => {
            return Err(EngineError::Internal("the hand is already at the showdown"));
        },
        _ => {},
    }
    take_effect(table, engine, seat, action.kind);
    if count_active_players(table) == 1 {
        let summary = finish_hand_without_showdown(table, engine);
        let history = engine.history.clone();
        return Ok(HandStatus::Finished(summary, history));
    }
    if engine.betting.is_round_complete() {
        match advance_if_needed(table, engine) {
            Ok(status) => Ok(status),
            Err(e) => {
                proof {
                    assert(false);
                }
                Err(e)
            },
        }
    } else {
        engine.current_actor = Some(engine.betting.to_act[0]);
        Ok(HandStatus::Ongoing)
    }
}

} // verus!
