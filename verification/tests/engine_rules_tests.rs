use poker_engine::domain::{
    AnteType, Card, Chips, Deck, PlayerAtTable, PlayerStatus, Rank, Street, Suit, Table,
    TableConfig, TableStakes, TableType,
};
use poker_engine::engine::game_loop::{
    advance_if_needed, apply_action, start_hand, start_hand_with_deck, HandEngine, HandStatus,
};
use poker_engine::engine::hand_history::HandEventKind;
use poker_engine::engine::positions::{collect_seats_from, SeatTest};
use poker_engine::engine::{EngineError, PlayerAction, PlayerActionKind, RandomSource};

struct NoShuffle;

impl RandomSource for NoShuffle {
    fn shuffle<T>(&mut self, _slice: &mut [T]) {}
}

fn card(rank: Rank, suit: Suit) -> Card {
    Card::new(rank, suit)
}

fn table_with(max_seats: u8, stakes: TableStakes, stacks: &[(usize, u64)]) -> Table {
    let config = TableConfig {
        max_seats,
        table_type: TableType::Cash,
        stakes,
        allow_straddle: false,
        allow_run_it_twice: false,
    };
    let mut table = Table::new(7, "Rules".to_string(), config);
    for (seat, stack) in stacks {
        table.seats[*seat] = Some(PlayerAtTable::new(*seat as u64 + 1, Chips(*stack)));
    }
    table
}

fn blinds(sb: u64, bb: u64) -> TableStakes {
    TableStakes::new(Chips(sb), Chips(bb), AnteType::NoAnte, Chips(0))
}

/// A deck from which the cards come in the given order.
fn stacked_deck(draws: &[Card]) -> Deck {
    let mut cards = draws.to_vec();
    cards.reverse();
    Deck { cards }
}

fn act(
    table: &mut Table,
    engine: &mut HandEngine,
    seat: u8,
    kind: PlayerActionKind,
) -> Result<HandStatus, EngineError> {
    let player_id = table.seats[seat as usize].as_ref().map(|p| p.player_id).unwrap_or(0);
    apply_action(table, engine, PlayerAction { player_id, seat, kind })
}

fn stack(table: &Table, seat: usize) -> u64 {
    table.seats[seat].as_ref().unwrap().stack.0
}

fn check_invariants(table: &Table, engine: &HandEngine) {
    let put_in: u64 = engine.contributions.values().map(|c| c.0).sum();
    assert_eq!(put_in, engine.pot.total.0);
    match engine.current_actor {
        Some(seat) => {
            assert!(engine.betting.to_act.contains(&seat));
            assert_eq!(table.seats[seat as usize].as_ref().unwrap().status, PlayerStatus::Active);
        }
        None => {}
    }
    if !table.hand_in_progress {
        assert!(engine.current_actor.is_none());
        assert!(engine.betting.to_act.is_empty());
    }
    for seat in &engine.betting.to_act {
        let status = table.seats[*seat as usize].as_ref().unwrap().status;
        assert_eq!(status, PlayerStatus::Active);
    }
    for p in table.seats.iter().flatten() {
        assert!(p.current_bet.0 <= engine.betting.current_bet.0);
    }
    for (i, event) in engine.history.events.iter().enumerate() {
        assert_eq!(event.index as usize, i);
    }
}

#[test]
fn heads_up_hand_without_shuffle_runs_to_a_known_showdown() {
    let mut table = table_with(2, blinds(50, 100), &[(0, 1000), (1, 1000)]);
    let mut engine = start_hand(&mut table, &mut NoShuffle, 11).unwrap();

    assert_eq!(table.dealer_button, Some(0));
    assert_eq!(table.current_hand_id, Some(11));
    assert_eq!(
        table.seats[1].as_ref().unwrap().hole_cards,
        vec![card(Rank::Ace, Suit::Spades), card(Rank::Queen, Suit::Spades)]
    );
    assert_eq!(
        table.seats[0].as_ref().unwrap().hole_cards,
        vec![card(Rank::King, Suit::Spades), card(Rank::Jack, Suit::Spades)]
    );
    assert_eq!(stack(&table, 0), 950);
    assert_eq!(stack(&table, 1), 900);
    assert_eq!(engine.betting.last_aggressor, Some(1));
    assert_eq!(engine.betting.to_act, vec![0, 1]);
    assert_eq!(engine.deck.len(), 48);
    check_invariants(&table, &engine);

    assert!(matches!(
        act(&mut table, &mut engine, 0, PlayerActionKind::Call),
        Ok(HandStatus::Ongoing)
    ));
    assert_eq!(engine.pot.total, Chips(200));
    assert_eq!(engine.current_actor, Some(1));
    check_invariants(&table, &engine);

    assert!(matches!(
        act(&mut table, &mut engine, 1, PlayerActionKind::Check),
        Ok(HandStatus::Ongoing)
    ));
    assert_eq!(table.street, Street::Flop);
    assert_eq!(
        table.board,
        vec![
            card(Rank::Ten, Suit::Spades),
            card(Rank::Nine, Suit::Spades),
            card(Rank::Eight, Suit::Spades)
        ]
    );
    assert_eq!(engine.betting.to_act, vec![1, 0]);
    assert_eq!(engine.betting.current_bet, Chips(0));
    assert_eq!(engine.betting.min_raise, Chips(100));
    assert_eq!(engine.betting.last_aggressor, None);
    check_invariants(&table, &engine);

    for _street in 0..2 {
        assert!(matches!(
            act(&mut table, &mut engine, 1, PlayerActionKind::Check),
            Ok(HandStatus::Ongoing)
        ));
        assert!(matches!(
            act(&mut table, &mut engine, 0, PlayerActionKind::Check),
            Ok(HandStatus::Ongoing)
        ));
        check_invariants(&table, &engine);
    }
    assert_eq!(table.street, Street::River);
    assert_eq!(table.board.len(), 5);

    act(&mut table, &mut engine, 1, PlayerActionKind::Check).unwrap();
    let status = act(&mut table, &mut engine, 0, PlayerActionKind::Check).unwrap();
    let (summary, history) = match status {
        HandStatus::Finished(summary, history) => (summary, history),
        HandStatus::Ongoing => panic!("the hand must be over"),
    };

    assert_eq!(summary.hand_id, 11);
    assert_eq!(summary.table_id, 7);
    assert_eq!(summary.street_reached, Street::Showdown);
    assert_eq!(summary.total_pot, Chips(200));
    assert_eq!(summary.board, table.board);
    assert_eq!(summary.results.len(), 2);
    assert_eq!(summary.results[0].player_id, 1);
    assert_eq!(summary.results[0].rank.unwrap().0, 0x8BA987);
    assert_eq!(summary.results[0].net_chips, Chips(200));
    assert!(summary.results[0].is_winner);
    assert_eq!(summary.results[1].player_id, 2);
    assert_eq!(summary.results[1].rank.unwrap().0, 0x8A9876);
    assert_eq!(summary.results[1].net_chips, Chips(0));
    assert!(!summary.results[1].is_winner);

    assert_eq!(stack(&table, 0), 1100);
    assert_eq!(stack(&table, 1), 900);
    assert!(!table.hand_in_progress);
    assert_eq!(table.street, Street::Showdown);
    assert_eq!(table.total_pot, Chips(0));
    assert_eq!(engine.side_pots.len(), 1);
    assert_eq!(engine.side_pots[0].amount, Chips(200));
    assert_eq!(engine.side_pots[0].eligible_seats, vec![0, 1]);
    assert_eq!(history.events.len(), 24);
    assert_eq!(history, engine.history);
    assert!(matches!(
        history.events[20].kind,
        HandEventKind::ShowdownReveal { seat: 0, player_id: 1, rank_value: 0x8BA987, .. }
    ));
    assert!(matches!(
        history.events[22].kind,
        HandEventKind::PotAwarded { seat: 0, player_id: 1, amount: Chips(200) }
    ));
    assert!(matches!(
        history.events[23].kind,
        HandEventKind::HandFinished { hand_id: 11, table_id: 7 }
    ));
    check_invariants(&table, &engine);
}

fn tie_deck() -> Deck {
    stacked_deck(&[
        card(Rank::Ten, Suit::Diamonds),
        card(Rank::Four, Suit::Clubs),
        card(Rank::Ten, Suit::Clubs),
        card(Rank::Three, Suit::Clubs),
        card(Rank::Five, Suit::Diamonds),
        card(Rank::Two, Suit::Diamonds),
        card(Rank::Ace, Suit::Spades),
        card(Rank::King, Suit::Diamonds),
        card(Rank::Queen, Suit::Clubs),
        card(Rank::Jack, Suit::Hearts),
        card(Rank::Nine, Suit::Spades),
    ])
}

#[test]
fn split_pot_gives_the_odd_chip_to_the_lowest_seat() {
    let mut table = table_with(3, blinds(1, 3), &[(0, 100), (1, 100), (2, 100)]);
    let mut engine = start_hand_with_deck(&mut table, tie_deck(), 1).unwrap();
    assert_eq!(table.dealer_button, Some(0));
    assert_eq!(engine.betting.to_act, vec![0, 1, 2]);
    assert_eq!(
        table.seats[0].as_ref().unwrap().hole_cards,
        vec![card(Rank::Ten, Suit::Clubs), card(Rank::Two, Suit::Diamonds)]
    );

    act(&mut table, &mut engine, 0, PlayerActionKind::Call).unwrap();
    act(&mut table, &mut engine, 1, PlayerActionKind::Call).unwrap();
    act(&mut table, &mut engine, 2, PlayerActionKind::Check).unwrap();
    assert_eq!(engine.pot.total, Chips(9));
    assert_eq!(table.street, Street::Flop);
    assert_eq!(engine.betting.to_act, vec![1, 2, 0]);

    let mut last = HandStatus::Ongoing;
    for _street in 0..3 {
        for seat in [1u8, 2, 0] {
            last = act(&mut table, &mut engine, seat, PlayerActionKind::Check).unwrap();
        }
    }
    let summary = match last {
        HandStatus::Finished(summary, _) => summary,
        HandStatus::Ongoing => panic!("the hand must be over"),
    };

    assert_eq!(stack(&table, 0), 102);
    assert_eq!(stack(&table, 1), 101);
    assert_eq!(stack(&table, 2), 97);
    assert_eq!(summary.results[0].net_chips, Chips(5));
    assert_eq!(summary.results[1].net_chips, Chips(4));
    assert_eq!(summary.results[2].net_chips, Chips(0));
    assert!(summary.results[0].is_winner && summary.results[1].is_winner);
    assert!(!summary.results[2].is_winner);
    assert_eq!(summary.results[0].rank, summary.results[1].rank);
    let awarded: u64 = summary.results.iter().map(|r| r.net_chips.0).sum();
    assert_eq!(awarded, summary.total_pot.0);
}

fn side_pot_deck() -> Deck {
    stacked_deck(&[
        card(Rank::Three, Suit::Diamonds),
        card(Rank::King, Suit::Spades),
        card(Rank::Ace, Suit::Spades),
        card(Rank::Four, Suit::Diamonds),
        card(Rank::Queen, Suit::Diamonds),
        card(Rank::Ace, Suit::Hearts),
        card(Rank::Two, Suit::Clubs),
        card(Rank::Seven, Suit::Diamonds),
        card(Rank::Nine, Suit::Hearts),
        card(Rank::Jack, Suit::Spades),
        card(Rank::King, Suit::Clubs),
    ])
}

#[test]
fn uneven_all_ins_are_settled_layer_by_layer() {
    let mut table = table_with(3, blinds(5, 10), &[(0, 100), (1, 200), (2, 400)]);
    let mut engine = start_hand_with_deck(&mut table, side_pot_deck(), 1).unwrap();

    act(&mut table, &mut engine, 0, PlayerActionKind::AllIn).unwrap();
    assert_eq!(engine.betting.current_bet, Chips(100));
    assert_eq!(engine.betting.min_raise, Chips(90));
    assert_eq!(engine.betting.last_aggressor, Some(0));
    assert_eq!(engine.betting.to_act, vec![1, 2]);
    check_invariants(&table, &engine);

    act(&mut table, &mut engine, 1, PlayerActionKind::AllIn).unwrap();
    assert_eq!(engine.betting.current_bet, Chips(200));
    assert_eq!(engine.betting.to_act, vec![2]);
    check_invariants(&table, &engine);

    let status = act(&mut table, &mut engine, 2, PlayerActionKind::Call).unwrap();
    assert!(matches!(status, HandStatus::Ongoing));
    assert_eq!(table.street, Street::Flop);
    assert_eq!(engine.pot.total, Chips(500));
    assert_eq!(engine.contributions.get(&0), Some(&Chips(100)));
    assert_eq!(engine.contributions.get(&1), Some(&Chips(200)));
    assert_eq!(engine.contributions.get(&2), Some(&Chips(200)));
    assert_eq!(engine.betting.to_act, vec![2]);
    check_invariants(&table, &engine);

    act(&mut table, &mut engine, 2, PlayerActionKind::Check).unwrap();
    act(&mut table, &mut engine, 2, PlayerActionKind::Check).unwrap();
    let status = act(&mut table, &mut engine, 2, PlayerActionKind::Check).unwrap();
    let summary = match status {
        HandStatus::Finished(summary, _) => summary,
        HandStatus::Ongoing => panic!("the hand must be over"),
    };

    assert_eq!(engine.side_pots.len(), 2);
    assert_eq!(engine.side_pots[0].amount, Chips(300));
    assert_eq!(engine.side_pots[0].eligible_seats, vec![0, 1, 2]);
    assert_eq!(engine.side_pots[1].amount, Chips(200));
    assert_eq!(engine.side_pots[1].eligible_seats, vec![1, 2]);

    assert_eq!(stack(&table, 0), 300);
    assert_eq!(stack(&table, 1), 0);
    assert_eq!(stack(&table, 2), 400);
    assert_eq!(table.seats[1].as_ref().unwrap().status, PlayerStatus::Busted);
    assert_eq!(table.seats[0].as_ref().unwrap().status, PlayerStatus::AllIn);

    let awarded: u64 = summary.results.iter().map(|r| r.net_chips.0).sum();
    assert_eq!(awarded, 500);
    assert_eq!(summary.total_pot, Chips(500));
    assert_eq!(summary.results[0].net_chips, Chips(300));
    assert_eq!(summary.results[1].net_chips, Chips(0));
    assert_eq!(summary.results[2].net_chips, Chips(200));
    check_invariants(&table, &engine);
}

#[test]
fn with_everybody_all_in_the_hand_runs_out_at_once() {
    let mut table = table_with(2, blinds(5, 10), &[(0, 100), (1, 100)]);
    let mut engine = start_hand(&mut table, &mut NoShuffle, 3).unwrap();

    assert!(matches!(
        act(&mut table, &mut engine, 0, PlayerActionKind::AllIn),
        Ok(HandStatus::Ongoing)
    ));
    let status = act(&mut table, &mut engine, 1, PlayerActionKind::Call).unwrap();
    assert!(matches!(status, HandStatus::Finished(_, _)));
    assert_eq!(table.board.len(), 5);
    assert_eq!(table.street, Street::Showdown);
    assert!(!table.hand_in_progress);
    assert!(engine.current_actor.is_none());
    assert!(engine.betting.to_act.is_empty());
    assert_eq!(stack(&table, 0) + stack(&table, 1), 200);
    assert_eq!(stack(&table, 0), 200);
    assert_eq!(table.seats[1].as_ref().unwrap().status, PlayerStatus::Busted);
    check_invariants(&table, &engine);
}

#[test]
fn folding_to_one_player_pays_the_pot_without_a_showdown() {
    let mut table = table_with(4, blinds(50, 100), &[(0, 1000), (2, 1000), (3, 1000)]);
    let mut engine = start_hand(&mut table, &mut NoShuffle, 1).unwrap();
    assert_eq!(table.dealer_button, Some(0));
    assert_eq!(engine.betting.to_act, vec![0, 2, 3]);

    act(&mut table, &mut engine, 0, PlayerActionKind::Raise(Chips(300))).unwrap();
    assert_eq!(engine.betting.to_act, vec![2, 3]);
    assert_eq!(engine.betting.min_raise, Chips(200));
    act(&mut table, &mut engine, 2, PlayerActionKind::Fold).unwrap();
    let status = act(&mut table, &mut engine, 3, PlayerActionKind::Fold).unwrap();
    let summary = match status {
        HandStatus::Finished(summary, _) => summary,
        HandStatus::Ongoing => panic!("the hand must be over"),
    };
    assert_eq!(summary.total_pot, Chips(450));
    assert_eq!(summary.street_reached, Street::Showdown);
    assert_eq!(summary.board, Vec::<Card>::new());
    assert_eq!(summary.results.len(), 3);
    assert!(summary.results[0].is_winner);
    assert_eq!(summary.results[0].net_chips, Chips(450));
    assert_eq!(summary.results[0].rank, None);
    assert_eq!(stack(&table, 0), 1150);
    assert_eq!(stack(&table, 2), 950);
    assert_eq!(stack(&table, 3), 900);
    check_invariants(&table, &engine);
}

#[test]
fn classic_ante_is_paid_by_everyone_and_does_not_count_as_a_bet() {
    let stakes = TableStakes::new(Chips(50), Chips(100), AnteType::Classic, Chips(10));
    let mut table = table_with(3, stakes, &[(0, 1000), (1, 1000), (2, 1000)]);
    let engine = start_hand(&mut table, &mut NoShuffle, 1).unwrap();

    assert_eq!(engine.pot.total, Chips(180));
    assert_eq!(stack(&table, 0), 990);
    assert_eq!(stack(&table, 1), 940);
    assert_eq!(stack(&table, 2), 890);
    assert_eq!(table.seats[0].as_ref().unwrap().current_bet, Chips(0));
    assert_eq!(table.seats[1].as_ref().unwrap().current_bet, Chips(50));
    assert_eq!(table.seats[2].as_ref().unwrap().current_bet, Chips(100));
    assert_eq!(engine.contributions.get(&0), Some(&Chips(10)));
    assert_eq!(engine.contributions.get(&1), Some(&Chips(60)));
    assert_eq!(engine.contributions.get(&2), Some(&Chips(110)));
    match &engine.history.events[1].kind {
        HandEventKind::BlindsPosted { dealer, small_blind, big_blind, ante } => {
            assert_eq!(*dealer, 0);
            assert_eq!(*small_blind, Some((1, Chips(50))));
            assert_eq!(*big_blind, Some((2, Chips(100))));
            assert_eq!(ante, &vec![(0, Chips(10)), (1, Chips(10)), (2, Chips(10))]);
        }
        _ => panic!("the second event records the blinds"),
    }
    check_invariants(&table, &engine);
}

#[test]
fn big_blind_ante_is_paid_by_the_big_blind_alone() {
    let stakes = TableStakes::new(Chips(50), Chips(100), AnteType::BigBlind, Chips(25));
    let mut table = table_with(3, stakes, &[(0, 1000), (1, 1000), (2, 1000)]);
    let engine = start_hand(&mut table, &mut NoShuffle, 1).unwrap();

    assert_eq!(engine.pot.total, Chips(175));
    assert_eq!(stack(&table, 0), 1000);
    assert_eq!(stack(&table, 1), 950);
    assert_eq!(stack(&table, 2), 875);
    assert_eq!(engine.contributions.get(&0), None);
    assert_eq!(engine.contributions.get(&2), Some(&Chips(125)));
}

#[test]
fn a_blind_that_takes_the_whole_stack_puts_the_player_all_in() {
    let mut table = table_with(3, blinds(50, 100), &[(0, 1000), (1, 1000), (2, 60)]);
    let engine = start_hand(&mut table, &mut NoShuffle, 1).unwrap();

    let bb = table.seats[2].as_ref().unwrap();
    assert_eq!(bb.stack, Chips(0));
    assert_eq!(bb.current_bet, Chips(60));
    assert_eq!(bb.status, PlayerStatus::AllIn);
    assert_eq!(engine.betting.current_bet, Chips(100));
    assert_eq!(engine.betting.to_act, vec![0, 1]);
    assert_eq!(engine.pot.total, Chips(110));
}

#[test]
fn busted_and_sitting_out_players_take_no_part() {
    let mut table = table_with(4, blinds(50, 100), &[(0, 1000), (1, 0), (2, 1000), (3, 1000)]);
    table.seats[1].as_mut().unwrap().status = PlayerStatus::Busted;
    table.seats[3].as_mut().unwrap().status = PlayerStatus::SittingOut;
    let engine = start_hand(&mut table, &mut NoShuffle, 1).unwrap();

    assert_eq!(table.dealer_button, Some(0));
    assert_eq!(table.seats[0].as_ref().unwrap().current_bet, Chips(50));
    assert_eq!(table.seats[2].as_ref().unwrap().current_bet, Chips(100));
    assert!(table.seats[1].as_ref().unwrap().hole_cards.is_empty());
    assert!(table.seats[3].as_ref().unwrap().hole_cards.is_empty());
    assert_eq!(table.seats[1].as_ref().unwrap().status, PlayerStatus::Busted);
    assert_eq!(table.seats[3].as_ref().unwrap().status, PlayerStatus::SittingOut);
    assert_eq!(engine.betting.to_act, vec![0, 2]);
    assert_eq!(engine.deck.len(), 48);

    let mut lonely = table_with(3, blinds(50, 100), &[(0, 1000), (1, 1000), (2, 1000)]);
    lonely.seats[1].as_mut().unwrap().status = PlayerStatus::Busted;
    lonely.seats[2].as_mut().unwrap().status = PlayerStatus::SittingOut;
    let before = lonely.clone();
    assert!(matches!(
        start_hand(&mut lonely, &mut NoShuffle, 1),
        Err(EngineError::NotEnoughPlayers)
    ));
    assert_eq!(lonely, before);
}

#[test]
fn the_button_moves_to_the_next_taken_seat() {
    let mut table = table_with(6, blinds(50, 100), &[(1, 1000), (3, 1000), (4, 1000)]);
    start_hand(&mut table, &mut NoShuffle, 1).unwrap();
    assert_eq!(table.dealer_button, Some(1));
    table.hand_in_progress = false;
    start_hand(&mut table, &mut NoShuffle, 2).unwrap();
    assert_eq!(table.dealer_button, Some(3));
    table.hand_in_progress = false;
    start_hand(&mut table, &mut NoShuffle, 3).unwrap();
    assert_eq!(table.dealer_button, Some(4));
    table.hand_in_progress = false;
    let engine = start_hand(&mut table, &mut NoShuffle, 4).unwrap();
    assert_eq!(table.dealer_button, Some(1));
    assert_eq!(table.seats[3].as_ref().unwrap().current_bet, Chips(50));
    assert_eq!(table.seats[4].as_ref().unwrap().current_bet, Chips(100));
    assert_eq!(engine.betting.to_act, vec![1, 3, 4]);
}

#[test]
fn starting_is_refused_without_touching_the_table() {
    let mut table = table_with(2, blinds(50, 100), &[(0, 1000), (1, 1000)]);
    table.hand_in_progress = true;
    let before = table.clone();
    assert!(matches!(
        start_hand(&mut table, &mut NoShuffle, 1),
        Err(EngineError::HandAlreadyInProgress)
    ));
    assert_eq!(table, before);

    let mut one = table_with(2, blinds(50, 100), &[(0, 1000)]);
    let before = one.clone();
    assert!(matches!(start_hand(&mut one, &mut NoShuffle, 1), Err(EngineError::NotEnoughPlayers)));
    assert_eq!(one, before);

    let mut empty = table_with(2, blinds(50, 100), &[]);
    assert!(matches!(
        start_hand(&mut empty, &mut NoShuffle, 1),
        Err(EngineError::NotEnoughPlayers)
    ));

}

#[test]
fn a_hand_starts_however_many_take_part_and_deals_while_cards_last() {
    let mut short = table_with(2, blinds(50, 100), &[(0, 1000), (1, 1000)]);
    let three = Deck { cards: Deck::standard_52().cards[..3].to_vec() };
    let engine = start_hand_with_deck(&mut short, three, 1).unwrap();
    assert_eq!(short.dealer_button, Some(0));
    assert_eq!(short.seats[1].as_ref().unwrap().hole_cards.len(), 2);
    assert_eq!(short.seats[0].as_ref().unwrap().hole_cards.len(), 1);
    assert!(engine.deck.is_empty());
    assert_eq!(engine.history.events.len(), 5);
    check_invariants(&short, &engine);

    let stacks: Vec<(usize, u64)> = (0..24).map(|seat| (seat, 1000)).collect();
    let mut full = table_with(24, blinds(50, 100), &stacks);
    let engine = start_hand(&mut full, &mut NoShuffle, 2).unwrap();
    assert_eq!(full.dealer_button, Some(0));
    assert!(full.seats.iter().flatten().all(|p| p.hole_cards.len() == 2));
    assert_eq!(engine.deck.len(), 4);
    assert_eq!(engine.betting.last_aggressor, Some(2));
    let queue: Vec<u8> = (3..24).chain(0..3).collect();
    assert_eq!(engine.betting.to_act, queue);
    assert_eq!(engine.current_actor, Some(3));
    assert_eq!(engine.pot.total, Chips(150));
    check_invariants(&full, &engine);

    let stacks: Vec<(usize, u64)> = (0..30).map(|seat| (seat, 1000)).collect();
    let mut crowded = table_with(30, blinds(50, 100), &stacks);
    let engine = start_hand(&mut crowded, &mut NoShuffle, 3).unwrap();
    let dealt: usize = crowded.seats.iter().flatten().map(|p| p.hole_cards.len()).sum();
    assert_eq!(dealt, 52);
    assert!(engine.deck.is_empty());
    assert_eq!(crowded.seats[1].as_ref().unwrap().hole_cards.len(), 2);
    assert_eq!(crowded.seats[22].as_ref().unwrap().hole_cards.len(), 2);
    assert_eq!(crowded.seats[23].as_ref().unwrap().hole_cards.len(), 1);
    assert_eq!(crowded.seats[0].as_ref().unwrap().hole_cards.len(), 1);
    assert_eq!(engine.betting.to_act.len(), 30);
    check_invariants(&crowded, &engine);
}

fn refused(
    table: &mut Table,
    engine: &mut HandEngine,
    action: PlayerAction,
) -> EngineError {
    let table_before = table.clone();
    let pot_before = engine.pot;
    let queue_before = engine.betting.to_act.clone();
    let events_before = engine.history.events.len();
    let error = match apply_action(table, engine, action) {
        Err(e) => e,
        Ok(_) => panic!("the action must be refused"),
    };
    assert_eq!(*table, table_before);
    assert_eq!(engine.pot, pot_before);
    assert_eq!(engine.betting.to_act, queue_before);
    assert_eq!(engine.history.events.len(), events_before);
    error
}

#[test]
fn every_refusal_names_its_reason_and_changes_nothing() {
    let mut table = table_with(4, blinds(50, 100), &[(0, 1000), (1, 1000), (2, 1000)]);
    let mut engine = start_hand(&mut table, &mut NoShuffle, 1).unwrap();
    assert_eq!(engine.current_actor, Some(0));

    let a = |player_id, seat, kind| PlayerAction { player_id, seat, kind };
    assert_eq!(
        refused(&mut table, &mut engine, a(1, 9, PlayerActionKind::Fold)),
        EngineError::InvalidSeat(9)
    );
    assert_eq!(
        refused(&mut table, &mut engine, a(1, 3, PlayerActionKind::Fold)),
        EngineError::EmptySeat
    );
    assert_eq!(
        refused(&mut table, &mut engine, a(77, 0, PlayerActionKind::Fold)),
        EngineError::PlayerNotAtTable(77)
    );
    assert_eq!(
        refused(&mut table, &mut engine, a(2, 1, PlayerActionKind::Call)),
        EngineError::NotPlayersTurn(2)
    );
    assert_eq!(
        refused(&mut table, &mut engine, a(1, 0, PlayerActionKind::Check)),
        EngineError::CannotCheck
    );
    assert_eq!(
        refused(&mut table, &mut engine, a(1, 0, PlayerActionKind::Bet(Chips(200)))),
        EngineError::IllegalAction
    );
    assert_eq!(
        refused(&mut table, &mut engine, a(1, 0, PlayerActionKind::Raise(Chips(100)))),
        EngineError::IllegalAction
    );
    assert_eq!(
        refused(&mut table, &mut engine, a(1, 0, PlayerActionKind::Raise(Chips(199)))),
        EngineError::RaiseTooSmall
    );
    assert_eq!(
        refused(&mut table, &mut engine, a(1, 0, PlayerActionKind::Raise(Chips(1001)))),
        EngineError::NotEnoughChips
    );

    apply_action(&mut table, &mut engine, a(1, 0, PlayerActionKind::Call)).unwrap();
    apply_action(&mut table, &mut engine, a(2, 1, PlayerActionKind::Call)).unwrap();
    assert_eq!(
        refused(&mut table, &mut engine, a(3, 2, PlayerActionKind::Call)),
        EngineError::CannotCall
    );
    apply_action(&mut table, &mut engine, a(3, 2, PlayerActionKind::Check)).unwrap();
    assert_eq!(table.street, Street::Flop);
    assert_eq!(
        refused(&mut table, &mut engine, a(2, 1, PlayerActionKind::Raise(Chips(200)))),
        EngineError::IllegalAction
    );
    assert_eq!(
        refused(&mut table, &mut engine, a(2, 1, PlayerActionKind::Bet(Chips(0)))),
        EngineError::IllegalAction
    );
    assert_eq!(
        refused(&mut table, &mut engine, a(2, 1, PlayerActionKind::Bet(Chips(901)))),
        EngineError::NotEnoughChips
    );

    table.hand_in_progress = false;
    assert_eq!(
        refused(&mut table, &mut engine, a(2, 1, PlayerActionKind::Check)),
        EngineError::NoActiveHand
    );
}

#[test]
fn moving_on_from_the_showdown_is_an_internal_error() {
    let mut table = table_with(2, blinds(50, 100), &[(0, 1000), (1, 1000)]);
    let mut engine = start_hand(&mut table, &mut NoShuffle, 1).unwrap();
    table.street = Street::Showdown;
    let before = table.clone();
    assert!(matches!(advance_if_needed(&mut table, &mut engine), Err(EngineError::Internal(_))));
    assert_eq!(table, before);
    let action = PlayerAction { player_id: 1, seat: 0, kind: PlayerActionKind::Call };
    assert!(matches!(apply_action(&mut table, &mut engine, action), Err(EngineError::Internal(_))));
    assert_eq!(table, before);
}

#[test]
fn a_small_all_in_above_the_bet_reopens_the_betting() {
    let mut table = table_with(3, blinds(50, 100), &[(0, 1000), (1, 130), (2, 1000)]);
    let mut engine = start_hand(&mut table, &mut NoShuffle, 1).unwrap();

    act(&mut table, &mut engine, 0, PlayerActionKind::Call).unwrap();
    assert_eq!(engine.betting.to_act, vec![1, 2]);
    act(&mut table, &mut engine, 1, PlayerActionKind::AllIn).unwrap();
    assert_eq!(engine.betting.current_bet, Chips(130));
    assert_eq!(engine.betting.min_raise, Chips(30));
    assert_eq!(engine.betting.last_aggressor, Some(1));
    assert_eq!(engine.betting.to_act, vec![2, 0]);
    check_invariants(&table, &engine);
}

#[test]
fn a_call_for_more_than_the_stack_is_an_all_in_call() {
    let mut table = table_with(2, blinds(50, 100), &[(0, 1000), (1, 300)]);
    let mut engine = start_hand(&mut table, &mut NoShuffle, 1).unwrap();
    act(&mut table, &mut engine, 0, PlayerActionKind::Raise(Chips(600))).unwrap();
    assert_eq!(engine.betting.to_act, vec![1]);
    let status = act(&mut table, &mut engine, 1, PlayerActionKind::Call).unwrap();
    assert!(matches!(status, HandStatus::Ongoing));
    assert_eq!(table.seats[1].as_ref().unwrap().status, PlayerStatus::AllIn);
    assert_eq!(table.street, Street::Flop);
    assert_eq!(engine.betting.to_act, vec![0]);
    act(&mut table, &mut engine, 0, PlayerActionKind::Check).unwrap();
    act(&mut table, &mut engine, 0, PlayerActionKind::Check).unwrap();
    let status = act(&mut table, &mut engine, 0, PlayerActionKind::Check).unwrap();
    assert!(matches!(status, HandStatus::Finished(_, _)));
    assert_eq!(engine.side_pots.len(), 2);
    assert_eq!(engine.side_pots[1].amount, Chips(300));
    assert_eq!(engine.side_pots[1].eligible_seats, vec![0]);
    assert_eq!(engine.contributions.get(&0), Some(&Chips(600)));
    assert_eq!(engine.contributions.get(&1), Some(&Chips(300)));
    assert_eq!(engine.pot.total, Chips(900));
    assert_eq!(stack(&table, 0) + stack(&table, 1), 1300);
}

#[test]
fn seats_are_walked_clockwise_by_status() {
    let mut table = table_with(5, blinds(50, 100), &[(0, 10), (1, 10), (3, 10), (4, 10)]);
    table.seats[1].as_mut().unwrap().status = PlayerStatus::Folded;
    table.seats[3].as_mut().unwrap().status = PlayerStatus::AllIn;
    table.seats[4].as_mut().unwrap().status = PlayerStatus::SittingOut;
    assert_eq!(collect_seats_from(&table, 3, SeatTest::Taken), vec![3, 4, 0, 1]);
    assert_eq!(collect_seats_from(&table, 8, SeatTest::Taken), vec![3, 4, 0, 1]);
    assert_eq!(collect_seats_from(&table, 1, SeatTest::Live), vec![1, 3, 0]);
    assert_eq!(collect_seats_from(&table, 1, SeatTest::Active), vec![0]);
    assert_eq!(collect_seats_from(&table, 1, SeatTest::InHand), vec![3, 0]);
}

#[test]
fn engine_errors_have_their_messages() {
    assert_eq!(EngineError::TableNotFound(12).to_string(), "Стол 12 не найден");
    assert_eq!(EngineError::InvalidSeat(3).to_string(), "Место 3 не существует за столом");
    assert_eq!(EngineError::NotPlayersTurn(40).to_string(), "Сейчас не ход игрока с id=40");
    assert_eq!(EngineError::PlayerNotAtTable(5).to_string(), "Игрок 5 не найден за столом");
    assert_eq!(EngineError::Internal("x").to_string(), "Внутренняя ошибка: x");
    assert_eq!(EngineError::RaiseTooSmall.to_string(), "Размер рейза слишком мал");
}
