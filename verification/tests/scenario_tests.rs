use std::collections::HashMap;

use poker_engine::domain::{
    AnteType, BlindLevel, BlindStructure, Card, Chips, Deck, PlayerAtTable, Rank, Street, Suit,
    Table, TableBalancingConfig, TableConfig, TableStakes, TableType, Tournament, TournamentConfig,
    TournamentScheduleConfig, TournamentStatus, TournamentTimeEvent,
};
use poker_engine::engine::game_loop::{apply_action, start_hand, HandStatus};
use poker_engine::engine::side_pots::compute_side_pots;
use poker_engine::engine::{EngineError, PlayerAction, PlayerActionKind, RandomSource};
use poker_engine::eval::{evaluate_best_hand, HandCategory};
use poker_engine::infra::rng::DeterministicRng;

fn heads_up_table() -> Table {
    let config = TableConfig {
        max_seats: 2,
        table_type: TableType::Cash,
        stakes: TableStakes::new(Chips(50), Chips(100), AnteType::NoAnte, Chips(0)),
        allow_straddle: false,
        allow_run_it_twice: false,
    };
    let mut table = Table::new(1, "Heads up".to_string(), config);
    table.seats[0] = Some(PlayerAtTable::new(1, Chips(10_000)));
    table.seats[1] = Some(PlayerAtTable::new(2, Chips(10_000)));
    table
}

fn tournament_config(levels: Vec<BlindLevel>, every: u32, duration: u32) -> TournamentConfig {
    TournamentConfig {
        name: "Scenario".to_string(),
        description: None,
        starting_stack: Chips(10_000),
        max_players: 9,
        min_players_to_start: 2,
        table_size: 9,
        freezeout: true,
        reentry_allowed: false,
        max_entries_per_player: 1,
        late_reg_level: 0,
        blind_structure: BlindStructure::new(levels),
        auto_approve: true,
        schedule: TournamentScheduleConfig {
            scheduled_start_ts: 0,
            allow_start_earlier: true,
            break_every_minutes: every,
            break_duration_minutes: duration,
        },
        balancing: TableBalancingConfig { enabled: true, max_seat_diff: 1 },
    }
}

fn level(n: u32, sb: u64, bb: u64, minutes: u32) -> BlindLevel {
    BlindLevel::new(n, Chips(sb), Chips(bb), Chips(0), AnteType::NoAnte, minutes)
}

fn pots_of(entries: &[(u8, u64)]) -> Vec<(u64, Vec<u8>)> {
    let contributions: HashMap<u8, Chips> =
        entries.iter().map(|(seat, chips)| (*seat, Chips(*chips))).collect();
    compute_side_pots(&contributions)
        .into_iter()
        .map(|pot| (pot.amount.0, pot.eligible_seats))
        .collect()
}

#[test]
fn heads_up_the_button_posts_the_small_blind() {
    let mut table = heads_up_table();
    let engine = start_hand(&mut table, &mut DeterministicRng::from_u64(1), 1).unwrap();
    let button = table.dealer_button.unwrap() as usize;
    let other = 1 - button;
    assert_eq!(table.seats[button].as_ref().unwrap().current_bet, Chips(50));
    assert_eq!(table.seats[other].as_ref().unwrap().current_bet, Chips(100));
    assert_eq!(table.seats[button].as_ref().unwrap().stack, Chips(9_950));
    assert_eq!(table.seats[other].as_ref().unwrap().stack, Chips(9_900));
    assert_eq!(engine.current_actor, Some(button as u8));
    assert_eq!(engine.pot.total, Chips(150));
}

#[test]
fn a_fold_before_the_flop_ends_the_hand() {
    let mut table = heads_up_table();
    let mut engine = start_hand(&mut table, &mut DeterministicRng::from_u64(1), 1).unwrap();
    let folder = engine.current_actor.unwrap();
    let winner = 1 - folder;
    let action = PlayerAction {
        player_id: folder as u64 + 1,
        seat: folder,
        kind: PlayerActionKind::Fold,
    };
    let (summary, history) = match apply_action(&mut table, &mut engine, action).unwrap() {
        HandStatus::Finished(summary, history) => (summary, history),
        HandStatus::Ongoing => panic!("the hand is over when one of two folds"),
    };
    assert_eq!(table.seats[winner as usize].as_ref().unwrap().stack, Chips(10_000 - 100 + 150));
    assert_eq!(table.seats[folder as usize].as_ref().unwrap().stack, Chips(10_000 - 50));
    assert_eq!(summary.street_reached, Street::Showdown);
    assert_eq!(summary.total_pot, Chips(150));
    assert!(summary.board.is_empty());
    assert!(!table.hand_in_progress);
    assert_eq!(engine.current_actor, None);
    assert!(engine.betting.to_act.is_empty());
    for (i, event) in history.events.iter().enumerate() {
        assert_eq!(event.index as usize, i);
    }
    let won: u64 = summary.results.iter().map(|r| r.net_chips.0).sum();
    assert_eq!(won, 150);
}

#[test]
fn three_uneven_contributions_make_three_pots() {
    assert_eq!(
        pots_of(&[(0, 100), (1, 200), (2, 400)]),
        vec![(300, vec![0, 1, 2]), (200, vec![1, 2]), (200, vec![2])]
    );
}

#[test]
fn four_contributions_on_two_levels_make_two_pots() {
    assert_eq!(
        pots_of(&[(0, 100), (1, 100), (2, 300), (3, 300)]),
        vec![(400, vec![0, 1, 2, 3]), (400, vec![2, 3])]
    );
    assert!(pots_of(&[]).is_empty());
    assert!(pots_of(&[(0, 0), (5, 0)]).is_empty());
    assert_eq!(pots_of(&[(3, 7)]), vec![(7, vec![3])]);
}

#[test]
fn a_straight_flush_to_the_king_beats_a_pair_of_kings_in_the_hole() {
    let c = |rank, suit| Card::new(rank, suit);
    let board = vec![
        c(Rank::Nine, Suit::Clubs),
        c(Rank::Ten, Suit::Clubs),
        c(Rank::Jack, Suit::Clubs),
        c(Rank::Queen, Suit::Clubs),
        c(Rank::Two, Suit::Diamonds),
    ];
    let first = evaluate_best_hand(&[c(Rank::Eight, Suit::Clubs), c(Rank::King, Suit::Clubs)], &board);
    let second =
        evaluate_best_hand(&[c(Rank::King, Suit::Diamonds), c(Rank::King, Suit::Hearts)], &board);
    assert!(first > second);
    assert_eq!(first.category(), HandCategory::StraightFlush);
    assert_eq!(first.ranks()[0], Rank::King);
    assert_eq!(second.category(), HandCategory::Straight);
}

#[test]
fn nine_players_leave_in_the_order_they_are_busted() {
    let config = tournament_config(vec![level(1, 50, 100, 10)], 60, 5);
    let mut t = Tournament::new(1, 1, config).unwrap();
    for id in 1..=9u64 {
        t.register_player(id).unwrap();
    }
    t.start(0).unwrap();
    let places: Vec<u32> = (1..=8u64).map(|id| t.mark_player_busted(id).unwrap()).collect();
    assert_eq!(places, vec![9, 8, 7, 6, 5, 4, 3, 2]);
    for id in 1..=8u64 {
        assert_eq!(t.registrations.get(&id).unwrap().finishing_place, Some(10 - id as u32));
    }
    assert_eq!(t.winner_id, Some(9));
    assert_eq!(t.registrations.get(&9).unwrap().finishing_place, Some(1));
    assert_eq!(t.status, TournamentStatus::Finished);
    assert_eq!(t.finished_count, 8);
}

#[test]
fn the_blinds_go_up_when_the_level_is_over() {
    let config = tournament_config(vec![level(1, 50, 100, 10), level(2, 100, 200, 10)], 60, 5);
    let mut t = Tournament::new(1, 1, config).unwrap();
    t.register_player(1).unwrap();
    t.register_player(2).unwrap();
    t.start(0).unwrap();
    assert_eq!(t.apply_time_tick(9 * 60), TournamentTimeEvent::NoEvent);
    assert_eq!(t.current_level, 1);
    assert_eq!(
        t.apply_time_tick(11 * 60),
        TournamentTimeEvent::LevelAdvanced { from: 1, to: 2, new_blinds: level(2, 100, 200, 10) }
    );
    assert_eq!(t.current_level, 2);
    assert_eq!(t.apply_time_tick(11 * 60), TournamentTimeEvent::NoEvent);
    assert_eq!(t.current_level, 2);
}

#[test]
fn a_break_starts_and_ends_on_the_minute() {
    let config = tournament_config(vec![level(1, 50, 100, 1000)], 10, 5);
    let mut t = Tournament::new(1, 1, config).unwrap();
    t.register_player(1).unwrap();
    t.register_player(2).unwrap();
    t.start(0).unwrap();
    assert_eq!(t.apply_time_tick(9 * 60), TournamentTimeEvent::NoEvent);
    assert_eq!(t.status, TournamentStatus::Running);
    assert_eq!(t.apply_time_tick(10 * 60), TournamentTimeEvent::BreakStarted);
    assert_eq!(t.status, TournamentStatus::OnBreak);
    assert_eq!(t.apply_time_tick(12 * 60), TournamentTimeEvent::NoEvent);
    assert_eq!(t.status, TournamentStatus::OnBreak);
    assert_eq!(t.apply_time_tick(16 * 60), TournamentTimeEvent::BreakEnded);
    assert_eq!(t.status, TournamentStatus::Running);
    assert_eq!(t.current_level, 1);
}

#[test]
fn equal_seeds_shuffle_a_deck_alike_and_others_do_not() {
    let mut first = Deck::standard_52();
    let mut second = Deck::standard_52();
    let mut third = Deck::standard_52();
    DeterministicRng::from_u64(12345).shuffle(&mut first.cards);
    DeterministicRng::from_u64(12345).shuffle(&mut second.cards);
    DeterministicRng::from_u64(54321).shuffle(&mut third.cards);
    assert_eq!(first, second);
    assert_ne!(first, third);
    assert_eq!(first.cards.len(), 52);
    for card in Deck::standard_52().cards {
        assert!(first.cards.contains(&card));
        assert!(third.cards.contains(&card));
    }
}

#[test]
fn a_refused_start_draws_nothing_from_the_generator() {
    let mut rng = DeterministicRng::from_u64(9);
    let mut table = heads_up_table();
    table.seats[1] = None;
    assert!(matches!(start_hand(&mut table, &mut rng, 1), Err(EngineError::NotEnoughPlayers)));
    table.hand_in_progress = true;
    assert!(matches!(
        start_hand(&mut table, &mut rng, 1),
        Err(EngineError::HandAlreadyInProgress)
    ));
    let mut after = Deck::standard_52();
    rng.shuffle(&mut after.cards);
    let mut fresh = Deck::standard_52();
    DeterministicRng::from_u64(9).shuffle(&mut fresh.cards);
    assert_eq!(after, fresh);
}

#[test]
fn the_hand_is_dealt_from_the_deck_as_the_generator_shuffles_it() {
    let mut table = heads_up_table();
    let engine = start_hand(&mut table, &mut DeterministicRng::from_u64(5), 1).unwrap();
    let mut shuffled = Deck::standard_52();
    DeterministicRng::from_u64(5).shuffle(&mut shuffled.cards);
    assert_ne!(shuffled, Deck::standard_52());
    assert_eq!(engine.deck.cards.len(), 48);
    let rest = &engine.deck.cards;
    assert!(shuffled.cards.starts_with(rest) || shuffled.cards.ends_with(rest));
    for seat in table.seats.iter().flatten() {
        for card in &seat.hole_cards {
            assert!(!rest.contains(card));
        }
    }
}
