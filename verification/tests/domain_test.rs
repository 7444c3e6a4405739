use poker_engine::domain::{
    AnteType, BlindLevel, BlindStructure, Card, Chips, Deck, HandRank, HandSummary, PlayerAtTable,
    PlayerHandResult, PlayerStatus, Rank, Street, Suit, Table, TableBalancingConfig, TableConfig,
    TableStakes, TableType, Tournament, TournamentConfig, TournamentPlayer,
    TournamentScheduleConfig, TournamentStatus,
};

#[test]
fn blinds_level_new_and_fields() {
    let lvl = BlindLevel::new(3, Chips(50), Chips(100), Chips(10), AnteType::BigBlind, 15);

    assert_eq!(lvl.level, 3);
    assert_eq!(lvl.small_blind, Chips(50));
    assert_eq!(lvl.big_blind, Chips(100));
    assert_eq!(lvl.ante, Chips(10));
    assert_eq!(lvl.ante_type, AnteType::BigBlind);
    assert_eq!(lvl.duration_minutes, 15);
}

#[test]
fn blind_structure_level_selection() {
    let levels = vec![
        BlindLevel::new(1, Chips(25), Chips(50), Chips(0), AnteType::NoAnte, 10),
        BlindLevel::new(2, Chips(50), Chips(100), Chips(10), AnteType::Classic, 10),
        BlindLevel::new(3, Chips(75), Chips(150), Chips(25), AnteType::BigBlind, 20),
    ];
    let s = BlindStructure::new(levels);

    let first = s.first_level();
    assert_eq!(first.level, 1);
    assert_eq!(first.small_blind, Chips(25));

    let lvl2 = s.level_by_number(2).unwrap();
    assert_eq!(lvl2.big_blind, Chips(100));

    assert!(s.level_by_number(999).is_none());

    let l1 = s.level_for_elapsed_minutes(0);
    assert_eq!(l1.level, 1);

    let l2 = s.level_for_elapsed_minutes(10);
    assert_eq!(l2.level, 2);

    let l3 = s.level_for_elapsed_minutes(25);
    assert_eq!(l3.level, 3);

    let l3_tail = s.level_for_elapsed_minutes(999);
    assert_eq!(l3_tail.level, 3);
}

#[test]
fn card_display_and_parse_roundtrip() {
    let cards = [
        Card::new(Rank::Ace, Suit::Hearts),
        Card::new(Rank::Ten, Suit::Spades),
        Card::new(Rank::Two, Suit::Clubs),
        Card::new(Rank::Nine, Suit::Diamonds),
    ];

    for card in cards {
        let s = card.to_string();
        let parsed: Card = s.parse().expect("parse Card from its text");
        assert_eq!(parsed, card);
    }

    assert!("".parse::<Card>().is_err());
    assert!("XYZ".parse::<Card>().is_err());
    assert!("1c".parse::<Card>().is_err());
    assert!("Acx".parse::<Card>().is_err());
}

#[test]
fn card_text_is_rank_then_suit() {
    assert_eq!(Card::new(Rank::Ace, Suit::Hearts).to_string(), "Ah");
    assert_eq!(Card::new(Rank::Ten, Suit::Diamonds).to_string(), "Td");
    assert_eq!(Card::new(Rank::Seven, Suit::Clubs).to_string(), "7c");
    assert_eq!("kS".parse::<Card>(), Ok(Card::new(Rank::King, Suit::Spades)));
    assert_eq!("2D".parse::<Card>(), Ok(Card::new(Rank::Two, Suit::Diamonds)));
}

#[test]
fn chips_arithmetic_and_saturating() {
    let a = Chips(100);
    let b = Chips(50);
    let c = Chips(200);

    assert_eq!(a + b, Chips(150));
    assert_eq!(c - b, Chips(150));

    let mut x = Chips(10);
    x += Chips(5);
    assert_eq!(x, Chips(15));

    x -= Chips(20);
    assert_eq!(x, Chips(0));

    assert!(Chips::zero().is_zero());
    assert!(Chips(0).is_zero() && !Chips(1).is_zero());

    let d = Chips(10).saturating_sub(Chips(20));
    assert_eq!(d, Chips(0));
}

#[test]
fn chips_addition_is_capped() {
    assert_eq!(Chips(u64::MAX) + Chips(1), Chips(u64::MAX));
    assert_eq!(Chips(u64::MAX - 1).saturating_add(Chips(5)), Chips(u64::MAX));
    let mut x = Chips(u64::MAX - 2);
    x += Chips(2);
    assert_eq!(x, Chips(u64::MAX));
}

#[test]
fn deck_standard_52_basic_properties() {
    let deck = Deck::standard_52();
    assert_eq!(deck.len(), 52);
    assert!(!deck.is_empty());

    let set: std::collections::HashSet<_> = deck.cards.iter().collect();
    assert_eq!(set.len(), 52);

    let mut clubs = 0;
    let mut diamonds = 0;
    let mut hearts = 0;
    let mut spades = 0;
    for c in &deck.cards {
        match c.suit {
            Suit::Clubs => clubs += 1,
            Suit::Diamonds => diamonds += 1,
            Suit::Hearts => hearts += 1,
            Suit::Spades => spades += 1,
        }
    }
    assert_eq!(clubs, 13);
    assert_eq!(diamonds, 13);
    assert_eq!(hearts, 13);
    assert_eq!(spades, 13);
}

#[test]
fn deck_standard_52_order() {
    let deck = Deck::standard_52();
    assert_eq!(deck.cards[0], Card::new(Rank::Two, Suit::Clubs));
    assert_eq!(deck.cards[12], Card::new(Rank::Ace, Suit::Clubs));
    assert_eq!(deck.cards[13], Card::new(Rank::Two, Suit::Diamonds));
    assert_eq!(deck.cards[51], Card::new(Rank::Ace, Suit::Spades));
}

#[test]
fn deck_draw_and_remove_cards() {
    let mut deck = Deck::standard_52();
    let original_len = deck.len();

    let c1 = deck.draw_one().expect("should draw one");
    assert_eq!(c1, Card::new(Rank::Ace, Suit::Spades));
    assert_eq!(deck.len(), original_len - 1);

    let taken = deck.draw_n(60);
    assert_eq!(taken.len(), original_len - 1);
    assert_eq!(taken[0], Card::new(Rank::King, Suit::Spades));
    assert!(deck.is_empty());
    assert!(deck.draw_one().is_none());

    let mut deck2 = Deck::standard_52();
    let to_remove = [Card::new(Rank::Ace, Suit::Hearts), Card::new(Rank::King, Suit::Spades)];
    deck2.remove_cards(&to_remove);
    assert_eq!(deck2.len(), 50);
    for card in &to_remove {
        assert!(!deck2.cards.contains(card));
    }
}

#[test]
fn hand_rank_and_summary_basic() {
    let r1 = HandRank(100);
    let r2 = HandRank(200);

    assert!(r2 > r1);
    assert_eq!(r1, HandRank(100));

    let player_res =
        PlayerHandResult { player_id: 42, rank: Some(r2), net_chips: Chips(300), is_winner: true };

    assert_eq!(player_res.player_id, 42);
    assert_eq!(player_res.rank.unwrap(), r2);
    assert_eq!(player_res.net_chips, Chips(300));
    assert!(player_res.is_winner);

    let summary = HandSummary {
        hand_id: 1,
        table_id: 10,
        street_reached: Street::River,
        board: vec![Card::new(Rank::Ace, Suit::Spades), Card::new(Rank::King, Suit::Spades)],
        total_pot: Chips(500),
        results: vec![player_res.clone()],
    };

    assert_eq!(summary.hand_id, 1);
    assert_eq!(summary.table_id, 10);
    assert_eq!(summary.street_reached, Street::River);
    assert_eq!(summary.total_pot, Chips(500));
    assert_eq!(summary.results.len(), 1);
    assert_eq!(summary.results[0], player_res);
}

#[test]
fn player_at_table_new_and_is_in_hand() {
    let p = PlayerAtTable::new(123, Chips(1000));

    assert_eq!(p.player_id, 123);
    assert_eq!(p.stack, Chips(1000));
    assert_eq!(p.current_bet, Chips::zero());
    assert_eq!(p.status, PlayerStatus::Active);
    assert!(p.hole_cards.is_empty());
    assert!(p.is_in_hand());

    let mut p2 = p.clone();
    p2.status = PlayerStatus::Folded;
    assert!(!p2.is_in_hand());

    let mut p3 = p.clone();
    p3.status = PlayerStatus::AllIn;
    assert!(p3.is_in_hand());
}

#[test]
fn table_new_and_seating_basic() {
    let stakes = TableStakes::new(Chips(50), Chips(100), AnteType::NoAnte, Chips::zero());
    let cfg = TableConfig {
        max_seats: 9,
        table_type: TableType::Cash,
        stakes,
        allow_straddle: false,
        allow_run_it_twice: false,
    };

    let mut table = Table::new(1, "Test Table".to_string(), cfg);

    assert_eq!(table.id, 1);
    assert_eq!(table.name, "Test Table");
    assert_eq!(table.max_seats(), 9);
    assert_eq!(table.seated_count(), 0);
    assert_eq!(table.board.len(), 0);
    assert!(table.dealer_button.is_none());
    assert!(table.current_hand_id.is_none());
    assert_eq!(table.street, Street::Preflop);
    assert!(!table.hand_in_progress);
    assert_eq!(table.total_pot, Chips::zero());

    for i in 0..table.max_seats() {
        assert!(table.is_seat_empty(i));
    }

    table.seats[0] = Some(PlayerAtTable::new(1, Chips(500)));
    assert_eq!(table.seated_count(), 1);
    assert!(!table.is_seat_empty(0));
    assert!(table.is_seat_empty(200));
}

#[test]
fn tournament_new_and_defaults() {
    let levels = vec![BlindLevel::new(1, Chips(25), Chips(50), Chips(0), AnteType::NoAnte, 10)];
    let blinds = BlindStructure::new(levels);

    let cfg = TournamentConfig {
        name: "Sunday Special".to_string(),
        description: None,
        starting_stack: Chips(10000),
        max_players: 100,
        min_players_to_start: 2,
        table_size: 9,
        freezeout: true,
        reentry_allowed: false,
        max_entries_per_player: 1,
        late_reg_level: 0,
        blind_structure: blinds,
        auto_approve: true,
        schedule: TournamentScheduleConfig::hourly_with_five_min_break(),
        balancing: TableBalancingConfig::default_with_diff_one(),
    };

    let t = Tournament::new(7, 1, cfg).expect("a valid configuration");

    assert_eq!(t.id, 7);
    assert_eq!(t.config.name, "Sunday Special");
    assert_eq!(t.status, TournamentStatus::Registering);
    assert_eq!(t.current_level, 1);
    assert!(t.registrations.is_empty());
    assert_eq!(t.total_entries, 0);
    assert_eq!(t.finished_count, 0);
    assert!(t.winner_id.is_none());

    assert_eq!(t.config.starting_stack, Chips(10000));
    assert_eq!(t.config.max_players, 100);
    assert_eq!(t.config.table_size, 9);
    assert!(t.config.freezeout);
    assert!(!t.config.reentry_allowed);
}

#[test]
fn tournament_player_struct_basic() {
    let p = TournamentPlayer {
        player_id: 42,
        total_chips: Chips(5000),
        is_busted: false,
        table_id: Some(1),
        seat_index: Some(0),
        finishing_place: None,
    };

    assert_eq!(p.player_id, 42);
    assert_eq!(p.total_chips, Chips(5000));
    assert!(!p.is_busted);
    assert_eq!(p.table_id, Some(1));
    assert_eq!(p.seat_index, Some(0));
    assert_eq!(p.finishing_place, None);
}
