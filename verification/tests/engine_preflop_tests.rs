use poker_engine::domain::{
    blinds::AnteType,
    chips::Chips,
    hand::Street,
    player::PlayerAtTable,
    table::{Table, TableConfig, TableStakes, TableType},
    HandId,
    PlayerId,
    SeatIndex,
    TableId,
};
use poker_engine::engine::{
    actions::{PlayerAction, PlayerActionKind},
    apply_action,
    start_hand,
    HandStatus,
};
use poker_engine::infra::DeterministicRng;

const TEST_STACK: u64 = 10_000;

fn make_test_table(num_players: usize, ante_type: AnteType) -> Table {
    assert!(
        num_players <= 9,
        "unexpected state"
    );

    let table_id: TableId = 1;

    let stakes = TableStakes::new(
        Chips::new(50),
        Chips::new(100),
        ante_type,
        match ante_type {
            AnteType::NoAnte => Chips::zero(),
            _ => Chips::new(10),
        },
    );

    let config = TableConfig {
        max_seats: 9,
        table_type: TableType::Tournament,
        stakes,
        allow_straddle: false,
        allow_run_it_twice: false,
    };

    let mut table = Table::new(table_id, "Test table".to_string(), config);

    for seat_idx in 0..num_players {
        let pid: PlayerId = (seat_idx as u64) + 1;
        let pat = PlayerAtTable::new(pid, Chips::new(TEST_STACK));
        table.seats[seat_idx] = Some(pat);
    }

    table
}

fn find_seat_with_current_bet(table: &Table, amount: Chips) -> Option<SeatIndex> {
    for (idx, seat_opt) in table.seats.iter().enumerate() {
        if let Some(p) = seat_opt {
            if p.current_bet == amount {
                return Some(idx as SeatIndex);
            }
        }
    }
    None
}

#[test]
fn preflop_deals_two_cards_and_posts_blinds_and_antes() {
    let mut table = make_test_table(4, AnteType::Classic);

    let mut rng = DeterministicRng::from_u64(12345);
    let hand_id: HandId = 1;

    let mut engine = start_hand(&mut table, &mut rng, hand_id)
        .expect("start_hand must succeed");

    for seat_idx in 0..4 {
        let p = table.seats[seat_idx]
            .as_ref()
            .expect("seat must be occupied");
        assert_eq!(
            p.hole_cards.len(),
            2,
            "unexpected state"
        );
    }

    let sb_amount = table.config.stakes.small_blind;
    let bb_amount = table.config.stakes.big_blind;
    let ante_amount = table.config.stakes.ante;

    let sb_seat = find_seat_with_current_bet(&table, sb_amount)
        .expect("unexpected state");
    let bb_seat = find_seat_with_current_bet(&table, bb_amount)
        .expect("unexpected state");

    let sb_player = table.seats[sb_seat as usize].as_ref().unwrap();
    assert_eq!(
        sb_player.current_bet, sb_amount,
        "unexpected state"
    );

    let bb_player = table.seats[bb_seat as usize].as_ref().unwrap();
    assert_eq!(
        bb_player.current_bet, bb_amount,
        "unexpected state"
    );

    let mut sum_contributions = Chips::zero();
    for (_seat, amount) in engine.contributions.iter() {
        sum_contributions += *amount;
    }

    assert_eq!(
        sum_contributions,
        engine.pot.total,
        "unexpected state"
    );

    assert_eq!(
        engine.betting.current_bet, bb_amount,
        "unexpected state"
    );

    let first_to_act = engine
        .current_actor
        .expect("unexpected state");
    assert!(
        engine.betting.to_act.contains(&first_to_act),
        "unexpected state"
    );
}

#[test]
fn full_hand_flop_turn_river_board_and_order() {
    let mut table = make_test_table(4, AnteType::NoAnte);

    let mut rng = DeterministicRng::from_u64(777);
    let hand_id: HandId = 1;

    let mut engine = start_hand(&mut table, &mut rng, hand_id)
        .expect("start_hand must succeed");

    assert_eq!(table.street, Street::Preflop);
    assert_eq!(table.board.len(), 0);

    let bb_amount = table.config.stakes.big_blind;
    let bb_seat = find_seat_with_current_bet(&table, bb_amount)
        .expect("BB seat must exist");

    let preflop_order = engine.betting.to_act.clone();
    let mut last_status = HandStatus::Ongoing;

    for seat in preflop_order {
        let seat_idx = seat as usize;
        let p = table.seats[seat_idx]
            .as_ref()
            .expect("seat must be occupied");

        let kind = if seat == bb_seat {
            PlayerActionKind::Check
        } else {
            PlayerActionKind::Call
        };

        let action = PlayerAction {
            player_id: p.player_id,
            seat,
            kind,
        };

        last_status = apply_action(&mut table, &mut engine, action)
            .expect("action should be valid");
    }

    assert!(matches!(last_status, HandStatus::Ongoing));
    assert_eq!(table.street, Street::Flop);
    assert_eq!(
        table.board.len(),
        3,
        "unexpected state"
    );

    let flop_order = engine.betting.to_act.clone();
    assert!(
        !flop_order.is_empty(),
        "unexpected state"
    );

    for seat in flop_order {
        let seat_idx = seat as usize;
        let p = table.seats[seat_idx]
            .as_ref()
            .expect("seat must be occupied");

        let action = PlayerAction {
            player_id: p.player_id,
            seat,
            kind: PlayerActionKind::Check,
        };

        last_status = apply_action(&mut table, &mut engine, action)
            .expect("flop check must be valid");
    }

    assert!(matches!(last_status, HandStatus::Ongoing));
    assert_eq!(table.street, Street::Turn);
    assert_eq!(
        table.board.len(),
        4,
        "unexpected state"
    );

    let turn_order = engine.betting.to_act.clone();
    assert!(
        !turn_order.is_empty(),
        "unexpected state"
    );

    for seat in turn_order {
        let seat_idx = seat as usize;
        let p = table.seats[seat_idx]
            .as_ref()
            .expect("seat must be occupied");

        let action = PlayerAction {
            player_id: p.player_id,
            seat,
            kind: PlayerActionKind::Check,
        };

        last_status = apply_action(&mut table, &mut engine, action)
            .expect("turn check must be valid");
    }

    assert!(matches!(last_status, HandStatus::Ongoing));
    assert_eq!(table.street, Street::River);
    assert_eq!(
        table.board.len(),
        5,
        "unexpected state"
    );

    let river_order = engine.betting.to_act.clone();
    assert!(
        !river_order.is_empty(),
        "unexpected state"
    );

    for seat in river_order {
        let seat_idx = seat as usize;
        let p = table.seats[seat_idx]
            .as_ref()
            .expect("seat must be occupied");

        let action = PlayerAction {
            player_id: p.player_id,
            seat,
            kind: PlayerActionKind::Check,
        };

        last_status = apply_action(&mut table, &mut engine, action)
            .expect("river check must be valid");
    }

    match last_status {
        HandStatus::Finished(summary, _history) => {
            assert_eq!(
                summary.street_reached,
                Street::Showdown,
                "unexpected state"
            );
            assert_eq!(
                summary.board.len(),
                5,
                "unexpected state"
            );
        }
        HandStatus::Ongoing => {
            panic!("unexpected state");
        }
    }
}

#[test]
fn heads_up_button_is_small_blind_and_second_player_is_big_blind() {
    let mut table = make_test_table(2, AnteType::NoAnte);

    let mut rng = DeterministicRng::from_u64(12345);
    let hand_id: HandId = 1;

    let _engine = start_hand(&mut table, &mut rng, hand_id)
        .expect("start_hand must succeed");

    let button = table
        .dealer_button
        .expect("unexpected state");

    let sb_amount = table.config.stakes.small_blind;
    let bb_amount = table.config.stakes.big_blind;

    let sb_seat = find_seat_with_current_bet(&table, sb_amount)
        .expect("unexpected state");
    let bb_seat = find_seat_with_current_bet(&table, bb_amount)
        .expect("unexpected state");

    assert_eq!(
        button, sb_seat,
        "unexpected state"
    );
    assert_ne!(
        sb_seat, bb_seat,
        "unexpected state"
    );
}

#[test]
fn three_max_to_heads_up_when_small_blind_busts() {
    let mut table = make_test_table(3, AnteType::NoAnte);

    let mut rng = DeterministicRng::from_u64(777);
    let first_hand_id: HandId = 1;

    let _engine = start_hand(&mut table, &mut rng, first_hand_id)
        .expect("unexpected state");

    let button1 = table
        .dealer_button
        .expect("unexpected state");

    let sb_amount = table.config.stakes.small_blind;
    let bb_amount = table.config.stakes.big_blind;

    let sb1 = find_seat_with_current_bet(&table, sb_amount)
        .expect("unexpected state");
    let bb1 = find_seat_with_current_bet(&table, bb_amount)
        .expect("unexpected state");

    assert_ne!(button1, sb1, "unexpected state");
    assert_ne!(button1, bb1, "unexpected state");
    assert_ne!(sb1, bb1, "unexpected state");

    table.seats[sb1 as usize] = None;
    table.hand_in_progress = false;
    table.current_hand_id = None;

    let second_hand_id: HandId = 2;
    let _engine2 = start_hand(&mut table, &mut rng, second_hand_id)
        .expect("unexpected state");

    let button2 = table
        .dealer_button
        .expect("unexpected state");

    let sb2 = find_seat_with_current_bet(&table, sb_amount)
        .expect("unexpected state");
    let bb2 = find_seat_with_current_bet(&table, bb_amount)
        .expect("unexpected state");

    assert_eq!(
        button2, sb2,
        "unexpected state"
    );
    assert_ne!(
        sb2, bb2,
        "unexpected state"
    );

    assert_ne!(
        bb2, sb1,
        "unexpected state"
    );
}

