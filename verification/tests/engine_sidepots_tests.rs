use std::collections::HashMap;

use poker_engine::domain::{
    blinds::AnteType,
    chips::Chips,
    player::{PlayerAtTable, PlayerStatus},
    table::{Table, TableConfig, TableStakes, TableType},
    HandId, PlayerId, SeatIndex, TableId,
};

use poker_engine::engine::{
    actions::{PlayerAction, PlayerActionKind},
    game_loop::{apply_action, start_hand, HandStatus},
    side_pots::{compute_side_pots, SidePot},
};

use poker_engine::infra::rng::DeterministicRng;

fn make_contributions(pairs: &[(SeatIndex, u64)]) -> HashMap<SeatIndex, Chips> {
    let mut m = HashMap::new();
    for (seat, amount) in pairs {
        m.insert(*seat, Chips(*amount));
    }
    m
}

fn pot_info(p: &SidePot) -> (u64, Vec<SeatIndex>) {
    let mut seats = p.eligible_seats.clone();
    seats.sort_unstable();
    (p.amount.0, seats)
}

#[test]
fn side_pots_two_players_equal_all_in() {
    let contrib = make_contributions(&[(0, 100), (1, 100)]);

    let pots = compute_side_pots(&contrib);

    assert_eq!(pots.len(), 1, "unexpected state");

    let (amount, seats) = pot_info(&pots[0]);
    assert_eq!(amount, 200);
    assert_eq!(seats, vec![0, 1]);
}

#[test]
fn side_pots_three_players_all_in_100_200_300() {
    let contrib = make_contributions(&[(0, 100), (1, 200), (2, 300)]);

    let pots = compute_side_pots(&contrib);
    assert_eq!(pots.len(), 3, "unexpected state");

    let info0 = pot_info(&pots[0]);
    let info1 = pot_info(&pots[1]);
    let info2 = pot_info(&pots[2]);

    assert_eq!(info0, (300, vec![0, 1, 2]));
    assert_eq!(info1, (200, vec![1, 2]));
    assert_eq!(info2, (100, vec![2]));
}

#[test]
fn side_pots_four_players_all_in_100_100_300_300() {
    let contrib = make_contributions(&[(0, 100), (1, 100), (2, 300), (3, 300)]);

    let pots = compute_side_pots(&contrib);
    assert_eq!(pots.len(), 2, "unexpected state");

    let info0 = pot_info(&pots[0]);
    let info1 = pot_info(&pots[1]);

    assert_eq!(info0, (400, vec![0, 1, 2, 3]));
    assert_eq!(info1, (400, vec![2, 3]));
}

#[test]
fn side_pots_are_consistent_and_non_zero() {
    let contrib = make_contributions(&[(0, 50), (1, 200), (2, 200), (3, 500)]);

    let pots = compute_side_pots(&contrib);
    assert!(!pots.is_empty());

    for p in &pots {
        assert!(p.amount.0 > 0, "unexpected state");
    }

    let total_contrib: u64 = contrib.values().map(|c| c.0).sum();
    let total_pots: u64 = pots.iter().map(|p| p.amount.0).sum();

    assert!(
        total_pots >= total_contrib,
        "unexpected state"
    );
}

fn setup_table_with_n_players(n: usize, stack: u64) -> (Table, poker_engine::engine::game_loop::HandEngine) {
    let table_id: TableId = 1;
    let stakes = TableStakes {
        small_blind: Chips(50),
        big_blind: Chips(100),
        ante: Chips(0),
        ante_type: AnteType::NoAnte,
    };

    let config = TableConfig {
        max_seats: n as u8,
        table_type: TableType::Tournament,
        stakes,
        allow_straddle: false,
        allow_run_it_twice: false,
    };

    let mut table = Table::new(table_id, "SidePotTestTable".to_string(), config);

    for i in 0..n {
        let pid: PlayerId = (i as u64) + 1;
        table.seats[i] = Some(PlayerAtTable::new(pid, Chips(stack)));
    }

    let mut rng = DeterministicRng::from_u64(123456);
    let hand_id: HandId = 1;

    let engine = start_hand(&mut table, &mut rng, hand_id)
        .expect("unexpected state");

    (table, engine)
}

#[test]
fn finish_hand_when_everyone_folds_except_one() {
    let (mut table, mut engine) = setup_table_with_n_players(3, 10_000);

    let current_seat = engine
        .current_actor
        .expect("unexpected state");
    let current_player_id = table.seats[current_seat as usize]
        .as_ref()
        .expect("unexpected state")
        .player_id;

    let action1 = PlayerAction {
        player_id: current_player_id,
        seat: current_seat,
        kind: PlayerActionKind::Fold,
    };

    let status1 = apply_action(&mut table, &mut engine, action1)
        .expect("unexpected state");
    match status1 {
        HandStatus::Ongoing => {}
        _ => panic!("unexpected state"),
    }

    let next_seat = engine
        .current_actor
        .expect("unexpected state");
    let next_player_id = table.seats[next_seat as usize]
        .as_ref()
        .expect("unexpected state")
        .player_id;

    let action2 = PlayerAction {
        player_id: next_player_id,
        seat: next_seat,
        kind: PlayerActionKind::Fold,
    };

    let status2 = apply_action(&mut table, &mut engine, action2)
        .expect("unexpected state");

    let summary = match status2 {
        HandStatus::Finished(summary, _history) => summary,
        _ => panic!("unexpected state"),
    };

    assert!(
        summary.total_pot.0 > 0,
        "unexpected state"
    );

    let winners: Vec<_> = summary.results.iter().filter(|r| r.is_winner).collect();
    assert_eq!(winners.len(), 1, "unexpected state");

    let winner = winners[0];
    assert_eq!(
        winner.net_chips, summary.total_pot,
        "unexpected state"
    );

    for r in &summary.results {
        if r.player_id != winner.player_id {
            assert_eq!(r.net_chips, Chips::zero());
        }
    }
}
