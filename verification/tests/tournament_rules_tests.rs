use std::collections::HashMap;

use poker_engine::domain::{
    AnteType, BlindLevel, BlindStructure, Chips, PlayerId, RebalanceMove, TableBalancingConfig,
    TableId, Tournament, TournamentConfig, TournamentError, TournamentScheduleConfig,
    TournamentStatus, TournamentTimeEvent,
};
use poker_engine::tournament::rebalance::{
    compute_rebalance_plan, is_balanced, rebalance_tables, snapshot_tables, TableOccupancy,
};
use poker_engine::tournament::{TournamentLobby, TournamentRuntime};

fn level(n: u32, sb: u64, bb: u64, minutes: u32) -> BlindLevel {
    BlindLevel::new(n, Chips(sb), Chips(bb), Chips(0), AnteType::NoAnte, minutes)
}

fn config() -> TournamentConfig {
    TournamentConfig {
        name: "Rules".to_string(),
        description: Some("a test".to_string()),
        starting_stack: Chips(5000),
        max_players: 20,
        min_players_to_start: 2,
        table_size: 4,
        freezeout: true,
        reentry_allowed: false,
        max_entries_per_player: 1,
        late_reg_level: 0,
        blind_structure: BlindStructure::new(vec![
            level(1, 50, 100, 10),
            level(2, 100, 200, 10),
            level(3, 200, 400, 10),
        ]),
        auto_approve: true,
        schedule: TournamentScheduleConfig {
            scheduled_start_ts: 0,
            allow_start_earlier: true,
            break_every_minutes: 25,
            break_duration_minutes: 5,
        },
        balancing: TableBalancingConfig { enabled: true, max_seat_diff: 1 },
    }
}

fn reentry_config() -> TournamentConfig {
    let mut c = config();
    c.freezeout = false;
    c.reentry_allowed = true;
    c.max_entries_per_player = 2;
    c.late_reg_level = 2;
    c
}

fn started(players: u64) -> Tournament {
    let mut t = Tournament::new(1, 99, config()).unwrap();
    for id in 1..=players {
        t.register_player(id).unwrap();
    }
    t.start(1000).unwrap();
    t
}

fn invalid(mutate: impl Fn(&mut TournamentConfig)) -> String {
    let mut c = config();
    mutate(&mut c);
    match Tournament::new(1, 1, c) {
        Err(TournamentError::InvalidConfig(message)) => message,
        other => panic!("expected an invalid configuration, got {other:?}"),
    }
}

#[test]
fn every_rule_of_the_configuration_is_checked() {
    assert!(config().validate_full().is_ok());
    assert!(reentry_config().validate_full().is_ok());
    assert_eq!(invalid(|c| c.name = String::new()), "TournamentConfig: name is empty");
    assert_eq!(
        invalid(|c| c.starting_stack = Chips(0)),
        "TournamentConfig: starting_stack = 0"
    );
    assert_eq!(invalid(|c| c.max_players = 0), "TournamentConfig: max_players = 0");
    assert_eq!(
        invalid(|c| c.min_players_to_start = 0),
        "TournamentConfig: min_players_to_start = 0"
    );
    assert_eq!(
        invalid(|c| c.min_players_to_start = 21),
        "TournamentConfig: min_players_to_start > max_players"
    );
    assert_eq!(invalid(|c| c.table_size = 1), "TournamentConfig: table_size must be in [2, 9]");
    assert_eq!(invalid(|c| c.table_size = 10), "TournamentConfig: table_size must be in [2, 9]");
    assert_eq!(
        invalid(|c| c.reentry_allowed = true),
        "TournamentConfig: reentry_allowed but max_entries_per_player < 2"
    );
    assert_eq!(
        invalid(|c| c.max_entries_per_player = 2),
        "TournamentConfig: freezeout must match max_entries_per_player = 1"
    );
    assert_eq!(
        invalid(|c| c.freezeout = false),
        "TournamentConfig: freezeout must match max_entries_per_player = 1"
    );
    assert_eq!(
        invalid(|c| c.blind_structure = BlindStructure::new(vec![])),
        "BlindStructure: empty levels"
    );
    assert_eq!(
        invalid(|c| c.blind_structure = BlindStructure::new(vec![level(1, 0, 100, 10)])),
        "BlindLevel 1: small_blind = 0"
    );
    assert_eq!(
        invalid(|c| c.blind_structure = BlindStructure::new(vec![level(1, 100, 100, 10)])),
        "BlindLevel 1: big_blind (100) <= small_blind (100)"
    );
    assert_eq!(
        invalid(|c| c.blind_structure = BlindStructure::new(vec![level(1, 50, 100, 0)])),
        "BlindLevel 1: duration_minutes = 0"
    );
    assert_eq!(
        invalid(|c| {
            c.blind_structure = BlindStructure::new(vec![level(1, 50, 100, 5), level(3, 50, 100, 5)])
        }),
        "BlindStructure: expected level 2, got 3"
    );
    assert_eq!(
        invalid(|c| c.late_reg_level = 4),
        "TournamentConfig: late_reg_level 4 is out of bounds"
    );
    assert_eq!(
        invalid(|c| c.schedule.break_every_minutes = 0),
        "TournamentScheduleConfig: break_every_minutes = 0"
    );
    assert_eq!(
        invalid(|c| c.schedule.break_duration_minutes = 0),
        "TournamentScheduleConfig: break_duration_minutes = 0"
    );
    assert_eq!(
        invalid(|c| c.balancing.max_seat_diff = 0),
        "TableBalancingConfig: max_seat_diff = 0"
    );
    assert_eq!(
        invalid(|c| c.balancing.max_seat_diff = 4),
        "TableBalancingConfig: max_seat_diff >= table_size"
    );
    let mut off = config();
    off.balancing = TableBalancingConfig { enabled: false, max_seat_diff: 0 };
    assert!(off.validate_full().is_ok());
    assert_eq!(level(9, 0, 0, 0).validate(), Err("BlindLevel 9: small_blind = 0".to_string()));
    assert_eq!(BlindStructure::simple_demo_structure().validate(), Ok(()));
    assert_eq!(BlindStructure::simple_demo_structure().total_duration_minutes(), 30);
}

#[test]
fn start_needs_enough_players_and_the_right_time() {
    let mut t = Tournament::new(1, 1, config()).unwrap();
    t.register_player(1).unwrap();
    assert!(!t.can_start_now(0));
    assert!(matches!(
        t.start(0),
        Err(TournamentError::InvalidStatusForStart { status: TournamentStatus::Registering })
    ));
    assert_eq!(t.status, TournamentStatus::Registering);
    t.register_player(2).unwrap();
    assert!(t.can_start_now(0));

    let mut planned = config();
    planned.schedule.scheduled_start_ts = 500;
    planned.schedule.allow_start_earlier = false;
    let mut late = Tournament::new(2, 1, planned).unwrap();
    late.register_player(1).unwrap();
    late.register_player(2).unwrap();
    assert!(!late.can_start_now(499));
    assert!(late.can_start_now(500));
    late.config.schedule.allow_start_earlier = true;
    assert!(late.can_start_now(499));

    t.start(77).unwrap();
    assert_eq!(t.status, TournamentStatus::Running);
    assert_eq!(t.started_at_ts, Some(77));
    assert_eq!(t.level_started_at_ts, Some(77));
    assert_eq!(t.total_entries, 2);
    assert_eq!(t.current_level, 1);
    assert!(matches!(
        t.start(78),
        Err(TournamentError::InvalidStatusForStart { status: TournamentStatus::Running })
    ));
}

#[test]
fn busts_are_refused_for_the_right_reasons() {
    let mut t = started(3);
    assert!(matches!(
        t.mark_player_busted(50),
        Err(TournamentError::NotRegistered { player_id: 50, tournament_id: 1 })
    ));
    assert_eq!(t.mark_player_busted(2), Ok(3));
    assert!(matches!(
        t.mark_player_busted(2),
        Err(TournamentError::AlreadyBusted { player_id: 2, tournament_id: 1 })
    ));
    assert_eq!(t.finished_count, 1);
    let reg = t.registrations.get(&2).unwrap();
    assert!(reg.is_busted);
    assert_eq!(reg.finishing_place, Some(3));
    assert_eq!(reg.table_id, None);
    assert_eq!(t.active_player_ids(), vec![1, 3]);

    let mut alone = started(2);
    alone.registrations.get_mut(&1).unwrap().is_busted = true;
    assert!(matches!(
        alone.mark_player_busted(2),
        Err(TournamentError::CannotBustLastPlayer { tournament_id: 1 })
    ));
    assert_eq!(alone.status, TournamentStatus::Running);
}

#[test]
fn entries_cover_the_players_in_and_out_while_the_tournament_runs() {
    let mut t = started(6);
    for id in [4u64, 1, 6, 2] {
        let place = t.mark_player_busted(id).unwrap();
        assert!(1 <= place && place <= t.total_entries);
        assert!(t.total_entries as usize >= t.active_player_count() + t.finished_count as usize);
        for reg in t.registrations.values() {
            if let Some(p) = reg.finishing_place {
                assert!(1 <= p && p <= t.total_entries);
            }
        }
    }
    assert_eq!(t.status, TournamentStatus::Running);
    assert_eq!(t.mark_player_busted(5), Ok(2));
    assert_eq!(t.status, TournamentStatus::Finished);
    assert_eq!(t.winner_id, Some(3));
    assert_eq!(t.registrations.get(&3).unwrap().finishing_place, Some(1));
}

#[test]
fn a_tournament_without_players_left_ends_without_a_winner() {
    let mut t = started(2);
    t.registrations.get_mut(&1).unwrap().is_busted = true;
    t.registrations.get_mut(&2).unwrap().is_busted = true;
    t.check_and_finish_if_needed();
    assert_eq!(t.status, TournamentStatus::Finished);
    assert_eq!(t.winner_id, None);
}

#[test]
fn reentry_uses_up_entries_and_starts_afresh() {
    let mut t = Tournament::new(1, 1, reentry_config()).unwrap();
    t.register_player(1).unwrap();
    t.register_player(2).unwrap();
    t.register_player(3).unwrap();
    t.start(0).unwrap();
    assert_eq!(t.mark_player_busted(3), Ok(3));
    assert_eq!(t.total_entries, 3);

    t.register_player(3).unwrap();
    let reg = t.registrations.get(&3).unwrap();
    assert!(!reg.is_busted);
    assert_eq!(reg.total_chips, Chips(5000));
    assert_eq!(reg.finishing_place, None);
    assert_eq!(t.total_entries, 4);
    assert_eq!(t.active_player_count(), 3);
    assert_eq!(t.entries_used.get(&3), Some(&2));

    assert_eq!(t.mark_player_busted(3), Ok(3));
    assert!(matches!(
        t.register_player(3),
        Err(TournamentError::AlreadyRegistered { player_id: 3, tournament_id: 1 })
    ));
}

#[test]
fn late_registration_ends_with_its_level() {
    let mut t = Tournament::new(1, 1, reentry_config()).unwrap();
    t.register_player(1).unwrap();
    t.register_player(2).unwrap();
    t.start(0).unwrap();
    t.register_player(3).unwrap();
    assert_eq!(t.total_entries, 3);
    assert_eq!(t.apply_time_tick(20 * 60), TournamentTimeEvent::LevelAdvanced {
        from: 1,
        to: 3,
        new_blinds: level(3, 200, 400, 10),
    });
    assert!(matches!(
        t.register_player(4),
        Err(TournamentError::InvalidStatus {
            expected: TournamentStatus::Registering,
            found: TournamentStatus::Running
        })
    ));
    assert_eq!(t.registrations.len(), 3);
}

#[test]
fn the_clock_moves_levels_and_breaks_by_the_minute() {
    let mut t = started(2);
    let at = |minutes: u64| 1000 + minutes * 60;
    assert_eq!(t.apply_time_tick(at(9) + 59), TournamentTimeEvent::NoEvent);
    assert_eq!(
        t.apply_time_tick(at(10)),
        TournamentTimeEvent::LevelAdvanced { from: 1, to: 2, new_blinds: level(2, 100, 200, 10) }
    );
    assert_eq!(t.level_started_at_ts, Some(at(10)));
    assert_eq!(t.apply_time_tick(at(10)), TournamentTimeEvent::NoEvent);
    assert_eq!(t.apply_time_tick(at(10) + 59), TournamentTimeEvent::NoEvent);
    assert_eq!(t.level_started_at_ts, Some(at(10)));
    assert_eq!(t.apply_time_tick(at(25)), TournamentTimeEvent::BreakStarted);
    assert_eq!(t.status, TournamentStatus::OnBreak);
    assert_eq!(t.break_started_at_ts, Some(at(25)));
    assert_eq!(t.current_level, 2);
    assert_eq!(t.apply_time_tick(at(25)), TournamentTimeEvent::NoEvent);
    assert_eq!(t.apply_time_tick(at(29)), TournamentTimeEvent::NoEvent);
    assert_eq!(
        t.apply_time_tick(at(30)),
        TournamentTimeEvent::LevelAdvanced { from: 2, to: 3, new_blinds: level(3, 200, 400, 10) }
    );
    assert_eq!(t.status, TournamentStatus::Running);
    assert_eq!(t.break_started_at_ts, None);
    assert_eq!(t.apply_time_tick(at(30)), TournamentTimeEvent::NoEvent);
    assert_eq!(t.apply_time_tick(at(500)), TournamentTimeEvent::NoEvent);
    assert_eq!(t.apply_time_tick(at(55)), TournamentTimeEvent::BreakStarted);
    assert_eq!(t.apply_time_tick(at(60)), TournamentTimeEvent::BreakEnded);
    assert_eq!(t.current_level, 3);
    assert_eq!(t.apply_time_tick(0), TournamentTimeEvent::NoEvent);
    assert_eq!(t.current_blind_level(), &level(3, 200, 400, 10));
}

#[test]
fn players_are_seated_table_by_table_in_rising_order() {
    let mut t = Tournament::new(1, 1, config()).unwrap();
    for id in [30u64, 10, 50, 20, 40, 60] {
        t.register_player(id).unwrap();
    }
    t.registrations.get_mut(&20).unwrap().is_busted = true;
    let plan = t.seat_players_evenly(4, 7);
    assert_eq!(plan, vec![(7, vec![10, 30, 40, 50]), (8, vec![60])]);
    let seat = |id: PlayerId| {
        let reg = t.registrations.get(&id).unwrap();
        (reg.table_id, reg.seat_index)
    };
    assert_eq!(seat(10), (Some(7), Some(0)));
    assert_eq!(seat(30), (Some(7), Some(1)));
    assert_eq!(seat(50), (Some(7), Some(3)));
    assert_eq!(seat(60), (Some(8), Some(0)));
    assert_eq!(seat(20), (None, None));

    let pairs = t.seat_players_evenly(1, 100);
    assert_eq!(pairs, vec![(100, vec![10, 30]), (101, vec![40, 50]), (102, vec![60])]);
    let mut nobody = Tournament::new(2, 1, config()).unwrap();
    assert!(nobody.seat_players_evenly(9, 1).is_empty());
}

#[test]
fn balancing_moves_the_last_player_of_the_fullest_table() {
    let mut t = Tournament::new(1, 1, config()).unwrap();
    for id in 1..=7u64 {
        t.register_player(id).unwrap();
    }
    for id in 1..=6u64 {
        t.registrations.get_mut(&id).unwrap().table_id = Some(10);
    }
    t.registrations.get_mut(&7).unwrap().table_id = Some(20);
    let moves = t.compute_rebalance_moves();
    assert_eq!(
        moves,
        vec![
            RebalanceMove { player_id: 6, from_table: 10, to_table: 20 },
            RebalanceMove { player_id: 5, from_table: 10, to_table: 20 },
        ]
    );
    t.apply_rebalance_moves(&moves);
    assert_eq!(t.registrations.get(&5).unwrap().table_id, Some(20));
    assert_eq!(t.registrations.get(&5).unwrap().seat_index, None);
    assert!(t.compute_rebalance_moves().is_empty());

    t.config.balancing.enabled = false;
    t.registrations.get_mut(&5).unwrap().table_id = Some(10);
    t.registrations.get_mut(&6).unwrap().table_id = Some(10);
    assert!(t.compute_rebalance_moves().is_empty());
    t.apply_rebalance_moves(&[RebalanceMove { player_id: 99, from_table: 1, to_table: 2 }]);
    assert_eq!(t.registrations.len(), 7);
}

fn distribution(tables: &[(TableId, &[PlayerId])]) -> HashMap<TableId, Vec<PlayerId>> {
    tables.iter().map(|(id, players)| (*id, players.to_vec())).collect()
}

#[test]
fn a_plan_balances_tables_and_says_where_everybody_ends_up() {
    let tables = distribution(&[(3, &[9, 8, 7, 7, 1]), (1, &[2]), (2, &[])]);
    assert!(!is_balanced(&tables, 1));
    assert!(!is_balanced(&tables, 4));
    assert!(is_balanced(&tables, 5));
    let plan = compute_rebalance_plan(&tables, 1);
    assert_eq!(
        plan.moves,
        vec![
            RebalanceMove { player_id: 9, from_table: 3, to_table: 2 },
            RebalanceMove { player_id: 8, from_table: 3, to_table: 1 },
        ]
    );
    assert_eq!(plan.final_distribution, distribution(&[(3, &[1, 7]), (1, &[2, 8]), (2, &[9])]));
    assert!(is_balanced(&plan.final_distribution, 1));

    let untouched = compute_rebalance_plan(&tables, 0);
    assert!(untouched.moves.is_empty());
    assert_eq!(untouched.final_distribution, tables);
    let single = distribution(&[(1, &[5, 4])]);
    assert!(is_balanced(&single, 0));
    assert!(compute_rebalance_plan(&single, 1).moves.is_empty());
    assert!(is_balanced(&HashMap::new(), 0));

    let snapshot = snapshot_tables(&tables);
    assert_eq!(snapshot.len(), 3);
    assert_eq!(snapshot[0].table_id, 1);
    assert_eq!(snapshot[2].players, vec![9, 8, 7, 7, 1]);

    let mut list = vec![
        TableOccupancy { table_id: 5, players: vec![1, 2, 3] },
        TableOccupancy { table_id: 6, players: vec![] },
    ];
    let moves = rebalance_tables(&mut list, 2);
    assert_eq!(moves, vec![RebalanceMove { player_id: 3, from_table: 5, to_table: 6 }]);
    assert_eq!(list[0].players, vec![1, 2]);
    assert_eq!(list[1].players, vec![3]);
}

#[test]
fn the_lobby_numbers_its_tournaments_and_registers_players() {
    let mut lobby = TournamentLobby::new();
    assert!(lobby.all().is_empty());
    assert_eq!(lobby.create_tournament(7, config()), Ok(1));
    let mut bad = config();
    bad.name = String::new();
    assert!(matches!(
        lobby.create_tournament(7, bad),
        Err(TournamentError::InvalidConfig(_))
    ));
    assert_eq!(lobby.create_tournament(8, config()), Ok(2));
    assert_eq!(lobby.all().len(), 2);
    assert_eq!(lobby.get(2).unwrap().owner, 8);
    assert!(lobby.get(3).is_none());

    assert_eq!(lobby.register_player(1, 40), Ok(()));
    assert!(matches!(
        lobby.register_player(1, 40),
        Err(TournamentError::AlreadyRegistered { player_id: 40, tournament_id: 1 })
    ));
    assert!(matches!(
        lobby.register_player(9, 40),
        Err(TournamentError::TournamentNotFound { tournament_id: 9 })
    ));
    lobby.get_mut(1).unwrap().config.max_players = 1;
    assert!(matches!(
        lobby.register_player(1, 41),
        Err(TournamentError::TournamentFull { tournament_id: 1 })
    ));
    assert!(lobby.get_mut(5).is_none());
    assert_eq!(lobby.get(1).unwrap().registrations.len(), 1);
}

#[test]
fn tournament_tables_are_built_with_the_current_blinds() {
    let mut t = Tournament::new(3, 1, config()).unwrap();
    for id in 1..=5u64 {
        t.register_player(id).unwrap();
    }
    t.registrations.get_mut(&2).unwrap().total_chips = Chips(1234);
    t.current_level = 2;
    let tables = TournamentRuntime::build_tables_for_tournament(&t, 40);
    assert_eq!(tables.len(), 2);
    assert_eq!(tables[0].tournament_id, 3);
    assert_eq!(tables[0].table.id, 40);
    assert_eq!(tables[0].table.name, "T#3 Table 40");
    assert_eq!(tables[1].table.name, "T#3 Table 41");
    assert_eq!(tables[0].table.config.max_seats, 4);
    assert_eq!(tables[0].table.config.stakes.small_blind, Chips(100));
    assert_eq!(tables[0].table.config.stakes.big_blind, Chips(200));
    assert_eq!(tables[0].seats.len(), 4);
    assert_eq!(tables[0].seats[1].player_id, 2);
    assert_eq!(tables[0].seats[1].seat_index, 1);
    assert_eq!(tables[0].seats[1].stack, Chips(1234));
    assert_eq!(tables[0].table.seats[1].as_ref().unwrap().stack, Chips(1234));
    assert_eq!(tables[0].table.seated_count(), 4);
    assert_eq!(tables[1].table.seated_count(), 1);
    assert_eq!(tables[1].table.seats[0].as_ref().unwrap().player_id, 5);
    assert!(tables[1].table.seats[1].is_none());
}

#[test]
fn tournament_errors_have_their_messages() {
    let running = TournamentStatus::Running;
    let messages = [
        (
            TournamentError::TournamentNotFound { tournament_id: 7 },
            "Tournament not found: id=7",
        ),
        (TournamentError::TournamentFull { tournament_id: 8 }, "Tournament is full: id=8"),
        (
            TournamentError::AlreadyRegistered { player_id: 3, tournament_id: 12 },
            "Player 3 is already registered in tournament 12",
        ),
        (
            TournamentError::NotRegistered { player_id: 4, tournament_id: 0 },
            "Player 4 is not registered in tournament 0",
        ),
        (
            TournamentError::AlreadyBusted { player_id: u64::MAX, tournament_id: 1 },
            "Player 18446744073709551615 is already busted in tournament 1",
        ),
        (
            TournamentError::CannotBustLastPlayer { tournament_id: 5 },
            "Cannot bust last remaining player in tournament 5",
        ),
        (
            TournamentError::InvalidStatus { expected: TournamentStatus::Registering, found: running },
            "Invalid tournament status, expected Registering, found Running",
        ),
        (
            TournamentError::InvalidStatusForStart { status: TournamentStatus::OnBreak },
            "Invalid tournament status for start: OnBreak",
        ),
        (
            TournamentError::InvalidConfig("TournamentConfig: name is empty".to_string()),
            "Invalid tournament config: TournamentConfig: name is empty",
        ),
    ];
    for (error, message) in messages {
        assert_eq!(error.to_string(), message);
    }
    assert_eq!(TournamentStatus::Finished.as_str(), "Finished");
}

#[test]
fn several_entries_without_reentry_are_a_valid_configuration() {
    let mut c = config();
    c.freezeout = false;
    c.reentry_allowed = false;
    c.max_entries_per_player = 3;
    assert_eq!(c.validate_full(), Ok(()));
    assert!(Tournament::new(1, 1, c).is_ok());
}

#[test]
fn a_name_of_white_space_alone_is_no_name() {
    for name in ["", " ", "\t\n", " \u{a0}\u{2003}\u{3000} ", "\u{85}\u{1680}\u{2028}\u{205f}"] {
        assert_eq!(invalid(|c| c.name = name.to_string()), "TournamentConfig: name is empty");
        assert!(poker_engine::text::blank(name));
    }
    for name in [" a ", "\u{200b}", "\u{feff}", "_", "\u{1c}x"] {
        let mut c = config();
        c.name = name.to_string();
        assert_eq!(c.validate_full(), Ok(()), "{name:?}");
        assert_eq!(name.trim().is_empty(), poker_engine::text::blank(name));
    }
    for code in 0..0x3100u32 {
        if let Some(c) = char::from_u32(code) {
            assert_eq!(poker_engine::text::white_space(c), c.is_whitespace(), "{code:#x}");
        }
    }
}

#[test]
fn the_lobby_lists_its_tournaments_by_rising_identifier() {
    let mut lobby = TournamentLobby::new();
    for owner in [5u64, 6, 7] {
        lobby.create_tournament(owner, config()).unwrap();
    }
    let ids: Vec<u64> = lobby.all().iter().map(|t| t.id).collect();
    assert_eq!(ids, vec![1, 2, 3]);
    let owners: Vec<u64> = lobby.all().iter().map(|t| t.owner).collect();
    assert_eq!(owners, vec![5, 6, 7]);
    lobby.get_mut(2).unwrap().owner = 60;
    assert_eq!(lobby.get(2).unwrap().owner, 60);
    assert_eq!(lobby.get(1).unwrap().owner, 5);
}
