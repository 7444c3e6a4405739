use poker_engine::domain::{PlayerId, TournamentId};
use poker_engine::domain::chips::Chips;
use poker_engine::domain::blinds::{BlindLevel, BlindStructure, AnteType};
use poker_engine::domain::tournament::{
    Tournament,
    TournamentConfig,
    TournamentStatus,
    TournamentScheduleConfig,
    TableBalancingConfig,
    TournamentError,
    TournamentTimeEvent,
};
use poker_engine::infra::rng::DeterministicRng;
use poker_engine::engine::RandomSource;

fn basic_blind_structure() -> BlindStructure {
    BlindStructure {
        levels: vec![
            BlindLevel {
                level: 1,
                small_blind: Chips(50),
                big_blind: Chips(100),
                ante: Chips(0),
                ante_type: AnteType::NoAnte,
                duration_minutes: 10,
            },
            BlindLevel {
                level: 2,
                small_blind: Chips(100),
                big_blind: Chips(200),
                ante: Chips(0),
                ante_type: AnteType::NoAnte,
                duration_minutes: 10,
            },
        ],
    }
}

fn invalid_blind_structure() -> BlindStructure {
    BlindStructure {
        levels: vec![
            BlindLevel {
                level: 1,
                small_blind: Chips(50),
                big_blind: Chips(100),
                ante: Chips(0),
                ante_type: AnteType::NoAnte,
                duration_minutes: 10,
            },
            BlindLevel {
                level: 1,
                small_blind: Chips(100),
                big_blind: Chips(200),
                ante: Chips(0),
                ante_type: AnteType::NoAnte,
                duration_minutes: 10,
            },
        ],
    }
}

fn base_schedule() -> TournamentScheduleConfig {
    TournamentScheduleConfig {
        scheduled_start_ts: 0,
        allow_start_earlier: true,
        break_every_minutes: 60,
        break_duration_minutes: 5,
    }
}

fn base_balancing() -> TableBalancingConfig {
    TableBalancingConfig {
        enabled: true,
        max_seat_diff: 1,
    }
}

fn base_tournament_config_with_blinds(blinds: BlindStructure) -> TournamentConfig {
    TournamentConfig {
        name: "TestTournament".into(),
        description: None,
        starting_stack: Chips(10_000),
        max_players: 3,
        min_players_to_start: 2,
        table_size: 9,
        freezeout: true,
        reentry_allowed: false,
        max_entries_per_player: 1,
        late_reg_level: 0,
        blind_structure: blinds,
        auto_approve: true,
        schedule: base_schedule(),
        balancing: base_balancing(),
    }
}

fn base_tournament_config() -> TournamentConfig {
    base_tournament_config_with_blinds(basic_blind_structure())
}

fn create_tournament(id: TournamentId, owner: PlayerId) -> Tournament {
    let cfg = base_tournament_config();
    Tournament::new(id, owner, cfg).expect("Tournament::new must succeed in tests")
}

#[test]
fn invalid_blind_structure_causes_invalid_config_error() {
    let cfg = base_tournament_config_with_blinds(invalid_blind_structure());

    let res = cfg.validate_full();

    assert!(
        matches!(res, Err(TournamentError::InvalidConfig(_))),
        "unexpected state"
    );
}

#[test]
fn register_player_in_non_registering_status_returns_error() {
    let owner: PlayerId = 1;
    let mut t = create_tournament(100, owner);

    t.status = TournamentStatus::Running;

    let p: PlayerId = 10;
    let res = t.register_player(p);

    assert!(
        matches!(
            res,
            Err(TournamentError::InvalidStatus {
                expected: TournamentStatus::Registering,
                found: TournamentStatus::Running
            })
        ),
        "unexpected state"
    );
}

#[test]
fn registering_same_player_twice_returns_already_registered_error() {
    let owner: PlayerId = 1;
    let mut t = create_tournament(101, owner);

    let p: PlayerId = 10;
    t.register_player(p).expect("first registration must succeed");

    let res = t.register_player(p);

    assert!(
        matches!(
            res,
            Err(TournamentError::AlreadyRegistered { player_id, tournament_id })
                if player_id == p && tournament_id == t.id
        ),
        "unexpected state"
    );
}

#[test]
fn registering_more_than_max_players_returns_tournament_full() {
    let owner: PlayerId = 1;
    let mut cfg = base_tournament_config();
    cfg.max_players = 2;
    let mut t = Tournament::new(102, owner, cfg).unwrap();

    t.register_player(10).unwrap();
    t.register_player(11).unwrap();

    let res = t.register_player(12);

    assert!(
        matches!(
            res,
            Err(TournamentError::TournamentFull { tournament_id })
                if tournament_id == t.id
        ),
        "unexpected state"
    );
}

#[test]
fn mark_player_busted_in_non_running_status_returns_error() {
    let owner: PlayerId = 1;
    let mut t = create_tournament(103, owner);

    t.register_player(10).unwrap();
    t.register_player(11).unwrap();

    let res = t.mark_player_busted(10);

    assert!(
        matches!(
            res,
            Err(TournamentError::InvalidStatus {
                expected: TournamentStatus::Running,
                found: TournamentStatus::Registering
            })
        ),
        "unexpected state"
    );
}

#[test]
fn cannot_bust_when_tournament_already_finished() {
    let owner: PlayerId = 1;
    let mut t = create_tournament(104, owner);

    let p1: PlayerId = 10;
    let p2: PlayerId = 11;

    t.register_player(p1).unwrap();
    t.register_player(p2).unwrap();

    t.status = TournamentStatus::Running;
    t.total_entries = t.active_player_count() as u32;

    let place_p1 = t.mark_player_busted(p1).expect("first bust must succeed");
    assert!(place_p1 > 0, "unexpected state");
    assert!(
        t.is_finished(),
        "unexpected state"
    );

    let res = t.mark_player_busted(p2);

    assert!(
        matches!(
            res,
            Err(TournamentError::InvalidStatus {
                expected: TournamentStatus::Running,
                found: TournamentStatus::Finished
            })
        ),
        "unexpected state"
    );
}

#[test]
fn finishing_place_increases_as_players_bust() {
    let owner: PlayerId = 1;
    let mut t = create_tournament(105, owner);

    let p1: PlayerId = 10;
    let p2: PlayerId = 11;
    let p3: PlayerId = 12;

    t.register_player(p1).unwrap();
    t.register_player(p2).unwrap();
    t.register_player(p3).unwrap();

    t.status = TournamentStatus::Running;
    t.total_entries = t.active_player_count() as u32;

    let place1 = t.mark_player_busted(p1).unwrap();
    assert_eq!(
        place1, 3,
        "unexpected state"
    );

    let place2 = t.mark_player_busted(p2).unwrap();
    assert_eq!(
        place2, 2,
        "unexpected state"
    );

    assert!(t.is_finished(), "unexpected state");
    assert_eq!(
        t.winner_id,
        Some(p3),
        "unexpected state"
    );
}

#[test]
fn tournament_finishes_when_single_player_left() {
    let owner: PlayerId = 1;
    let mut t = create_tournament(106, owner);

    let p1: PlayerId = 10;
    let p2: PlayerId = 11;

    t.register_player(p1).unwrap();
    t.register_player(p2).unwrap();

    t.status = TournamentStatus::Running;
    t.total_entries = t.active_player_count() as u32;

    let _place1 = t.mark_player_busted(p1).unwrap();

    assert!(
        t.is_finished(),
        "unexpected state"
    );
    assert_eq!(
        t.winner_id,
        Some(p2),
        "unexpected state"
    );
}

#[test]
fn time_tick_before_tournament_start_produces_no_event() {
    let owner: PlayerId = 1;
    let mut t = create_tournament(107, owner);

    let now_ts: u64 = 1_000_000;

    let ev = t.apply_time_tick(now_ts);

    assert!(
        matches!(ev, TournamentTimeEvent::NoEvent),
        "unexpected state"
    );
    assert_eq!(
        t.current_level, 1,
        "unexpected state"
    );
}

#[test]
fn rebalance_with_single_table_and_single_player_has_no_moves() {
    let owner: PlayerId = 1;
    let mut t = create_tournament(108, owner);

    let p: PlayerId = 10;
    t.register_player(p).unwrap();

    t.status = TournamentStatus::Running;
    t.total_entries = t.active_player_count() as u32;

    let seating = t.seat_players_evenly(9, 100);

    assert_eq!(seating.len(), 1);
    assert_eq!(seating[0].1.len(), 1);

    let moves = t.compute_rebalance_moves();
    assert!(
        moves.is_empty(),
        "unexpected state"
    );

    t.apply_rebalance_moves(&moves);

    let regs: Vec<_> = t.active_players();
    assert_eq!(regs.len(), 1);
    assert_eq!(regs[0].player_id, p);
}

#[test]
fn deterministic_rng_shuffle_empty_vec_is_safe() {
    let mut rng = DeterministicRng::from_u64(123);
    let mut data: Vec<u32> = Vec::new();

    rng.shuffle(&mut data);

    assert!(
        data.is_empty(),
        "unexpected state"
    );
}
