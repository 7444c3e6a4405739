use poker_engine::domain::{PlayerId, TournamentId};
use poker_engine::domain::chips::Chips;
use poker_engine::domain::blinds::{AnteType, BlindLevel, BlindStructure};
use poker_engine::domain::tournament::{
    Tournament,
    TournamentConfig,
    TournamentStatus,
    TournamentScheduleConfig,
    TableBalancingConfig,
};
use poker_engine::infra::rng::DeterministicRng;
use poker_engine::engine::RandomSource;

fn basic_blind_structure() -> BlindStructure {
    BlindStructure {
        levels: vec![
            BlindLevel {
                level: 1,
                small_blind: Chips(50),
                big_blind: Chips(100),
                ante: Chips(0),
                ante_type: AnteType::NoAnte,
                duration_minutes: 10,
            },
            BlindLevel {
                level: 2,
                small_blind: Chips(100),
                big_blind: Chips(200),
                ante: Chips(0),
                ante_type: AnteType::NoAnte,
                duration_minutes: 10,
            },
            BlindLevel {
                level: 3,
                small_blind: Chips(200),
                big_blind: Chips(400),
                ante: Chips(0),
                ante_type: AnteType::NoAnte,
                duration_minutes: 10,
            },
        ],
    }
}

fn base_schedule() -> TournamentScheduleConfig {
    TournamentScheduleConfig {
        scheduled_start_ts: 1_000_000,
        allow_start_earlier: true,
        break_every_minutes: 60,
        break_duration_minutes: 5,
    }
}

fn base_balancing() -> TableBalancingConfig {
    TableBalancingConfig {
        enabled: true,
        max_seat_diff: 1,
    }
}

fn base_tournament_config(max_players: u32) -> TournamentConfig {
    TournamentConfig {
        name: "StressTournament".into(),
        description: None,
        starting_stack: Chips(10_000),
        max_players,
        min_players_to_start: 2,
        table_size: 9,
        freezeout: true,
        reentry_allowed: false,
        max_entries_per_player: 1,
        late_reg_level: 0,
        blind_structure: basic_blind_structure(),
        auto_approve: true,
        schedule: base_schedule(),
        balancing: base_balancing(),
    }
}

fn create_tournament_with_players(
    id: TournamentId,
    owner: PlayerId,
    player_count: u32,
) -> Tournament {
    assert!(player_count >= 2, "unexpected state");

    let mut cfg = base_tournament_config(player_count);
    cfg.max_players = player_count;

    let mut t = Tournament::new(id, owner, cfg)
        .expect("Tournament::new must succeed in stress tests");

    for i in 0..player_count {
        let pid: PlayerId = (1000 + i as u64) as PlayerId;
        t.register_player(pid)
            .expect("registration must succeed in stress tests");
    }

    let start_ts: u64 = 1_000_000;
    t.start(start_ts).expect("tournament start must succeed");
    assert_eq!(t.status, TournamentStatus::Running);
    assert_eq!(t.total_entries, t.active_player_count() as u32);

    t
}

fn random_index<R: RandomSource>(rng: &mut R, len: usize) -> usize {
    assert!(len > 0);
    let mut indices: Vec<usize> = (0..len).collect();
    rng.shuffle(&mut indices);
    indices[0]
}

fn random_choice<R: RandomSource>(rng: &mut R, choices: &[u8]) -> u8 {
    assert!(!choices.is_empty());
    let mut arr = choices.to_vec();
    rng.shuffle(&mut arr);
    arr[0]
}

fn assert_tournament_invariants(t: &Tournament) {
    if t.status == TournamentStatus::Registering {
        assert_eq!(
            t.finished_count, 0,
            "unexpected state"
        );
        assert!(
            t.winner_id.is_none(),
            "unexpected state"
        );
        return;
    }

    let active: Vec<_> = t.active_players();
    let active_count = active.len() as u32;

    assert!(
        t.total_entries >= t.finished_count,
        "total_entries ({}) < finished_count ({})",
        t.total_entries,
        t.finished_count
    );

    assert!(
        t.total_entries >= active_count + t.finished_count,
        "total_entries ({}) < active ({}) + finished_count ({})",
        t.total_entries,
        active_count,
        t.finished_count
    );

    for reg in t.registrations.values() {
        if let Some(place) = reg.finishing_place {
            assert!(
                place >= 1 && place <= t.total_entries,
                "unexpected: {} / {}",
                place,
                t.total_entries
            );
        }
    }

    if t.is_finished() {
        let active_after_finish: Vec<_> = t.active_players();
        if active_after_finish.is_empty() {
        } else {
            assert!(
                t.winner_id.is_some(),
                "unexpected state"
            );
        }
    }
}

#[test]
fn simulate_1000_steps_tournament_state_remains_consistent() {
    let owner: PlayerId = 1;
    let mut t = create_tournament_with_players(1, owner, 50);

    let mut rng = DeterministicRng::from_u64(12345);
    let mut now_ts: u64 = 1_000_000;

    for _step in 0..1000 {
        now_ts += 30;

        let _ = t.apply_time_tick(now_ts);

        let actives: Vec<_> = t.active_players().iter().map(|r| r.player_id).collect();
        if actives.len() >= 2 {
            let idx = random_index(&mut rng, actives.len());
            let target = actives[idx];
            let _ = t.mark_player_busted(target);
        }

        let moves = t.compute_rebalance_moves();
        t.apply_rebalance_moves(&moves);

        assert_tournament_invariants(&t);

        if t.is_finished() {
            break;
        }
    }
}

#[test]
fn simulate_50_full_tournaments_finish_correctly() {
    let owner: PlayerId = 1;
    let mut rng = DeterministicRng::from_u64(9999);

    let mut tournaments: Vec<Tournament> = (0..50)
        .map(|i| {
            let tid: TournamentId = (10_000 + i) as TournamentId;
            create_tournament_with_players(tid, owner, 40)
        })
        .collect();

    for t in tournaments.iter_mut() {
        let mut steps = 0u32;
        let mut now_ts: u64 = 1_000_000;

        while !t.is_finished() && steps < 20_000 {
            steps += 1;
            now_ts += 30;
            let _ = t.apply_time_tick(now_ts);

            let actives: Vec<_> = t.active_players().iter().map(|r| r.player_id).collect();
            if actives.len() >= 2 {
                let idx = random_index(&mut rng, actives.len());
                let target = actives[idx];
                let _ = t.mark_player_busted(target);
            }

            let moves = t.compute_rebalance_moves();
            t.apply_rebalance_moves(&moves);

            assert_tournament_invariants(t);
        }

        assert!(
            t.is_finished(),
            "unexpected: {} / {}",
            t.id,
            steps
        );
        assert_tournament_invariants(t);
    }
}

#[derive(Clone, Copy, Debug)]
enum RandomTournamentOp {
    RegisterNewPlayer,
    BustRandomPlayer,
    TimeTick,
    Rebalance,
    Noop,
}

fn random_tournament_op<R: RandomSource>(rng: &mut R) -> RandomTournamentOp {
    match random_choice(rng, &[0, 1, 2, 3, 4]) {
        0 => RandomTournamentOp::RegisterNewPlayer,
        1 => RandomTournamentOp::BustRandomPlayer,
        2 => RandomTournamentOp::TimeTick,
        3 => RandomTournamentOp::Rebalance,
        _ => RandomTournamentOp::Noop,
    }
}

#[test]
fn random_actions_generator_keeps_tournament_consistent() {
    let owner: PlayerId = 1;
    let mut cfg = base_tournament_config(500);
    cfg.max_players = 500;

    let mut t = Tournament::new(5000, owner, cfg).expect("Tournament::new must succeed");
    let mut rng = DeterministicRng::from_u64(42);
    let mut now_ts: u64 = 1_000_000;
    let mut next_player_id: PlayerId = 10_000;

    for _step in 0..5000 {
        let op = random_tournament_op(&mut rng);

        match op {
            RandomTournamentOp::RegisterNewPlayer => {
                if t.status == TournamentStatus::Registering
                    && (t.registrations.len() as u32) < t.config.max_players
                {
                    let pid = next_player_id;
                    next_player_id += 1;
                    let _ = t.register_player(pid);

                    if t.can_start_now(now_ts) {
                        let _ = t.start(now_ts);
                    }
                }
            }
            RandomTournamentOp::BustRandomPlayer => {
                if t.status == TournamentStatus::Running {
                    let actives: Vec<_> =
                        t.active_players().iter().map(|r| r.player_id).collect();
                    if actives.len() >= 2 {
                        let idx = random_index(&mut rng, actives.len());
                        let target = actives[idx];
                        let _ = t.mark_player_busted(target);
                    }
                }
            }
            RandomTournamentOp::TimeTick => {
                now_ts += 60;
                let _ = t.apply_time_tick(now_ts);
            }
            RandomTournamentOp::Rebalance => {
                let moves = t.compute_rebalance_moves();
                t.apply_rebalance_moves(&moves);
            }
            RandomTournamentOp::Noop => {
            }
        }

        assert_tournament_invariants(&t);
        if t.is_finished() {
            break;
        }
    }
}

