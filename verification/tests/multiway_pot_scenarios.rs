use poker_engine::domain::chips::Chips;
use poker_engine::domain::SeatIndex;
use poker_engine::engine::side_pots::{compute_side_pots, SidePot};

use std::collections::HashMap;

fn contrib(entries: &[(SeatIndex, u64)]) -> HashMap<SeatIndex, Chips> {
    let mut m = HashMap::new();
    for (seat, amount) in entries {
        m.insert(*seat, Chips(*amount));
    }
    m
}

#[test]
fn multiway_all_in_side_pots_are_computed_correctly() {
    let contributions = contrib(&[(0, 100), (1, 200), (2, 400)]);

    let pots: Vec<SidePot> = compute_side_pots(&contributions);
    assert_eq!(pots.len(), 3, "unexpected state");

    let mut pots_sorted = pots.clone();
    pots_sorted.sort_by_key(|p| p.amount.0);

    assert_eq!(pots_sorted[0].amount.0, 200);
    assert_eq!(pots_sorted[1].amount.0, 200);
    assert_eq!(pots_sorted[2].amount.0, 300);

    let mut sets: Vec<Vec<SeatIndex>> = pots_sorted
        .iter()
        .map(|p| {
            let mut s = p.eligible_seats.clone();
            s.sort();
            s
        })
        .collect();

    sets.sort();

    assert!(
        sets.contains(&vec![0, 1, 2]),
        "unexpected state"
    );
    assert!(sets.contains(&vec![1, 2]), "unexpected state");
    assert!(sets.contains(&vec![2]), "unexpected state");
}

#[test]
fn player_with_zero_contribution_is_not_in_pots() {
    let contributions = contrib(&[(0, 0), (1, 100), (2, 100)]);

    let pots = compute_side_pots(&contributions);
    assert_eq!(pots.len(), 1, "unexpected state");

    let pot = &pots[0];
    assert_eq!(pot.amount.0, 200);
    let mut seats = pot.eligible_seats.clone();
    seats.sort();
    assert_eq!(seats, vec![1, 2], "unexpected state");
}
