use poker_engine::domain::card::{Card, Rank, Suit};
use poker_engine::eval::evaluate_best_hand;

use poker_engine::domain::card::Rank::{
    Ace, Eight, Five, Four, Jack, King, Nine, Queen, Seven, Six, Ten, Three, Two,
};
use poker_engine::domain::card::Suit::{Clubs, Diamonds, Hearts, Spades};

fn c(rank: Rank, suit: Suit) -> Card {
    Card { rank, suit }
}

#[test]
fn straight_flush_beats_four_of_a_kind() {
    let board = vec![
        c(Nine, Clubs),
        c(Ten, Clubs),
        c(Jack, Clubs),
        c(Queen, Clubs),
        c(Two, Diamonds),
    ];

    let p1_hole = vec![c(Eight, Clubs), c(King, Clubs)];

    let p2_hole = vec![c(King, Diamonds), c(King, Hearts)];

    let r1 = evaluate_best_hand(&p1_hole, &board);
    let r2 = evaluate_best_hand(&p2_hole, &board);

    assert!(r1 > r2, "unexpected state");
}

#[test]
fn four_of_a_kind_beats_full_house() {
    let board = vec![
        c(King, Clubs),
        c(King, Diamonds),
        c(Three, Clubs),
        c(Three, Diamonds),
        c(Seven, Spades),
    ];

    let p1_hole = vec![c(King, Hearts), c(King, Spades)];

    let p2_hole = vec![c(Three, Hearts), c(Seven, Hearts)];

    let r1 = evaluate_best_hand(&p1_hole, &board);
    let r2 = evaluate_best_hand(&p2_hole, &board);

    assert!(r1 > r2, "unexpected state");
}

#[test]
fn flush_beats_straight() {
    let board = vec![
        c(Two, Clubs),
        c(Four, Clubs),
        c(Six, Clubs),
        c(Eight, Diamonds),
        c(Ten, Diamonds),
    ];

    let p1_hole = vec![c(Ace, Clubs), c(Queen, Clubs)];

    let p2_hole = vec![c(Five, Diamonds), c(Seven, Spades)];

    let r1 = evaluate_best_hand(&p1_hole, &board);
    let r2 = evaluate_best_hand(&p2_hole, &board);

    assert!(r1 > r2, "unexpected state");
}

#[test]
fn split_pot_same_best_hand() {
    let board = vec![
        c(Five, Clubs),
        c(Six, Diamonds),
        c(Seven, Hearts),
        c(Eight, Spades),
        c(Nine, Clubs),
    ];

    let p1_hole = vec![c(Ace, Clubs), c(Ace, Diamonds)];

    let p2_hole = vec![c(King, Clubs), c(King, Diamonds)];

    let r1 = evaluate_best_hand(&p1_hole, &board);
    let r2 = evaluate_best_hand(&p2_hole, &board);

    assert_eq!(r1, r2, "unexpected state");
}

#[test]
fn kicker_decides_for_top_pair() {
    let board = vec![
        c(King, Clubs),
        c(Seven, Diamonds),
        c(Three, Spades),
        c(Two, Hearts),
        c(Ten, Clubs),
    ];

    let p1_hole = vec![c(King, Diamonds), c(Ace, Spades)];

    let p2_hole = vec![c(King, Hearts), c(Queen, Hearts)];

    let r1 = evaluate_best_hand(&p1_hole, &board);
    let r2 = evaluate_best_hand(&p2_hole, &board);

    assert!(
        r1 > r2,
        "unexpected state"
    );
}
