use poker_engine::{
    domain::{
        card::{Card, Rank, Suit},
        hand::HandRank,
    },
    eval::{
        describe_hand,
        evaluate_best_hand,
        hand_category,
        HandCategory,
    },
};

use poker_engine::eval::lookup_tables::{
    RankMask,
    STRAIGHT_MASKS,
    detect_straight,
    mask_from_ranks,
    rank_to_bit,
};

fn c(rank: Rank, suit: Suit) -> Card {
    Card::new(rank, suit)
}

#[test]
fn rank_to_bit_basic() {
    let two_bit = rank_to_bit(Rank::Two);
    let ace_bit = rank_to_bit(Rank::Ace);

    assert_eq!(two_bit, 1u16 << 0);
    assert_eq!(ace_bit, 1u16 << 12);
}

#[test]
fn mask_from_ranks_builds_correct_mask() {
    let mask: RankMask = mask_from_ranks(&[Rank::Two, Rank::Four, Rank::Ace]);

    let expected = rank_to_bit(Rank::Two)
        | rank_to_bit(Rank::Four)
        | rank_to_bit(Rank::Ace);

    assert_eq!(mask, expected);
}

#[test]
fn detect_straight_wheel_and_broadway() {
    let wheel_mask = STRAIGHT_MASKS[0];
    let detected_wheel = detect_straight(wheel_mask);
    assert_eq!(detected_wheel, Some(Rank::Five));

    let broadway_mask = STRAIGHT_MASKS[9];
    let detected_broadway = detect_straight(broadway_mask);
    assert_eq!(detected_broadway, Some(Rank::Ace));
}

#[test]
fn detect_straight_none_when_gap() {
    let mask = rank_to_bit(Rank::Two)
        | rank_to_bit(Rank::Four)
        | rank_to_bit(Rank::Seven)
        | rank_to_bit(Rank::Ace);

    assert_eq!(detect_straight(mask), None);
}

#[test]
fn hand_rank_encoding_roundtrip() {
    let category = HandCategory::FullHouse;
    let ranks = [
        Rank::Ace,
        Rank::Ace,
        Rank::Ace,
        Rank::King,
        Rank::King,
    ];

    let hr = HandRank::from_category_and_ranks(category, ranks);
    assert_eq!(hr.category(), category);

    let decoded = hr.ranks();
    assert_eq!(decoded, ranks);
}

#[test]
fn hand_rank_ordering_by_category_and_ranks() {
    let flush = HandRank::from_category_and_ranks(
        HandCategory::Flush,
        [Rank::Ace, Rank::King, Rank::Queen, Rank::Jack, Rank::Ten],
    );
    let full_house = HandRank::from_category_and_ranks(
        HandCategory::FullHouse,
        [Rank::Queen, Rank::Queen, Rank::Queen, Rank::Two, Rank::Two],
    );
    assert!(full_house > flush);

    let broadway = HandRank::from_category_and_ranks(
        HandCategory::Straight,
        [Rank::Ace, Rank::King, Rank::Queen, Rank::Jack, Rank::Ten],
    );
    let king_high = HandRank::from_category_and_ranks(
        HandCategory::Straight,
        [Rank::King, Rank::Queen, Rank::Jack, Rank::Ten, Rank::Nine],
    );
    assert!(broadway > king_high);
}

#[test]
fn hand_category_and_description_match() {
    let hr = HandRank::from_category_and_ranks(
        HandCategory::ThreeOfAKind,
        [Rank::Ten, Rank::Ten, Rank::Ten, Rank::Five, Rank::Three],
    );

    assert_eq!(hand_category(hr), HandCategory::ThreeOfAKind);
    assert_eq!(describe_hand(hr), "Three of a kind".to_string());
}

#[test]
fn evaluate_best_hand_high_card() {
    let hole = [c(Rank::Ace, Suit::Hearts), c(Rank::Seven, Suit::Diamonds)];
    let board = [
        c(Rank::Two, Suit::Clubs),
        c(Rank::Nine, Suit::Spades),
        c(Rank::Jack, Suit::Diamonds),
        c(Rank::Three, Suit::Hearts),
        c(Rank::King, Suit::Clubs),
    ];

    let hr = evaluate_best_hand(&hole, &board);
    assert_eq!(hand_category(hr), HandCategory::HighCard);

    let ranks = hr.ranks();
    assert_eq!(ranks[0], Rank::Ace);
}

#[test]
fn evaluate_best_hand_one_pair() {
    let hole = [c(Rank::Ace, Suit::Hearts), c(Rank::Ace, Suit::Spades)];
    let board = [
        c(Rank::Two, Suit::Clubs),
        c(Rank::Nine, Suit::Spades),
        c(Rank::Jack, Suit::Diamonds),
        c(Rank::Three, Suit::Hearts),
        c(Rank::King, Suit::Clubs),
    ];

    let hr = evaluate_best_hand(&hole, &board);
    assert_eq!(hand_category(hr), HandCategory::OnePair);
    let ranks = hr.ranks();
    assert_eq!(ranks[0], Rank::Ace);
}

#[test]
fn evaluate_best_hand_two_pair() {
    let hole = [c(Rank::Ace, Suit::Hearts), c(Rank::Ace, Suit::Spades)];
    let board = [
        c(Rank::King, Suit::Clubs),
        c(Rank::King, Suit::Hearts),
        c(Rank::Two, Suit::Diamonds),
        c(Rank::Three, Suit::Clubs),
        c(Rank::Seven, Suit::Spades),
    ];

    let hr = evaluate_best_hand(&hole, &board);
    assert_eq!(hand_category(hr), HandCategory::TwoPair);
}

#[test]
fn evaluate_best_hand_straight() {
    let hole = [c(Rank::Seven, Suit::Hearts), c(Rank::Eight, Suit::Diamonds)];
    let board = [
        c(Rank::Five, Suit::Spades),
        c(Rank::Six, Suit::Clubs),
        c(Rank::Nine, Suit::Hearts),
        c(Rank::King, Suit::Diamonds),
        c(Rank::Two, Suit::Clubs),
    ];

    let hr = evaluate_best_hand(&hole, &board);
    assert_eq!(hand_category(hr), HandCategory::Straight);

    let ranks = hr.ranks();
    assert_eq!(ranks[0], Rank::Nine);
}

#[test]
fn evaluate_best_hand_flush() {
    let hole = [c(Rank::Ace, Suit::Hearts), c(Rank::Two, Suit::Hearts)];
    let board = [
        c(Rank::Five, Suit::Hearts),
        c(Rank::Nine, Suit::Hearts),
        c(Rank::King, Suit::Hearts),
        c(Rank::Three, Suit::Clubs),
        c(Rank::Seven, Suit::Diamonds),
    ];

    let hr = evaluate_best_hand(&hole, &board);
    assert_eq!(hand_category(hr), HandCategory::Flush);

    let ranks = hr.ranks();
    assert_eq!(ranks[0], Rank::Ace);
    assert_eq!(ranks[1], Rank::King);
}

#[test]
fn evaluate_best_hand_full_house_from_seven_cards() {
    let hole = [c(Rank::Ace, Suit::Hearts), c(Rank::Ace, Suit::Diamonds)];
    let board = [
        c(Rank::Ace, Suit::Spades),
        c(Rank::King, Suit::Clubs),
        c(Rank::King, Suit::Hearts),
        c(Rank::Two, Suit::Diamonds),
        c(Rank::Three, Suit::Clubs),
    ];

    let hr = evaluate_best_hand(&hole, &board);
    assert_eq!(hand_category(hr), HandCategory::FullHouse);

    let ranks = hr.ranks();
    assert_eq!(ranks[0], Rank::Ace);
    assert_eq!(ranks[1], Rank::King);
}

#[test]
fn evaluate_best_hand_four_of_a_kind() {
    let hole = [c(Rank::Ace, Suit::Hearts), c(Rank::Ace, Suit::Diamonds)];
    let board = [
        c(Rank::Ace, Suit::Spades),
        c(Rank::Ace, Suit::Clubs),
        c(Rank::King, Suit::Clubs),
        c(Rank::Two, Suit::Diamonds),
        c(Rank::Three, Suit::Clubs),
    ];

    let hr = evaluate_best_hand(&hole, &board);
    assert_eq!(hand_category(hr), HandCategory::FourOfAKind);

    let ranks = hr.ranks();
    assert_eq!(ranks[0], Rank::Ace);
}

#[test]
fn evaluate_best_hand_straight_flush() {
    let hole = [c(Rank::Nine, Suit::Hearts), c(Rank::Ten, Suit::Hearts)];
    let board = [
        c(Rank::Jack, Suit::Hearts),
        c(Rank::Queen, Suit::Hearts),
        c(Rank::King, Suit::Hearts),
        c(Rank::Two, Suit::Clubs),
        c(Rank::Three, Suit::Diamonds),
    ];

    let hr = evaluate_best_hand(&hole, &board);
    assert_eq!(hand_category(hr), HandCategory::StraightFlush);

    let ranks = hr.ranks();
    assert_eq!(ranks[0], Rank::King);
}

#[test]
fn evaluate_best_hand_prefers_stronger_category_from_seven_cards() {
    let hole = [c(Rank::King, Suit::Hearts), c(Rank::King, Suit::Spades)];
    let board = [
        c(Rank::King, Suit::Clubs),
        c(Rank::King, Suit::Diamonds),
        c(Rank::Seven, Suit::Hearts),
        c(Rank::Eight, Suit::Spades),
        c(Rank::Nine, Suit::Clubs),
    ];

    let hr = evaluate_best_hand(&hole, &board);
    assert_eq!(hand_category(hr), HandCategory::FourOfAKind);
}
