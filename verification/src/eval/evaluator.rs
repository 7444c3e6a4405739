//! The evaluator: the rank of five cards, and the best five out of five
//! to seven.

use crate::domain::card::{Card, Rank};
use crate::domain::hand::HandRank;
use crate::eval::hand_rank::HandCategory;
use crate::eval::lookup_tables::{detect_straight, rank_to_bit, RankMask};
use vstd::prelude::*;

verus! {

/// How many of the cards have the rank of strength `v`.
pub open spec fn count_rank(cards: Seq<Card>, v: int) -> int
    decreases cards.len(),
{
    if cards.len() == 0 {
        0
    } else {
        count_rank(cards.drop_last(), v) + if cards.last().rank.val() == v {
            1int
        } else {
            0int
        }
    }
}

/// How many of the cards have a rank of strength `v` or more.
pub open spec fn count_at_least(cards: Seq<Card>, v: int) -> int
    decreases 15 - v,
{
    if v > 14 {
        0
    } else {
        count_rank(cards, v) + count_at_least(cards, v + 1)
    }
}

/// All the cards have the suit of the first.
pub open spec fn same_suit(cards: Seq<Card>) -> bool {
    forall|i: int| 0 <= i < cards.len() ==> (#[trigger] cards[i]).suit == cards[0].suit
}

/// The five ranks of the straight with top `top` (5 for the wheel) all
/// occur among the cards.
pub open spec fn run_at(cards: Seq<Card>, top: int) -> bool {
    if top == 5 {
        count_rank(cards, 14) > 0 && count_rank(cards, 2) > 0 && count_rank(cards, 3) > 0
            && count_rank(cards, 4) > 0 && count_rank(cards, 5) > 0
    } else {
        6 <= top <= 14 && count_rank(cards, top) > 0 && count_rank(cards, top - 1) > 0
            && count_rank(cards, top - 2) > 0 && count_rank(cards, top - 3) > 0 && count_rank(
            cards,
            top - 4,
        ) > 0
    }
}

/// The top card of the best straight among the cards whose top is at most
/// `top`; the wheel counts as five-high.
pub open spec fn straight_top(cards: Seq<Card>, top: int) -> Option<Rank>
    decreases top,
{
    if top < 5 {
        None
    } else if run_at(cards, top) {
        Some(Rank::of_val(top))
    } else {
        straight_top(cards, top - 1)
    }
}

/// The sort key of a rank that occurs among the cards: its count first,
/// its strength second. Zero for a rank that does not occur.
pub open spec fn group_key(cards: Seq<Card>, v: int) -> int {
    if count_rank(cards, v) > 0 {
        count_rank(cards, v) * 16 + v
    } else {
        0
    }
}

/// The greatest key below `bound` among the ranks of strength 2 to `v`;
/// zero where there is none.
pub open spec fn top_key_below(cards: Seq<Card>, bound: int, v: int) -> int
    decreases v,
{
    if v < 2 {
        0
    } else {
        let rest = top_key_below(cards, bound, v - 1);
        let k = group_key(cards, v);
        if k < bound && k > rest {
            k
        } else {
            rest
        }
    }
}

/// The key of the `k`-th group when the ranks that occur are ordered by
/// count, then by strength, greatest first. Zero past the last group.
pub open spec fn group(cards: Seq<Card>, k: nat) -> int
    decreases k,
{
    if k == 0 {
        top_key_below(cards, 1000, 14)
    } else {
        top_key_below(cards, group(cards, (k - 1) as nat), 14)
    }
}

/// The rank of the `k`-th group; the deuce past the last group.
pub open spec fn group_rank(cards: Seq<Card>, k: nat) -> Rank {
    Rank::of_val(group(cards, k) % 16)
}

/// The number of cards in the `k`-th group.
pub open spec fn group_size(cards: Seq<Card>, k: nat) -> int {
    group(cards, k) / 16
}

/// The strength of the `k`-th highest card, counting equal ranks apiece,
/// searched from strength `v` down.
pub open spec fn kth_highest(cards: Seq<Card>, k: int, v: int) -> int
    decreases v,
{
    if v <= 2 {
        2
    } else if count_at_least(cards, v) > k {
        v
    } else {
        kth_highest(cards, k, v - 1)
    }
}

/// The five ranks of a straight by its top card. The wheel ends in the
/// ace, which plays low.
pub open spec fn straight_ranks(high: Rank) -> Seq<Rank> {
    let v = high.val();
    if v >= 6 {
        seq![
            high,
            Rank::of_val(v - 1),
            Rank::of_val(v - 2),
            Rank::of_val(v - 3),
            Rank::of_val(v - 4),
        ]
    } else if v == 5 {
        seq![Rank::Five, Rank::Four, Rank::Three, Rank::Two, Rank::Ace]
    } else {
        seq![high, Rank::Four, Rank::Three, Rank::Two, Rank::Two]
    }
}

/// The rank of a five-card hand.
///
/// The categories are tried from the strongest: straight flush, four of a
/// kind, full house, flush, straight, three of a kind, two pair, one pair,
/// high card. The ranks that decide within a category come first; places
/// that decide nothing hold the deuce.
#[verifier::opaque]
pub open spec fn rank5(cards: Seq<Card>) -> HandRank {
    let flush = same_suit(cards);
    let straight = straight_top(cards, 14);
    let two = Rank::Two;
    if flush && straight is Some {
        HandRank::of(HandCategory::StraightFlush, straight_ranks(straight.unwrap()))
    } else if group_size(cards, 0) == 4 {
        HandRank::of(
            HandCategory::FourOfAKind,
            seq![group_rank(cards, 0), group_rank(cards, 1), two, two, two],
        )
    } else if group_size(cards, 0) == 3 && group_size(cards, 1) == 2 {
        HandRank::of(
            HandCategory::FullHouse,
            seq![group_rank(cards, 0), group_rank(cards, 1), two, two, two],
        )
    } else if flush {
        HandRank::of(
            HandCategory::Flush,
            seq![
                Rank::of_val(kth_highest(cards, 0, 14)),
                Rank::of_val(kth_highest(cards, 1, 14)),
                Rank::of_val(kth_highest(cards, 2, 14)),
                Rank::of_val(kth_highest(cards, 3, 14)),
                Rank::of_val(kth_highest(cards, 4, 14)),
            ],
        )
    } else if straight is Some {
        HandRank::of(HandCategory::Straight, straight_ranks(straight.unwrap()))
    } else if group_size(cards, 0) == 3 {
        HandRank::of(
            HandCategory::ThreeOfAKind,
            seq![group_rank(cards, 0), group_rank(cards, 1), group_rank(cards, 2), two, two],
        )
    } else if group_size(cards, 0) == 2 && group_size(cards, 1) == 2 {
        HandRank::of(
            HandCategory::TwoPair,
            seq![group_rank(cards, 0), group_rank(cards, 1), group_rank(cards, 2), two, two],
        )
    } else if group_size(cards, 0) == 2 {
        HandRank::of(
            HandCategory::OnePair,
            seq![
                group_rank(cards, 0),
                group_rank(cards, 1),
                group_rank(cards, 2),
                group_rank(cards, 3),
                two,
            ],
        )
    } else {
        HandRank::of(
            HandCategory::HighCard,
            seq![
                group_rank(cards, 0),
                group_rank(cards, 1),
                group_rank(cards, 2),
                group_rank(cards, 3),
                group_rank(cards, 4),
            ],
        )
    }
}

/// The five cards at five places of a list.
pub open spec fn pick5(cards: Seq<Card>, a: int, b: int, c: int, d: int, e: int) -> Seq<Card> {
    seq![cards[a], cards[b], cards[c], cards[d], cards[e]]
}

/// `r` is the rank of some five of the cards, and no five of them rank
/// higher.
pub open spec fn is_best(cards: Seq<Card>, r: HandRank) -> bool {
    &&& exists|a: int, b: int, c: int, d: int, e: int|
        0 <= a < b < c < d < e < cards.len() && rank5(#[trigger] pick5(cards, a, b, c, d, e)) == r
    &&& forall|a: int, b: int, c: int, d: int, e: int|
        0 <= a < b < c < d < e < cards.len() ==> rank5(#[trigger] pick5(cards, a, b, c, d, e)).0
            <= r.0
}

/// The place `(a, b, c, d, e)` comes before `(a2, b2, c2, d2, e2)` when
/// the places are read like words.
pub open spec fn comes_before(
    a: int,
    b: int,
    c: int,
    d: int,
    e: int,
    a2: int,
    b2: int,
    c2: int,
    d2: int,
    e2: int,
) -> bool {
    a < a2 || (a == a2 && (b < b2 || (b == b2 && (c < c2 || (c == c2 && (d < d2 || (d == d2 && e
        < e2)))))))
}

/// No five cards at places before the given one rank higher than `r`.
pub open spec fn best_so_far(
    cards: Seq<Card>,
    r: HandRank,
    a2: int,
    b2: int,
    c2: int,
    d2: int,
    e2: int,
) -> bool {
    forall|a: int, b: int, c: int, d: int, e: int|
        0 <= a < b < c < d < e < cards.len() && comes_before(a, b, c, d, e, a2, b2, c2, d2, e2)
            ==> rank5(#[trigger] pick5(cards, a, b, c, d, e)).0 <= r.0
}

/// The counts are never negative, and a list of `n` cards holds at most
/// `n` of a rank.
pub proof fn count_rank_bounds(cards: Seq<Card>, v: int)
    ensures
        0 <= count_rank(cards, v) <= cards.len(),
    decreases cards.len(),
{
    if cards.len() > 0 {
        count_rank_bounds(cards.drop_last(), v);
    }
}

/// The count of cards from a strength up is bounded by the number of
/// ranks above, each holding at most all the cards.
pub proof fn count_at_least_bounds(cards: Seq<Card>, v: int)
    requires
        v >= 2,
    ensures
        0 <= count_at_least(cards, v) <= 13 * cards.len(),
        v <= 14 ==> count_at_least(cards, v) <= (15 - v) * cards.len(),
    decreases 15 - v,
{
    if v <= 14 {
        count_rank_bounds(cards, v);
        count_at_least_bounds(cards, v + 1);
        assert((15 - v) * cards.len() == (14 - v) * cards.len() + cards.len())
            by (nonlinear_arith);
        assert((15 - v) * cards.len() <= 13 * cards.len()) by (nonlinear_arith)
            requires
                2 <= v <= 14,
        ;
    }
}

/// Counts the cards of one rank.
fn count_of(cards: &[Card], v: u8) -> (n: usize)
    ensures
        n == count_rank(cards@, v as int),
        n <= cards@.len(),
{
    let mut n: usize = 0;
    let mut i: usize = 0;
    while i < cards.len()
        invariant
            i <= cards@.len(),
            n <= i,
            n == count_rank(cards@.take(i as int), v as int),
        decreases cards@.len() - i,
    {
        proof {
            assert(cards@.take(i + 1).drop_last() =~= cards@.take(i as int));
        }
        if cards[i].rank.value() == v {
            n += 1;
        }
        i += 1;
    }
    proof {
        crate::seq_util::take_all(cards@);
    }
    n
}

/// Whether all the cards have one suit.
fn all_same_suit(cards: &[Card]) -> (b: bool)
    ensures
        b == same_suit(cards@),
{
    let mut i: usize = 1;
    while i < cards.len()
        invariant
            1 <= i,
            forall|j: int|
                1 <= j < i && j < cards@.len() ==> (#[trigger] cards@[j]).suit == cards@[0].suit,
        decreases cards@.len() - i,
    {
        if cards[i].suit != cards[0].suit {
            return false;
        }
        i += 1;
    }
    true
}

/// The mask of the ranks that occur among the cards.
fn ranks_mask(cards: &[Card]) -> (mask: RankMask)
    ensures
        forall|v: int|
            2 <= v <= 14 ==> (crate::eval::lookup_tables::mask_has(mask, v) <==> count_rank(
                cards@,
                v,
            ) > 0),
{
    let mut mask: RankMask = 0;
    let mut i: usize = 0;
    proof {
        assert forall|v: int| 2 <= v <= 14 implies !crate::eval::lookup_tables::mask_has(
            0u16,
            v,
        ) by {
            let k: u16 = (v - 2) as u16;
            assert((0u16 >> k) & 1 == 0) by (bit_vector);
        }
    }
    while i < cards.len()
        invariant
            i <= cards@.len(),
            forall|v: int|
                2 <= v <= 14 ==> (crate::eval::lookup_tables::mask_has(mask, v) <==> count_rank(
                    cards@.take(i as int),
                    v,
                ) > 0),
        decreases cards@.len() - i,
    {
        let bit = rank_to_bit(cards[i].rank);
        proof {
            assert(cards@.take(i + 1).drop_last() =~= cards@.take(i as int));
            assert forall|v: int| 2 <= v <= 14 implies (crate::eval::lookup_tables::mask_has(
                mask | bit,
                v,
            ) <==> count_rank(cards@.take(i + 1), v) > 0) by {
                crate::eval::lookup_tables::mask_with_bit(mask, cards@[i as int].rank, v);
                count_rank_bounds(cards@.take(i as int), v);
            }
        }
        mask = mask | bit;
        i += 1;
    }
    proof {
        crate::seq_util::take_all(cards@);
    }
    mask
}

/// A mask that holds exactly the ranks of the cards has the straights of
/// the cards.
proof fn runs_agree(mask: RankMask, cards: Seq<Card>, top: int)
    requires
        forall|v: int|
            2 <= v <= 14 ==> (crate::eval::lookup_tables::mask_has(mask, v) <==> count_rank(
                cards,
                v,
            ) > 0),
        top <= 14,
    ensures
        crate::eval::lookup_tables::best_run(mask, top) == straight_top(cards, top),
    decreases top,
{
    if top >= 5 {
        runs_agree(mask, cards, top - 1);
    }
}

/// The greatest group key below a bound.
fn top_key(cards: &[Card], bound: usize) -> (k: usize)
    requires
        cards@.len() <= 7,
    ensures
        k == top_key_below(cards@, bound as int, 14),
        k < 16 * 8,
{
    let mut best: usize = 0;
    let mut v: u8 = 2;
    while v <= 14
        invariant
            2 <= v <= 15,
            cards@.len() <= 7,
            best == top_key_below(cards@, bound as int, v - 1),
            best < 16 * 8,
        decreases 15 - v,
    {
        let n = count_of(cards, v);
        let key: usize = if n > 0 {
            n * 16 + v as usize
        } else {
            0
        };
        if key < bound && key > best {
            best = key;
        }
        v += 1;
    }
    best
}

/// The strength of the `k`-th highest card.
fn kth_highest_of(cards: &[Card], k: usize) -> (v: u8)
    requires
        cards@.len() <= 7,
    ensures
        v == kth_highest(cards@, k as int, 14),
        2 <= v <= 14,
{
    let mut v: u8 = 14;
    let mut above: usize = 0;
    while v > 2
        invariant
            2 <= v <= 14,
            cards@.len() <= 7,
            above == count_at_least(cards@, v + 1),
            above <= 13 * 7,
            kth_highest(cards@, k as int, 14) == kth_highest(cards@, k as int, v as int),
        decreases v,
    {
        let n = count_of(cards, v);
        proof {
            count_at_least_bounds(cards@, v as int);
        }
        if above + n > k {
            return v;
        }
        above = above + n;
        v -= 1;
    }
    2
}

/// The five ranks of a straight by its top card.
pub fn straight_rank_array(high: Rank) -> (ranks: [Rank; 5])
    ensures
        ranks@ == straight_ranks(high),
{
    let v = high.value();
    let ranks = if v >= 6 {
        [
            high,
            Rank::from_value(v - 1),
            Rank::from_value(v - 2),
            Rank::from_value(v - 3),
            Rank::from_value(v - 4),
        ]
    } else if v == 5 {
        [Rank::Five, Rank::Four, Rank::Three, Rank::Two, Rank::Ace]
    } else {
        [high, Rank::Four, Rank::Three, Rank::Two, Rank::Two]
    };
    assert(ranks@ =~= straight_ranks(high));
    ranks
}

/// The rank of a strength; anything outside 2..=14 gives the deuce.
pub fn num_to_rank(v: u8) -> (r: Rank)
    ensures
        r == Rank::of_val(v as int),
{
    Rank::from_value(v)
}

/// Ranks exactly five cards.
pub fn evaluate_5card_hand(cards: &[Card; 5]) -> (r: HandRank)
    ensures
        r == rank5(cards@),
{
    let hand: &[Card] = cards.as_slice();
    assert(hand@ == cards@);
    proof {
        reveal(rank5);
    }
    let flush = all_same_suit(hand);
    let mask = ranks_mask(hand);
    let straight = detect_straight(mask);
    proof {
        runs_agree(mask, hand@, 14);
    }
    let g0 = top_key(hand, 1000);
    let g1 = top_key(hand, g0);
    let g2 = top_key(hand, g1);
    let g3 = top_key(hand, g2);
    let g4 = top_key(hand, g3);
    proof {
        reveal_with_fuel(group, 6);
        assert(g0 == group(hand@, 0));
        assert(g1 == group(hand@, 1));
        assert(g2 == group(hand@, 2));
        assert(g3 == group(hand@, 3));
        assert(g4 == group(hand@, 4));
    }
    let r0 = Rank::from_value((g0 % 16) as u8);
    let r1 = Rank::from_value((g1 % 16) as u8);
    let r2 = Rank::from_value((g2 % 16) as u8);
    let r3 = Rank::from_value((g3 % 16) as u8);
    let r4 = Rank::from_value((g4 % 16) as u8);
    let c0 = g0 / 16;
    let c1 = g1 / 16;
    let two = Rank::Two;

    if flush {
        if let Some(high) = straight {
            return HandRank::from_category_and_ranks(
                HandCategory::StraightFlush,
                straight_rank_array(high),
            );
        }
    }
    if c0 == 4 {
        let ranks = [r0, r1, two, two, two];
        assert(ranks@ =~= seq![group_rank(hand@, 0), group_rank(hand@, 1), two, two, two]);
        return HandRank::from_category_and_ranks(HandCategory::FourOfAKind, ranks);
    }
    if c0 == 3 && c1 == 2 {
        let ranks = [r0, r1, two, two, two];
        assert(ranks@ =~= seq![group_rank(hand@, 0), group_rank(hand@, 1), two, two, two]);
        return HandRank::from_category_and_ranks(HandCategory::FullHouse, ranks);
    }
    if flush {
        let ranks = [
            Rank::from_value(kth_highest_of(hand, 0)),
            Rank::from_value(kth_highest_of(hand, 1)),
            Rank::from_value(kth_highest_of(hand, 2)),
            Rank::from_value(kth_highest_of(hand, 3)),
            Rank::from_value(kth_highest_of(hand, 4)),
        ];
        assert(ranks@ =~= seq![
            Rank::of_val(kth_highest(hand@, 0, 14)),
            Rank::of_val(kth_highest(hand@, 1, 14)),
            Rank::of_val(kth_highest(hand@, 2, 14)),
            Rank::of_val(kth_highest(hand@, 3, 14)),
            Rank::of_val(kth_highest(hand@, 4, 14)),
        ]);
        return HandRank::from_category_and_ranks(HandCategory::Flush, ranks);
    }
    if let Some(high) = straight {
        return HandRank::from_category_and_ranks(
            HandCategory::Straight,
            straight_rank_array(high),
        );
    }
    if c0 == 3 {
        let ranks = [r0, r1, r2, two, two];
        assert(ranks@ =~= seq![
            group_rank(hand@, 0),
            group_rank(hand@, 1),
            group_rank(hand@, 2),
            two,
            two,
        ]);
        return HandRank::from_category_and_ranks(HandCategory::ThreeOfAKind, ranks);
    }
    if c0 == 2 && c1 == 2 {
        let ranks = [r0, r1, r2, two, two];
        assert(ranks@ =~= seq![
            group_rank(hand@, 0),
            group_rank(hand@, 1),
            group_rank(hand@, 2),
            two,
            two,
        ]);
        return HandRank::from_category_and_ranks(HandCategory::TwoPair, ranks);
    }
    if c0 == 2 {
        let ranks = [r0, r1, r2, r3, two];
        assert(ranks@ =~= seq![
            group_rank(hand@, 0),
            group_rank(hand@, 1),
            group_rank(hand@, 2),
            group_rank(hand@, 3),
            two,
        ]);
        return HandRank::from_category_and_ranks(HandCategory::OnePair, ranks);
    }
    let ranks = [r0, r1, r2, r3, r4];
    assert(ranks@ =~= seq![
        group_rank(hand@, 0),
        group_rank(hand@, 1),
        group_rank(hand@, 2),
        group_rank(hand@, 3),
        group_rank(hand@, 4),
    ]);
    HandRank::from_category_and_ranks(HandCategory::HighCard, ranks)
}

/// Ranks every five of five to seven cards and returns the best rank.
pub fn best_of_all_5card_combinations(cards: &[Card]) -> (best: HandRank)
    requires
        5 <= cards@.len() <= 7,
    ensures
        is_best(cards@, best),
{
    let n = cards.len();
    let first = [cards[0], cards[1], cards[2], cards[3], cards[4]];
    assert(first@ =~= pick5(cards@, 0, 1, 2, 3, 4));
    let mut best = evaluate_5card_hand(&first);
    let ghost mut wa: int = 0;
    let ghost mut wb: int = 1;
    let ghost mut wc: int = 2;
    let ghost mut wd: int = 3;
    let ghost mut we: int = 4;

    let mut a: usize = 0;
    while a < n - 4
        invariant
            n == cards@.len(),
            5 <= n <= 7,
            a <= n - 4,
            0 <= wa < wb < wc < wd < we < n,
            rank5(pick5(cards@, wa, wb, wc, wd, we)) == best,
            best_so_far(cards@, best, a as int, 0, 0, 0, 0),
        decreases n - a,
    {
        let mut b: usize = a + 1;
        while b < n - 3
            invariant
                n == cards@.len(),
                5 <= n <= 7,
                a < n - 4,
                a < b <= n - 3,
                0 <= wa < wb < wc < wd < we < n,
                rank5(pick5(cards@, wa, wb, wc, wd, we)) == best,
                best_so_far(cards@, best, a as int, b as int, 0, 0, 0),
            decreases n - b,
        {
            let mut c: usize = b + 1;
            while c < n - 2
                invariant
                    n == cards@.len(),
                    5 <= n <= 7,
                    a < b < n - 3,
                    b < c <= n - 2,
                    0 <= wa < wb < wc < wd < we < n,
                    rank5(pick5(cards@, wa, wb, wc, wd, we)) == best,
                    best_so_far(cards@, best, a as int, b as int, c as int, 0, 0),
                decreases n - c,
            {
                let mut d: usize = c + 1;
                while d < n - 1
                    invariant
                        n == cards@.len(),
                        5 <= n <= 7,
                        a < b < c < n - 2,
                        c < d <= n - 1,
                        0 <= wa < wb < wc < wd < we < n,
                        rank5(pick5(cards@, wa, wb, wc, wd, we)) == best,
                        best_so_far(cards@, best, a as int, b as int, c as int, d as int, 0),
                    decreases n - d,
                {
                    let mut e: usize = d + 1;
                    while e < n
                        invariant
                            n == cards@.len(),
                            5 <= n <= 7,
                            a < b < c < d < n - 1,
                            d < e <= n,
                            0 <= wa < wb < wc < wd < we < n,
                            rank5(pick5(cards@, wa, wb, wc, wd, we)) == best,
                            best_so_far(
                                cards@,
                                best,
                                a as int,
                                b as int,
                                c as int,
                                d as int,
                                e as int,
                            ),
                        decreases n - e,
                    {
                        let five = [cards[a], cards[b], cards[c], cards[d], cards[e]];
                        assert(five@ =~= pick5(
                            cards@,
                            a as int,
                            b as int,
                            c as int,
                            d as int,
                            e as int,
                        ));
                        let r = evaluate_5card_hand(&five);
                        if r.0 > best.0 {
                            best = r;
                            proof {
                                wa = a as int;
                                wb = b as int;
                                wc = c as int;
                                wd = d as int;
                                we = e as int;
                            }
                        }
                        e += 1;
                    }
                    d += 1;
                }
                c += 1;
            }
            b += 1;
        }
        a += 1;
    }
    best
}

/// The rank of the best five-card hand among the hole cards and the board
/// together: five to seven cards in all.
pub fn evaluate_best_hand(hole: &[Card], board: &[Card]) -> (best: HandRank)
    requires
        5 <= hole@.len() + board@.len() <= 7,
    ensures
        is_best(hole@ + board@, best),
{
    let mut all: Vec<Card> = Vec::new();
    let mut i: usize = 0;
    while i < hole.len()
        invariant
            i <= hole@.len(),
            all@ == hole@.take(i as int),
        decreases hole@.len() - i,
    {
        all.push(hole[i]);
        assert(all@ =~= hole@.take(i + 1));
        i += 1;
    }
    let mut j: usize = 0;
    while j < board.len()
        invariant
            j <= board@.len(),
            all@ == hole@ + board@.take(j as int),
        decreases board@.len() - j,
    {
        all.push(board[j]);
        assert(all@ =~= hole@ + board@.take(j + 1));
        j += 1;
    }
    assert(all@ =~= hole@ + board@);
    best_of_all_5card_combinations(all.as_slice())
}

/// The rank of the best five among the cards.
pub open spec fn best_rank(cards: Seq<Card>) -> HandRank {
    choose|r: HandRank| is_best(cards, r)
}

/// The best rank is the only rank that is best.
pub proof fn best_rank_is(cards: Seq<Card>, r: HandRank)
    requires
        is_best(cards, r),
    ensures
        best_rank(cards) == r,
{
    let b = best_rank(cards);
    assert(is_best(cards, b));
    let (a1, b1, c1, d1, e1) = choose|a: int, b: int, c: int, d: int, e: int|
        0 <= a < b < c < d < e < cards.len() && rank5(#[trigger] pick5(cards, a, b, c, d, e)) == r;
    let (a2, b2, c2, d2, e2) = choose|a: int, b2: int, c: int, d: int, e: int|
        0 <= a < b2 < c < d < e < cards.len() && rank5(#[trigger] pick5(cards, a, b2, c, d, e))
            == b;
    assert(rank5(pick5(cards, a1, b1, c1, d1, e1)).0 <= b.0);
    assert(rank5(pick5(cards, a2, b2, c2, d2, e2)).0 <= r.0);
}

} // verus!
