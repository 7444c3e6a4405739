//! The order of the cards does not matter to the evaluator.

use crate::domain::card::{Card, Rank, Suit};
use crate::domain::hand::HandRank;
use crate::eval::evaluator;
use vstd::prelude::*;

verus! {

/// How often a card occurs in a list.
pub open spec fn occurrences(cards: Seq<Card>, card: Card) -> int
    decreases cards.len(),
{
    if cards.len() == 0 {
        0
    } else {
        occurrences(cards.drop_last(), card) + if cards.last() == card {
            1int
        } else {
            0int
        }
    }
}

/// Two lists hold the same cards, each as often: one is the other in
/// another order.
pub open spec fn same_cards(a: Seq<Card>, b: Seq<Card>) -> bool {
    a.len() == b.len() && forall|c: Card| occurrences(a, c) == occurrences(b, c)
}

/// Every card of the first list occurs in the second at least as often.
pub open spec fn among(part: Seq<Card>, cards: Seq<Card>) -> bool {
    forall|c: Card| occurrences(part, c) <= occurrences(cards, c)
}

/// Places that rise strictly and lie within a list of `n` cards.
pub open spec fn rising_places(places: Seq<int>, n: int) -> bool {
    &&& forall|i: int| 0 <= i < places.len() ==> 0 <= #[trigger] places[i] < n
    &&& forall|i: int, j: int| 0 <= i < j < places.len() ==> places[i] < places[j]
}

/// The cards at the given places.
pub open spec fn picked(cards: Seq<Card>, places: Seq<int>) -> Seq<Card> {
    Seq::new(places.len(), |i: int| cards[places[i]])
}

/// A card occurs no fewer than no times, and no more often than the list
/// is long.
pub proof fn occurrences_bounds(cards: Seq<Card>, card: Card)
    ensures
        0 <= occurrences(cards, card) <= cards.len(),
    decreases cards.len(),
{
    if cards.len() > 0 {
        occurrences_bounds(cards.drop_last(), card);
    }
}

/// A card that occurs in a list is at one of its places.
pub proof fn occurs_somewhere(cards: Seq<Card>, card: Card) -> (i: int)
    requires
        occurrences(cards, card) > 0,
    ensures
        0 <= i < cards.len(),
        cards[i] == card,
    decreases cards.len(),
{
    if cards.last() == card {
        cards.len() - 1
    } else {
        occurs_somewhere(cards.drop_last(), card)
    }
}

/// A card at a place of a list occurs in it.
pub proof fn place_occurs(cards: Seq<Card>, i: int)
    requires
        0 <= i < cards.len(),
    ensures
        occurrences(cards, cards[i]) > 0,
    decreases cards.len(),
{
    occurrences_bounds(cards.drop_last(), cards[i]);
    if i < cards.len() - 1 {
        place_occurs(cards.drop_last(), i);
    }
}

/// Taking a card out of a list takes one occurrence of it away.
pub proof fn occurrences_without(cards: Seq<Card>, i: int, card: Card)
    requires
        0 <= i < cards.len(),
    ensures
        occurrences(cards.remove(i), card) == occurrences(cards, card) - if cards[i] == card {
            1int
        } else {
            0int
        },
    decreases cards.len(),
{
    if i == cards.len() - 1 {
        assert(cards.remove(i) =~= cards.drop_last());
    } else {
        occurrences_without(cards.drop_last(), i, card);
        assert(cards.remove(i).drop_last() =~= cards.drop_last().remove(i));
        assert(cards.remove(i).last() == cards.last());
    }
}

/// The cards at rising places of a list are among its cards.
pub proof fn picked_among(cards: Seq<Card>, places: Seq<int>)
    requires
        rising_places(places, cards.len() as int),
    ensures
        among(picked(cards, places), cards),
    decreases cards.len(),
{
    let part = picked(cards, places);
    if places.len() == 0 {
        assert forall|c: Card| occurrences(part, c) <= occurrences(cards, c) by {
            occurrences_bounds(cards, c);
        }
    } else {
        let shorter = cards.drop_last();
        if places.last() == cards.len() - 1 {
            let fewer = places.drop_last();
            assert(rising_places(fewer, shorter.len() as int)) by {
                assert forall|i: int| 0 <= i < fewer.len() implies 0 <= #[trigger] fewer[i]
                    < shorter.len() by {
                    assert(places[i] < places[places.len() - 1]);
                }
            }
            picked_among(shorter, fewer);
            assert(part.drop_last() =~= picked(shorter, fewer));
            assert(part.last() == cards.last());
            assert forall|c: Card| occurrences(part, c) <= occurrences(cards, c) by {
                assert(occurrences(picked(shorter, fewer), c) <= occurrences(shorter, c));
            }
        } else {
            assert(rising_places(places, shorter.len() as int)) by {
                assert forall|i: int| 0 <= i < places.len() implies 0 <= #[trigger] places[i]
                    < shorter.len() by {
                    if i < places.len() - 1 {
                        assert(places[i] < places[places.len() - 1]);
                    }
                }
            }
            picked_among(shorter, places);
            assert(part =~= picked(shorter, places));
            assert forall|c: Card| occurrences(part, c) <= occurrences(cards, c) by {
                assert(occurrences(picked(shorter, places), c) <= occurrences(shorter, c));
            }
        }
    }
}

/// Cards that are among the cards of a list are at rising places of it.
pub proof fn among_is_picked(part: Seq<Card>, cards: Seq<Card>) -> (places: Seq<int>)
    requires
        among(part, cards),
    ensures
        rising_places(places, cards.len() as int),
        places.len() == part.len(),
        same_cards(picked(cards, places), part),
    decreases cards.len(),
{
    if cards.len() == 0 {
        if part.len() > 0 {
            place_occurs(part, 0);
            assert(occurrences(part, part[0]) <= occurrences(cards, part[0]));
        }
        let places = Seq::<int>::empty();
        assert(picked(cards, places) =~= part);
        places
    } else {
        let x = cards.last();
        let shorter = cards.drop_last();
        occurrences_bounds(shorter, x);
        if occurrences(part, x) > occurrences(shorter, x) {
            let p = occurs_somewhere(part, x);
            let rest = part.remove(p);
            assert forall|c: Card| occurrences(rest, c) <= occurrences(shorter, c) by {
                occurrences_without(part, p, c);
                assert(occurrences(part, c) <= occurrences(cards, c));
            }
            let fewer = among_is_picked(rest, shorter);
            let places = fewer.push(cards.len() - 1);
            assert(rising_places(places, cards.len() as int)) by {
                assert forall|i: int, j: int| 0 <= i < j < places.len() implies places[i]
                    < places[j] by {
                    if j == places.len() - 1 {
                        assert(fewer[i] < shorter.len());
                    }
                }
            }
            let got = picked(cards, places);
            assert(got.drop_last() =~= picked(shorter, fewer));
            assert(got.last() == x);
            assert forall|c: Card| occurrences(got, c) == occurrences(part, c) by {
                occurrences_without(part, p, c);
                assert(occurrences(picked(shorter, fewer), c) == occurrences(rest, c));
            }
            places
        } else {
            assert forall|c: Card| occurrences(part, c) <= occurrences(shorter, c) by {
                assert(occurrences(part, c) <= occurrences(cards, c));
            }
            let places = among_is_picked(part, shorter);
            assert(picked(cards, places) =~= picked(shorter, places));
            assert(rising_places(places, cards.len() as int));
            places
        }
    }
}

/// The card of a strength and a suit.
pub open spec fn card_of(v: int, s: int) -> Card {
    Card { rank: Rank::of_val(v), suit: Suit::at(s) }
}

/// The cards of a rank are the cards of that rank in the four suits.
pub proof fn count_rank_by_suit(cards: Seq<Card>, v: int)
    requires
        2 <= v <= 14,
    ensures
        evaluator::count_rank(cards, v) == occurrences(cards, card_of(v, 0)) + occurrences(
            cards,
            card_of(v, 1),
        ) + occurrences(cards, card_of(v, 2)) + occurrences(cards, card_of(v, 3)),
    decreases cards.len(),
{
    if cards.len() > 0 {
        count_rank_by_suit(cards.drop_last(), v);
        let c = cards.last();
        if c.rank.val() == v {
            assert(c == card_of(v, c.suit.ord()));
        }
    }
}

/// Lists that hold the same cards hold as many of every rank.
pub proof fn same_cards_same_counts(a: Seq<Card>, b: Seq<Card>, v: int)
    requires
        same_cards(a, b),
        2 <= v <= 14,
    ensures
        evaluator::count_rank(a, v) == evaluator::count_rank(b, v),
{
    count_rank_by_suit(a, v);
    count_rank_by_suit(b, v);
}

/// Lists that hold as many of every rank are of one mind about it.
pub open spec fn same_counts(a: Seq<Card>, b: Seq<Card>) -> bool {
    forall|v: int| 2 <= v <= 14 ==> evaluator::count_rank(a, v) == evaluator::count_rank(b, v)
}

/// Lists of one suit in another order are of one suit.
pub proof fn same_cards_same_suit(a: Seq<Card>, b: Seq<Card>)
    requires
        same_cards(a, b),
        evaluator::same_suit(a),
    ensures
        evaluator::same_suit(b),
{
    if b.len() > 0 {
        place_occurs(b, 0);
        let i0 = occurs_somewhere(a, b[0]);
        assert(a[i0].suit == a[0].suit);
        assert forall|j: int| 0 <= j < b.len() implies (#[trigger] b[j]).suit == b[0].suit by {
            place_occurs(b, j);
            let i = occurs_somewhere(a, b[j]);
            assert(a[i].suit == a[0].suit);
        }
    }
}

/// With as many cards of every rank, the straights are the same.
pub proof fn same_counts_same_straight(a: Seq<Card>, b: Seq<Card>, top: int)
    requires
        same_counts(a, b),
        top <= 14,
    ensures
        evaluator::straight_top(a, top) == evaluator::straight_top(b, top),
    decreases top,
{
    if top >= 5 {
        same_counts_same_straight(a, b, top - 1);
    }
}

/// With as many cards of every rank, the greatest key below a bound is
/// the same.
pub proof fn same_counts_same_key(a: Seq<Card>, b: Seq<Card>, bound: int, v: int)
    requires
        same_counts(a, b),
        v <= 14,
    ensures
        evaluator::top_key_below(a, bound, v) == evaluator::top_key_below(b, bound, v),
    decreases v,
{
    if v >= 2 {
        same_counts_same_key(a, b, bound, v - 1);
    }
}

/// With as many cards of every rank, the groups are the same.
pub proof fn same_counts_same_group(a: Seq<Card>, b: Seq<Card>, k: nat)
    requires
        same_counts(a, b),
    ensures
        evaluator::group(a, k) == evaluator::group(b, k),
    decreases k,
{
    if k == 0 {
        same_counts_same_key(a, b, 1000, 14);
    } else {
        same_counts_same_group(a, b, (k - 1) as nat);
        same_counts_same_key(a, b, evaluator::group(a, (k - 1) as nat), 14);
    }
}

/// With as many cards of every rank, as many cards are of a strength or
/// more.
pub proof fn same_counts_same_tail(a: Seq<Card>, b: Seq<Card>, v: int)
    requires
        same_counts(a, b),
        v >= 2,
    ensures
        evaluator::count_at_least(a, v) == evaluator::count_at_least(b, v),
    decreases 15 - v,
{
    if v <= 14 {
        same_counts_same_tail(a, b, v + 1);
    }
}

/// With as many cards of every rank, the `k`-th highest card is the
/// same.
pub proof fn same_counts_same_kth(a: Seq<Card>, b: Seq<Card>, k: int, v: int)
    requires
        same_counts(a, b),
        v <= 14,
    ensures
        evaluator::kth_highest(a, k, v) == evaluator::kth_highest(b, k, v),
    decreases v,
{
    if v > 2 {
        same_counts_same_tail(a, b, v);
        same_counts_same_kth(a, b, k, v - 1);
    }
}

/// Five cards rank the same in every order.
pub proof fn rank5_ignores_order(a: Seq<Card>, b: Seq<Card>)
    requires
        same_cards(a, b),
    ensures
        evaluator::rank5(a) == evaluator::rank5(b),
{
    reveal(evaluator::rank5);
    assert(same_counts(a, b)) by {
        assert forall|v: int| 2 <= v <= 14 implies evaluator::count_rank(a, v)
            == evaluator::count_rank(b, v) by {
            same_cards_same_counts(a, b, v);
        }
    }
    if evaluator::same_suit(a) {
        same_cards_same_suit(a, b);
    }
    if evaluator::same_suit(b) {
        assert(same_cards(b, a));
        same_cards_same_suit(b, a);
    }
    same_counts_same_straight(a, b, 14);
    same_counts_same_group(a, b, 0);
    same_counts_same_group(a, b, 1);
    same_counts_same_group(a, b, 2);
    same_counts_same_group(a, b, 3);
    same_counts_same_group(a, b, 4);
    same_counts_same_kth(a, b, 0, 14);
    same_counts_same_kth(a, b, 1, 14);
    same_counts_same_kth(a, b, 2, 14);
    same_counts_same_kth(a, b, 3, 14);
    same_counts_same_kth(a, b, 4, 14);
}

/// Whatever five cards of one list rank, five cards of the same list in
/// another order rank the same.
pub proof fn five_of_other_order(
    a: Seq<Card>,
    b: Seq<Card>,
    i0: int,
    i1: int,
    i2: int,
    i3: int,
    i4: int,
) -> (j: (int, int, int, int, int))
    requires
        same_cards(a, b),
        0 <= i0 < i1 < i2 < i3 < i4 < a.len(),
    ensures
        0 <= j.0 < j.1 < j.2 < j.3 < j.4 < b.len(),
        evaluator::rank5(evaluator::pick5(b, j.0, j.1, j.2, j.3, j.4)) == evaluator::rank5(
            evaluator::pick5(a, i0, i1, i2, i3, i4),
        ),
{
    let five = evaluator::pick5(a, i0, i1, i2, i3, i4);
    let places = seq![i0, i1, i2, i3, i4];
    assert(rising_places(places, a.len() as int));
    picked_among(a, places);
    assert(picked(a, places) =~= five);
    assert(among(five, b)) by {
        assert forall|c: Card| occurrences(five, c) <= occurrences(b, c) by {
            assert(occurrences(five, c) <= occurrences(a, c));
            assert(occurrences(a, c) == occurrences(b, c));
        }
    }
    let there = among_is_picked(five, b);
    let j = (there[0], there[1], there[2], there[3], there[4]);
    assert(0 <= there[0] < there[1] < there[2] < there[3] < there[4] < b.len());
    assert(picked(b, there) =~= evaluator::pick5(b, j.0, j.1, j.2, j.3, j.4));
    rank5_ignores_order(evaluator::pick5(b, j.0, j.1, j.2, j.3, j.4), five);
    j
}

/// The best hand among the cards of a list is the best hand among the
/// same cards in any other order.
pub proof fn best_hand_ignores_order(a: Seq<Card>, b: Seq<Card>, r: HandRank)
    requires
        same_cards(a, b),
        evaluator::is_best(a, r),
    ensures
        evaluator::is_best(b, r),
{
    let (i0, i1, i2, i3, i4) = choose|i0: int, i1: int, i2: int, i3: int, i4: int|
        0 <= i0 < i1 < i2 < i3 < i4 < a.len() && evaluator::rank5(
            #[trigger] evaluator::pick5(a, i0, i1, i2, i3, i4),
        ) == r;
    let j = five_of_other_order(a, b, i0, i1, i2, i3, i4);
    assert(evaluator::rank5(evaluator::pick5(b, j.0, j.1, j.2, j.3, j.4)) == r);
    assert(same_cards(b, a));
    assert forall|k0: int, k1: int, k2: int, k3: int, k4: int|
        0 <= k0 < k1 < k2 < k3 < k4 < b.len() implies evaluator::rank5(
        #[trigger] evaluator::pick5(b, k0, k1, k2, k3, k4),
    ).0 <= r.0 by {
        let i = five_of_other_order(b, a, k0, k1, k2, k3, k4);
        assert(evaluator::rank5(evaluator::pick5(a, i.0, i.1, i.2, i.3, i.4)).0 <= r.0);
    }
}

} // verus!
