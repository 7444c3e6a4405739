//! The deck: an ordered pile of cards, drawn from the top.

use crate::domain::card::{Card, Rank, Suit};
use vstd::prelude::*;

verus! {

/// An ordered pile of cards. The last card of `cards` is the top of the
/// pile. Shuffling is the engine's business, not the deck's.
#[derive(Debug, PartialEq, Eq)]
pub struct Deck {
    pub cards: Vec<Card>,
}

impl View for Deck {
    type V = Seq<Card>;

    open spec fn view(&self) -> Seq<Card> {
        self.cards@
    }
}

impl Clone for Deck {
    fn clone(&self) -> (d: Deck)
        ensures
            d@ == self@,
    {
        Deck { cards: self.cards.clone() }
    }
}

impl Deck {
    /// The fresh deck: clubs from deuce to ace, then diamonds, hearts and
    /// spades in the same way.
    pub open spec fn standard() -> Seq<Card> {
        Seq::new(52, |i: int| Card { rank: Rank::of_val(i % 13 + 2), suit: Suit::at(i / 13) })
    }

    /// The `n` top cards of a pile in the order in which they are drawn,
    /// or all of them where the pile holds fewer.
    pub open spec fn top(pile: Seq<Card>, n: nat) -> Seq<Card> {
        let m = if n <= pile.len() {
            n
        } else {
            pile.len()
        };
        Seq::new(m, |k: int| pile[pile.len() - 1 - k])
    }

    /// What is left of a pile after `n` cards were drawn.
    pub open spec fn rest(pile: Seq<Card>, n: nat) -> Seq<Card> {
        if n <= pile.len() {
            pile.take(pile.len() - n)
        } else {
            Seq::empty()
        }
    }

    /// The test of a card: it does not occur in a list.
    pub open spec fn not_among(cards: Seq<Card>) -> spec_fn(Card) -> bool {
        |c: Card| !cards.contains(c)
    }

    /// Builds the fresh 52-card deck.
    pub fn standard_52() -> (d: Deck)
        ensures
            d@ == Deck::standard(),
    {
        let mut cards: Vec<Card> = Vec::with_capacity(52);
        let mut s: usize = 0;
        while s < 4
            invariant
                s <= 4,
                cards@.len() == 13 * s,
                forall|i: int| 0 <= i < cards@.len() ==> cards@[i] == Deck::standard()[i],
            decreases 4 - s,
        {
            let suit = Suit::from_index(s);
            let mut r: u8 = 0;
            while r < 13
                invariant
                    s < 4,
                    r <= 13,
                    suit == Suit::at(s as int),
                    cards@.len() == 13 * s + r,
                    forall|i: int| 0 <= i < cards@.len() ==> cards@[i] == Deck::standard()[i],
                decreases 13 - r,
            {
                cards.push(Card::new(Rank::from_value(r + 2), suit));
                r += 1;
            }
            s += 1;
        }
        assert(cards@ =~= Deck::standard());
        Deck { cards }
    }

    pub fn len(&self) -> (n: usize)
        ensures
            n == self@.len(),
    {
        self.cards.len()
    }

    pub fn is_empty(&self) -> (e: bool)
        ensures
            e == (self@.len() == 0),
    {
        self.cards.len() == 0
    }

    /// Takes the top card, if there is one.
    pub fn draw_one(&mut self) -> (c: Option<Card>)
        ensures
            old(self)@.len() == 0 ==> c is None && final(self)@ == old(self)@,
            old(self)@.len() > 0 ==> c == Some(old(self)@.last()) && final(self)@ == old(self)@.drop_last(),
    {
        self.cards.pop()
    }

    /// Takes up to `n` cards from the top, in the order drawn.
    pub fn draw_n(&mut self, n: usize) -> (taken: Vec<Card>)
        ensures
            taken@ == Deck::top(old(self)@, n as nat),
            final(self)@ == Deck::rest(old(self)@, n as nat),
    {
        let mut taken: Vec<Card> = Vec::new();
        let mut k: usize = 0;
        while k < n && self.cards.len() > 0
            invariant
                k <= n,
                k <= old(self)@.len(),
                taken@.len() == k,
                self.cards@ == old(self)@.take(old(self)@.len() - k),
                forall|j: int| 0 <= j < k ==> taken@[j] == old(self)@[old(self)@.len() - 1 - j],
            decreases n - k,
        {
            let card = self.cards.pop().unwrap();
            taken.push(card);
            k += 1;
            assert(self.cards@ =~= old(self)@.take(old(self)@.len() - k));
        }
        assert(taken@ =~= Deck::top(old(self)@, n as nat));
        assert(self.cards@ =~= Deck::rest(old(self)@, n as nat));
        taken
    }

    /// Removes every card that occurs in `to_remove`, keeping the order of
    /// the others.
    pub fn remove_cards(&mut self, to_remove: &[Card])
        ensures
            final(self)@ == old(self)@.filter(Deck::not_among(to_remove@)),
    {
        let ghost keep = Deck::not_among(to_remove@);
        let mut kept: Vec<Card> = Vec::new();
        let mut i: usize = 0;
        while i < self.cards.len()
            invariant
                i <= self.cards@.len(),
                self.cards@ == old(self)@,
                keep == Deck::not_among(to_remove@),
                kept@ == self.cards@.take(i as int).filter(keep),
            decreases self.cards@.len() - i,
        {
            let card = self.cards[i];
            let found = contains_card(to_remove, card);
            proof {
                let before = self.cards@.take(i as int);
                let after = self.cards@.take(i + 1);
                assert(after =~= before.push(card));
                assert(after.drop_last() =~= before);
                reveal_with_fuel(Seq::filter, 2);
            }
            if !found {
                kept.push(card);
            }
            i += 1;
        }
        assert(self.cards@.take(i as int) =~= self.cards@);
        self.cards = kept;
    }
}

/// Whether a card occurs in a list.
pub fn contains_card(cards: &[Card], card: Card) -> (found: bool)
    ensures
        found == cards@.contains(card),
{
    let mut j: usize = 0;
    while j < cards.len()
        invariant
            j <= cards@.len(),
            forall|k: int| 0 <= k < j ==> cards@[k] != card,
        decreases cards@.len() - j,
    {
        if cards[j] == card {
            return true;
        }
        j += 1;
    }
    false
}

} // verus!
