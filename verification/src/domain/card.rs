//! Playing cards of the 52-card deck.

use vstd::prelude::*;
use vstd::string::{StrSliceExecFns, StringExecFns};

verus! {

/// The suit of a card.
#[derive(Clone, Copy, Debug, PartialEq, Eq, Structural, Hash)]
pub enum Suit {
    Clubs,
    Diamonds,
    Hearts,
    Spades,
}

/// The rank of a card, from the deuce up to the ace.
#[derive(Clone, Copy, Debug, PartialEq, Eq, Structural, Hash, PartialOrd, Ord)]
pub enum Rank {
    Two,
    Three,
    Four,
    Five,
    Six,
    Seven,
    Eight,
    Nine,
    Ten,
    Jack,
    Queen,
    King,
    Ace,
}

/// One card of the standard deck.
#[derive(Clone, Copy, Debug, PartialEq, Eq, Structural, Hash)]
pub struct Card {
    pub rank: Rank,
    pub suit: Suit,
}

impl Suit {
    /// The position of the suit in the order clubs, diamonds, hearts, spades.
    pub open spec fn ord(self) -> int {
        match self {
            Suit::Clubs => 0,
            Suit::Diamonds => 1,
            Suit::Hearts => 2,
            Suit::Spades => 3,
        }
    }

    /// The suit at a position; positions above three give spades.
    pub open spec fn at(i: int) -> Suit {
        if i == 0 {
            Suit::Clubs
        } else if i == 1 {
            Suit::Diamonds
        } else if i == 2 {
            Suit::Hearts
        } else {
            Suit::Spades
        }
    }

    /// The lower-case letter that stands for the suit.
    pub open spec fn letter(self) -> char {
        match self {
            Suit::Clubs => 'c',
            Suit::Diamonds => 'd',
            Suit::Hearts => 'h',
            Suit::Spades => 's',
        }
    }

    /// The suit that a letter names, in either case.
    pub open spec fn of_letter(c: char) -> Option<Suit> {
        if c == 'c' || c == 'C' {
            Some(Suit::Clubs)
        } else if c == 'd' || c == 'D' {
            Some(Suit::Diamonds)
        } else if c == 'h' || c == 'H' {
            Some(Suit::Hearts)
        } else if c == 's' || c == 'S' {
            Some(Suit::Spades)
        } else {
            None
        }
    }

    pub fn index(self) -> (i: usize)
        ensures
            i == self.ord(),
    {
        match self {
            Suit::Clubs => 0,
            Suit::Diamonds => 1,
            Suit::Hearts => 2,
            Suit::Spades => 3,
        }
    }

    /// The suit at a position; positions above three give spades.
    pub fn from_index(i: usize) -> (s: Suit)
        ensures
            s == Suit::at(i as int),
            i < 4 ==> s.ord() == i,
    {
        if i == 0 {
            Suit::Clubs
        } else if i == 1 {
            Suit::Diamonds
        } else if i == 2 {
            Suit::Hearts
        } else {
            Suit::Spades
        }
    }

    /// The suit as a one-letter string: `c`, `d`, `h` or `s`.
    pub fn to_string(&self) -> (s: String)
        ensures
            s@ == seq![self.letter()],
    {
        proof {
            reveal_strlit("c");
            reveal_strlit("d");
            reveal_strlit("h");
            reveal_strlit("s");
        }
        let text = match self {
            Suit::Clubs => "c",
            Suit::Diamonds => "d",
            Suit::Hearts => "h",
            Suit::Spades => "s",
        };
        assert(text@ =~= seq![self.letter()]);
        String::from_str(text)
    }

    /// Reads a suit letter in either case.
    pub fn from_char(c: char) -> (r: Option<Suit>)
        ensures
            r == Suit::of_letter(c),
    {
        if c == 'c' || c == 'C' {
            Some(Suit::Clubs)
        } else if c == 'd' || c == 'D' {
            Some(Suit::Diamonds)
        } else if c == 'h' || c == 'H' {
            Some(Suit::Hearts)
        } else if c == 's' || c == 'S' {
            Some(Suit::Spades)
        } else {
            None
        }
    }
}

impl Rank {
    /// The numeric strength of a rank: 2 for the deuce up to 14 for the ace.
    pub open spec fn val(self) -> int {
        match self {
            Rank::Two => 2,
            Rank::Three => 3,
            Rank::Four => 4,
            Rank::Five => 5,
            Rank::Six => 6,
            Rank::Seven => 7,
            Rank::Eight => 8,
            Rank::Nine => 9,
            Rank::Ten => 10,
            Rank::Jack => 11,
            Rank::Queen => 12,
            Rank::King => 13,
            Rank::Ace => 14,
        }
    }

    /// The rank of a given strength; anything outside 2..=14 gives the deuce.
    pub open spec fn of_val(v: int) -> Rank {
        if v == 3 {
            Rank::Three
        } else if v == 4 {
            Rank::Four
        } else if v == 5 {
            Rank::Five
        } else if v == 6 {
            Rank::Six
        } else if v == 7 {
            Rank::Seven
        } else if v == 8 {
            Rank::Eight
        } else if v == 9 {
            Rank::Nine
        } else if v == 10 {
            Rank::Ten
        } else if v == 11 {
            Rank::Jack
        } else if v == 12 {
            Rank::Queen
        } else if v == 13 {
            Rank::King
        } else if v == 14 {
            Rank::Ace
        } else {
            Rank::Two
        }
    }

    /// The character that stands for the rank: a digit, or one of `T J Q K A`.
    pub open spec fn letter(self) -> char {
        match self {
            Rank::Two => '2',
            Rank::Three => '3',
            Rank::Four => '4',
            Rank::Five => '5',
            Rank::Six => '6',
            Rank::Seven => '7',
            Rank::Eight => '8',
            Rank::Nine => '9',
            Rank::Ten => 'T',
            Rank::Jack => 'J',
            Rank::Queen => 'Q',
            Rank::King => 'K',
            Rank::Ace => 'A',
        }
    }

    /// The rank that a character names; the five letters count in either case.
    pub open spec fn of_letter(c: char) -> Option<Rank> {
        if c == '2' {
            Some(Rank::Two)
        } else if c == '3' {
            Some(Rank::Three)
        } else if c == '4' {
            Some(Rank::Four)
        } else if c == '5' {
            Some(Rank::Five)
        } else if c == '6' {
            Some(Rank::Six)
        } else if c == '7' {
            Some(Rank::Seven)
        } else if c == '8' {
            Some(Rank::Eight)
        } else if c == '9' {
            Some(Rank::Nine)
        } else if c == 'T' || c == 't' {
            Some(Rank::Ten)
        } else if c == 'J' || c == 'j' {
            Some(Rank::Jack)
        } else if c == 'Q' || c == 'q' {
            Some(Rank::Queen)
        } else if c == 'K' || c == 'k' {
            Some(Rank::King)
        } else if c == 'A' || c == 'a' {
            Some(Rank::Ace)
        } else {
            None
        }
    }

    pub fn value(self) -> (v: u8)
        ensures
            v == self.val(),
            2 <= v <= 14,
    {
        match self {
            Rank::Two => 2,
            Rank::Three => 3,
            Rank::Four => 4,
            Rank::Five => 5,
            Rank::Six => 6,
            Rank::Seven => 7,
            Rank::Eight => 8,
            Rank::Nine => 9,
            Rank::Ten => 10,
            Rank::Jack => 11,
            Rank::Queen => 12,
            Rank::King => 13,
            Rank::Ace => 14,
        }
    }

    /// The rank of a given strength; anything outside 2..=14 gives the deuce.
    pub fn from_value(v: u8) -> (r: Rank)
        ensures
            r == Rank::of_val(v as int),
            2 <= v <= 14 ==> r.val() == v,
    {
        if v == 3 {
            Rank::Three
        } else if v == 4 {
            Rank::Four
        } else if v == 5 {
            Rank::Five
        } else if v == 6 {
            Rank::Six
        } else if v == 7 {
            Rank::Seven
        } else if v == 8 {
            Rank::Eight
        } else if v == 9 {
            Rank::Nine
        } else if v == 10 {
            Rank::Ten
        } else if v == 11 {
            Rank::Jack
        } else if v == 12 {
            Rank::Queen
        } else if v == 13 {
            Rank::King
        } else if v == 14 {
            Rank::Ace
        } else {
            Rank::Two
        }
    }

    /// The rank as a one-character string.
    pub fn to_string(&self) -> (s: String)
        ensures
            s@ == seq![self.letter()],
    {
        proof {
            reveal_strlit("2");
            reveal_strlit("3");
            reveal_strlit("4");
            reveal_strlit("5");
            reveal_strlit("6");
            reveal_strlit("7");
            reveal_strlit("8");
            reveal_strlit("9");
            reveal_strlit("T");
            reveal_strlit("J");
            reveal_strlit("Q");
            reveal_strlit("K");
            reveal_strlit("A");
        }
        let text = match self {
            Rank::Two => "2",
            Rank::Three => "3",
            Rank::Four => "4",
            Rank::Five => "5",
            Rank::Six => "6",
            Rank::Seven => "7",
            Rank::Eight => "8",
            Rank::Nine => "9",
            Rank::Ten => "T",
            Rank::Jack => "J",
            Rank::Queen => "Q",
            Rank::King => "K",
            Rank::Ace => "A",
        };
        assert(text@ =~= seq![self.letter()]);
        String::from_str(text)
    }

    /// Reads a rank character; the five letters count in either case.
    pub fn from_char(c: char) -> (r: Option<Rank>)
        ensures
            r == Rank::of_letter(c),
    {
        if c == '2' {
            Some(Rank::Two)
        } else if c == '3' {
            Some(Rank::Three)
        } else if c == '4' {
            Some(Rank::Four)
        } else if c == '5' {
            Some(Rank::Five)
        } else if c == '6' {
            Some(Rank::Six)
        } else if c == '7' {
            Some(Rank::Seven)
        } else if c == '8' {
            Some(Rank::Eight)
        } else if c == '9' {
            Some(Rank::Nine)
        } else if c == 'T' || c == 't' {
            Some(Rank::Ten)
        } else if c == 'J' || c == 'j' {
            Some(Rank::Jack)
        } else if c == 'Q' || c == 'q' {
            Some(Rank::Queen)
        } else if c == 'K' || c == 'k' {
            Some(Rank::King)
        } else if c == 'A' || c == 'a' {
            Some(Rank::Ace)
        } else {
            None
        }
    }
}

impl Card {
    /// What a two-character text names, if it names a card.
    pub open spec fn of_text(text: Seq<char>) -> Option<Card> {
        if text.len() != 2 {
            None
        } else {
            match (Rank::of_letter(text[0]), Suit::of_letter(text[1])) {
                (Some(rank), Some(suit)) => Some(Card { rank, suit }),
                _ => None,
            }
        }
    }

    pub fn new(rank: Rank, suit: Suit) -> (c: Card)
        ensures
            c == (Card { rank, suit }),
    {
        Card { rank, suit }
    }

    /// The card as two characters, rank first: `Ah`, `Td`, `7c`.
    pub fn to_string(&self) -> (s: String)
        ensures
            s@ == seq![self.rank.letter(), self.suit.letter()],
            Card::of_text(s@) == Some(*self),
    {
        let mut text = self.rank.to_string();
        let suit = self.suit.to_string();
        text.append(suit.as_str());
        assert(text@ =~= seq![self.rank.letter(), self.suit.letter()]);
        text
    }

    /// Reads a card from its two-character form. `Ok` exactly when the text
    /// has two characters that name a rank and a suit.
    pub fn parse(s: &str) -> (r: Result<Card, String>)
        ensures
            match Card::of_text(s@) {
                Some(card) => r == Ok::<Card, String>(card),
                None => r is Err,
            },
    {
        if s.unicode_len() != 2 {
            return Err(String::from_str("Card string must have length 2"));
        }
        let rank = match Rank::from_char(s.get_char(0)) {
            Some(rank) => rank,
            None => {
                return Err(String::from_str("Invalid rank"));
            },
        };
        let suit = match Suit::from_char(s.get_char(1)) {
            Some(suit) => suit,
            None => {
                return Err(String::from_str("Invalid suit"));
            },
        };
        Ok(Card { rank, suit })
    }
}

impl core::str::FromStr for Card {
    type Err = String;

    fn from_str(s: &str) -> (r: Result<Card, String>)
        ensures
            match Card::of_text(s@) {
                Some(card) => r == Ok::<Card, String>(card),
                None => r is Err,
            },
    {
        Card::parse(s)
    }
}

} // verus!
