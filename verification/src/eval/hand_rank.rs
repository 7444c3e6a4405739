//! The rank of a hand as one number: the category in the high digits, five
//! card ranks below it.

use crate::domain::card::Rank;
use crate::domain::hand::HandRank;
use vstd::prelude::*;
use vstd::string::StringExecFns;

verus! {

/// The category of a five-card hand, weakest first.
#[derive(Clone, Copy, Debug, PartialEq, Eq, Structural, PartialOrd, Ord)]
pub enum HandCategory {
    HighCard,
    OnePair,
    TwoPair,
    ThreeOfAKind,
    Straight,
    Flush,
    FullHouse,
    FourOfAKind,
    StraightFlush,
}

impl HandCategory {
    /// The place of the category in the order of strength, from 0.
    pub open spec fn ord(self) -> int {
        match self {
            HandCategory::HighCard => 0,
            HandCategory::OnePair => 1,
            HandCategory::TwoPair => 2,
            HandCategory::ThreeOfAKind => 3,
            HandCategory::Straight => 4,
            HandCategory::Flush => 5,
            HandCategory::FullHouse => 6,
            HandCategory::FourOfAKind => 7,
            HandCategory::StraightFlush => 8,
        }
    }

    /// The category at a place; places above 8 give the high card.
    pub open spec fn at(i: int) -> HandCategory {
        if i == 1 {
            HandCategory::OnePair
        } else if i == 2 {
            HandCategory::TwoPair
        } else if i == 3 {
            HandCategory::ThreeOfAKind
        } else if i == 4 {
            HandCategory::Straight
        } else if i == 5 {
            HandCategory::Flush
        } else if i == 6 {
            HandCategory::FullHouse
        } else if i == 7 {
            HandCategory::FourOfAKind
        } else if i == 8 {
            HandCategory::StraightFlush
        } else {
            HandCategory::HighCard
        }
    }

    /// The name of the category in words.
    pub open spec fn name(self) -> Seq<char> {
        match self {
            HandCategory::HighCard => "High card"@,
            HandCategory::OnePair => "One pair"@,
            HandCategory::TwoPair => "Two pair"@,
            HandCategory::ThreeOfAKind => "Three of a kind"@,
            HandCategory::Straight => "Straight"@,
            HandCategory::Flush => "Flush"@,
            HandCategory::FullHouse => "Full house"@,
            HandCategory::FourOfAKind => "Four of a kind"@,
            HandCategory::StraightFlush => "Straight flush"@,
        }
    }

    pub fn index(self) -> (i: u32)
        ensures
            i == self.ord(),
            i <= 8,
    {
        match self {
            HandCategory::HighCard => 0,
            HandCategory::OnePair => 1,
            HandCategory::TwoPair => 2,
            HandCategory::ThreeOfAKind => 3,
            HandCategory::Straight => 4,
            HandCategory::Flush => 5,
            HandCategory::FullHouse => 6,
            HandCategory::FourOfAKind => 7,
            HandCategory::StraightFlush => 8,
        }
    }
}

/// The number that stands for a category and five rank strengths, each
/// field four bits wide, the category highest.
pub open spec fn encode(category: int, r0: int, r1: int, r2: int, r3: int, r4: int) -> int {
    category * 0x10_0000 + r0 * 0x1_0000 + r1 * 0x1000 + r2 * 0x100 + r3 * 0x10 + r4
}

/// The four-bit field of a rank number at a place: 5 is the category,
/// 4 down to 0 the five ranks from the strongest.
#[verifier::opaque]
pub open spec fn field(value: u32, place: int) -> int {
    if place == 5 {
        (value as int / 0x10_0000) % 16
    } else if place == 4 {
        (value as int / 0x1_0000) % 16
    } else if place == 3 {
        (value as int / 0x1000) % 16
    } else if place == 2 {
        (value as int / 0x100) % 16
    } else if place == 1 {
        (value as int / 0x10) % 16
    } else {
        value as int % 16
    }
}

/// Each field of an encoded number reads back what was put in.
pub proof fn encode_fields(c: u32, r0: u32, r1: u32, r2: u32, r3: u32, r4: u32)
    requires
        c < 16,
        r0 < 16,
        r1 < 16,
        r2 < 16,
        r3 < 16,
        r4 < 16,
    ensures
        encode(c as int, r0 as int, r1 as int, r2 as int, r3 as int, r4 as int) < 0x100_0000,
        ({
            let v = encode(c as int, r0 as int, r1 as int, r2 as int, r3 as int, r4 as int) as u32;
            &&& field(v, 5) == c
            &&& field(v, 4) == r0
            &&& field(v, 3) == r1
            &&& field(v, 2) == r2
            &&& field(v, 1) == r3
            &&& field(v, 0) == r4
        }),
{
    reveal(field);
    assert(c < 16 && r0 < 16 && r1 < 16 && r2 < 16 && r3 < 16 && r4 < 16 ==> {
        let w = (c * 0x10_0000u32 + r0 * 0x1_0000u32 + r1 * 0x1000u32 + r2 * 0x100u32 + r3
            * 0x10u32 + r4) as u32;
        &&& (w / 0x10_0000u32) % 16u32 == c
        &&& (w / 0x1_0000u32) % 16u32 == r0
        &&& (w / 0x1000u32) % 16u32 == r1
        &&& (w / 0x100u32) % 16u32 == r2
        &&& (w / 0x10u32) % 16u32 == r3
        &&& w % 16u32 == r4
    }) by (bit_vector);
}

impl HandRank {
    /// The rank that a category and five card ranks encode.
    pub open spec fn of(category: HandCategory, ranks: Seq<Rank>) -> HandRank {
        HandRank(
            encode(
                category.ord(),
                ranks[0].val(),
                ranks[1].val(),
                ranks[2].val(),
                ranks[3].val(),
                ranks[4].val(),
            ) as u32,
        )
    }

    /// The category that a rank number holds.
    pub open spec fn category_of(self) -> HandCategory {
        HandCategory::at(field(self.0, 5))
    }

    /// The five card ranks that a rank number holds.
    pub open spec fn ranks_of(self) -> Seq<Rank> {
        seq![
            Rank::of_val(field(self.0, 4)),
            Rank::of_val(field(self.0, 3)),
            Rank::of_val(field(self.0, 2)),
            Rank::of_val(field(self.0, 1)),
            Rank::of_val(field(self.0, 0)),
        ]
    }

    /// Packs a category and five card ranks, strongest first, into one
    /// number. Numbers compare as the hands do: by category, then rank by
    /// rank.
    pub fn from_category_and_ranks(category: HandCategory, ranks: [Rank; 5]) -> (r: HandRank)
        ensures
            r == HandRank::of(category, ranks@),
            r.category_of() == category,
            r.ranks_of() == ranks@,
    {
        let cat = category.index();
        let r0 = rank_to_nibble(ranks[0]) as u32;
        let r1 = rank_to_nibble(ranks[1]) as u32;
        let r2 = rank_to_nibble(ranks[2]) as u32;
        let r3 = rank_to_nibble(ranks[3]) as u32;
        let r4 = rank_to_nibble(ranks[4]) as u32;
        let value: u32 = cat * 0x10_0000 + r0 * 0x1_0000 + r1 * 0x1000 + r2 * 0x100 + r3 * 0x10
            + r4;
        proof {
            encode_fields(cat, r0, r1, r2, r3, r4);
            assert(value == encode(
                cat as int,
                r0 as int,
                r1 as int,
                r2 as int,
                r3 as int,
                r4 as int,
            ));
            assert(HandRank(value).ranks_of() =~= ranks@);
        }
        HandRank(value)
    }

    /// The category of the hand.
    pub fn category(&self) -> (c: HandCategory)
        ensures
            c == self.category_of(),
    {
        proof {
            reveal(field);
        }
        let id = (self.0 / 0x10_0000) % 16;
        if id == 1 {
            HandCategory::OnePair
        } else if id == 2 {
            HandCategory::TwoPair
        } else if id == 3 {
            HandCategory::ThreeOfAKind
        } else if id == 4 {
            HandCategory::Straight
        } else if id == 5 {
            HandCategory::Flush
        } else if id == 6 {
            HandCategory::FullHouse
        } else if id == 7 {
            HandCategory::FourOfAKind
        } else if id == 8 {
            HandCategory::StraightFlush
        } else {
            HandCategory::HighCard
        }
    }

    /// The five card ranks of the hand, strongest first.
    pub fn ranks(&self) -> (r: [Rank; 5])
        ensures
            r@ == self.ranks_of(),
    {
        proof {
            reveal(field);
        }
        let r0 = ((self.0 / 0x1_0000) % 16) as u8;
        let r1 = ((self.0 / 0x1000) % 16) as u8;
        let r2 = ((self.0 / 0x100) % 16) as u8;
        let r3 = ((self.0 / 0x10) % 16) as u8;
        let r4 = (self.0 % 16) as u8;
        let r = [
            nibble_to_rank(r0),
            nibble_to_rank(r1),
            nibble_to_rank(r2),
            nibble_to_rank(r3),
            nibble_to_rank(r4),
        ];
        assert(r@ =~= self.ranks_of());
        r
    }
}

/// A hand of a stronger category has the greater number; within one
/// category the first differing card rank decides.
pub proof fn encoding_orders_hands(
    c1: HandCategory,
    ranks1: Seq<Rank>,
    c2: HandCategory,
    ranks2: Seq<Rank>,
)
    requires
        ranks1.len() == 5,
        ranks2.len() == 5,
    ensures
        c1.ord() < c2.ord() ==> HandRank::of(c1, ranks1).0 < HandRank::of(c2, ranks2).0,
        c1 == c2 && (exists|k: int|
            0 <= k < 5 && ranks1[k].val() < ranks2[k].val() && forall|j: int|
                0 <= j < k ==> ranks1[j] == ranks2[j]) ==> HandRank::of(c1, ranks1).0
            < HandRank::of(c2, ranks2).0,
        c1 == c2 && ranks1 =~= ranks2 ==> HandRank::of(c1, ranks1) == HandRank::of(c2, ranks2),
{
    if c1 == c2 && exists|k: int|
        0 <= k < 5 && ranks1[k].val() < ranks2[k].val() && forall|j: int|
            0 <= j < k ==> ranks1[j] == ranks2[j] {
        let k = choose|k: int|
            0 <= k < 5 && ranks1[k].val() < ranks2[k].val() && forall|j: int|
                0 <= j < k ==> ranks1[j] == ranks2[j];
        if k >= 1 {
            assert(ranks1[0] == ranks2[0]);
        }
        if k >= 2 {
            assert(ranks1[1] == ranks2[1]);
        }
        if k >= 3 {
            assert(ranks1[2] == ranks2[2]);
        }
        if k >= 4 {
            assert(ranks1[3] == ranks2[3]);
        }
    }
}

/// The four bits that stand for a card rank: its strength.
pub fn rank_to_nibble(rank: Rank) -> (n: u8)
    ensures
        n == rank.val(),
        2 <= n <= 14,
{
    rank.value()
}

/// The card rank that four bits stand for; the deuce for bits that stand
/// for none.
pub fn nibble_to_rank(n: u8) -> (rank: Rank)
    ensures
        rank == Rank::of_val(n as int),
{
    Rank::from_value(n)
}

/// The category of a rank.
pub fn hand_category(rank: HandRank) -> (c: HandCategory)
    ensures
        c == rank.category_of(),
{
    rank.category()
}

/// The category of a rank in words.
pub fn describe_hand(rank: HandRank) -> (s: String)
    ensures
        s@ == rank.category_of().name(),
{
    let text = match rank.category() {
        HandCategory::HighCard => "High card",
        HandCategory::OnePair => "One pair",
        HandCategory::TwoPair => "Two pair",
        HandCategory::ThreeOfAKind => "Three of a kind",
        HandCategory::Straight => "Straight",
        HandCategory::Flush => "Flush",
        HandCategory::FullHouse => "Full house",
        HandCategory::FourOfAKind => "Four of a kind",
        HandCategory::StraightFlush => "Straight flush",
    };
    String::from_str(text)
}

} // verus!
