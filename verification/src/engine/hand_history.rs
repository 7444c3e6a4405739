//! The history of a hand: an ordered, append-only list of events.

use crate::domain::card::Card;
use crate::domain::chips::Chips;
use crate::domain::hand::Street;
use crate::domain::table::SeatIndex;
use crate::domain::{HandId, PlayerId, TableId};
use crate::engine::actions::PlayerActionKind;
use vstd::prelude::*;

verus! {

/// What happened.
#[derive(Debug, PartialEq, Eq)]
pub enum HandEventKind {
    HandStarted { table_id: TableId, hand_id: HandId },
    BlindsPosted {
        dealer: SeatIndex,
        small_blind: Option<(SeatIndex, Chips)>,
        big_blind: Option<(SeatIndex, Chips)>,
        ante: Vec<(SeatIndex, Chips)>,
    },
    HoleCardsDealt { seat: SeatIndex, cards: Vec<Card> },
    BoardDealt { street: Street, cards: Vec<Card> },
    PlayerActed {
        player_id: PlayerId,
        seat: SeatIndex,
        action: PlayerActionKind,
        new_stack: Chips,
        pot_after: Chips,
    },
    StreetChanged { street: Street },
    ShowdownReveal { seat: SeatIndex, player_id: PlayerId, hole_cards: Vec<Card>, rank_value: u32 },
    PotAwarded { seat: SeatIndex, player_id: PlayerId, amount: Chips },
    HandFinished { hand_id: HandId, table_id: TableId },
}

/// The mathematical value of a [`HandEventKind`].
pub enum EventView {
    HandStarted { table_id: TableId, hand_id: HandId },
    BlindsPosted {
        dealer: SeatIndex,
        small_blind: Option<(SeatIndex, Chips)>,
        big_blind: Option<(SeatIndex, Chips)>,
        ante: Seq<(SeatIndex, Chips)>,
    },
    HoleCardsDealt { seat: SeatIndex, cards: Seq<Card> },
    BoardDealt { street: Street, cards: Seq<Card> },
    PlayerActed {
        player_id: PlayerId,
        seat: SeatIndex,
        action: PlayerActionKind,
        new_stack: Chips,
        pot_after: Chips,
    },
    StreetChanged { street: Street },
    ShowdownReveal { seat: SeatIndex, player_id: PlayerId, hole_cards: Seq<Card>, rank_value: u32 },
    PotAwarded { seat: SeatIndex, player_id: PlayerId, amount: Chips },
    HandFinished { hand_id: HandId, table_id: TableId },
}

impl View for HandEventKind {
    type V = EventView;

    open spec fn view(&self) -> EventView {
        match *self {
            HandEventKind::HandStarted { table_id, hand_id } => EventView::HandStarted {
                table_id,
                hand_id,
            },
            HandEventKind::BlindsPosted {
                dealer,
                small_blind,
                big_blind,
                ante,
            } => EventView::BlindsPosted { dealer, small_blind, big_blind, ante: ante@ },
            HandEventKind::HoleCardsDealt { seat, cards } => EventView::HoleCardsDealt {
                seat,
                cards: cards@,
            },
            HandEventKind::BoardDealt { street, cards } => EventView::BoardDealt {
                street,
                cards: cards@,
            },
            HandEventKind::PlayerActed {
                player_id,
                seat,
                action,
                new_stack,
                pot_after,
            } => EventView::PlayerActed { player_id, seat, action, new_stack, pot_after },
            HandEventKind::StreetChanged { street } => EventView::StreetChanged { street },
            HandEventKind::ShowdownReveal {
                seat,
                player_id,
                hole_cards,
                rank_value,
            } => EventView::ShowdownReveal { seat, player_id, hole_cards: hole_cards@, rank_value },
            HandEventKind::PotAwarded { seat, player_id, amount } => EventView::PotAwarded {
                seat,
                player_id,
                amount,
            },
            HandEventKind::HandFinished { hand_id, table_id } => EventView::HandFinished {
                hand_id,
                table_id,
            },
        }
    }
}

/// Copies a list of seats with amounts.
fn copy_pairs(pairs: &Vec<(SeatIndex, Chips)>) -> (copy: Vec<(SeatIndex, Chips)>)
    ensures
        copy@ == pairs@,
{
    let mut copy: Vec<(SeatIndex, Chips)> = Vec::new();
    let mut i: usize = 0;
    while i < pairs.len()
        invariant
            i <= pairs@.len(),
            copy@ == pairs@.take(i as int),
        decreases pairs@.len() - i,
    {
        let (seat, amount) = pairs[i];
        copy.push((seat, amount));
        assert(copy@ =~= pairs@.take(i + 1));
        i += 1;
    }
    assert(copy@ =~= pairs@);
    copy
}

impl Clone for HandEventKind {
    fn clone(&self) -> (k: HandEventKind)
        ensures
            k@ == self@,
    {
        match self {
            HandEventKind::HandStarted { table_id, hand_id } => HandEventKind::HandStarted {
                table_id: *table_id,
                hand_id: *hand_id,
            },
            HandEventKind::BlindsPosted {
                dealer,
                small_blind,
                big_blind,
                ante,
            } => HandEventKind::BlindsPosted {
                dealer: *dealer,
                small_blind: *small_blind,
                big_blind: *big_blind,
                ante: copy_pairs(ante),
            },
            HandEventKind::HoleCardsDealt { seat, cards } => HandEventKind::HoleCardsDealt {
                seat: *seat,
                cards: cards.clone(),
            },
            HandEventKind::BoardDealt { street, cards } => HandEventKind::BoardDealt {
                street: *street,
                cards: cards.clone(),
            },
            HandEventKind::PlayerActed {
                player_id,
                seat,
                action,
                new_stack,
                pot_after,
            } => HandEventKind::PlayerActed {
                player_id: *player_id,
                seat: *seat,
                action: *action,
                new_stack: *new_stack,
                pot_after: *pot_after,
            },
            HandEventKind::StreetChanged { street } => HandEventKind::StreetChanged {
                street: *street,
            },
            HandEventKind::ShowdownReveal {
                seat,
                player_id,
                hole_cards,
                rank_value,
            } => HandEventKind::ShowdownReveal {
                seat: *seat,
                player_id: *player_id,
                hole_cards: hole_cards.clone(),
                rank_value: *rank_value,
            },
            HandEventKind::PotAwarded { seat, player_id, amount } => HandEventKind::PotAwarded {
                seat: *seat,
                player_id: *player_id,
                amount: *amount,
            },
            HandEventKind::HandFinished { hand_id, table_id } => HandEventKind::HandFinished {
                hand_id: *hand_id,
                table_id: *table_id,
            },
        }
    }
}

/// An event with its place in the history.
#[derive(Debug, PartialEq, Eq)]
pub struct HandEvent {
    pub index: u32,
    pub kind: HandEventKind,
}

impl Clone for HandEvent {
    fn clone(&self) -> (e: HandEvent)
        ensures
            e.index == self.index,
            e.kind@ == self.kind@,
    {
        HandEvent { index: self.index, kind: self.kind.clone() }
    }
}

/// The whole history of a hand.
#[derive(Debug, PartialEq, Eq)]
pub struct HandHistory {
    pub events: Vec<HandEvent>,
}

impl View for HandHistory {
    type V = Seq<EventView>;

    open spec fn view(&self) -> Seq<EventView> {
        Seq::new(self.events@.len(), |i: int| self.events@[i].kind@)
    }
}

impl Clone for HandHistory {
    fn clone(&self) -> (h: HandHistory)
        ensures
            h@ == self@,
            h.numbered() == self.numbered(),
            h.events@.len() == self.events@.len(),
    {
        let mut events: Vec<HandEvent> = Vec::new();
        let mut i: usize = 0;
        while i < self.events.len()
            invariant
                i <= self.events@.len(),
                events@.len() == i,
                forall|j: int|
                    0 <= j < i ==> (#[trigger] events@[j]).index == self.events@[j].index
                        && events@[j].kind@ == self.events@[j].kind@,
            decreases self.events@.len() - i,
        {
            events.push(self.events[i].clone());
            i += 1;
        }
        let h = HandHistory { events };
        assert(h@ =~= self@);
        assert(h.numbered() == self.numbered()) by {
            if self.numbered() {
                assert forall|i: int| 0 <= i < h.events@.len() implies (
                #[trigger] h.events@[i]).index == i by {
                    assert(self.events@[i].index == i);
                }
            }
            if h.numbered() {
                assert forall|i: int| 0 <= i < self.events@.len() implies (
                #[trigger] self.events@[i]).index == i by {
                    assert(h.events@[i].index == i);
                }
            }
        }
        h
    }
}

impl HandHistory {
    /// Every event carries its position as its index: the indices start
    /// at zero and rise by one.
    pub open spec fn numbered(&self) -> bool {
        forall|i: int| 0 <= i < self.events@.len() ==> (#[trigger] self.events@[i]).index == i
    }

    /// An empty history.
    pub fn new() -> (h: HandHistory)
        ensures
            h@ == Seq::<EventView>::empty(),
            h.events@.len() == 0,
            h.numbered(),
    {
        let h = HandHistory { events: Vec::new() };
        assert(h@ =~= Seq::<EventView>::empty());
        h
    }

    /// Appends an event; its index is the number of events before it.
    pub fn push(&mut self, kind: HandEventKind)
        ensures
            final(self)@ == old(self)@.push(kind@),
            final(self).events@.len() == old(self).events@.len() + 1,
            final(self).events@.last().index as int == old(self).events@.len() % 0x1_0000_0000,
            forall|i: int|
                0 <= i < old(self).events@.len() ==> final(self).events@[i] == old(self).events@[i],
            old(self).numbered() && final(self).events@.len() <= u32::MAX + 1 ==> final(self).numbered(),
    {
        let idx: u32 = ((self.events.len() as u64) % 0x1_0000_0000u64) as u32;
        self.events.push(HandEvent { index: idx, kind });
        assert(self@ =~= old(self)@.push(kind@));
    }
}

} // verus!
