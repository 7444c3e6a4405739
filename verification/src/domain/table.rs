//! A table: its configuration, its seats and the public state of its hand.

use crate::domain::blinds::AnteType;
use crate::domain::card::Card;
use crate::domain::chips::Chips;
use crate::domain::hand::Street;
use crate::domain::player::{PlayerAtTable, PlayerView};
use crate::domain::{HandId, TableId};
use vstd::prelude::*;

verus! {

/// The index of a seat at a table, from 0 to `max_seats - 1`.
pub type SeatIndex = u8;

/// What kind of game a table hosts.
#[derive(Clone, Copy, Debug, PartialEq, Eq, Structural)]
pub enum TableType {
    Cash,
    Tournament,
}

/// The blinds and the ante of a table.
#[derive(Clone, Copy, Debug, PartialEq, Eq, Structural)]
pub struct TableStakes {
    pub small_blind: Chips,
    pub big_blind: Chips,
    pub ante_type: AnteType,
    pub ante: Chips,
}

impl TableStakes {
    pub fn new(sb: Chips, bb: Chips, ante_type: AnteType, ante: Chips) -> (s: TableStakes)
        ensures
            s == (TableStakes { small_blind: sb, big_blind: bb, ante_type, ante }),
    {
        TableStakes { small_blind: sb, big_blind: bb, ante_type, ante }
    }
}

/// How a table is set up.
#[derive(Clone, Copy, Debug, PartialEq, Eq, Structural)]
pub struct TableConfig {
    /// The number of seats, usually 2 to 9.
    pub max_seats: u8,
    pub table_type: TableType,
    pub stakes: TableStakes,
    pub allow_straddle: bool,
    pub allow_run_it_twice: bool,
}

/// The state of a table.
#[derive(Debug, PartialEq, Eq)]
pub struct Table {
    pub id: TableId,
    pub name: String,
    pub config: TableConfig,
    /// The seats by index; `None` is an empty seat.
    pub seats: Vec<Option<PlayerAtTable>>,
    /// The community cards, none to five.
    pub board: Vec<Card>,
    /// The seat of the dealer button, once a hand has been started.
    pub dealer_button: Option<SeatIndex>,
    pub current_hand_id: Option<HandId>,
    pub street: Street,
    pub hand_in_progress: bool,
    pub total_pot: Chips,
}

/// The seats of a table as mathematical values.
pub open spec fn seat_views(seats: Seq<Option<PlayerAtTable>>) -> Seq<Option<PlayerView>> {
    Seq::new(
        seats.len(),
        |i: int|
            match seats[i] {
                Some(p) => Some(p@),
                None => None,
            },
    )
}

/// The test of a seat's value: it holds a player.
pub open spec fn holds_player() -> spec_fn(Option<PlayerView>) -> bool {
    |s: Option<PlayerView>| s is Some
}

/// A seat that exists and holds a player.
pub open spec fn taken(seats: Seq<Option<PlayerView>>, i: int) -> bool {
    0 <= i < seats.len() && seats[i] is Some
}

impl Clone for Table {
    fn clone(&self) -> (t: Table)
        ensures
            t.alike(self),
    {
        let mut seats: Vec<Option<PlayerAtTable>> = Vec::new();
        let mut i: usize = 0;
        while i < self.seats.len()
            invariant
                i <= self.seats@.len(),
                seats@.len() == i,
                forall|j: int| 0 <= j < i ==> seat_views(seats@)[j] == self.seating()[j],
            decreases self.seats@.len() - i,
        {
            let copy = match &self.seats[i] {
                Some(p) => Some(p.clone()),
                None => None,
            };
            seats.push(copy);
            i += 1;
        }
        assert(seat_views(seats@) =~= self.seating());
        Table {
            id: self.id,
            name: self.name.clone(),
            config: self.config,
            seats,
            board: self.board.clone(),
            dealer_button: self.dealer_button,
            current_hand_id: self.current_hand_id,
            street: self.street,
            hand_in_progress: self.hand_in_progress,
            total_pot: self.total_pot,
        }
    }
}

impl Table {
    /// The table has as many seats as its configuration says.
    pub open spec fn wf(&self) -> bool {
        self.seats@.len() == self.config.max_seats
    }

    /// The two tables are alike: every part is the same.
    pub open spec fn alike(&self, other: &Table) -> bool {
        &&& self.id == other.id
        &&& self.name@ == other.name@
        &&& self.config == other.config
        &&& self.seating() == other.seating()
        &&& self.board@ == other.board@
        &&& self.dealer_button == other.dealer_button
        &&& self.current_hand_id == other.current_hand_id
        &&& self.street == other.street
        &&& self.hand_in_progress == other.hand_in_progress
        &&& self.total_pot == other.total_pot
    }

    /// The seats as mathematical values.
    pub open spec fn seating(&self) -> Seq<Option<PlayerView>> {
        seat_views(self.seats@)
    }

    /// An empty table with the given configuration.
    pub fn new(id: TableId, name: String, config: TableConfig) -> (t: Table)
        ensures
            t.wf(),
            t.id == id,
            t.name == name,
            t.config == config,
            t.seats@.len() == config.max_seats,
            forall|i: int| 0 <= i < t.seats@.len() ==> t.seats@[i] is None,
            t.board@.len() == 0,
            t.dealer_button is None,
            t.current_hand_id is None,
            t.street == Street::Preflop,
            !t.hand_in_progress,
            t.total_pot == Chips(0),
    {
        let mut seats: Vec<Option<PlayerAtTable>> = Vec::new();
        let mut i: u8 = 0;
        while i < config.max_seats
            invariant
                i <= config.max_seats,
                seats@.len() == i,
                forall|j: int| 0 <= j < seats@.len() ==> seats@[j] is None,
            decreases config.max_seats - i,
        {
            seats.push(None);
            i += 1;
        }
        Table {
            id,
            name,
            config,
            seats,
            board: Vec::new(),
            dealer_button: None,
            current_hand_id: None,
            street: Street::Preflop,
            hand_in_progress: false,
            total_pot: Chips(0),
        }
    }

    pub fn max_seats(&self) -> (n: u8)
        ensures
            n == self.config.max_seats,
    {
        self.config.max_seats
    }

    /// The number of seats that hold a player.
    pub fn seated_count(&self) -> (n: usize)
        ensures
            n == self.seating().filter(holds_player()).len(),
    {
        let ghost pred = holds_player();
        let mut n: usize = 0;
        let mut i: usize = 0;
        while i < self.seats.len()
            invariant
                i <= self.seats@.len(),
                n <= i,
                pred == holds_player(),
                n == self.seating().take(i as int).filter(pred).len(),
            decreases self.seats@.len() - i,
        {
            proof {
                crate::seq_util::filter_step(self.seating(), pred, i as int);
            }
            if self.seats[i].is_some() {
                n += 1;
            }
            i += 1;
        }
        proof {
            crate::seq_util::take_all(self.seating());
        }
        n
    }

    /// Whether a seat holds nobody. A seat that the table does not have
    /// counts as empty.
    pub fn is_seat_empty(&self, index: SeatIndex) -> (e: bool)
        ensures
            e == !taken(self.seating(), index as int),
    {
        if (index as usize) < self.seats.len() {
            self.seats[index as usize].is_none()
        } else {
            true
        }
    }
}

} // verus!
