//! A player and the player's state at a table.

use crate::domain::card::Card;
use crate::domain::chips::Chips;
use crate::domain::PlayerId;
use vstd::prelude::*;

verus! {

/// What is known of a player whatever the table.
#[derive(Clone, Debug, PartialEq, Eq)]
pub struct PlayerProfile {
    pub id: PlayerId,
    pub name: String,
}

/// The part a player takes in the hand that is being played.
#[derive(Clone, Copy, Debug, PartialEq, Eq, Structural)]
pub enum PlayerStatus {
    /// Plays the hand and can still bet.
    Active,
    /// Gave the hand up; takes no part in the pot.
    Folded,
    /// Has put in the whole stack; can still win.
    AllIn,
    /// Sits at the table without playing.
    SittingOut,
    /// Has no chips left.
    Busted,
}

/// A player at a table.
#[derive(Debug, PartialEq, Eq)]
pub struct PlayerAtTable {
    pub player_id: PlayerId,
    pub stack: Chips,
    /// The chips put in on the current street.
    pub current_bet: Chips,
    pub status: PlayerStatus,
    /// The hole cards: none, one or two.
    pub hole_cards: Vec<Card>,
}

/// The mathematical value of a [`PlayerAtTable`].
pub struct PlayerView {
    pub player_id: PlayerId,
    pub stack: Chips,
    pub current_bet: Chips,
    pub status: PlayerStatus,
    pub hole_cards: Seq<Card>,
}

impl View for PlayerAtTable {
    type V = PlayerView;

    open spec fn view(&self) -> PlayerView {
        PlayerView {
            player_id: self.player_id,
            stack: self.stack,
            current_bet: self.current_bet,
            status: self.status,
            hole_cards: self.hole_cards@,
        }
    }
}

impl PlayerView {
    /// Still contests the pot: active or all-in.
    pub open spec fn in_hand(self) -> bool {
        self.status == PlayerStatus::Active || self.status == PlayerStatus::AllIn
    }

    /// Takes part in the next hand: neither busted nor sitting out.
    pub open spec fn is_live(self) -> bool {
        self.status != PlayerStatus::Busted && self.status != PlayerStatus::SittingOut
    }
}

impl Clone for PlayerAtTable {
    fn clone(&self) -> (p: PlayerAtTable)
        ensures
            p@ == self@,
    {
        PlayerAtTable {
            player_id: self.player_id,
            stack: self.stack,
            current_bet: self.current_bet,
            status: self.status,
            hole_cards: self.hole_cards.clone(),
        }
    }
}

impl PlayerAtTable {
    /// A player who has just sat down with `stack` chips.
    pub fn new(player_id: PlayerId, stack: Chips) -> (p: PlayerAtTable)
        ensures
            p@ == (PlayerView {
                player_id,
                stack,
                current_bet: Chips(0),
                status: PlayerStatus::Active,
                hole_cards: Seq::empty(),
            }),
    {
        PlayerAtTable {
            player_id,
            stack,
            current_bet: Chips(0),
            status: PlayerStatus::Active,
            hole_cards: Vec::new(),
        }
    }

    /// Whether the player still contests the pot.
    pub fn is_in_hand(&self) -> (b: bool)
        ensures
            b == self@.in_hand(),
    {
        match self.status {
            PlayerStatus::Active => true,
            PlayerStatus::AllIn => true,
            _ => false,
        }
    }

    /// Whether the player takes part in the next hand.
    pub fn is_live(&self) -> (b: bool)
        ensures
            b == self@.is_live(),
    {
        match self.status {
            PlayerStatus::Busted => false,
            PlayerStatus::SittingOut => false,
            _ => true,
        }
    }
}

} // verus!
