//! The rules that decide whether an action is legal.

use crate::domain::chips::Chips;
use crate::domain::player::{PlayerAtTable, PlayerStatus, PlayerView};
use crate::engine::actions::PlayerActionKind;
use crate::engine::betting::BettingState;
use crate::engine::errors::EngineError;
use vstd::prelude::*;

verus! {

/// Why an action is refused, or `None` where it is legal.
///
/// A player who folded, busted or sits out cannot act at all. A fold is
/// always legal. A check needs the player's bet to equal the bet of the
/// street; a call needs it to be lower. A bet opens a street that has no
/// bet yet, is positive and within the stack. A raise names a new total
/// above the bet of the street by at least the minimum raise, and what it
/// adds to the player's bet is within the stack. All-in needs chips.
pub open spec fn refusal(
    player: PlayerView,
    action: PlayerActionKind,
    current_bet: Chips,
    min_raise: Chips,
) -> Option<EngineError> {
    if player.status == PlayerStatus::Folded || player.status == PlayerStatus::Busted
        || player.status == PlayerStatus::SittingOut {
        Some(EngineError::IllegalAction)
    } else {
        match action {
            PlayerActionKind::Fold => None,
            PlayerActionKind::Check => if current_bet.0 == player.current_bet.0 {
                None
            } else {
                Some(EngineError::CannotCheck)
            },
            PlayerActionKind::Call => if current_bet.0 > player.current_bet.0 {
                None
            } else {
                Some(EngineError::CannotCall)
            },
            PlayerActionKind::Bet(amount) => if current_bet.0 > 0 {
                Some(EngineError::IllegalAction)
            } else if player.stack.0 < amount.0 {
                Some(EngineError::NotEnoughChips)
            } else if amount.0 == 0 {
                Some(EngineError::IllegalAction)
            } else {
                None
            },
            PlayerActionKind::Raise(target) => if current_bet.0 == 0 {
                Some(EngineError::IllegalAction)
            } else if target.0 <= current_bet.0 {
                Some(EngineError::IllegalAction)
            } else if target.0 - current_bet.0 < min_raise.0 {
                Some(EngineError::RaiseTooSmall)
            } else if player.stack.0 < target.0 - player.current_bet.0 {
                Some(EngineError::NotEnoughChips)
            } else {
                None
            },
            PlayerActionKind::AllIn => if player.stack.0 == 0 {
                Some(EngineError::IllegalAction)
            } else {
                None
            },
        }
    }
}

/// Checks an action against the player's state and the betting round.
/// `Ok` exactly when no rule refuses it; otherwise the first refusal.
pub fn validate_action(player: &PlayerAtTable, action: &PlayerActionKind, betting: &BettingState)
    -> (r: Result<(), EngineError>)
    ensures
        match refusal(player@, *action, betting.current_bet, betting.min_raise) {
            None => r is Ok,
            Some(e) => r == Err::<(), EngineError>(e),
        },
{
    match player.status {
        PlayerStatus::Folded => {
            return Err(EngineError::IllegalAction);
        },
        PlayerStatus::Busted => {
            return Err(EngineError::IllegalAction);
        },
        PlayerStatus::SittingOut => {
            return Err(EngineError::IllegalAction);
        },
        _ => {},
    }
    let stack = player.stack.0;
    let bet = betting.current_bet.0;
    let own = player.current_bet.0;
    match *action {
        PlayerActionKind::Fold => Ok(()),
        PlayerActionKind::Check => {
            if bet == own {
                Ok(())
            } else {
                Err(EngineError::CannotCheck)
            }
        },
        PlayerActionKind::Call => {
            if diff_to_call(player, betting).is_zero() {
                Err(EngineError::CannotCall)
            } else {
                Ok(())
            }
        },
        PlayerActionKind::Bet(amount) => {
            if bet > 0 {
                Err(EngineError::IllegalAction)
            } else if stack < amount.0 {
                Err(EngineError::NotEnoughChips)
            } else if amount.0 == 0 {
                Err(EngineError::IllegalAction)
            } else {
                Ok(())
            }
        },
        PlayerActionKind::Raise(target) => {
            if bet == 0 {
                Err(EngineError::IllegalAction)
            } else if target.0 <= bet {
                Err(EngineError::IllegalAction)
            } else if target.0 - bet < betting.min_raise.0 {
                Err(EngineError::RaiseTooSmall)
            } else if target.0 > own && stack < target.0 - own {
                Err(EngineError::NotEnoughChips)
            } else {
                Ok(())
            }
        },
        PlayerActionKind::AllIn => {
            if stack == 0 {
                Err(EngineError::IllegalAction)
            } else {
                Ok(())
            }
        },
    }
}

/// The chips a player has to add to match the bet of the street.
pub fn diff_to_call(player: &PlayerAtTable, betting: &BettingState) -> (c: Chips)
    ensures
        c == Chips::sat_sub(betting.current_bet, player.current_bet),
{
    betting.current_bet.saturating_sub(player.current_bet)
}

} // verus!
