//! The errors of the hand engine.

use crate::domain::table::SeatIndex;
use crate::domain::{PlayerId, TableId};
use crate::text::decimal;
use vstd::prelude::*;
use vstd::string::StringExecFns;

verus! {

/// Why the engine refused a call.
#[derive(Clone, Copy, Debug, PartialEq, Eq)]
pub enum EngineError {
    TableNotFound(TableId),
    InvalidSeat(SeatIndex),
    EmptySeat,
    PlayerNotAtTable(PlayerId),
    NotEnoughPlayers,
    HandAlreadyInProgress,
    NoActiveHand,
    NotPlayersTurn(PlayerId),
    IllegalAction,
    NotEnoughChips,
    RaiseTooSmall,
    CannotCheck,
    CannotCall,
    /// A broken invariant. Never the answer to a legal call.
    Internal(&'static str),
}

impl EngineError {
    /// The message of the error.
    pub open spec fn message(self) -> Seq<char> {
        match self {
            EngineError::TableNotFound(id) => "Стол "@ + crate::text::decimal_digits(id)
                + " не найден"@,
            EngineError::InvalidSeat(seat) => "Место "@ + crate::text::decimal_digits(seat as u64)
                + " не существует за столом"@,
            EngineError::EmptySeat => "В этом месте нет игрока"@,
            EngineError::PlayerNotAtTable(id) => "Игрок "@ + crate::text::decimal_digits(id)
                + " не найден за столом"@,
            EngineError::NotEnoughPlayers => "Недостаточно активных игроков для раздачи"@,
            EngineError::HandAlreadyInProgress => "Раздача уже идёт"@,
            EngineError::NoActiveHand => "Раздача не активна"@,
            EngineError::NotPlayersTurn(id) => "Сейчас не ход игрока с id="@
                + crate::text::decimal_digits(id),
            EngineError::IllegalAction => "Недопустимое действие в текущем состоянии раздачи"@,
            EngineError::NotEnoughChips => "Недостаточно фишек для этой ставки"@,
            EngineError::RaiseTooSmall => "Размер рейза слишком мал"@,
            EngineError::CannotCheck => "Невозможно выполнить check – нужно хотя бы уравнять ставку"@,
            EngineError::CannotCall => "Невозможно выполнить call – нет ставки для уравнивания"@,
            EngineError::Internal(reason) => "Внутренняя ошибка: "@ + reason@,
        }
    }

    /// The message of the error as a string.
    pub fn to_string(&self) -> (s: String)
        ensures
            s@ == self.message(),
    {
        match self {
            EngineError::TableNotFound(id) => {
                let mut s = String::from_str("Стол ");
                let digits = decimal(*id);
                s.append(digits.as_str());
                s.append(" не найден");
                s
            },
            EngineError::InvalidSeat(seat) => {
                let mut s = String::from_str("Место ");
                let digits = decimal(*seat as u64);
                s.append(digits.as_str());
                s.append(" не существует за столом");
                s
            },
            EngineError::EmptySeat => String::from_str("В этом месте нет игрока"),
            EngineError::PlayerNotAtTable(id) => {
                let mut s = String::from_str("Игрок ");
                let digits = decimal(*id);
                s.append(digits.as_str());
                s.append(" не найден за столом");
                s
            },
            EngineError::NotEnoughPlayers => String::from_str(
                "Недостаточно активных игроков для раздачи",
            ),
            EngineError::HandAlreadyInProgress => String::from_str("Раздача уже идёт"),
            EngineError::NoActiveHand => String::from_str("Раздача не активна"),
            EngineError::NotPlayersTurn(id) => {
                let mut s = String::from_str("Сейчас не ход игрока с id=");
                let digits = decimal(*id);
                s.append(digits.as_str());
                s
            },
            EngineError::IllegalAction => String::from_str(
                "Недопустимое действие в текущем состоянии раздачи",
            ),
            EngineError::NotEnoughChips => String::from_str("Недостаточно фишек для этой ставки"),
            EngineError::RaiseTooSmall => String::from_str("Размер рейза слишком мал"),
            EngineError::CannotCheck => String::from_str(
                "Невозможно выполнить check – нужно хотя бы уравнять ставку",
            ),
            EngineError::CannotCall => String::from_str(
                "Невозможно выполнить call – нет ставки для уравнивания",
            ),
            EngineError::Internal(reason) => {
                let mut s = String::from_str("Внутренняя ошибка: ");
                s.append(reason);
                s
            },
        }
    }
}

} // verus!
