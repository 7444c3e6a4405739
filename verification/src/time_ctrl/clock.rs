//! The shot clock of one table.

use crate::domain::PlayerId;
use crate::time_ctrl::extra_time::ExtraTimeGrant;
use crate::time_ctrl::time_bank;
use crate::time_ctrl::time_bank::{PlayerTimeBank, TimeBank};
use crate::time_ctrl::time_rules::TimeRules;
use vstd::prelude::*;

verus! {

/// How the clock stands after some time has passed.
#[derive(Clone, Copy, Debug, PartialEq, Eq, Structural)]
pub enum TimeoutState {
    /// It is nobody's turn.
    NoActivePlayer,
    /// The player is within the time.
    Ongoing,
    /// Extra time was used up, and time is left.
    UsedExtraTime { player_id: PlayerId, used_secs: i32 },
    /// All time is gone: the player has to be acted for.
    TimedOut { player_id: PlayerId },
}

/// The shot clock.
#[derive(Clone, Copy, Debug, PartialEq, Eq, Structural)]
pub struct TurnClock {
    /// The player who has to decide.
    pub current_player: Option<PlayerId>,
    /// The seconds left of the time for the decision.
    pub remaining_action_secs: i32,
    /// The seconds left of the extra time granted for this turn.
    pub remaining_extra_secs: i32,
}

/// What is left once the time bank has been drawn on.
pub struct Drained {
    /// The seconds that were not absorbed.
    pub unpaid: int,
    /// The seconds of extra time used, all in all.
    pub used: int,
    /// The seconds left in the player's bank.
    pub bank: int,
    /// The seconds left of the last grant, where it was not used up.
    pub extra: Option<int>,
}

/// Draws on a bank of `bank` seconds in grants of `step` seconds until
/// `unpaid` seconds are absorbed or the bank is empty.
pub open spec fn drain(unpaid: int, used: int, bank: int, step: int) -> Drained
    decreases unpaid,
{
    if unpaid <= 0 || step <= 0 || bank <= 0 {
        Drained { unpaid, used, bank, extra: None }
    } else {
        let grant = if step < bank {
            step
        } else {
            bank
        };
        if unpaid < grant {
            Drained { unpaid: 0, used: used + unpaid, bank: bank - grant, extra: Some(grant - unpaid) }
        } else {
            drain(unpaid - grant, used + grant, bank - grant, step)
        }
    }
}

/// The seconds that a clock burns of `delta`: all of them where it has as
/// many left, else what it has left, and none where it has none.
pub open spec fn burned(left: i32, delta: int) -> int {
    if left <= 0 || delta <= 0 {
        0
    } else if delta < left {
        delta
    } else {
        left as int
    }
}

/// A number of seconds; none for a number below zero.
pub open spec fn seconds(n: int) -> int {
    if n > 0 {
        n
    } else {
        0
    }
}

/// How far a bank of `bank` seconds reaches when it is drawn on in grants
/// of `step` seconds: all of it, and nothing where no grant is made.
pub open spec fn reach(bank: int, step: int) -> int {
    if step > 0 {
        seconds(bank)
    } else {
        0
    }
}

/// Drawing on the bank absorbs the unpaid seconds as far as the bank
/// reaches: within its reach they are all absorbed and counted as used,
/// and what is left of the bank and of the last grant is the bank less
/// those seconds; beyond it the bank is emptied and the rest stays unpaid.
pub proof fn drain_facts(unpaid: int, used: int, bank: int, step: int)
    requires
        unpaid > 0,
    ensures
        ({
            let d = drain(unpaid, used, bank, step);
            let left = match d.extra {
                Some(e) => e,
                None => 0,
            };
            if unpaid <= reach(bank, step) {
                &&& d.unpaid == 0
                &&& d.used == used + unpaid
                &&& left >= 0
                &&& d.bank >= 0
                &&& d.bank + left == bank - unpaid
            } else {
                &&& d.unpaid == unpaid - reach(bank, step)
                &&& d.used == used + reach(bank, step)
                &&& d.extra is None
                &&& reach(d.bank, step) == 0
            }
        }),
    decreases unpaid,
{
    if step > 0 && bank > 0 {
        let grant = if step < bank {
            step
        } else {
            bank
        };
        if unpaid > grant {
            drain_facts(unpaid - grant, used + grant, bank - grant, step);
        }
    }
}

/// The state of the clock and the bank after `delta` seconds.
pub struct Elapsed {
    pub state: TimeoutState,
    pub clock: TurnClock,
    /// The seconds left in the player's bank.
    pub bank: int,
}

impl TurnClock {
    /// What `delta` seconds do to the clock of a player whose bank holds
    /// `bank` seconds.
    ///
    /// The time for the decision burns first, then the extra time that is
    /// already granted, then the bank in grants of `step` seconds. The
    /// player times out when seconds remain that nothing absorbed.
    pub open spec fn after(self, player_id: PlayerId, delta: i32, step: i32, bank: i32) -> Elapsed {
        let same = Elapsed { state: TimeoutState::Ongoing, clock: self, bank: bank as int };
        if delta <= 0 {
            same
        } else {
            let base = burned(self.remaining_action_secs, delta as int);
            let clock1 = TurnClock {
                remaining_action_secs: (self.remaining_action_secs - base) as i32,
                ..self
            };
            let left1 = delta - base;
            if left1 <= 0 {
                Elapsed { clock: clock1, ..same }
            } else {
                let extra = burned(self.remaining_extra_secs, left1);
                let clock2 = TurnClock {
                    remaining_extra_secs: (self.remaining_extra_secs - extra) as i32,
                    ..clock1
                };
                let left2 = left1 - extra;
                if left2 <= 0 {
                    Elapsed {
                        state: if extra > 0 {
                            TimeoutState::UsedExtraTime { player_id, used_secs: extra as i32 }
                        } else {
                            TimeoutState::Ongoing
                        },
                        clock: clock2,
                        bank: bank as int,
                    }
                } else {
                    let d = drain(left2, extra, bank as int, step as int);
                    if d.unpaid > 0 {
                        Elapsed {
                            state: TimeoutState::TimedOut { player_id },
                            clock: TurnClock {
                                remaining_action_secs: 0,
                                remaining_extra_secs: 0,
                                ..clock2
                            },
                            bank: d.bank,
                        }
                    } else {
                        Elapsed {
                            state: if d.used > 0 {
                                TimeoutState::UsedExtraTime { player_id, used_secs: d.used as i32 }
                            } else {
                                TimeoutState::Ongoing
                            },
                            clock: TurnClock {
                                remaining_extra_secs: match d.extra {
                                    Some(e) => e as i32,
                                    None => clock2.remaining_extra_secs,
                                },
                                ..clock2
                            },
                            bank: d.bank,
                        }
                    }
                }
            }
        }
    }

    /// The seconds that the player has at hand with a bank of `bank`
    /// seconds: the time for the decision, the extra time that is
    /// granted, and the bank as far as it reaches.
    pub open spec fn at_hand(self, step: i32, bank: int) -> int {
        seconds(self.remaining_action_secs as int) + seconds(self.remaining_extra_secs as int)
            + reach(bank, step as int)
    }

    /// The player times out exactly when more seconds pass than the
    /// player has at hand. Otherwise the seconds that pass are gone from
    /// what is at hand, and nothing else is.
    pub proof fn times_out_exactly(self, player_id: PlayerId, delta: i32, step: i32, bank: i32)
        requires
            delta > 0,
        ensures
            ({
                let done = self.after(player_id, delta, step, bank);
                if delta > self.at_hand(step, bank as int) {
                    &&& done.state == TimeoutState::TimedOut { player_id }
                    &&& done.clock.at_hand(step, done.bank) == 0
                } else {
                    &&& done.state != TimeoutState::TimedOut { player_id }
                    &&& done.clock.at_hand(step, done.bank) == self.at_hand(step, bank as int)
                        - delta
                }
            }),
    {
        let base = burned(self.remaining_action_secs, delta as int);
        let left1 = delta - base;
        if left1 > 0 {
            let extra = burned(self.remaining_extra_secs, left1);
            let left2 = left1 - extra;
            if left2 > 0 {
                drain_facts(left2, extra, bank as int, step as int);
            }
        }
    }

    /// A clock that runs for nobody.
    pub fn new() -> (c: TurnClock)
        ensures
            c == (TurnClock {
                current_player: None,
                remaining_action_secs: 0,
                remaining_extra_secs: 0,
            }),
    {
        TurnClock { current_player: None, remaining_action_secs: 0, remaining_extra_secs: 0 }
    }

    /// Stops the clock: it runs for nobody.
    pub fn clear(&mut self)
        ensures
            *final(self) == (TurnClock {
                current_player: None,
                remaining_action_secs: 0,
                remaining_extra_secs: 0,
            }),
    {
        self.current_player = None;
        self.remaining_action_secs = 0;
        self.remaining_extra_secs = 0;
    }

    /// Starts a player's turn: the player has the time for one decision
    /// and no extra time yet. The bank is drawn on only when the time for
    /// the decision has run out, so nothing is granted here.
    pub fn start_turn(&mut self, player_id: PlayerId, rules: &TimeRules, bank: &mut TimeBank) -> (g:
        ExtraTimeGrant)
        ensures
            *final(self) == (TurnClock {
                current_player: Some(player_id),
                remaining_action_secs: time_bank::at_least_zero(rules.base_action_secs),
                remaining_extra_secs: 0,
            }),
            final(bank)@ == old(bank)@,
            g.granted_secs == 0,
    {
        self.current_player = Some(player_id);
        self.remaining_action_secs = if rules.base_action_secs < 0 {
            0
        } else {
            rules.base_action_secs
        };
        self.remaining_extra_secs = 0;
        ExtraTimeGrant::none()
    }

    /// Lets `delta_secs` seconds pass for the player whose turn it is.
    pub fn elapse_for_current(&mut self, delta_secs: i32, rules: &TimeRules, bank: &mut TimeBank)
        -> (state: TimeoutState)
        ensures
            old(self).current_player is None ==> {
                &&& state == TimeoutState::NoActivePlayer
                &&& *final(self) == *old(self)
                &&& final(bank)@ == old(bank)@
            },
            old(self).current_player matches Some(player_id) ==> {
                let done = old(self).after(
                    player_id,
                    delta_secs,
                    rules.bank_step_secs,
                    time_bank::seconds_left(old(bank)@, player_id),
                );
                &&& state == done.state
                &&& *final(self) == done.clock
                &&& time_bank::seconds_left(final(bank)@, player_id) == done.bank
                &&& forall|other: PlayerId|
                    other != player_id ==> time_bank::seconds_left(final(bank)@, other)
                        == time_bank::seconds_left(old(bank)@, other)
            },
    {
        let player_id = match self.current_player {
            Some(pid) => pid,
            None => {
                return TimeoutState::NoActivePlayer;
            },
        };
        if delta_secs <= 0 {
            return TimeoutState::Ongoing;
        }
        let mut remaining: i32 = delta_secs;
        let mut used_extra: i32 = 0;
        if self.remaining_action_secs > 0 {
            let burn = if remaining < self.remaining_action_secs {
                remaining
            } else {
                self.remaining_action_secs
            };
            self.remaining_action_secs = self.remaining_action_secs - burn;
            remaining = remaining - burn;
        }
        if remaining <= 0 {
            return TimeoutState::Ongoing;
        }
        if self.remaining_extra_secs > 0 {
            let burn = if remaining < self.remaining_extra_secs {
                remaining
            } else {
                self.remaining_extra_secs
            };
            self.remaining_extra_secs = self.remaining_extra_secs - burn;
            used_extra = used_extra + burn;
            remaining = remaining - burn;
        }
        if remaining <= 0 {
            return if used_extra > 0 {
                TimeoutState::UsedExtraTime { player_id, used_secs: used_extra }
            } else {
                TimeoutState::Ongoing
            };
        }
        let ghost start = remaining as int;
        let ghost start_used = used_extra as int;
        let ghost start_bank = time_bank::seconds_left(old(bank)@, player_id) as int;
        let ghost clock2 = *self;
        let step = rules.bank_step_secs;
        while remaining > 0
            invariant_except_break
                drain(
                    remaining as int,
                    used_extra as int,
                    time_bank::seconds_left(bank@, player_id) as int,
                    step as int,
                ) == drain(start, start_used, start_bank, step as int),
                *self == clock2,
            invariant
                0 <= remaining,
                0 <= used_extra,
                used_extra + remaining == start_used + start,
                start_used + start <= i32::MAX,
                step == rules.bank_step_secs,
                forall|other: PlayerId|
                    other != player_id ==> time_bank::seconds_left(bank@, other)
                        == time_bank::seconds_left(old(bank)@, other),
            ensures
                0 <= remaining,
                0 <= used_extra,
                ({
                    let d = drain(start, start_used, start_bank, step as int);
                    &&& d.unpaid == remaining
                    &&& d.used == used_extra
                    &&& d.bank == time_bank::seconds_left(bank@, player_id)
                    &&& self.remaining_extra_secs == match d.extra {
                        Some(e) => e,
                        None => clock2.remaining_extra_secs as int,
                    }
                    &&& self.remaining_action_secs == clock2.remaining_action_secs
                    &&& self.current_player == clock2.current_player
                }),
                forall|other: PlayerId|
                    other != player_id ==> time_bank::seconds_left(bank@, other)
                        == time_bank::seconds_left(old(bank)@, other),
            decreases remaining,
        {
            if step <= 0 {
                break;
            }
            let granted = bank.grant_for_turn(player_id, step);
            if granted <= 0 {
                break;
            }
            let burn = if remaining < granted {
                remaining
            } else {
                granted
            };
            used_extra = used_extra + burn;
            remaining = remaining - burn;
            if burn < granted {
                self.remaining_extra_secs = granted - burn;
                break;
            }
        }
        if remaining > 0 {
            self.remaining_action_secs = 0;
            self.remaining_extra_secs = 0;
            TimeoutState::TimedOut { player_id }
        } else if used_extra > 0 {
            TimeoutState::UsedExtraTime { player_id, used_secs: used_extra }
        } else {
            TimeoutState::Ongoing
        }
    }
}

} // verus!
