//! Tournaments: configuration, registration, the blind clock, busts and
//! the balance of the tables.

use crate::domain::blinds::{BlindLevel, BlindStructure};
use crate::domain::chips::Chips;
use crate::domain::table::SeatIndex;
use crate::domain::{PlayerId, TableId, TournamentId};
use crate::sorting;
use crate::sorting::sorted_keys;
use std::collections::HashMap;
use vstd::prelude::*;
use vstd::string::StringExecFns;

verus! {

/// When a tournament starts and when it pauses. Times are Unix seconds.
#[derive(Clone, Copy, Debug, PartialEq, Eq, Structural)]
pub struct TournamentScheduleConfig {
    /// The planned start; zero means that the start is given by hand.
    pub scheduled_start_ts: u64,
    /// Whether the tournament may start before the planned time.
    pub allow_start_earlier: bool,
    /// Minutes of play between two breaks.
    pub break_every_minutes: u32,
    /// Minutes that a break lasts.
    pub break_duration_minutes: u32,
}

impl TournamentScheduleConfig {
    /// Both the play between breaks and the breaks last some time.
    pub open spec fn is_valid(self) -> bool {
        self.break_every_minutes > 0 && self.break_duration_minutes > 0
    }

    /// The complaint about an invalid schedule.
    pub open spec fn complaint(self) -> Seq<char> {
        if self.break_every_minutes == 0 {
            "TournamentScheduleConfig: break_every_minutes = 0"@
        } else {
            "TournamentScheduleConfig: break_duration_minutes = 0"@
        }
    }

    /// Checks the schedule. `Ok` exactly when it is valid.
    pub fn validate(&self) -> (r: Result<(), String>)
        ensures
            self.is_valid() <==> r is Ok,
            r matches Err(msg) ==> msg@ == self.complaint(),
    {
        if self.break_every_minutes == 0 {
            return Err(String::from_str("TournamentScheduleConfig: break_every_minutes = 0"));
        }
        if self.break_duration_minutes == 0 {
            return Err(String::from_str("TournamentScheduleConfig: break_duration_minutes = 0"));
        }
        Ok(())
    }

    /// A break of five minutes after every hour, started by hand.
    pub fn hourly_with_five_min_break() -> (s: TournamentScheduleConfig)
        ensures
            s == (TournamentScheduleConfig {
                scheduled_start_ts: 0,
                allow_start_earlier: true,
                break_every_minutes: 60,
                break_duration_minutes: 5,
            }),
            s.is_valid(),
    {
        TournamentScheduleConfig {
            scheduled_start_ts: 0,
            allow_start_earlier: true,
            break_every_minutes: 60,
            break_duration_minutes: 5,
        }
    }
}

/// How the tables are kept in balance.
#[derive(Clone, Copy, Debug, PartialEq, Eq, Structural)]
pub struct TableBalancingConfig {
    pub enabled: bool,
    /// By how many players the fullest and the emptiest table may differ.
    pub max_seat_diff: u8,
}

impl TableBalancingConfig {
    /// Where balancing is on, the allowed difference is positive and
    /// below the size of a table.
    pub open spec fn is_valid(self, table_size: u8) -> bool {
        self.enabled ==> 0 < self.max_seat_diff < table_size
    }

    /// The complaint about an invalid balancing configuration.
    pub open spec fn complaint(self) -> Seq<char> {
        if self.max_seat_diff == 0 {
            "TableBalancingConfig: max_seat_diff = 0"@
        } else {
            "TableBalancingConfig: max_seat_diff >= table_size"@
        }
    }

    /// Checks the configuration against the size of the tables. `Ok`
    /// exactly when it is valid.
    pub fn validate(&self, table_size: u8) -> (r: Result<(), String>)
        ensures
            self.is_valid(table_size) <==> r is Ok,
            r matches Err(msg) ==> msg@ == self.complaint(),
    {
        if !self.enabled {
            return Ok(());
        }
        if self.max_seat_diff == 0 {
            return Err(String::from_str("TableBalancingConfig: max_seat_diff = 0"));
        }
        if self.max_seat_diff >= table_size {
            return Err(String::from_str("TableBalancingConfig: max_seat_diff >= table_size"));
        }
        Ok(())
    }

    /// Balancing on, with a difference of one player allowed.
    pub fn default_with_diff_one() -> (b: TableBalancingConfig)
        ensures
            b == (TableBalancingConfig { enabled: true, max_seat_diff: 1 }),
    {
        TableBalancingConfig { enabled: true, max_seat_diff: 1 }
    }
}

/// Everything that is fixed when a tournament is created.
#[derive(Debug)]
pub struct TournamentConfig {
    pub name: String,
    pub description: Option<String>,
    pub starting_stack: Chips,
    /// The cap on the number of players.
    pub max_players: u32,
    pub min_players_to_start: u32,
    /// The seats of a table, 2 to 9.
    pub table_size: u8,
    /// A freezeout has no re-entries.
    pub freezeout: bool,
    pub reentry_allowed: bool,
    /// How often one player may enter; 1 in a freezeout.
    pub max_entries_per_player: u32,
    /// The last level in which players may still register; 0 for none.
    pub late_reg_level: u32,
    pub blind_structure: BlindStructure,
    pub auto_approve: bool,
    pub schedule: TournamentScheduleConfig,
    pub balancing: TableBalancingConfig,
}

impl TournamentConfig {
    /// Both configurations say the same.
    pub open spec fn same_as(&self, other: &TournamentConfig) -> bool {
        &&& self.name@ == other.name@
        &&& match (self.description, other.description) {
            (Some(a), Some(b)) => a@ == b@,
            (None, None) => true,
            _ => false,
        }
        &&& self.starting_stack == other.starting_stack
        &&& self.max_players == other.max_players
        &&& self.min_players_to_start == other.min_players_to_start
        &&& self.table_size == other.table_size
        &&& self.freezeout == other.freezeout
        &&& self.reentry_allowed == other.reentry_allowed
        &&& self.max_entries_per_player == other.max_entries_per_player
        &&& self.late_reg_level == other.late_reg_level
        &&& self.blind_structure@ == other.blind_structure@
        &&& self.auto_approve == other.auto_approve
        &&& self.schedule == other.schedule
        &&& self.balancing == other.balancing
    }
}

impl Clone for TournamentConfig {
    fn clone(&self) -> (c: TournamentConfig)
        ensures
            c.same_as(self),
    {
        TournamentConfig {
            name: self.name.clone(),
            description: match &self.description {
                Some(d) => Some(d.clone()),
                None => None,
            },
            starting_stack: self.starting_stack,
            max_players: self.max_players,
            min_players_to_start: self.min_players_to_start,
            table_size: self.table_size,
            freezeout: self.freezeout,
            reentry_allowed: self.reentry_allowed,
            max_entries_per_player: self.max_entries_per_player,
            late_reg_level: self.late_reg_level,
            blind_structure: self.blind_structure.clone(),
            auto_approve: self.auto_approve,
            schedule: self.schedule,
            balancing: self.balancing,
        }
    }
}

/// Which rule a configuration breaks.
pub enum ConfigFault {
    EmptyName,
    NoStartingStack,
    NoPlayers,
    NoMinimum,
    MinimumAboveMaximum,
    TableSize,
    ReentryWithoutEntries,
    FreezeoutEntries,
    Blinds,
    LateRegistration,
    Schedule,
    Balancing,
}

impl TournamentConfig {
    /// The first rule that the configuration breaks, if it breaks one.
    ///
    /// The name holds a character that is not white space; the starting
    /// stack is positive; 0 < `min_players_to_start` <= `max_players`; the
    /// tables have 2 to 9 seats; re-entry comes with at least two entries
    /// a player; a freezeout is exactly a tournament with one entry a
    /// player; the blind structure is valid; late registration ends at
    /// level 0 or at a level of the structure; the schedule and the
    /// balancing are valid.
    pub open spec fn fault(&self) -> Option<ConfigFault> {
        if crate::text::is_blank(self.name@) {
            Some(ConfigFault::EmptyName)
        } else if self.starting_stack.0 == 0 {
            Some(ConfigFault::NoStartingStack)
        } else if self.max_players == 0 {
            Some(ConfigFault::NoPlayers)
        } else if self.min_players_to_start == 0 {
            Some(ConfigFault::NoMinimum)
        } else if self.min_players_to_start > self.max_players {
            Some(ConfigFault::MinimumAboveMaximum)
        } else if self.table_size < 2 || self.table_size > 9 {
            Some(ConfigFault::TableSize)
        } else if self.reentry_allowed && self.max_entries_per_player < 2 {
            Some(ConfigFault::ReentryWithoutEntries)
        } else if self.freezeout != (self.max_entries_per_player == 1) {
            Some(ConfigFault::FreezeoutEntries)
        } else if !BlindStructure::is_valid(self.blind_structure@) {
            Some(ConfigFault::Blinds)
        } else if self.late_reg_level > self.blind_structure@.len() {
            Some(ConfigFault::LateRegistration)
        } else if !self.schedule.is_valid() {
            Some(ConfigFault::Schedule)
        } else if !self.balancing.is_valid(self.table_size) {
            Some(ConfigFault::Balancing)
        } else {
            None
        }
    }

    /// The configuration breaks no rule.
    pub open spec fn is_valid(&self) -> bool {
        self.fault() is None
    }

    /// The complaint about a fault.
    pub open spec fn complaint(&self, fault: ConfigFault) -> Seq<char> {
        match fault {
            ConfigFault::EmptyName => "TournamentConfig: name is empty"@,
            ConfigFault::NoStartingStack => "TournamentConfig: starting_stack = 0"@,
            ConfigFault::NoPlayers => "TournamentConfig: max_players = 0"@,
            ConfigFault::NoMinimum => "TournamentConfig: min_players_to_start = 0"@,
            ConfigFault::MinimumAboveMaximum => "TournamentConfig: min_players_to_start > max_players"@,
            ConfigFault::TableSize => "TournamentConfig: table_size must be in [2, 9]"@,
            ConfigFault::ReentryWithoutEntries => "TournamentConfig: reentry_allowed but max_entries_per_player < 2"@,
            ConfigFault::FreezeoutEntries => "TournamentConfig: freezeout must match max_entries_per_player = 1"@,
            ConfigFault::Blinds => BlindStructure::complaint(self.blind_structure@),
            ConfigFault::LateRegistration => "TournamentConfig: late_reg_level "@
                + crate::text::decimal_digits(self.late_reg_level as u64) + " is out of bounds"@,
            ConfigFault::Schedule => self.schedule.complaint(),
            ConfigFault::Balancing => self.balancing.complaint(),
        }
    }

    /// Checks the whole configuration. `Ok` exactly when it breaks no
    /// rule; otherwise `InvalidConfig` with the complaint about the first
    /// broken rule.
    pub fn validate_full(&self) -> (r: Result<(), TournamentError>)
        ensures
            match self.fault() {
                None => r is Ok,
                Some(fault) => r matches Err(TournamentError::InvalidConfig(msg)) && msg@
                    == self.complaint(fault),
            },
    {
        if crate::text::blank(self.name.as_str()) {
            return Err(
                TournamentError::InvalidConfig(String::from_str("TournamentConfig: name is empty")),
            );
        }
        if self.starting_stack.0 == 0 {
            return Err(
                TournamentError::InvalidConfig(
                    String::from_str("TournamentConfig: starting_stack = 0"),
                ),
            );
        }
        if self.max_players == 0 {
            return Err(
                TournamentError::InvalidConfig(
                    String::from_str("TournamentConfig: max_players = 0"),
                ),
            );
        }
        if self.min_players_to_start == 0 {
            return Err(
                TournamentError::InvalidConfig(
                    String::from_str("TournamentConfig: min_players_to_start = 0"),
                ),
            );
        }
        if self.min_players_to_start > self.max_players {
            return Err(
                TournamentError::InvalidConfig(
                    String::from_str("TournamentConfig: min_players_to_start > max_players"),
                ),
            );
        }
        if self.table_size < 2 || self.table_size > 9 {
            return Err(
                TournamentError::InvalidConfig(
                    String::from_str("TournamentConfig: table_size must be in [2, 9]"),
                ),
            );
        }
        if self.reentry_allowed && self.max_entries_per_player < 2 {
            return Err(
                TournamentError::InvalidConfig(
                    String::from_str(
                        "TournamentConfig: reentry_allowed but max_entries_per_player < 2",
                    ),
                ),
            );
        }
        if self.freezeout != (self.max_entries_per_player == 1) {
            return Err(
                TournamentError::InvalidConfig(
                    String::from_str(
                        "TournamentConfig: freezeout must match max_entries_per_player = 1",
                    ),
                ),
            );
        }
        match self.blind_structure.validate() {
            Ok(()) => {},
            Err(msg) => {
                return Err(TournamentError::InvalidConfig(msg));
            },
        }
        if self.late_reg_level > 0 && self.blind_structure.level_by_number(
            self.late_reg_level,
        ).is_none() {
            let mut s = String::from_str("TournamentConfig: late_reg_level ");
            let digits = crate::text::decimal(self.late_reg_level as u64);
            s.append(digits.as_str());
            s.append(" is out of bounds");
            return Err(TournamentError::InvalidConfig(s));
        }
        match self.schedule.validate() {
            Ok(()) => {},
            Err(msg) => {
                return Err(TournamentError::InvalidConfig(msg));
            },
        }
        match self.balancing.validate(self.table_size) {
            Ok(()) => {},
            Err(msg) => {
                return Err(TournamentError::InvalidConfig(msg));
            },
        }
        Ok(())
    }
}

/// The phase of a tournament.
#[derive(Clone, Copy, Debug, PartialEq, Eq, Structural)]
pub enum TournamentStatus {
    Registering,
    Running,
    OnBreak,
    Finished,
}

/// A player's registration in a tournament.
#[derive(Clone, Copy, Debug, PartialEq, Eq, Structural)]
pub struct PlayerRegistration {
    pub player_id: PlayerId,
    /// The player's chips in the tournament.
    pub total_chips: Chips,
    pub is_busted: bool,
    pub table_id: Option<TableId>,
    pub seat_index: Option<SeatIndex>,
    /// The final place: 1 for the winner, the number of entries for the
    /// first player out.
    pub finishing_place: Option<u32>,
}

/// A player in a tournament is the player's registration.
pub type TournamentPlayer = PlayerRegistration;

/// One player moving from one table to another.
#[derive(Clone, Copy, Debug, PartialEq, Eq, Structural)]
pub struct RebalanceMove {
    pub player_id: PlayerId,
    pub from_table: TableId,
    pub to_table: TableId,
}

/// What a tick of the clock brought about.
#[derive(Clone, Copy, Debug, PartialEq, Eq, Structural)]
pub enum TournamentTimeEvent {
    NoEvent,
    LevelAdvanced { from: u32, to: u32, new_blinds: BlindLevel },
    BreakStarted,
    BreakEnded,
}

/// Why a tournament refused a call.
#[derive(Clone, Debug, PartialEq, Eq)]
pub enum TournamentError {
    TournamentNotFound { tournament_id: TournamentId },
    TournamentFull { tournament_id: TournamentId },
    AlreadyRegistered { player_id: PlayerId, tournament_id: TournamentId },
    NotRegistered { player_id: PlayerId, tournament_id: TournamentId },
    AlreadyBusted { player_id: PlayerId, tournament_id: TournamentId },
    CannotBustLastPlayer { tournament_id: TournamentId },
    InvalidStatus { expected: TournamentStatus, found: TournamentStatus },
    InvalidStatusForStart { status: TournamentStatus },
    InvalidConfig(String),
}

/// A tournament.
#[derive(Debug)]
pub struct Tournament {
    pub id: TournamentId,
    pub owner: PlayerId,
    pub config: TournamentConfig,
    pub status: TournamentStatus,
    pub registrations: HashMap<PlayerId, PlayerRegistration>,
    /// The number of the blind level that is being played.
    pub current_level: u32,
    pub started_at_ts: Option<u64>,
    pub level_started_at_ts: Option<u64>,
    pub break_started_at_ts: Option<u64>,
    /// The number of entries, fixed when the tournament starts; the first
    /// player out takes this place.
    pub total_entries: u32,
    /// How many players are out.
    pub finished_count: u32,
    pub winner_id: Option<PlayerId>,
    /// How often each player has entered.
    pub entries_used: HashMap<PlayerId, u32>,
}

impl Clone for Tournament {
    fn clone(&self) -> (t: Tournament)
        ensures
            t.alike(self),
    {
        Tournament {
            id: self.id,
            owner: self.owner,
            config: self.config.clone(),
            status: self.status,
            registrations: self.registrations.clone(),
            current_level: self.current_level,
            started_at_ts: self.started_at_ts,
            level_started_at_ts: self.level_started_at_ts,
            break_started_at_ts: self.break_started_at_ts,
            total_entries: self.total_entries,
            finished_count: self.finished_count,
            winner_id: self.winner_id,
            entries_used: self.entries_used.clone(),
        }
    }
}

/// The part of a tournament that the clock changes.
pub struct Clock {
    pub status: TournamentStatus,
    pub current_level: u32,
    pub level_started_at_ts: Option<u64>,
    pub break_started_at_ts: Option<u64>,
}

/// The test of a player: registered and not out.
pub open spec fn is_active(regs: Map<PlayerId, PlayerRegistration>) -> spec_fn(PlayerId) -> bool {
    |id: PlayerId| regs.contains_key(id) && !regs[id].is_busted
}

/// The players who are still in, in rising order of their identifiers.
pub open spec fn active_ids(regs: Map<PlayerId, PlayerRegistration>) -> Seq<PlayerId> {
    sorting::rising_keys(regs).filter(is_active(regs))
}

/// A number of players as a `u32`, capped at `u32::MAX`.
pub open spec fn capped(n: int) -> u32 {
    if n > u32::MAX {
        u32::MAX
    } else {
        n as u32
    }
}

/// The whole minutes between the start and `now`, capped at `u32::MAX`;
/// zero where `now` lies before the start.
pub open spec fn elapsed_minutes(started: u64, now: u64) -> u32 {
    if now <= started {
        0
    } else {
        capped((now - started) / 60)
    }
}

/// A fresh registration of a player.
pub open spec fn fresh_registration(player_id: PlayerId, stack: Chips) -> PlayerRegistration {
    PlayerRegistration {
        player_id,
        total_chips: stack,
        is_busted: false,
        table_id: None,
        seat_index: None,
        finishing_place: None,
    }
}

/// How often a player has entered; never, for a player without a count.
pub open spec fn entries_of(used: Map<PlayerId, u32>, player_id: PlayerId) -> u32 {
    if used.contains_key(player_id) {
        used[player_id]
    } else {
        0
    }
}

impl Tournament {
    /// The clock's part of the tournament.
    pub open spec fn clock(&self) -> Clock {
        Clock {
            status: self.status,
            current_level: self.current_level,
            level_started_at_ts: self.level_started_at_ts,
            break_started_at_ts: self.break_started_at_ts,
        }
    }

    /// Everything but the clock's part is the same in both tournaments.
    pub open spec fn same_but_clock(&self, other: &Tournament) -> bool {
        &&& self.id == other.id
        &&& self.owner == other.owner
        &&& self.config == other.config
        &&& self.registrations == other.registrations
        &&& self.started_at_ts == other.started_at_ts
        &&& self.total_entries == other.total_entries
        &&& self.finished_count == other.finished_count
        &&& self.winner_id == other.winner_id
        &&& self.entries_used == other.entries_used
    }

    /// Everything but the registrations is the same in both tournaments.
    pub open spec fn same_but_registrations(&self, other: &Tournament) -> bool {
        &&& self.id == other.id
        &&& self.owner == other.owner
        &&& self.config == other.config
        &&& self.clock() == other.clock()
        &&& self.started_at_ts == other.started_at_ts
        &&& self.total_entries == other.total_entries
        &&& self.finished_count == other.finished_count
        &&& self.winner_id == other.winner_id
        &&& self.entries_used == other.entries_used
    }

    /// The number of players who are still in.
    pub open spec fn active_count(&self) -> nat {
        active_ids(self.registrations@).len()
    }

    /// Whether the tournament may start at `now`: it is registering, enough
    /// players are in, and the schedule allows it (no planned start, or the
    /// planned start has come, or an early start is allowed).
    pub open spec fn may_start(&self, now_ts: u64) -> bool {
        &&& self.status == TournamentStatus::Registering
        &&& capped(self.active_count() as int) >= self.config.min_players_to_start
        &&& (self.config.schedule.scheduled_start_ts == 0 || now_ts
            >= self.config.schedule.scheduled_start_ts
            || self.config.schedule.allow_start_earlier)
    }

    /// Whether players may register now: before the start, or, where late
    /// registration is on, while the tournament runs a level up to the
    /// last level of late registration.
    pub open spec fn registration_open(&self) -> bool {
        self.status == TournamentStatus::Registering || (self.status == TournamentStatus::Running
            && self.config.late_reg_level > 0 && self.current_level <= self.config.late_reg_level)
    }

    /// While the tournament runs, the entries cover the players who are in
    /// and those who are out, and every place that was given lies between 1
    /// and the number of entries.
    pub open spec fn places_in_order(&self) -> bool {
        self.status == TournamentStatus::Running ==> {
            &&& self.total_entries >= self.active_count() + self.finished_count
            &&& forall|id: PlayerId| #[trigger]
                self.registrations@.contains_key(id)
                    && self.registrations@[id].finishing_place is Some ==> 1
                    <= self.registrations@[id].finishing_place.unwrap() <= self.total_entries
        }
    }

    /// What the clock does at `now`.
    ///
    /// Nothing before the start and after the end. Time is counted in
    /// whole minutes since the start; play and break alternate in cycles.
    /// A running tournament that has reached the break part of the cycle
    /// goes on break. A tournament on break that has left it runs again,
    /// and moves to the level that is due, if that lies ahead. Otherwise a
    /// running tournament moves to the level that is due.
    pub open spec fn tick(&self, now_ts: u64) -> (TournamentTimeEvent, Clock) {
        let same = (TournamentTimeEvent::NoEvent, self.clock());
        if self.status == TournamentStatus::Finished || self.status
            == TournamentStatus::Registering || self.started_at_ts is None {
            same
        } else {
            let minutes = elapsed_minutes(self.started_at_ts.unwrap(), now_ts);
            let every = self.config.schedule.break_every_minutes as int;
            let cycle = every + self.config.schedule.break_duration_minutes;
            let in_break = cycle > 0 && minutes as int % cycle >= every;
            if self.status == TournamentStatus::Running && in_break {
                (
                    TournamentTimeEvent::BreakStarted,
                    Clock {
                        status: TournamentStatus::OnBreak,
                        break_started_at_ts: Some(now_ts),
                        ..self.clock()
                    },
                )
            } else if self.status == TournamentStatus::OnBreak && in_break {
                same
            } else {
                let running = Clock {
                    status: TournamentStatus::Running,
                    break_started_at_ts: if self.status == TournamentStatus::OnBreak {
                        None
                    } else {
                        self.break_started_at_ts
                    },
                    ..self.clock()
                };
                let (event, clock) = Self::level_due(
                    self.config.blind_structure@,
                    running,
                    minutes,
                    now_ts,
                );
                if self.status == TournamentStatus::OnBreak && event
                    == TournamentTimeEvent::NoEvent {
                    (TournamentTimeEvent::BreakEnded, clock)
                } else {
                    (event, clock)
                }
            }
        }
    }

    /// Moves the clock to the level that is due after `minutes` of play,
    /// if that level lies ahead.
    pub open spec fn level_due(levels: Seq<BlindLevel>, clock: Clock, minutes: u32, now_ts: u64)
        -> (TournamentTimeEvent, Clock) {
        if levels.len() == 0 {
            (TournamentTimeEvent::NoEvent, clock)
        } else {
            let due = levels[BlindStructure::index_at(levels, minutes as int, 0)];
            if due.level > clock.current_level {
                (
                    TournamentTimeEvent::LevelAdvanced {
                        from: clock.current_level,
                        to: due.level,
                        new_blinds: BlindStructure::find(levels, due.level).unwrap(),
                    },
                    Clock {
                        current_level: due.level,
                        level_started_at_ts: Some(now_ts),
                        ..clock
                    },
                )
            } else {
                (TournamentTimeEvent::NoEvent, clock)
            }
        }
    }

    /// The tournament is new: players can register, nobody has, and the
    /// first level is to be played.
    pub open spec fn fresh(&self, id: TournamentId, owner: PlayerId, config: TournamentConfig)
        -> bool {
        &&& self.id == id
        &&& self.owner == owner
        &&& self.config == config
        &&& self.status == TournamentStatus::Registering
        &&& self.registrations@ == Map::<PlayerId, PlayerRegistration>::empty()
        &&& self.current_level == 1
        &&& self.started_at_ts is None
        &&& self.level_started_at_ts is None
        &&& self.break_started_at_ts is None
        &&& self.total_entries == 0
        &&& self.finished_count == 0
        &&& self.winner_id is None
        &&& self.entries_used@ == Map::<PlayerId, u32>::empty()
    }

    /// A new tournament in its registration phase. `Ok` exactly when the
    /// configuration is valid.
    pub fn new(id: TournamentId, owner: PlayerId, config: TournamentConfig) -> (r: Result<
        Tournament,
        TournamentError,
    >)
        ensures
            match config.fault() {
                Some(fault) => r matches Err(TournamentError::InvalidConfig(msg)) && msg@
                    == config.complaint(fault),
                None => r matches Ok(t) && t.fresh(id, owner, config) && t.in_order(),
            },
    {
        match config.validate_full() {
            Ok(()) => {},
            Err(e) => {
                return Err(e);
            },
        }
        Ok(
            Tournament {
                id,
                owner,
                config,
                status: TournamentStatus::Registering,
                registrations: HashMap::new(),
                current_level: 1,
                started_at_ts: None,
                level_started_at_ts: None,
                break_started_at_ts: None,
                total_entries: 0,
                finished_count: 0,
                winner_id: None,
                entries_used: HashMap::new(),
            },
        )
    }

    /// The blind level that is being played.
    pub fn current_blind_level(&self) -> (l: &BlindLevel)
        requires
            BlindStructure::find(self.config.blind_structure@, self.current_level) is Some,
        ensures
            Some(*l) == BlindStructure::find(self.config.blind_structure@, self.current_level),
    {
        match self.config.blind_structure.level_by_number(self.current_level) {
            Some(l) => l,
            None => {
                proof {
                    assert(false);
                }
                &self.config.blind_structure.levels[0]
            },
        }
    }

    /// The identifiers of the players who are still in, in rising order.
    pub fn active_player_ids(&self) -> (ids: Vec<PlayerId>)
        ensures
            ids@ == active_ids(self.registrations@),
            ids@.len() == self.active_count(),
            sorting::strictly_rising(ids@),
            forall|id: PlayerId| ids@.contains(id) <==> is_active(self.registrations@)(id),
    {
        broadcast use vstd::std_specs::hash::group_hash_axioms;

        let keys = sorted_keys(&self.registrations);
        let ghost pred = is_active(self.registrations@);
        let mut ids: Vec<PlayerId> = Vec::new();
        let mut i: usize = 0;
        while i < keys.len()
            invariant
                i <= keys@.len(),
                keys@ == sorting::rising_keys(self.registrations@),
                pred == is_active(self.registrations@),
                ids@ == keys@.take(i as int).filter(pred),
            decreases keys@.len() - i,
        {
            proof {
                crate::seq_util::filter_step(keys@, pred, i as int);
            }
            let id = keys[i];
            let active = match self.registrations.get(&id) {
                Some(reg) => !reg.is_busted,
                None => false,
            };
            if active {
                ids.push(id);
            }
            i += 1;
        }
        proof {
            crate::seq_util::take_all(keys@);
            crate::seq_util::filter_facts(keys@, pred);
            crate::seq_util::filter_rising(keys@, pred);
            assert forall|id: PlayerId| ids@.contains(id) <==> pred(id) by {
                if ids@.contains(id) {
                    let k = choose|k: int| 0 <= k < ids@.len() && ids@[k] == id;
                    assert(pred(ids@[k]));
                }
                if pred(id) {
                    assert(keys@.contains(id));
                    let k = choose|k: int| 0 <= k < keys@.len() && keys@[k] == id;
                    assert(keys@.filter(pred).contains(keys@[k]));
                }
            }
        }
        ids
    }

    /// The registrations of the players who are still in, in rising order
    /// of their identifiers.
    pub fn active_players(&self) -> (regs: Vec<PlayerRegistration>)
        ensures
            regs@.len() == self.active_count(),
            forall|i: int|
                0 <= i < regs@.len() ==> regs@[i] == self.registrations@[active_ids(
                    self.registrations@,
                )[i]],
    {
        broadcast use vstd::std_specs::hash::group_hash_axioms;

        let ids = self.active_player_ids();
        let mut regs: Vec<PlayerRegistration> = Vec::new();
        let mut i: usize = 0;
        while i < ids.len()
            invariant
                i <= ids@.len(),
                ids@ == active_ids(self.registrations@),
                forall|id: PlayerId| ids@.contains(id) <==> is_active(self.registrations@)(id),
                regs@.len() == i,
                forall|j: int| 0 <= j < i ==> regs@[j] == self.registrations@[ids@[j]],
            decreases ids@.len() - i,
        {
            assert(ids@.contains(ids@[i as int]));
            match self.registrations.get(&ids[i]) {
                Some(reg) => {
                    regs.push(*reg);
                },
                None => {
                    assert(false);
                },
            }
            i += 1;
        }
        regs
    }

    /// The number of players who are still in.
    pub fn active_player_count(&self) -> (n: usize)
        ensures
            n == self.active_count(),
    {
        self.active_player_ids().len()
    }

    /// The number of players who are still in, capped at `u32::MAX`.
    fn active_entries(&self) -> (n: u32)
        ensures
            n == capped(self.active_count() as int),
    {
        let n = self.active_player_count();
        if n > u32::MAX as usize {
            u32::MAX
        } else {
            n as u32
        }
    }

    /// Whether the tournament is over.
    pub fn is_finished(&self) -> (b: bool)
        ensures
            b == (self.status == TournamentStatus::Finished),
    {
        match self.status {
            TournamentStatus::Finished => true,
            _ => false,
        }
    }

    /// Whether the tournament may start at `now_ts`.
    pub fn can_start_now(&self, now_ts: u64) -> (b: bool)
        ensures
            b == self.may_start(now_ts),
    {
        match self.status {
            TournamentStatus::Registering => {},
            _ => {
                return false;
            },
        }
        if self.active_entries() < self.config.min_players_to_start {
            return false;
        }
        if self.config.schedule.scheduled_start_ts == 0 {
            return true;
        }
        if now_ts >= self.config.schedule.scheduled_start_ts {
            return true;
        }
        self.config.schedule.allow_start_earlier
    }

    /// Starts the tournament: it runs level 1 from `now_ts`, the entries
    /// are counted, nobody is out and nobody has won.
    pub fn start(&mut self, now_ts: u64) -> (r: Result<(), TournamentError>)
        ensures
            !old(self).may_start(now_ts) ==> r == Err::<(), TournamentError>(
                TournamentError::InvalidStatusForStart { status: old(self).status },
            ) && *final(self) == *old(self),
            old(self).may_start(now_ts) ==> r is Ok && {
                &&& final(self).status == TournamentStatus::Running
                &&& final(self).started_at_ts == Some(now_ts)
                &&& final(self).level_started_at_ts == Some(now_ts)
                &&& final(self).break_started_at_ts is None
                &&& final(self).current_level == 1
                &&& final(self).total_entries == capped(old(self).active_count() as int)
                &&& final(self).finished_count == 0
                &&& final(self).winner_id is None
                &&& final(self).id == old(self).id
                &&& final(self).owner == old(self).owner
                &&& final(self).config == old(self).config
                &&& final(self).registrations == old(self).registrations
                &&& final(self).entries_used == old(self).entries_used
            },
            old(self).in_order() && old(self).active_count() <= u32::MAX ==> final(self).in_order(),
    {
        if !self.can_start_now(now_ts) {
            return Err(TournamentError::InvalidStatusForStart { status: self.status });
        }
        let entries = self.active_entries();
        self.status = TournamentStatus::Running;
        self.started_at_ts = Some(now_ts);
        self.level_started_at_ts = Some(now_ts);
        self.break_started_at_ts = None;
        self.current_level = 1;
        self.total_entries = entries;
        self.finished_count = 0;
        self.winner_id = None;
        Ok(())
    }
}

/// The players who are still in, as a set.
pub open spec fn active_set(regs: Map<PlayerId, PlayerRegistration>) -> Set<PlayerId> {
    regs.dom().filter(is_active(regs))
}

/// The list of the players who are still in holds each of them once.
pub proof fn active_ids_facts(regs: Map<PlayerId, PlayerRegistration>)
    requires
        regs.dom().finite(),
    ensures
        active_ids(regs).no_duplicates(),
        active_ids(regs).to_set() == active_set(regs),
        active_ids(regs).len() == active_set(regs).len(),
        active_set(regs).finite(),
        sorting::strictly_rising(active_ids(regs)),
        forall|id: PlayerId| active_ids(regs).contains(id) <==> is_active(regs)(id),
{
    let keys = sorting::rising_keys(regs);
    let pred = is_active(regs);
    regs.dom().lemma_to_seq_to_set_id();
    let listed = sorting::sort_seq(regs.dom().to_seq());
    sorting::sort_seq_facts(regs.dom().to_seq());
    assert(listed.to_set() == regs.dom());
    sorting::to_seq_no_duplicates(regs.dom());
    sorting::rising_keys_are(regs, listed);
    crate::seq_util::filter_facts(keys, pred);
    crate::seq_util::filter_no_duplicates(keys, pred);
    crate::seq_util::filter_rising(keys, pred);
    let ids = active_ids(regs);
    assert forall|id: PlayerId| ids.contains(id) <==> pred(id) by {
        if ids.contains(id) {
            let k = choose|k: int| 0 <= k < ids.len() && ids[k] == id;
            assert(pred(ids[k]));
        }
        if pred(id) {
            assert(keys.contains(id));
            let k = choose|k: int| 0 <= k < keys.len() && keys[k] == id;
            assert(keys.filter(pred).contains(keys[k]));
        }
    }
    assert(ids.to_set() =~= active_set(regs));
    ids.unique_seq_to_set();
}

/// Putting a player who is in into the map: the number of players who are
/// in grows by one if the player was not in before.
pub proof fn active_count_after_insert(
    regs: Map<PlayerId, PlayerRegistration>,
    id: PlayerId,
    reg: PlayerRegistration,
)
    requires
        regs.dom().finite(),
    ensures
        active_ids(regs.insert(id, reg)).len() == active_ids(regs).len() + (if !reg.is_busted {
            1int
        } else {
            0int
        }) - (if is_active(regs)(id) {
            1int
        } else {
            0int
        }),
{
    let after = regs.insert(id, reg);
    active_ids_facts(regs);
    active_ids_facts(after);
    let a = active_set(regs);
    let b = active_set(after);
    if is_active(regs)(id) {
        if !reg.is_busted {
            assert(b =~= a);
        } else {
            assert(b =~= a.remove(id));
        }
    } else {
        if !reg.is_busted {
            assert(b =~= a.insert(id));
        } else {
            assert(b =~= a);
        }
    }
}

impl Tournament {
    /// The order that the tournament keeps.
    ///
    /// While players register, nobody is out and nobody has a place. While
    /// the tournament runs or pauses, the entries cover the players who are
    /// in and those who are out, and every place that was given lies
    /// between 1 and the number of entries.
    pub open spec fn in_order(&self) -> bool {
        match self.status {
            TournamentStatus::Registering => forall|id: PlayerId| #[trigger]
                self.registrations@.contains_key(id) ==> !self.registrations@[id].is_busted
                    && self.registrations@[id].finishing_place is None,
            TournamentStatus::Finished => true,
            _ => {
                &&& self.total_entries >= self.active_count() + self.finished_count
                &&& forall|id: PlayerId| #[trigger]
                    self.registrations@.contains_key(id)
                        && self.registrations@[id].finishing_place is Some ==> 1
                        <= self.registrations@[id].finishing_place.unwrap() <= self.total_entries
            },
        }
    }

    /// The two tournaments are alike: every part is the same.
    pub open spec fn alike(&self, other: &Tournament) -> bool {
        &&& self.id == other.id
        &&& self.owner == other.owner
        &&& self.config.same_as(&other.config)
        &&& self.clock() == other.clock()
        &&& self.registrations@ == other.registrations@
        &&& self.started_at_ts == other.started_at_ts
        &&& self.total_entries == other.total_entries
        &&& self.finished_count == other.finished_count
        &&& self.winner_id == other.winner_id
        &&& self.entries_used@ == other.entries_used@
    }

    /// The tournament is `before` after the player has entered it: the
    /// player has a fresh registration and has used one entry more; an
    /// entry while the tournament runs counts as one more entry of the
    /// tournament; nothing else has changed.
    pub open spec fn entered(&self, before: Tournament, player_id: PlayerId) -> bool {
        &&& self.registrations@ == before.registrations@.insert(
            player_id,
            fresh_registration(player_id, before.config.starting_stack),
        )
        &&& self.entries_used@ == before.entries_used@.insert(
            player_id,
            capped(entries_of(before.entries_used@, player_id) + 1),
        )
        &&& self.total_entries == if before.status == TournamentStatus::Running {
            capped(before.total_entries + 1)
        } else {
            before.total_entries
        }
        &&& self.id == before.id
        &&& self.owner == before.owner
        &&& self.config == before.config
        &&& self.clock() == before.clock()
        &&& self.started_at_ts == before.started_at_ts
        &&& self.finished_count == before.finished_count
        &&& self.winner_id == before.winner_id
    }

    /// A tournament that keeps its order has, while it runs, entries for
    /// all players in and out, and places within the number of entries.
    pub proof fn order_covers_entries(&self)
        requires
            self.in_order(),
        ensures
            self.places_in_order(),
    {
    }

    /// Why a registration is refused, or `None` where it is accepted.
    ///
    /// Registration has to be open and the tournament not full. A player
    /// who is already registered is refused, unless re-entry is allowed
    /// and the player has entries left.
    pub open spec fn registration_refusal(&self, player_id: PlayerId) -> Option<TournamentError> {
        if !self.registration_open() {
            Some(
                TournamentError::InvalidStatus {
                    expected: TournamentStatus::Registering,
                    found: self.status,
                },
            )
        } else if self.registrations@.dom().len() >= self.config.max_players {
            Some(TournamentError::TournamentFull { tournament_id: self.id })
        } else if self.registrations@.contains_key(player_id) && (!self.config.reentry_allowed
            || entries_of(self.entries_used@, player_id) >= self.config.max_entries_per_player) {
            Some(TournamentError::AlreadyRegistered { player_id, tournament_id: self.id })
        } else {
            None
        }
    }

    /// Registers a player, or lets a player enter again.
    ///
    /// A player who enters, for the first time or again, starts with the
    /// starting stack, without a seat and without a place, and has used
    /// one entry more. An entry while the tournament runs counts as one
    /// more entry of the tournament.
    pub fn register_player(&mut self, player_id: PlayerId) -> (r: Result<(), TournamentError>)
        ensures
            match old(self).registration_refusal(player_id) {
                Some(e) => r == Err::<(), TournamentError>(e) && *final(self) == *old(self),
                None => r is Ok && final(self).entered(*old(self), player_id),
            },
            r is Ok && old(self).in_order() && old(self).total_entries < u32::MAX
                ==> final(self).in_order(),
    {
        broadcast use vstd::std_specs::hash::group_hash_axioms;

        let open = match self.status {
            TournamentStatus::Registering => true,
            TournamentStatus::Running => self.config.late_reg_level > 0 && self.current_level
                <= self.config.late_reg_level,
            _ => false,
        };
        if !open {
            return Err(
                TournamentError::InvalidStatus {
                    expected: TournamentStatus::Registering,
                    found: self.status,
                },
            );
        }
        if self.registrations.len() >= self.config.max_players as usize {
            return Err(TournamentError::TournamentFull { tournament_id: self.id });
        }
        let used: u32 = match self.entries_used.get(&player_id) {
            Some(n) => *n,
            None => 0,
        };
        if self.registrations.contains_key(&player_id) && (!self.config.reentry_allowed || used
            >= self.config.max_entries_per_player) {
            return Err(TournamentError::AlreadyRegistered { player_id, tournament_id: self.id });
        }
        let reg = PlayerRegistration {
            player_id,
            total_chips: self.config.starting_stack,
            is_busted: false,
            table_id: None,
            seat_index: None,
            finishing_place: None,
        };
        proof {
            active_count_after_insert(self.registrations@, player_id, reg);
        }
        self.registrations.insert(player_id, reg);
        self.entries_used.insert(player_id, used.saturating_add(1));
        match self.status {
            TournamentStatus::Running => {
                self.total_entries = self.total_entries.saturating_add(1);
            },
            _ => {},
        }
        Ok(())
    }

    /// Ends the tournament once at most one player is left: with one
    /// player left, that player has won and takes the first place unless a
    /// place is already set; with nobody left there is no winner. With more
    /// players left, or in a tournament that is over, nothing changes.
    pub fn check_and_finish_if_needed(&mut self)
        ensures
            old(self).status == TournamentStatus::Finished || old(self).active_count() > 1
                ==> *final(self) == *old(self),
            old(self).status != TournamentStatus::Finished && old(self).active_count() == 0 ==> {
                &&& final(self).status == TournamentStatus::Finished
                &&& final(self).winner_id is None
                &&& final(self).registrations == old(self).registrations
            },
            old(self).status != TournamentStatus::Finished && old(self).active_count() == 1 ==> {
                let winner = active_ids(old(self).registrations@)[0];
                let reg = old(self).registrations@[winner];
                &&& final(self).status == TournamentStatus::Finished
                &&& final(self).winner_id == Some(winner)
                &&& final(self).registrations@ == old(self).registrations@.insert(
                    winner,
                    PlayerRegistration {
                        finishing_place: if reg.finishing_place is None {
                            Some(1u32)
                        } else {
                            reg.finishing_place
                        },
                        ..reg
                    },
                )
            },
            final(self).id == old(self).id,
            final(self).owner == old(self).owner,
            final(self).config == old(self).config,
            final(self).current_level == old(self).current_level,
            final(self).started_at_ts == old(self).started_at_ts,
            final(self).level_started_at_ts == old(self).level_started_at_ts,
            final(self).break_started_at_ts == old(self).break_started_at_ts,
            final(self).total_entries == old(self).total_entries,
            final(self).finished_count == old(self).finished_count,
            final(self).entries_used == old(self).entries_used,
    {
        broadcast use vstd::std_specs::hash::group_hash_axioms;

        match self.status {
            TournamentStatus::Finished => {
                return ;
            },
            _ => {},
        }
        let ids = self.active_player_ids();
        if ids.len() == 0 {
            self.status = TournamentStatus::Finished;
            self.winner_id = None;
            return ;
        }
        if ids.len() == 1 {
            let winner = ids[0];
            assert(ids@.contains(ids@[0]));
            self.status = TournamentStatus::Finished;
            self.winner_id = Some(winner);
            match self.registrations.get(&winner) {
                Some(reg) => {
                    let mut updated = *reg;
                    if updated.finishing_place.is_none() {
                        updated.finishing_place = Some(1);
                    }
                    self.registrations.insert(winner, updated);
                },
                None => {
                    assert(false);
                },
            }
        }
    }

    /// Marks a player as out and gives the player a place: the number of
    /// entries less the number of players out before. The last player
    /// cannot be marked; with one player left afterwards the tournament is
    /// over and that player has won.
    ///
    /// In a tournament that keeps its order the place lies between 2 and
    /// the number of entries, and the next player out gets the place
    /// below it.
    pub fn mark_player_busted(&mut self, player_id: PlayerId) -> (r: Result<u32, TournamentError>)
        ensures
            old(self).status != TournamentStatus::Running ==> r == Err::<u32, TournamentError>(
                TournamentError::InvalidStatus {
                    expected: TournamentStatus::Running,
                    found: old(self).status,
                },
            ),
            old(self).status == TournamentStatus::Running && old(self).active_count() <= 1 ==> r
                == Err::<u32, TournamentError>(
                TournamentError::CannotBustLastPlayer { tournament_id: old(self).id },
            ),
            old(self).status == TournamentStatus::Running && old(self).active_count() > 1
                && !old(self).registrations@.contains_key(player_id) ==> r == Err::<
                u32,
                TournamentError,
            >(TournamentError::NotRegistered { player_id, tournament_id: old(self).id }),
            old(self).status == TournamentStatus::Running && old(self).active_count() > 1
                && old(self).registrations@.contains_key(player_id)
                && old(self).registrations@[player_id].is_busted ==> r == Err::<
                u32,
                TournamentError,
            >(TournamentError::AlreadyBusted { player_id, tournament_id: old(self).id }),
            old(self).status == TournamentStatus::Running && old(self).active_count() > 1
                && is_active(old(self).registrations@)(player_id) ==> r is Ok,
            r is Err ==> *final(self) == *old(self),
            r matches Ok(place) ==> {
                let entries = if old(self).total_entries == 0 {
                    capped(old(self).active_count() as int)
                } else {
                    old(self).total_entries
                };
                let out = PlayerRegistration {
                    is_busted: true,
                    finishing_place: Some(place),
                    table_id: None,
                    seat_index: None,
                    ..old(self).registrations@[player_id]
                };
                let regs = old(self).registrations@.insert(player_id, out);
                &&& place == if entries >= old(self).finished_count {
                    (entries - old(self).finished_count) as u32
                } else {
                    0
                }
                &&& final(self).total_entries == entries
                &&& final(self).finished_count == capped(old(self).finished_count + 1)
                &&& final(self).active_count() == old(self).active_count() - 1
                &&& if old(self).active_count() == 2 {
                    let winner = active_ids(regs)[0];
                    &&& final(self).status == TournamentStatus::Finished
                    &&& final(self).winner_id == Some(winner)
                    &&& final(self).registrations@ == regs.insert(
                        winner,
                        PlayerRegistration {
                            finishing_place: if regs[winner].finishing_place is None {
                                Some(1u32)
                            } else {
                                regs[winner].finishing_place
                            },
                            ..regs[winner]
                        },
                    )
                } else {
                    &&& final(self).status == TournamentStatus::Running
                    &&& final(self).winner_id == old(self).winner_id
                    &&& final(self).registrations@ == regs
                }
                &&& final(self).id == old(self).id
                &&& final(self).owner == old(self).owner
                &&& final(self).config == old(self).config
                &&& final(self).current_level == old(self).current_level
                &&& final(self).started_at_ts == old(self).started_at_ts
                &&& final(self).level_started_at_ts == old(self).level_started_at_ts
                &&& final(self).break_started_at_ts == old(self).break_started_at_ts
                &&& final(self).entries_used == old(self).entries_used
            },
            r matches Ok(place) ==> (old(self).in_order() ==> {
                &&& final(self).in_order()
                &&& place == old(self).total_entries - old(self).finished_count
                &&& 2 <= place <= final(self).total_entries
                &&& final(self).total_entries - final(self).finished_count == place - 1
            }),
    {
        broadcast use vstd::std_specs::hash::group_hash_axioms;

        match self.status {
            TournamentStatus::Running => {},
            _ => {
                return Err(
                    TournamentError::InvalidStatus {
                        expected: TournamentStatus::Running,
                        found: self.status,
                    },
                );
            },
        }
        let active = self.active_entries();
        if active <= 1 {
            return Err(TournamentError::CannotBustLastPlayer { tournament_id: self.id });
        }
        let reg = match self.registrations.get(&player_id) {
            Some(reg) => *reg,
            None => {
                return Err(
                    TournamentError::NotRegistered { player_id, tournament_id: self.id },
                );
            },
        };
        if reg.is_busted {
            return Err(TournamentError::AlreadyBusted { player_id, tournament_id: self.id });
        }
        if self.total_entries == 0 {
            self.total_entries = active;
        }
        let place = self.total_entries.saturating_sub(self.finished_count);
        let out = PlayerRegistration {
            is_busted: true,
            finishing_place: Some(place),
            table_id: None,
            seat_index: None,
            ..reg
        };
        proof {
            active_count_after_insert(self.registrations@, player_id, out);
        }
        self.registrations.insert(player_id, out);
        self.finished_count = self.finished_count.saturating_add(1);
        let ghost regs = self.registrations@;
        proof {
            active_ids_facts(regs);
        }
        self.check_and_finish_if_needed();
        proof {
            if old(self).active_count() == 2 {
                let winner = active_ids(regs)[0];
                assert(active_ids(regs).contains(winner));
                active_count_after_insert(regs, winner, self.registrations@[winner]);
            }
        }
        Ok(place)
    }
}

/// The size of the tables that players are seated at: the configured
/// size, but two at least.
pub open spec fn seating_size(table_size: u8) -> int {
    if table_size < 2 {
        2
    } else {
        table_size as int
    }
}

/// The registrations after the first `upto` of the listed players were
/// seated: the `i`-th player sits at table `base + i / size`, seat
/// `i % size`.
pub open spec fn seated(
    regs: Map<PlayerId, PlayerRegistration>,
    ids: Seq<PlayerId>,
    size: int,
    base: TableId,
    upto: int,
) -> Map<PlayerId, PlayerRegistration>
    decreases upto,
{
    if upto <= 0 {
        regs
    } else {
        let i = upto - 1;
        seated(regs, ids, size, base, i).insert(
            ids[i],
            PlayerRegistration {
                table_id: Some((base + i / size) as TableId),
                seat_index: Some((i % size) as SeatIndex),
                ..regs[ids[i]]
            },
        )
    }
}

/// The tables that a seating makes: table `k` gets the `k`-th run of
/// `size` players of the list; the last table may get fewer.
pub open spec fn seating_plan(ids: Seq<PlayerId>, size: int, base: TableId) -> Seq<
    (TableId, Seq<PlayerId>),
> {
    Seq::new(
        ((ids.len() + size - 1) / size) as nat,
        |k: int|
            (
                (base + k) as TableId,
                ids.subrange(
                    k * size,
                    if (k + 1) * size < ids.len() {
                        (k + 1) * size
                    } else {
                        ids.len() as int
                    },
                ),
            ),
    )
}

/// A list of tables as mathematical values.
pub open spec fn plan_view(plan: Seq<(TableId, Vec<PlayerId>)>) -> Seq<(TableId, Seq<PlayerId>)> {
    Seq::new(plan.len(), |k: int| (plan[k].0, plan[k].1@))
}

/// The registrations after the first `upto` moves: each move puts its
/// player, if registered, at the new table without a seat.
pub open spec fn moved(
    regs: Map<PlayerId, PlayerRegistration>,
    moves: Seq<RebalanceMove>,
    upto: int,
) -> Map<PlayerId, PlayerRegistration>
    decreases upto,
{
    if upto <= 0 {
        regs
    } else {
        let before = moved(regs, moves, upto - 1);
        let m = moves[upto - 1];
        if before.contains_key(m.player_id) {
            before.insert(
                m.player_id,
                PlayerRegistration {
                    table_id: Some(m.to_table),
                    seat_index: None,
                    ..before[m.player_id]
                },
            )
        } else {
            before
        }
    }
}

impl Tournament {
    /// The whole minutes of play since the start, capped at `u32::MAX`.
    fn minutes_since(started: u64, now_ts: u64) -> (m: u32)
        ensures
            m == elapsed_minutes(started, now_ts),
    {
        let secs = now_ts.saturating_sub(started);
        let minutes = secs / 60;
        if minutes > u32::MAX as u64 {
            u32::MAX
        } else {
            minutes as u32
        }
    }

    /// Moves to the blind level that is due at `now_ts`, if that level
    /// lies ahead. Does nothing before the start.
    pub fn update_level_for_time(&mut self, now_ts: u64) -> (event: TournamentTimeEvent)
        ensures
            final(self).same_but_clock(old(self)),
            match old(self).started_at_ts {
                None => event == TournamentTimeEvent::NoEvent && final(self).clock() == old(self).clock(),
                Some(started) => (event, final(self).clock()) == Self::level_due(
                    old(self).config.blind_structure@,
                    old(self).clock(),
                    elapsed_minutes(started, now_ts),
                    now_ts,
                ),
            },
    {
        let started = match self.started_at_ts {
            Some(ts) => ts,
            None => {
                return TournamentTimeEvent::NoEvent;
            },
        };
        if self.config.blind_structure.levels.len() == 0 {
            return TournamentTimeEvent::NoEvent;
        }
        let minutes = Self::minutes_since(started, now_ts);
        let due = *self.config.blind_structure.level_for_elapsed_minutes(minutes);
        if due.level > self.current_level {
            let from = self.current_level;
            let new_blinds = match self.config.blind_structure.level_by_number(due.level) {
                Some(l) => *l,
                None => due,
            };
            proof {
                let levels = self.config.blind_structure@;
                let i = BlindStructure::index_at(levels, minutes as int, 0);
                assert(levels[i].level == due.level);
            }
            self.current_level = due.level;
            self.level_started_at_ts = Some(now_ts);
            TournamentTimeEvent::LevelAdvanced { from, to: due.level, new_blinds }
        } else {
            TournamentTimeEvent::NoEvent
        }
    }

    /// Lets the clock act at `now_ts`: starts or ends a break, or moves to
    /// the blind level that is due. Returns what happened.
    pub fn apply_time_tick(&mut self, now_ts: u64) -> (event: TournamentTimeEvent)
        ensures
            (event, final(self).clock()) == old(self).tick(now_ts),
            final(self).same_but_clock(old(self)),
            old(self).in_order() ==> final(self).in_order(),
    {
        match self.status {
            TournamentStatus::Finished => {
                return TournamentTimeEvent::NoEvent;
            },
            TournamentStatus::Registering => {
                return TournamentTimeEvent::NoEvent;
            },
            _ => {},
        }
        let started = match self.started_at_ts {
            Some(ts) => ts,
            None => {
                return TournamentTimeEvent::NoEvent;
            },
        };
        let minutes = Self::minutes_since(started, now_ts) as u64;
        let every = self.config.schedule.break_every_minutes as u64;
        let cycle = every + self.config.schedule.break_duration_minutes as u64;
        let in_break = cycle > 0 && minutes % cycle >= every;
        match self.status {
            TournamentStatus::Running => {
                if in_break {
                    self.status = TournamentStatus::OnBreak;
                    self.break_started_at_ts = Some(now_ts);
                    return TournamentTimeEvent::BreakStarted;
                }
                self.update_level_for_time(now_ts)
            },
            _ => {
                if in_break {
                    return TournamentTimeEvent::NoEvent;
                }
                self.status = TournamentStatus::Running;
                self.break_started_at_ts = None;
                let event = self.update_level_for_time(now_ts);
                match event {
                    TournamentTimeEvent::NoEvent => TournamentTimeEvent::BreakEnded,
                    _ => event,
                }
            },
        }
    }

    /// Seats the players who are still in, in rising order of their
    /// identifiers: the first `table_size` at the table `next_table_id`,
    /// the next at the table after it, and so on. Returns the tables with
    /// their players.
    pub fn seat_players_evenly(&mut self, table_size: u8, next_table_id: TableId) -> (plan: Vec<
        (TableId, Vec<PlayerId>),
    >)
        requires
            next_table_id + old(self).active_count() <= u64::MAX,
        ensures
            plan_view(plan@) == seating_plan(
                active_ids(old(self).registrations@),
                seating_size(table_size),
                next_table_id,
            ),
            final(self).registrations@ == seated(
                old(self).registrations@,
                active_ids(old(self).registrations@),
                seating_size(table_size),
                next_table_id,
                old(self).active_count() as int,
            ),
            final(self).same_but_registrations(old(self)),
            old(self).in_order() ==> final(self).in_order(),
    {
        broadcast use vstd::std_specs::hash::group_hash_axioms;

        let ids = self.active_player_ids();
        proof {
            assert forall|i: int| 0 <= i < ids@.len() implies old(self).registrations@.contains_key(
                #[trigger] ids@[i],
            ) by {
                assert(ids@.contains(ids@[i]));
            }
            seated_keeps_players(
                old(self).registrations@,
                ids@,
                seating_size(table_size),
                next_table_id,
                ids@.len() as int,
            );
        }
        let size: usize = if table_size < 2 {
            2
        } else {
            table_size as usize
        };
        let n = ids.len();
        let ghost regs = self.registrations@;
        let ghost want = seating_plan(ids@, size as int, next_table_id);
        let mut plan: Vec<(TableId, Vec<PlayerId>)> = Vec::new();
        let mut i: usize = 0;
        let mut k: usize = 0;
        while i < n
            invariant
                n == ids@.len(),
                n == old(self).active_count(),
                2 <= size <= 255,
                size == seating_size(table_size),
                ids@ == active_ids(regs),
                sorting::strictly_rising(ids@),
                forall|id: PlayerId| ids@.contains(id) <==> is_active(regs)(id),
                regs == old(self).registrations@,
                next_table_id + n <= u64::MAX,
                k <= want.len(),
                i <= n,
                k <= i,
                i == k * size,
                want == seating_plan(ids@, size as int, next_table_id),
                plan@.len() == k,
                forall|j: int| 0 <= j < k ==> plan_view(plan@)[j] == want[j],
                self.registrations@ == seated(regs, ids@, size as int, next_table_id, i as int),
                self.same_but_registrations(old(self)),
            decreases n - i,
        {
            let table_id: TableId = next_table_id + k as u64;
            let mut seated_ids: Vec<PlayerId> = Vec::new();
            let mut seat: usize = 0;
            proof {
                assert((k + 1) * size == k * size + size) by (nonlinear_arith);
            }
            while seat < size && i + seat < n
                invariant
                    n == ids@.len(),
                    2 <= size <= 255,
                    ids@ == active_ids(regs),
                    sorting::strictly_rising(ids@),
                    forall|id: PlayerId| ids@.contains(id) <==> is_active(regs)(id),
                    regs == old(self).registrations@,
                    i < n,
                    i == k * size,
                    (k + 1) * size == i + size,
                    seat <= size,
                    i + seat <= n,
                    table_id == next_table_id + k,
                    seated_ids@ == ids@.subrange(i as int, i + seat),
                    self.registrations@ == seated(
                        regs,
                        ids@,
                        size as int,
                        next_table_id,
                        i + seat,
                    ),
                    self.same_but_registrations(old(self)),
                decreases size - seat,
            {
                let id = ids[i + seat];
                proof {
                    let at = (i + seat) as int;
                    assert(ids@.contains(ids@[at]));
                    vstd::arithmetic::div_mod::lemma_fundamental_div_mod_converse(
                        at,
                        size as int,
                        k as int,
                        seat as int,
                    );
                    assert(at / (size as int) == k && at % (size as int) == seat);
                    crate::domain::tournament::seated_keeps_others(
                        regs,
                        ids@,
                        size as int,
                        next_table_id,
                        at,
                        id,
                    );
                }
                match self.registrations.get(&id) {
                    Some(reg) => {
                        let placed = PlayerRegistration {
                            table_id: Some(table_id),
                            seat_index: Some(seat as SeatIndex),
                            ..*reg
                        };
                        self.registrations.insert(id, placed);
                    },
                    None => {
                        assert(false);
                    },
                }
                seated_ids.push(id);
                assert(seated_ids@ =~= ids@.subrange(i as int, i + seat + 1));
                seat += 1;
            }
            proof {
                let upper = if (k + 1) * size < n {
                    ((k + 1) * size) as int
                } else {
                    n as int
                };
                assert(i + seat == upper);
                assert(k < want.len()) by {
                    assert((n + size - 1) / (size as int) > k) by (nonlinear_arith)
                        requires
                            k * size < n,
                            size >= 2,
                    ;
                }
                assert(want[k as int] == (table_id, ids@.subrange(i as int, upper)));
            }
            let ghost before = plan@;
            plan.push((table_id, seated_ids));
            proof {
                assert forall|j: int| 0 <= j < k + 1 implies plan_view(plan@)[j] == want[j] by {
                    if j < k {
                        assert(plan_view(before)[j] == want[j]);
                    }
                }
                assert(i + seat == n || i + seat == (k + 1) * size);
            }
            if i + seat == n && seat < size {
                proof {
                    assert(want.len() == k + 1) by {
                        assert((n + size - 1) / (size as int) == k + 1) by (nonlinear_arith)
                            requires
                                n == k * size + seat,
                                0 < seat < size,
                        ;
                    }
                    assert(plan_view(plan@) =~= want);
                    if old(self).in_order() {
                        assert forall|i: int| 0 <= i < ids@.len() implies regs.contains_key(
                            #[trigger] ids@[i],
                        ) by {
                            assert(ids@.contains(ids@[i]));
                        }
                        seated_keeps_players(regs, ids@, size as int, next_table_id, n as int);
                        old(self).order_ignores_seats(self);
                    }
                }
                return plan;
            }
            i = i + seat;
            k += 1;
        }
        proof {
            assert(want.len() == k) by {
                assert((n + size - 1) / (size as int) == k) by (nonlinear_arith)
                    requires
                        n == k * size,
                        size >= 2,
                ;
            }
            assert(plan_view(plan@) =~= want);
            if old(self).in_order() {
                old(self).order_ignores_seats(self);
            }
        }
        plan
    }

    /// Applies moves in order: each moved player sits at the new table and
    /// has no seat yet. A move of an unknown player changes nothing.
    pub fn apply_rebalance_moves(&mut self, moves: &[RebalanceMove])
        ensures
            final(self).registrations@ == moved(
                old(self).registrations@,
                moves@,
                moves@.len() as int,
            ),
            final(self).same_but_registrations(old(self)),
            old(self).in_order() ==> final(self).in_order(),
    {
        broadcast use vstd::std_specs::hash::group_hash_axioms;

        proof {
            moved_keeps_players(old(self).registrations@, moves@, moves@.len() as int);
        }
        let mut i: usize = 0;
        while i < moves.len()
            invariant
                i <= moves@.len(),
                self.registrations@ == moved(old(self).registrations@, moves@, i as int),
                self.same_but_registrations(old(self)),
            decreases moves@.len() - i,
        {
            let m = moves[i];
            match self.registrations.get(&m.player_id) {
                Some(reg) => {
                    let placed = PlayerRegistration {
                        table_id: Some(m.to_table),
                        seat_index: None,
                        ..*reg
                    };
                    self.registrations.insert(m.player_id, placed);
                },
                None => {},
            }
            i += 1;
        }
        proof {
            if old(self).in_order() {
                old(self).order_ignores_seats(self);
            }
        }
    }
}

/// Seating players leaves the registration of a player who is not yet
/// seated as it was.
pub proof fn seated_keeps_others(
    regs: Map<PlayerId, PlayerRegistration>,
    ids: Seq<PlayerId>,
    size: int,
    base: TableId,
    upto: int,
    id: PlayerId,
)
    requires
        0 <= upto <= ids.len(),
        ids.no_duplicates() || sorting::strictly_rising(ids),
        forall|j: int| 0 <= j < upto ==> ids[j] != id,
    ensures
        seated(regs, ids, size, base, upto).contains_key(id) == regs.contains_key(id),
        regs.contains_key(id) ==> seated(regs, ids, size, base, upto)[id] == regs[id],
    decreases upto,
{
    if upto > 0 {
        seated_keeps_others(regs, ids, size, base, upto - 1, id);
    }
}

/// The tables at which a player who is still in sits.
pub open spec fn tables_in_use(regs: Map<PlayerId, PlayerRegistration>) -> Set<TableId> {
    Set::new(
        |t: TableId|
            exists|id: PlayerId| #[trigger] is_active(regs)(id) && regs[id].table_id == Some(t),
    )
}

/// The test of a player: registered at table `t`.
pub open spec fn sits_at(regs: Map<PlayerId, PlayerRegistration>, t: TableId) -> spec_fn(
    PlayerId,
) -> bool {
    |id: PlayerId| regs.contains_key(id) && regs[id].table_id == Some(t)
}

/// The tables in use in rising order of their identifiers, each with the
/// players who are still in and sit at it, in rising order.
pub open spec fn occupancy(regs: Map<PlayerId, PlayerRegistration>) -> Seq<
    (TableId, Seq<PlayerId>),
> {
    let tables = sorting::rising_of(tables_in_use(regs));
    Seq::new(tables.len(), |k: int| (tables[k], active_ids(regs).filter(sits_at(regs, tables[k]))))
}

impl Tournament {
    /// The moves that balance the tables of the tournament; none where
    /// balancing is off or one table at most is in use.
    pub open spec fn rebalance_moves(&self) -> Seq<RebalanceMove> {
        if !self.config.balancing.enabled || occupancy(self.registrations@).len() <= 1 {
            Seq::empty()
        } else {
            crate::tournament::rebalance::balancing_moves(
                occupancy(self.registrations@),
                self.config.balancing.max_seat_diff,
            )
        }
    }

    /// The tables in use with their players.
    fn occupancy_list(&self) -> (list: Vec<crate::tournament::rebalance::TableOccupancy>)
        ensures
            crate::tournament::rebalance::seating_of(list@) == occupancy(self.registrations@),
    {
        broadcast use vstd::std_specs::hash::group_hash_axioms;

        let ids = self.active_player_ids();
        let ghost regs = self.registrations@;
        let mut used: Vec<TableId> = Vec::new();
        let mut i: usize = 0;
        while i < ids.len()
            invariant
                i <= ids@.len(),
                regs == self.registrations@,
                forall|id: PlayerId| ids@.contains(id) <==> is_active(regs)(id),
                forall|t: TableId|
                    used@.contains(t) <==> exists|j: int|
                        0 <= j < i && regs[#[trigger] ids@[j]].table_id == Some(t),
            decreases ids@.len() - i,
        {
            let id = ids[i];
            assert(ids@.contains(ids@[i as int]));
            let ghost before = used@;
            let at = match self.registrations.get(&id) {
                Some(reg) => reg.table_id,
                None => None,
            };
            match at {
                Some(t) => {
                    used.push(t);
                    assert(used@[used@.len() - 1] == t);
                },
                None => {},
            }
            proof {
                assert forall|t: TableId| used@.contains(t) <==> exists|j: int|
                    0 <= j < i + 1 && regs[#[trigger] ids@[j]].table_id == Some(t) by {
                    if used@.contains(t) {
                        let k = choose|k: int| 0 <= k < used@.len() && used@[k] == t;
                        if k < before.len() {
                            assert(before[k] == t);
                            assert(before.contains(t));
                            let j = choose|j: int|
                                0 <= j < i && regs[#[trigger] ids@[j]].table_id == Some(t);
                            assert(0 <= j < i + 1 && regs[ids@[j]].table_id == Some(t));
                        } else {
                            assert(regs[ids@[i as int]].table_id == Some(t));
                        }
                    }
                    if exists|j: int|
                        0 <= j < i + 1 && regs[#[trigger] ids@[j]].table_id == Some(t) {
                        let j = choose|j: int|
                            0 <= j < i + 1 && regs[#[trigger] ids@[j]].table_id == Some(t);
                        if j < i {
                            assert(before.contains(t));
                            let k = choose|k: int| 0 <= k < before.len() && before[k] == t;
                            assert(used@[k] == t);
                        }
                    }
                }
            }
            i += 1;
        }
        proof {
            assert forall|t: TableId| used@.to_set().contains(t) == tables_in_use(regs).contains(
                t,
            ) by {
                if used@.contains(t) {
                    let j = choose|j: int|
                        0 <= j < ids@.len() && regs[#[trigger] ids@[j]].table_id == Some(t);
                    assert(ids@.contains(ids@[j]));
                    assert(is_active(regs)(ids@[j]));
                }
                if tables_in_use(regs).contains(t) {
                    let id = choose|id: PlayerId| #[trigger]
                        is_active(regs)(id) && regs[id].table_id == Some(t);
                    assert(ids@.contains(id));
                    let j = choose|j: int| 0 <= j < ids@.len() && ids@[j] == id;
                    assert(regs[ids@[j]].table_id == Some(t));
                }
            }
            assert(used@.to_set() =~= tables_in_use(regs));
        }
        let tables = sorting::dedup_sorted(sorting::sort_ids(used));
        let mut list: Vec<crate::tournament::rebalance::TableOccupancy> = Vec::new();
        let mut k: usize = 0;
        while k < tables.len()
            invariant
                k <= tables@.len(),
                regs == self.registrations@,
                tables@ == sorting::rising_of(tables_in_use(regs)),
                ids@ == active_ids(regs),
                forall|id: PlayerId| ids@.contains(id) <==> is_active(regs)(id),
                list@.len() == k,
                forall|j: int|
                    0 <= j < k ==> (#[trigger] list@[j]).table_id == tables@[j]
                        && list@[j].players@ == ids@.filter(sits_at(regs, tables@[j])),
            decreases tables@.len() - k,
        {
            let t = tables[k];
            let ghost pred = sits_at(regs, t);
            let mut players: Vec<PlayerId> = Vec::new();
            let mut i: usize = 0;
            while i < ids.len()
                invariant
                    i <= ids@.len(),
                    regs == self.registrations@,
                    pred == sits_at(regs, t),
                    forall|id: PlayerId| ids@.contains(id) <==> is_active(regs)(id),
                    players@ == ids@.take(i as int).filter(pred),
                decreases ids@.len() - i,
            {
                proof {
                    crate::seq_util::filter_step(ids@, pred, i as int);
                    assert(ids@.contains(ids@[i as int]));
                }
                let id = ids[i];
                let here = match self.registrations.get(&id) {
                    Some(reg) => match reg.table_id {
                        Some(at) => at == t,
                        None => false,
                    },
                    None => false,
                };
                if here {
                    players.push(id);
                }
                i += 1;
            }
            proof {
                crate::seq_util::take_all(ids@);
            }
            list.push(crate::tournament::rebalance::TableOccupancy { table_id: t, players });
            k += 1;
        }
        proof {
            assert(crate::tournament::rebalance::seating_of(list@) =~= occupancy(regs));
        }
        list
    }

    /// Works out the moves that balance the tables: players move from the
    /// fullest table to the emptiest until the tables differ by no more
    /// than the configuration allows. Nothing is changed.
    pub fn compute_rebalance_moves(&self) -> (moves: Vec<RebalanceMove>)
        ensures
            moves@ == self.rebalance_moves(),
    {
        if !self.config.balancing.enabled {
            return Vec::new();
        }
        let mut list = self.occupancy_list();
        if list.len() <= 1 {
            return Vec::new();
        }
        crate::tournament::rebalance::rebalance_tables(
            &mut list,
            self.config.balancing.max_seat_diff,
        )
    }
}

/// Registrations that differ in tables and seats alone have the same
/// players still in.
pub proof fn active_ids_ignore_seats(
    a: Map<PlayerId, PlayerRegistration>,
    b: Map<PlayerId, PlayerRegistration>,
)
    requires
        a.dom() == b.dom(),
        forall|id: PlayerId| #[trigger] a.contains_key(id) ==> a[id].is_busted == b[id].is_busted,
    ensures
        active_ids(a) == active_ids(b),
{
    let keys = sorting::rising_keys(a);
    assert(sorting::rising_keys(b) == keys);
    assert forall|i: int| 0 <= i < keys.len() implies is_active(a)(#[trigger] keys[i])
        == is_active(b)(keys[i]) by {
        let id = keys[i];
        assert(a.contains_key(id) == b.contains_key(id)) by {
            assert(a.dom().contains(id) == b.dom().contains(id));
        }
    }
    crate::seq_util::filter_agrees(keys, is_active(a), is_active(b));
}

/// Seating changes tables and seats alone.
pub proof fn seated_keeps_players(
    regs: Map<PlayerId, PlayerRegistration>,
    ids: Seq<PlayerId>,
    size: int,
    base: TableId,
    upto: int,
)
    requires
        0 <= upto <= ids.len(),
        forall|i: int| 0 <= i < ids.len() ==> regs.contains_key(#[trigger] ids[i]),
    ensures
        seated(regs, ids, size, base, upto).dom() == regs.dom(),
        forall|id: PlayerId| #[trigger]
            regs.contains_key(id) ==> seated(regs, ids, size, base, upto)[id] == (
            PlayerRegistration {
                table_id: seated(regs, ids, size, base, upto)[id].table_id,
                seat_index: seated(regs, ids, size, base, upto)[id].seat_index,
                ..regs[id]
            }),
    decreases upto,
{
    if upto > 0 {
        seated_keeps_players(regs, ids, size, base, upto - 1);
        let before = seated(regs, ids, size, base, upto - 1);
        assert(regs.contains_key(ids[upto - 1]));
        assert(seated(regs, ids, size, base, upto).dom() =~= regs.dom());
    }
}

/// Moving players changes tables and seats alone.
pub proof fn moved_keeps_players(
    regs: Map<PlayerId, PlayerRegistration>,
    moves: Seq<RebalanceMove>,
    upto: int,
)
    requires
        0 <= upto <= moves.len(),
    ensures
        moved(regs, moves, upto).dom() == regs.dom(),
        forall|id: PlayerId| #[trigger]
            regs.contains_key(id) ==> moved(regs, moves, upto)[id] == (PlayerRegistration {
                table_id: moved(regs, moves, upto)[id].table_id,
                seat_index: moved(regs, moves, upto)[id].seat_index,
                ..regs[id]
            }),
    decreases upto,
{
    if upto > 0 {
        moved_keeps_players(regs, moves, upto - 1);
        let before = moved(regs, moves, upto - 1);
        assert(moved(regs, moves, upto).dom() =~= regs.dom());
    }
}

impl Tournament {
    /// A tournament with the same registered players, each in or out as
    /// before and with the place as before, is in order if this one is.
    pub proof fn order_ignores_seats(&self, other: &Tournament)
        requires
            self.in_order(),
            other.same_but_registrations(self),
            other.registrations@.dom() == self.registrations@.dom(),
            forall|id: PlayerId| #[trigger]
                self.registrations@.contains_key(id) ==> other.registrations@[id] == (
                PlayerRegistration {
                    table_id: other.registrations@[id].table_id,
                    seat_index: other.registrations@[id].seat_index,
                    ..self.registrations@[id]
                }),
        ensures
            other.in_order(),
    {
        active_ids_ignore_seats(self.registrations@, other.registrations@);
        assert forall|id: PlayerId| #[trigger]
            other.registrations@.contains_key(id) implies self.registrations@.contains_key(
            id,
        ) by {
            assert(other.registrations@.dom().contains(id));
        }
    }

    /// A tick of the clock at a time that was already ticked, or at
    /// another time within the same minute since the start, brings
    /// nothing about and changes nothing.
    pub proof fn tick_again_is_idle(&self, after: &Tournament, now_ts: u64, again_ts: u64)
        requires
            after.clock() == self.tick(now_ts).1,
            after.same_but_clock(self),
            self.started_at_ts matches Some(started) ==> elapsed_minutes(started, again_ts)
                == elapsed_minutes(started, now_ts),
        ensures
            after.tick(again_ts) == (TournamentTimeEvent::NoEvent, after.clock()),
    {
    }
}

impl TournamentStatus {
    /// The name of the status.
    pub open spec fn name(self) -> Seq<char> {
        match self {
            TournamentStatus::Registering => "Registering"@,
            TournamentStatus::Running => "Running"@,
            TournamentStatus::OnBreak => "OnBreak"@,
            TournamentStatus::Finished => "Finished"@,
        }
    }

    /// The name of the status as a string.
    pub fn as_str(&self) -> (s: &'static str)
        ensures
            s@ == self.name(),
    {
        match self {
            TournamentStatus::Registering => "Registering",
            TournamentStatus::Running => "Running",
            TournamentStatus::OnBreak => "OnBreak",
            TournamentStatus::Finished => "Finished",
        }
    }
}

impl TournamentError {
    /// The message of the error.
    pub open spec fn message(self) -> Seq<char> {
        match self {
            TournamentError::TournamentNotFound { tournament_id } => "Tournament not found: id="@
                + crate::text::decimal_digits(tournament_id),
            TournamentError::TournamentFull { tournament_id } => "Tournament is full: id="@
                + crate::text::decimal_digits(tournament_id),
            TournamentError::AlreadyRegistered { player_id, tournament_id } => "Player "@
                + crate::text::decimal_digits(player_id) + " is already registered in tournament "@
                + crate::text::decimal_digits(tournament_id),
            TournamentError::NotRegistered { player_id, tournament_id } => "Player "@
                + crate::text::decimal_digits(player_id) + " is not registered in tournament "@
                + crate::text::decimal_digits(tournament_id),
            TournamentError::AlreadyBusted { player_id, tournament_id } => "Player "@
                + crate::text::decimal_digits(player_id) + " is already busted in tournament "@
                + crate::text::decimal_digits(tournament_id),
            TournamentError::CannotBustLastPlayer { tournament_id } =>
                "Cannot bust last remaining player in tournament "@ + crate::text::decimal_digits(
                tournament_id,
            ),
            TournamentError::InvalidStatus { expected, found } =>
                "Invalid tournament status, expected "@ + expected.name() + ", found "@
                + found.name(),
            TournamentError::InvalidStatusForStart { status } =>
                "Invalid tournament status for start: "@ + status.name(),
            TournamentError::InvalidConfig(reason) => "Invalid tournament config: "@ + reason@,
        }
    }

    /// The message of the error as a string.
    pub fn to_string(&self) -> (s: String)
        ensures
            s@ == self.message(),
    {
        match self {
            TournamentError::TournamentNotFound { tournament_id } => {
                let mut s = String::from_str("Tournament not found: id=");
                let digits = crate::text::decimal(*tournament_id);
                s.append(digits.as_str());
                s
            },
            TournamentError::TournamentFull { tournament_id } => {
                let mut s = String::from_str("Tournament is full: id=");
                let digits = crate::text::decimal(*tournament_id);
                s.append(digits.as_str());
                s
            },
            TournamentError::AlreadyRegistered { player_id, tournament_id } => {
                let mut s = String::from_str("Player ");
                let player = crate::text::decimal(*player_id);
                s.append(player.as_str());
                s.append(" is already registered in tournament ");
                let tournament = crate::text::decimal(*tournament_id);
                s.append(tournament.as_str());
                s
            },
            TournamentError::NotRegistered { player_id, tournament_id } => {
                let mut s = String::from_str("Player ");
                let player = crate::text::decimal(*player_id);
                s.append(player.as_str());
                s.append(" is not registered in tournament ");
                let tournament = crate::text::decimal(*tournament_id);
                s.append(tournament.as_str());
                s
            },
            TournamentError::AlreadyBusted { player_id, tournament_id } => {
                let mut s = String::from_str("Player ");
                let player = crate::text::decimal(*player_id);
                s.append(player.as_str());
                s.append(" is already busted in tournament ");
                let tournament = crate::text::decimal(*tournament_id);
                s.append(tournament.as_str());
                s
            },
            TournamentError::CannotBustLastPlayer { tournament_id } => {
                let mut s = String::from_str("Cannot bust last remaining player in tournament ");
                let digits = crate::text::decimal(*tournament_id);
                s.append(digits.as_str());
                s
            },
            TournamentError::InvalidStatus { expected, found } => {
                let mut s = String::from_str("Invalid tournament status, expected ");
                s.append(expected.as_str());
                s.append(", found ");
                s.append(found.as_str());
                s
            },
            TournamentError::InvalidStatusForStart { status } => {
                let mut s = String::from_str("Invalid tournament status for start: ");
                s.append(status.as_str());
                s
            },
            TournamentError::InvalidConfig(reason) => {
                let mut s = String::from_str("Invalid tournament config: ");
                s.append(reason.as_str());
                s
            },
        }
    }
}

} // verus!
