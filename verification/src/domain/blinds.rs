//! Blind levels and the blind structure of a tournament.

use crate::domain::chips::Chips;
use crate::text::decimal;
use vstd::prelude::*;
use vstd::string::StringExecFns;

verus! {

/// Who pays the ante.
#[derive(Clone, Copy, Debug, PartialEq, Eq, Structural)]
pub enum AnteType {
    /// Nobody.
    NoAnte,
    /// Every player in the hand.
    Classic,
    /// The big blind alone.
    BigBlind,
}

/// One level of the blinds.
#[derive(Clone, Copy, Debug, PartialEq, Eq, Structural)]
pub struct BlindLevel {
    /// The number of the level, from 1.
    pub level: u32,
    pub small_blind: Chips,
    pub big_blind: Chips,
    /// The ante in chips; zero where there is none.
    pub ante: Chips,
    pub ante_type: AnteType,
    /// How long the level lasts, in minutes.
    pub duration_minutes: u32,
}

impl BlindLevel {
    /// Both blinds are positive, the big blind exceeds the small one, and
    /// the level lasts some time.
    pub open spec fn is_valid(self) -> bool {
        &&& self.small_blind.0 > 0
        &&& self.big_blind.0 > self.small_blind.0
        &&& self.duration_minutes > 0
    }

    /// The words that open every complaint about this level.
    pub open spec fn label(self) -> Seq<char> {
        "BlindLevel "@ + crate::text::decimal_digits(self.level as u64)
    }

    /// The complaint about the first rule that the level breaks.
    pub open spec fn complaint(self) -> Seq<char> {
        if self.small_blind.0 == 0 {
            self.label() + ": small_blind = 0"@
        } else if self.big_blind.0 == 0 {
            self.label() + ": big_blind = 0"@
        } else if self.big_blind.0 <= self.small_blind.0 {
            self.label() + ": big_blind ("@ + crate::text::decimal_digits(self.big_blind.0)
                + ") <= small_blind ("@ + crate::text::decimal_digits(self.small_blind.0) + ")"@
        } else {
            self.label() + ": duration_minutes = 0"@
        }
    }

    pub fn new(
        level: u32,
        small_blind: Chips,
        big_blind: Chips,
        ante: Chips,
        ante_type: AnteType,
        duration_minutes: u32,
    ) -> (l: BlindLevel)
        ensures
            l == (BlindLevel { level, small_blind, big_blind, ante, ante_type, duration_minutes }),
    {
        BlindLevel { level, small_blind, big_blind, ante, ante_type, duration_minutes }
    }

    fn label_text(&self) -> (s: String)
        ensures
            s@ == self.label(),
    {
        let mut s = String::from_str("BlindLevel ");
        let digits = decimal(self.level as u64);
        s.append(digits.as_str());
        s
    }

    /// Checks the level. `Ok` exactly when it is valid; otherwise the
    /// complaint about the first broken rule.
    pub fn validate(&self) -> (r: Result<(), String>)
        ensures
            self.is_valid() <==> r is Ok,
            r matches Err(msg) ==> msg@ == self.complaint(),
    {
        if self.small_blind.0 == 0 {
            let mut s = self.label_text();
            s.append(": small_blind = 0");
            return Err(s);
        }
        if self.big_blind.0 == 0 {
            let mut s = self.label_text();
            s.append(": big_blind = 0");
            return Err(s);
        }
        if self.big_blind.0 <= self.small_blind.0 {
            let mut s = self.label_text();
            s.append(": big_blind (");
            let big = decimal(self.big_blind.0);
            s.append(big.as_str());
            s.append(") <= small_blind (");
            let small = decimal(self.small_blind.0);
            s.append(small.as_str());
            s.append(")");
            return Err(s);
        }
        if self.duration_minutes == 0 {
            let mut s = self.label_text();
            s.append(": duration_minutes = 0");
            return Err(s);
        }
        Ok(())
    }
}

/// The levels of a tournament, in the order in which they are played.
#[derive(Debug, PartialEq, Eq)]
pub struct BlindStructure {
    pub levels: Vec<BlindLevel>,
}

impl View for BlindStructure {
    type V = Seq<BlindLevel>;

    open spec fn view(&self) -> Seq<BlindLevel> {
        self.levels@
    }
}

impl Clone for BlindStructure {
    fn clone(&self) -> (s: BlindStructure)
        ensures
            s@ == self@,
    {
        BlindStructure { levels: self.levels.clone() }
    }
}

impl BlindStructure {
    /// The first `n` levels are valid and numbered 1, 2, 3, ...
    pub open spec fn valid_prefix(levels: Seq<BlindLevel>, n: int) -> bool {
        forall|i: int| 0 <= i < n ==> (#[trigger] levels[i]).is_valid() && levels[i].level == i + 1
    }

    /// A structure is valid when it has a level, every level is valid, and
    /// the levels are numbered from 1 without a gap.
    pub open spec fn is_valid(levels: Seq<BlindLevel>) -> bool {
        levels.len() > 0 && Self::valid_prefix(levels, levels.len() as int)
    }

    /// The index of the first level that is invalid or misnumbered.
    pub open spec fn first_fault(levels: Seq<BlindLevel>) -> int {
        choose|i: int|
            0 <= i < levels.len() && Self::valid_prefix(levels, i) && !(levels[i].is_valid()
                && levels[i].level == i + 1)
    }

    /// The complaint about an invalid structure.
    pub open spec fn complaint(levels: Seq<BlindLevel>) -> Seq<char> {
        if levels.len() == 0 {
            "BlindStructure: empty levels"@
        } else {
            let i = Self::first_fault(levels);
            if !levels[i].is_valid() {
                levels[i].complaint()
            } else {
                "BlindStructure: expected level "@ + crate::text::decimal_digits((i + 1) as u64)
                    + ", got "@ + crate::text::decimal_digits(levels[i].level as u64)
            }
        }
    }

    /// The level with a given number, if the structure has one: the first
    /// of them in order.
    pub open spec fn find(levels: Seq<BlindLevel>, number: u32) -> Option<BlindLevel> {
        if exists|i: int| 0 <= i < levels.len() && levels[i].level == number {
            let i = choose|i: int|
                0 <= i < levels.len() && levels[i].level == number && forall|j: int|
                    0 <= j < i ==> levels[j].level != number;
            Some(levels[i])
        } else {
            None
        }
    }

    /// The minutes that the first `n` levels last together.
    pub open spec fn minutes_before(levels: Seq<BlindLevel>, n: int) -> int
        decreases n,
    {
        if n <= 0 {
            0
        } else {
            Self::minutes_before(levels, n - 1) + levels[n - 1].duration_minutes
        }
    }

    /// The index of the level that is played after `elapsed` minutes: the
    /// first level whose end lies beyond them, the last level for ever after.
    pub open spec fn index_at(levels: Seq<BlindLevel>, elapsed: int, from: int) -> int
        decreases levels.len() - from,
    {
        if from >= levels.len() - 1 {
            levels.len() - 1
        } else if elapsed < Self::minutes_before(levels, from + 1) {
            from
        } else {
            Self::index_at(levels, elapsed, from + 1)
        }
    }

    pub fn new(levels: Vec<BlindLevel>) -> (s: BlindStructure)
        ensures
            s.levels == levels,
    {
        BlindStructure { levels }
    }

    /// Checks the structure. `Ok` exactly when it is valid; otherwise the
    /// complaint about the first level at fault.
    pub fn validate(&self) -> (r: Result<(), String>)
        ensures
            Self::is_valid(self@) <==> r is Ok,
            r matches Err(msg) ==> msg@ == Self::complaint(self@),
    {
        if self.levels.len() == 0 {
            return Err(String::from_str("BlindStructure: empty levels"));
        }
        let mut i: usize = 0;
        while i < self.levels.len()
            invariant
                i <= self.levels@.len(),
                self.levels@.len() > 0,
                Self::valid_prefix(self@, i as int),
            decreases self.levels@.len() - i,
        {
            let lvl = &self.levels[i];
            let ghost fault = Self::first_fault(self@);
            match lvl.validate() {
                Ok(()) => {},
                Err(msg) => {
                    proof {
                        Self::first_fault_is(self@, i as int);
                    }
                    return Err(msg);
                },
            }
            if i >= u32::MAX as usize || lvl.level != (i as u32) + 1 {
                proof {
                    Self::first_fault_is(self@, i as int);
                }
                let mut s = String::from_str("BlindStructure: expected level ");
                let expected = decimal(i as u64 + 1);
                s.append(expected.as_str());
                s.append(", got ");
                let got = decimal(lvl.level as u64);
                s.append(got.as_str());
                return Err(s);
            }
            i += 1;
        }
        Ok(())
    }

    /// Once the levels before `i` are in order and level `i` is not, `i`
    /// is the first fault.
    proof fn first_fault_is(levels: Seq<BlindLevel>, i: int)
        requires
            0 <= i < levels.len(),
            Self::valid_prefix(levels, i),
            !(levels[i].is_valid() && levels[i].level == i + 1),
        ensures
            Self::first_fault(levels) == i,
            !Self::is_valid(levels),
    {
        let f = Self::first_fault(levels);
        assert(0 <= f < levels.len() && Self::valid_prefix(levels, f) && !(levels[f].is_valid()
            && levels[f].level == f + 1));
        if f < i {
            assert(levels[f].is_valid() && levels[f].level == f + 1);
        }
        if i < f {
            assert(levels[i].is_valid() && levels[i].level == i + 1);
        }
    }

    /// The first level.
    pub fn first_level(&self) -> (l: &BlindLevel)
        requires
            self@.len() > 0,
        ensures
            *l == self@[0],
    {
        &self.levels[0]
    }

    /// The level with a given number, if there is one.
    pub fn level_by_number(&self, number: u32) -> (l: Option<&BlindLevel>)
        ensures
            match l {
                Some(found) => Self::find(self@, number) == Some(*found),
                None => Self::find(self@, number) is None,
            },
            Self::is_valid(self@) ==> (l is Some <==> 1 <= number <= self@.len()),
            Self::is_valid(self@) && l is Some ==> *l.unwrap() == self@[number - 1],
    {
        let mut i: usize = 0;
        while i < self.levels.len()
            invariant
                i <= self.levels@.len(),
                forall|j: int| 0 <= j < i ==> self.levels@[j].level != number,
            decreases self.levels@.len() - i,
        {
            if self.levels[i].level == number {
                proof {
                    let c = choose|c: int|
                        0 <= c < self@.len() && self@[c].level == number && forall|j: int|
                            0 <= j < c ==> self@[j].level != number;
                    assert(0 <= i < self@.len() && self@[i as int].level == number);
                    assert(c == i) by {
                        if c < i {
                        } else if i < c {
                        }
                    }
                    if Self::is_valid(self@) {
                        assert(self@[i as int].is_valid());
                    }
                }
                return Some(&self.levels[i]);
            }
            i += 1;
        }
        proof {
            if Self::is_valid(self@) && 1 <= number <= self@.len() {
                assert(self@[number - 1].is_valid());
            }
        }
        None
    }

    /// The minutes that all the levels last together, capped at `u32::MAX`.
    pub fn total_duration_minutes(&self) -> (m: u32)
        ensures
            m == if Self::minutes_before(self@, self@.len() as int) > u32::MAX {
                u32::MAX as int
            } else {
                Self::minutes_before(self@, self@.len() as int)
            },
    {
        let mut acc: u32 = 0;
        let mut i: usize = 0;
        while i < self.levels.len()
            invariant
                i <= self.levels@.len(),
                acc == if Self::minutes_before(self@, i as int) > u32::MAX {
                    u32::MAX as int
                } else {
                    Self::minutes_before(self@, i as int)
                },
            decreases self.levels@.len() - i,
        {
            proof {
                Self::minutes_before_grows(self@, i as int);
            }
            acc = acc.saturating_add(self.levels[i].duration_minutes);
            i += 1;
        }
        acc
    }

    /// The sum of durations never shrinks as levels are added.
    pub proof fn minutes_before_grows(levels: Seq<BlindLevel>, n: int)
        requires
            0 <= n,
        ensures
            Self::minutes_before(levels, n) >= 0,
            Self::minutes_before(levels, n + 1) == Self::minutes_before(levels, n)
                + levels[n].duration_minutes,
            Self::minutes_before(levels, n + 1) >= Self::minutes_before(levels, n),
        decreases n,
    {
        if n > 0 {
            Self::minutes_before_grows(levels, n - 1);
        }
    }

    /// The level that is played once `elapsed_minutes` of play have passed
    /// since the start. Past the end of the last level, the last level stays.
    pub fn level_for_elapsed_minutes(&self, elapsed_minutes: u32) -> (l: &BlindLevel)
        requires
            self@.len() > 0,
        ensures
            *l == self@[Self::index_at(self@, elapsed_minutes as int, 0)],
            0 <= Self::index_at(self@, elapsed_minutes as int, 0) < self@.len(),
    {
        let mut acc: u64 = 0;
        let mut i: usize = 0;
        let last = self.levels.len() - 1;
        while i < last
            invariant
                i <= last,
                last == self@.len() - 1,
                acc == if Self::minutes_before(self@, i as int) > u64::MAX {
                    u64::MAX as int
                } else {
                    Self::minutes_before(self@, i as int)
                },
                Self::index_at(self@, elapsed_minutes as int, 0) == Self::index_at(
                    self@,
                    elapsed_minutes as int,
                    i as int,
                ),
            decreases last - i,
        {
            proof {
                Self::minutes_before_grows(self@, i as int);
            }
            acc = acc.saturating_add(self.levels[i].duration_minutes as u64);
            if (elapsed_minutes as u64) < acc {
                return &self.levels[i];
            }
            i += 1;
        }
        &self.levels[last]
    }

    /// A small three-level structure for demonstrations.
    pub fn simple_demo_structure() -> (s: BlindStructure)
        ensures
            s@ == seq![
                BlindLevel {
                    level: 1,
                    small_blind: Chips(25),
                    big_blind: Chips(50),
                    ante: Chips(0),
                    ante_type: AnteType::NoAnte,
                    duration_minutes: 10,
                },
                BlindLevel {
                    level: 2,
                    small_blind: Chips(50),
                    big_blind: Chips(100),
                    ante: Chips(0),
                    ante_type: AnteType::NoAnte,
                    duration_minutes: 10,
                },
                BlindLevel {
                    level: 3,
                    small_blind: Chips(75),
                    big_blind: Chips(150),
                    ante: Chips(25),
                    ante_type: AnteType::BigBlind,
                    duration_minutes: 10,
                },
            ],
            Self::is_valid(s@),
    {
        let mut levels: Vec<BlindLevel> = Vec::new();
        levels.push(BlindLevel::new(1, Chips(25), Chips(50), Chips(0), AnteType::NoAnte, 10));
        levels.push(BlindLevel::new(2, Chips(50), Chips(100), Chips(0), AnteType::NoAnte, 10));
        levels.push(BlindLevel::new(3, Chips(75), Chips(150), Chips(25), AnteType::BigBlind, 10));
        BlindStructure { levels }
    }
}

} // verus!
