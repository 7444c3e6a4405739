//! Chip amounts with saturating arithmetic.

use core::ops::{Add, Sub};
use vstd::prelude::*;
use vstd::std_specs::ops::{AddSpecImpl, SubSpecImpl};

verus! {

/// A non-negative number of chips. Distinct from plain numbers so that
/// amounts are never confused with seat indices or identifiers.
#[derive(Clone, Copy, Debug, PartialEq, Eq, Structural, PartialOrd, Ord, Hash)]
pub struct Chips(pub u64);

impl Chips {
    /// The sum of two amounts, capped at `u64::MAX`.
    pub open spec fn sat_add(a: Chips, b: Chips) -> Chips {
        if a.0 + b.0 > u64::MAX {
            Chips(u64::MAX)
        } else {
            Chips((a.0 + b.0) as u64)
        }
    }

    /// The difference of two amounts, floored at zero.
    pub open spec fn sat_sub(a: Chips, b: Chips) -> Chips {
        if a.0 < b.0 {
            Chips(0)
        } else {
            Chips((a.0 - b.0) as u64)
        }
    }

    /// The empty amount.
    pub fn zero() -> (c: Chips)
        ensures
            c == Chips(0),
    {
        Chips(0)
    }

    pub fn new(amount: u64) -> (c: Chips)
        ensures
            c == Chips(amount),
    {
        Chips(amount)
    }

    pub fn is_zero(&self) -> (z: bool)
        ensures
            z == (self.0 == 0),
    {
        self.0 == 0
    }

    /// Subtraction that never goes below zero.
    pub fn saturating_sub(self, other: Chips) -> (c: Chips)
        ensures
            c == Chips::sat_sub(self, other),
    {
        Chips(self.0.saturating_sub(other.0))
    }

    /// Addition that never exceeds `u64::MAX`.
    pub fn saturating_add(self, other: Chips) -> (c: Chips)
        ensures
            c == Chips::sat_add(self, other),
    {
        Chips(self.0.saturating_add(other.0))
    }
}

impl Add for Chips {
    type Output = Chips;

    fn add(self, rhs: Chips) -> (c: Chips) {
        Chips(self.0.saturating_add(rhs.0))
    }
}

impl AddSpecImpl for Chips {
    open spec fn obeys_add_spec() -> bool {
        true
    }

    open spec fn add_req(self, rhs: Chips) -> bool {
        true
    }

    open spec fn add_spec(self, rhs: Chips) -> Chips {
        Chips::sat_add(self, rhs)
    }
}

impl Sub for Chips {
    type Output = Chips;

    fn sub(self, rhs: Chips) -> (c: Chips) {
        Chips(self.0.saturating_sub(rhs.0))
    }
}

impl SubSpecImpl for Chips {
    open spec fn obeys_sub_spec() -> bool {
        true
    }

    open spec fn sub_req(self, rhs: Chips) -> bool {
        true
    }

    open spec fn sub_spec(self, rhs: Chips) -> Chips {
        Chips::sat_sub(self, rhs)
    }
}

impl core::ops::AddAssign for Chips {
    fn add_assign(&mut self, rhs: Chips)
        ensures
            *final(self) == Chips::sat_add(*old(self), rhs),
    {
        self.0 = self.0.saturating_add(rhs.0);
    }
}

impl core::ops::SubAssign for Chips {
    fn sub_assign(&mut self, rhs: Chips)
        ensures
            *final(self) == Chips::sat_sub(*old(self), rhs),
    {
        self.0 = self.0.saturating_sub(rhs.0);
    }
}

} // verus!
