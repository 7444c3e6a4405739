//! Extra time granted for one turn.

use vstd::prelude::*;

verus! {

/// The extra seconds that were added to a turn.
#[derive(Clone, Copy, Debug, PartialEq, Eq, Structural)]
pub struct ExtraTimeGrant {
    pub granted_secs: i32,
}

impl ExtraTimeGrant {
    /// No extra time.
    pub fn none() -> (g: ExtraTimeGrant)
        ensures
            g.granted_secs == 0,
    {
        ExtraTimeGrant { granted_secs: 0 }
    }

    pub fn new(granted_secs: i32) -> (g: ExtraTimeGrant)
        ensures
            g.granted_secs == granted_secs,
    {
        ExtraTimeGrant { granted_secs }
    }

    /// Whether any time was granted.
    pub fn is_active(&self) -> (b: bool)
        ensures
            b == (self.granted_secs > 0),
    {
        self.granted_secs > 0
    }
}

} // verus!
