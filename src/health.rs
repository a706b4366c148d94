//! Health as a bounded range: it stays between a lower and an upper limit,
//! and reaching a limit is reported.
use vstd::prelude::*;

verus! {

/// Outcome of changing a range: the new value lay strictly inside, or it
/// reached (and was clamped to) one of the limits.
#[derive(Clone, Copy, Debug, PartialEq, Eq, Structural)]
pub enum ModifyRangeResult {
    InRange,
    StartLimitReached,
    EndLimitReached,
}

/// A value kept between `start` and `end`.
#[derive(Clone, Copy, Debug, PartialEq, Eq, Structural)]
pub struct Health {
    pub start: i64,
    pub end: i64,
    pub current: i64,
}

/// The range `h` after its value was set to `value`, and what is reported:
/// at or below `start` it is clamped to `start`, else at or above `end` to
/// `end`.
pub open spec fn set_spec(h: Health, value: int) -> (Health, ModifyRangeResult) {
    if value <= h.start {
        (Health { current: h.start, ..h }, ModifyRangeResult::StartLimitReached)
    } else if value >= h.end {
        (Health { current: h.end, ..h }, ModifyRangeResult::EndLimitReached)
    } else {
        (Health { current: value as i64, ..h }, ModifyRangeResult::InRange)
    }
}

impl Health {
    pub open spec fn wf(&self) -> bool {
        self.start <= self.current <= self.end
    }

    /// A full range from `start` to `end`: its value starts at `end`.
    pub fn new(start: i64, end: i64) -> (r: Health)
        requires
            start <= end,
        ensures
            r == (Health { start, end, current: end }),
            r.wf(),
    {
        Health { start, end, current: end }
    }

    pub fn get(&self) -> (r: i64)
        ensures
            r == self.current,
    {
        self.current
    }

    /// Sets the value, clamped to the limits.
    pub fn set(&mut self, value: i128) -> (r: ModifyRangeResult)
        ensures
            (*final(self), r) == set_spec(*old(self), value as int),
            old(self).start <= old(self).end ==> final(self).wf(),
    {
        if value <= self.start as i128 {
            self.current = self.start;
            ModifyRangeResult::StartLimitReached
        } else if value >= self.end as i128 {
            self.current = self.end;
            ModifyRangeResult::EndLimitReached
        } else {
            self.current = value as i64;
            ModifyRangeResult::InRange
        }
    }

    /// Adds `delta` to the value, clamped to the limits.
    pub fn modify(&mut self, delta: i64) -> (r: ModifyRangeResult)
        ensures
            (*final(self), r) == set_spec(*old(self), old(self).current + delta),
            old(self).start <= old(self).end ==> final(self).wf(),
    {
        self.set(self.current as i128 + delta as i128)
    }

    /// The value lies at the lower limit: whoever holds this health is dead.
    pub open spec fn is_depleted(&self) -> bool {
        self.current <= self.start
    }
}

} // verus!
