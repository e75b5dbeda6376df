//! Poison.
use vstd::prelude::*;

verus! {

/// An entity poisoned for a while.
pub struct PoisonEffect {
    duration: i16,
    amplifier: i8,
}

impl PoisonEffect {
    pub closed spec fn duration(&self) -> i16 {
        self.duration
    }

    pub closed spec fn amplifier(&self) -> i8 {
        self.amplifier
    }

    pub fn new(amplifier: i8, duration: i16) -> (r: Self)
        ensures
            r.amplifier() == amplifier,
            r.duration() == duration,
    {
        Self { amplifier, duration }
    }

    /// Whether the poison has worn off.
    pub fn should_remove(&self) -> (r: bool)
        ensures
            r == (self.duration() == 0),
    {
        self.duration == 0
    }
}

} // verus!
