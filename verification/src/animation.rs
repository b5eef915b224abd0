//! The wall-clock source that animation loops take their time steps from.
//!
//! A clock remembers when it was last read. The first read after it is made
//! or reset has nothing to measure from and stands for one 60 Hz frame; every
//! later read measures from the one before.

use std::time::Instant;

use vstd::prelude::*;

verus! {

/// `std::time::Instant`, carried through as an opaque value.
#[verifier::external_type_specification]
#[verifier::external_body]
pub struct ExInstant(Instant);

/// Wall-clock dt source for animation loops.
pub struct Clock {
    last: Option<Instant>,
}

impl View for Clock {
    type V = Option<Instant>;

    /// The moment of the last read, if there was one since the clock was
    /// made or reset.
    closed spec fn view(&self) -> Option<Instant> {
        self.last
    }
}

impl Default for Clock {
    fn default() -> (c: Clock)
        ensures
            c@ == None::<Instant>,
    {
        Clock::new()
    }
}

impl Clock {
    /// A clock that has not been read.
    pub fn new() -> (c: Clock)
        ensures
            c@ == None::<Instant>,
    {
        Clock { last: None }
    }

    /// Forget the last read: the next one stands for a single frame again.
    pub fn reset(&mut self)
        ensures
            final(self)@ == None::<Instant>,
    {
        self.last = None;
    }

    /// Record a read at `now` and hand back the read before it, which the
    /// caller measures the step from.
    pub fn mark(&mut self, now: Instant) -> (prev: Option<Instant>)
        ensures
            prev == old(self)@,
            final(self)@ == Some(now),
    {
        let prev = self.last;
        self.last = Some(now);
        prev
    }
}

} // verus!
