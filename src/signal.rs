use vstd::prelude::*;

verus! {

/// A one-shot gate: it starts unset, is set once, and then stays set for every waiter.
#[derive(Debug)]
pub struct Readiness {
    set: bool,
}

impl View for Readiness {
    type V = bool;

    closed spec fn view(&self) -> bool {
        self.set
    }
}

impl Readiness {
    pub fn new() -> (r: Readiness)
        ensures
            !r@,
    {
        Readiness { set: false }
    }

    /// Marks the root as ready for good: nothing clears it again.
    pub fn set(&mut self)
        ensures
            final(self)@,
    {
        self.set = true;
    }

    /// Whether a waiter may go on now.
    pub fn is_set(&self) -> (r: bool)
        ensures
            r == self@,
    {
        self.set
    }
}

} // verus!
