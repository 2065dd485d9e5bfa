use vstd::prelude::*;

verus! {

/// Where the reaper stands.
#[derive(PartialEq, Eq, Structural, Clone, Copy, Debug)]
pub enum Reaper {
    /// Blocked until a child terminates.
    Waiting,
    /// Collecting terminated children without blocking.
    Draining,
}

/// What the reaper learns.
#[derive(PartialEq, Eq, Structural, Clone, Copy, Debug)]
pub enum ReapEvent {
    /// A child-termination notification arrived.
    Notified,
    /// A non-blocking collection returned the status of a terminated child.
    Collected,
    /// A non-blocking collection found no terminated child (or no child at all).
    NoneLeft,
}

pub open spec fn next_reaper(r: Reaper, e: ReapEvent) -> Reaper {
    match (r, e) {
        (_, ReapEvent::Notified) => Reaper::Draining,
        (Reaper::Draining, ReapEvent::Collected) => Reaper::Draining,
        _ => Reaper::Waiting,
    }
}

/// What a non-blocking collection call that returned `ret` means: a positive process id
/// is a collected child; zero or an error means none is left to collect.
pub open spec fn wait_event(ret: i32) -> ReapEvent {
    if ret > 0 {
        ReapEvent::Collected
    } else {
        ReapEvent::NoneLeft
    }
}

impl Reaper {
    pub fn start() -> (r: Reaper)
        ensures
            r == Reaper::Waiting,
    {
        Reaper::Waiting
    }

    pub fn next(self, e: ReapEvent) -> (r: Reaper)
        ensures
            r == next_reaper(self, e),
    {
        match (self, e) {
            (_, ReapEvent::Notified) => Reaper::Draining,
            (Reaper::Draining, ReapEvent::Collected) => Reaper::Draining,
            _ => Reaper::Waiting,
        }
    }

    /// Whether the reaper should collect again now rather than wait for a notification.
    pub fn collecting(self) -> (r: bool)
        ensures
            r == (self == Reaper::Draining),
    {
        matches!(self, Reaper::Draining)
    }
}

pub fn wait_result(ret: i32) -> (r: ReapEvent)
    ensures
        r == wait_event(ret),
{
    if ret > 0 {
        ReapEvent::Collected
    } else {
        ReapEvent::NoneLeft
    }
}

/// The reaper run from `r` against a kernel that holds `zombies` terminated children and
/// hands one out per collection: the children left and the collection calls made when it
/// next waits, or `None` if it would never wait again.
pub open spec fn settle(r: Reaper, zombies: nat) -> Option<(nat, nat)>
    decreases zombies,
{
    match r {
        Reaper::Waiting => Some((zombies, 0)),
        Reaper::Draining => if zombies > 0 {
            match settle(next_reaper(r, ReapEvent::Collected), (zombies - 1) as nat) {
                Some((left, calls)) => Some((left, calls + 1)),
                None => None,
            }
        } else {
            match next_reaper(r, ReapEvent::NoneLeft) {
                Reaper::Waiting => Some((0, 1)),
                Reaper::Draining => None,
            }
        },
    }
}

/// One notification is enough: however many children have terminated, the reaper
/// collects them all, with one more call to find none left, before it waits again.
pub proof fn lemma_one_notification_reaps_all(r: Reaper, zombies: nat)
    ensures
        settle(next_reaper(r, ReapEvent::Notified), zombies) == Some((0nat, zombies + 1)),
    decreases zombies,
{
    if zombies > 0 {
        lemma_one_notification_reaps_all(Reaper::Draining, (zombies - 1) as nat);
    }
}

} // verus!
