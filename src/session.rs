use vstd::prelude::*;

verus! {

/// Where the login session of one console stands.
#[derive(PartialEq, Eq, Structural, Clone, Copy, Debug)]
pub enum Phase {
    /// Reading the console's terminal attributes, once.
    Capture,
    /// Writing the login banner.
    Banner,
    /// Putting the console in raw mode.
    ArmRaw,
    /// Waiting until the console has input.
    AwaitInput,
    /// Putting the console back in cooked mode.
    RestoreCooked,
    /// Handing the console to a new shell.
    Spawn,
    /// Waiting for the shell to exit.
    AwaitExit,
    /// A terminal or descriptor operation failed: this console gets no more prompts.
    Stopped,
}

/// The next phase, given whether the work of `p` succeeded. A banner that could not be
/// written and a shell that exited in any way are no errors; any other failure stops
/// the console for good.
pub open spec fn next_phase(p: Phase, ok: bool) -> Phase {
    match p {
        Phase::Capture => if ok { Phase::Banner } else { Phase::Stopped },
        Phase::Banner => Phase::ArmRaw,
        Phase::ArmRaw => if ok { Phase::AwaitInput } else { Phase::Stopped },
        Phase::AwaitInput => if ok { Phase::RestoreCooked } else { Phase::Stopped },
        Phase::RestoreCooked => if ok { Phase::Spawn } else { Phase::Stopped },
        Phase::Spawn => if ok { Phase::AwaitExit } else { Phase::Stopped },
        Phase::AwaitExit => Phase::Banner,
        Phase::Stopped => Phase::Stopped,
    }
}

/// The phase reached from `p` through the outcomes `outs`, in order.
pub open spec fn run(p: Phase, outs: Seq<bool>) -> Phase
    decreases outs.len(),
{
    if outs.len() == 0 {
        p
    } else {
        run(next_phase(p, outs[0]), outs.drop_first())
    }
}

/// `n` outcomes that all succeeded.
pub open spec fn successes(n: nat) -> Seq<bool> {
    Seq::new(n, |i: int| true)
}

/// The number of phases in one round, from the banner to the shell's exit.
pub const ROUND: usize = 6;

impl Phase {
    /// The phase of a console whose session has just begun.
    pub fn start() -> (r: Phase)
        ensures
            r == Phase::Capture,
    {
        Phase::Capture
    }

    pub fn next(self, ok: bool) -> (r: Phase)
        ensures
            r == next_phase(self, ok),
    {
        match self {
            Phase::Capture => if ok { Phase::Banner } else { Phase::Stopped },
            Phase::Banner => Phase::ArmRaw,
            Phase::ArmRaw => if ok { Phase::AwaitInput } else { Phase::Stopped },
            Phase::AwaitInput => if ok { Phase::RestoreCooked } else { Phase::Stopped },
            Phase::RestoreCooked => if ok { Phase::Spawn } else { Phase::Stopped },
            Phase::Spawn => if ok { Phase::AwaitExit } else { Phase::Stopped },
            Phase::AwaitExit => Phase::Banner,
            Phase::Stopped => Phase::Stopped,
        }
    }

    /// Whether this console will never prompt again.
    pub fn is_stopped(self) -> (r: bool)
        ensures
            r == (self == Phase::Stopped),
    {
        matches!(self, Phase::Stopped)
    }
}

proof fn lemma_run_successes_split(p: Phase, a: nat, b: nat)
    ensures
        run(p, successes(a + b)) == run(run(p, successes(a)), successes(b)),
    decreases a,
{
    if a > 0 {
        assert(successes(a + b).drop_first() =~= successes((a - 1 + b) as nat));
        assert(successes(a).drop_first() =~= successes((a - 1) as nat));
        lemma_run_successes_split(next_phase(p, true), (a - 1) as nat, b);
    } else {
        assert(successes(0) =~= Seq::<bool>::empty());
    }
}

/// A round that succeeds throughout, from the banner through raw mode, input, cooked mode,
/// spawn and the shell's exit, comes back to the banner; so do any number of such rounds.
pub proof fn lemma_rounds_return_to_banner(k: nat)
    ensures
        run(Phase::Banner, successes(ROUND as nat * k)) == Phase::Banner,
    decreases k,
{
    if k > 0 {
        let one = successes(ROUND as nat);
        assert(one.drop_first() =~= successes(5));
        assert(successes(5).drop_first() =~= successes(4));
        assert(successes(4).drop_first() =~= successes(3));
        assert(successes(3).drop_first() =~= successes(2));
        assert(successes(2).drop_first() =~= successes(1));
        assert(successes(1).drop_first() =~= successes(0));
        assert(run(Phase::Banner, successes(0)) == Phase::Banner);
        assert(run(Phase::AwaitExit, successes(1)) == Phase::Banner);
        assert(run(Phase::Spawn, successes(2)) == Phase::Banner);
        assert(run(Phase::RestoreCooked, successes(3)) == Phase::Banner);
        assert(run(Phase::AwaitInput, successes(4)) == Phase::Banner);
        assert(run(Phase::ArmRaw, successes(5)) == Phase::Banner);
        assert(run(Phase::Banner, one) == Phase::Banner);
        assert(ROUND as nat * k == ROUND as nat + ROUND as nat * (k - 1)) by (nonlinear_arith)
            requires k > 0;
        lemma_run_successes_split(Phase::Banner, ROUND as nat, ROUND as nat * (k - 1) as nat);
        lemma_rounds_return_to_banner((k - 1) as nat);
    } else {
        assert(successes(0) =~= Seq::<bool>::empty());
    }
}

/// A stopped console stays stopped, whatever happens after.
pub proof fn lemma_stopped_is_final(outs: Seq<bool>)
    ensures
        run(Phase::Stopped, outs) == Phase::Stopped,
    decreases outs.len(),
{
    if outs.len() > 0 {
        lemma_stopped_is_final(outs.drop_first());
    }
}

/// A console whose attributes cannot be read stops for good, before any prompt.
pub proof fn lemma_capture_failure_stops(outs: Seq<bool>)
    ensures
        run(Phase::Capture, seq![false] + outs) == Phase::Stopped,
{
    assert((seq![false] + outs).drop_first() =~= outs);
    lemma_stopped_is_final(outs);
}

pub open spec fn console_path_of(n: u32) -> Option<Seq<char>> {
    if n == 1 {
        Some("/dev/tty1"@)
    } else if n == 2 {
        Some("/dev/tty2"@)
    } else {
        None
    }
}

/// The device of text console `n`; only consoles 1 and 2 exist.
pub fn console_path(n: u32) -> (r: Option<&'static str>)
    ensures
        r.is_some() == console_path_of(n).is_some(),
        r.is_some() ==> r.unwrap()@ == console_path_of(n).unwrap(),
{
    if n == 1 {
        Some("/dev/tty1")
    } else if n == 2 {
        Some("/dev/tty2")
    } else {
        None
    }
}

} // verus!
