use vstd::prelude::*;
use crate::command::{coldplug_trigger, device_daemon, Invocation, SEARCH_PATH};
use crate::ip::runs_ip;
use crate::mounts::{is_table_entry, mount_spec, MountError, MountSpec, Target};
use crate::signal::Readiness;

verus! {

/// The number of boot steps.
pub const STEPS: usize = 15;

/// One step of boot.
#[derive(PartialEq, Eq, Structural, Clone, Copy, Debug)]
pub enum Step {
    RemountRoot,
    EnsureDev,
    MountDev,
    EnsureDevPts,
    MountDevPts,
    EnsureDevShm,
    EnsureProc,
    MountProc,
    EnsureSys,
    MountSys,
    AddressLoopback,
    AddressPrimary,
    DefaultRoute,
    StartDeviceDaemon,
    Coldplug,
}

/// Where a step stands.
#[derive(PartialEq, Eq, Structural, Clone, Copy, Debug)]
pub enum Status {
    Pending,
    Running,
    Succeeded,
    Failed,
}

/// What a step waits for before it may begin.
pub enum Gate {
    /// Nothing: it may begin at once.
    Free,
    /// The root filesystem being writable.
    Writable,
    /// Another step having finished.
    After(Step),
}

pub open spec fn idx(s: Step) -> int {
    match s {
        Step::RemountRoot => 0,
        Step::EnsureDev => 1,
        Step::MountDev => 2,
        Step::EnsureDevPts => 3,
        Step::MountDevPts => 4,
        Step::EnsureDevShm => 5,
        Step::EnsureProc => 6,
        Step::MountProc => 7,
        Step::EnsureSys => 8,
        Step::MountSys => 9,
        Step::AddressLoopback => 10,
        Step::AddressPrimary => 11,
        Step::DefaultRoute => 12,
        Step::StartDeviceDaemon => 13,
        Step::Coldplug => 14,
    }
}

/// The dependency graph of boot: each step waits on at most one thing.
pub open spec fn gate(s: Step) -> Gate {
    match s {
        Step::RemountRoot => Gate::Free,
        Step::EnsureDev => Gate::Writable,
        Step::MountDev => Gate::After(Step::EnsureDev),
        Step::EnsureDevPts => Gate::After(Step::MountDev),
        Step::MountDevPts => Gate::After(Step::EnsureDevPts),
        Step::EnsureDevShm => Gate::After(Step::MountDev),
        Step::EnsureProc => Gate::Writable,
        Step::MountProc => Gate::After(Step::EnsureProc),
        Step::EnsureSys => Gate::Writable,
        Step::MountSys => Gate::After(Step::EnsureSys),
        Step::AddressLoopback => Gate::After(Step::MountSys),
        Step::AddressPrimary => Gate::After(Step::AddressLoopback),
        Step::DefaultRoute => Gate::After(Step::AddressPrimary),
        Step::StartDeviceDaemon => Gate::After(Step::DefaultRoute),
        Step::Coldplug => Gate::After(Step::StartDeviceDaemon),
    }
}

/// How many gates lie between a step and the start of boot.
pub open spec fn depth(s: Step) -> nat {
    match s {
        Step::RemountRoot => 0,
        Step::EnsureDev | Step::EnsureProc | Step::EnsureSys => 1,
        Step::MountDev | Step::MountProc | Step::MountSys => 2,
        Step::EnsureDevPts | Step::EnsureDevShm | Step::AddressLoopback => 3,
        Step::MountDevPts | Step::AddressPrimary => 4,
        Step::DefaultRoute => 5,
        Step::StartDeviceDaemon => 6,
        Step::Coldplug => 7,
    }
}

/// Whether a failure of the step aborts boot; the others are best effort.
pub open spec fn is_fatal(s: Step) -> bool {
    idx(s) <= 9
}

/// The error boot reports when a fatal step fails.
pub open spec fn error_of(s: Step) -> MountError {
    match s {
        Step::RemountRoot => MountError::MountFailed(Target::Root),
        Step::EnsureDev => MountError::DirFailed(Target::Dev),
        Step::MountDev => MountError::MountFailed(Target::Dev),
        Step::EnsureDevPts => MountError::DirFailed(Target::DevPts),
        Step::MountDevPts => MountError::MountFailed(Target::DevPts),
        Step::EnsureDevShm => MountError::DirFailed(Target::DevShm),
        Step::EnsureProc => MountError::DirFailed(Target::Proc),
        Step::MountProc => MountError::MountFailed(Target::Proc),
        Step::EnsureSys => MountError::DirFailed(Target::Sys),
        _ => MountError::MountFailed(Target::Sys),
    }
}

pub proof fn lemma_idx_bounds(s: Step)
    ensures
        0 <= idx(s) < STEPS,
{
}

pub proof fn lemma_idx_injective(s: Step, t: Step)
    ensures
        idx(s) == idx(t) ==> s == t,
{
}

impl Step {
    /// The step at a position of the boot table.
    pub fn at(i: usize) -> (r: Step)
        requires
            i < STEPS,
        ensures
            idx(r) == i,
    {
        match i {
            0 => Step::RemountRoot,
            1 => Step::EnsureDev,
            2 => Step::MountDev,
            3 => Step::EnsureDevPts,
            4 => Step::MountDevPts,
            5 => Step::EnsureDevShm,
            6 => Step::EnsureProc,
            7 => Step::MountProc,
            8 => Step::EnsureSys,
            9 => Step::MountSys,
            10 => Step::AddressLoopback,
            11 => Step::AddressPrimary,
            12 => Step::DefaultRoute,
            13 => Step::StartDeviceDaemon,
            _ => Step::Coldplug,
        }
    }

    pub fn index(&self) -> (r: usize)
        ensures
            r == idx(*self),
    {
        match self {
            Step::RemountRoot => 0,
            Step::EnsureDev => 1,
            Step::MountDev => 2,
            Step::EnsureDevPts => 3,
            Step::MountDevPts => 4,
            Step::EnsureDevShm => 5,
            Step::EnsureProc => 6,
            Step::MountProc => 7,
            Step::EnsureSys => 8,
            Step::MountSys => 9,
            Step::AddressLoopback => 10,
            Step::AddressPrimary => 11,
            Step::DefaultRoute => 12,
            Step::StartDeviceDaemon => 13,
            Step::Coldplug => 14,
        }
    }

    pub fn gate(&self) -> (r: Gate)
        ensures
            r == gate(*self),
    {
        match self {
            Step::RemountRoot => Gate::Free,
            Step::EnsureDev => Gate::Writable,
            Step::MountDev => Gate::After(Step::EnsureDev),
            Step::EnsureDevPts => Gate::After(Step::MountDev),
            Step::MountDevPts => Gate::After(Step::EnsureDevPts),
            Step::EnsureDevShm => Gate::After(Step::MountDev),
            Step::EnsureProc => Gate::Writable,
            Step::MountProc => Gate::After(Step::EnsureProc),
            Step::EnsureSys => Gate::Writable,
            Step::MountSys => Gate::After(Step::EnsureSys),
            Step::AddressLoopback => Gate::After(Step::MountSys),
            Step::AddressPrimary => Gate::After(Step::AddressLoopback),
            Step::DefaultRoute => Gate::After(Step::AddressPrimary),
            Step::StartDeviceDaemon => Gate::After(Step::DefaultRoute),
            Step::Coldplug => Gate::After(Step::StartDeviceDaemon),
        }
    }

    pub fn is_fatal(&self) -> (r: bool)
        ensures
            r == is_fatal(*self),
    {
        self.index() <= 9
    }

    /// The error that a failure of this step stands for.
    pub fn error(&self) -> (r: MountError)
        ensures
            r == error_of(*self),
    {
        match self {
            Step::RemountRoot => MountError::MountFailed(Target::Root),
            Step::EnsureDev => MountError::DirFailed(Target::Dev),
            Step::MountDev => MountError::MountFailed(Target::Dev),
            Step::EnsureDevPts => MountError::DirFailed(Target::DevPts),
            Step::MountDevPts => MountError::MountFailed(Target::DevPts),
            Step::EnsureDevShm => MountError::DirFailed(Target::DevShm),
            Step::EnsureProc => MountError::DirFailed(Target::Proc),
            Step::MountProc => MountError::MountFailed(Target::Proc),
            Step::EnsureSys => MountError::DirFailed(Target::Sys),
            _ => MountError::MountFailed(Target::Sys),
        }
    }
}

/// The boot orchestrator: which steps have begun and how those that ended went.
pub struct Boot {
    status: Vec<Status>,
    writable: Readiness,
    fatal: Option<Step>,
    best_effort: Vec<Step>,
}

impl Boot {
    pub closed spec fn status_of(&self, s: Step) -> Status {
        self.status@[idx(s)]
    }

    pub closed spec fn writable(&self) -> bool {
        self.writable@
    }

    pub closed spec fn fatal_step(&self) -> Option<Step> {
        self.fatal
    }

    /// The best-effort steps that failed, in the order they were reported.
    pub closed spec fn failures(&self) -> Seq<Step> {
        self.best_effort@
    }

    /// Whether a step's own predecessor has finished in a way that lets it begin.
    pub open spec fn finished_for_successor(&self, p: Step) -> bool {
        self.status_of(p) == Status::Succeeded || (!is_fatal(p) && self.status_of(p)
            == Status::Failed)
    }

    pub open spec fn gate_open(&self, s: Step) -> bool {
        match gate(s) {
            Gate::Free => true,
            Gate::Writable => self.writable(),
            Gate::After(p) => self.finished_for_successor(p),
        }
    }

    /// Whether `s` may begin now.
    pub open spec fn ready(&self, s: Step) -> bool {
        &&& self.fatal_step() is None
        &&& self.status_of(s) == Status::Pending
        &&& self.gate_open(s)
    }

    pub closed spec fn wf(&self) -> bool {
        &&& self.status@.len() == STEPS
        &&& (self.writable() <==> self.status_of(Step::RemountRoot) == Status::Succeeded)
        &&& forall|s: Step| #[trigger]
            self.status_of(s) != Status::Pending ==> self.gate_open(s)
        &&& match self.fatal_step() {
            Some(f) => is_fatal(f) && self.status_of(f) == Status::Failed,
            None => forall|s: Step| is_fatal(s) ==> #[trigger] self.status_of(s) != Status::Failed,
        }
        &&& forall|s: Step|
            !is_fatal(s) ==> (#[trigger] self.status_of(s) == Status::Failed
                <==> self.failures().contains(s))
        &&& forall|i: int| 0 <= i < self.failures().len() ==> !is_fatal(#[trigger] self.failures()[i])
        &&& self.failures().no_duplicates()
    }

    /// Every step has ended and none fatally.
    pub open spec fn complete(&self) -> bool {
        &&& self.fatal_step() is None
        &&& forall|s: Step|
            #[trigger] self.status_of(s) == Status::Succeeded || self.status_of(s) == Status::Failed
    }

    pub fn new() -> (r: Boot)
        ensures
            r.wf(),
            forall|s: Step| #[trigger] r.status_of(s) == Status::Pending,
            !r.writable(),
            r.fatal_step() is None,
            r.failures().len() == 0,
    {
        let mut status: Vec<Status> = Vec::new();
        let mut i: usize = 0;
        while i < STEPS
            invariant
                i <= STEPS,
                status@.len() == i,
                forall|j: int| 0 <= j < i ==> status@[j] == Status::Pending,
            decreases STEPS - i,
        {
            status.push(Status::Pending);
            i = i + 1;
        }
        let r = Boot { status, writable: Readiness::new(), fatal: None, best_effort: Vec::new() };
        assert forall|s: Step| #[trigger] r.status_of(s) == Status::Pending by {
            lemma_idx_bounds(s);
        }
        r
    }

    pub fn status(&self, s: Step) -> (r: Status)
        requires
            self.wf(),
        ensures
            r == self.status_of(s),
    {
        proof {
            lemma_idx_bounds(s);
        }
        self.status[s.index()]
    }

    /// Marks every step that may begin now as running, and returns them in table order.
    /// After a fatal failure nothing more begins.
    pub fn start_ready(&mut self) -> (r: Vec<Step>)
        requires
            old(self).wf(),
        ensures
            final(self).wf(),
            forall|s: Step| #[trigger] r@.contains(s) <==> old(self).ready(s),
            r@.no_duplicates(),
            old(self).fatal_step() is Some ==> r@.len() == 0,
            forall|s: Step|
                #[trigger] final(self).status_of(s) == (if old(self).ready(s) {
                    Status::Running
                } else {
                    old(self).status_of(s)
                }),
            final(self).writable() == old(self).writable(),
            final(self).fatal_step() == old(self).fatal_step(),
            final(self).failures() == old(self).failures(),
    {
        let mut started: Vec<Step> = Vec::new();
        if self.fatal.is_some() {
            return started;
        }
        let ghost before = *self;
        let mut i: usize = 0;
        while i < STEPS
            invariant
                before.wf(),
                before.fatal is None,
                i <= STEPS,
                self.status@.len() == STEPS,
                self.writable == before.writable,
                self.fatal == before.fatal,
                self.best_effort == before.best_effort,
                forall|s: Step|
                    #[trigger] self.status_of(s) == (if idx(s) < i && before.ready(s) {
                        Status::Running
                    } else {
                        before.status_of(s)
                    }),
                forall|s: Step| #[trigger]
                    started@.contains(s) <==> (idx(s) < i && before.ready(s)),
                forall|k: int| 0 <= k < started@.len() ==> idx(#[trigger] started@[k]) < i,
                started@.no_duplicates(),
            decreases STEPS - i,
        {
            let s = Step::at(i);
            proof {
                lemma_idx_bounds(s);
            }
            let st = self.status[i];
            let open = match s.gate() {
                Gate::Free => true,
                Gate::Writable => self.writable.is_set(),
                Gate::After(p) => {
                    proof {
                        lemma_idx_bounds(p);
                    }
                    let ps = self.status[p.index()];
                    ps == Status::Succeeded || (!p.is_fatal() && ps == Status::Failed)
                },
            };
            proof {
                match gate(s) {
                    Gate::After(p) => {
                        assert(idx(p) < idx(s));
                        assert(self.status_of(p) == before.status_of(p) || (before.ready(p)
                            && self.status_of(p) == Status::Running));
                    },
                    _ => {},
                }
                assert(self.status_of(s) == before.status_of(s));
                assert(st == before.status_of(s));
                assert(open == before.gate_open(s));
                assert((st == Status::Pending && open) == before.ready(s));
            }
            let ghost prev = self.status@;
            let ghost prev_self = *self;
            let ghost prev_started = started@;
            if st == Status::Pending && open {
                self.status.set(i, Status::Running);
                started.push(s);
            }
            proof {
                assert forall|t: Step| #[trigger]
                    self.status_of(t) == (if idx(t) < i + 1 && before.ready(t) {
                        Status::Running
                    } else {
                        before.status_of(t)
                    }) by {
                    lemma_idx_injective(s, t);
                    lemma_idx_bounds(t);
                    assert(prev_self.status_of(t) == prev[idx(t)]);
                    if idx(t) != i {
                        assert(self.status@[idx(t)] == prev[idx(t)]);
                    }
                }
                assert forall|t: Step| #[trigger]
                    started@.contains(t) <==> (idx(t) < i + 1 && before.ready(t)) by {
                    lemma_idx_injective(s, t);
                    assert(prev_started.contains(t) <==> (idx(t) < i && before.ready(t)));
                    if before.ready(s) {
                        assert(started@ == prev_started.push(s));
                        assert(started@[prev_started.len() as int] == s);
                    } else {
                        assert(started@ == prev_started);
                    }
                    if started@.contains(t) && t != s {
                        let k = started@.index_of(t);
                        if k < prev_started.len() {
                            assert(prev_started.contains(t));
                        }
                    }
                    if prev_started.contains(t) {
                        let k = prev_started.index_of(t);
                        assert(started@[k] == t);
                    }
                }
            }
            i = i + 1;
        }
        proof {
            assert forall|s: Step| #[trigger]
                self.status_of(s) != Status::Pending implies self.gate_open(s) by {
                lemma_idx_bounds(s);
                match gate(s) {
                    Gate::After(p) => {
                        assert(self.status_of(p) == before.status_of(p) || before.ready(p));
                    },
                    _ => {},
                }
            }
            assert forall|s: Step| #[trigger] started@.contains(s) <==> before.ready(s) by {
                lemma_idx_bounds(s);
            }
            assert forall|s: Step| #[trigger]
                self.status_of(s) == (if before.ready(s) {
                    Status::Running
                } else {
                    before.status_of(s)
                }) by {
                lemma_idx_bounds(s);
            }
        }
        started
    }

    /// Records how a running step ended. A successful root remount makes the root writable;
    /// the first failed fatal step becomes the boot's error; a failed best-effort step is
    /// recorded and the steps after it may still begin.
    pub fn finish(&mut self, s: Step, ok: bool)
        requires
            old(self).wf(),
            old(self).status_of(s) == Status::Running,
        ensures
            final(self).wf(),
            final(self).status_of(s) == (if ok {
                Status::Succeeded
            } else {
                Status::Failed
            }),
            forall|t: Step| t != s ==> #[trigger] final(self).status_of(t) == old(self).status_of(t),
            final(self).writable() == (old(self).writable() || (s == Step::RemountRoot && ok)),
            final(self).fatal_step() == (if old(self).fatal_step() is None && !ok && is_fatal(s) {
                Some(s)
            } else {
                old(self).fatal_step()
            }),
            final(self).failures() == (if !ok && !is_fatal(s) {
                old(self).failures().push(s)
            } else {
                old(self).failures()
            }),
    {
        proof {
            lemma_idx_bounds(s);
        }
        let ghost before = *self;
        let i = s.index();
        if ok {
            self.status.set(i, Status::Succeeded);
            if i == 0 {
                self.writable.set();
            }
        } else {
            self.status.set(i, Status::Failed);
            if s.is_fatal() {
                if self.fatal.is_none() {
                    self.fatal = Some(s);
                }
            } else {
                proof {
                    assert(!before.best_effort@.contains(s));
                }
                self.best_effort.push(s);
            }
        }
        proof {
            assert forall|t: Step| t != s implies #[trigger] self.status_of(t) == before.status_of(t) by {
                lemma_idx_injective(s, t);
                lemma_idx_bounds(t);
            }
            assert(self.writable() == (before.writable() || (s == Step::RemountRoot && ok))) by {
                lemma_idx_injective(s, Step::RemountRoot);
            }
            assert forall|t: Step| #[trigger]
                self.status_of(t) != Status::Pending implies self.gate_open(t) by {
                if t != s {
                    match gate(t) {
                        Gate::After(p) => {
                            if p == s {
                                assert(!before.gate_open(t));
                            }
                        },
                        _ => {},
                    }
                }
            }
            assert forall|t: Step|
                !is_fatal(t) implies (#[trigger] self.status_of(t) == Status::Failed
                <==> self.best_effort@.contains(t)) by {
                if t != s && !ok && !is_fatal(s) {
                    assert(self.best_effort@.contains(t) <==> before.best_effort@.contains(t)
                        || t == s) by {
                        if self.best_effort@.contains(t) {
                            let k = self.best_effort@.index_of(t);
                        }
                        if before.best_effort@.contains(t) {
                            let k = before.best_effort@.index_of(t);
                            assert(self.best_effort@[k] == t);
                        }
                    }
                }
                if t == s && !ok && !is_fatal(s) {
                    assert(self.best_effort@[self.best_effort@.len() - 1] == s);
                }
            }
        }
    }

    pub fn is_complete(&self) -> (r: bool)
        requires
            self.wf(),
        ensures
            r == self.complete(),
    {
        if self.fatal.is_some() {
            return false;
        }
        let mut i: usize = 0;
        while i < STEPS
            invariant
                self.wf(),
                i <= STEPS,
                forall|s: Step|
                    idx(s) < i ==> #[trigger] self.status_of(s) == Status::Succeeded
                        || self.status_of(s) == Status::Failed,
            decreases STEPS - i,
        {
            let st = self.status[i];
            if st != Status::Succeeded && st != Status::Failed {
                let s = Step::at(i);
                assert(self.status_of(s) == st);
                return false;
            }
            i = i + 1;
        }
        proof {
            assert forall|s: Step|
                #[trigger] self.status_of(s) == Status::Succeeded || self.status_of(s)
                    == Status::Failed by {
                lemma_idx_bounds(s);
            }
        }
        true
    }

    /// The error that aborts boot, if a fatal step has failed.
    pub fn fatal_error(&self) -> (r: Option<MountError>)
        ensures
            r == (match self.fatal_step() {
                Some(f) => Some(error_of(f)),
                None => None,
            }),
    {
        match self.fatal {
            Some(f) => Some(f.error()),
            None => None,
        }
    }

    /// The best-effort steps that failed, in the order they were reported.
    pub fn best_effort_failures(&self) -> (r: Vec<Step>)
        ensures
            r@ == self.failures(),
    {
        self.best_effort.clone()
    }
}

/// Nothing under the root filesystem is touched before the root remount: in every state of
/// boot, a step other than the remount has begun only once the remount has succeeded.
pub proof fn lemma_remount_happens_first(b: Boot, s: Step)
    requires
        b.wf(),
        s != Step::RemountRoot,
        b.status_of(s) != Status::Pending,
    ensures
        b.status_of(Step::RemountRoot) == Status::Succeeded,
    decreases depth(s),
{
    assert(b.gate_open(s));
    match gate(s) {
        Gate::After(p) => {
            lemma_remount_happens_first(b, p);
        },
        _ => {},
    }
}

/// `/dev/pts` and `/dev/shm` are set up, in either order, only once `/dev` is mounted.
pub proof fn lemma_dev_mounted_first(b: Boot, s: Step)
    requires
        b.wf(),
        s == Step::EnsureDevPts || s == Step::MountDevPts || s == Step::EnsureDevShm,
        b.status_of(s) != Status::Pending,
    ensures
        b.status_of(Step::MountDev) == Status::Succeeded,
{
    assert(b.gate_open(s));
    if s == Step::MountDevPts {
        assert(b.gate_open(Step::EnsureDevPts));
    }
}

/// Neither of `/dev/pts` and `/dev/shm` waits for the other: once `/dev` is mounted both may
/// begin, so they may run in either order or together.
pub proof fn lemma_pts_and_shm_independent(b: Boot)
    requires
        b.wf(),
        b.fatal_step() is None,
        b.status_of(Step::MountDev) == Status::Succeeded,
        b.status_of(Step::EnsureDevPts) == Status::Pending,
        b.status_of(Step::EnsureDevShm) == Status::Pending,
    ensures
        b.ready(Step::EnsureDevPts),
        b.ready(Step::EnsureDevShm),
{
}

/// The network and device-event steps begin only once `/sys` is mounted.
pub proof fn lemma_sys_mounted_first(b: Boot, s: Step)
    requires
        b.wf(),
        10 <= idx(s),
        b.status_of(s) != Status::Pending,
    ensures
        b.status_of(Step::MountSys) == Status::Succeeded,
    decreases depth(s),
{
    assert(b.gate_open(s));
    match gate(s) {
        Gate::After(p) => {
            if p != Step::MountSys {
                lemma_sys_mounted_first(b, p);
            }
        },
        _ => {},
    }
}

/// A failed root remount stops boot at once: it is the boot's error, and no other step
/// has begun or ever will.
pub proof fn lemma_remount_failure_stops_boot(b: Boot)
    requires
        b.wf(),
        b.status_of(Step::RemountRoot) == Status::Failed,
    ensures
        forall|s: Step| s != Step::RemountRoot ==> #[trigger] b.status_of(s) == Status::Pending,
        forall|s: Step| !(#[trigger] b.ready(s)),
        b.fatal_step() == Some(Step::RemountRoot),
        error_of(Step::RemountRoot) == MountError::MountFailed(Target::Root),
{
    assert forall|s: Step| s != Step::RemountRoot implies #[trigger] b.status_of(s)
        == Status::Pending by {
        if b.status_of(s) != Status::Pending {
            lemma_remount_happens_first(b, s);
        }
    }
    match b.fatal_step() {
        Some(f) => {
            if f != Step::RemountRoot {
                assert(b.status_of(f) == Status::Pending);
            }
        },
        None => {
            assert(b.status_of(Step::RemountRoot) != Status::Failed);
        },
    }
}

/// Boot cannot get stuck: while no fatal step has failed and nothing runs, either every
/// step has ended or some step may begin, whichever best-effort steps have failed.
pub proof fn lemma_boot_progresses(b: Boot)
    requires
        b.wf(),
        b.fatal_step() is None,
        forall|s: Step| #[trigger] b.status_of(s) != Status::Running,
    ensures
        b.complete() || exists|s: Step| #[trigger] b.ready(s),
{
    if !b.complete() {
        let s = choose|s: Step|
            !(#[trigger] b.status_of(s) == Status::Succeeded || b.status_of(s) == Status::Failed);
        lemma_pending_step_has_ready_ancestor(b, s);
    }
}

proof fn lemma_pending_step_has_ready_ancestor(b: Boot, s: Step)
    requires
        b.wf(),
        b.fatal_step() is None,
        forall|t: Step| #[trigger] b.status_of(t) != Status::Running,
        b.status_of(s) == Status::Pending,
    ensures
        exists|t: Step| #[trigger] b.ready(t),
    decreases depth(s),
{
    match gate(s) {
        Gate::Free => {
            assert(b.ready(s));
        },
        Gate::Writable => {
            if b.writable() {
                assert(b.ready(s));
            } else {
                let r = Step::RemountRoot;
                assert(b.status_of(r) != Status::Running);
                assert(b.status_of(r) != Status::Failed);
                assert(b.ready(r));
            }
        },
        Gate::After(p) => {
            assert(b.status_of(p) != Status::Running);
            if b.status_of(p) == Status::Pending {
                lemma_pending_step_has_ready_ancestor(b, p);
            } else {
                if is_fatal(p) {
                    assert(b.status_of(p) != Status::Failed);
                }
                assert(b.ready(s));
            }
        },
    }
}

/// The work behind one boot step.
pub enum Work {
    /// Make sure the target's directory exists.
    EnsureDir(Target),
    /// Issue the mount request.
    Mount(MountSpec),
    /// Run these programs one after another, each to its exit; the step succeeds when all do.
    Run(Vec<Invocation>),
    /// Start this program in the background and do not wait for it.
    Detach(Invocation),
}

/// The target a directory or mount step works on.
pub open spec fn target_of(s: Step) -> Target {
    match s {
        Step::RemountRoot => Target::Root,
        Step::EnsureDev | Step::MountDev => Target::Dev,
        Step::EnsureDevPts | Step::MountDevPts => Target::DevPts,
        Step::EnsureDevShm => Target::DevShm,
        Step::EnsureProc | Step::MountProc => Target::Proc,
        _ => Target::Sys,
    }
}

pub open spec fn is_ensure(s: Step) -> bool {
    s == Step::EnsureDev || s == Step::EnsureDevPts || s == Step::EnsureDevShm || s
        == Step::EnsureProc || s == Step::EnsureSys
}

/// The work of step `s`: the fixed mount table, the fixed network of the machine (loopback
/// `127.0.0.1/8` on `lo`, `192.168.20.69/24` on `eth0`, default route via `192.168.20.1`),
/// then the device-event daemon and its coldplug scan.
pub fn work_of(s: Step) -> (r: Work)
    ensures
        is_ensure(s) <==> r is EnsureDir,
        r is EnsureDir ==> r->EnsureDir_0 == target_of(s),
        (is_fatal(s) && !is_ensure(s)) <==> r is Mount,
        r is Mount ==> is_table_entry(target_of(s), r->Mount_0),
        s == Step::AddressLoopback ==> r is Run && r->Run_0@.len() == 2 && runs_ip(
            r->Run_0@[0],
            seq!["addr"@, "add"@, "127.0.0.1/8"@, "dev"@, "lo"@],
        ) && runs_ip(r->Run_0@[1], seq!["link"@, "set"@, "lo"@, "up"@]),
        s == Step::AddressPrimary ==> r is Run && r->Run_0@.len() == 2 && runs_ip(
            r->Run_0@[0],
            seq!["addr"@, "add"@, "192.168.20.69/24"@, "dev"@, "eth0"@],
        ) && runs_ip(r->Run_0@[1], seq!["link"@, "set"@, "eth0"@, "up"@]),
        s == Step::DefaultRoute ==> r is Run && r->Run_0@.len() == 1 && runs_ip(
            r->Run_0@[0],
            seq!["route"@, "add"@, "default"@, "via"@, "192.168.20.1"@],
        ),
        s == Step::StartDeviceDaemon ==> r is Detach && r->Detach_0.program@ == "udevd"@
            && r->Detach_0.args_view() == Seq::<Seq<char>>::empty()
            && r->Detach_0.env_view() == seq![("PATH"@, SEARCH_PATH@)],
        s == Step::Coldplug ==> r is Run && r->Run_0@.len() == 1 && r->Run_0@[0].program@
            == "udevadm"@ && r->Run_0@[0].args_view() == seq!["trigger"@]
            && r->Run_0@[0].env_view() == seq![("PATH"@, SEARCH_PATH@)],
{
    match s {
        Step::EnsureDev => Work::EnsureDir(Target::Dev),
        Step::EnsureDevPts => Work::EnsureDir(Target::DevPts),
        Step::EnsureDevShm => Work::EnsureDir(Target::DevShm),
        Step::EnsureProc => Work::EnsureDir(Target::Proc),
        Step::EnsureSys => Work::EnsureDir(Target::Sys),
        Step::RemountRoot => Work::Mount(mount_spec(Target::Root).unwrap()),
        Step::MountDev => Work::Mount(mount_spec(Target::Dev).unwrap()),
        Step::MountDevPts => Work::Mount(mount_spec(Target::DevPts).unwrap()),
        Step::MountProc => Work::Mount(mount_spec(Target::Proc).unwrap()),
        Step::MountSys => Work::Mount(mount_spec(Target::Sys).unwrap()),
        Step::AddressLoopback => Work::Run(crate::ip::add("lo", "127.0.0.1/8")),
        Step::AddressPrimary => Work::Run(crate::ip::add("eth0", "192.168.20.69/24")),
        Step::DefaultRoute => Work::Run(vec![crate::ip::route("default", "192.168.20.1")]),
        Step::StartDeviceDaemon => Work::Detach(device_daemon()),
        Step::Coldplug => Work::Run(vec![coldplug_trigger()]),
    }
}

} // verus!
