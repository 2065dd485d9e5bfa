use vstd::prelude::*;
use crate::command::{command, Invocation, SEARCH_PATH};

verus! {

/// The login user's name.
pub const NAME: &'static str = "saraph";

/// The login user's home, also the working directory of its shell.
pub const HOME: &'static str = "/saraph";

/// The shell a login session runs, found through the search path.
pub const SHELL: &'static str = "zsh";

/// The login user's id.
pub const USER_ID: u32 = 1;

/// The login user's group id, equal to its user id.
pub const GROUP_ID: u32 = USER_ID;

/// The identity a login shell runs under.
#[derive(Clone, Debug)]
pub struct Identity {
    pub uid: u32,
    pub gid: u32,
    pub groups: Vec<u32>,
}

/// The supplementary groups of the login user.
pub open spec fn login_groups() -> Seq<u32> {
    seq![3u32, 4u32, 5u32]
}

/// The fixed unprivileged identity of login sessions.
pub fn identity() -> (r: Identity)
    ensures
        r.uid == USER_ID,
        r.gid == GROUP_ID,
        r.uid != 0,
        r.groups@ == login_groups(),
{
    let r = Identity { uid: USER_ID, gid: GROUP_ID, groups: vec![3u32, 4u32, 5u32] };
    assert(r.groups@ =~= login_groups());
    r
}

/// The login shell: run in the home directory with `HOME` set to it, under the search path.
pub fn shell() -> (r: Invocation)
    ensures
        r.program@ == SHELL@,
        r.args_view() == Seq::<Seq<char>>::empty(),
        r.env_view() == seq![("PATH"@, SEARCH_PATH@), ("HOME"@, HOME@)],
        r.dir is Some,
        r.dir.unwrap()@ == HOME@,
{
    let mut r = command(SHELL);
    r.env("HOME", HOME);
    r.dir = Some(HOME.to_owned());
    proof {
        assert(r.env_view() =~= seq![("PATH"@, SEARCH_PATH@), ("HOME"@, HOME@)]);
    }
    r
}

/// Where dropping privilege stands in the child, before the shell's image replaces it.
#[derive(PartialEq, Eq, Structural, Clone, Copy, Debug)]
pub enum Drop {
    SetGroups,
    SetGid,
    SetUid,
    /// Every change took effect: the shell may be executed.
    Exec,
    /// A change failed: the spawn must be abandoned.
    Abort,
}

pub open spec fn next_drop(d: Drop, ok: bool) -> Drop {
    match d {
        Drop::SetGroups => if ok { Drop::SetGid } else { Drop::Abort },
        Drop::SetGid => if ok { Drop::SetUid } else { Drop::Abort },
        Drop::SetUid => if ok { Drop::Exec } else { Drop::Abort },
        other => other,
    }
}

impl Drop {
    /// The first change to make: the supplementary groups, then the group, then the user.
    pub fn first() -> (r: Drop)
        ensures
            r == Drop::SetGroups,
    {
        Drop::SetGroups
    }

    /// The next stage, given whether the change of this stage took effect.
    pub fn next(self, ok: bool) -> (r: Drop)
        ensures
            r == next_drop(self, ok),
    {
        match self {
            Drop::SetGroups => if ok { Drop::SetGid } else { Drop::Abort },
            Drop::SetGid => if ok { Drop::SetUid } else { Drop::Abort },
            Drop::SetUid => if ok { Drop::Exec } else { Drop::Abort },
            other => other,
        }
    }
}

/// The shell is executed only when all three changes, made in order, took effect; a single
/// failure abandons the spawn.
pub proof fn lemma_exec_only_unprivileged(groups_ok: bool, gid_ok: bool, uid_ok: bool)
    ensures
        (next_drop(next_drop(next_drop(Drop::SetGroups, groups_ok), gid_ok), uid_ok)
            == Drop::Exec) <==> (groups_ok && gid_ok && uid_ok),
        !(groups_ok && gid_ok && uid_ok) ==> next_drop(
            next_drop(next_drop(Drop::SetGroups, groups_ok), gid_ok),
            uid_ok,
        ) == Drop::Abort,
{
}

} // verus!
