use vstd::prelude::*;

verus! {

/// A filesystem location that boot prepares.
#[derive(PartialEq, Eq, Structural, Clone, Copy, Debug)]
pub enum Target {
    Root,
    Dev,
    DevPts,
    DevShm,
    Proc,
    Sys,
}

/// A kernel filesystem type that boot mounts.
#[derive(PartialEq, Eq, Structural, Clone, Copy, Debug)]
pub enum FsType {
    Devtmpfs,
    Devpts,
    Proc,
    Sysfs,
}

/// Why preparing a target failed.
#[derive(PartialEq, Eq, Structural, Clone, Copy, Debug)]
pub enum MountError {
    /// The kernel refused the mount request for the target.
    MountFailed(Target),
    /// The target directory was absent and could not be created.
    DirFailed(Target),
}

/// What was found, or done, when making sure a target directory exists.
#[derive(PartialEq, Eq, Structural, Clone, Copy, Debug)]
pub enum DirState {
    /// The directory was already there.
    Existing,
    /// The directory was absent and has been created.
    Created,
    /// The directory was absent, and creating it found that someone else had just made it.
    CreatedByOther,
    /// The directory was absent and creating it failed.
    CreateFailed,
}

/// One mount request: where, which filesystem (none for a remount), which flags and data.
#[derive(Clone, Copy, Debug)]
pub struct MountSpec {
    pub target: Target,
    pub fstype: Option<FsType>,
    pub no_atime: bool,
    pub remount: bool,
    pub data: Option<&'static str>,
    /// Whether the target directory must be made to exist before the mount.
    pub ensure_dir: bool,
}

pub open spec fn path_of(t: Target) -> Seq<char> {
    match t {
        Target::Root => "/"@,
        Target::Dev => "/dev"@,
        Target::DevPts => "/dev/pts"@,
        Target::DevShm => "/dev/shm"@,
        Target::Proc => "/proc"@,
        Target::Sys => "/sys"@,
    }
}

pub open spec fn fs_name_of(f: FsType) -> Seq<char> {
    match f {
        FsType::Devtmpfs => "devtmpfs"@,
        FsType::Devpts => "devpts"@,
        FsType::Proc => "proc"@,
        FsType::Sysfs => "sysfs"@,
    }
}

/// The filesystem mounted on a target, if boot mounts one there at all.
pub open spec fn fs_of(t: Target) -> Option<FsType> {
    match t {
        Target::Dev => Some(FsType::Devtmpfs),
        Target::DevPts => Some(FsType::Devpts),
        Target::Proc => Some(FsType::Proc),
        Target::Sys => Some(FsType::Sysfs),
        _ => None,
    }
}

/// Whether the target is only a directory that boot creates, with nothing mounted on it.
pub open spec fn dir_only(t: Target) -> bool {
    t == Target::DevShm
}

/// The fixed mount table: `spec` is the request boot issues for `t`.
pub open spec fn is_table_entry(t: Target, spec: MountSpec) -> bool {
    &&& spec.target == t
    &&& spec.no_atime
    &&& spec.remount == (t == Target::Root)
    &&& spec.ensure_dir == (t != Target::Root)
    &&& spec.fstype == fs_of(t)
    &&& (t == Target::Proc) == spec.data.is_some()
    &&& (t == Target::Proc ==> spec.data.unwrap()@ == "hidepid=invisible"@)
}

impl Target {
    pub fn path(&self) -> (r: &'static str)
        ensures
            r@ == path_of(*self),
    {
        match self {
            Target::Root => "/",
            Target::Dev => "/dev",
            Target::DevPts => "/dev/pts",
            Target::DevShm => "/dev/shm",
            Target::Proc => "/proc",
            Target::Sys => "/sys",
        }
    }
}

impl FsType {
    pub fn name(&self) -> (r: &'static str)
        ensures
            r@ == fs_name_of(*self),
    {
        match self {
            FsType::Devtmpfs => "devtmpfs",
            FsType::Devpts => "devpts",
            FsType::Proc => "proc",
            FsType::Sysfs => "sysfs",
        }
    }
}

/// The mount request for a target; `None` for a target that is only a directory.
pub fn mount_spec(t: Target) -> (r: Option<MountSpec>)
    ensures
        r.is_none() == dir_only(t),
        r.is_some() ==> is_table_entry(t, r.unwrap()),
{
    let fstype = match t {
        Target::Root => None,
        Target::Dev => Some(FsType::Devtmpfs),
        Target::DevPts => Some(FsType::Devpts),
        Target::DevShm => {
            return None;
        },
        Target::Proc => Some(FsType::Proc),
        Target::Sys => Some(FsType::Sysfs),
    };
    let data = match t {
        Target::Proc => Some("hidepid=invisible"),
        _ => None,
    };
    Some(
        MountSpec {
            target: t,
            fstype,
            no_atime: true,
            remount: matches!(t, Target::Root),
            data,
            ensure_dir: !matches!(t, Target::Root),
        },
    )
}

/// The remount of the root filesystem, without access times.
pub fn root() -> (r: MountSpec)
    ensures
        is_table_entry(Target::Root, r),
{
    mount_spec(Target::Root).unwrap()
}

/// The devtmpfs mount on `/dev`.
pub fn devtmpfs() -> (r: MountSpec)
    ensures
        is_table_entry(Target::Dev, r),
{
    mount_spec(Target::Dev).unwrap()
}

/// The devpts mount on `/dev/pts`.
pub fn devpts() -> (r: MountSpec)
    ensures
        is_table_entry(Target::DevPts, r),
{
    mount_spec(Target::DevPts).unwrap()
}

/// The proc mount on `/proc`, with process ids of other users hidden.
pub fn proc() -> (r: MountSpec)
    ensures
        is_table_entry(Target::Proc, r),
{
    mount_spec(Target::Proc).unwrap()
}

/// The sysfs mount on `/sys`.
pub fn sysfs() -> (r: MountSpec)
    ensures
        is_table_entry(Target::Sys, r),
{
    mount_spec(Target::Sys).unwrap()
}

pub open spec fn ensure_dir_spec(t: Target, d: DirState) -> Result<(), MountError> {
    match d {
        DirState::CreateFailed => Err(MountError::DirFailed(t)),
        _ => Ok(()),
    }
}

/// The outcome of making sure the directory of `t` exists: only a failed creation is an
/// error; a directory that was there, or that another task made first, is fine.
pub fn ensure_dir(t: Target, d: DirState) -> (r: Result<(), MountError>)
    ensures
        r == ensure_dir_spec(t, d),
{
    match d {
        DirState::CreateFailed => Err(MountError::DirFailed(t)),
        _ => Ok(()),
    }
}

/// The outcome of a mount request for `t`, given whether the kernel accepted it.
pub fn mount_outcome(t: Target, accepted: bool) -> (r: Result<(), MountError>)
    ensures
        accepted ==> r is Ok,
        !accepted ==> r == Err::<(), MountError>(MountError::MountFailed(t)),
{
    if accepted {
        Ok(())
    } else {
        Err(MountError::MountFailed(t))
    }
}

/// Making sure an existing directory exists succeeds, however often it is asked, and
/// the answer does not depend on what an earlier ask found.
pub proof fn lemma_ensure_existing_idempotent(t: Target, first: DirState)
    requires
        first != DirState::CreateFailed,
    ensures
        ensure_dir_spec(t, first) is Ok,
        ensure_dir_spec(t, DirState::Existing) is Ok,
        ensure_dir_spec(t, DirState::Existing) == ensure_dir_spec(t, first),
{
}

} // verus!
