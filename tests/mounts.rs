use seraph::mounts::{
    devpts, devtmpfs, ensure_dir, mount_outcome, mount_spec, proc, root, sysfs, DirState,
    FsType, MountError, Target,
};

#[test]
fn ensure_existing_directory_twice_is_fine() {
    assert_eq!(ensure_dir(Target::Dev, DirState::Existing), Ok(()));
    assert_eq!(ensure_dir(Target::Dev, DirState::Existing), Ok(()));
}

#[test]
fn ensure_tolerates_a_concurrent_creator() {
    assert_eq!(ensure_dir(Target::Proc, DirState::Created), Ok(()));
    assert_eq!(ensure_dir(Target::Proc, DirState::CreatedByOther), Ok(()));
    assert_eq!(
        ensure_dir(Target::Sys, DirState::CreateFailed),
        Err(MountError::DirFailed(Target::Sys))
    );
}

#[test]
fn mount_failure_names_target() {
    assert_eq!(mount_outcome(Target::Root, true), Ok(()));
    assert_eq!(
        mount_outcome(Target::Root, false),
        Err(MountError::MountFailed(Target::Root))
    );
}

#[test]
fn root_is_a_noatime_remount() {
    let m = root();
    assert_eq!(m.target, Target::Root);
    assert!(m.remount && m.no_atime);
    assert_eq!(m.fstype, None);
    assert!(!m.ensure_dir);
    assert_eq!(m.data, None);
}

#[test]
fn table_entries() {
    let d = devtmpfs();
    assert_eq!((d.target, d.fstype), (Target::Dev, Some(FsType::Devtmpfs)));
    let p = devpts();
    assert_eq!((p.target, p.fstype), (Target::DevPts, Some(FsType::Devpts)));
    let pr = proc();
    assert_eq!(pr.fstype, Some(FsType::Proc));
    assert_eq!(pr.data, Some("hidepid=invisible"));
    let s = sysfs();
    assert_eq!((s.target, s.fstype), (Target::Sys, Some(FsType::Sysfs)));
    for m in [d, p, pr, s] {
        assert!(m.no_atime && !m.remount && m.ensure_dir);
    }
    assert!(mount_spec(Target::DevShm).is_none());
}

#[test]
fn paths_and_names() {
    assert_eq!(Target::Root.path(), "/");
    assert_eq!(Target::DevPts.path(), "/dev/pts");
    assert_eq!(Target::DevShm.path(), "/dev/shm");
    assert_eq!(FsType::Devtmpfs.name(), "devtmpfs");
    assert_eq!(FsType::Sysfs.name(), "sysfs");
}
