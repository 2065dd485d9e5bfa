use seraph::boot::{work_of, Boot, Status, Step, Work};
use seraph::mounts::{MountError, Target};

/// Drives boot to its end, finishing steps in the order they were started; `fails` names
/// the steps whose work fails. Returns the steps in the order they began.
fn drive(boot: &mut Boot, fails: &[Step]) -> Vec<Step> {
    let mut order = Vec::new();
    loop {
        let started = boot.start_ready();
        if started.is_empty() {
            return order;
        }
        for s in started {
            order.push(s);
            boot.finish(s, !fails.contains(&s));
        }
    }
}

fn position(order: &[Step], s: Step) -> usize {
    order.iter().position(|x| *x == s).unwrap()
}

#[test]
fn fresh_boot_starts_with_root_remount_only() {
    let mut boot = Boot::new();
    assert_eq!(boot.start_ready(), vec![Step::RemountRoot]);
    assert_eq!(boot.start_ready(), Vec::<Step>::new());
}

#[test]
fn remount_success_releases_three_branches() {
    let mut boot = Boot::new();
    boot.start_ready();
    boot.finish(Step::RemountRoot, true);
    assert_eq!(
        boot.start_ready(),
        vec![Step::EnsureDev, Step::EnsureProc, Step::EnsureSys]
    );
}

#[test]
fn full_boot_completes_in_dependency_order() {
    let mut boot = Boot::new();
    let order = drive(&mut boot, &[]);
    assert_eq!(order.len(), 15);
    assert!(boot.is_complete());
    assert_eq!(boot.fatal_error(), None);
    assert!(boot.best_effort_failures().is_empty());
    assert_eq!(order[0], Step::RemountRoot);
    for s in &order[1..] {
        assert!(position(&order, *s) > position(&order, Step::RemountRoot));
    }
    let dev = position(&order, Step::MountDev);
    assert!(position(&order, Step::EnsureDevPts) > dev);
    assert!(position(&order, Step::EnsureDevShm) > dev);
    let sys = position(&order, Step::MountSys);
    for s in [
        Step::AddressLoopback,
        Step::AddressPrimary,
        Step::DefaultRoute,
        Step::StartDeviceDaemon,
        Step::Coldplug,
    ] {
        assert!(position(&order, s) > sys);
    }
}

#[test]
fn pts_and_shm_both_wait_for_dev_and_may_run_together() {
    let mut boot = Boot::new();
    boot.start_ready();
    boot.finish(Step::RemountRoot, true);
    boot.start_ready();
    boot.finish(Step::EnsureDev, true);
    assert_eq!(boot.start_ready(), vec![Step::MountDev]);
    assert_eq!(boot.status(Step::EnsureDevPts), Status::Pending);
    assert_eq!(boot.status(Step::EnsureDevShm), Status::Pending);
    boot.finish(Step::MountDev, true);
    assert_eq!(
        boot.start_ready(),
        vec![Step::EnsureDevPts, Step::EnsureDevShm]
    );
    boot.finish(Step::EnsureDevShm, true);
    boot.finish(Step::EnsureDevPts, true);
    assert_eq!(boot.start_ready(), vec![Step::MountDevPts]);
}

#[test]
fn network_waits_for_sys_mount() {
    let mut boot = Boot::new();
    boot.start_ready();
    boot.finish(Step::RemountRoot, true);
    boot.start_ready();
    boot.finish(Step::EnsureSys, true);
    boot.start_ready();
    assert_eq!(boot.status(Step::AddressLoopback), Status::Pending);
    boot.finish(Step::MountSys, true);
    assert!(boot.start_ready().contains(&Step::AddressLoopback));
}

#[test]
fn root_remount_failure_is_fatal_and_nothing_else_starts() {
    let mut boot = Boot::new();
    let order = drive(&mut boot, &[Step::RemountRoot]);
    assert_eq!(order, vec![Step::RemountRoot]);
    assert_eq!(
        boot.fatal_error(),
        Some(MountError::MountFailed(Target::Root))
    );
    assert!(!boot.is_complete());
    for s in [Step::EnsureDev, Step::MountDev, Step::MountProc, Step::MountSys] {
        assert_eq!(boot.status(s), Status::Pending);
    }
}

#[test]
fn primary_address_failure_is_best_effort() {
    let mut boot = Boot::new();
    let order = drive(&mut boot, &[Step::AddressPrimary]);
    assert_eq!(order.len(), 15);
    assert!(boot.is_complete());
    assert_eq!(boot.fatal_error(), None);
    assert_eq!(boot.best_effort_failures(), vec![Step::AddressPrimary]);
    assert_eq!(boot.status(Step::Coldplug), Status::Succeeded);
}

#[test]
fn proc_mount_failure_stops_new_steps() {
    let mut boot = Boot::new();
    drive(&mut boot, &[Step::MountProc]);
    assert_eq!(
        boot.fatal_error(),
        Some(MountError::MountFailed(Target::Proc))
    );
    assert!(!boot.is_complete());
}

#[test]
fn dev_directory_failure_reports_dir_error() {
    let mut boot = Boot::new();
    drive(&mut boot, &[Step::EnsureDev]);
    assert_eq!(boot.fatal_error(), Some(MountError::DirFailed(Target::Dev)));
}

#[test]
fn step_work_matches_table() {
    match work_of(Step::MountProc) {
        Work::Mount(m) => {
            assert_eq!(m.target, Target::Proc);
            assert_eq!(m.data, Some("hidepid=invisible"));
        }
        _ => panic!("proc is a mount"),
    }
    match work_of(Step::EnsureDevShm) {
        Work::EnsureDir(t) => assert_eq!(t, Target::DevShm),
        _ => panic!("shm is a directory"),
    }
    match work_of(Step::AddressPrimary) {
        Work::Run(cmds) => {
            assert_eq!(cmds.len(), 2);
            assert_eq!(cmds[0].args, vec!["addr", "add", "192.168.20.69/24", "dev", "eth0"]);
            assert_eq!(cmds[1].args, vec!["link", "set", "eth0", "up"]);
        }
        _ => panic!("address is a command"),
    }
    match work_of(Step::StartDeviceDaemon) {
        Work::Detach(c) => assert_eq!(c.program, "udevd"),
        _ => panic!("daemon is detached"),
    }
}
