use seraph::session::{console_path, Phase};

fn round(mut p: Phase) -> Phase {
    for _ in 0..6 {
        p = p.next(true);
    }
    p
}

#[test]
fn three_rounds_return_to_banner() {
    let mut p = Phase::start().next(true);
    assert_eq!(p, Phase::Banner);
    for _ in 0..3 {
        assert_eq!(p.next(true), Phase::ArmRaw);
        p = round(p);
        assert_eq!(p, Phase::Banner);
    }
}

#[test]
fn round_visits_each_phase_in_order() {
    let mut p = Phase::Banner;
    let mut seen = Vec::new();
    for _ in 0..6 {
        p = p.next(true);
        seen.push(p);
    }
    assert_eq!(
        seen,
        vec![
            Phase::ArmRaw,
            Phase::AwaitInput,
            Phase::RestoreCooked,
            Phase::Spawn,
            Phase::AwaitExit,
            Phase::Banner
        ]
    );
}

#[test]
fn shell_exit_with_failure_still_loops() {
    assert_eq!(Phase::AwaitExit.next(false), Phase::Banner);
}

#[test]
fn attribute_failures_stop_the_console() {
    assert_eq!(Phase::ArmRaw.next(false), Phase::Stopped);
    assert_eq!(Phase::RestoreCooked.next(false), Phase::Stopped);
    assert_eq!(Phase::Spawn.next(false), Phase::Stopped);
    assert!(Phase::Stopped.next(true).is_stopped());
}

#[test]
fn one_console_failing_leaves_the_other_looping() {
    let mut first = Phase::start().next(false);
    let mut second = Phase::start().next(true);
    let mut prompts = 0;
    for _ in 0..5 {
        first = round(first);
        assert!(first.is_stopped());
        assert_eq!(second, Phase::Banner);
        prompts += 1;
        second = round(second);
    }
    assert_eq!(prompts, 5);
    assert!(!second.is_stopped());
}

#[test]
fn console_devices() {
    assert_eq!(console_path(1), Some("/dev/tty1"));
    assert_eq!(console_path(2), Some("/dev/tty2"));
    assert_eq!(console_path(0), None);
    assert_eq!(console_path(3), None);
}
