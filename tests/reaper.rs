use seraph::reaper::{wait_result, ReapEvent, Reaper};

/// Runs the reaper against a table of `n` terminated children, as the kernel hands them out.
fn storm(n: u32) -> (u32, u32) {
    let mut zombies = n;
    let mut calls = 0;
    let mut r = Reaper::start().next(ReapEvent::Notified);
    while r.collecting() {
        calls += 1;
        let ret = if zombies > 0 {
            zombies -= 1;
            100 + zombies as i32
        } else {
            -1
        };
        r = r.next(wait_result(ret));
    }
    (zombies, calls)
}

#[test]
fn notification_storm_leaves_no_zombie() {
    assert_eq!(storm(0), (0, 1));
    assert_eq!(storm(1), (0, 2));
    assert_eq!(storm(25), (0, 26));
}

#[test]
fn wait_results() {
    assert_eq!(wait_result(42), ReapEvent::Collected);
    assert_eq!(wait_result(0), ReapEvent::NoneLeft);
    assert_eq!(wait_result(-1), ReapEvent::NoneLeft);
}

#[test]
fn reaper_waits_until_notified() {
    assert_eq!(Reaper::start(), Reaper::Waiting);
    assert!(!Reaper::start().collecting());
    assert_eq!(Reaper::Waiting.next(ReapEvent::Notified), Reaper::Draining);
    assert_eq!(Reaper::Draining.next(ReapEvent::NoneLeft), Reaper::Waiting);
}
