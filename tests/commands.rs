use seraph::command::{command, coldplug_trigger, SEARCH_PATH};
use seraph::ip::{add, route};
use seraph::login::{identity, shell, Drop, HOME, SHELL};
use seraph::signal::Readiness;

#[test]
fn command_sets_search_path() {
    let c = command("ip");
    assert_eq!(c.program, "ip");
    assert!(c.args.is_empty());
    assert_eq!(c.env, vec![("PATH".to_string(), SEARCH_PATH.to_string())]);
    assert_eq!(c.dir, None);
}

#[test]
fn address_then_link_up() {
    let cmds = add("lo", "127.0.0.1/8");
    assert_eq!(cmds.len(), 2);
    assert_eq!(cmds[0].program, "ip");
    assert_eq!(cmds[0].args, vec!["addr", "add", "127.0.0.1/8", "dev", "lo"]);
    assert_eq!(cmds[1].args, vec!["link", "set", "lo", "up"]);
}

#[test]
fn default_route() {
    let c = route("default", "192.168.20.1");
    assert_eq!(c.args, vec!["route", "add", "default", "via", "192.168.20.1"]);
}

#[test]
fn trigger_subcommand() {
    let c = coldplug_trigger();
    assert_eq!(c.program, "udevadm");
    assert_eq!(c.args, vec!["trigger"]);
}

#[test]
fn login_shell_runs_at_home() {
    let s = shell();
    assert_eq!(s.program, SHELL);
    assert_eq!(s.dir, Some(HOME.to_string()));
    assert_eq!(s.env[1], ("HOME".to_string(), "/saraph".to_string()));
    let id = identity();
    assert_eq!((id.uid, id.gid), (1, 1));
    assert_eq!(id.groups, vec![3, 4, 5]);
}

#[test]
fn privilege_drop_order_and_abort() {
    let d = Drop::first();
    assert_eq!(d, Drop::SetGroups);
    assert_eq!(d.next(true).next(true).next(true), Drop::Exec);
    assert_eq!(d.next(true).next(false), Drop::Abort);
    assert_eq!(d.next(true).next(false).next(true), Drop::Abort);
}

#[test]
fn readiness_stays_set() {
    let mut r = Readiness::new();
    assert!(!r.is_set());
    r.set();
    r.set();
    assert!(r.is_set());
}
