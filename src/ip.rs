use vstd::prelude::*;
use crate::command::{command, Invocation, SEARCH_PATH};

verus! {

/// Whether `r` runs the address tool with `args`, under the fixed search path.
pub open spec fn runs_ip(r: Invocation, args: Seq<Seq<char>>) -> bool {
    &&& r.program@ == "ip"@
    &&& r.args_view() == args
    &&& r.env_view() == seq![("PATH"@, SEARCH_PATH@)]
    &&& r.dir is None
}

fn ip(subcommand: &str) -> (r: Invocation)
    ensures
        runs_ip(r, seq![subcommand@]),
{
    let mut r = command("ip");
    r.arg(subcommand);
    proof {
        assert(r.args_view() =~= seq![subcommand@]);
    }
    r
}

/// The two commands, run in this order, that give `interface` the address `address`
/// (in CIDR form) and then bring the link up.
pub fn add(interface: &str, address: &str) -> (r: Vec<Invocation>)
    ensures
        r@.len() == 2,
        runs_ip(r@[0], seq!["addr"@, "add"@, address@, "dev"@, interface@]),
        runs_ip(r@[1], seq!["link"@, "set"@, interface@, "up"@]),
{
    let mut assign = ip("addr");
    assign.arg("add");
    assign.arg(address);
    assign.arg("dev");
    assign.arg(interface);
    let mut up = ip("link");
    up.arg("set");
    up.arg(interface);
    up.arg("up");
    proof {
        assert(assign.args_view() =~= seq!["addr"@, "add"@, address@, "dev"@, interface@]);
        assert(up.args_view() =~= seq!["link"@, "set"@, interface@, "up"@]);
    }
    vec![assign, up]
}

/// The command that adds the route `destination` through `gateway`.
pub fn route(destination: &str, gateway: &str) -> (r: Invocation)
    ensures
        runs_ip(r, seq!["route"@, "add"@, destination@, "via"@, gateway@]),
{
    let mut r = ip("route");
    r.arg("add");
    r.arg(destination);
    r.arg("via");
    r.arg(gateway);
    proof {
        assert(r.args_view() =~= seq!["route"@, "add"@, destination@, "via"@, gateway@]);
    }
    r
}

} // verus!
