use vstd::prelude::*;

verus! {

/// The search path given to every program that init starts, in place of any inherited one.
pub const SEARCH_PATH: &'static str = "/bin:/sbin:/usr/local/bin:/usr/local/sbin";

/// An external program to run: its name, arguments, environment and working directory.
#[derive(Clone, Debug)]
pub struct Invocation {
    pub program: String,
    pub args: Vec<String>,
    pub env: Vec<(String, String)>,
    pub dir: Option<String>,
}

pub open spec fn views(v: Seq<String>) -> Seq<Seq<char>> {
    v.map_values(|s: String| s@)
}

pub open spec fn env_views(v: Seq<(String, String)>) -> Seq<(Seq<char>, Seq<char>)> {
    v.map_values(|p: (String, String)| (p.0@, p.1@))
}

impl Invocation {
    pub open spec fn args_view(&self) -> Seq<Seq<char>> {
        views(self.args@)
    }

    pub open spec fn env_view(&self) -> Seq<(Seq<char>, Seq<char>)> {
        env_views(self.env@)
    }

    /// Appends one argument.
    pub fn arg(&mut self, a: &str)
        ensures
            final(self).program == old(self).program,
            final(self).args_view() == old(self).args_view().push(a@),
            final(self).env_view() == old(self).env_view(),
            final(self).dir == old(self).dir,
    {
        self.args.push(a.to_owned());
        proof {
            assert(views(self.args@) =~= views(old(self).args@).push(a@));
        }
    }

    /// Sets one environment variable; the variables already set stay before it.
    pub fn env(&mut self, key: &str, value: &str)
        ensures
            final(self).program == old(self).program,
            final(self).args_view() == old(self).args_view(),
            final(self).env_view() == old(self).env_view().push((key@, value@)),
            final(self).dir == old(self).dir,
    {
        self.env.push((key.to_owned(), value.to_owned()));
        proof {
            assert(env_views(self.env@) =~= env_views(old(self).env@).push((key@, value@)));
        }
    }
}

/// A program to be started with the fixed search path and nothing else yet.
pub fn command(name: &str) -> (r: Invocation)
    ensures
        r.program@ == name@,
        r.args_view() == Seq::<Seq<char>>::empty(),
        r.env_view() == seq![("PATH"@, SEARCH_PATH@)],
        r.dir is None,
{
    let mut r = Invocation {
        program: name.to_owned(),
        args: Vec::new(),
        env: Vec::new(),
        dir: None,
    };
    proof {
        assert(r.args_view() =~= Seq::<Seq<char>>::empty());
        assert(r.env_view() =~= Seq::empty());
    }
    r.env("PATH", SEARCH_PATH);
    proof {
        assert(r.env_view() =~= seq![("PATH"@, SEARCH_PATH@)]);
    }
    r
}

/// The device-event daemon, started with no arguments.
pub fn device_daemon() -> (r: Invocation)
    ensures
        r.program@ == "udevd"@,
        r.args_view() == Seq::<Seq<char>>::empty(),
        r.env_view() == seq![("PATH"@, SEARCH_PATH@)],
        r.dir is None,
{
    command("udevd")
}

/// The one-shot scan that announces the devices already present.
pub fn coldplug_trigger() -> (r: Invocation)
    ensures
        r.program@ == "udevadm"@,
        r.args_view() == seq!["trigger"@],
        r.env_view() == seq![("PATH"@, SEARCH_PATH@)],
        r.dir is None,
{
    let mut r = command("udevadm");
    r.arg("trigger");
    proof {
        assert(r.args_view() =~= seq!["trigger"@]);
    }
    r
}

} // verus!
