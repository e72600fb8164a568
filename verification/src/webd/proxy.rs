//! `/iod/*` and `/sys/*`: one origin in front of the other daemons.
//!
//! A page that had to reach a second port would fail wherever only one is open.
//! So the page talks to one origin and requests are forwarded.
use crate::env::or_text;
use crate::flasher::board::opt_str;
use crate::json::{members, object, put, with, Json, JsonModel, Member};
use crate::text::{cat2, cat6, from_chars, starts_with, starts_with_str, strip_prefix, strip_prefix_str, to_chars};
use vstd::prelude::*;
use vstd::string::*;

verus! {

/// Where a daemon listens: loopback, unless the environment says otherwise.
pub fn iod_addr(env: Option<&str>) -> (r: String)
    ensures
        r@ == or_text(opt_str(env), "127.0.0.1:7070"@),
{
    match env {
        Some(a) => String::from_str(a),
        None => String::from_str("127.0.0.1:7070"),
    }
}

/// Where the telemetry daemon listens.
pub fn sysmond_addr(env: Option<&str>) -> (r: String)
    ensures
        r@ == or_text(opt_str(env), "127.0.0.1:7071"@),
{
    match env {
        Some(a) => String::from_str(a),
        None => String::from_str("127.0.0.1:7071"),
    }
}

/// A daemon behind this one.
#[derive(Debug, Clone, Copy, PartialEq, Eq, Structural)]
pub enum Daemon {
    Iod,
    Sysmond,
}

impl Daemon {
    pub open spec fn word(self) -> Seq<char> {
        match self {
            Daemon::Iod => "iod"@,
            Daemon::Sysmond => "sysmond"@,
        }
    }

    pub fn name(&self) -> (r: &'static str)
        ensures
            r@ == self.word(),
    {
        match self {
            Daemon::Iod => "iod",
            Daemon::Sysmond => "sysmond",
        }
    }

    /// The path a daemon is mounted at.
    pub open spec fn at(self) -> Seq<char> {
        match self {
            Daemon::Iod => "/iod"@,
            Daemon::Sysmond => "/sys"@,
        }
    }

    pub fn mount(&self) -> (r: &'static str)
        ensures
            r@ == self.at(),
    {
        match self {
            Daemon::Iod => "/iod",
            Daemon::Sysmond => "/sys",
        }
    }
}

/// Which daemon a path goes to is decided by its prefix alone.
pub open spec fn daemon_of(path: Seq<char>) -> Daemon {
    if starts_with(path, "/sys/"@) {
        Daemon::Sysmond
    } else {
        Daemon::Iod
    }
}

/// The path and query the daemon sees: without the mount point it came under. A
/// path that is under none passes untouched.
pub open spec fn upstream(path: Seq<char>, query: Option<Seq<char>>) -> Seq<char> {
    let rest = match strip_prefix(path, daemon_of(path).at()) {
        Some(r) => r,
        None => path,
    };
    let p = if rest.len() == 0 {
        "/"@
    } else {
        rest
    };
    match query {
        Some(q) => p + ("?"@ + q),
        None => p,
    }
}

/// Where a request goes and what it asks there.
pub fn route(path: &str, query: Option<&str>) -> (r: (Daemon, String))
    ensures
        r.0 == daemon_of(path@),
        r.1@ == upstream(path@, opt_str(query)),
{
    let chars = to_chars(path);
    let d: Daemon = if starts_with_str(chars.as_slice(), "/sys/") {
        Daemon::Sysmond
    } else {
        Daemon::Iod
    };
    let rest: &[char] = match strip_prefix_str(chars.as_slice(), d.mount()) {
        Some(r) => r,
        None => chars.as_slice(),
    };
    let p: String = if rest.len() == 0 {
        String::from_str("/")
    } else {
        from_chars(rest)
    };
    match query {
        Some(q) => {
            let tail = cat2("?", q);
            (d, cat2(p.as_str(), tail.as_str()))
        },
        None => (d, p),
    }
}

/// What is answered when a daemon cannot be reached: which one is missing.
pub open spec fn unreachable_doc(d: Daemon, addr: Seq<char>, why: Seq<char>) -> JsonModel {
    JsonModel::Object(
        with(
            with(
                seq![],
                "error"@,
                JsonModel::Text("cannot reach "@ + d.word() + " at "@ + addr + ": "@ + why),
            ),
            "code"@,
            JsonModel::Text(d.word() + "_unreachable"@),
        ),
    )
}

pub fn unreachable_answer(d: Daemon, addr: &str, why: &str) -> (r: Json)
    ensures
        r@ == unreachable_doc(d, addr@, why@),
{
    let mut o: Vec<Member> = Vec::new();
    assert(members(o@) =~= seq![]);
    let e = cat6("cannot reach ", d.name(), " at ", addr, ": ", why);
    put(&mut o, "error", Json::Text(e));
    let c = cat2(d.name(), "_unreachable");
    put(&mut o, "code", Json::Text(c));
    object(o)
}

/// A path under a mount point reaches the daemon as the path behind it, and the
/// control socket, which stands at the same path on both sides, is not rewritten.
pub proof fn law_mounts_come_off(rest: Seq<char>)
    requires
        rest.len() > 0,
        rest[0] == '/',
    ensures
        daemon_of("/sys"@ + rest) == Daemon::Sysmond,
        upstream("/sys"@ + rest, None) == rest,
        daemon_of("/iod"@ + rest) == Daemon::Iod,
        upstream("/iod"@ + rest, None) == rest,
        daemon_of("/mqtt"@) == Daemon::Iod,
        upstream("/mqtt"@, None) == "/mqtt"@,
{
    reveal_strlit("/sys");
    reveal_strlit("/sys/");
    reveal_strlit("/iod");
    reveal_strlit("/mqtt");
    let s = "/sys"@ + rest;
    assert(s.subrange(0, 5) =~= "/sys/"@);
    assert(s.subrange(0, 4) =~= "/sys"@);
    assert(s.skip(4) =~= rest);
    let i = "/iod"@ + rest;
    assert(i.subrange(0, 5)[1] == 'i');
    assert(i.subrange(0, 4) =~= "/iod"@);
    assert(i.skip(4) =~= rest);
    let m = "/mqtt"@;
    assert(m.subrange(0, 5)[1] == 'm');
    assert(m.subrange(0, 4)[1] == 'm');
}

} // verus!
