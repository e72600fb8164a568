//! Runtime system state, out of what the kernel publishes.
use crate::env::{hostname, hostname_of};
use crate::flasher::board::opt_str;
use crate::flasher::image::opt_bytes;
use crate::json::{list, members, object, put, text, values, with, Json, JsonModel, Member};
use crate::text::{
    find_chars, find_from, from_chars, lossy, lossy_text, same, slices, strings, to_chars, trim, trim_str, words,
    words_of,
};
use crate::textmap::{before, text_lt};
use vstd::prelude::*;
use vstd::slice::slice_subrange;
use vstd::string::*;

verus! {

#[derive(Debug)]
pub struct Iface {
    pub name: String,
    pub ip: String,
    pub carrier: bool,
}

pub ghost struct IfaceModel {
    pub name: Seq<char>,
    pub ip: Seq<char>,
    pub carrier: bool,
}

impl View for Iface {
    type V = IfaceModel;

    open spec fn view(&self) -> IfaceModel {
        IfaceModel { name: self.name@, ip: self.ip@, carrier: self.carrier }
    }
}

pub open spec fn ifaces(v: Seq<Iface>) -> Seq<IfaceModel> {
    v.map_values(|i: Iface| i@)
}

/// A name in its place by text, after those that are the same.
pub open spec fn placed(v: Seq<Seq<char>>, n: Seq<char>) -> Seq<Seq<char>>
    decreases v.len(),
{
    if v.len() == 0 {
        seq![n]
    } else if text_lt(n, v.last()) {
        placed(v.drop_last(), n).push(v.last())
    } else {
        v.push(n)
    }
}

/// The interfaces to show, by name: all but the loopback.
pub open spec fn shown(names: Seq<Seq<char>>) -> Seq<Seq<char>>
    decreases names.len(),
{
    if names.len() == 0 {
        seq![]
    } else if names.last() == "lo"@ {
        shown(names.drop_last())
    } else {
        placed(shown(names.drop_last()), names.last())
    }
}

fn place(v: &mut Vec<String>, n: String)
    ensures
        strings(final(v)@) == placed(strings(old(v)@), n@),
    decreases old(v)@.len(),
{
    let ghost was = strings(v@);
    match v.pop() {
        None => {
            let ghost t = n@;
            v.push(n);
            assert(strings(v@) =~= seq![t]);
        },
        Some(l) => {
            assert(strings(v@) =~= was.drop_last());
            assert(l@ == was.last());
            if before(n.as_str(), l.as_str()) {
                place(v, n);
                let ghost mid = strings(v@);
                v.push(l);
                assert(strings(v@) =~= mid.push(l@));
            } else {
                assert(was.drop_last().push(was.last()) =~= was);
                let ghost t = n@;
                v.push(l);
                v.push(n);
                assert(strings(v@) =~= was.push(t));
            }
        },
    }
}

/// The interfaces to show, out of the names in the class directory.
pub fn interfaces(names: &Vec<String>) -> (r: Vec<String>)
    ensures
        strings(r@) == shown(strings(names@)),
{
    let ghost all = strings(names@);
    let mut out: Vec<String> = Vec::new();
    let mut i: usize = 0;
    assert(strings(out@) =~= shown(all.take(0)));
    while i < names.len()
        invariant
            i <= names@.len(),
            all == strings(names@),
            strings(out@) == shown(all.take(i as int)),
        decreases names@.len() - i,
    {
        assert(all.take(i + 1).drop_last() =~= all.take(i as int));
        assert(all.take(i + 1).last() == names@[i as int]@);
        if !same(names[i].as_str(), "lo") {
            place(&mut out, String::from_str(names[i].as_str()));
        }
        i += 1;
    }
    assert(all.take(i as int) =~= all);
    out
}

/// The address in what `ip -4 -o addr show` prints: the word behind `inet `.
pub open spec fn address_in(s: Seq<char>) -> Seq<char> {
    match find_from(s, "inet "@, 0) {
        Some(i) => {
            let ws = words(s.skip(i + 5));
            if ws.len() == 0 {
                seq![]
            } else {
                ws[0]
            }
        },
        None => seq![],
    }
}

/// The address of an interface out of the command's output, or nothing where
/// the command could not run.
pub open spec fn ip_of(out: Option<Seq<u8>>) -> Seq<char> {
    match out {
        Some(b) => address_in(lossy_text(b)),
        None => seq![],
    }
}

fn address(s: &[char]) -> (r: String)
    ensures
        r@ == address_in(s@),
{
    let pat = to_chars("inet ");
    proof {
        reveal_strlit("inet ");
    }
    let e = String::new();
    assert(e@ =~= seq![]);
    match find_chars(s, pat.as_slice()) {
        Some(i) => {
            let rest = slice_subrange(s, i + 5, s.len());
            assert(rest@ =~= s@.skip(i + 5));
            let ws = words_of(rest);
            assert(slices(ws@).len() == ws@.len());
            if ws.len() == 0 {
                e
            } else {
                assert(slices(ws@)[0] == ws@[0]@);
                from_chars(ws[0])
            }
        },
        None => e,
    }
}

/// An interface's line: its name, what the command printed for it, and what its
/// `carrier` file holds.
pub open spec fn iface_of(name: Seq<char>, out: Option<Seq<u8>>, carrier: Option<Seq<char>>) -> IfaceModel {
    IfaceModel {
        name,
        ip: ip_of(out),
        carrier: match carrier {
            Some(t) => trim(t) == "1"@,
            None => false,
        },
    }
}

pub fn iface(name: &str, out: Option<&[u8]>, carrier: Option<&str>) -> (r: Iface)
    ensures
        r@ == iface_of(name@, opt_bytes(out), opt_str(carrier)),
{
    let ip: String = match out {
        Some(b) => {
            let t = lossy(b);
            let chars = to_chars(t.as_str());
            address(chars.as_slice())
        },
        None => {
            let e = String::new();
            assert(e@ =~= seq![]);
            e
        },
    };
    let up: bool = match carrier {
        Some(t) => {
            let c = trim_str(t);
            same(c.as_str(), "1")
        },
        None => {
            proof {
                reveal_strlit("1");
            }
            false
        },
    };
    Iface { name: String::from_str(name), ip, carrier: up }
}

pub open spec fn iface_doc(i: IfaceModel) -> JsonModel {
    let o = with(seq![], "name"@, JsonModel::Text(i.name));
    let o = with(o, "ip"@, JsonModel::Text(i.ip));
    JsonModel::Object(with(o, "carrier"@, JsonModel::Bool(i.carrier)))
}

/// A trimmed file, or nothing where it could not be read.
pub open spec fn file_text(f: Option<Seq<char>>) -> Seq<char> {
    match f {
        Some(t) => trim(t),
        None => seq![],
    }
}

/// The system's document. The uptime comes as the number is written.
pub open spec fn system_doc(
    host: Option<Seq<char>>,
    kernel: Option<Seq<char>>,
    uptime: Seq<char>,
    loadavg: Option<Seq<char>>,
    v: Seq<IfaceModel>,
) -> JsonModel {
    let o = with(seq![], "hostname"@, JsonModel::Text(hostname_of(host)));
    let o = with(o, "kernel"@, JsonModel::Text(file_text(kernel)));
    let o = with(o, "uptime"@, JsonModel::Raw(uptime));
    let o = with(o, "loadavg"@, JsonModel::Text(file_text(loadavg)));
    JsonModel::Object(
        with(o, "interfaces"@, JsonModel::List(v.map_values(|i: IfaceModel| iface_doc(i)))),
    )
}

fn iface_json(i: &Iface) -> (r: Json)
    ensures
        r@ == iface_doc(i@),
{
    let mut o: Vec<Member> = Vec::new();
    assert(members(o@) =~= seq![]);
    put(&mut o, "name", text(i.name.as_str()));
    put(&mut o, "ip", text(i.ip.as_str()));
    put(&mut o, "carrier", Json::Bool(i.carrier));
    object(o)
}

fn file(f: Option<&str>) -> (r: String)
    ensures
        r@ == file_text(opt_str(f)),
{
    match f {
        Some(t) => trim_str(t),
        None => {
            let e = String::new();
            assert(e@ =~= seq![]);
            e
        },
    }
}

/// The state of the system, out of the files that hold it.
pub fn snapshot(
    host: Option<&str>,
    kernel: Option<&str>,
    uptime: &str,
    loadavg: Option<&str>,
    v: &Vec<Iface>,
) -> (r: Json)
    ensures
        r@ == system_doc(opt_str(host), opt_str(kernel), uptime@, opt_str(loadavg), ifaces(v@)),
{
    let ghost want = ifaces(v@).map_values(|i: IfaceModel| iface_doc(i));
    let mut out: Vec<Json> = Vec::new();
    let mut i: usize = 0;
    assert(values(out@) =~= want.take(0));
    while i < v.len()
        invariant
            i <= v@.len(),
            want == ifaces(v@).map_values(|i: IfaceModel| iface_doc(i)),
            values(out@) == want.take(i as int),
        decreases v@.len() - i,
    {
        let ghost was = out@;
        let j = iface_json(&v[i]);
        assert(ifaces(v@)[i as int] == v@[i as int]@);
        out.push(j);
        assert(values(out@) =~= values(was).push(j@));
        assert(want.take(i + 1) =~= want.take(i as int).push(want[i as int]));
        i += 1;
    }
    assert(want.take(i as int) =~= want);
    let mut o: Vec<Member> = Vec::new();
    assert(members(o@) =~= seq![]);
    put(&mut o, "hostname", Json::Text(hostname(host)));
    put(&mut o, "kernel", Json::Text(file(kernel)));
    put(&mut o, "uptime", Json::Raw(String::from_str(uptime)));
    put(&mut o, "loadavg", Json::Text(file(loadavg)));
    put(&mut o, "interfaces", list(out));
    object(o)
}

} // verus!
