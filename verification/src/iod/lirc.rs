//! The kernel's lirc devices. One node per emitter, so the node is the port.
//!
//! Found by name, never by number: `/dev/lirc3` is whatever probe order made it.
use crate::iod::fault::{Fault, FaultModel};
use crate::iod::ir::{emitter_label, emitter_name, IrTarget};
use crate::text::{
    cat2, cat3, debug_string, debug_text, from_chars, lines, lines_of, same, slices, starts_with, starts_with_str,
    strip_prefix, strip_prefix_str, to_chars,
};
use crate::textmap::{before, text_lt};
use vstd::prelude::*;
use vstd::string::*;

verus! {

/// One lirc node and the label the driver gave it.
#[derive(Debug)]
pub struct Dev {
    pub path: String,
    pub name: String,
}

pub ghost struct DevModel {
    pub path: Seq<char>,
    pub name: Seq<char>,
}

impl View for Dev {
    type V = DevModel;

    open spec fn view(&self) -> DevModel {
        DevModel { path: self.path@, name: self.name@ }
    }
}

impl Dev {
    pub fn copy(&self) -> (r: Dev)
        ensures
            r@ == self@,
    {
        Dev { path: self.path.clone(), name: self.name.clone() }
    }
}

/// The models of a list of devices.
pub open spec fn devs(v: Seq<Dev>) -> Seq<DevModel> {
    v.map_values(|d: Dev| d@)
}

/// A node as the class directory shows it: its name, and what its `uevent` says.
#[derive(Debug)]
pub struct Node {
    pub node: String,
    pub uevent: Option<String>,
}

pub ghost struct NodeModel {
    pub node: Seq<char>,
    pub uevent: Option<Seq<char>>,
}

impl View for Node {
    type V = NodeModel;

    open spec fn view(&self) -> NodeModel {
        NodeModel { node: self.node@, uevent: crate::text::opt(self.uevent) }
    }
}

pub open spec fn nodes(v: Seq<Node>) -> Seq<NodeModel> {
    v.map_values(|n: Node| n@)
}

/// The first label among lines; empty where there is none.
pub open spec fn dev_name(ls: Seq<Seq<char>>) -> Seq<char>
    decreases ls.len(),
{
    if ls.len() == 0 {
        seq![]
    } else {
        match strip_prefix(ls[0], "DEV_NAME="@) {
            Some(n) => n,
            None => dev_name(ls.skip(1)),
        }
    }
}

pub open spec fn dev_of(n: NodeModel) -> DevModel {
    DevModel {
        path: "/dev/"@ + n.node,
        name: match n.uevent {
            Some(t) => dev_name(lines(t)),
            None => seq![],
        },
    }
}

/// A device in its place by path, after those with the same path.
pub open spec fn inserted(v: Seq<DevModel>, d: DevModel) -> Seq<DevModel>
    decreases v.len(),
{
    if v.len() == 0 {
        seq![d]
    } else if text_lt(d.path, v.last().path) {
        inserted(v.drop_last(), d).push(v.last())
    } else {
        v.push(d)
    }
}

/// The lirc nodes among the class directory's entries, by path.
pub open spec fn listed(v: Seq<NodeModel>) -> Seq<DevModel>
    decreases v.len(),
{
    if v.len() == 0 {
        seq![]
    } else {
        let before = listed(v.drop_last());
        if starts_with(v.last().node, "lirc"@) {
            inserted(before, dev_of(v.last()))
        } else {
            before
        }
    }
}

fn name_of(uevent: &str) -> (r: String)
    ensures
        r@ == dev_name(lines(uevent@)),
{
    let chars = to_chars(uevent);
    let ls = lines_of(chars.as_slice());
    let ghost all = slices(ls@);
    let mut i: usize = 0;
    assert(all.skip(0) =~= all);
    while i < ls.len()
        invariant
            i <= ls@.len(),
            all == slices(ls@),
            all == lines(uevent@),
            dev_name(all) == dev_name(all.skip(i as int)),
        decreases ls@.len() - i,
    {
        assert(all.skip(i as int)[0] == ls@[i as int]@);
        match strip_prefix_str(ls[i], "DEV_NAME=") {
            Some(n) => {
                return from_chars(n);
            },
            None => {},
        }
        assert(all.skip(i as int).skip(1) =~= all.skip(i + 1));
        i += 1;
    }
    String::new()
}

proof fn lemma_inserted(v: Seq<DevModel>, d: DevModel, i: int)
    requires
        0 <= i <= v.len(),
        forall|k: int| i <= k < v.len() ==> text_lt(d.path, (#[trigger] v[k]).path),
        i > 0 ==> !text_lt(d.path, v[i - 1].path),
    ensures
        inserted(v, d) == v.insert(i, d),
    decreases v.len(),
{
    if i == v.len() {
        assert(v.insert(i, d) =~= v.push(d));
    } else {
        let w = v.drop_last();
        assert forall|k: int| i <= k < w.len() implies text_lt(d.path, (#[trigger] w[k]).path) by {
            assert(w[k] == v[k]);
        }
        lemma_inserted(w, d, i);
        assert(v.insert(i, d) =~= w.insert(i, d).push(v.last()));
    }
}

fn insert_sorted(v: &mut Vec<Dev>, d: Dev)
    ensures
        devs(final(v)@) == inserted(devs(old(v)@), d@),
{
    let ghost all = devs(v@);
    let mut i: usize = v.len();
    while i > 0 && before(d.path.as_str(), v[i - 1].path.as_str())
        invariant
            i <= v@.len(),
            all == devs(v@),
            forall|k: int| i <= k < all.len() ==> text_lt(d.path@, (#[trigger] all[k]).path),
        decreases i,
    {
        assert(all[i - 1].path == v@[i - 1].path@);
        i -= 1;
    }
    proof {
        if i > 0 {
            assert(all[i - 1].path == v@[i - 1].path@);
        }
        lemma_inserted(all, d@, i as int);
    }
    let ghost m = d@;
    v.insert(i, d);
    assert(devs(v@) =~= all.insert(i as int, m));
}

/// Every lirc device, with the label its `uevent` carries.
pub fn devices(entries: &Vec<Node>) -> (r: Vec<Dev>)
    ensures
        devs(r@) == listed(nodes(entries@)),
{
    let mut out: Vec<Dev> = Vec::new();
    let ghost all = nodes(entries@);
    let mut i: usize = 0;
    assert(devs(out@) =~= listed(all.take(0)));
    while i < entries.len()
        invariant
            i <= entries@.len(),
            all == nodes(entries@),
            devs(out@) == listed(all.take(i as int)),
        decreases entries@.len() - i,
    {
        assert(all.take(i + 1).drop_last() =~= all.take(i as int));
        assert(all.take(i + 1).last() == entries@[i as int]@);
        let e = &entries[i];
        let chars = to_chars(e.node.as_str());
        if starts_with_str(chars.as_slice(), "lirc") {
            let name = match &e.uevent {
                Some(t) => name_of(t.as_str()),
                None => String::new(),
            };
            let d = Dev { path: cat2("/dev/", e.node.as_str()), name };
            insert_sorted(&mut out, d);
        }
        i += 1;
    }
    assert(all.take(all.len() as int) =~= all);
    out
}

/// The first device with a label.
pub open spec fn found(v: Seq<DevModel>, name: Seq<char>) -> Option<DevModel>
    decreases v.len(),
{
    if v.len() == 0 {
        None
    } else if v[0].name == name {
        Some(v[0])
    } else {
        found(v.skip(1), name)
    }
}

pub fn find(v: &Vec<Dev>, name: &str) -> (r: Option<Dev>)
    ensures
        match r {
            Some(d) => found(devs(v@), name@) == Some(d@),
            None => found(devs(v@), name@) is None,
        },
{
    let ghost all = devs(v@);
    let mut i: usize = 0;
    assert(all.skip(0) =~= all);
    while i < v.len()
        invariant
            i <= v@.len(),
            all == devs(v@),
            found(all, name@) == found(all.skip(i as int), name@),
        decreases v@.len() - i,
    {
        assert(all.skip(i as int)[0] == v@[i as int]@);
        if same(v[i].name.as_str(), name) {
            return Some(v[i].copy());
        }
        assert(all.skip(i as int).skip(1) =~= all.skip(i + 1));
        i += 1;
    }
    None
}

/// A device of this board's driver.
pub open spec fn ours(d: DevModel) -> bool {
    starts_with(d.name, "openHC IR"@)
}

pub fn is_ours(d: &Dev) -> (r: bool)
    ensures
        r == ours(d@),
{
    let chars = to_chars(d.name.as_str());
    starts_with_str(chars.as_slice(), "openHC IR")
}

/// Did the driver register any node?
pub fn present(v: &Vec<Dev>) -> (r: bool)
    ensures
        r == exists|i: int| 0 <= i < v@.len() && ours(#[trigger] devs(v@)[i]),
{
    let mut i: usize = 0;
    while i < v.len()
        invariant
            i <= v@.len(),
            forall|k: int| 0 <= k < i ==> !ours(#[trigger] devs(v@)[k]),
        decreases v@.len() - i,
    {
        assert(devs(v@)[i as int] == v@[i as int]@);
        if is_ours(&v[i]) {
            return true;
        }
        i += 1;
    }
    false
}

pub open spec fn no_emitter(t: IrTarget) -> FaultModel {
    FaultModel::NoSuch(
        "no lirc device named "@ + debug_text(emitter_label(t))
            + " — is gpio-ohc-iomcu attached, and does this board's board.env declare that many IR outputs?"@,
    )
}

/// The node for one emitter.
pub fn emitter(v: &Vec<Dev>, target: IrTarget) -> (r: Result<Dev, Fault>)
    ensures
        match found(devs(v@), emitter_label(target)) {
            Some(d) => r is Ok && r->Ok_0@ == d,
            None => r is Err && r->Err_0@ == no_emitter(target),
        },
{
    let name = emitter_name(target);
    match find(v, name.as_str()) {
        Some(d) => Ok(d),
        None => Err(
            Fault::NoSuch(
                cat3(
                    "no lirc device named ",
                    debug_string(name.as_str()).as_str(),
                    " — is gpio-ohc-iomcu attached, and does this board's board.env declare that many IR outputs?",
                ),
            ),
        ),
    }
}

/// What is written to an emitter: the durations alternate mark and space and
/// start with a mark. The kernel rejects an even count, so a trailing space is
/// dropped.
pub fn burst(durations: &[u32]) -> (r: Result<Vec<u32>, String>)
    ensures
        durations@.len() == 0 ==> r is Err && r->Err_0@ == "no burst durations"@,
        durations@.len() > 0 ==> r is Ok && r->Ok_0@ == durations@.take(
            if durations@.len() % 2 == 0 {
                durations@.len() - 1
            } else {
                durations@.len() as int
            },
        ) && r->Ok_0@.len() % 2 == 1,
{
    if durations.len() == 0 {
        return Err(String::from_str("no burst durations"));
    }
    let n: usize = if durations.len() % 2 == 0 { durations.len() - 1 } else { durations.len() };
    let mut out: Vec<u32> = Vec::new();
    let mut i: usize = 0;
    while i < n
        invariant
            i <= n <= durations@.len(),
            out@ == durations@.take(i as int),
        decreases n - i,
    {
        out.push(durations[i]);
        assert(out@ =~= durations@.take(i + 1));
        i += 1;
    }
    Ok(out)
}

} // verus!
