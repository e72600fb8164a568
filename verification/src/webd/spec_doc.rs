//! The API reference, assembled from the running system.
//!
//! The dashboard's own paths come from its router; the other daemons' are asked
//! for and folded in under the mount points the browser reaches them on. A
//! daemon that is down contributes nothing.
use crate::json::{
    find_member, json_read, lemma_list, lemma_member, lemma_object, list, member, members, object, put, values, with, Json,
    JsonModel, Member,
};
use crate::text::{cat2, cat3};
use vstd::prelude::*;
use vstd::slice::slice_subrange;
use vstd::string::*;

verus! {

/// A tag's name under its daemon's.
pub open spec fn grouped(group: Seq<char>, tag: Seq<char>) -> Seq<char> {
    group + ": "@ + tag
}

/// A tag's description, renamed; nothing when it has no name.
pub open spec fn described(group: Seq<char>, t: JsonModel) -> Option<JsonModel> {
    match t {
        JsonModel::Object(o) => match member(o, "name"@) {
            Some(JsonModel::Text(n)) => Some(
                JsonModel::Object(with(o, "name"@, JsonModel::Text(grouped(group, n)))),
            ),
            _ => None,
        },
        _ => None,
    }
}

/// The tag descriptions that have a name, renamed.
pub open spec fn carried(group: Seq<char>, ts: Seq<JsonModel>) -> Seq<JsonModel>
    decreases ts.len(),
{
    if ts.len() == 0 {
        seq![]
    } else {
        match described(group, ts.last()) {
            Some(t) => carried(group, ts.drop_last()).push(t),
            None => carried(group, ts.drop_last()),
        }
    }
}

/// One tag of an operation, renamed.
pub open spec fn regrouped(group: Seq<char>, t: JsonModel) -> JsonModel {
    match t {
        JsonModel::Text(n) => JsonModel::Text(grouped(group, n)),
        _ => t,
    }
}

/// An operation with its tags renamed.
pub open spec fn operation(group: Seq<char>, op: JsonModel) -> JsonModel {
    match op {
        JsonModel::Object(o) => match member(o, "tags"@) {
            Some(JsonModel::List(ts)) => JsonModel::Object(
                with(o, "tags"@, JsonModel::List(ts.map_values(|t: JsonModel| regrouped(group, t)))),
            ),
            _ => op,
        },
        _ => op,
    }
}

/// A path's operations with their tags renamed.
pub open spec fn path_item(group: Seq<char>, item: JsonModel) -> JsonModel {
    match item {
        JsonModel::Object(ops) => JsonModel::Object(
            ops.map_values(|p: (Seq<char>, JsonModel)| (p.0, operation(group, p.1))),
        ),
        _ => item,
    }
}

/// A document's paths with a daemon's added under its mount point.
pub open spec fn mounted(
    dst: Seq<(Seq<char>, JsonModel)>,
    paths: Seq<(Seq<char>, JsonModel)>,
    mount: Seq<char>,
    group: Seq<char>,
) -> Seq<(Seq<char>, JsonModel)>
    decreases paths.len(),
{
    if paths.len() == 0 {
        dst
    } else {
        with(
            mounted(dst, paths.drop_last(), mount, group),
            mount + paths.last().0,
            path_item(group, paths.last().1),
        )
    }
}

/// The list under a key, if the key is absent or holds a list.
pub open spec fn list_at(doc: Seq<(Seq<char>, JsonModel)>, k: Seq<char>) -> Option<Seq<JsonModel>> {
    match member(doc, k) {
        Some(JsonModel::List(v)) => Some(v),
        Some(_) => None,
        None => Some(seq![]),
    }
}

/// The object under a key, if the key is absent or holds an object.
pub open spec fn object_at(doc: Seq<(Seq<char>, JsonModel)>, k: Seq<char>) -> Option<Seq<(Seq<char>, JsonModel)>> {
    match member(doc, k) {
        Some(JsonModel::Object(o)) => Some(o),
        Some(_) => None,
        None => Some(seq![]),
    }
}

/// A document with a daemon's tag descriptions behind its own.
pub open spec fn with_tags(
    doc: Seq<(Seq<char>, JsonModel)>,
    sub: Seq<(Seq<char>, JsonModel)>,
    group: Seq<char>,
) -> Seq<(Seq<char>, JsonModel)> {
    match member(sub, "tags"@) {
        Some(JsonModel::List(ts)) => match list_at(doc, "tags"@) {
            Some(own) => with(doc, "tags"@, JsonModel::List(own + carried(group, ts))),
            None => doc,
        },
        _ => doc,
    }
}

/// A document with a daemon's folded in: nothing happens unless that one has
/// paths.
pub open spec fn merged(
    doc: Seq<(Seq<char>, JsonModel)>,
    sub: JsonModel,
    mount: Seq<char>,
    group: Seq<char>,
) -> Seq<(Seq<char>, JsonModel)> {
    match sub {
        JsonModel::Object(s) => match member(s, "paths"@) {
            Some(JsonModel::Object(paths)) => {
                let d = with_tags(doc, s, group);
                match object_at(d, "paths"@) {
                    Some(own) => with(d, "paths"@, JsonModel::Object(mounted(own, paths, mount, group))),
                    None => d,
                }
            },
            _ => doc,
        },
        _ => doc,
    }
}

fn tag_of(group: &str, tag: &str) -> (r: String)
    ensures
        r@ == grouped(group@, tag@),
{
    cat3(group, ": ", tag)
}

fn describe(group: &str, t: &Json) -> (r: Option<Json>)
    ensures
        match r {
            Some(j) => described(group@, t@) == Some(j@),
            None => described(group@, t@) is None,
        },
{
    match t {
        Json::Object(o) => {
            proof {
                lemma_object(*o);
            }
            match find_member(o, "name") {
                Some(i) => {
                    if let Json::Text(n) = &o[i].value {
                        let mut c = crate::json::copy_members(o);
                        put(&mut c, "name", Json::Text(tag_of(group, n.as_str())));
                        Some(object(c))
                    } else {
                        None
                    }
                },
                None => None,
            }
        },
        _ => None,
    }
}

fn carry(group: &str, ts: &Vec<Json>, out: &mut Vec<Json>)
    ensures
        values(final(out)@) == values(old(out)@) + carried(group@, values(ts@)),
{
    let ghost all = values(ts@);
    let ghost start = values(out@);
    let mut i: usize = 0;
    assert(start + carried(group@, all.take(0)) =~= start);
    while i < ts.len()
        invariant
            i <= ts@.len(),
            all == values(ts@),
            values(out@) == start + carried(group@, all.take(i as int)),
        decreases ts@.len() - i,
    {
        assert(all.take(i + 1).drop_last() =~= all.take(i as int));
        assert(all.take(i + 1).last() == ts@[i as int]@);
        let ghost had = carried(group@, all.take(i as int));
        if let Some(t) = describe(group, &ts[i]) {
            let ghost was = out@;
            out.push(t);
            assert(values(out@) =~= values(was).push(t@));
            assert((start + had).push(t@) =~= start + had.push(t@));
        }
        i += 1;
    }
    assert(all.take(i as int) =~= all);
}

fn regroup(group: &str, ts: &Vec<Json>) -> (r: Json)
    ensures
        r@ == JsonModel::List(values(ts@).map_values(|t: JsonModel| regrouped(group@, t))),
{
    let ghost want = values(ts@).map_values(|t: JsonModel| regrouped(group@, t));
    let mut out: Vec<Json> = Vec::new();
    let mut i: usize = 0;
    assert(values(out@) =~= want.take(0));
    while i < ts.len()
        invariant
            i <= ts@.len(),
            want == values(ts@).map_values(|t: JsonModel| regrouped(group@, t)),
            values(out@) == want.take(i as int),
        decreases ts@.len() - i,
    {
        assert(values(ts@)[i as int] == ts@[i as int]@);
        let j: Json = match &ts[i] {
            Json::Text(n) => Json::Text(tag_of(group, n.as_str())),
            _ => ts[i].copy(),
        };
        assert(j@ == want[i as int]);
        let ghost was = out@;
        out.push(j);
        assert(values(out@) =~= values(was).push(j@));
        assert(want.take(i + 1) =~= want.take(i as int).push(want[i as int]));
        i += 1;
    }
    assert(want.take(i as int) =~= want);
    list(out)
}

fn rename_operation(group: &str, op: &Json) -> (r: Json)
    ensures
        r@ == operation(group@, op@),
{
    match op {
        Json::Object(o) => {
            proof {
                lemma_object(*o);
            }
            match find_member(o, "tags") {
                Some(i) => {
                    if let Json::List(ts) = &o[i].value {
                        proof {
                            lemma_list(*ts);
                        }
                        let mut c = crate::json::copy_members(o);
                        put(&mut c, "tags", regroup(group, ts));
                        object(c)
                    } else {
                        op.copy()
                    }
                },
                None => op.copy(),
            }
        },
        _ => op.copy(),
    }
}

fn rename_item(group: &str, item: &Json) -> (r: Json)
    ensures
        r@ == path_item(group@, item@),
{
    match item {
        Json::Object(ops) => {
            proof {
                lemma_object(*ops);
            }
            let ghost want = members(ops@).map_values(
                |p: (Seq<char>, JsonModel)| (p.0, operation(group@, p.1)),
            );
            let mut out: Vec<Member> = Vec::new();
            let mut i: usize = 0;
            assert(members(out@) =~= want.take(0));
            while i < ops.len()
                invariant
                    i <= ops@.len(),
                    want == members(ops@).map_values(
                        |p: (Seq<char>, JsonModel)| (p.0, operation(group@, p.1)),
                    ),
                    members(out@) == want.take(i as int),
                decreases ops@.len() - i,
            {
                assert(members(ops@)[i as int] == (ops@[i as int].key@, ops@[i as int].value@));
                let m = Member {
                    key: String::from_str(ops[i].key.as_str()),
                    value: rename_operation(group, &ops[i].value),
                };
                assert((m.key@, m.value@) == want[i as int]);
                let ghost was = out@;
                out.push(m);
                assert(members(out@) =~= members(was).push((m.key@, m.value@)));
                assert(want.take(i + 1) =~= want.take(i as int).push(want[i as int]));
                i += 1;
            }
            assert(want.take(i as int) =~= want);
            object(out)
        },
        _ => item.copy(),
    }
}

fn mount_paths(dst: &mut Vec<Member>, paths: &Vec<Member>, mount: &str, group: &str)
    ensures
        members(final(dst)@) == mounted(members(old(dst)@), members(paths@), mount@, group@),
{
    let ghost all = members(paths@);
    let ghost start = members(dst@);
    let mut i: usize = 0;
    assert(all.take(0) =~= seq![]);
    while i < paths.len()
        invariant
            i <= paths@.len(),
            all == members(paths@),
            members(dst@) == mounted(start, all.take(i as int), mount@, group@),
        decreases paths@.len() - i,
    {
        assert(all.take(i + 1).drop_last() =~= all.take(i as int));
        assert(all.take(i + 1).last() == (paths@[i as int].key@, paths@[i as int].value@));
        let k = cat2(mount, paths[i].key.as_str());
        let v = rename_item(group, &paths[i].value);
        put(dst, k.as_str(), v);
        i += 1;
    }
    assert(all.take(i as int) =~= all);
}

fn own_list(doc: &Vec<Member>, k: &str) -> (r: Option<Vec<Json>>)
    ensures
        match r {
            Some(v) => list_at(members(doc@), k@) == Some(values(v@)),
            None => list_at(members(doc@), k@) is None,
        },
{
    match find_member(doc, k) {
        Some(i) => {
            if let Json::List(v) = &doc[i].value {
                proof {
                    lemma_list(*v);
                }
                let mut out: Vec<Json> = Vec::new();
                let mut n: usize = 0;
                assert(values(out@) =~= values(v@).take(0));
                while n < v.len()
                    invariant
                        n <= v@.len(),
                        values(out@) == values(v@).take(n as int),
                    decreases v@.len() - n,
                {
                    let ghost was = out@;
                    let c = v[n].copy();
                    out.push(c);
                    assert(values(out@) =~= values(was).push(c@));
                    assert(values(v@).take(n + 1) =~= values(v@).take(n as int).push(v@[n as int]@));
                    n += 1;
                }
                assert(values(v@).take(n as int) =~= values(v@));
                Some(out)
            } else {
                None
            }
        },
        None => {
            let v: Vec<Json> = Vec::new();
            assert(values(v@) =~= seq![]);
            Some(v)
        },
    }
}

fn own_object(doc: &Vec<Member>, k: &str) -> (r: Option<Vec<Member>>)
    ensures
        match r {
            Some(v) => object_at(members(doc@), k@) == Some(members(v@)),
            None => object_at(members(doc@), k@) is None,
        },
{
    match find_member(doc, k) {
        Some(i) => {
            if let Json::Object(v) = &doc[i].value {
                proof {
                    lemma_object(*v);
                }
                Some(crate::json::copy_members(v))
            } else {
                None
            }
        },
        None => {
            let v: Vec<Member> = Vec::new();
            assert(members(v@) =~= seq![]);
            Some(v)
        },
    }
}

/// Fold a daemon's document into this one, moving every path under `mount` and
/// putting `group` before every tag, so that a reader sees the daemons apart.
pub fn merge_spec(doc: &mut Vec<Member>, sub: &Json, mount: &str, group: &str)
    ensures
        members(final(doc)@) == merged(members(old(doc)@), sub@, mount@, group@),
{
    match sub {
        Json::Object(s) => {
            proof {
                lemma_object(*s);
            }
            match find_member(s, "paths") {
                Some(i) => {
                    if let Json::Object(paths) = &s[i].value {
                        proof {
                            lemma_object(*paths);
                        }
                        match find_member(s, "tags") {
                            Some(t) => {
                                if let Json::List(ts) = &s[t].value {
                                    proof {
                                        lemma_list(*ts);
                                    }
                                    if let Some(mut own) = own_list(doc, "tags") {
                                        carry(group, ts, &mut own);
                                        put(doc, "tags", list(own));
                                    }
                                }
                            },
                            None => {},
                        }
                        if let Some(mut own) = own_object(doc, "paths") {
                            mount_paths(&mut own, paths, mount, group);
                            put(doc, "paths", object(own));
                        }
                    }
                },
                None => {},
            }
        },
        _ => {},
    }
}

/// What a daemon is asked for its document with.
pub fn spec_request(addr: &str) -> (r: String)
    ensures
        r@ == "GET /api/openapi.json HTTP/1.0\r\nHost: "@ + addr@ + "\r\n\r\n"@,
{
    cat3("GET /api/openapi.json HTTP/1.0\r\nHost: ", addr, "\r\n\r\n")
}

/// An empty line ends the head at this place.
pub open spec fn head_ends(b: Seq<u8>, i: int) -> bool {
    0 <= i && i + 4 <= b.len() && b[i] == 13 && b[i + 1] == 10 && b[i + 2] == 13 && b[i + 3] == 10
}

/// What stands behind the head of an answer; nothing when it has no end.
pub fn body_of(b: &[u8]) -> (r: Option<&[u8]>)
    ensures
        match r {
            Some(t) => exists|i: int|
                #[trigger] head_ends(b@, i) && t@ == b@.skip(i + 4) && forall|j: int|
                    0 <= j < i ==> !#[trigger] head_ends(b@, j),
            None => forall|i: int| !#[trigger] head_ends(b@, i),
        },
{
    let mut i: usize = 0;
    while i < b.len() && b.len() - i >= 4
        invariant
            i <= b@.len(),
            forall|j: int| 0 <= j < i ==> !#[trigger] head_ends(b@, j),
        decreases b@.len() - i,
    {
        if b[i] == 13 && b[i + 1] == 10 && b[i + 2] == 13 && b[i + 3] == 10 {
            let t = slice_subrange(b, i + 4, b.len());
            assert(head_ends(b@, i as int));
            assert(t@ =~= b@.skip(i + 4));
            return Some(t);
        }
        i += 1;
    }
    assert forall|k: int| !#[trigger] head_ends(b@, k) by {
        if head_ends(b@, k) {
            assert(k < i);
        }
    }
    None
}

/// The place at which the head of an answer ends: the first empty line.
pub open spec fn first_head_end(b: Seq<u8>, i: int) -> bool {
    head_ends(b, i) && forall|j: int| 0 <= j < i ==> !#[trigger] head_ends(b, j)
}

/// The document in a daemon's answer: what stands behind its head, read. Deliberately
/// tolerant: an answer without an end of its head, or without a document behind it,
/// means that the daemon is not described.
pub fn spec_in(response: &[u8]) -> (r: Option<Json>)
    ensures
        match r {
            Some(j) => exists|i: int| #[trigger]
                first_head_end(response@, i) && json_read(response@.skip(i + 4)) == Some(j@),
            None => (forall|i: int| !#[trigger] head_ends(response@, i)) || exists|i: int| #[trigger]
                first_head_end(response@, i) && json_read(response@.skip(i + 4)) is None,
        },
{
    match body_of(response) {
        Some(body) => {
            let ghost i = choose|i: int|
                head_ends(response@, i) && body@ == response@.skip(i + 4) && forall|j: int|
                    0 <= j < i ==> !head_ends(response@, j);
            assert(first_head_end(response@, i));
            Json::read(body)
        },
        None => None,
    }
}

/// No path stands twice.
pub open spec fn distinct(paths: Seq<(Seq<char>, JsonModel)>) -> bool {
    forall|i: int, j: int| 0 <= i < j < paths.len() ==> (#[trigger] paths[i]).0 != (#[trigger] paths[j]).0
}

/// Every path of a daemon stands in the document under the daemon's mount point,
/// with its tags renamed, and every path that is not under it stays as it was.
pub proof fn law_paths_are_mounted(
    dst: Seq<(Seq<char>, JsonModel)>,
    paths: Seq<(Seq<char>, JsonModel)>,
    mount: Seq<char>,
    group: Seq<char>,
    q: Seq<char>,
)
    requires
        distinct(paths),
    ensures
        forall|i: int|
            0 <= i < paths.len() ==> member(mounted(dst, paths, mount, group), mount + (#[trigger] paths[i]).0)
                == Some(path_item(group, paths[i].1)),
        (forall|i: int| 0 <= i < paths.len() ==> q != mount + (#[trigger] paths[i]).0) ==> member(
            mounted(dst, paths, mount, group),
            q,
        ) == member(dst, q),
    decreases paths.len(),
{
    if paths.len() > 0 {
        let p = paths.drop_last();
        assert(distinct(p)) by {
            assert forall|i: int, j: int| 0 <= i < j < p.len() implies (#[trigger] p[i]).0 != (#[trigger] p[j]).0 by {
                assert(p[i] == paths[i] && p[j] == paths[j]);
            }
        }
        law_paths_are_mounted(dst, p, mount, group, q);
        let inner = mounted(dst, p, mount, group);
        let k = mount + paths.last().0;
        let v = path_item(group, paths.last().1);
        assert forall|i: int| 0 <= i < paths.len() implies member(
            mounted(dst, paths, mount, group),
            mount + (#[trigger] paths[i]).0,
        ) == Some(path_item(group, paths[i].1)) by {
            lemma_member(inner, k, v, mount + paths[i].0);
            if i < p.len() {
                assert(p[i] == paths[i]);
                assert(paths[i].0 != paths[paths.len() - 1].0);
                if mount + paths[i].0 == k {
                    assert(paths[i].0 =~= (mount + paths[i].0).skip(mount.len() as int));
                    assert(paths.last().0 =~= k.skip(mount.len() as int));
                }
            }
        }
        if forall|i: int| 0 <= i < paths.len() ==> q != mount + (#[trigger] paths[i]).0 {
            assert(q != mount + paths[paths.len() - 1].0);
            assert forall|i: int| 0 <= i < p.len() implies q != mount + (#[trigger] p[i]).0 by {
                assert(p[i] == paths[i]);
            }
            lemma_member(inner, k, v, q);
        }
    }
}

} // verus!
