//! Which file a browser gets, and what the front server makes of the others' documents.
use crate::iod::api::field;
use crate::json::{lemma_member, member, with, JsonModel};
use crate::text::{contains, skip_class, starts_with, trim, trim_start, Class};
use crate::webd::assets::{answer_of, chosen, file_answer, file_at, fnv, portal_of, AssetModel};
use crate::webd::proxy::{daemon_of, unreachable_doc, upstream, Daemon};
use crate::webd::spec_doc::{described, operation};
use vstd::prelude::*;
use vstd::string::*;

verus! {

/// The file of a name is the first of that name, and there is none only when there is
/// none.
pub proof fn law_a_file_is_found_by_its_name(v: Seq<AssetModel>, name: Seq<char>)
    ensures
        match file_at(v, name) {
            Some(i) => 0 <= i < v.len() && v[i].path == name && forall|j: int| 0 <= j < i ==> (#[trigger] v[j]).path != name,
            None => forall|j: int| 0 <= j < v.len() ==> (#[trigger] v[j]).path != name,
        },
    decreases v.len(),
{
    if v.len() > 0 && v[0].path != name {
        let rest = v.skip(1);
        law_a_file_is_found_by_its_name(rest, name);
        match file_at(rest, name) {
            Some(i) => {
                assert(rest[i] == v[i + 1]);
                assert forall|j: int| 0 <= j < i + 1 implies (#[trigger] v[j]).path != name by {
                    if j > 0 {
                        assert(rest[j - 1] == v[j]);
                    }
                }
            },
            None => {
                assert forall|j: int| 0 <= j < v.len() implies (#[trigger] v[j]).path != name by {
                    if j > 0 {
                        assert(rest[j - 1] == v[j]);
                    }
                }
            },
        }
    }
}

/// A browser gets the file its path names behind the slash; where there is none, and at
/// the root, it gets the start page.
pub proof fn law_a_path_names_its_file(v: Seq<AssetModel>, name: Seq<char>)
    requires
        name.len() > 0,
        name[0] != '/',
    ensures
        file_at(v, name) is Some ==> chosen(v, "/"@ + name) == file_at(v, name),
        file_at(v, name) is None ==> chosen(v, "/"@ + name) == file_at(v, "index.html"@),
        chosen(v, "/"@) == file_at(v, "index.html"@),
        chosen(v, name) == chosen(v, "/"@ + name),
{
    reveal_strlit("/");
    let cl = Class::One('/');
    let p = "/"@ + name;
    reveal_with_fuel(skip_class, 3);
    assert(p[0] == '/' && p[1] == name[0]);
    assert(skip_class(p, cl, 0) == 1);
    assert(trim_start(p, cl) =~= name);
    assert(skip_class(name, cl, 0) == 0);
    assert(trim_start(name, cl) =~= name);
    assert("/"@.len() == 1 && "/"@[0] == '/');
    assert(skip_class("/"@, cl, 0) == 1);
    assert(trim_start("/"@, cl).len() == 0);
}

/// A browser that takes packed bytes gets them, and one that has the file already is
/// told so; without a page there is none.
pub proof fn law_a_browser_gets_what_it_takes(v: Seq<AssetModel>, path: Seq<char>, takes: Option<Seq<char>>, i: int)
    requires
        chosen(v, path) == Some(i),
    ensures
        answer_of(v, path, Some(v[i].etag), takes) is Unchanged,
        answer_of(v, path, None, takes) == file_answer(v[i], takes is Some && contains(takes->0, "gzip"@)),
        forall|q: Seq<char>| #[trigger] chosen(v, q) is None ==> answer_of(v, q, None, takes) is Unbuilt,
{
}

/// A tag follows the bytes: it starts from the usual number and takes each byte in turn.
pub proof fn law_a_tag_takes_every_byte(b: Seq<u8>, x: u8)
    ensures
        fnv(seq![]) == 0xcbf29ce484222325u64,
        fnv(b.push(x)) == ((fnv(b) ^ (x as u64)) * 0x100000001b3) % 0x1_0000_0000_0000_0000,
{
    assert(b.push(x).drop_last() =~= b);
}

/// The portal is what the file says, without the blanks around it.
pub proof fn law_the_portal_is_what_the_file_says(t: Seq<char>)
    ensures
        portal_of(None) is None,
        portal_of(Some(t)) == (if trim(t).len() > 0 {
            Some(trim(t))
        } else {
            None
        }),
{
}

/// A query goes along with the path it was asked with.
pub proof fn law_a_query_goes_along(path: Seq<char>, q: Seq<char>)
    ensures
        upstream(path, Some(q)) == upstream(path, None) + "?"@ + q,
        daemon_of(path) == (if starts_with(path, "/sys/"@) {
            Daemon::Sysmond
        } else {
            Daemon::Iod
        }),
{
    assert(upstream(path, Some(q)) =~= upstream(path, None) + "?"@ + q);
}

/// A daemon that does not answer is named, in the code and in the words.
pub proof fn law_a_silent_daemon_is_named(addr: Seq<char>, why: Seq<char>)
    ensures
        field(unreachable_doc(Daemon::Iod, addr, why), "code"@) == Some(JsonModel::Text("iod"@ + "_unreachable"@)),
        field(unreachable_doc(Daemon::Sysmond, addr, why), "code"@) == Some(
            JsonModel::Text("sysmond"@ + "_unreachable"@),
        ),
        field(unreachable_doc(Daemon::Iod, addr, why), "error"@) == Some(
            JsonModel::Text("cannot reach "@ + "iod"@ + " at "@ + addr + ": "@ + why),
        ),
        field(unreachable_doc(Daemon::Sysmond, addr, why), "error"@) == Some(
            JsonModel::Text("cannot reach "@ + "sysmond"@ + " at "@ + addr + ": "@ + why),
        ),
{
    reveal_strlit("error");
    reveal_strlit("code");
    assert("error"@.len() == 5 && "code"@.len() == 4);
    lemma_two(Daemon::Iod, addr, why);
    lemma_two(Daemon::Sysmond, addr, why);
}

proof fn lemma_two(d: Daemon, addr: Seq<char>, why: Seq<char>)
    requires
        "error"@ != "code"@,
    ensures
        field(unreachable_doc(d, addr, why), "code"@) == Some(JsonModel::Text(d.word() + "_unreachable"@)),
        field(unreachable_doc(d, addr, why), "error"@) == Some(
            JsonModel::Text("cannot reach "@ + d.word() + " at "@ + addr + ": "@ + why),
        ),
{
    let e = JsonModel::Text("cannot reach "@ + d.word() + " at "@ + addr + ": "@ + why);
    let o = with(seq![], "error"@, e);
    lemma_member(seq![], "error"@, e, "error"@);
    lemma_member(o, "code"@, JsonModel::Text(d.word() + "_unreachable"@), "error"@);
    lemma_member(o, "code"@, JsonModel::Text(d.word() + "_unreachable"@), "code"@);
}

/// A daemon's tags stand in the joined document under its own group, where they are
/// described and where they are used; nothing else of an operation or a tag changes.
pub proof fn law_tags_stand_under_their_group(
    group: Seq<char>,
    o: Seq<(Seq<char>, JsonModel)>,
    name: Seq<char>,
    ts: Seq<JsonModel>,
    k: Seq<char>,
    i: int,
)
    requires
        0 <= i < ts.len(),
        ts[i] is Text,
    ensures
        member(o, "name"@) == Some(JsonModel::Text(name)) ==> (described(group, JsonModel::Object(o)) matches Some(t) && field(
            t,
            "name"@,
        ) == Some(JsonModel::Text(group + ": "@ + name)) && (k != "name"@ ==> field(t, k) == member(o, k))),
        member(o, "tags"@) == Some(JsonModel::List(ts)) ==> (field(operation(group, JsonModel::Object(o)), "tags"@) matches Some(
            JsonModel::List(now),
        ) && now.len() == ts.len() && now[i] == JsonModel::Text(group + ": "@ + ts[i]->Text_0)),
        member(o, "tags"@) == Some(JsonModel::List(ts)) && k != "tags"@ ==> field(operation(group, JsonModel::Object(o)), k)
            == member(o, k),
{
    lemma_member(o, "name"@, JsonModel::Text(group + ": "@ + name), "name"@);
    lemma_member(o, "name"@, JsonModel::Text(group + ": "@ + name), k);
    let now = JsonModel::List(ts.map_values(|t: JsonModel| crate::webd::spec_doc::regrouped(group, t)));
    lemma_member(o, "tags"@, now, "tags"@);
    lemma_member(o, "tags"@, now, k);
}

} // verus!
