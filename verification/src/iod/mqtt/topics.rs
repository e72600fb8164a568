//! The topic map: one definition, used by both the served endpoint and the
//! outbound bridge.
use crate::iod::events::{
    bus_after, last_set, law_a_snapshot_holds_the_last_values, lemma_level_in_front, lemma_only_level, levels, nested,
    one_level, BusCall, Msg, MsgModel,
};
use crate::json::{apart, flatten, leaves, lemma_leaf, pairs, path_under, under, written, Json, JsonModel};
use crate::num::{dec, lemma_print_parse, parse_number, parse_unsigned};
use crate::text::{cat3, eq_str, first_from, lemma_first_from, slices, split_from, split_of, to_chars, Class};
use vstd::prelude::*;
use vstd::string::*;

verus! {

/// The number on the panel for a zero-based index: the hardware is labelled from
/// one, so that is what the topics carry.
pub fn label(index: usize) -> (r: usize)
    requires
        index < usize::MAX,
    ensures
        r == index + 1,
{
    index + 1
}

/// The inverse, for a number arriving from a client. There is none for 0, which
/// is not a label any hardware carries.
pub open spec fn index_of(label: Seq<char>) -> Option<u8> {
    match parse_unsigned(label, 10, 255) {
        Some(n) => if n >= 1 {
            Some((n - 1) as u8)
        } else {
            None
        },
        None => None,
    }
}

pub fn index_at(label: &[char]) -> (r: Option<u8>)
    ensures
        r == index_of(label@),
{
    match parse_number(label, 10, 255) {
        Some(n) => {
            if n >= 1 {
                Some((n - 1) as u8)
            } else {
                None
            }
        },
        None => None,
    }
}

pub fn index(label: &str) -> (r: Option<u8>)
    ensures
        r == index_of(label@),
{
    let chars = to_chars(label);
    index_at(chars.as_slice())
}

/// A label read back is the index it was made from.
pub proof fn law_labels_name_their_index(index: u8)
    requires
        index < 255,
    ensures
        index_of(dec((index + 1) as nat)) == Some(index),
{
    lemma_print_parse((index + 1) as nat, 10, 255);
}

/// `<prefix>/<id>`: everything hangs off this.
pub fn base(prefix: &str, id: &str) -> (r: String)
    ensures
        r@ == prefix@ + "/"@ + id@,
{
    cat3(prefix, "/", id)
}

/// Scalars go out bare, so that `ON`/`OFF` consumers work without a JSON parser;
/// anything structured goes as JSON.
pub open spec fn payload_of(v: JsonModel) -> Seq<char> {
    match v {
        JsonModel::Bool(b) => if b {
            "ON"@
        } else {
            "OFF"@
        },
        JsonModel::Text(s) => s,
        _ => written(v),
    }
}

pub fn payload(v: &Json) -> (r: String)
    ensures
        r@ == payload_of(v@),
{
    match v {
        Json::Bool(b) => if *b {
            String::from_str("ON")
        } else {
            String::from_str("OFF")
        },
        Json::Text(s) => s.clone(),
        _ => v.to_text(),
    }
}

/// A message on its topic.
#[derive(Debug)]
pub struct Routed {
    pub topic: String,
    pub payload: String,
    pub retain: bool,
}

pub ghost struct RoutedModel {
    pub topic: Seq<char>,
    pub payload: Seq<char>,
    pub retain: bool,
}

impl View for Routed {
    type V = RoutedModel;

    open spec fn view(&self) -> RoutedModel {
        RoutedModel { topic: self.topic@, payload: self.payload@, retain: self.retain }
    }
}

pub open spec fn route_of(base: Seq<char>, msg: MsgModel) -> Option<RoutedModel> {
    match msg {
        MsgModel::State(path, value) => Some(
            RoutedModel { topic: base + "/state/"@ + path, payload: payload_of(value), retain: true },
        ),
        MsgModel::Event(topic, data) => Some(
            RoutedModel { topic: base + "/event/"@ + topic, payload: written(data), retain: false },
        ),
        MsgModel::Snapshot(_) => None,
    }
}

pub open spec fn opt_routed(o: Option<Routed>) -> Option<RoutedModel> {
    match o {
        Some(r) => Some(r@),
        None => None,
    }
}

/// Where a bus message goes, and whether it is retained. A snapshot goes
/// nowhere: the retained state topics already are it.
pub fn route(base: &str, msg: &Msg) -> (r: Option<Routed>)
    ensures
        opt_routed(r) == route_of(base@, msg@),
{
    match msg {
        Msg::State { path, value } => Some(
            Routed { topic: cat3(base, "/state/", path.as_str()), payload: payload(value), retain: true },
        ),
        Msg::Event { topic, data } => Some(
            Routed { topic: cat3(base, "/event/", topic.as_str()), payload: data.to_text(), retain: false },
        ),
        Msg::Snapshot { .. } => None,
    }
}

/// State is retained, so that a subscriber who connects late is told the truth;
/// an event is not, so that it is never replayed to whoever connects next.
pub proof fn law_state_is_retained_and_events_are_not(base: Seq<char>, path: Seq<char>, value: JsonModel)
    ensures
        route_of(base, MsgModel::State(path, value)) matches Some(m) && m.retain,
        route_of(base, MsgModel::Event(path, value)) matches Some(m) && !m.retain,
{
}

/// The models of topics with their payloads.
pub open spec fn routed(v: Seq<Routed>) -> Seq<RoutedModel> {
    v.map_values(|r: Routed| r@)
}

pub open spec fn retained_leaf(base: Seq<char>, leaf: (Seq<char>, JsonModel)) -> RoutedModel {
    RoutedModel { topic: base + "/state/"@ + leaf.0, payload: payload_of(leaf.1), retain: true }
}

/// Every retained topic of a state document.
pub open spec fn retained_of(base: Seq<char>, doc: JsonModel) -> Seq<RoutedModel> {
    leaves(seq![], doc).map_values(|leaf: (Seq<char>, JsonModel)| retained_leaf(base, leaf))
}

/// Every retained topic, for a fresh subscriber or a reconnected broker.
pub fn retained(base: &str, state: &Json) -> (r: Vec<Routed>)
    ensures
        routed(r@) == retained_of(base@, state@),
{
    let all = flatten(state);
    let mut out: Vec<Routed> = Vec::new();
    let mut i: usize = 0;
    let ghost want = retained_of(base@, state@);
    while i < all.len()
        invariant
            i <= all@.len(),
            want == pairs(all@).map_values(|leaf: (Seq<char>, JsonModel)| retained_leaf(base@, leaf)),
            routed(out@) == want.take(i as int),
        decreases all@.len() - i,
    {
        let ghost was = routed(out@);
        let m = Routed {
            topic: cat3(base, "/state/", all[i].0.as_str()),
            payload: payload(&all[i].1),
            retain: true,
        };
        out.push(m);
        assert(routed(out@) =~= was.push(m@));
        assert(want.take(i + 1) =~= want.take(i as int).push(want[i as int]));
        i += 1;
    }
    assert(want.take(all@.len() as int) =~= want);
    out
}

/// Topic filters, level by level: `+` is one level, `#` is the rest.
pub open spec fn covers(f: Seq<Seq<char>>, t: Seq<Seq<char>>) -> bool
    decreases f.len(),
{
    if f.len() == 0 {
        t.len() == 0
    } else if f[0] == "#"@ {
        true
    } else if t.len() == 0 {
        false
    } else {
        (f[0] == "+"@ || f[0] == t[0]) && covers(f.skip(1), t.skip(1))
    }
}

pub open spec fn filter_matches(filter: Seq<char>, topic: Seq<char>) -> bool {
    covers(levels(filter), levels(topic))
}

/// Does a topic pass a filter?
pub fn matches(filter: &str, topic: &str) -> (r: bool)
    ensures
        r == filter_matches(filter@, topic@),
{
    let fc = to_chars(filter);
    let tc = to_chars(topic);
    let f = split_of(fc.as_slice(), &Class::One('/'));
    let t = split_of(tc.as_slice(), &Class::One('/'));
    let ghost fs = slices(f@);
    let ghost ts = slices(t@);
    let mut i: usize = 0;
    assert(fs.skip(0) =~= fs);
    assert(ts.skip(0) =~= ts);
    loop
        invariant
            i <= f@.len(),
            i <= t@.len(),
            fs == slices(f@),
            ts == slices(t@),
            filter_matches(filter@, topic@) == covers(fs.skip(i as int), ts.skip(i as int)),
        decreases f@.len() - i,
    {
        if i >= f.len() {
            return i >= t.len();
        }
        assert(fs.skip(i as int)[0] == f@[i as int]@);
        if eq_str(f[i], "#") {
            return true;
        }
        if i >= t.len() {
            return false;
        }
        assert(ts.skip(i as int)[0] == t@[i as int]@);
        if !eq_str(f[i], "+") && !same_chars(f[i], t[i]) {
            return false;
        }
        assert(fs.skip(i as int).skip(1) =~= fs.skip(i + 1));
        assert(ts.skip(i as int).skip(1) =~= ts.skip(i + 1));
        i += 1;
    }
}

fn same_chars(a: &[char], b: &[char]) -> (r: bool)
    ensures
        r == (a@ == b@),
{
    if a.len() != b.len() {
        return false;
    }
    let mut i: usize = 0;
    while i < a.len()
        invariant
            i <= a@.len(),
            a@.len() == b@.len(),
            forall|k: int| 0 <= k < i ==> a@[k] == b@[k],
        decreases a@.len() - i,
    {
        if a[i] != b[i] {
            return false;
        }
        i += 1;
    }
    assert(a@ =~= b@);
    true
}

proof fn lemma_covers_itself(t: Seq<Seq<char>>)
    ensures
        covers(t, t),
    decreases t.len(),
{
    if t.len() > 0 {
        lemma_covers_itself(t.skip(1));
    }
}

/// A topic used as a filter lets itself through.
pub proof fn law_a_topic_matches_itself(topic: Seq<char>)
    ensures
        filter_matches(topic, topic),
{
    lemma_covers_itself(levels(topic));
}

/// The levels of a path below a prefix make up the path again.
proof fn lemma_levels_join(prefix: Seq<char>, s: Seq<char>, i: int)
    requires
        prefix.len() > 0,
        0 <= i <= s.len(),
    ensures
        path_under(prefix, split_from(s, Class::One('/'), i)) == prefix + "/"@ + s.skip(i),
    decreases s.len() - i,
{
    reveal_strlit("/");
    reveal_with_fuel(path_under, 2);
    let cl = Class::One('/');
    let j = first_from(s, cl, i);
    lemma_first_from(s, cl, i);
    let p = split_from(s, cl, i);
    if j < s.len() {
        let head = under(prefix, s.subrange(i, j));
        assert(p.skip(1) =~= split_from(s, cl, j + 1));
        lemma_levels_join(head, s, j + 1);
        assert(head + "/"@ + s.skip(j + 1) =~= prefix + "/"@ + s.skip(i));
    } else {
        assert(p.skip(1) =~= seq![]);
        assert(s.subrange(i, s.len() as int) =~= s.skip(i));
    }
}

proof fn lemma_path_of_levels(s: Seq<char>)
    requires
        s.len() > 0,
        s[0] != '/',
    ensures
        path_under(seq![], levels(s)) == s,
{
    reveal_strlit("/");
    reveal_with_fuel(path_under, 2);
    let cl = Class::One('/');
    let j = first_from(s, cl, 0);
    lemma_first_from(s, cl, 0);
    let p = levels(s);
    if j < s.len() {
        let head = s.subrange(0, j);
        assert(p.skip(1) =~= split_from(s, cl, j + 1));
        lemma_levels_join(head, s, j + 1);
        assert(head + "/"@ + s.skip(j + 1) =~= s);
    } else {
        assert(p.skip(1) =~= seq![]);
        assert(s.subrange(0, s.len() as int) =~= s);
    }
}

/// After any history on the bus a fresh subscriber is told every value as it was
/// last published: among the retained topics of the document stands, for each
/// path that was set, the very message that its last change went out as. It
/// holds as long as no path leads into another or begins with a slash, and of
/// every value that is no object.
pub proof fn law_every_value_is_retained_as_published(calls: Seq<BusCall>, base: Seq<char>, path: Seq<char>)
    requires
        forall|p: Seq<char>, q: Seq<char>|
            (#[trigger] last_set(calls, p)) is Some && (#[trigger] last_set(calls, q)) is Some && p != q ==> apart(
                levels(p),
                levels(q),
            ),
        last_set(calls, path) is Some,
        !(last_set(calls, path)->0 is Object),
        path.len() > 0,
        path[0] != '/',
    ensures
        retained_of(base, bus_after(calls).snapshot().msg->Snapshot_0).contains(
            route_of(base, MsgModel::State(path, last_set(calls, path)->0))->0,
        ),
{
    let v = last_set(calls, path)->0;
    let o = nested(bus_after(calls).state);
    let all = leaves(seq![], JsonModel::Object(o));
    law_a_snapshot_holds_the_last_values(calls, path);
    lemma_leaf(seq![], o, levels(path), v);
    lemma_path_of_levels(path);
    let k = choose|k: int| 0 <= k < all.len() && all[k] == (path, v);
    assert(retained_of(base, JsonModel::Object(o))[k] == retained_leaf(base, (path, v)));
}

/// The levels of a longer topic are those of its head and those of its tail.
pub proof fn lemma_levels_append(a: Seq<char>, rest: Seq<char>)
    ensures
        levels(a + "/"@ + rest) == levels(a) + levels(rest),
    decreases a.len(),
{
    reveal_strlit("/");
    let cl = Class::One('/');
    let j = first_from(a, cl, 0);
    lemma_first_from(a, cl, 0);
    if j < a.len() {
        let head = a.take(j);
        let tail = a.skip(j + 1);
        assert(one_level(head));
        assert(a =~= head + "/"@ + tail);
        lemma_level_in_front(head, tail);
        lemma_levels_append(tail, rest);
        assert(a + "/"@ + rest =~= head + "/"@ + (tail + "/"@ + rest));
        lemma_level_in_front(head, tail + "/"@ + rest);
        assert(levels(a + "/"@ + rest) =~= levels(a) + levels(rest));
    } else {
        assert(one_level(a));
        lemma_only_level(a);
        lemma_level_in_front(a, rest);
    }
}

proof fn lemma_covers_after(p: Seq<Seq<char>>, f: Seq<Seq<char>>, t: Seq<Seq<char>>)
    ensures
        covers(f, t) ==> covers(p + f, p + t),
    decreases p.len(),
{
    if p.len() == 0 {
        assert(p + f =~= f);
        assert(p + t =~= t);
    } else {
        lemma_covers_after(p.skip(1), f, t);
        assert((p + f).skip(1) =~= p.skip(1) + f);
        assert((p + t).skip(1) =~= p.skip(1) + t);
        assert((p + f)[0] == (p + t)[0]);
    }
}

/// A filter that ends in `#` lets through everything below what stands before it.
pub proof fn law_a_hash_covers_what_is_below(base: Seq<char>, rest: Seq<char>)
    ensures
        filter_matches(base + "/#"@, base + "/"@ + rest),
{
    reveal_strlit("/#");
    reveal_strlit("/");
    reveal_strlit("#");
    assert(base + "/#"@ =~= base + "/"@ + "#"@);
    lemma_levels_append(base, "#"@);
    lemma_levels_append(base, rest);
    lemma_only_level("#"@);
    lemma_covers_after(levels(base), levels("#"@), levels(rest));
}

/// `+` stands for one level, whatever it is, and for no more than one.
pub proof fn law_a_plus_is_one_level(level: Seq<char>, more: Seq<char>)
    requires
        one_level(level),
    ensures
        filter_matches("+"@, level),
        !filter_matches("+"@, level + "/"@ + more),
{
    reveal_strlit("+");
    reveal_strlit("#");
    lemma_only_level("+"@);
    lemma_only_level(level);
    lemma_level_in_front(level, more);
    let f = seq!["+"@];
    assert("+"@[0] != "#"@[0]);
    assert(f.skip(1) =~= seq![]);
    assert(seq![level].skip(1) =~= seq![]);
    assert(covers(seq![], seq![]));
    assert((seq![level] + levels(more)).skip(1) =~= levels(more));
    assert(levels(more).len() > 0);
    reveal_with_fuel(covers, 2);
}

/// A filter without wildcards lets only its own topic through.
pub proof fn law_a_plain_filter_is_its_topic(filter: Seq<Seq<char>>, topic: Seq<Seq<char>>)
    requires
        forall|i: int| 0 <= i < filter.len() ==> #[trigger] filter[i] != "#"@ && filter[i] != "+"@,
    ensures
        covers(filter, topic) <==> filter == topic,
    decreases filter.len(),
{
    if filter.len() > 0 && topic.len() > 0 {
        assert forall|i: int| 0 <= i < filter.skip(1).len() implies #[trigger] filter.skip(1)[i] != "#"@ && filter.skip(
            1,
        )[i] != "+"@ by {
            assert(filter.skip(1)[i] == filter[i + 1]);
        }
        assert(filter[0] != "#"@);
        law_a_plain_filter_is_its_topic(filter.skip(1), topic.skip(1));
        if filter[0] == topic[0] && filter.skip(1) == topic.skip(1) {
            assert(filter =~= seq![filter[0]] + filter.skip(1));
            assert(topic =~= seq![topic[0]] + topic.skip(1));
        }
    } else if filter.len() > 0 {
        assert(filter[0] != "#"@);
    } else if topic.len() == 0 {
        assert(filter =~= topic);
    }
}

/// State and events go out below the same base, each under its own name, at the
/// path the bus has for them: whoever knows the path knows the topic.
pub proof fn law_a_message_goes_out_under_its_path(base: Seq<char>, path: Seq<char>, v: JsonModel)
    ensures
        route_of(base, MsgModel::State(path, v)) matches Some(m) && levels(m.topic) == levels(base) + seq!["state"@]
            + levels(path),
        route_of(base, MsgModel::Event(path, v)) matches Some(m) && levels(m.topic) == levels(base) + seq!["event"@]
            + levels(path),
        route_of(base, MsgModel::State(path, JsonModel::Bool(true)))->0.payload != route_of(
            base,
            MsgModel::State(path, JsonModel::Bool(false)),
        )->0.payload,
{
    reveal_strlit("/state/");
    reveal_strlit("/event/");
    reveal_strlit("state");
    reveal_strlit("event");
    reveal_strlit("/");
    reveal_strlit("ON");
    reveal_strlit("OFF");
    assert("ON"@.len() != "OFF"@.len());
    assert(base + "/state/"@ + path =~= base + "/"@ + ("state"@ + "/"@ + path));
    assert(base + "/event/"@ + path =~= base + "/"@ + ("event"@ + "/"@ + path));
    lemma_levels_append(base, "state"@ + "/"@ + path);
    lemma_levels_append(base, "event"@ + "/"@ + path);
    lemma_level_in_front("state"@, path);
    lemma_level_in_front("event"@, path);
    assert(levels(base) + (seq!["state"@] + levels(path)) =~= levels(base) + seq!["state"@] + levels(path));
    assert(levels(base) + (seq!["event"@] + levels(path)) =~= levels(base) + seq!["event"@] + levels(path));
}

} // verus!
