//! The control plane: state that is mirrored, events that merely happen.
//!
//! State is what the box currently is. It has a value at every instant, a new
//! client must be told it on connect, and a client that misses a change is wrong
//! until the next one. Events are things that happened: they have no value
//! between occurrences and are never retained.
use crate::json::{
    apart, at_path, find_member, in_order, law_a_path_holds_what_was_put, law_other_paths_stay, lemma_found,
    lemma_held, lemma_in_order, lemma_member, member, members, object, put, put_path, text, with, with_path, Json,
    JsonModel, Member,
};
use crate::text::{from_chars, slices, split, split_of, strings, to_chars, Class};
use crate::textmap::lemma_lt_irreflexive;
use vstd::prelude::*;
use vstd::string::*;

verus! {

/// A message of the control plane.
#[derive(Debug)]
pub enum Msg {
    /// The whole state document. Sent on connect, and on request.
    Snapshot { state: Json },
    /// One piece of state changed.
    State { path: String, value: Json },
    /// Something happened.
    Event { topic: String, data: Json },
}

pub ghost enum MsgModel {
    Snapshot(JsonModel),
    State(Seq<char>, JsonModel),
    Event(Seq<char>, JsonModel),
}

impl View for Msg {
    type V = MsgModel;

    open spec fn view(&self) -> MsgModel {
        match self {
            Msg::Snapshot { state } => MsgModel::Snapshot(state@),
            Msg::State { path, value } => MsgModel::State(path@, value@),
            Msg::Event { topic, data } => MsgModel::Event(topic@, data@),
        }
    }
}

impl MsgModel {
    pub open spec fn topic(self) -> Seq<char> {
        match self {
            MsgModel::Snapshot(_) => "snapshot"@,
            MsgModel::State(path, _) => path,
            MsgModel::Event(topic, _) => topic,
        }
    }
}

impl Msg {
    /// The routing key, for subscription filters and topic mapping.
    pub fn topic(&self) -> (r: &str)
        ensures
            r@ == self@.topic(),
    {
        match self {
            Msg::Snapshot { .. } => "snapshot",
            Msg::State { path, .. } => path.as_str(),
            Msg::Event { topic, .. } => topic.as_str(),
        }
    }
}

/// A message with its place in the stream. The number is monotonic across the
/// whole stream, so a consumer can prove it missed nothing.
#[derive(Debug)]
pub struct Envelope {
    pub seq: u64,
    pub msg: Msg,
}

pub ghost struct EnvelopeModel {
    pub seq: nat,
    pub msg: MsgModel,
}

impl View for Envelope {
    type V = EnvelopeModel;

    open spec fn view(&self) -> EnvelopeModel {
        EnvelopeModel { seq: self.seq as nat, msg: self.msg@ }
    }
}

/// A message as it goes out on the control socket: its number, its time as
/// written, what it is, and what it carries.
pub open spec fn shown(e: EnvelopeModel, ts: Seq<char>) -> JsonModel {
    let head = seq![("seq"@, JsonModel::Number(e.seq)), ("ts"@, JsonModel::Raw(ts))];
    JsonModel::Object(
        head + match e.msg {
            MsgModel::Snapshot(state) => seq![("type"@, JsonModel::Text("snapshot"@)), ("state"@, state)],
            MsgModel::State(path, value) => seq![
                ("type"@, JsonModel::Text("state"@)),
                ("path"@, JsonModel::Text(path)),
                ("value"@, value),
            ],
            MsgModel::Event(topic, data) => seq![
                ("type"@, JsonModel::Text("event"@)),
                ("topic"@, JsonModel::Text(topic)),
                ("data"@, data),
            ],
        },
    )
}

fn field(k: &str, v: Json) -> (r: Member)
    ensures
        (r.key@, r.value@) == (k@, v@),
{
    Member { key: String::from_str(k), value: v }
}

impl Envelope {
    pub fn show(&self, ts: &str) -> (r: Json)
        ensures
            r@ == shown(self@, ts@),
    {
        let mut o: Vec<Member> = Vec::new();
        o.push(field("seq", Json::Number(self.seq)));
        o.push(field("ts", Json::Raw(String::from_str(ts))));
        match &self.msg {
            Msg::Snapshot { state } => {
                o.push(field("type", text("snapshot")));
                o.push(field("state", state.copy()));
            },
            Msg::State { path, value } => {
                o.push(field("type", text("state")));
                o.push(field("path", text(path.as_str())));
                o.push(field("value", value.copy()));
            },
            Msg::Event { topic, data } => {
                o.push(field("type", text("event")));
                o.push(field("topic", text(topic.as_str())));
                o.push(field("data", data.copy()));
            },
        }
        assert(members(o@) =~= shown(self@, ts@)->Object_0);
        object(o)
    }
}

/// The authoritative mirror of everything that has a current value, by path and
/// in path order.
#[derive(Debug)]
pub struct State {
    inner: Vec<Member>,
}

impl View for State {
    type V = Seq<(Seq<char>, JsonModel)>;

    closed spec fn view(&self) -> Seq<(Seq<char>, JsonModel)> {
        members(self.inner@)
    }
}

/// The levels of a path.
pub open spec fn levels(path: Seq<char>) -> Seq<Seq<char>> {
    split(path, Class::One('/'))
}

/// The mirror as one nested document.
pub open spec fn nested(m: Seq<(Seq<char>, JsonModel)>) -> Seq<(Seq<char>, JsonModel)>
    decreases m.len(),
{
    if m.len() == 0 {
        seq![]
    } else {
        with_path(nested(m.drop_last()), levels(m.last().0), m.last().1)
    }
}

fn levels_of(path: &str) -> (r: Vec<String>)
    ensures
        strings(r@) == levels(path@),
        r@.len() > 0,
{
    let chars = to_chars(path);
    let parts = split_of(chars.as_slice(), &Class::One('/'));
    let mut out: Vec<String> = Vec::new();
    let mut i: usize = 0;
    while i < parts.len()
        invariant
            i <= parts@.len(),
            strings(out@) == slices(parts@).take(i as int),
        decreases parts@.len() - i,
    {
        let ghost was = strings(out@);
        let s = from_chars(parts[i]);
        out.push(s);
        assert(strings(out@) =~= was.push(s@));
        assert(slices(parts@).take(i + 1) =~= slices(parts@).take(i as int).push(parts@[i as int]@));
        i += 1;
    }
    assert(slices(parts@).take(parts@.len() as int) =~= slices(parts@));
    assert(strings(out@).len() == out@.len());
    out
}

impl State {
    pub fn new() -> (r: State)
        ensures
            r@ == Seq::<(Seq<char>, JsonModel)>::empty(),
    {
        let r = State { inner: Vec::new() };
        assert(members(r.inner@) =~= seq![]);
        r
    }

    pub fn get(&self, path: &str) -> (r: Option<Json>)
        ensures
            match member(self@, path@) {
                Some(v) => r is Some && r->0@ == v,
                None => r is None,
            },
    {
        match find_member(&self.inner, path) {
            Some(i) => Some(self.inner[i].value.copy()),
            None => None,
        }
    }

    /// The whole document, nested: `relay/1` is the `1` of the object `relay`,
    /// so that a client can hold it as one object.
    pub fn doc(&self) -> (r: Json)
        ensures
            r@ == JsonModel::Object(nested(self@)),
    {
        let mut root: Vec<Member> = Vec::new();
        let mut i: usize = 0;
        let ghost all = members(self.inner@);
        assert(members(root@) =~= nested(all.take(0)));
        while i < self.inner.len()
            invariant
                i <= self.inner@.len(),
                all == members(self.inner@),
                members(root@) == nested(all.take(i as int)),
            decreases self.inner@.len() - i,
        {
            assert(all.take(i + 1).drop_last() =~= all.take(i as int));
            let m = &self.inner[i];
            let parts = levels_of(m.key.as_str());
            put_path(&mut root, parts.as_slice(), m.value.copy());
            i += 1;
        }
        assert(all.take(all.len() as int) =~= all);
        object(root)
    }
}

/// Every value is in the document at its path, as long as no path leads into
/// another.
pub proof fn law_every_value_is_in_the_document(m: Seq<(Seq<char>, JsonModel)>, i: int)
    requires
        forall|a: int, b: int|
            0 <= a < b < m.len() ==> apart(levels((#[trigger] m[b]).0), levels((#[trigger] m[a]).0)),
        forall|a: int| 0 <= a < m.len() ==> levels((#[trigger] m[a]).0).len() > 0,
        0 <= i < m.len(),
    ensures
        at_path(nested(m), levels(m[i].0)) == Some(m[i].1),
    decreases m.len(),
{
    let d = m.drop_last();
    if i == m.len() - 1 {
        law_a_path_holds_what_was_put(nested(d), levels(m.last().0), m.last().1);
    } else {
        assert forall|a: int, b: int| 0 <= a < b < d.len() implies apart(
            levels((#[trigger] d[b]).0),
            levels((#[trigger] d[a]).0),
        ) by {
            assert(d[a] == m[a] && d[b] == m[b]);
        }
        assert forall|a: int| 0 <= a < d.len() implies levels((#[trigger] d[a]).0).len() > 0 by {
            assert(d[a] == m[a]);
        }
        law_every_value_is_in_the_document(d, i);
        assert(d[i] == m[i]);
        assert(apart(levels(m[m.len() - 1].0), levels(m[i].0)));
        law_other_paths_stay(nested(d), levels(m.last().0), m.last().1, levels(m[i].0));
    }
}

/// The bus: the mirror and the last number handed out.
#[derive(Debug)]
pub struct Bus {
    seq: u64,
    state: State,
}

pub ghost struct BusModel {
    /// The number of the last message; the first is 1.
    pub seq: nat,
    pub state: Seq<(Seq<char>, JsonModel)>,
}

impl View for Bus {
    type V = BusModel;

    closed spec fn view(&self) -> BusModel {
        BusModel { seq: self.seq as nat, state: self.state@ }
    }
}

impl BusModel {
    /// A bus that nothing has been published on.
    pub open spec fn fresh() -> BusModel {
        BusModel { seq: 0, state: seq![] }
    }

    /// A message in the next place of the stream.
    pub open spec fn sent(self, msg: MsgModel) -> (BusModel, EnvelopeModel) {
        (BusModel { seq: self.seq + 1, ..self }, EnvelopeModel { seq: self.seq + 1, msg })
    }

    /// A state value recorded, and published if it changed.
    pub open spec fn set(self, path: Seq<char>, value: JsonModel) -> (BusModel, Option<EnvelopeModel>) {
        if member(self.state, path) == Some(value) {
            (self, None)
        } else {
            let (b, e) = BusModel { state: with(self.state, path, value), ..self }.sent(
                MsgModel::State(path, value),
            );
            (b, Some(e))
        }
    }

    pub open spec fn snapshot(self) -> EnvelopeModel {
        EnvelopeModel { seq: self.seq, msg: MsgModel::Snapshot(JsonModel::Object(nested(self.state))) }
    }
}

pub open spec fn opt_envelope(e: Option<Envelope>) -> Option<EnvelopeModel> {
    match e {
        Some(x) => Some(x@),
        None => None,
    }
}

impl Bus {
    pub fn new() -> (r: Bus)
        ensures
            r@ == BusModel::fresh(),
    {
        Bus { seq: 0, state: State::new() }
    }

    pub fn state(&self) -> (r: &State)
        ensures
            r@ == self@.state,
    {
        &self.state
    }

    /// Record a state value and publish a delta, but only if it actually
    /// changed: the pollers write the same value many times a second.
    pub fn set(&mut self, path: &str, value: Json) -> (r: Option<Envelope>)
        requires
            old(self)@.seq < u64::MAX,
        ensures
            final(self)@ == old(self)@.set(path@, value@).0,
            opt_envelope(r) == old(self)@.set(path@, value@).1,
    {
        match find_member(&self.state.inner, path) {
            Some(i) => {
                if self.state.inner[i].value.equals(&value) {
                    return None;
                }
            },
            None => {},
        }
        let copy = value.copy();
        put(&mut self.state.inner, path, value);
        self.seq = self.seq + 1;
        Some(Envelope { seq: self.seq, msg: Msg::State { path: String::from_str(path), value: copy } })
    }

    /// Publish something that happened. Never retained, never deduplicated: two
    /// identical remote presses are two events.
    pub fn event(&mut self, topic: &str, data: Json) -> (r: Envelope)
        requires
            old(self)@.seq < u64::MAX,
        ensures
            (final(self)@, r@) == old(self)@.sent(MsgModel::Event(topic@, data@)),
    {
        self.seq = self.seq + 1;
        Envelope { seq: self.seq, msg: Msg::Event { topic: String::from_str(topic), data } }
    }

    /// The current state document, for a client that just arrived. Its number is
    /// the last one reflected in the document, not a new one: a snapshot goes to
    /// a single socket and must not punch a gap in every other client's stream.
    pub fn snapshot(&self) -> (r: Envelope)
        ensures
            r@ == self@.snapshot(),
    {
        Envelope { seq: self.seq, msg: Msg::Snapshot { state: self.state.doc() } }
    }
}

/// A value written again is not published again, and the mirror holds it.
pub proof fn law_a_repeated_value_is_silent(b: BusModel, path: Seq<char>, value: JsonModel)
    ensures
        member(b.set(path, value).0.state, path) == Some(value),
        b.set(path, value).0.set(path, value) == (b.set(path, value).0, None::<EnvelopeModel>),
{
    lemma_member(b.state, path, value, path);
}

/// What is published carries the number after the snapshot's, and a snapshot
/// taken then names it: the stream has no gaps.
pub proof fn law_the_stream_has_no_gaps(b: BusModel, path: Seq<char>, value: JsonModel, topic: Seq<char>)
    ensures
        match b.set(path, value).1 {
            Some(e) => e.seq == b.snapshot().seq + 1 && b.set(path, value).0.snapshot().seq == e.seq,
            None => b.set(path, value).0.snapshot() == b.snapshot(),
        },
        b.sent(MsgModel::Event(topic, value)).1.seq == b.snapshot().seq + 1,
        b.sent(MsgModel::Event(topic, value)).0.snapshot().seq == b.snapshot().seq + 1,
{
}

/// An event leaves no trace: it is published every time, and the mirror a new
/// client is told from stays as it was.
pub proof fn law_events_are_not_remembered(b: BusModel, topic: Seq<char>, data: JsonModel)
    ensures
        b.sent(MsgModel::Event(topic, data)).0.state == b.state,
        b.sent(MsgModel::Event(topic, data)).1.msg == MsgModel::Event(topic, data),
        b.sent(MsgModel::Event(topic, data)).0.snapshot().msg == b.snapshot().msg,
{
}

// ------------------------------------------------------------------ a whole history

/// One call on the bus.
pub ghost enum BusCall {
    State(Seq<char>, JsonModel),
    Event(Seq<char>, JsonModel),
    Snapshot,
}

impl BusModel {
    pub open spec fn called(self, c: BusCall) -> BusModel {
        match c {
            BusCall::State(path, value) => self.set(path, value).0,
            BusCall::Event(topic, data) => self.sent(MsgModel::Event(topic, data)).0,
            BusCall::Snapshot => self,
        }
    }
}

/// A new bus after these calls.
pub open spec fn bus_after(calls: Seq<BusCall>) -> BusModel
    decreases calls.len(),
{
    if calls.len() == 0 {
        BusModel::fresh()
    } else {
        bus_after(calls.drop_last()).called(calls.last())
    }
}

/// The value a path was last set to.
pub open spec fn last_set(calls: Seq<BusCall>, path: Seq<char>) -> Option<JsonModel>
    decreases calls.len(),
{
    if calls.len() == 0 {
        None
    } else {
        match calls.last() {
            BusCall::State(p, v) if p == path => Some(v),
            _ => last_set(calls.drop_last(), path),
        }
    }
}

/// How many of the calls publish: every event, and every set of a path that was
/// new or held another value.
pub open spec fn published(calls: Seq<BusCall>) -> nat
    decreases calls.len(),
{
    if calls.len() == 0 {
        0
    } else {
        let before = calls.drop_last();
        published(before) + match calls.last() {
            BusCall::State(path, value) => if last_set(before, path) == Some(value) {
                0nat
            } else {
                1nat
            },
            BusCall::Event(_, _) => 1nat,
            BusCall::Snapshot => 0nat,
        }
    }
}

/// The mirror holds what each path was last set to, and no path twice.
proof fn lemma_history(calls: Seq<BusCall>)
    ensures
        forall|path: Seq<char>| #[trigger] member(bus_after(calls).state, path) == last_set(calls, path),
        in_order(bus_after(calls).state),
        bus_after(calls).seq == published(calls),
    decreases calls.len(),
{
    if calls.len() > 0 {
        let before = calls.drop_last();
        lemma_history(before);
        let b = bus_after(before);
        match calls.last() {
            BusCall::State(path, value) => {
                assert(member(b.state, path) == last_set(before, path));
                if member(b.state, path) != Some(value) {
                    lemma_in_order(b.state, path, value);
                    assert forall|q: Seq<char>| #[trigger] member(bus_after(calls).state, q) == last_set(calls, q) by {
                        lemma_member(b.state, path, value, q);
                        assert(member(b.state, q) == last_set(before, q));
                    }
                } else {
                    assert forall|q: Seq<char>| #[trigger] member(bus_after(calls).state, q) == last_set(calls, q) by {
                        assert(member(b.state, q) == last_set(before, q));
                    }
                }
            },
            _ => {
                assert forall|q: Seq<char>| #[trigger] member(bus_after(calls).state, q) == last_set(calls, q) by {
                    assert(member(b.state, q) == last_set(before, q));
                }
            },
        }
    }
}

/// After any history the bus's number is the count of what was published. A
/// snapshot carries it and uses none up, and the next message published, if the
/// next call publishes one, carries the number after it.
pub proof fn law_the_number_counts_what_was_published(
    calls: Seq<BusCall>,
    path: Seq<char>,
    value: JsonModel,
    topic: Seq<char>,
)
    ensures
        bus_after(calls).seq == published(calls),
        bus_after(calls).snapshot().seq == published(calls),
        bus_after(calls.push(BusCall::Snapshot)).snapshot() == bus_after(calls).snapshot(),
        match bus_after(calls).set(path, value).1 {
            Some(e) => last_set(calls, path) != Some(value) && e.seq == published(calls) + 1,
            None => last_set(calls, path) == Some(value),
        },
        bus_after(calls).sent(MsgModel::Event(topic, value)).1.seq == published(calls) + 1,
{
    lemma_history(calls);
    assert(member(bus_after(calls).state, path) == last_set(calls, path));
    assert(calls.push(BusCall::Snapshot).drop_last() =~= calls);
}

/// After any history in which no path leads into another, a snapshot nests at
/// every path that was set the value it was last set to.
pub proof fn law_a_snapshot_holds_the_last_values(calls: Seq<BusCall>, path: Seq<char>)
    requires
        forall|p: Seq<char>, q: Seq<char>|
            (#[trigger] last_set(calls, p)) is Some && (#[trigger] last_set(calls, q)) is Some && p != q ==> apart(
                levels(p),
                levels(q),
            ),
        last_set(calls, path) is Some,
    ensures
        bus_after(calls).snapshot().msg matches MsgModel::Snapshot(JsonModel::Object(doc)) && at_path(
            doc,
            levels(path),
        ) == last_set(calls, path),
{
    lemma_history(calls);
    let m = bus_after(calls).state;
    assert forall|a: int| 0 <= a < m.len() implies last_set(calls, (#[trigger] m[a]).0) is Some by {
        lemma_held(m, a);
        assert(member(m, m[a].0) == last_set(calls, m[a].0));
    }
    assert forall|a: int, b: int| 0 <= a < b < m.len() implies apart(
        levels((#[trigger] m[b]).0),
        levels((#[trigger] m[a]).0),
    ) by {
        lemma_lt_irreflexive(m[a].0);
        assert(last_set(calls, m[a].0) is Some && last_set(calls, m[b].0) is Some);
    }
    assert(member(m, path) == last_set(calls, path));
    let i = lemma_found(m, path);
    law_every_value_is_in_the_document(m, i);
}

/// No slash in it: one level of a path.
pub open spec fn one_level(s: Seq<char>) -> bool {
    forall|k: int| 0 <= k < s.len() ==> #[trigger] s[k] != '/'
}

/// A level in front, and a slash, is one more level in front.
pub proof fn lemma_level_in_front(a: Seq<char>, rest: Seq<char>)
    requires
        one_level(a),
    ensures
        levels(a + "/"@ + rest) == seq![a] + levels(rest),
{
    reveal_strlit("/");
    let s = a + "/"@ + rest;
    let cl = Class::One('/');
    assert forall|k: int| 0 <= k < a.len() implies !cl.holds(#[trigger] s[k]) by {
        assert(s[k] == a[k]);
    }
    assert(cl.holds(s[a.len() as int]));
    crate::text::lemma_split_step(s, cl, 0, a.len() as int);
    assert(s.subrange(0, a.len() as int) =~= a);
    lemma_levels_shift(a + "/"@, rest, 0);
}

proof fn lemma_levels_shift(head: Seq<char>, rest: Seq<char>, i: int)
    requires
        0 <= i <= rest.len(),
    ensures
        crate::text::split_from(head + rest, Class::One('/'), head.len() + i) == crate::text::split_from(
            rest,
            Class::One('/'),
            i,
        ),
    decreases rest.len() - i,
{
    let s = head + rest;
    let cl = Class::One('/');
    let j = crate::text::first_from(rest, cl, i);
    crate::text::lemma_first_from(rest, cl, i);
    assert forall|k: int| head.len() + i <= k < head.len() + j implies !cl.holds(#[trigger] s[k]) by {
        assert(s[k] == rest[k - head.len()]);
    }
    if j < rest.len() {
        assert(s[head.len() + j] == rest[j]);
        crate::text::lemma_split_step(s, cl, head.len() + i, head.len() + j);
        crate::text::lemma_split_step(rest, cl, i, j);
        lemma_levels_shift(head, rest, j + 1);
        assert(s.subrange(head.len() + i, head.len() + j) =~= rest.subrange(i, j));
    } else {
        crate::text::lemma_split_end(s, cl, head.len() + i);
        crate::text::lemma_split_end(rest, cl, i);
        assert(s.subrange(head.len() + i, s.len() as int) =~= rest.subrange(i, rest.len() as int));
    }
}

/// A text without a slash is one level.
pub proof fn lemma_only_level(a: Seq<char>)
    requires
        one_level(a),
    ensures
        levels(a) == seq![a],
{
    crate::text::lemma_split_end(a, Class::One('/'), 0);
    assert(a.subrange(0, a.len() as int) =~= a);
}

/// A printed number is one level.
pub proof fn lemma_number_level(n: nat)
    ensures
        one_level(crate::num::dec(n)),
        crate::num::dec(n).len() > 0,
{
    crate::num::lemma_digits_plain(n, 10);
    assert forall|k: int| 0 <= k < crate::num::dec(n).len() implies #[trigger] crate::num::dec(n)[k] != '/' by {
        assert(crate::num::digit_val(crate::num::digits(n, 10)[k]) < 10);
    }
}

} // verus!
