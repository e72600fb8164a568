//! The wire surfaces: who may speak, what a client hears, and how a frame of the
//! control socket is answered.
use crate::flasher::board::opt_str;
use crate::iod::board::{Io, IoModel};
use crate::iod::events::{Msg, MsgModel, State};
use crate::iod::fault::{Fault, FaultModel};
use crate::iod::mqtt::topics::filter_matches;
use crate::iod::ops::{fresh, nothing, port_device, serial_device, Cmd, CmdModel};
use crate::iod::serial::{baud_path, port_path};
use crate::json::{find_member, list, member, members, object, put, text, values, with, Json, JsonModel};
use crate::text::{
    bytes_of, find_from, from_chars, same, slices, split, split_of, strings, strip_prefix, strip_prefix_str, to_chars,
    utf8, Class,
};
use vstd::prelude::*;
use vstd::slice::slice_subrange;
use vstd::string::*;

verus! {

// ---------------------------------------------------------------------------- tokens

/// Compare without an early return, so the time taken does not reveal how much
/// of a guessed token was right.
pub fn constant_eq(a: &[u8], b: &[u8]) -> (r: bool)
    ensures
        r == (a@ == b@),
{
    if a.len() != b.len() {
        return false;
    }
    let mut acc: u8 = 0;
    let mut i: usize = 0;
    assert(a@.take(0) =~= b@.take(0));
    while i < a.len()
        invariant
            i <= a@.len(),
            a@.len() == b@.len(),
            (acc == 0) == (a@.take(i as int) == b@.take(i as int)),
        decreases a@.len() - i,
    {
        let x: u8 = a[i];
        let y: u8 = b[i];
        let ghost p = a@.take(i as int);
        let ghost q = b@.take(i as int);
        assert((acc | (x ^ y)) == 0 <==> acc == 0 && x == y) by (bit_vector);
        acc = acc | (x ^ y);
        proof {
            assert(a@.take(i + 1) =~= p.push(x));
            assert(b@.take(i + 1) =~= q.push(y));
            if p.push(x) == q.push(y) {
                assert(p.push(x).drop_last() =~= p);
                assert(q.push(y).drop_last() =~= q);
                assert(p.push(x).last() == x && q.push(y).last() == y);
            }
        }
        i += 1;
    }
    assert(a@.take(a@.len() as int) =~= a@);
    assert(b@.take(b@.len() as int) =~= b@);
    acc == 0
}

/// Every `%20` as a space.
pub open spec fn spaced(s: Seq<char>) -> Seq<char>
    decreases s.len(),
{
    match find_from(s, "%20"@, 0) {
        Some(i) => if 0 <= i && i + 3 <= s.len() {
            s.take(i) + seq![' '] + spaced(s.skip(i + 3))
        } else {
            s
        },
        None => s,
    }
}

fn unescape(s: &[char]) -> (r: String)
    ensures
        r@ == spaced(s@),
    decreases s@.len(),
{
    let pat = to_chars("%20");
    proof {
        reveal_strlit("%20");
    }
    match crate::text::find_chars(s, pat.as_slice()) {
        Some(i) => {
            if i <= s.len() && s.len() - i >= 3 {
                let head = slice_subrange(s, 0, i);
                assert(head@ =~= s@.take(i as int));
                let mut out = from_chars(head);
                out.push(' ');
                let rest = slice_subrange(s, i + 3, s.len());
                assert(rest@ =~= s@.skip(i + 3));
                let tail = unescape(rest);
                out.append(tail.as_str());
                assert(out@ =~= s@.take(i as int) + seq![' '] + spaced(s@.skip(i + 3)));
                out
            } else {
                from_chars(s)
            }
        },
        None => from_chars(s),
    }
}

/// The first `token=` among query parts.
pub open spec fn token_in(parts: Seq<Seq<char>>) -> Option<Seq<char>>
    decreases parts.len(),
{
    if parts.len() == 0 {
        None
    } else {
        match strip_prefix(parts[0], "token="@) {
            Some(v) => Some(spaced(v)),
            None => token_in(parts.skip(1)),
        }
    }
}

/// The token a request carries: in its header, else in its query, else none.
pub open spec fn token_of(header: Option<Seq<char>>, query: Seq<char>) -> Seq<char> {
    let h = match header {
        Some(v) => strip_prefix(v, "Bearer "@),
        None => None,
    };
    match h {
        Some(t) => t,
        None => match token_in(split(query, Class::One('&'))) {
            Some(t) => t,
            None => seq![],
        },
    }
}

fn query_token(query: &str) -> (r: Option<String>)
    ensures
        crate::text::opt(r) == token_in(split(query@, Class::One('&'))),
{
    let chars = to_chars(query);
    let parts = split_of(chars.as_slice(), &Class::One('&'));
    let ghost all = slices(parts@);
    let mut i: usize = 0;
    assert(all.skip(0) =~= all);
    while i < parts.len()
        invariant
            i <= parts@.len(),
            all == slices(parts@),
            all == split(query@, Class::One('&')),
            token_in(all) == token_in(all.skip(i as int)),
        decreases parts@.len() - i,
    {
        assert(all.skip(i as int)[0] == parts@[i as int]@);
        match strip_prefix_str(parts[i], "token=") {
            Some(v) => {
                return Some(unescape(v));
            },
            None => {},
        }
        assert(all.skip(i as int).skip(1) =~= all.skip(i + 1));
        i += 1;
    }
    None
}

fn request_token(header: Option<&str>, query: &str) -> (r: String)
    ensures
        r@ == token_of(opt_str(header), query@),
{
    if let Some(h) = header {
        let chars = to_chars(h);
        if let Some(t) = strip_prefix_str(chars.as_slice(), "Bearer ") {
            return from_chars(t);
        }
    }
    match query_token(query) {
        Some(t) => t,
        None => {
            let e = String::new();
            assert(e@ =~= seq![]);
            e
        },
    }
}

/// Is a request let through? Always, where no token is configured; liveness and
/// preflights always; otherwise only with the token.
pub open spec fn admitted(
    want: Option<Seq<char>>,
    path: Seq<char>,
    preflight: bool,
    header: Option<Seq<char>>,
    query: Seq<char>,
) -> bool {
    match want {
        None => true,
        Some(w) => w.len() == 0 || path == "/api/health"@ || preflight || utf8(token_of(header, query)) == utf8(w),
    }
}

/// Optional shared-secret authentication.
pub fn auth(want: Option<&str>, path: &str, preflight: bool, header: Option<&str>, query: &str) -> (r: bool)
    ensures
        r == admitted(opt_str(want), path@, preflight, opt_str(header), query@),
{
    match want {
        None => true,
        Some(w) => {
            if to_chars(w).len() == 0 {
                return true;
            }
            if same(path, "/api/health") || preflight {
                return true;
            }
            let got = request_token(header, query);
            let a = bytes_of(got.as_str());
            let b = bytes_of(w);
            constant_eq(a.as_slice(), b.as_slice())
        },
    }
}

/// With a token configured, a request without it reaches nothing but liveness.
pub proof fn law_no_token_no_entry(
    want: Seq<char>,
    path: Seq<char>,
    header: Option<Seq<char>>,
    query: Seq<char>,
)
    requires
        want.len() > 0,
        path != "/api/health"@,
        utf8(token_of(header, query)) != utf8(want),
    ensures
        !admitted(Some(want), path, false, header, query),
{
}

// ---------------------------------------------------------------------- subscriptions

/// Does any filter let a topic through?
pub open spec fn any_matches(filters: Seq<Seq<char>>, topic: Seq<char>) -> bool {
    exists|i: int| 0 <= i < filters.len() && filter_matches(#[trigger] filters[i], topic)
}

pub fn any_filter(filters: &Vec<String>, topic: &str) -> (r: bool)
    ensures
        r == any_matches(strings(filters@), topic@),
{
    let mut i: usize = 0;
    while i < filters.len()
        invariant
            i <= filters@.len(),
            forall|k: int| 0 <= k < i ==> !filter_matches(#[trigger] strings(filters@)[k], topic@),
        decreases filters@.len() - i,
    {
        assert(strings(filters@)[i as int] == filters@[i as int]@);
        if crate::iod::mqtt::topics::matches(filters[i].as_str(), topic) {
            return true;
        }
        i += 1;
    }
    false
}

/// What a control socket is sent: state always, because a client holding a stale
/// mirror is wrong; events only where it asked for them.
pub open spec fn wanted(filters: Seq<Seq<char>>, msg: MsgModel) -> bool {
    match msg {
        MsgModel::Event(topic, _) => any_matches(filters, topic),
        _ => true,
    }
}

/// State and snapshots always reach a control socket; an event reaches one that
/// subscribed to nothing never.
pub proof fn law_state_always_flows(filters: Seq<Seq<char>>, msg: MsgModel)
    ensures
        !(msg is Event) ==> wanted(filters, msg),
        msg is Event ==> !wanted(seq![], msg),
{
}

pub fn deliver(filters: &Vec<String>, msg: &Msg) -> (r: bool)
    ensures
        r == wanted(strings(filters@), msg@),
{
    match msg {
        Msg::Event { topic, .. } => any_filter(filters, topic.as_str()),
        _ => true,
    }
}

/// The texts among values.
pub open spec fn texts_of(v: Seq<JsonModel>) -> Seq<Seq<char>>
    decreases v.len(),
{
    if v.len() == 0 {
        seq![]
    } else {
        match v.last() {
            JsonModel::Text(s) => texts_of(v.drop_last()).push(s),
            _ => texts_of(v.drop_last()),
        }
    }
}

/// A member of an object; nothing of anything else.
pub open spec fn field(body: JsonModel, k: Seq<char>) -> Option<JsonModel> {
    match body {
        JsonModel::Object(o) => member(o, k),
        _ => None,
    }
}

/// `topics` as a list, or `topic` as a single text: both spellings appear in the
/// wild.
pub open spec fn topics_in(body: JsonModel) -> Seq<Seq<char>> {
    match field(body, "topics"@) {
        Some(JsonModel::List(v)) => texts_of(v),
        _ => match field(body, "topic"@) {
            Some(JsonModel::Text(s)) => seq![s],
            _ => seq![],
        },
    }
}

fn get_field<'a>(body: &'a Json, k: &str) -> (r: Option<&'a Json>)
    ensures
        match r {
            Some(v) => field(body@, k@) == Some(v@),
            None => field(body@, k@) is None,
        },
{
    match body {
        Json::Object(o) => {
            assert(body@ == JsonModel::Object(members(o@))) by {
                assert(body@->Object_0 =~= members(o@));
            }
            match find_member(o, k) {
                Some(i) => Some(&o[i].value),
                None => None,
            }
        },
        _ => None,
    }
}

pub fn topics_of(body: &Json) -> (r: Vec<String>)
    ensures
        strings(r@) == topics_in(body@),
{
    let mut out: Vec<String> = Vec::new();
    assert(strings(out@) =~= seq![]);
    if let Some(j) = get_field(body, "topics") {
        if let Json::List(v) = j {
            assert(j@ == JsonModel::List(values(v@))) by {
                assert(j@->List_0 =~= values(v@));
            }
            let ghost all = values(v@);
            let mut i: usize = 0;
            assert(strings(out@) =~= texts_of(all.take(0)));
            while i < v.len()
                invariant
                    i <= v@.len(),
                    all == values(v@),
                    strings(out@) == texts_of(all.take(i as int)),
                decreases v@.len() - i,
            {
                assert(all.take(i + 1).drop_last() =~= all.take(i as int));
                assert(all.take(i + 1).last() == v@[i as int]@);
                if let Json::Text(s) = &v[i] {
                    let ghost was = strings(out@);
                    let c = s.clone();
                    out.push(c);
                    assert(strings(out@) =~= was.push(c@));
                }
                i += 1;
            }
            assert(all.take(all.len() as int) =~= all);
            return out;
        }
    }
    if let Some(j) = get_field(body, "topic") {
        if let Json::Text(s) = j {
            let c = s.clone();
            out.push(c);
            assert(strings(out@) =~= seq![c@]);
        }
    }
    out
}

/// Filters with more of them, each once.
pub open spec fn added(filters: Seq<Seq<char>>, topics: Seq<Seq<char>>) -> Seq<Seq<char>>
    decreases topics.len(),
{
    if topics.len() == 0 {
        filters
    } else {
        let f = added(filters, topics.drop_last());
        if f.contains(topics.last()) {
            f
        } else {
            f.push(topics.last())
        }
    }
}

/// Filters without some of them.
pub open spec fn dropped(filters: Seq<Seq<char>>, topics: Seq<Seq<char>>) -> Seq<Seq<char>>
    decreases filters.len(),
{
    if filters.len() == 0 {
        seq![]
    } else if topics.contains(filters.last()) {
        dropped(filters.drop_last(), topics)
    } else {
        dropped(filters.drop_last(), topics).push(filters.last())
    }
}

pub fn holds(v: &Vec<String>, s: &str) -> (r: bool)
    ensures
        r == strings(v@).contains(s@),
{
    let mut i: usize = 0;
    while i < v.len()
        invariant
            i <= v@.len(),
            forall|k: int| 0 <= k < i ==> #[trigger] strings(v@)[k] != s@,
        decreases v@.len() - i,
    {
        assert(strings(v@)[i as int] == v@[i as int]@);
        if same(v[i].as_str(), s) {
            return true;
        }
        i += 1;
    }
    false
}

fn add_filters(filters: &mut Vec<String>, topics: &Vec<String>)
    ensures
        strings(final(filters)@) == added(strings(old(filters)@), strings(topics@)),
{
    let ghost start = strings(filters@);
    let ghost all = strings(topics@);
    let mut i: usize = 0;
    assert(all.take(0) =~= seq![]);
    while i < topics.len()
        invariant
            i <= topics@.len(),
            all == strings(topics@),
            strings(filters@) == added(start, all.take(i as int)),
        decreases topics@.len() - i,
    {
        assert(all.take(i + 1).drop_last() =~= all.take(i as int));
        assert(all.take(i + 1).last() == topics@[i as int]@);
        if !holds(filters, topics[i].as_str()) {
            let ghost was = strings(filters@);
            let c = topics[i].clone();
            filters.push(c);
            assert(strings(filters@) =~= was.push(c@));
        }
        i += 1;
    }
    assert(all.take(all.len() as int) =~= all);
}

fn drop_filters(filters: &mut Vec<String>, topics: &Vec<String>)
    ensures
        strings(final(filters)@) == dropped(strings(old(filters)@), strings(topics@)),
{
    let ghost all = strings(filters@);
    let mut out: Vec<String> = Vec::new();
    let mut i: usize = 0;
    assert(strings(out@) =~= dropped(all.take(0), strings(topics@)));
    while i < filters.len()
        invariant
            i <= filters@.len(),
            all == strings(filters@),
            strings(out@) == dropped(all.take(i as int), strings(topics@)),
        decreases filters@.len() - i,
    {
        assert(all.take(i + 1).drop_last() =~= all.take(i as int));
        assert(all.take(i + 1).last() == filters@[i as int]@);
        if !holds(topics, filters[i].as_str()) {
            let ghost was = strings(out@);
            let c = filters[i].clone();
            out.push(c);
            assert(strings(out@) =~= was.push(c@));
        }
        i += 1;
    }
    assert(all.take(all.len() as int) =~= all);
    *filters = out;
}

// ---------------------------------------------------------------------------- frames

pub open spec fn text_list(v: Seq<Seq<char>>) -> JsonModel {
    JsonModel::List(v.map_values(|s: Seq<char>| JsonModel::Text(s)))
}

fn show_filters(v: &Vec<String>) -> (r: Json)
    ensures
        r@ == text_list(strings(v@)),
{
    let mut out: Vec<Json> = Vec::new();
    let ghost want = strings(v@).map_values(|s: Seq<char>| JsonModel::Text(s));
    let mut i: usize = 0;
    while i < v.len()
        invariant
            i <= v@.len(),
            want == strings(v@).map_values(|s: Seq<char>| JsonModel::Text(s)),
            values(out@) == want.take(i as int),
        decreases v@.len() - i,
    {
        let ghost was = values(out@);
        let j = text(v[i].as_str());
        out.push(j);
        assert(values(out@) =~= was.push(j@));
        assert(want.take(i + 1) =~= want.take(i as int).push(want[i as int]));
        i += 1;
    }
    assert(want.take(v@.len() as int) =~= want);
    list(out)
}

pub open spec fn ok_doc(id: JsonModel, result: JsonModel) -> JsonModel {
    let o = with(nothing(), "id"@, id);
    let o = with(o, "ok"@, JsonModel::Bool(true));
    JsonModel::Object(with(o, "result"@, result))
}

pub open spec fn error_doc(code: Seq<char>, status: Option<u16>, message: Seq<char>) -> JsonModel {
    let e = with(nothing(), "code"@, JsonModel::Text(code));
    let e = match status {
        Some(s) => with(e, "status"@, JsonModel::Number(s as nat)),
        None => e,
    };
    JsonModel::Object(with(e, "message"@, JsonModel::Text(message)))
}

pub open spec fn refused_doc(id: JsonModel, error: JsonModel) -> JsonModel {
    let o = with(nothing(), "id"@, id);
    let o = with(o, "ok"@, JsonModel::Bool(false));
    JsonModel::Object(with(o, "error"@, error))
}

fn accept(id: Json, result: Json) -> (r: Json)
    ensures
        r@ == ok_doc(id@, result@),
{
    let mut o = fresh();
    put(&mut o, "id", id);
    put(&mut o, "ok", Json::Bool(true));
    put(&mut o, "result", result);
    object(o)
}

fn show_error(code: &str, status: Option<u16>, message: &str) -> (r: Json)
    ensures
        r@ == error_doc(code@, status, message@),
{
    let mut e = fresh();
    put(&mut e, "code", text(code));
    if let Some(s) = status {
        put(&mut e, "status", Json::Number(s as u64));
    }
    put(&mut e, "message", text(message));
    object(e)
}

fn refuse(id: Json, error: Json) -> (r: Json)
    ensures
        r@ == refused_doc(id@, error@),
{
    let mut o = fresh();
    put(&mut o, "id", id);
    put(&mut o, "ok", Json::Bool(false));
    put(&mut o, "error", error);
    object(o)
}

/// The reply to a frame that is not JSON.
pub open spec fn bad_json_doc(why: Seq<char>) -> JsonModel {
    let o = with(nothing(), "ok"@, JsonModel::Bool(false));
    JsonModel::Object(with(o, "error"@, error_doc("bad_json"@, None, why)))
}

pub fn bad_json(why: &str) -> (r: Json)
    ensures
        r@ == bad_json_doc(why@),
{
    let mut o = fresh();
    put(&mut o, "ok", Json::Bool(false));
    put(&mut o, "error", show_error("bad_json", None, why));
    object(o)
}

/// What a frame of the control socket comes to.
#[derive(Debug)]
pub enum Framed {
    Reply(Json),
    /// Carry this command out and answer with its result.
    Run(Cmd),
}

pub ghost enum FramedModel {
    Reply(JsonModel),
    Run(CmdModel),
}

impl View for Framed {
    type V = FramedModel;

    open spec fn view(&self) -> FramedModel {
        match self {
            Framed::Reply(j) => FramedModel::Reply(j@),
            Framed::Run(c) => FramedModel::Run(c@),
        }
    }
}

pub open spec fn op_of(body: JsonModel) -> Seq<char> {
    match field(body, "op"@) {
        Some(JsonModel::Text(s)) => s,
        _ => ""@,
    }
}

pub open spec fn subscribed_doc(filters: Seq<Seq<char>>) -> JsonModel {
    JsonModel::Object(with(nothing(), "subscribed"@, text_list(filters)))
}

/// A frame: the filters after it, and what it comes to. What is about this
/// connection is answered here; everything else is a command, or not one.
pub open spec fn frame_turn(
    filters: Seq<Seq<char>>,
    id: JsonModel,
    body: JsonModel,
    cmd: Result<CmdModel, Seq<char>>,
) -> (Seq<Seq<char>>, FramedModel) {
    let op = op_of(body);
    if op == "subscribe"@ {
        let f = added(filters, topics_in(body));
        (f, FramedModel::Reply(ok_doc(id, subscribed_doc(f))))
    } else if op == "unsubscribe"@ {
        let f = dropped(filters, topics_in(body));
        (f, FramedModel::Reply(ok_doc(id, subscribed_doc(f))))
    } else if op == "ping"@ {
        (
            filters,
            FramedModel::Reply(
                ok_doc(id, JsonModel::Object(with(nothing(), "pong"@, JsonModel::Bool(true)))),
            ),
        )
    } else {
        match cmd {
            Ok(c) => (filters, FramedModel::Run(c)),
            Err(why) => (
                filters,
                FramedModel::Reply(refused_doc(id, error_doc("bad_request"@, None, why))),
            ),
        }
    }
}

pub open spec fn cmd_result(c: Result<Cmd, String>) -> Result<CmdModel, Seq<char>> {
    match c {
        Ok(x) => Ok(x@),
        Err(e) => Err(e@),
    }
}

fn subscribed(filters: &Vec<String>) -> (r: Json)
    ensures
        r@ == subscribed_doc(strings(filters@)),
{
    let mut o = fresh();
    put(&mut o, "subscribed", show_filters(filters));
    object(o)
}

/// One client frame. `cmd` is what its body reads as when it is a command.
pub fn handle_frame(filters: &mut Vec<String>, id: Json, body: &Json, cmd: Result<Cmd, String>) -> (r: Framed)
    ensures
        (strings(final(filters)@), r@) == frame_turn(strings(old(filters)@), id@, body@, cmd_result(cmd)),
{
    let op: &str = match get_field(body, "op") {
        Some(j) => match j {
            Json::Text(s) => s.as_str(),
            _ => "",
        },
        None => "",
    };
    if same(op, "subscribe") {
        let topics = topics_of(body);
        add_filters(filters, &topics);
        let d = subscribed(filters);
        return Framed::Reply(accept(id, d));
    }
    if same(op, "unsubscribe") {
        let topics = topics_of(body);
        drop_filters(filters, &topics);
        let d = subscribed(filters);
        return Framed::Reply(accept(id, d));
    }
    if same(op, "ping") {
        let mut o = fresh();
        put(&mut o, "pong", Json::Bool(true));
        return Framed::Reply(accept(id, object(o)));
    }
    match cmd {
        Ok(c) => Framed::Run(c),
        Err(why) => Framed::Reply(refuse(id, show_error("bad_request", None, why.as_str()))),
    }
}

pub open spec fn answer_doc(id: JsonModel, r: Result<JsonModel, FaultModel>) -> JsonModel {
    match r {
        Ok(v) => ok_doc(id, v),
        Err(f) => refused_doc(id, error_doc(f.code(), Some(f.status()), f.message())),
    }
}

pub open spec fn out_model(r: Result<Json, Fault>) -> Result<JsonModel, FaultModel> {
    match r {
        Ok(v) => Ok(v@),
        Err(f) => Err(f@),
    }
}

/// The answer to a command, under the id it came with.
pub fn answer(id: Json, result: Result<Json, Fault>) -> (r: Json)
    ensures
        r@ == answer_doc(id@, out_model(result)),
{
    match result {
        Ok(v) => accept(id, v),
        Err(f) => {
            let m = f.message();
            refuse(id, show_error(f.code(), Some(f.status()), m.as_str()))
        },
    }
}

/// A failure as a plain response.
pub open spec fn fault_doc(f: FaultModel) -> JsonModel {
    let o = with(nothing(), "error"@, JsonModel::Text(f.message()));
    JsonModel::Object(with(o, "code"@, JsonModel::Text(f.code())))
}

pub fn fault_response(f: &Fault) -> (r: (u16, Json))
    ensures
        r.0 == f@.status(),
        r.1@ == fault_doc(f@),
{
    let mut o = fresh();
    let m = f.message();
    put(&mut o, "error", text(m.as_str()));
    put(&mut o, "code", text(f.code()));
    (f.status(), object(o))
}

/// A client that fell behind is told how much it missed; the state document
/// follows.
pub fn lagged(missed: u64) -> (r: Json)
    ensures
        r@ == JsonModel::Object(
            with(with(nothing(), "type"@, JsonModel::Text("lagged"@)), "missed"@, JsonModel::Number(missed as nat)),
        ),
{
    let mut o = fresh();
    put(&mut o, "type", text("lagged"));
    put(&mut o, "missed", Json::Number(missed));
    object(o)
}

proof fn lemma_added(filters: Seq<Seq<char>>, topics: Seq<Seq<char>>, t: Seq<char>)
    ensures
        added(filters, topics).contains(t) == (filters.contains(t) || topics.contains(t)),
    decreases topics.len(),
{
    if topics.len() > 0 {
        let d = topics.drop_last();
        lemma_added(filters, d, t);
        let f = added(filters, d);
        let l = topics.last();
        if topics.contains(t) {
            let i = choose|i: int| 0 <= i < topics.len() && topics[i] == t;
            if i < d.len() {
                assert(d[i] == t);
            }
        }
        if d.contains(t) {
            let i = choose|i: int| 0 <= i < d.len() && d[i] == t;
            assert(topics[i] == t);
        }
        assert(topics[topics.len() - 1] == l);
        if !f.contains(l) {
            let n = f.push(l);
            assert(n[n.len() - 1] == l);
            if n.contains(t) {
                let i = choose|i: int| 0 <= i < n.len() && n[i] == t;
                if i < f.len() {
                    assert(f[i] == t);
                }
            }
            if f.contains(t) {
                let i = choose|i: int| 0 <= i < f.len() && f[i] == t;
                assert(n[i] == t);
            }
        }
    }
}

/// What was subscribed to is among the filters afterwards, with everything that
/// was there.
pub proof fn law_a_subscription_is_kept(filters: Seq<Seq<char>>, topics: Seq<Seq<char>>, t: Seq<char>)
    ensures
        added(filters, topics).contains(t) == (filters.contains(t) || topics.contains(t)),
{
    lemma_added(filters, topics, t);
}

/// What was unsubscribed from is gone, and nothing else is.
pub proof fn law_an_unsubscription_is_final(filters: Seq<Seq<char>>, topics: Seq<Seq<char>>, t: Seq<char>)
    ensures
        dropped(filters, topics).contains(t) == (filters.contains(t) && !topics.contains(t)),
    decreases filters.len(),
{
    if filters.len() > 0 {
        let d = filters.drop_last();
        law_an_unsubscription_is_final(d, topics, t);
        let l = filters.last();
        assert(filters[filters.len() - 1] == l);
        if filters.contains(t) {
            let i = choose|i: int| 0 <= i < filters.len() && filters[i] == t;
            if i < d.len() {
                assert(d[i] == t);
            }
        }
        if d.contains(t) {
            let i = choose|i: int| 0 <= i < d.len() && d[i] == t;
            assert(filters[i] == t);
        }
        if !topics.contains(l) {
            let f = dropped(d, topics);
            let n = f.push(l);
            assert(n[n.len() - 1] == l);
            if n.contains(t) {
                let i = choose|i: int| 0 <= i < n.len() && n[i] == t;
                if i < f.len() {
                    assert(f[i] == t);
                }
            }
            if f.contains(t) {
                let i = choose|i: int| 0 <= i < f.len() && f[i] == t;
                assert(n[i] == t);
            }
        }
    }
}

// --------------------------------------------------------------------- the terminal

/// The device and the rate a terminal on a port opens at. The rate is the one the
/// state holds for the port, else the one its board gives it.
pub open spec fn terminal_of(io: IoModel, state: Seq<(Seq<char>, JsonModel)>, index: nat) -> Result<
    (Seq<char>, nat),
    FaultModel,
> {
    match port_device(io, index) {
        Err(f) => Err(f),
        Ok(dev) => Ok(
            (
                dev,
                match member(state, port_path(index, "baud"@)) {
                    Some(JsonModel::Number(n)) => (n as u64 as u32) as nat,
                    _ => io.serials[index as int].baud,
                },
            ),
        ),
    }
}

/// What a terminal on a port opens, or why there is nothing to open: a port that
/// a microcontroller routes has no device, and says so.
pub fn terminal(io: &Io, state: &State, index: usize) -> (r: Result<(String, u32), Fault>)
    ensures
        match terminal_of(io@, state@, index as nat) {
            Ok(t) => r is Ok && r->Ok_0.0@ == t.0 && r->Ok_0.1 == t.1,
            Err(f) => r is Err && r->Err_0@ == f,
        },
{
    let dev = match serial_device(io, index) {
        Ok(d) => d,
        Err(f) => {
            return Err(f);
        },
    };
    let p = &io.serials[index];
    assert(io@.serials[index as int] == p@);
    assert(index < io.serials.len());
    let path = baud_path(index);
    match state.get(path.as_str()) {
        Some(Json::Number(n)) => Ok((dev, n as u32)),
        _ => Ok((dev, p.baud)),
    }
}

} // verus!
