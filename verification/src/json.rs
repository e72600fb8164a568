//! A JSON value: what the state mirror holds and what goes out on the wire.
//!
//! A member that is put into an object goes where key order wants it.
use crate::num::{dec, digit_char, hex_fixed};
use crate::text::{
    cat3, joined, lemma_utf8_concat, lemma_utf8_round_trip, lossy, same, strings, to_chars, utf8,
};
use crate::textmap::{before, lemma_lt_irreflexive, lemma_lt_total, lemma_lt_transitive, text_lt};
use serde_json::ser::{CompactFormatter, Formatter};
use vstd::prelude::*;
use vstd::slice::slice_subrange;
use vstd::string::*;

verus! {

#[derive(Debug)]
pub enum Json {
    Nil,
    Bool(bool),
    Number(u64),
    Text(String),
    List(Vec<Json>),
    Object(Vec<Member>),
    /// A value that is carried as the compact text it came as.
    Raw(String),
}

#[derive(Debug)]
pub struct Member {
    pub key: String,
    pub value: Json,
}

pub ghost enum JsonModel {
    Nil,
    Bool(bool),
    Number(nat),
    Text(Seq<char>),
    List(Seq<JsonModel>),
    Object(Seq<(Seq<char>, JsonModel)>),
    Raw(Seq<char>),
}

pub open spec fn model_of(j: Json) -> JsonModel
    decreases j,
{
    match j {
        Json::Nil => JsonModel::Nil,
        Json::Bool(b) => JsonModel::Bool(b),
        Json::Number(n) => JsonModel::Number(n as nat),
        Json::Text(s) => JsonModel::Text(s@),
        Json::Raw(s) => JsonModel::Raw(s@),
        Json::List(v) => JsonModel::List(
            Seq::new(
                v@.len(),
                |i: int|
                    if 0 <= i < v@.len() {
                        model_of(v@[i])
                    } else {
                        JsonModel::Nil
                    },
            ),
        ),
        Json::Object(v) => JsonModel::Object(
            Seq::new(
                v@.len(),
                |i: int|
                    if 0 <= i < v@.len() {
                        (v@[i].key@, model_of(v@[i].value))
                    } else {
                        (seq![], JsonModel::Nil)
                    },
            ),
        ),
    }
}

impl View for Json {
    type V = JsonModel;

    open spec fn view(&self) -> JsonModel {
        model_of(*self)
    }
}

/// The models of a list of values.
pub open spec fn values(v: Seq<Json>) -> Seq<JsonModel> {
    v.map_values(|j: Json| j@)
}

/// The models of an object's members.
pub open spec fn members(v: Seq<Member>) -> Seq<(Seq<char>, JsonModel)> {
    v.map_values(|m: Member| (m.key@, m.value@))
}

pub proof fn lemma_list(v: Vec<Json>)
    ensures
        Json::List(v)@ == JsonModel::List(values(v@)),
{
    assert(Json::List(v)@->List_0 =~= values(v@));
}

pub proof fn lemma_object(v: Vec<Member>)
    ensures
        Json::Object(v)@ == JsonModel::Object(members(v@)),
{
    assert(Json::Object(v)@->Object_0 =~= members(v@));
}

// -------------------------------------------------------------------- construction

pub fn list(v: Vec<Json>) -> (r: Json)
    ensures
        r@ == JsonModel::List(values(v@)),
{
    proof {
        lemma_list(v);
    }
    Json::List(v)
}

pub fn object(v: Vec<Member>) -> (r: Json)
    ensures
        r@ == JsonModel::Object(members(v@)),
{
    proof {
        lemma_object(v);
    }
    Json::Object(v)
}

pub fn text(s: &str) -> (r: Json)
    ensures
        r@ == JsonModel::Text(s@),
{
    Json::Text(String::from_str(s))
}

/// An object's members with one key given a value: in place of the one it had,
/// or where the order wants it.
pub open spec fn with(o: Seq<(Seq<char>, JsonModel)>, k: Seq<char>, v: JsonModel) -> Seq<(Seq<char>, JsonModel)>
    decreases o.len(),
{
    if o.len() == 0 {
        seq![(k, v)]
    } else if o[0].0 == k {
        seq![(k, v)] + o.skip(1)
    } else if text_lt(k, o[0].0) {
        seq![(k, v)] + o
    } else {
        seq![o[0]] + with(o.skip(1), k, v)
    }
}

/// The value of a key.
pub open spec fn member(o: Seq<(Seq<char>, JsonModel)>, k: Seq<char>) -> Option<JsonModel>
    decreases o.len(),
{
    if o.len() == 0 {
        None
    } else if o[0].0 == k {
        Some(o[0].1)
    } else {
        member(o.skip(1), k)
    }
}

/// Where a key stands or belongs: the place of the first member that does not
/// come before it without being it.
pub open spec fn place(o: Seq<(Seq<char>, JsonModel)>, k: Seq<char>) -> int
    decreases o.len(),
{
    if o.len() == 0 || o[0].0 == k || text_lt(k, o[0].0) {
        0
    } else {
        1 + place(o.skip(1), k)
    }
}

proof fn lemma_place(o: Seq<(Seq<char>, JsonModel)>, k: Seq<char>, v: JsonModel)
    ensures
        0 <= place(o, k) <= o.len(),
        place(o, k) < o.len() && o[place(o, k)].0 == k ==> with(o, k, v) == o.update(place(o, k), (k, v)),
        !(place(o, k) < o.len() && o[place(o, k)].0 == k) ==> with(o, k, v) == o.insert(place(o, k), (k, v)),
    decreases o.len(),
{
    if o.len() == 0 {
        assert(with(o, k, v) =~= o.insert(0, (k, v)));
    } else if o[0].0 == k {
        assert(with(o, k, v) =~= o.update(0, (k, v)));
    } else if text_lt(k, o[0].0) {
        assert(with(o, k, v) =~= o.insert(0, (k, v)));
    } else {
        let t = o.skip(1);
        lemma_place(t, k, v);
        let p = place(t, k);
        if p < t.len() && t[p].0 == k {
            assert(with(o, k, v) =~= o.update(p + 1, (k, v)));
        } else {
            assert(with(o, k, v) =~= o.insert(p + 1, (k, v)));
        }
    }
}

fn find_place(o: &Vec<Member>, k: &str) -> (r: usize)
    ensures
        r == place(members(o@), k@),
        r <= o@.len(),
{
    let ghost all = members(o@);
    let mut i: usize = 0;
    assert(all.skip(0) =~= all);
    while i < o.len()
        invariant
            i <= o@.len(),
            all == members(o@),
            place(all, k@) == i + place(all.skip(i as int), k@),
        decreases o@.len() - i,
    {
        assert(all.skip(i as int)[0] == (o@[i as int].key@, o@[i as int].value@));
        if same(o[i].key.as_str(), k) || before(k, o[i].key.as_str()) {
            return i;
        }
        assert(all.skip(i as int).skip(1) =~= all.skip(i + 1));
        i += 1;
    }
    i
}

/// Give a member its value.
pub fn put(o: &mut Vec<Member>, k: &str, v: Json)
    ensures
        members(final(o)@) == with(members(old(o)@), k@, v@),
{
    let i: usize = find_place(o, k);
    let ghost was = members(o@);
    let ghost w = v@;
    proof {
        lemma_place(was, k@, w);
    }
    let m = Member { key: String::from_str(k), value: v };
    if i < o.len() && same(o[i].key.as_str(), k) {
        assert(was[i as int].0 == o@[i as int].key@);
        o.set(i, m);
        assert(members(o@) =~= was.update(i as int, (k@, w)));
    } else {
        if i < o.len() {
            assert(was[i as int].0 == o@[i as int].key@);
        }
        o.insert(i, m);
        assert(members(o@) =~= was.insert(i as int, (k@, w)));
    }
}

// ------------------------------------------------------------------------- copying

impl Json {
    pub fn copy(&self) -> (r: Json)
        ensures
            r@ == self@,
        decreases self,
    {
        match self {
            Json::Nil => Json::Nil,
            Json::Bool(b) => Json::Bool(*b),
            Json::Number(n) => Json::Number(*n),
            Json::Text(s) => Json::Text(s.clone()),
            Json::Raw(s) => Json::Raw(s.clone()),
            Json::List(v) => {
                let mut out: Vec<Json> = Vec::new();
                let mut i: usize = 0;
                while i < v.len()
                    invariant
                        i <= v@.len(),
                        *self == Json::List(*v),
                        values(out@) == values(v@).take(i as int),
                    decreases v@.len() - i,
                {
                    assert(*v == self->List_0);
                    assert(decreases_to!(self => v@[i as int]));
                    let ghost was = values(out@);
                    let c = v[i].copy();
                    out.push(c);
                    assert(values(out@) =~= was.push(c@));
                    assert(values(v@).take(i + 1) =~= values(v@).take(i as int).push(v@[i as int]@));
                    i += 1;
                }
                assert(values(v@).take(v@.len() as int) =~= values(v@));
                proof {
                    lemma_list(*v);
                }
                list(out)
            },
            Json::Object(v) => {
                let mut out: Vec<Member> = Vec::new();
                let mut i: usize = 0;
                while i < v.len()
                    invariant
                        i <= v@.len(),
                        *self == Json::Object(*v),
                        members(out@) == members(v@).take(i as int),
                    decreases v@.len() - i,
                {
                    assert(*v == self->Object_0);
                    assert(decreases_to!(self => v@[i as int].value));
                    let ghost was = members(out@);
                    let c = Member { key: v[i].key.clone(), value: v[i].value.copy() };
                    out.push(c);
                    assert(members(out@) =~= was.push((c.key@, c.value@)));
                    assert(members(v@).take(i + 1) =~= members(v@).take(i as int).push(
                        (v@[i as int].key@, v@[i as int].value@),
                    ));
                    i += 1;
                }
                assert(members(v@).take(v@.len() as int) =~= members(v@));
                proof {
                    lemma_object(*v);
                }
                object(out)
            },
        }
    }

    /// Are two values the same?
    pub fn equals(&self, other: &Json) -> (r: bool)
        ensures
            r == (self@ == other@),
        decreases self,
    {
        match (self, other) {
            (Json::Nil, Json::Nil) => true,
            (Json::Bool(a), Json::Bool(b)) => *a == *b,
            (Json::Number(a), Json::Number(b)) => *a == *b,
            (Json::Text(a), Json::Text(b)) => same(a.as_str(), b.as_str()),
            (Json::Raw(a), Json::Raw(b)) => same(a.as_str(), b.as_str()),
            (Json::List(a), Json::List(b)) => {
                proof {
                    lemma_list(*a);
                    lemma_list(*b);
                }
                if a.len() != b.len() {
                    assert(values(a@).len() != values(b@).len());
                    return false;
                }
                let mut i: usize = 0;
                while i < a.len()
                    invariant
                        i <= a@.len(),
                        a@.len() == b@.len(),
                        *self == Json::List(*a),
                        self@ == JsonModel::List(values(a@)),
                        other@ == JsonModel::List(values(b@)),
                        forall|k: int| 0 <= k < i ==> values(a@)[k] == values(b@)[k],
                    decreases a@.len() - i,
                {
                    assert(decreases_to!(self => a@[i as int]));
                    assert(values(a@)[i as int] == a@[i as int]@);
                    assert(values(b@)[i as int] == b@[i as int]@);
                    if !a[i].equals(&b[i]) {
                        return false;
                    }
                    i += 1;
                }
                assert(values(a@) =~= values(b@));
                true
            },
            (Json::Object(a), Json::Object(b)) => {
                proof {
                    lemma_object(*a);
                    lemma_object(*b);
                }
                if a.len() != b.len() {
                    assert(members(a@).len() != members(b@).len());
                    return false;
                }
                let mut i: usize = 0;
                while i < a.len()
                    invariant
                        i <= a@.len(),
                        a@.len() == b@.len(),
                        *self == Json::Object(*a),
                        self@ == JsonModel::Object(members(a@)),
                        other@ == JsonModel::Object(members(b@)),
                        forall|k: int| 0 <= k < i ==> members(a@)[k] == members(b@)[k],
                    decreases a@.len() - i,
                {
                    assert(decreases_to!(self => a@[i as int].value));
                    assert(members(a@)[i as int] == (a@[i as int].key@, a@[i as int].value@));
                    assert(members(b@)[i as int] == (b@[i as int].key@, b@[i as int].value@));
                    if !same(a[i].key.as_str(), b[i].key.as_str()) {
                        return false;
                    }
                    if !a[i].value.equals(&b[i].value) {
                        return false;
                    }
                    i += 1;
                }
                assert(members(a@) =~= members(b@));
                true
            },
            _ => false,
        }
    }
}

// ------------------------------------------------------------------------- reading

#[verifier::external_type_specification]
#[verifier::external_body]
pub struct ExValue(serde_json::Value);

/// The document that `serde_json` reads out of bytes, or nothing where they are none.
/// A number is carried as the text that `serde_json` writes for it.
pub uninterp spec fn json_read(bytes: Seq<u8>) -> Option<JsonModel>;

/// A `serde_json::Value` as this library's own type, variant by variant; its numbers
/// by `Display`. Nothing is claimed of the result here: the value is opaque, and what
/// a document holds is named in `read_json`.
#[verifier::external_body]
fn from_value(v: serde_json::Value) -> Json {
    match v {
        serde_json::Value::Null => Json::Nil,
        serde_json::Value::Bool(b) => Json::Bool(b),
        serde_json::Value::Number(n) => Json::Raw(n.to_string()),
        serde_json::Value::String(s) => Json::Text(s),
        serde_json::Value::Array(a) => Json::List(a.into_iter().map(from_value).collect()),
        serde_json::Value::Object(m) => {
            Json::Object(m.into_iter().map(|(k, v)| Member { key: k, value: from_value(v) }).collect())
        },
    }
}

/// `serde_json::from_slice` into a `serde_json::Value`, with the value moved over one
/// for one: the document depends on the bytes alone. How bytes spell a document is
/// left to the name.
#[verifier::external_body]
fn read_json(bytes: &[u8]) -> (r: Option<Json>)
    ensures
        match r {
            Some(j) => json_read(bytes@) == Some(j@),
            None => json_read(bytes@) is None,
        },
{
    serde_json::from_slice::<serde_json::Value>(bytes).ok().map(from_value)
}

impl Json {
    /// The document that bytes spell, if they spell one.
    pub fn read(bytes: &[u8]) -> (r: Option<Json>)
        ensures
            match r {
                Some(j) => json_read(bytes@) == Some(j@),
                None => json_read(bytes@) is None,
            },
    {
        read_json(bytes)
    }
}

// ------------------------------------------------------------------------- writing

/// A character inside a quoted text: the quote, the backslash and the control
/// characters are escaped, and everything else stands as it is.
pub open spec fn escaped(c: char) -> Seq<char> {
    if c == '"' || c == '\\' {
        seq!['\\', c]
    } else if c == '\u{8}' {
        seq!['\\', 'b']
    } else if c == '\t' {
        seq!['\\', 't']
    } else if c == '\n' {
        seq!['\\', 'n']
    } else if c == '\u{c}' {
        seq!['\\', 'f']
    } else if c == '\r' {
        seq!['\\', 'r']
    } else if (c as nat) < 0x20 {
        seq!['\\', 'u', '0', '0'] + hex_fixed(c as nat, 2)
    } else {
        seq![c]
    }
}

pub open spec fn escaped_text(s: Seq<char>) -> Seq<char>
    decreases s.len(),
{
    if s.len() == 0 {
        seq![]
    } else {
        escaped_text(s.drop_last()) + escaped(s.last())
    }
}

/// A text in quotes.
pub open spec fn quoted(s: Seq<char>) -> Seq<char> {
    seq!['"'] + escaped_text(s) + seq!['"']
}

/// Nothing that would end a quoted text early, or break its line, stands in it
/// unescaped: every quote in it follows a backslash, and it holds no control
/// character.
pub proof fn law_a_quoted_text_is_closed(s: Seq<char>, i: int)
    requires
        0 <= i < escaped_text(s).len(),
    ensures
        escaped_text(s)[i] as nat >= 0x20,
        escaped_text(s)[i] == '"' ==> i > 0 && escaped_text(s)[i - 1] == '\\',
    decreases s.len(),
{
    let head = escaped_text(s.drop_last());
    let c = s.last();
    if i < head.len() {
        law_a_quoted_text_is_closed(s.drop_last(), i);
    } else {
        let k = i - head.len();
        assert(escaped_text(s)[i] == escaped(c)[k]);
        if k > 0 {
            assert(escaped_text(s)[i - 1] == escaped(c)[k - 1]);
        }
        if (c as nat) < 0x20 {
            lemma_two_digits(c as nat);
        }
    }
}

proof fn lemma_two_digits(n: nat)
    requires
        n < 0x20,
    ensures
        hex_fixed(n, 2) == seq![digit_char((n / 16 % 16) as int), digit_char((n % 16) as int)],
{
    reveal_with_fuel(hex_fixed, 3);
    assert(hex_fixed(n, 2) =~= seq![digit_char((n / 16 % 16) as int), digit_char((n % 16) as int)]);
}

/// A value's compact text.
pub open spec fn written(j: JsonModel) -> Seq<char>
    decreases j,
{
    match j {
        JsonModel::Nil => "null"@,
        JsonModel::Bool(b) => if b {
            "true"@
        } else {
            "false"@
        },
        JsonModel::Number(n) => dec(n),
        JsonModel::Text(s) => quoted(s),
        JsonModel::Raw(s) => s,
        JsonModel::List(v) => "["@ + joined(written_values(v), ","@) + "]"@,
        JsonModel::Object(o) => "{"@ + joined(written_members(o), ","@) + "}"@,
    }
}

pub open spec fn written_values(v: Seq<JsonModel>) -> Seq<Seq<char>>
    decreases v,
{
    if v.len() == 0 {
        seq![]
    } else {
        written_values(v.drop_last()).push(written(v.last()))
    }
}

pub open spec fn written_members(o: Seq<(Seq<char>, JsonModel)>) -> Seq<Seq<char>>
    decreases o,
{
    if o.len() == 0 {
        seq![]
    } else {
        written_members(o.drop_last()).push(quoted(o.last().0) + ":"@ + written(o.last().1))
    }
}

/// `serde_json::ser::CompactFormatter::write_null`: the word `null`. Writing to a
/// vector does not fail.
#[verifier::external_body]
fn write_null(out: &mut Vec<u8>)
    ensures
        final(out)@ == old(out)@ + utf8("null"@),
{
    let _ = CompactFormatter.write_null(out);
}

/// `serde_json::ser::CompactFormatter::write_bool`: the word `true` or `false`.
#[verifier::external_body]
fn write_bool(out: &mut Vec<u8>, b: bool)
    ensures
        final(out)@ == old(out)@ + utf8(if b { "true"@ } else { "false"@ }),
{
    let _ = CompactFormatter.write_bool(out, b);
}

/// `serde_json::ser::CompactFormatter::write_u64`: the number in decimal.
#[verifier::external_body]
fn write_u64(out: &mut Vec<u8>, n: u64)
    ensures
        final(out)@ == old(out)@ + utf8(dec(n as nat)),
{
    let _ = CompactFormatter.write_u64(out, n);
}

/// `serde_json::to_writer` on a string: the text in quotes, with serde_json's
/// escapes.
#[verifier::external_body]
fn write_quoted(out: &mut Vec<u8>, s: &str)
    ensures
        final(out)@ == old(out)@ + utf8(quoted(s@)),
{
    let _ = serde_json::to_writer(out, s);
}

/// `serde_json::ser::CompactFormatter::write_raw_fragment`: the text as it is.
#[verifier::external_body]
fn write_raw_fragment(out: &mut Vec<u8>, s: &str)
    ensures
        final(out)@ == old(out)@ + utf8(s@),
{
    let _ = CompactFormatter.write_raw_fragment(out, s);
}

/// `serde_json::ser::CompactFormatter::begin_array`: an opening bracket.
#[verifier::external_body]
fn begin_array(out: &mut Vec<u8>)
    ensures
        final(out)@ == old(out)@ + utf8("["@),
{
    let _ = CompactFormatter.begin_array(out);
}

/// `serde_json::ser::CompactFormatter::begin_array_value`: a comma, but before the
/// first value nothing.
#[verifier::external_body]
fn begin_array_value(out: &mut Vec<u8>, first: bool)
    ensures
        final(out)@ == old(out)@ + utf8(if first { seq![] } else { ","@ }),
{
    let _ = CompactFormatter.begin_array_value(out, first);
}

/// `serde_json::ser::CompactFormatter::end_array`: a closing bracket.
#[verifier::external_body]
fn end_array(out: &mut Vec<u8>)
    ensures
        final(out)@ == old(out)@ + utf8("]"@),
{
    let _ = CompactFormatter.end_array(out);
}

/// `serde_json::ser::CompactFormatter::begin_object`: an opening brace.
#[verifier::external_body]
fn begin_object(out: &mut Vec<u8>)
    ensures
        final(out)@ == old(out)@ + utf8("{"@),
{
    let _ = CompactFormatter.begin_object(out);
}

/// `serde_json::ser::CompactFormatter::begin_object_key`: a comma, but before the
/// first key nothing.
#[verifier::external_body]
fn begin_object_key(out: &mut Vec<u8>, first: bool)
    ensures
        final(out)@ == old(out)@ + utf8(if first { seq![] } else { ","@ }),
{
    let _ = CompactFormatter.begin_object_key(out, first);
}

/// `serde_json::ser::CompactFormatter::begin_object_value`: a colon.
#[verifier::external_body]
fn begin_object_value(out: &mut Vec<u8>)
    ensures
        final(out)@ == old(out)@ + utf8(":"@),
{
    let _ = CompactFormatter.begin_object_value(out);
}

/// `serde_json::ser::CompactFormatter::end_object`: a closing brace.
#[verifier::external_body]
fn end_object(out: &mut Vec<u8>)
    ensures
        final(out)@ == old(out)@ + utf8("}"@),
{
    let _ = CompactFormatter.end_object(out);
}

/// A list of pieces written with one more piece at its end.
proof fn lemma_join_next(v: Seq<Seq<char>>, x: Seq<char>)
    ensures
        utf8(joined(v.push(x), ","@)) == utf8(joined(v, ","@)) + utf8(if v.len() == 0 { seq![] } else { ","@ })
            + utf8(x),
{
    let sep = if v.len() == 0 {
        Seq::<char>::empty()
    } else {
        ","@
    };
    assert(v.push(x).drop_last() =~= v);
    assert(joined(v.push(x), ","@) =~= joined(v, ","@) + sep + x);
    lemma_utf8_concat(joined(v, ","@) + sep, x);
    lemma_utf8_concat(joined(v, ","@), sep);
}

/// Pieces between an opening and a closing mark.
proof fn lemma_enclosed(a: Seq<char>, b: Seq<char>, c: Seq<char>)
    ensures
        utf8(a + b + c) == utf8(a) + utf8(b) + utf8(c),
{
    lemma_utf8_concat(a + b, c);
    lemma_utf8_concat(a, b);
}

impl Json {
    fn write(&self, out: &mut Vec<u8>)
        ensures
            final(out)@ == old(out)@ + utf8(written(self@)),
        decreases self,
    {
        match self {
            Json::Nil => write_null(out),
            Json::Bool(b) => write_bool(out, *b),
            Json::Number(n) => write_u64(out, *n),
            Json::Text(s) => write_quoted(out, s.as_str()),
            Json::Raw(s) => write_raw_fragment(out, s.as_str()),
            Json::List(v) => {
                let ghost start = out@;
                let ghost all = values(v@);
                begin_array(out);
                let mut i: usize = 0;
                assert(utf8(joined(written_values(all.take(0)), ","@)) =~= seq![]);
                while i < v.len()
                    invariant
                        i <= v@.len(),
                        *self == Json::List(*v),
                        all == values(v@),
                        out@ == start + utf8("["@) + utf8(joined(written_values(all.take(i as int)), ","@)),
                    decreases v@.len() - i,
                {
                    assert(*v == self->List_0);
                    assert(decreases_to!(self => v@[i as int]));
                    let ghost before = written_values(all.take(i as int));
                    proof {
                        assert(all.take(i + 1).drop_last() =~= all.take(i as int));
                        lemma_written_count(all.take(i as int));
                        lemma_join_next(before, written(v@[i as int]@));
                    }
                    begin_array_value(out, i == 0);
                    v[i].write(out);
                    assert(out@ =~= start + utf8("["@) + utf8(joined(written_values(all.take(i + 1)), ","@)));
                    i += 1;
                }
                end_array(out);
                proof {
                    assert(all.take(v@.len() as int) =~= all);
                    lemma_list(*v);
                    lemma_enclosed("["@, joined(written_values(all), ","@), "]"@);
                }
                assert(out@ =~= start + utf8(written(self@)));
            },
            Json::Object(v) => {
                let ghost start = out@;
                let ghost all = members(v@);
                begin_object(out);
                let mut i: usize = 0;
                assert(utf8(joined(written_members(all.take(0)), ","@)) =~= seq![]);
                while i < v.len()
                    invariant
                        i <= v@.len(),
                        *self == Json::Object(*v),
                        all == members(v@),
                        out@ == start + utf8("{"@) + utf8(joined(written_members(all.take(i as int)), ","@)),
                    decreases v@.len() - i,
                {
                    assert(*v == self->Object_0);
                    assert(decreases_to!(self => v@[i as int].value));
                    let ghost before = written_members(all.take(i as int));
                    let ghost key = quoted(v@[i as int].key@);
                    let ghost value = written(v@[i as int].value@);
                    proof {
                        assert(all.take(i + 1).drop_last() =~= all.take(i as int));
                        lemma_member_count(all.take(i as int));
                        lemma_join_next(before, key + ":"@ + value);
                        lemma_enclosed(key, ":"@, value);
                    }
                    begin_object_key(out, i == 0);
                    write_quoted(out, v[i].key.as_str());
                    begin_object_value(out);
                    v[i].value.write(out);
                    assert(out@ =~= start + utf8("{"@) + utf8(joined(written_members(all.take(i + 1)), ","@)));
                    i += 1;
                }
                end_object(out);
                proof {
                    assert(all.take(v@.len() as int) =~= all);
                    lemma_object(*v);
                    lemma_enclosed("{"@, joined(written_members(all), ","@), "}"@);
                }
                assert(out@ =~= start + utf8(written(self@)));
            },
        }
    }

    /// This value as compact JSON.
    pub fn to_text(&self) -> (r: String)
        ensures
            r@ == written(self@),
    {
        let mut out: Vec<u8> = Vec::new();
        self.write(&mut out);
        assert(out@ =~= utf8(written(self@)));
        proof {
            lemma_utf8_round_trip(written(self@));
        }
        lossy(out.as_slice())
    }
}

proof fn lemma_written_count(v: Seq<JsonModel>)
    ensures
        written_values(v).len() == v.len(),
    decreases v.len(),
{
    if v.len() > 0 {
        lemma_written_count(v.drop_last());
    }
}

proof fn lemma_member_count(o: Seq<(Seq<char>, JsonModel)>)
    ensures
        written_members(o).len() == o.len(),
    decreases o.len(),
{
    if o.len() > 0 {
        lemma_member_count(o.drop_last());
    }
}

// --------------------------------------------------------------------------- paths

/// The members of the object under a key; none where there is no object.
pub open spec fn branch(o: Seq<(Seq<char>, JsonModel)>, k: Seq<char>) -> Seq<(Seq<char>, JsonModel)> {
    match member(o, k) {
        Some(JsonModel::Object(m)) => m,
        _ => seq![],
    }
}

/// A value put at a path, opening the objects on the way. Something else that
/// stands in the way is replaced.
pub open spec fn with_path(
    o: Seq<(Seq<char>, JsonModel)>,
    path: Seq<Seq<char>>,
    v: JsonModel,
) -> Seq<(Seq<char>, JsonModel)>
    decreases path.len(),
{
    if path.len() == 0 {
        o
    } else if path.len() == 1 {
        with(o, path[0], v)
    } else {
        with(o, path[0], JsonModel::Object(with_path(branch(o, path[0]), path.skip(1), v)))
    }
}

/// What stands at a path.
pub open spec fn at_path(o: Seq<(Seq<char>, JsonModel)>, path: Seq<Seq<char>>) -> Option<JsonModel>
    decreases path.len(),
{
    if path.len() == 0 {
        None
    } else if path.len() == 1 {
        member(o, path[0])
    } else {
        at_path(branch(o, path[0]), path.skip(1))
    }
}

/// The value of a key after one key was given a value.
pub proof fn lemma_member(o: Seq<(Seq<char>, JsonModel)>, k: Seq<char>, v: JsonModel, q: Seq<char>)
    ensures
        member(with(o, k, v), q) == if q == k {
            Some(v)
        } else {
            member(o, q)
        },
    decreases o.len(),
{
    let w = with(o, k, v);
    if o.len() == 0 {
        assert(w.skip(1) =~= o);
    } else if o[0].0 == k {
        assert(w.skip(1) =~= o.skip(1));
    } else if text_lt(k, o[0].0) {
        assert(w.skip(1) =~= o);
        if q == k {
            assert(w[0].0 == k);
        }
    } else {
        lemma_member(o.skip(1), k, v, q);
        assert(w.skip(1) =~= with(o.skip(1), k, v));
        assert(w[0] == o[0]);
    }
}

/// The keys stand in order, so none stands twice.
pub open spec fn in_order(o: Seq<(Seq<char>, JsonModel)>) -> bool {
    forall|a: int, b: int| 0 <= a < b < o.len() ==> text_lt((#[trigger] o[a]).0, (#[trigger] o[b]).0)
}

/// Giving a key its value keeps the order.
pub proof fn lemma_in_order(o: Seq<(Seq<char>, JsonModel)>, k: Seq<char>, v: JsonModel)
    requires
        in_order(o),
    ensures
        in_order(with(o, k, v)),
        forall|i: int|
            0 <= i < with(o, k, v).len() ==> (#[trigger] with(o, k, v)[i]).0 == k || exists|j: int|
                0 <= j < o.len() && o[j].0 == with(o, k, v)[i].0,
    decreases o.len(),
{
    let w = with(o, k, v);
    if o.len() == 0 {
    } else if o[0].0 == k {
        assert(w =~= o.update(0, (k, v)));
        assert forall|i: int| 0 <= i < w.len() implies (#[trigger] w[i]).0 == k || exists|j: int|
            0 <= j < o.len() && o[j].0 == w[i].0 by {
            assert(o[i].0 == w[i].0);
        }
    } else if text_lt(k, o[0].0) {
        assert(w =~= o.insert(0, (k, v)));
        assert forall|a: int, b: int| 0 <= a < b < w.len() implies text_lt((#[trigger] w[a]).0, (#[trigger] w[b]).0) by {
            assert(w[b] == o[b - 1]);
            if a == 0 {
                if b > 1 {
                    lemma_lt_transitive(k, o[0].0, o[b - 1].0);
                }
            } else {
                assert(w[a] == o[a - 1]);
            }
        }
        assert forall|i: int| 0 <= i < w.len() implies (#[trigger] w[i]).0 == k || exists|j: int|
            0 <= j < o.len() && o[j].0 == w[i].0 by {
            if i > 0 {
                assert(o[i - 1].0 == w[i].0);
            }
        }
    } else {
        let t = o.skip(1);
        let x = with(t, k, v);
        assert forall|a: int, b: int| 0 <= a < b < t.len() implies text_lt((#[trigger] t[a]).0, (#[trigger] t[b]).0) by {
            assert(t[a] == o[a + 1] && t[b] == o[b + 1]);
        }
        lemma_in_order(t, k, v);
        lemma_lt_total(k, o[0].0);
        assert forall|a: int, b: int| 0 <= a < b < w.len() implies text_lt((#[trigger] w[a]).0, (#[trigger] w[b]).0) by {
            assert(w[b] == x[b - 1]);
            if a > 0 {
                assert(w[a] == x[a - 1]);
            } else if x[b - 1].0 != k {
                let j = choose|j: int| 0 <= j < t.len() && t[j].0 == x[b - 1].0;
                assert(t[j] == o[j + 1]);
            }
        }
        assert forall|i: int| 0 <= i < w.len() implies (#[trigger] w[i]).0 == k || exists|j: int|
            0 <= j < o.len() && o[j].0 == w[i].0 by {
            if i == 0 {
                assert(o[0].0 == w[0].0);
            } else {
                assert(w[i] == x[i - 1]);
                if x[i - 1].0 != k {
                    let j = choose|j: int| 0 <= j < t.len() && t[j].0 == x[i - 1].0;
                    assert(t[j] == o[j + 1]);
                }
            }
        }
    }
}

/// A member in order is the one its key finds.
pub proof fn lemma_held(o: Seq<(Seq<char>, JsonModel)>, i: int)
    requires
        in_order(o),
        0 <= i < o.len(),
    ensures
        member(o, o[i].0) == Some(o[i].1),
    decreases o.len(),
{
    if i > 0 {
        lemma_lt_irreflexive(o[i].0);
        let t = o.skip(1);
        assert forall|a: int, b: int| 0 <= a < b < t.len() implies text_lt((#[trigger] t[a]).0, (#[trigger] t[b]).0) by {
            assert(t[a] == o[a + 1] && t[b] == o[b + 1]);
        }
        assert(t[i - 1] == o[i]);
        lemma_held(t, i - 1);
    }
}

/// A key that has a value stands somewhere with it.
pub proof fn lemma_found(o: Seq<(Seq<char>, JsonModel)>, k: Seq<char>) -> (i: int)
    requires
        member(o, k) is Some,
    ensures
        0 <= i < o.len(),
        o[i] == (k, member(o, k)->0),
    decreases o.len(),
{
    if o[0].0 == k {
        0
    } else {
        1 + lemma_found(o.skip(1), k)
    }
}

/// What was put at a path is what stands there.
pub proof fn law_a_path_holds_what_was_put(o: Seq<(Seq<char>, JsonModel)>, path: Seq<Seq<char>>, v: JsonModel)
    requires
        path.len() > 0,
    ensures
        at_path(with_path(o, path, v), path) == Some(v),
    decreases path.len(),
{
    if path.len() == 1 {
        lemma_member(o, path[0], v, path[0]);
    } else {
        let inner = with_path(branch(o, path[0]), path.skip(1), v);
        lemma_member(o, path[0], JsonModel::Object(inner), path[0]);
        law_a_path_holds_what_was_put(branch(o, path[0]), path.skip(1), v);
        assert(branch(with_path(o, path, v), path[0]) == inner);
    }
}

/// Neither path leads into the other.
pub open spec fn apart(a: Seq<Seq<char>>, b: Seq<Seq<char>>) -> bool
    decreases a.len(),
{
    a.len() > 0 && b.len() > 0 && (a[0] != b[0] || apart(a.skip(1), b.skip(1)))
}

/// Putting a value at one path leaves what stands at the others.
pub proof fn law_other_paths_stay(
    o: Seq<(Seq<char>, JsonModel)>,
    path: Seq<Seq<char>>,
    v: JsonModel,
    other: Seq<Seq<char>>,
)
    requires
        apart(path, other),
    ensures
        at_path(with_path(o, path, v), other) == at_path(o, other),
    decreases path.len(),
{
    reveal_with_fuel(apart, 2);
    let k = path[0];
    if path.len() == 1 {
        lemma_member(o, k, v, other[0]);
    } else {
        let inner = with_path(branch(o, k), path.skip(1), v);
        lemma_member(o, k, JsonModel::Object(inner), other[0]);
        if other[0] == k {
            law_other_paths_stay(branch(o, k), path.skip(1), v, other.skip(1));
            assert(branch(with_path(o, path, v), k) == inner);
        }
    }
}

pub fn find_member(o: &Vec<Member>, k: &str) -> (r: Option<usize>)
    ensures
        match r {
            Some(i) => i < o@.len() && member(members(o@), k@) == Some(o@[i as int].value@),
            None => member(members(o@), k@) is None,
        },
{
    let ghost all = members(o@);
    let mut i: usize = 0;
    assert(all.skip(0) =~= all);
    while i < o.len()
        invariant
            i <= o@.len(),
            all == members(o@),
            member(all, k@) == member(all.skip(i as int), k@),
        decreases o@.len() - i,
    {
        assert(all.skip(i as int)[0] == (o@[i as int].key@, o@[i as int].value@));
        if same(o[i].key.as_str(), k) {
            return Some(i);
        }
        assert(all.skip(i as int).skip(1) =~= all.skip(i + 1));
        i += 1;
    }
    None
}

pub fn copy_members(o: &Vec<Member>) -> (r: Vec<Member>)
    ensures
        members(r@) == members(o@),
{
    let mut out: Vec<Member> = Vec::new();
    let mut i: usize = 0;
    while i < o.len()
        invariant
            i <= o@.len(),
            members(out@) == members(o@).take(i as int),
        decreases o@.len() - i,
    {
        let ghost was = members(out@);
        let c = Member { key: o[i].key.clone(), value: o[i].value.copy() };
        out.push(c);
        assert(members(out@) =~= was.push((c.key@, c.value@)));
        assert(members(o@).take(i + 1) =~= members(o@).take(i as int).push((o@[i as int].key@, o@[i as int].value@)));
        i += 1;
    }
    assert(members(o@).take(o@.len() as int) =~= members(o@));
    out
}

/// Put a value at a path, opening the objects on the way.
pub fn put_path(o: &mut Vec<Member>, path: &[String], v: Json)
    requires
        path@.len() > 0,
    ensures
        members(final(o)@) == with_path(members(old(o)@), strings(path@), v@),
    decreases path@.len(),
{
    let ghost p = strings(path@);
    assert(p[0] == path@[0]@);
    if path.len() == 1 {
        put(o, path[0].as_str(), v);
        return;
    }
    let mut inner: Vec<Member> = Vec::new();
    assert(members(inner@) =~= seq![]);
    match find_member(o, path[0].as_str()) {
        Some(i) => {
            if let Json::Object(m) = &o[i].value {
                inner = copy_members(m);
                proof {
                    lemma_object(*m);
                }
            }
        },
        None => {},
    }
    assert(members(inner@) == branch(members(o@), p[0]));
    let rest = slice_subrange(path, 1, path.len());
    assert(strings(rest@) =~= p.skip(1));
    put_path(&mut inner, rest, v);
    put(o, path[0].as_str(), object(inner));
}

/// The leaves of an object by their paths, depth first.
pub open spec fn leaves(prefix: Seq<char>, j: JsonModel) -> Seq<(Seq<char>, JsonModel)>
    decreases j, 0nat,
{
    match j {
        JsonModel::Object(o) => leaves_of(prefix, o),
        _ => seq![(prefix, j)],
    }
}

pub open spec fn leaves_of(prefix: Seq<char>, o: Seq<(Seq<char>, JsonModel)>) -> Seq<(Seq<char>, JsonModel)>
    decreases o, 1nat,
{
    if o.len() == 0 {
        seq![]
    } else {
        leaves_of(prefix, o.drop_last()) + leaves(under(prefix, o.last().0), o.last().1)
    }
}

pub open spec fn under(prefix: Seq<char>, k: Seq<char>) -> Seq<char> {
    if prefix.len() == 0 {
        k
    } else {
        prefix + "/"@ + k
    }
}

/// The models of leaves with their paths.
pub open spec fn pairs(v: Seq<(String, Json)>) -> Seq<(Seq<char>, JsonModel)> {
    v.map_values(|p: (String, Json)| (p.0@, p.1@))
}

fn walk(prefix: &str, j: &Json, out: &mut Vec<(String, Json)>)
    ensures
        pairs(final(out)@) == pairs(old(out)@) + leaves(prefix@, j@),
    decreases j,
{
    match j {
        Json::Object(v) => {
            let ghost start = pairs(out@);
            let mut i: usize = 0;
            assert(start + leaves_of(prefix@, members(v@).take(0)) =~= start);
            while i < v.len()
                invariant
                    i <= v@.len(),
                    *j == Json::Object(*v),
                    pairs(out@) == start + leaves_of(prefix@, members(v@).take(i as int)),
                decreases v@.len() - i,
            {
                assert(*v == j->Object_0);
                assert(decreases_to!(j => v@[i as int].value));
                let ghost was = leaves_of(prefix@, members(v@).take(i as int));
                let m = &v[i];
                let p = if to_chars(prefix).len() == 0 {
                    m.key.clone()
                } else {
                    cat3(prefix, "/", m.key.as_str())
                };
                walk(p.as_str(), &m.value, out);
                assert(members(v@).take(i + 1).drop_last() =~= members(v@).take(i as int));
                assert(start + was + leaves(p@, m.value@) =~= start + (was + leaves(p@, m.value@)));
                i += 1;
            }
            assert(members(v@).take(v@.len() as int) =~= members(v@));
            proof {
                lemma_object(*v);
            }
        },
        _ => {
            let ghost was = pairs(out@);
            let c = j.copy();
            out.push((String::from_str(prefix), c));
            assert(pairs(out@) =~= was + seq![(prefix@, c@)]);
        },
    }
}

/// Flatten a nested document back to `a/b/c` leaf paths.
pub fn flatten(j: &Json) -> (r: Vec<(String, Json)>)
    ensures
        pairs(r@) == leaves(seq![], j@),
{
    let mut out: Vec<(String, Json)> = Vec::new();
    proof {
        reveal_strlit("");
        assert(""@ =~= seq![]);
    }
    walk("", j, &mut out);
    assert(pairs(out@) =~= leaves(seq![], j@));
    out
}

/// The path of a leaf below a prefix.
pub open spec fn path_under(prefix: Seq<char>, path: Seq<Seq<char>>) -> Seq<char>
    decreases path.len(),
{
    if path.len() == 0 {
        prefix
    } else {
        path_under(under(prefix, path[0]), path.skip(1))
    }
}

proof fn lemma_leaves_within(prefix: Seq<char>, o: Seq<(Seq<char>, JsonModel)>, i: int, leaf: (Seq<char>, JsonModel))
    requires
        0 <= i < o.len(),
        leaves(under(prefix, o[i].0), o[i].1).contains(leaf),
    ensures
        leaves_of(prefix, o).contains(leaf),
    decreases o.len(),
{
    let before = leaves_of(prefix, o.drop_last());
    let last = leaves(under(prefix, o.last().0), o.last().1);
    if i == o.len() - 1 {
        let k = choose|k: int| 0 <= k < last.len() && last[k] == leaf;
        assert((before + last)[before.len() + k] == leaf);
    } else {
        assert(o.drop_last()[i] == o[i]);
        lemma_leaves_within(prefix, o.drop_last(), i, leaf);
        let k = choose|k: int| 0 <= k < before.len() && before[k] == leaf;
        assert((before + last)[k] == leaf);
    }
}

/// What stands at a path, if it is no object, is among the leaves.
pub proof fn lemma_leaf(prefix: Seq<char>, o: Seq<(Seq<char>, JsonModel)>, path: Seq<Seq<char>>, v: JsonModel)
    requires
        at_path(o, path) == Some(v),
        !(v is Object),
    ensures
        leaves_of(prefix, o).contains((path_under(prefix, path), v)),
    decreases path.len(),
{
    reveal_with_fuel(path_under, 2);
    let i = lemma_found_at(o, path);
    let key = under(prefix, path[0]);
    let leaf = (path_under(prefix, path), v);
    if path.len() == 1 {
        assert(path.skip(1) =~= seq![]);
        assert(leaves(key, v) =~= seq![(key, v)]);
        assert(leaves(key, v)[0] == leaf);
    } else {
        lemma_leaf(key, branch(o, path[0]), path.skip(1), v);
    }
    lemma_leaves_within(prefix, o, i, leaf);
}

proof fn lemma_nothing(path: Seq<Seq<char>>)
    ensures
        at_path(seq![], path) is None,
    decreases path.len(),
{
    if path.len() > 1 {
        assert(branch(seq![], path[0]) =~= seq![]);
        lemma_nothing(path.skip(1));
    }
}

/// Something stands at a path only behind its first level.
proof fn lemma_found_at(o: Seq<(Seq<char>, JsonModel)>, path: Seq<Seq<char>>) -> (i: int)
    requires
        at_path(o, path) is Some,
    ensures
        0 <= i < o.len(),
        o[i].0 == path[0],
        path.len() == 1 ==> o[i].1 == at_path(o, path)->0,
        path.len() > 1 ==> o[i].1 == JsonModel::Object(branch(o, path[0])),
{
    if path.len() > 1 && !(member(o, path[0]) matches Some(JsonModel::Object(_))) {
        lemma_nothing(path.skip(1));
    }
    lemma_found(o, path[0])
}

} // verus!
