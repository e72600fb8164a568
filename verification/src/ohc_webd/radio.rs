//! The radios' raw bytes: hexadecimal in and out, and what a request is answered.
use crate::flasher::board::opt_str;
use crate::json::{members, object, put, text, with, Json, JsonModel, Member};
use crate::num::{digit_char, digit_val, digits_value, hex2_string, hex_fixed, parse_number, parse_unsigned};
use crate::ohc_webd::board::{device_of, Board};
use crate::text::{bytes_of, cat3, filtered, lossy, lossy_text, to_chars, utf8, white, without, Class};
use vstd::prelude::*;
use vstd::slice::slice_subrange;
use vstd::string::*;

verus! {

/// Two hexadecimal digits for each byte.
pub open spec fn hex_of(b: Seq<u8>) -> Seq<char>
    decreases b.len(),
{
    if b.len() == 0 {
        seq![]
    } else {
        hex_of(b.drop_last()) + hex_fixed(b.last() as nat, 2)
    }
}

/// The bytes that pairs of characters name; `None` when a character is left over
/// or a pair names none.
pub open spec fn pairs_value(s: Seq<char>) -> Option<Seq<u8>>
    decreases s.len(),
{
    if s.len() == 0 {
        Some(seq![])
    } else if s.len() == 1 {
        None
    } else {
        match (pairs_value(s.take(s.len() - 2)), parse_unsigned(s.skip(s.len() - 2), 16, 255)) {
            (Some(b), Some(n)) => Some(b.push(n as u8)),
            _ => None,
        }
    }
}

/// The bytes a hexadecimal text names; white space in it does not count.
pub open spec fn bytes_named(s: Seq<char>) -> Option<Seq<u8>> {
    pairs_value(without(s, Class::White))
}

pub fn hex_encode(b: &[u8]) -> (r: String)
    ensures
        r@ == hex_of(b@),
{
    let mut out = String::new();
    let mut i: usize = 0;
    assert(out@ =~= hex_of(b@.take(0)));
    while i < b.len()
        invariant
            i <= b@.len(),
            out@ == hex_of(b@.take(i as int)),
        decreases b@.len() - i,
    {
        assert(b@.take(i + 1).drop_last() =~= b@.take(i as int));
        let h = hex2_string(b[i]);
        out.append(h.as_str());
        i += 1;
    }
    assert(b@.take(i as int) =~= b@);
    out
}

proof fn lemma_pairs_from(s: Seq<char>, i: int)
    requires
        0 <= i <= s.len(),
        i % 2 == 0,
        pairs_value(s.take(i)) is None,
    ensures
        pairs_value(s) is None,
    decreases s.len() - i,
{
    if s.len() == i {
        assert(s.take(i) =~= s);
    } else if s.len() == i + 1 {
        if i == 0 {
        } else {
            lemma_odd(s);
        }
    } else {
        let t = s.take(i + 2);
        assert(t.take(t.len() - 2) =~= s.take(i));
        lemma_pairs_from(s, i + 2);
    }
}

proof fn lemma_odd(s: Seq<char>)
    requires
        s.len() % 2 == 1,
    ensures
        pairs_value(s) is None,
    decreases s.len(),
{
    if s.len() > 1 {
        lemma_odd(s.take(s.len() - 2));
    }
}

pub fn hex_decode(s: &str) -> (r: Result<Vec<u8>, ()>)
    ensures
        match r {
            Ok(v) => bytes_named(s@) == Some(v@),
            Err(_) => bytes_named(s@) is None,
        },
{
    let chars = to_chars(s);
    let t = filtered(chars.as_slice(), &Class::White);
    let mut out: Vec<u8> = Vec::new();
    if t.len() % 2 != 0 {
        proof {
            lemma_odd(t@);
        }
        return Err(());
    }
    let mut i: usize = 0;
    assert(pairs_value(t@.take(0)) == Some(out@)) by {
        assert(t@.take(0) =~= seq![]);
        assert(out@ =~= seq![]);
    }
    while i < t.len()
        invariant
            i <= t@.len(),
            i % 2 == 0,
            t@.len() % 2 == 0,
            t@ == without(s@, Class::White),
            pairs_value(t@.take(i as int)) == Some(out@),
        decreases t@.len() - i,
    {
        let pair = slice_subrange(t.as_slice(), i, i + 2);
        let ghost next = t@.take(i + 2);
        assert(next.take(next.len() - 2) =~= t@.take(i as int));
        assert(next.skip(next.len() - 2) =~= pair@);
        match parse_number(pair, 16, 255) {
            Some(n) => {
                out.push(n as u8);
            },
            None => {
                proof {
                    lemma_pairs_from(t@, i + 2);
                }
                return Err(());
            },
        }
        i += 2;
    }
    assert(t@.take(i as int) =~= t@);
    Ok(out)
}

proof fn lemma_pair(b: u8)
    ensures
        hex_fixed(b as nat, 2).len() == 2,
        parse_unsigned(hex_fixed(b as nat, 2), 16, 255) == Some(b as nat),
        forall|i: int| 0 <= i < 2 ==> !white(#[trigger] hex_fixed(b as nat, 2)[i]),
{
    reveal_with_fuel(hex_fixed, 3);
    reveal_with_fuel(digits_value, 3);
    let h = hex_fixed(b as nat, 2);
    let hi = (b as nat / 16) % 16;
    let lo = b as nat % 16;
    assert(h =~= seq![digit_char(hi as int), digit_char(lo as int)]);
    assert(h.drop_last() =~= seq![digit_char(hi as int)]);
    assert(h.drop_last().drop_last() =~= seq![]);
    assert(digit_val(digit_char(hi as int)) == hi);
    assert(digit_val(digit_char(lo as int)) == lo);
}

proof fn lemma_without_splits(a: Seq<char>, b: Seq<char>, cl: Class)
    requires
        forall|i: int| 0 <= i < b.len() ==> !cl.holds(#[trigger] b[i]),
    ensures
        without(a + b, cl) == without(a, cl) + b,
    decreases b.len(),
{
    if b.len() == 0 {
        assert(a + b =~= a);
        assert(without(a, cl) + b =~= without(a, cl));
    } else {
        let c = b.drop_last();
        assert forall|i: int| 0 <= i < c.len() implies !cl.holds(#[trigger] c[i]) by {
            assert(c[i] == b[i]);
        }
        lemma_without_splits(a, c, cl);
        assert((a + b).drop_last() =~= a + c);
        assert((a + b).last() == b[b.len() - 1]);
        assert(without(a, cl) + b =~= (without(a, cl) + c).push(b.last()));
    }
}

/// What was written in hexadecimal reads back as it was.
pub proof fn law_hex_reads_back(b: Seq<u8>)
    ensures
        bytes_named(hex_of(b)) == Some(b),
        without(hex_of(b), Class::White) == hex_of(b),
    decreases b.len(),
{
    if b.len() == 0 {
        assert(without(hex_of(b), Class::White) =~= seq![]);
        assert(b =~= seq![]);
    } else {
        let p = b.drop_last();
        law_hex_reads_back(p);
        lemma_pair(b.last());
        let h = hex_fixed(b.last() as nat, 2);
        lemma_without_splits(hex_of(p), h, Class::White);
        let t = hex_of(b);
        assert(t.take(t.len() - 2) =~= hex_of(p));
        assert(t.skip(t.len() - 2) =~= h);
        assert(p.push(b.last()) =~= b);
    }
}

/// What keeps a radio request from being carried out.
#[derive(Debug, Clone, Copy, PartialEq, Eq, Structural)]
pub enum Refusal {
    NoSuchRadio,
    BadHex,
}

impl Refusal {
    pub fn status(&self) -> (r: u16)
        ensures
            r == match *self {
                Refusal::NoSuchRadio => 404u16,
                Refusal::BadHex => 400u16,
            },
    {
        match self {
            Refusal::NoSuchRadio => 404,
            Refusal::BadHex => 400,
        }
    }

    pub fn message(&self) -> (r: &'static str)
        ensures
            r@ == match *self {
                Refusal::NoSuchRadio => "no such radio"@,
                Refusal::BadHex => "bad hex"@,
            },
    {
        match self {
            Refusal::NoSuchRadio => "no such radio",
            Refusal::BadHex => "bad hex",
        }
    }
}

/// The bytes a request asks to send: its hexadecimal text if it has one, else
/// the bytes of its plain text.
pub open spec fn payload_of(hex: Option<Seq<char>>, plain: Option<Seq<char>>) -> Option<Seq<u8>> {
    match hex {
        Some(h) => bytes_named(h),
        None => Some(
            match plain {
                Some(t) => utf8(t),
                None => utf8(""@),
            },
        ),
    }
}

/// What sending takes: the device to open and the bytes to write to it.
pub fn radio_tx(b: &Board, kind: &str, hex: Option<&str>, plain: Option<&str>) -> (r: Result<
    (String, Vec<u8>),
    Refusal,
>)
    ensures
        match r {
            Ok((d, v)) => device_of(b@.radios, kind@) == Some(d@) && payload_of(opt_str(hex), opt_str(plain)) == Some(
                v@,
            ),
            Err(Refusal::NoSuchRadio) => device_of(b@.radios, kind@) is None,
            Err(Refusal::BadHex) => device_of(b@.radios, kind@) is Some && payload_of(
                opt_str(hex),
                opt_str(plain),
            ) is None,
        },
{
    match b.radio_dev(kind) {
        None => Err(Refusal::NoSuchRadio),
        Some(d) => match hex {
            Some(h) => match hex_decode(h) {
                Ok(v) => Ok((d, v)),
                Err(_) => Err(Refusal::BadHex),
            },
            None => {
                let v: Vec<u8> = match plain {
                    Some(t) => bytes_of(t),
                    None => bytes_of(""),
                };
                Ok((d, v))
            },
        },
    }
}

/// How long a radio is listened to, in milliseconds: half a second unless the
/// request says otherwise, and never more than five.
pub fn rx_window(ms: Option<u64>) -> (r: u64)
    ensures
        r == match ms {
            Some(n) => if n < 5000 {
                n
            } else {
                5000u64
            },
            None => 500u64,
        },
{
    match ms {
        Some(n) => if n < 5000 {
            n
        } else {
            5000
        },
        None => 500,
    }
}

pub open spec fn heard_doc(b: Seq<u8>) -> JsonModel {
    JsonModel::Object(
        with(with(seq![], "hex"@, JsonModel::Text(hex_of(b))), "text"@, JsonModel::Text(lossy_text(b))),
    )
}

/// What was heard, in both writings.
pub fn heard(b: &[u8]) -> (r: Json)
    ensures
        r@ == heard_doc(b@),
{
    let mut o: Vec<Member> = Vec::new();
    assert(members(o@) =~= seq![]);
    put(&mut o, "hex", Json::Text(hex_encode(b)));
    put(&mut o, "text", Json::Text(lossy(b)));
    object(o)
}

/// How many bytes were written.
pub fn written(n: u64) -> (r: Json)
    ensures
        r@ == JsonModel::Object(with(seq![], "written"@, JsonModel::Number(n as nat))),
{
    let mut o: Vec<Member> = Vec::new();
    assert(members(o@) =~= seq![]);
    put(&mut o, "written", Json::Number(n));
    object(o)
}

/// Whether the reset line was pulsed.
pub fn reset_done(ok: bool) -> (r: Json)
    ensures
        r@ == JsonModel::Object(with(seq![], "reset"@, JsonModel::Bool(ok))),
{
    let mut o: Vec<Member> = Vec::new();
    assert(members(o@) =~= seq![]);
    put(&mut o, "reset", Json::Bool(ok));
    object(o)
}

/// What an error is answered with.
pub fn error(msg: &str) -> (r: Json)
    ensures
        r@ == JsonModel::Object(with(seq![], "error"@, JsonModel::Text(msg@))),
{
    let mut o: Vec<Member> = Vec::new();
    assert(members(o@) =~= seq![]);
    put(&mut o, "error", text(msg));
    object(o)
}

/// The command that pulses a radio's reset line, found by its name.
pub fn reset_command(kind: &str) -> (r: String)
    ensures
        r@ == "gpioset -m time -u 200000 $(gpiofind "@ + kind@ + "_reset)"@,
{
    cat3("gpioset -m time -u 200000 $(gpiofind ", kind, "_reset)")
}

/// The rate a port runs at for a rate asked for: one the line can make, else the
/// default.
pub open spec fn line_rate(baud: u32) -> u32 {
    if baud == 9600 || baud == 19200 || baud == 38400 || baud == 57600 || baud == 115200 || baud == 230400 || baud
        == 460800 || baud == 921600 {
        baud
    } else {
        115200
    }
}

pub fn nominal(baud: u32) -> (r: u32)
    ensures
        r == line_rate(baud),
{
    if baud == 9600 || baud == 19200 || baud == 38400 || baud == 57600 || baud == 230400 || baud == 460800 || baud
        == 921600 {
        baud
    } else {
        115200
    }
}

} // verus!
