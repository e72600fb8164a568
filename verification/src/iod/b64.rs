//! Base64.
//!
//! Serial traffic is bytes, not text: a projector answering with 0x8F is not
//! valid UTF-8 and a JSON string cannot carry it. Base64 is the standard way
//! through.
use crate::text::to_chars;
use vstd::prelude::*;

verus! {

/// The character for one 6-bit value.
pub open spec fn sextet_char(v: int) -> char {
    if v < 26 {
        (65 + v) as char
    } else if v < 52 {
        (71 + v) as char
    } else if v < 62 {
        (v - 4) as char
    } else if v == 62 {
        '+'
    } else {
        '/'
    }
}

/// The four characters for one to three bytes; a missing byte is padding.
pub open spec fn quad(d: Seq<u8>) -> Seq<char> {
    let a = d[0] as int;
    let b = if d.len() > 1 { d[1] as int } else { 0 };
    let c = if d.len() > 2 { d[2] as int } else { 0 };
    seq![
        sextet_char(a / 4),
        sextet_char((a % 4) * 16 + b / 16),
        if d.len() > 1 { sextet_char((b % 16) * 4 + c / 64) } else { '=' },
        if d.len() > 2 { sextet_char(c % 64) } else { '=' },
    ]
}

/// The text of a byte string, three bytes to four characters.
pub open spec fn encoded(d: Seq<u8>) -> Seq<char>
    decreases d.len(),
{
    if d.len() == 0 {
        seq![]
    } else if d.len() <= 3 {
        quad(d)
    } else {
        quad(d.take(3)) + encoded(d.skip(3))
    }
}

fn sextet(v: u8) -> (r: char)
    requires
        v < 64,
    ensures
        r == sextet_char(v as int),
{
    if v < 26 {
        (65u8 + v) as char
    } else if v < 52 {
        (71u8 + v) as char
    } else if v < 62 {
        (v - 4u8) as char
    } else if v == 62 {
        '+'
    } else {
        '/'
    }
}

pub fn encode(data: &[u8]) -> (r: String)
    ensures
        r@ == encoded(data@),
{
    let mut out = String::new();
    let mut i: usize = 0;
    assert(data@.skip(0) =~= data@);
    assert(out@ + encoded(data@) =~= encoded(data@));
    while i < data.len()
        invariant
            i <= data@.len(),
            out@ + encoded(data@.skip(i as int)) == encoded(data@),
        decreases data@.len() - i,
    {
        let ghost rest = data@.skip(i as int);
        let ghost start = out@;
        let left: usize = data.len() - i;
        let a: u8 = data[i];
        let b: u8 = if left > 1 { data[i + 1] } else { 0 };
        let c: u8 = if left > 2 { data[i + 2] } else { 0 };
        out.push(sextet(a / 4));
        out.push(sextet((a % 4) * 16 + b / 16));
        out.push(if left > 1 { sextet((b % 16) * 4 + c / 64) } else { '=' });
        out.push(if left > 2 { sextet(c % 64) } else { '=' });
        let ghost four = if left <= 3 { quad(rest) } else { quad(rest.take(3)) };
        assert(out@ =~= start + four);
        if left <= 3 {
            return out;
        }
        assert(rest.skip(3) =~= data@.skip(i + 3));
        assert(start + (four + encoded(rest.skip(3))) =~= out@ + encoded(rest.skip(3)));
        i += 3;
    }
    assert(out@ + Seq::<char>::empty() =~= out@);
    out
}

// --------------------------------------------------------------------- decoding

/// The 6-bit value of one character of the alphabet.
pub open spec fn sextet_val(c: char) -> Option<int> {
    if 'A' <= c <= 'Z' {
        Some(c as int - 65)
    } else if 'a' <= c <= 'z' {
        Some(c as int - 71)
    } else if '0' <= c <= '9' {
        Some(c as int + 4)
    } else if c == '+' {
        Some(62)
    } else if c == '/' {
        Some(63)
    } else {
        None
    }
}

/// Padding and ASCII white space carry nothing.
pub open spec fn skipped(c: char) -> bool {
    c == '=' || c == ' ' || c == '\t' || c == '\n' || c == '\u{c}' || c == '\r'
}

/// The 6-bit values of a text; `None` when some character is not base64.
pub open spec fn sextets(s: Seq<char>) -> Option<Seq<int>>
    decreases s.len(),
{
    if s.len() == 0 {
        Some(seq![])
    } else {
        match sextets(s.drop_last()) {
            None => None,
            Some(v) => if skipped(s.last()) {
                Some(v)
            } else {
                match sextet_val(s.last()) {
                    Some(x) => Some(v.push(x)),
                    None => None,
                }
            },
        }
    }
}

/// The whole bytes in a run of 6-bit values: every value but the first of each
/// four completes one.
pub open spec fn packed(v: Seq<int>) -> Seq<u8>
    decreases v.len(),
{
    if v.len() == 0 {
        seq![]
    } else {
        let i = v.len() - 1;
        let before = packed(v.drop_last());
        if i % 4 == 0 {
            before
        } else if i % 4 == 1 {
            before.push((v[i - 1] * 4 + v[i] / 16) as u8)
        } else if i % 4 == 2 {
            before.push(((v[i - 1] % 16) * 16 + v[i] / 4) as u8)
        } else {
            before.push(((v[i - 1] % 4) * 64 + v[i]) as u8)
        }
    }
}

pub open spec fn decoded(s: Seq<char>) -> Option<Seq<u8>> {
    match sextets(s) {
        Some(v) => Some(packed(v)),
        None => None,
    }
}

fn sextet_of(c: char) -> (r: Option<u8>)
    ensures
        match r {
            Some(v) => sextet_val(c) == Some(v as int) && v < 64,
            None => sextet_val(c) is None,
        },
{
    if 'A' <= c && c <= 'Z' {
        Some(c as u8 - 65u8)
    } else if 'a' <= c && c <= 'z' {
        Some(c as u8 - 71u8)
    } else if '0' <= c && c <= '9' {
        Some(c as u8 + 4u8)
    } else if c == '+' {
        Some(62)
    } else if c == '/' {
        Some(63)
    } else {
        None
    }
}

proof fn lemma_sextets_none(s: Seq<char>, i: int)
    requires
        0 <= i <= s.len(),
        sextets(s.take(i)) is None,
    ensures
        sextets(s) is None,
    decreases s.len() - i,
{
    if i == s.len() {
        assert(s.take(i) =~= s);
    } else {
        assert(s.take(i + 1).drop_last() =~= s.take(i));
        lemma_sextets_none(s, i + 1);
    }
}

pub fn decode(s: &str) -> (r: Option<Vec<u8>>)
    ensures
        match r {
            Some(v) => decoded(s@) == Some(v@),
            None => decoded(s@) is None,
        },
{
    let chars = to_chars(s);
    let mut out: Vec<u8> = Vec::new();
    let mut last: u8 = 0;
    let mut phase: u8 = 0;
    let mut i: usize = 0;
    let ghost mut vals: Seq<int> = seq![];
    assert(chars@.take(0) =~= seq![]);
    while i < chars.len()
        invariant
            i <= chars@.len(),
            chars@ == s@,
            sextets(chars@.take(i as int)) == Some(vals),
            out@ == packed(vals),
            phase == vals.len() % 4,
            last < 64,
            vals.len() > 0 ==> last == vals.last(),
        decreases chars@.len() - i,
    {
        let c: char = chars[i];
        assert(chars@.take(i + 1).drop_last() =~= chars@.take(i as int));
        if !(c == '=' || c == ' ' || c == '\t' || c == '\n' || c == '\u{c}' || c == '\r') {
            match sextet_of(c) {
                None => {
                    proof {
                        lemma_sextets_none(chars@, i + 1);
                    }
                    return None;
                },
                Some(v) => {
                    let ghost before = vals;
                    proof {
                        vals = vals.push(v as int);
                        assert(vals.drop_last() =~= before);
                    }
                    if phase == 1 {
                        out.push(last * 4 + v / 16);
                    } else if phase == 2 {
                        out.push((last % 16) * 16 + v / 4);
                    } else if phase == 3 {
                        out.push((last % 4) * 64 + v);
                    }
                    last = v;
                    phase = (phase + 1) % 4;
                },
            }
        }
        i += 1;
    }
    assert(chars@.take(chars@.len() as int) =~= chars@);
    Some(out)
}

// --------------------------------------------------------------------------- law

proof fn lemma_sextets_add(a: Seq<char>, b: Seq<char>)
    requires
        sextets(a) is Some,
        sextets(b) is Some,
    ensures
        sextets(a + b) == Some(sextets(a)->0 + sextets(b)->0),
    decreases b.len(),
{
    if b.len() == 0 {
        assert(a + b =~= a);
        assert(sextets(a)->0 + Seq::<int>::empty() =~= sextets(a)->0);
    } else {
        assert((a + b).drop_last() =~= a + b.drop_last());
        lemma_sextets_add(a, b.drop_last());
        assert(sextets(a + b)->0 =~= sextets(a)->0 + sextets(b)->0);
    }
}

proof fn lemma_packed_add(a: Seq<int>, b: Seq<int>)
    requires
        a.len() % 4 == 0,
    ensures
        packed(a + b) == packed(a) + packed(b),
    decreases b.len(),
{
    if b.len() == 0 {
        assert(a + b =~= a);
        assert(packed(a) + Seq::<u8>::empty() =~= packed(a));
    } else {
        assert((a + b).drop_last() =~= a + b.drop_last());
        lemma_packed_add(a, b.drop_last());
        let i = b.len() - 1;
        assert((a + b)[a.len() + i] == b[i]);
        if i > 0 {
            assert((a + b)[a.len() + i - 1] == b[i - 1]);
        }
        assert((a.len() + i) % 4 == i % 4);
        assert(packed(a + b) =~= packed(a) + packed(b));
    }
}

proof fn lemma_sextet_char(v: int)
    requires
        0 <= v < 64,
    ensures
        sextet_val(sextet_char(v)) == Some(v),
        !skipped(sextet_char(v)),
{
}

proof fn lemma_sextets_push(s: Seq<char>, c: char, v: Seq<int>)
    requires
        sextets(s) == Some(v),
    ensures
        skipped(c) ==> sextets(s.push(c)) == Some(v),
        !skipped(c) && sextet_val(c) is Some ==> sextets(s.push(c)) == Some(v.push(sextet_val(c)->0)),
{
    assert(s.push(c).drop_last() =~= s);
}

proof fn lemma_quad(d: Seq<u8>)
    requires
        1 <= d.len() <= 3,
    ensures
        sextets(quad(d)) is Some,
        packed(sextets(quad(d))->0) == d,
        d.len() == 3 ==> sextets(quad(d))->0.len() == 4,
{
    let a = d[0] as int;
    let b = if d.len() > 1 { d[1] as int } else { 0 };
    let c = if d.len() > 2 { d[2] as int } else { 0 };
    let v0 = a / 4;
    let v1 = (a % 4) * 16 + b / 16;
    let v2 = (b % 16) * 4 + c / 64;
    let v3 = c % 64;
    lemma_sextet_char(v0);
    lemma_sextet_char(v1);
    lemma_sextet_char(v2);
    lemma_sextet_char(v3);
    let q = quad(d);
    let e = Seq::<char>::empty();
    lemma_sextets_push(e, q[0], seq![]);
    let s1 = Seq::<int>::empty().push(v0);
    lemma_sextets_push(e.push(q[0]), q[1], s1);
    let s2 = s1.push(v1);
    lemma_sextets_push(e.push(q[0]).push(q[1]), q[2], s2);
    let s3 = if d.len() > 1 { s2.push(v2) } else { s2 };
    lemma_sextets_push(e.push(q[0]).push(q[1]).push(q[2]), q[3], s3);
    let s4 = if d.len() > 2 { s3.push(v3) } else { s3 };
    assert(e.push(q[0]).push(q[1]).push(q[2]).push(q[3]) =~= q);
    assert(sextets(q) == Some(s4));
    assert(s1.drop_last() =~= seq![]);
    assert(packed(Seq::<int>::empty()) =~= seq![]);
    assert(packed(s1) =~= seq![]);
    assert(s2.drop_last() =~= s1);
    assert(v0 * 4 + v1 / 16 == a);
    assert(packed(s2) =~= seq![d[0]]);
    if d.len() > 1 {
        assert(s3.drop_last() =~= s2);
        assert((v1 % 16) * 16 + v2 / 4 == b);
        assert(packed(s3) =~= seq![d[0], d[1]]);
    }
    if d.len() > 2 {
        assert(s4.drop_last() =~= s3);
        assert((v2 % 4) * 64 + v3 == c);
        assert(packed(s4) =~= seq![d[0], d[1], d[2]]);
    }
    assert(packed(s4) =~= d);
}

/// Every byte string survives the round trip.
pub proof fn law_round_trip(d: Seq<u8>)
    ensures
        decoded(encoded(d)) == Some(d),
    decreases d.len(),
{
    if d.len() == 0 {
    } else if d.len() <= 3 {
        lemma_quad(d);
    } else {
        lemma_quad(d.take(3));
        law_round_trip(d.skip(3));
        let a = quad(d.take(3));
        let b = encoded(d.skip(3));
        lemma_sextets_add(a, b);
        lemma_packed_add(sextets(a)->0, sextets(b)->0);
        assert(d.take(3) + d.skip(3) =~= d);
    }
}

} // verus!
