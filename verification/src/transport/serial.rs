//! The CEFDK console: lines out of bytes, and commands into them.
use crate::text::{
    bytes_of, cat2, cat5, from_chars, lossy, lossy_text, opt, strings, to_chars, trim, trim_both, trim_of, trimmed,
    utf8, Class,
};
use vstd::prelude::*;
use vstd::slice::{slice_subrange, slice_to_vec};
use vstd::string::*;

verus! {

/// What the boot ROM and CEFDK print at, and the only rate the manufacturing
/// shell listens on.
pub const CEFDK_BAUD: u32 = 115_200;

/// Errors of opening the port or talking to it.
#[derive(Debug)]
pub enum SerialError {
    Open { dev: String, msg: String },
    Io(String),
}

impl SerialError {
    pub open spec fn text_spec(self) -> Seq<char> {
        match self {
            SerialError::Open { dev, msg } => "cannot open serial port "@ + dev@ + ": "@ + msg@
                + " (is the adapter plugged in, and is this the right /dev node?)"@,
            SerialError::Io(m) => "serial I/O error: "@ + m@,
        }
    }

    pub fn text(&self) -> (r: String)
        ensures
            r@ == self.text_spec(),
    {
        match self {
            SerialError::Open { dev, msg } => cat5(
                "cannot open serial port ",
                dev.as_str(),
                ": ",
                msg.as_str(),
                " (is the adapter plugged in, and is this the right /dev node?)",
            ),
            SerialError::Io(m) => cat2("serial I/O error: ", m.as_str()),
        }
    }
}

/// The position after the first newline at or after `i`; zero when there is
/// none.
pub open spec fn line_end(b: Seq<u8>, i: int) -> int
    decreases b.len() - i,
{
    if i < 0 || i >= b.len() {
        0
    } else if b[i] == 10 {
        i + 1
    } else {
        line_end(b, i + 1)
    }
}

/// One raw line as text, without the terminators around it.
pub open spec fn bare_line(raw: Seq<u8>) -> Seq<char> {
    trim_both(lossy_text(raw), Class::Two('\r', '\n'))
}

/// The complete lines of a buffer, empty ones dropped, and the tail that is not
/// terminated yet.
pub open spec fn taken(b: Seq<u8>) -> (Seq<Seq<char>>, Seq<u8>)
    decreases b.len(),
{
    let e = line_end(b, 0);
    if e <= 0 || e > b.len() {
        (seq![], b)
    } else {
        let (rest, tail) = taken(b.skip(e));
        let line = bare_line(b.take(e));
        (
            if line.len() == 0 {
                rest
            } else {
                seq![line] + rest
            },
            tail,
        )
    }
}

fn find_line_end(b: &[u8], from: usize) -> (r: usize)
    requires
        from <= b@.len(),
    ensures
        r == line_end(b@, from as int),
        r == 0 || from < r <= b@.len(),
{
    let mut i: usize = from;
    while i < b.len()
        invariant
            from <= i <= b@.len(),
            line_end(b@, from as int) == line_end(b@, i as int),
        decreases b@.len() - i,
    {
        if b[i] == 10 {
            return i + 1;
        }
        i += 1;
    }
    0
}

proof fn lemma_line_end_skip(b: Seq<u8>, s: int, i: int)
    requires
        0 <= s <= i,
        s <= b.len(),
    ensures
        line_end(b, i) == 0 ==> line_end(b.skip(s), i - s) == 0,
        line_end(b, i) != 0 ==> line_end(b, i) == line_end(b.skip(s), i - s) + s && line_end(
            b.skip(s),
            i - s,
        ) > 0,
    decreases b.len() - i,
{
    if i < b.len() {
        assert(b.skip(s)[i - s] == b[i]);
        if b[i] != 10 {
            lemma_line_end_skip(b, s, i + 1);
        }
    }
}

/// Drain a buffer of every complete line, leaving the unterminated tail.
/// Terminators are stripped and empty lines dropped.
pub fn split_complete_lines(buf: &mut Vec<u8>) -> (r: Vec<String>)
    ensures
        strings(r@) == taken(old(buf)@).0,
        final(buf)@ == taken(old(buf)@).1,
{
    let all: Vec<u8> = slice_to_vec(buf.as_slice());
    let ghost whole = all@;
    let mut out: Vec<String> = Vec::new();
    let mut from: usize = 0;
    assert(whole.skip(0) =~= whole);
    assert(strings(out@) + taken(whole).0 =~= taken(whole).0);
    loop
        invariant
            all@ == whole,
            from <= whole.len(),
            strings(out@) + taken(whole.skip(from as int)).0 == taken(whole).0,
            taken(whole.skip(from as int)).1 == taken(whole).1,
        ensures
            strings(out@) == taken(whole).0,
            from <= whole.len(),
            whole.skip(from as int) == taken(whole).1,
        decreases whole.len() - from,
    {
        let e: usize = find_line_end(all.as_slice(), from);
        proof {
            lemma_line_end_skip(whole, from as int, from as int);
        }
        let ghost rest = whole.skip(from as int);
        if e == 0 {
            assert(taken(rest) == (Seq::<Seq<char>>::empty(), rest));
            assert(strings(out@) + Seq::<Seq<char>>::empty() =~= strings(out@));
            break;
        }
        let raw: &[u8] = slice_subrange(all.as_slice(), from, e);
        assert(raw@ =~= rest.take(e - from));
        assert(rest.skip(e - from) =~= whole.skip(e as int));
        let text = lossy(raw);
        let chars = to_chars(text.as_str());
        let line: &[char] = trim_of(chars.as_slice(), &Class::Two('\r', '\n'));
        if line.len() > 0 {
            let ghost was = strings(out@);
            let s = from_chars(line);
            out.push(s);
            assert(strings(out@) =~= was.push(s@));
            assert(was + (seq![s@] + taken(whole.skip(e as int)).0) =~= strings(out@) + taken(
                whole.skip(e as int),
            ).0);
        }
        from = e;
    }
    let tail: &[u8] = slice_subrange(all.as_slice(), from, all.len());
    assert(tail@ =~= whole.skip(from as int));
    *buf = slice_to_vec(tail);
    out
}

/// The text of the unterminated tail, if it says anything.
pub open spec fn pending_text(b: Seq<u8>) -> Option<Seq<char>> {
    let t = trim(lossy_text(b));
    if b.len() == 0 || t.len() == 0 {
        None
    } else {
        Some(t)
    }
}

/// Take the buffered but unterminated text, clearing it. The shell's prompt is
/// printed without a newline, so this is how it gets seen.
pub fn take_pending(buf: &mut Vec<u8>) -> (r: Option<String>)
    ensures
        opt(r) == pending_text(old(buf)@),
        final(buf)@ == Seq::<u8>::empty(),
{
    if buf.len() == 0 {
        assert(buf@ =~= Seq::<u8>::empty());
        return None;
    }
    let text = lossy(buf.as_slice());
    buf.clear();
    let chars = to_chars(text.as_str());
    let t: &[char] = trimmed(chars.as_slice());
    if t.len() == 0 {
        None
    } else {
        Some(from_chars(t))
    }
}

/// A command as it goes on the wire: CEFDK's line editor submits on a carriage
/// return.
pub fn command_bytes(cmd: &str) -> (r: Vec<u8>)
    ensures
        r@ == utf8(cmd@).push(13),
{
    let mut b = bytes_of(cmd);
    b.push(13);
    b
}

proof fn lemma_line_end_prefix(a: Seq<u8>, b: Seq<u8>, i: int)
    requires
        0 <= i <= a.len(),
        line_end(a, i) != 0,
    ensures
        line_end(a + b, i) == line_end(a, i),
    decreases a.len() - i,
{
    if i < a.len() {
        assert((a + b)[i] == a[i]);
        if a[i] != 10 {
            lemma_line_end_prefix(a, b, i + 1);
        }
    }
}

proof fn lemma_line_end_bounds(a: Seq<u8>, i: int)
    requires
        0 <= i <= a.len(),
    ensures
        line_end(a, i) == 0 || i < line_end(a, i) <= a.len(),
    decreases a.len() - i,
{
    if i < a.len() && a[i] != 10 {
        lemma_line_end_bounds(a, i + 1);
    }
}

/// It does not matter how the bytes of the console are cut into reads: taking
/// the lines of a first part and then those of its tail with a second part
/// gives the lines, and the tail, of both parts at once. No line is split or
/// lost.
pub proof fn law_reads_do_not_split_lines(a: Seq<u8>, b: Seq<u8>)
    ensures
        taken(a + b).0 == taken(a).0 + taken(taken(a).1 + b).0,
        taken(a + b).1 == taken(taken(a).1 + b).1,
    decreases a.len(),
{
    lemma_line_end_bounds(a, 0);
    let e = line_end(a, 0);
    if e == 0 {
        assert(taken(a) == (Seq::<Seq<char>>::empty(), a));
        assert(taken(a).0 + taken(a + b).0 =~= taken(a + b).0);
    } else {
        lemma_line_end_prefix(a, b, 0);
        assert((a + b).take(e) =~= a.take(e));
        assert((a + b).skip(e) =~= a.skip(e) + b);
        law_reads_do_not_split_lines(a.skip(e), b);
        let line = bare_line(a.take(e));
        let (rest, tail) = taken(a.skip(e));
        let more = taken(tail + b).0;
        assert(taken(a).1 == tail);
        if line.len() == 0 {
            assert(taken(a).0 == rest);
        } else {
            assert(taken(a).0 == seq![line] + rest);
            assert(seq![line] + (rest + more) =~= (seq![line] + rest) + more);
        }
    }
}

} // verus!
