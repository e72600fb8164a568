//! `board.env`: the shell file that says what differs between boards.
//!
//! The init scripts source it; the daemons read the `KEY=value` lines out of it.
//! A value may be quoted and may carry a comment after it. A key that is
//! assigned twice has its last value, as it would in the shell.
use crate::text::{
    eq_str, from_chars, head, head_of, lines, lines_of, slices, split_once, split_once_of, strip_prefix,
    strip_prefix_str, to_chars, trim, trim_both, trim_of, trim_start, trim_start_of, trimmed, Class,
};
use vstd::prelude::*;

verus! {

/// A value as written: without its comment, the white space around it and its
/// quotes, double ones first.
pub open spec fn unquoted(v: Seq<char>) -> Seq<char> {
    trim_both(trim_both(trim(head(v, Class::One('#'))), Class::One('"')), Class::One('\''))
}

/// The assignment on one line, if it holds one.
pub open spec fn assignment(line: Seq<char>) -> Option<(Seq<char>, Seq<char>)> {
    let l = trim(line);
    if l.len() == 0 || l[0] == '#' {
        None
    } else {
        match split_once(l, Class::One('=')) {
            Some((k, v)) => Some((trim(k), unquoted(v))),
            None => None,
        }
    }
}

/// The assignments on a list of lines, in order.
pub open spec fn assignments(ls: Seq<Seq<char>>) -> Seq<(Seq<char>, Seq<char>)>
    decreases ls.len(),
{
    if ls.len() == 0 {
        seq![]
    } else {
        match assignment(ls.last()) {
            Some(a) => assignments(ls.drop_last()).push(a),
            None => assignments(ls.drop_last()),
        }
    }
}

/// The last value assigned to a key.
pub open spec fn last_value(v: Seq<(Seq<char>, Seq<char>)>, key: Seq<char>) -> Option<Seq<char>>
    decreases v.len(),
{
    if v.len() == 0 {
        None
    } else if v.last().0 == key {
        Some(v.last().1)
    } else {
        last_value(v.drop_last(), key)
    }
}

/// What a `board.env` text says of a key.
pub open spec fn env_get(text: Seq<char>, key: Seq<char>) -> Option<Seq<char>> {
    last_value(assignments(lines(text)), key)
}

/// A parsed `board.env`.
pub struct Env {
    entries: Vec<(String, String)>,
}

impl View for Env {
    type V = Seq<(Seq<char>, Seq<char>)>;

    closed spec fn view(&self) -> Seq<(Seq<char>, Seq<char>)> {
        self.entries@.map_values(|p: (String, String)| (p.0@, p.1@))
    }
}

/// A value as written, without its comment and quotes.
pub fn unquote<'a>(v: &'a [char]) -> (r: &'a [char])
    ensures
        r@ == unquoted(v@),
{
    let bare: &'a [char] = trimmed(head_of(v, &Class::One('#')));
    trim_of(trim_of(bare, &Class::One('"')), &Class::One('\''))
}

impl Env {
    /// The assignments in a `board.env` text.
    pub fn parse(text: &str) -> (r: Env)
        ensures
            r@ == assignments(lines(text@)),
    {
        let chars = to_chars(text);
        let ls = lines_of(chars.as_slice());
        let mut out = Env { entries: Vec::new() };
        let mut i: usize = 0;
        let ghost all = slices(ls@);
        assert(out@ =~= assignments(all.take(0)));
        while i < ls.len()
            invariant
                i <= ls@.len(),
                all == slices(ls@),
                out@ == assignments(all.take(i as int)),
            decreases ls@.len() - i,
        {
            assert(all.take(i + 1).drop_last() =~= all.take(i as int));
            let ghost before = out@;
            let line: &[char] = trimmed(ls[i]);
            if line.len() > 0 && line[0] != '#' {
                if let Some((k, v)) = split_once_of(line, &Class::One('=')) {
                    let key = from_chars(trimmed(k));
                    let value = from_chars(unquote(v));
                    out.entries.push((key, value));
                    assert(out@ =~= before.push(assignment(all[i as int])->0));
                }
            }
            i += 1;
        }
        assert(all.take(all.len() as int) =~= all);
        out
    }

    /// The value of a key; the last assignment wins.
    pub fn get(&self, key: &str) -> (r: Option<String>)
        ensures
            crate::text::opt(r) == last_value(self@, key@),
    {
        let mut i: usize = self.entries.len();
        let k = to_chars(key);
        assert(self@.take(self@.len() as int) =~= self@);
        while i > 0
            invariant
                i <= self.entries@.len(),
                self.entries@.len() == self@.len(),
                k@ == key@,
                last_value(self@, key@) == last_value(self@.take(i as int), key@),
            decreases i,
        {
            assert(self@.take(i as int).drop_last() =~= self@.take(i - 1));
            assert(self@[i - 1] == (self.entries@[i - 1].0@, self.entries@[i - 1].1@));
            if eq_str(k.as_slice(), self.entries[i - 1].0.as_str()) {
                return Some(self.entries[i - 1].1.clone());
            }
            i -= 1;
        }
        None
    }

    /// The value of a key, or a default when it has none.
    pub fn get_or(&self, key: &str, default: &str) -> (r: String)
        ensures
            r@ == or_text(last_value(self@, key@), default@),
    {
        match self.get(key) {
            Some(v) => v,
            None => crate::text::from_chars(to_chars(default).as_slice()),
        }
    }
}

/// A text, or another when there is none.
pub open spec fn or_text(o: Option<Seq<char>>, default: Seq<char>) -> Seq<char> {
    match o {
        Some(s) => s,
        None => default,
    }
}

/// A host's name out of `/proc/sys/kernel/hostname`, or `openhc` when it could
/// not be read.
pub open spec fn hostname_of(raw: Option<Seq<char>>) -> Seq<char> {
    match raw {
        Some(s) => trim(s),
        None => "openhc"@,
    }
}

pub fn hostname(raw: Option<&str>) -> (r: String)
    ensures
        r@ == hostname_of(crate::flasher::board::opt_str(raw)),
{
    match raw {
        Some(s) => crate::text::trim_str(s),
        None => crate::text::from_chars(to_chars("openhc").as_slice()),
    }
}

// ---------------------------------------------------- the flasher's own reading

/// The value on one line for a key that stands at its start: the comment behind
/// it comes off, then the quotes, and an empty value is no value.
pub open spec fn keyed_value(line: Seq<char>, key: Seq<char>) -> Option<Seq<char>> {
    match strip_prefix(trim(line), key) {
        None => None,
        Some(rest) => match strip_prefix(trim_start(rest, Class::White), "="@) {
            None => None,
            Some(v) => {
                let bare = trim(trim_both(trim(head(v, Class::One('#'))), Class::One('"')));
                if bare.len() == 0 {
                    None
                } else {
                    Some(bare)
                }
            },
        },
    }
}

/// The first line that gives a key a value.
pub open spec fn first_keyed(ls: Seq<Seq<char>>, key: Seq<char>) -> Option<Seq<char>>
    decreases ls.len(),
{
    if ls.len() == 0 {
        None
    } else {
        match keyed_value(ls[0], key) {
            Some(v) => Some(v),
            None => first_keyed(ls.skip(1), key),
        }
    }
}

/// Pull `KEY="value"` or `KEY=value` out of a `board.env` blob.
pub fn env_value(env: &str, key: &str) -> (r: Option<String>)
    ensures
        crate::text::opt(r) == first_keyed(lines(env@), key@),
{
    let chars = to_chars(env);
    let ls = lines_of(chars.as_slice());
    let mut i: usize = 0;
    let ghost all = slices(ls@);
    assert(all.skip(0) =~= all);
    while i < ls.len()
        invariant
            i <= ls@.len(),
            all == slices(ls@),
            first_keyed(lines(env@), key@) == first_keyed(all.skip(i as int), key@),
        decreases ls@.len() - i,
    {
        assert(all.skip(i as int).skip(1) =~= all.skip(i + 1));
        assert(all.skip(i as int)[0] == ls@[i as int]@);
        if let Some(rest) = strip_prefix_str(trimmed(ls[i]), key) {
            if let Some(v) = strip_prefix_str(trim_start_of(rest, &Class::White), "=") {
                let bare: &[char] = trimmed(
                    trim_of(trimmed(head_of(v, &Class::One('#'))), &Class::One('"')),
                );
                if bare.len() > 0 {
                    return Some(from_chars(bare));
                }
            }
        }
        i += 1;
    }
    None
}

} // verus!
