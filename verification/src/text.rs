//! Text as a sequence of characters.
//!
//! Every daemon here reads little text formats: shell env files, console
//! banners, header lines, topic names. The operations they share are specified
//! once on `Seq<char>`, and the executable versions work on borrowed slices of
//! characters so that taking a line apart copies nothing.
use vstd::prelude::*;
use vstd::slice::slice_subrange;

verus! {

/// `String::push` appends one character.
pub assume_specification[ String::push ](s: &mut String, c: char)
    ensures
        final(s)@ == old(s)@.push(c),
;

/// The characters of a string, as a vector.
pub fn to_chars(s: &str) -> (r: Vec<char>)
    ensures
        r@ == s@,
{
    let mut out: Vec<char> = Vec::new();
    for c in it: s.chars()
        invariant
            it.seq() == s@,
            out@ == it.seq().take(it.index()),
    {
        out.push(c);
        assert(out@ =~= it.seq().take(it.index() + 1));
    }
    assert(s@.take(s@.len() as int) =~= s@);
    out
}

/// The string made of these characters.
pub fn from_chars(v: &[char]) -> (r: String)
    ensures
        r@ == v@,
{
    let mut out = String::new();
    let mut i: usize = 0;
    while i < v.len()
        invariant
            i <= v@.len(),
            out@ == v@.take(i as int),
        decreases v@.len() - i,
    {
        out.push(v[i]);
        assert(out@ =~= v@.take(i + 1));
        i += 1;
    }
    assert(v@.take(v@.len() as int) =~= v@);
    out
}


// ------------------------------------------------------------ character classes

/// A set of characters, named so that splitting, trimming and searching each
/// have one definition.
pub enum Class {
    One(char),
    Two(char, char),
    Three(char, char, char),
    /// The Unicode `White_Space` property.
    White,
    /// The Unicode control characters, general category Cc.
    Control,
    /// Anything that cannot be part of a dotted address: not a digit, not a dot.
    NotDotted,
    /// The ASCII digits.
    Digit,
}

pub open spec fn white(c: char) -> bool {
    ||| '\u{9}' <= c <= '\u{d}'
    ||| c == '\u{20}'
    ||| c == '\u{85}'
    ||| c == '\u{a0}'
    ||| c == '\u{1680}'
    ||| '\u{2000}' <= c <= '\u{200a}'
    ||| c == '\u{2028}'
    ||| c == '\u{2029}'
    ||| c == '\u{202f}'
    ||| c == '\u{205f}'
    ||| c == '\u{3000}'
}

pub open spec fn ascii_digit(c: char) -> bool {
    '0' <= c <= '9'
}

impl Class {
    pub open spec fn holds(self, c: char) -> bool {
        match self {
            Class::One(a) => c == a,
            Class::Two(a, b) => c == a || c == b,
            Class::Three(a, b, d) => c == a || c == b || c == d,
            Class::White => white(c),
            Class::Control => c <= '\u{1f}' || '\u{7f}' <= c <= '\u{9f}',
            Class::NotDotted => !ascii_digit(c) && c != '.',
            Class::Digit => ascii_digit(c),
        }
    }

    pub fn has(&self, c: char) -> (r: bool)
        ensures
            r == self.holds(c),
    {
        match self {
            Class::One(a) => c == *a,
            Class::Two(a, b) => c == *a || c == *b,
            Class::Three(a, b, d) => c == *a || c == *b || c == *d,
            Class::White => {
                ('\u{9}' <= c && c <= '\u{d}') || c == '\u{20}' || c == '\u{85}' || c == '\u{a0}'
                    || c == '\u{1680}' || ('\u{2000}' <= c && c <= '\u{200a}') || c == '\u{2028}'
                    || c == '\u{2029}' || c == '\u{202f}' || c == '\u{205f}' || c == '\u{3000}'
            },
            Class::Control => c <= '\u{1f}' || ('\u{7f}' <= c && c <= '\u{9f}'),
            Class::NotDotted => !('0' <= c && c <= '9') && c != '.',
            Class::Digit => '0' <= c && c <= '9',
        }
    }
}

// ------------------------------------------------------------------- searching

/// The first index at or after `i` whose character is in the class, or the
/// length when there is none.
pub open spec fn first_from(s: Seq<char>, cl: Class, i: int) -> int
    decreases s.len() - i,
{
    if i >= s.len() {
        s.len() as int
    } else if cl.holds(s[i]) {
        i
    } else {
        first_from(s, cl, i + 1)
    }
}

/// One past the last index below `i` whose character is in the class, or 0.
pub open spec fn last_before(s: Seq<char>, cl: Class, i: int) -> int
    decreases i,
{
    if i <= 0 {
        0
    } else if cl.holds(s[i - 1]) {
        i
    } else {
        last_before(s, cl, i - 1)
    }
}

pub proof fn lemma_first_from(s: Seq<char>, cl: Class, i: int)
    requires
        0 <= i <= s.len(),
    ensures
        i <= first_from(s, cl, i) <= s.len(),
        first_from(s, cl, i) < s.len() ==> cl.holds(s[first_from(s, cl, i)]),
        forall|k: int| i <= k < first_from(s, cl, i) ==> !cl.holds(#[trigger] s[k]),
    decreases s.len() - i,
{
    if i < s.len() && !cl.holds(s[i]) {
        lemma_first_from(s, cl, i + 1);
    }
}

pub proof fn lemma_last_before(s: Seq<char>, cl: Class, i: int)
    requires
        0 <= i <= s.len(),
    ensures
        0 <= last_before(s, cl, i) <= i,
        last_before(s, cl, i) > 0 ==> cl.holds(s[last_before(s, cl, i) - 1]),
        forall|k: int| last_before(s, cl, i) <= k < i ==> !cl.holds(#[trigger] s[k]),
    decreases i,
{
    if i > 0 && !cl.holds(s[i - 1]) {
        lemma_last_before(s, cl, i - 1);
    }
}

pub fn find_class(s: &[char], cl: &Class, from: usize) -> (r: usize)
    requires
        from <= s@.len(),
    ensures
        r == first_from(s@, *cl, from as int),
        from <= r <= s@.len(),
{
    let mut i: usize = from;
    while i < s.len()
        invariant
            from <= i <= s@.len(),
            first_from(s@, *cl, from as int) == first_from(s@, *cl, i as int),
        decreases s@.len() - i,
    {
        if cl.has(s[i]) {
            return i;
        }
        i += 1;
    }
    i
}

pub fn rfind_class(s: &[char], cl: &Class) -> (r: usize)
    ensures
        r == last_before(s@, *cl, s@.len() as int),
        r <= s@.len(),
{
    let mut i: usize = s.len();
    while i > 0
        invariant
            i <= s@.len(),
            last_before(s@, *cl, s@.len() as int) == last_before(s@, *cl, i as int),
        decreases i,
    {
        if cl.has(s[i - 1]) {
            return i;
        }
        i -= 1;
    }
    i
}

/// Does `pat` stand at index `i`?
pub open spec fn at(s: Seq<char>, pat: Seq<char>, i: int) -> bool {
    0 <= i && i + pat.len() <= s.len() && s.subrange(i, i + pat.len()) == pat
}

pub open spec fn starts_with(s: Seq<char>, pat: Seq<char>) -> bool {
    at(s, pat, 0)
}

pub open spec fn ends_with(s: Seq<char>, pat: Seq<char>) -> bool {
    at(s, pat, s.len() - pat.len())
}

pub open spec fn contains(s: Seq<char>, pat: Seq<char>) -> bool {
    exists|i: int| #[trigger] at(s, pat, i)
}

/// The first index at or after `i` where `pat` stands.
pub open spec fn find_from(s: Seq<char>, pat: Seq<char>, i: int) -> Option<int>
    decreases s.len() + 1 - i,
{
    if i + pat.len() > s.len() {
        None
    } else if at(s, pat, i) {
        Some(i)
    } else {
        find_from(s, pat, i + 1)
    }
}

pub fn at_chars(s: &[char], pat: &[char], i: usize) -> (r: bool)
    requires
        i <= s@.len(),
    ensures
        r == at(s@, pat@, i as int),
{
    if pat.len() > s.len() - i {
        return false;
    }
    let mut k: usize = 0;
    while k < pat.len()
        invariant
            k <= pat@.len(),
            i + pat@.len() <= s.len(),
            s@.subrange(i as int, i + k) == pat@.take(k as int),
        decreases pat@.len() - k,
    {
        if s[i + k] != pat[k] {
            assert(s@.subrange(i as int, i + pat@.len())[k as int] != pat@[k as int]);
            return false;
        }
        assert(s@.subrange(i as int, i + k + 1) =~= s@.subrange(i as int, i + k).push(s@[i + k]));
        assert(pat@.take(k + 1) =~= pat@.take(k as int).push(pat@[k as int]));
        k += 1;
    }
    assert(pat@.take(pat@.len() as int) =~= pat@);
    true
}

pub fn find_chars(s: &[char], pat: &[char]) -> (r: Option<usize>)
    ensures
        match r {
            Some(i) => find_from(s@, pat@, 0) == Some(i as int) && i + pat@.len() <= s.len(),
            None => find_from(s@, pat@, 0) is None,
        },
        r is Some <==> contains(s@, pat@),
{
    if pat.len() > s.len() {
        return None;
    }
    let last: usize = s.len() - pat.len();
    let mut i: usize = 0;
    while i < last
        invariant
            i <= last,
            last + pat@.len() == s.len(),
            find_from(s@, pat@, 0) == find_from(s@, pat@, i as int),
            forall|k: int| 0 <= k < i ==> !at(s@, pat@, k),
        decreases last - i,
    {
        if at_chars(s, pat, i) {
            return Some(i);
        }
        i += 1;
    }
    if at_chars(s, pat, last) {
        return Some(last);
    }
    assert(find_from(s@, pat@, last + 1) is None);
    None
}


/// `s == lit`, `s` starting with `lit`, and so on, for a literal pattern.
pub fn eq_str(s: &[char], lit: &str) -> (r: bool)
    ensures
        r == (s@ == lit@),
{
    let pat = to_chars(lit);
    if s.len() != pat.len() {
        return false;
    }
    let r: bool = at_chars(s, pat.as_slice(), 0);
    assert(s@.subrange(0, s@.len() as int) =~= s@);
    r
}

pub fn starts_with_str(s: &[char], lit: &str) -> (r: bool)
    ensures
        r == starts_with(s@, lit@),
{
    let pat = to_chars(lit);
    at_chars(s, pat.as_slice(), 0)
}

pub fn ends_with_str(s: &[char], lit: &str) -> (r: bool)
    ensures
        r == ends_with(s@, lit@),
{
    let pat = to_chars(lit);
    if pat.len() > s.len() {
        return false;
    }
    at_chars(s, pat.as_slice(), s.len() - pat.len())
}

pub fn contains_str(s: &[char], lit: &str) -> (r: bool)
    ensures
        r == contains(s@, lit@),
{
    let pat = to_chars(lit);
    let r: Option<usize> = find_chars(s, pat.as_slice());
    r.is_some()
}

/// Are two strings the same text?
pub fn same(a: &str, b: &str) -> (r: bool)
    ensures
        r == (a@ == b@),
{
    let ac = to_chars(a);
    eq_str(ac.as_slice(), b)
}

// -------------------------------------------------------------------- trimming

/// The first index whose character is not in the class.
pub open spec fn skip_class(s: Seq<char>, cl: Class, i: int) -> int
    decreases s.len() - i,
{
    if i >= s.len() {
        s.len() as int
    } else if cl.holds(s[i]) {
        skip_class(s, cl, i + 1)
    } else {
        i
    }
}

/// One past the last index, not below `lo`, whose character is not in the class.
pub open spec fn unskip_class(s: Seq<char>, cl: Class, lo: int, i: int) -> int
    decreases i - lo,
{
    if i <= lo {
        lo
    } else if cl.holds(s[i - 1]) {
        unskip_class(s, cl, lo, i - 1)
    } else {
        i
    }
}

/// `s` without the leading characters of the class.
pub open spec fn trim_start(s: Seq<char>, cl: Class) -> Seq<char> {
    s.subrange(skip_class(s, cl, 0), s.len() as int)
}

/// `s` without the trailing characters of the class.
pub open spec fn trim_end(s: Seq<char>, cl: Class) -> Seq<char> {
    s.subrange(0, unskip_class(s, cl, 0, s.len() as int))
}

/// `s` without the leading and trailing characters of the class.
pub open spec fn trim_both(s: Seq<char>, cl: Class) -> Seq<char> {
    let lo = skip_class(s, cl, 0);
    s.subrange(lo, unskip_class(s, cl, lo, s.len() as int))
}

/// `s` without surrounding white space.
pub open spec fn trim(s: Seq<char>) -> Seq<char> {
    trim_both(s, Class::White)
}

/// Trimming keeps characters; it makes none.
pub proof fn lemma_trim_within(s: Seq<char>)
    ensures
        trim(s).len() <= s.len(),
        forall|k: int| 0 <= k < trim(s).len() ==> exists|m: int|
            0 <= m < s.len() && s[m] == #[trigger] trim(s)[k],
{
    lemma_skip_bounds(s, Class::White, 0);
    let lo = skip_class(s, Class::White, 0);
    lemma_unskip_bounds(s, Class::White, lo, s.len() as int);
    assert forall|k: int| 0 <= k < trim(s).len() implies exists|m: int|
        0 <= m < s.len() && s[m] == #[trigger] trim(s)[k] by {
        assert(s[lo + k] == trim(s)[k]);
    }
}

pub proof fn lemma_skip_bounds(s: Seq<char>, cl: Class, i: int)
    requires
        0 <= i <= s.len(),
    ensures
        i <= skip_class(s, cl, i) <= s.len(),
        forall|k: int| i <= k < skip_class(s, cl, i) ==> cl.holds(#[trigger] s[k]),
        skip_class(s, cl, i) < s.len() ==> !cl.holds(s[skip_class(s, cl, i)]),
    decreases s.len() - i,
{
    if i < s.len() && cl.holds(s[i]) {
        lemma_skip_bounds(s, cl, i + 1);
    }
}

pub proof fn lemma_unskip_bounds(s: Seq<char>, cl: Class, lo: int, i: int)
    requires
        0 <= lo <= i <= s.len(),
    ensures
        lo <= unskip_class(s, cl, lo, i) <= i,
        forall|k: int| unskip_class(s, cl, lo, i) <= k < i ==> cl.holds(#[trigger] s[k]),
        unskip_class(s, cl, lo, i) > lo ==> !cl.holds(s[unskip_class(s, cl, lo, i) - 1]),
    decreases i - lo,
{
    if i > lo && cl.holds(s[i - 1]) {
        lemma_unskip_bounds(s, cl, lo, i - 1);
    }
}

/// What was trimmed has nothing left to trim.
pub proof fn lemma_trim_twice(s: Seq<char>)
    ensures
        trim(trim(s)) == trim(s),
{
    let lo = skip_class(s, Class::White, 0);
    lemma_skip_bounds(s, Class::White, 0);
    lemma_unskip_bounds(s, Class::White, lo, s.len() as int);
    let t = trim(s);
    lemma_skip_bounds(t, Class::White, 0);
    lemma_unskip_bounds(t, Class::White, 0, t.len() as int);
    if t.len() > 0 {
        assert(t[0] == s[lo]);
        assert(t.last() == s[lo + t.len() - 1]);
    }
    assert(trim(t) =~= t);
}

pub fn skip_idx(s: &[char], cl: &Class) -> (r: usize)
    ensures
        r == skip_class(s@, *cl, 0),
        r <= s@.len(),
{
    let mut i: usize = 0;
    while i < s.len()
        invariant
            i <= s@.len(),
            skip_class(s@, *cl, 0) == skip_class(s@, *cl, i as int),
        decreases s@.len() - i,
    {
        if !cl.has(s[i]) {
            return i;
        }
        i += 1;
    }
    i
}

fn unskip_idx(s: &[char], cl: &Class, lo: usize) -> (r: usize)
    requires
        lo <= s@.len(),
    ensures
        r == unskip_class(s@, *cl, lo as int, s@.len() as int),
        lo <= r <= s@.len(),
{
    let mut i: usize = s.len();
    while i > lo
        invariant
            lo <= i <= s@.len(),
            unskip_class(s@, *cl, lo as int, s@.len() as int) == unskip_class(s@, *cl, lo as int, i as int),
        decreases i,
    {
        if !cl.has(s[i - 1]) {
            return i;
        }
        i -= 1;
    }
    i
}

pub fn trim_start_of<'a>(s: &'a [char], cl: &Class) -> (r: &'a [char])
    ensures
        r@ == trim_start(s@, *cl),
{
    let lo: usize = skip_idx(s, cl);
    slice_subrange(s, lo, s.len())
}

pub fn trim_end_of<'a>(s: &'a [char], cl: &Class) -> (r: &'a [char])
    ensures
        r@ == trim_end(s@, *cl),
{
    let hi: usize = unskip_idx(s, cl, 0);
    slice_subrange(s, 0, hi)
}

pub fn trim_of<'a>(s: &'a [char], cl: &Class) -> (r: &'a [char])
    ensures
        r@ == trim_both(s@, *cl),
{
    let lo: usize = skip_idx(s, cl);
    let hi: usize = unskip_idx(s, cl, lo);
    slice_subrange(s, lo, hi)
}

pub fn trimmed<'a>(s: &'a [char]) -> (r: &'a [char])
    ensures
        r@ == trim(s@),
{
    trim_of(s, &Class::White)
}

pub fn trim_str(s: &str) -> (r: String)
    ensures
        r@ == trim(s@),
{
    let c = to_chars(s);
    from_chars(trimmed(c.as_slice()))
}

// ------------------------------------------------------------------- splitting

/// The texts of a sequence of slices.
pub open spec fn slices(v: Seq<&[char]>) -> Seq<Seq<char>> {
    v.map_values(|x: &[char]| x@)
}

/// The texts of a sequence of strings.
pub open spec fn strings(v: Seq<String>) -> Seq<Seq<char>> {
    v.map_values(|x: String| x@)
}

/// The text of an optional string.
pub open spec fn opt(o: Option<String>) -> Option<Seq<char>> {
    match o {
        Some(s) => Some(s@),
        None => None,
    }
}

/// The pieces between the separators, from index `i` on. There is always one
/// more piece than there are separators.
pub open spec fn split_from(s: Seq<char>, cl: Class, i: int) -> Seq<Seq<char>>
    decreases s.len() - i,
{
    let j = first_from(s, cl, i);
    if i <= j < s.len() {
        seq![s.subrange(i, j)] + split_from(s, cl, j + 1)
    } else {
        seq![s.subrange(i, s.len() as int)]
    }
}

pub open spec fn split(s: Seq<char>, cl: Class) -> Seq<Seq<char>> {
    split_from(s, cl, 0)
}

/// The pieces that are not empty.
pub open spec fn nonempty(v: Seq<Seq<char>>) -> Seq<Seq<char>>
    decreases v.len(),
{
    if v.len() == 0 {
        seq![]
    } else if v[0].len() == 0 {
        nonempty(v.skip(1))
    } else {
        seq![v[0]] + nonempty(v.skip(1))
    }
}

/// The runs of characters that are not white space.
pub open spec fn words(s: Seq<char>) -> Seq<Seq<char>> {
    nonempty(split(s, Class::White))
}

/// One line, with the carriage return that came before its newline taken off.
pub open spec fn strip_cr(s: Seq<char>) -> Seq<char> {
    if s.len() > 0 && s.last() == '\r' {
        s.drop_last()
    } else {
        s
    }
}

pub open spec fn lines_from(s: Seq<char>, i: int) -> Seq<Seq<char>>
    decreases s.len() - i,
{
    let j = first_from(s, Class::One('\n'), i);
    if i >= s.len() {
        seq![]
    } else if i <= j < s.len() {
        seq![strip_cr(s.subrange(i, j))] + lines_from(s, j + 1)
    } else {
        seq![s.subrange(i, s.len() as int)]
    }
}

/// The lines of a text. A newline, with or without a carriage return before it,
/// ends a line; text after the last newline is a line too.
pub open spec fn lines(s: Seq<char>) -> Seq<Seq<char>> {
    lines_from(s, 0)
}

/// The piece up to the next separator, and the pieces after it.
pub proof fn lemma_split_step(s: Seq<char>, cl: Class, i: int, j: int)
    requires
        0 <= i <= j < s.len(),
        cl.holds(s[j]),
        forall|k: int| i <= k < j ==> !cl.holds(#[trigger] s[k]),
    ensures
        split_from(s, cl, i) == seq![s.subrange(i, j)] + split_from(s, cl, j + 1),
{
    lemma_first_from(s, cl, i);
}

/// Without a separator what is left is one piece.
pub proof fn lemma_split_end(s: Seq<char>, cl: Class, i: int)
    requires
        0 <= i <= s.len(),
        forall|k: int| i <= k < s.len() ==> !cl.holds(#[trigger] s[k]),
    ensures
        split_from(s, cl, i) == seq![s.subrange(i, s.len() as int)],
{
    lemma_first_from(s, cl, i);
}

/// What is left has none of the characters that were taken out.
pub proof fn lemma_without(s: Seq<char>, cl: Class)
    ensures
        forall|k: int| 0 <= k < without(s, cl).len() ==> !cl.holds(#[trigger] without(s, cl)[k]),
    decreases s.len(),
{
    if s.len() > 0 {
        let before = without(s.drop_last(), cl);
        lemma_without(s.drop_last(), cl);
        assert forall|k: int| 0 <= k < without(s, cl).len() implies !cl.holds(#[trigger] without(s, cl)[k]) by {
            if k < before.len() {
                assert(without(s, cl)[k] == before[k]);
            }
        }
    }
}

proof fn lemma_split_push(a: Seq<char>, w: Seq<char>, i: int)
    requires
        0 <= i <= a.len(),
        forall|k: int| 0 <= k < w.len() ==> !white(#[trigger] w[k]),
    ensures
        split_from(a + " "@ + w, Class::White, i) == split_from(a, Class::White, i).push(w),
    decreases a.len() - i,
{
    reveal_strlit(" ");
    let s = a + " "@ + w;
    let j = first_from(a, Class::White, i);
    lemma_first_from(a, Class::White, i);
    assert(s[j] == if j < a.len() { a[j] } else { ' ' });
    assert forall|k: int| i <= k < j implies !Class::White.holds(#[trigger] s[k]) by {
        assert(s[k] == a[k]);
    }
    lemma_split_step(s, Class::White, i, j);
    assert(s.subrange(i, j) =~= a.subrange(i, j));
    if j < a.len() {
        lemma_split_push(a, w, j + 1);
    } else {
        assert forall|k: int| j + 1 <= k < s.len() implies !Class::White.holds(#[trigger] s[k]) by {
            assert(s[k] == w[k - j - 1]);
        }
        lemma_split_end(s, Class::White, j + 1);
        assert(s.subrange(j + 1, s.len() as int) =~= w);
    }
    assert(split_from(s, Class::White, i) =~= split_from(a, Class::White, i).push(w));
}

proof fn lemma_nonempty_push(v: Seq<Seq<char>>, w: Seq<char>)
    requires
        w.len() > 0,
    ensures
        nonempty(v.push(w)) == nonempty(v).push(w),
    decreases v.len(),
{
    let p = v.push(w);
    if v.len() == 0 {
        assert(p.skip(1) =~= seq![]);
        assert(nonempty(p.skip(1)) =~= seq![]);
        assert(nonempty(p) =~= nonempty(v).push(w));
    } else {
        assert(p.skip(1) =~= v.skip(1).push(w));
        lemma_nonempty_push(v.skip(1), w);
        assert(nonempty(p) =~= nonempty(v).push(w));
    }
}

/// A word written behind a space is one more word.
pub proof fn lemma_words_push(a: Seq<char>, w: Seq<char>)
    requires
        w.len() > 0,
        forall|k: int| 0 <= k < w.len() ==> !white(#[trigger] w[k]),
    ensures
        words(a + " "@ + w) == words(a).push(w),
{
    lemma_split_push(a, w, 0);
    lemma_nonempty_push(split(a, Class::White), w);
}

/// A word alone is the only word.
pub proof fn lemma_one_word(w: Seq<char>)
    requires
        w.len() > 0,
        forall|k: int| 0 <= k < w.len() ==> !white(#[trigger] w[k]),
    ensures
        words(w) == seq![w],
{
    lemma_split_end(w, Class::White, 0);
    assert(w.subrange(0, w.len() as int) =~= w);
    assert(seq![w].skip(1) =~= seq![]);
    assert(nonempty(seq![w].skip(1)) =~= seq![]);
    assert(words(w) =~= seq![w]);
}

pub fn split_of<'a>(s: &'a [char], cl: &Class) -> (r: Vec<&'a [char]>)
    ensures
        slices(r@) == split(s@, *cl),
        r@.len() >= 1,
{
    let mut out: Vec<&'a [char]> = Vec::new();
    let mut i: usize = 0;
    loop
        invariant
            i <= s@.len(),
            slices(out@) + split_from(s@, *cl, i as int) == split(s@, *cl),
        decreases s@.len() - i,
    {
        let j: usize = find_class(s, cl, i);
        let ghost before = out@;
        let piece: &'a [char] = slice_subrange(s, i, j);
        out.push(piece);
        assert(slices(out@) =~= slices(before).push(piece@));
        if j >= s.len() {
            assert(slices(before) + seq![piece@] =~= slices(out@));
            return out;
        }
        assert(slices(before) + (seq![piece@] + split_from(s@, *cl, j + 1)) =~= slices(out@)
            + split_from(s@, *cl, j + 1));
        i = j + 1;
    }
}

pub fn words_of<'a>(s: &'a [char]) -> (r: Vec<&'a [char]>)
    ensures
        slices(r@) == words(s@),
{
    let pieces: Vec<&'a [char]> = split_of(s, &Class::White);
    let mut out: Vec<&'a [char]> = Vec::new();
    let mut i: usize = 0;
    let ghost all = slices(pieces@);
    assert(all.skip(0) =~= all);
    while i < pieces.len()
        invariant
            i <= pieces@.len(),
            all == slices(pieces@),
            slices(out@) + nonempty(all.skip(i as int)) == nonempty(all),
        decreases pieces@.len() - i,
    {
        let ghost before = out@;
        let ghost rest = all.skip(i as int);
        assert(rest.skip(1) =~= all.skip(i + 1));
        assert(rest[0] == pieces@[i as int]@);
        if pieces[i].len() > 0 {
            out.push(pieces[i]);
            assert(slices(out@) =~= slices(before).push(rest[0]));
            assert(slices(before) + (seq![rest[0]] + nonempty(rest.skip(1))) =~= slices(out@)
                + nonempty(rest.skip(1)));
        }
        i += 1;
    }
    assert(all.skip(all.len() as int) =~= seq![]);
    assert(slices(out@) + Seq::<Seq<char>>::empty() =~= slices(out@));
    out
}

pub fn lines_of<'a>(s: &'a [char]) -> (r: Vec<&'a [char]>)
    ensures
        slices(r@) == lines(s@),
{
    let mut out: Vec<&'a [char]> = Vec::new();
    let mut i: usize = 0;
    while i < s.len()
        invariant
            i <= s@.len(),
            slices(out@) + lines_from(s@, i as int) == lines(s@),
        decreases s@.len() - i,
    {
        let j: usize = find_class(s, &Class::One('\n'), i);
        let ghost before = out@;
        if j >= s.len() {
            let piece: &'a [char] = slice_subrange(s, i, j);
            out.push(piece);
            assert(slices(out@) =~= slices(before) + seq![piece@]);
            return out;
        }
        let mut e: usize = j;
        if e > i && s[e - 1] == '\r' {
            e -= 1;
        }
        let piece: &'a [char] = slice_subrange(s, i, e);
        out.push(piece);
        assert(piece@ =~= strip_cr(s@.subrange(i as int, j as int)));
        assert(slices(before) + (seq![piece@] + lines_from(s@, j + 1)) =~= slices(out@)
            + lines_from(s@, j + 1));
        i = j + 1;
    }
    assert(slices(out@) + Seq::<Seq<char>>::empty() =~= slices(out@));
    out
}


/// What follows `pat` when the text starts with it.
pub open spec fn strip_prefix(s: Seq<char>, pat: Seq<char>) -> Option<Seq<char>> {
    if starts_with(s, pat) {
        Some(s.skip(pat.len() as int))
    } else {
        None
    }
}

/// The text before and after the first separator.
pub open spec fn split_once(s: Seq<char>, cl: Class) -> Option<(Seq<char>, Seq<char>)> {
    let j = first_from(s, cl, 0);
    if j < s.len() {
        Some((s.take(j), s.skip(j + 1)))
    } else {
        None
    }
}

/// The text before and after the last separator.
pub open spec fn rsplit_once(s: Seq<char>, cl: Class) -> Option<(Seq<char>, Seq<char>)> {
    let j = last_before(s, cl, s.len() as int);
    if j > 0 {
        Some((s.take(j - 1), s.skip(j)))
    } else {
        None
    }
}

/// The text before the first separator, or all of it.
pub open spec fn head(s: Seq<char>, cl: Class) -> Seq<char> {
    s.take(first_from(s, cl, 0))
}

/// The text after the last separator, or all of it.
pub open spec fn tail(s: Seq<char>, cl: Class) -> Seq<char> {
    s.skip(last_before(s, cl, s.len() as int))
}

pub fn strip_prefix_str<'a>(s: &'a [char], lit: &str) -> (r: Option<&'a [char]>)
    ensures
        match r {
            Some(t) => strip_prefix(s@, lit@) == Some(t@),
            None => strip_prefix(s@, lit@) is None,
        },
{
    let pat = to_chars(lit);
    if at_chars(s, pat.as_slice(), 0) {
        let t: &'a [char] = slice_subrange(s, pat.len(), s.len());
        assert(t@ =~= s@.skip(pat@.len() as int));
        Some(t)
    } else {
        None
    }
}

pub fn split_once_of<'a>(s: &'a [char], cl: &Class) -> (r: Option<(&'a [char], &'a [char])>)
    ensures
        match r {
            Some((a, b)) => split_once(s@, *cl) == Some((a@, b@)),
            None => split_once(s@, *cl) is None,
        },
{
    let j: usize = find_class(s, cl, 0);
    if j < s.len() {
        let a: &'a [char] = slice_subrange(s, 0, j);
        let b: &'a [char] = slice_subrange(s, j + 1, s.len());
        assert(a@ =~= s@.take(j as int));
        assert(b@ =~= s@.skip(j + 1));
        Some((a, b))
    } else {
        None
    }
}

pub fn rsplit_once_of<'a>(s: &'a [char], cl: &Class) -> (r: Option<(&'a [char], &'a [char])>)
    ensures
        match r {
            Some((a, b)) => rsplit_once(s@, *cl) == Some((a@, b@)),
            None => rsplit_once(s@, *cl) is None,
        },
{
    let j: usize = rfind_class(s, cl);
    if j > 0 {
        let a: &'a [char] = slice_subrange(s, 0, j - 1);
        let b: &'a [char] = slice_subrange(s, j, s.len());
        assert(a@ =~= s@.take(j - 1));
        assert(b@ =~= s@.skip(j as int));
        Some((a, b))
    } else {
        None
    }
}

pub fn head_of<'a>(s: &'a [char], cl: &Class) -> (r: &'a [char])
    ensures
        r@ == head(s@, *cl),
{
    let j: usize = find_class(s, cl, 0);
    let r: &'a [char] = slice_subrange(s, 0, j);
    assert(r@ =~= s@.take(j as int));
    r
}

pub fn tail_of<'a>(s: &'a [char], cl: &Class) -> (r: &'a [char])
    ensures
        r@ == tail(s@, *cl),
{
    let j: usize = rfind_class(s, cl);
    let r: &'a [char] = slice_subrange(s, j, s.len());
    assert(r@ =~= s@.skip(j as int));
    r
}

// ------------------------------------------------------------- mapping characters

pub open spec fn lower_char(c: char) -> char {
    if 'A' <= c <= 'Z' {
        (c as int + 32) as char
    } else {
        c
    }
}

pub open spec fn upper_char(c: char) -> char {
    if 'a' <= c <= 'z' {
        (c as int - 32) as char
    } else {
        c
    }
}

/// ASCII letters folded to lower case; everything else unchanged.
pub open spec fn lower(s: Seq<char>) -> Seq<char> {
    s.map_values(|c: char| lower_char(c))
}

/// ASCII letters folded to upper case; everything else unchanged.
pub open spec fn upper(s: Seq<char>) -> Seq<char> {
    s.map_values(|c: char| upper_char(c))
}

/// Every `from` replaced by `to`.
pub open spec fn replace_char(s: Seq<char>, from: char, to: char) -> Seq<char> {
    s.map_values(|c: char| if c == from { to } else { c })
}

/// The characters that are not in the class.
pub open spec fn without(s: Seq<char>, cl: Class) -> Seq<char>
    decreases s.len(),
{
    if s.len() == 0 {
        seq![]
    } else if cl.holds(s.last()) {
        without(s.drop_last(), cl)
    } else {
        without(s.drop_last(), cl).push(s.last())
    }
}

pub fn to_lower_char(c: char) -> (r: char)
    ensures
        r == lower_char(c),
{
    if 'A' <= c && c <= 'Z' {
        let b: u8 = c as u8;
        (b + 32u8) as char
    } else {
        c
    }
}

pub fn to_upper_char(c: char) -> (r: char)
    ensures
        r == upper_char(c),
{
    if 'a' <= c && c <= 'z' {
        let b: u8 = c as u8;
        (b - 32u8) as char
    } else {
        c
    }
}

pub fn to_lower(s: &[char]) -> (r: Vec<char>)
    ensures
        r@ == lower(s@),
{
    let mut out: Vec<char> = Vec::new();
    let mut i: usize = 0;
    while i < s.len()
        invariant
            i <= s@.len(),
            out@ == lower(s@.take(i as int)),
        decreases s@.len() - i,
    {
        out.push(to_lower_char(s[i]));
        assert(out@ =~= lower(s@.take(i + 1)));
        i += 1;
    }
    assert(s@.take(s@.len() as int) =~= s@);
    out
}

pub fn to_upper(s: &[char]) -> (r: Vec<char>)
    ensures
        r@ == upper(s@),
{
    let mut out: Vec<char> = Vec::new();
    let mut i: usize = 0;
    while i < s.len()
        invariant
            i <= s@.len(),
            out@ == upper(s@.take(i as int)),
        decreases s@.len() - i,
    {
        out.push(to_upper_char(s[i]));
        assert(out@ =~= upper(s@.take(i + 1)));
        i += 1;
    }
    assert(s@.take(s@.len() as int) =~= s@);
    out
}

pub fn replaced(s: &[char], from: char, to: char) -> (r: Vec<char>)
    ensures
        r@ == replace_char(s@, from, to),
{
    let mut out: Vec<char> = Vec::new();
    let mut i: usize = 0;
    while i < s.len()
        invariant
            i <= s@.len(),
            out@ == replace_char(s@.take(i as int), from, to),
        decreases s@.len() - i,
    {
        out.push(if s[i] == from { to } else { s[i] });
        assert(out@ =~= replace_char(s@.take(i + 1), from, to));
        i += 1;
    }
    assert(s@.take(s@.len() as int) =~= s@);
    out
}

pub fn filtered(s: &[char], cl: &Class) -> (r: Vec<char>)
    ensures
        r@ == without(s@, *cl),
{
    let mut out: Vec<char> = Vec::new();
    let mut i: usize = 0;
    while i < s.len()
        invariant
            i <= s@.len(),
            out@ == without(s@.take(i as int), *cl),
        decreases s@.len() - i,
    {
        assert(s@.take(i + 1).drop_last() =~= s@.take(i as int));
        if !cl.has(s[i]) {
            out.push(s[i]);
        }
        i += 1;
    }
    assert(s@.take(s@.len() as int) =~= s@);
    out
}

/// Same text once ASCII case is ignored.
pub fn eq_fold_str(s: &[char], lit: &str) -> (r: bool)
    ensures
        r == (lower(s@) == lower(lit@)),
{
    let a = to_lower(s);
    let l = to_chars(lit);
    let b = to_lower(l.as_slice());
    if a.len() != b.len() {
        return false;
    }
    let r: bool = at_chars(a.as_slice(), b.as_slice(), 0);
    assert(a@.subrange(0, a@.len() as int) =~= a@);
    r
}

/// Append a slice of characters to a string.
pub fn push_chars(out: &mut String, s: &[char])
    ensures
        final(out)@ == old(out)@ + s@,
{
    let mut i: usize = 0;
    let ghost start = out@;
    assert(start + s@.take(0) =~= start);
    while i < s.len()
        invariant
            i <= s@.len(),
            out@ == start + s@.take(i as int),
        decreases s@.len() - i,
    {
        out.push(s[i]);
        assert(out@ =~= start + s@.take(i + 1));
        i += 1;
    }
    assert(s@.take(s@.len() as int) =~= s@);
}

// ---------------------------------------------------------------- text from bytes

/// What `String::from_utf8_lossy` makes of a byte string that is not UTF-8.
pub uninterp spec fn patched_text(bytes: Seq<u8>) -> Seq<char>;

/// The text of a byte string: decoded when it is UTF-8, patched when it is not.
pub open spec fn lossy_text(bytes: Seq<u8>) -> Seq<char> {
    if vstd::utf8::valid_utf8(bytes) {
        vstd::utf8::decode_utf8(bytes)
    } else {
        patched_text(bytes)
    }
}

/// `String::from_utf8_lossy`: valid UTF-8 decodes to exactly the characters it
/// encodes. Anything else gives a text that depends on the bytes alone; which
/// characters stand in it for the invalid sequences is left to the name.
#[verifier::external_body]
pub(crate) fn lossy(bytes: &[u8]) -> (r: String)
    ensures
        vstd::utf8::valid_utf8(bytes@) ==> r@ == vstd::utf8::decode_utf8(bytes@),
        !vstd::utf8::valid_utf8(bytes@) ==> r@ == patched_text(bytes@),
{
    String::from_utf8_lossy(bytes).into_owned()
}

/// The UTF-8 bytes of a text.
pub open spec fn utf8(s: Seq<char>) -> Seq<u8> {
    vstd::utf8::encode_utf8(s)
}

pub fn bytes_of(s: &str) -> (r: Vec<u8>)
    ensures
        r@ == utf8(s@),
{
    vstd::slice::slice_to_vec(s.as_bytes())
}

/// Texts one behind the other are their bytes one behind the other.
pub proof fn lemma_utf8_concat(a: Seq<char>, b: Seq<char>)
    ensures
        utf8(a + b) == utf8(a) + utf8(b),
    decreases a.len(),
{
    if a.len() == 0 {
        assert(a + b =~= b);
        assert(utf8(a) =~= seq![]);
        assert(utf8(a) + utf8(b) =~= utf8(b));
    } else {
        assert((a + b).drop_first() =~= a.drop_first() + b);
        lemma_utf8_concat(a.drop_first(), b);
        let head = vstd::utf8::encode_scalar(a[0] as u32);
        assert(head + (utf8(a.drop_first()) + utf8(b)) =~= head + utf8(a.drop_first()) + utf8(b));
    }
}

/// Encoding a text and decoding the bytes gives the text back.
pub proof fn lemma_utf8_round_trip(s: Seq<char>)
    ensures
        vstd::utf8::valid_utf8(utf8(s)),
        vstd::utf8::decode_utf8(utf8(s)) == s,
{
    vstd::utf8::encode_utf8_valid_utf8(s);
    vstd::utf8::encode_utf8_decode_utf8(s);
}

proof fn lemma_scalar_bits()
    by (bit_vector)
    ensures
        forall|x: u32| 0 < x <= 0x7f ==> {
            let b = #[trigger] ((x & 0x7F) as u8);
            b != 0 && b != 0xff
        },
        forall|x: u32| {
            let b = #[trigger] (0xC0 | ((x >> 6) & 0x1F) as u8);
            b != 0 && b != 0xff
        },
        forall|x: u32| {
            let b = #[trigger] (0xE0 | ((x >> 12) & 0x0F) as u8);
            b != 0 && b != 0xff
        },
        forall|x: u32| {
            let b = #[trigger] (0xF0 | ((x >> 18) & 0x7) as u8);
            b != 0 && b != 0xff
        },
        forall|x: u32| {
            let b = #[trigger] (0x80 | (x & 0x3F) as u8);
            b != 0 && b != 0xff
        },
        forall|x: u32| {
            let b = #[trigger] (0x80 | ((x >> 6) & 0x3F) as u8);
            b != 0 && b != 0xff
        },
        forall|x: u32| {
            let b = #[trigger] (0x80 | ((x >> 12) & 0x3F) as u8);
            b != 0 && b != 0xff
        },
{
}

proof fn lemma_scalar_bytes(v: u32)
    requires
        vstd::utf8::is_scalar(v),
        v != 0,
    ensures
        forall|k: int| 0 <= k < vstd::utf8::encode_scalar(v).len() ==> {
            let b = #[trigger] vstd::utf8::encode_scalar(v)[k];
            b != 0 && b != 0xff
        },
{
    lemma_scalar_bits();
}

proof fn lemma_char_bytes(c: char)
    requires
        c != '\0',
    ensures
        forall|k: int| 0 <= k < vstd::utf8::encode_scalar(c as u32).len() ==> {
            let b = #[trigger] vstd::utf8::encode_scalar(c as u32)[k];
            b != 0 && b != 0xff
        },
{
    vstd::utf8::char_is_scalar(c);
    lemma_scalar_bytes(c as u32);
}

/// UTF-8 never holds the byte `0xff`, and holds a zero byte only where the text
/// holds a NUL character.
pub proof fn lemma_utf8_bytes(s: Seq<char>)
    requires
        forall|k: int| 0 <= k < s.len() ==> #[trigger] s[k] != '\0',
    ensures
        forall|k: int| 0 <= k < utf8(s).len() ==> #[trigger] utf8(s)[k] != 0 && utf8(s)[k] != 0xff,
        s.len() > 0 ==> utf8(s).len() > 0,
    decreases s.len(),
{
    if s.len() > 0 {
        let rest = s.drop_first();
        assert forall|k: int| 0 <= k < rest.len() implies #[trigger] rest[k] != '\0' by {
            assert(rest[k] == s[k + 1]);
        }
        lemma_utf8_bytes(rest);
        lemma_char_bytes(s[0]);
        let head = vstd::utf8::encode_scalar(s[0] as u32);
        assert(utf8(s) == head + utf8(rest));
        assert(head.len() > 0);
    }
}

// ------------------------------------------------------------------ joining text

pub fn cat2(a: &str, b: &str) -> (r: String)
    ensures
        r@ == a@ + b@,
{
    let mut s = String::from_str(a);
    s.append(b);
    s
}

pub fn cat3(a: &str, b: &str, c: &str) -> (r: String)
    ensures
        r@ == a@ + b@ + c@,
{
    let mut s = String::from_str(a);
    s.append(b);
    s.append(c);
    s
}

pub fn cat4(a: &str, b: &str, c: &str, d: &str) -> (r: String)
    ensures
        r@ == a@ + b@ + c@ + d@,
{
    let mut s = String::from_str(a);
    s.append(b);
    s.append(c);
    s.append(d);
    s
}

pub fn cat5(a: &str, b: &str, c: &str, d: &str, e: &str) -> (r: String)
    ensures
        r@ == a@ + b@ + c@ + d@ + e@,
{
    let mut s = String::from_str(a);
    s.append(b);
    s.append(c);
    s.append(d);
    s.append(e);
    s
}

pub fn cat6(a: &str, b: &str, c: &str, d: &str, e: &str, f: &str) -> (r: String)
    ensures
        r@ == a@ + b@ + c@ + d@ + e@ + f@,
{
    let mut s = String::from_str(a);
    s.append(b);
    s.append(c);
    s.append(d);
    s.append(e);
    s.append(f);
    s
}

pub fn cat7(a: &str, b: &str, c: &str, d: &str, e: &str, f: &str, g: &str) -> (r: String)
    ensures
        r@ == a@ + b@ + c@ + d@ + e@ + f@ + g@,
{
    let mut s = String::from_str(a);
    s.append(b);
    s.append(c);
    s.append(d);
    s.append(e);
    s.append(f);
    s.append(g);
    s
}

pub fn cat8(a: &str, b: &str, c: &str, d: &str, e: &str, f: &str, g: &str, h: &str) -> (r: String)
    ensures
        r@ == a@ + b@ + c@ + d@ + e@ + f@ + g@ + h@,
{
    let mut s = String::from_str(a);
    s.append(b);
    s.append(c);
    s.append(d);
    s.append(e);
    s.append(f);
    s.append(g);
    s.append(h);
    s
}

pub fn cat9(a: &str, b: &str, c: &str, d: &str, e: &str, f: &str, g: &str, h: &str, i: &str) -> (r: String)
    ensures
        r@ == a@ + b@ + c@ + d@ + e@ + f@ + g@ + h@ + i@,
{
    let mut s = String::from_str(a);
    s.append(b);
    s.append(c);
    s.append(d);
    s.append(e);
    s.append(f);
    s.append(g);
    s.append(h);
    s.append(i);
    s
}

/// Texts, each followed by a separator but the last.
pub open spec fn joined(v: Seq<Seq<char>>, sep: Seq<char>) -> Seq<char>
    decreases v.len(),
{
    if v.len() == 0 {
        seq![]
    } else if v.len() == 1 {
        v[0]
    } else {
        joined(v.drop_last(), sep) + sep + v.last()
    }
}

pub fn join(v: &[String], sep: &str) -> (r: String)
    ensures
        r@ == joined(strings(v@), sep@),
{
    let mut out = String::new();
    let mut i: usize = 0;
    let ghost all = strings(v@);
    assert(out@ =~= joined(all.take(0), sep@));
    while i < v.len()
        invariant
            i <= v@.len(),
            all == strings(v@),
            out@ == joined(all.take(i as int), sep@),
        decreases v@.len() - i,
    {
        assert(all.take(i + 1).drop_last() =~= all.take(i as int));
        assert(all.take(i + 1).last() == v@[i as int]@);
        if i > 0 {
            out.append(sep);
            out.append(v[i].as_str());
        } else {
            out.append(v[i].as_str());
            assert(out@ =~= all.take(1)[0]);
        }
        i += 1;
    }
    assert(all.take(all.len() as int) =~= all);
    out
}

/// How Rust's `Debug` writes a text: in quotes, with escapes.
pub uninterp spec fn debug_text(s: Seq<char>) -> Seq<char>;

/// `str`'s `Debug` formatting: a text that depends on the given text alone.
/// Which characters are escaped, and how, is left to the name.
#[verifier::external_body]
pub(crate) fn debug_string(s: &str) -> (r: String)
    ensures
        r@ == debug_text(s@),
{
    format!("{s:?}")
}

/// A text with spaces after it, up to a width.
pub open spec fn padded(s: Seq<char>, width: nat) -> Seq<char> {
    if s.len() >= width {
        s
    } else {
        s + Seq::new((width - s.len()) as nat, |i: int| ' ')
    }
}

pub fn pad(s: &str, width: usize) -> (r: String)
    ensures
        r@ == padded(s@, width as nat),
{
    let n: usize = to_chars(s).len();
    let mut out = String::from_str(s);
    let mut i: usize = n;
    while i < width
        invariant
            n == s@.len(),
            n <= i,
            n < width ==> i <= width,
            n >= width ==> i == n,
            out@ == s@ + Seq::new((i - n) as nat, |k: int| ' '),
        decreases width - i,
    {
        out.push(' ');
        assert(out@ =~= s@ + Seq::new((i + 1 - n) as nat, |k: int| ' '));
        i += 1;
    }
    assert(n >= width ==> out@ =~= s@);
    out
}

/// A text, or nothing.
pub open spec fn text_or_none(o: Option<Seq<char>>) -> Seq<char> {
    match o {
        Some(s) => s,
        None => ""@,
    }
}

} // verus!
