//! What the box's shell makes of a command: the side a flow cannot see.
use crate::flasher::loader::is_word;
use crate::num::{dec, digits_value, lemma_digits_plain, lemma_digits_value};
use crate::text::{
    first_from, lemma_first_from, lemma_one_word, lemma_words_push, lines, lines_from, skip_class, strip_prefix, trim,
    unskip_class, white, words, Class,
};
use vstd::prelude::*;
use vstd::string::*;

verus! {

/// The rest of a `key=value` word.
pub open spec fn value_of(w: Seq<char>, key: Seq<char>) -> Option<Seq<char>> {
    strip_prefix(w, key)
}

/// `dd`: the device it writes.
pub open spec fn dd_device(command: Seq<char>) -> Option<Seq<char>> {
    let w = words(command);
    if w.len() > 1 && w[0] == "dd"@ {
        value_of(w[1], "of="@)
    } else {
        None
    }
}

/// `dd of=.. bs=.. seek=..`: the byte of the device that the first byte lands on.
pub open spec fn dd_offset(command: Seq<char>) -> Option<nat> {
    let w = words(command);
    if w.len() > 3 && w[0] == "dd"@ && value_of(w[2], "bs="@) is Some && value_of(w[3], "seek="@) is Some {
        match (
            digits_value(value_of(w[2], "bs="@)->0, 10),
            digits_value(value_of(w[3], "seek="@)->0, 10),
        ) {
            (Some(bs), Some(seek)) => Some(bs * seek),
            _ => None,
        }
    } else {
        None
    }
}

/// `cat > FILE`: the file that takes what is streamed.
pub open spec fn cat_file(command: Seq<char>) -> Option<Seq<char>> {
    let w = words(command);
    if w.len() == 3 && w[0] == "cat"@ && w[1] == ">"@ {
        Some(w[2])
    } else {
        None
    }
}

/// A key in front of a value is taken off again.
pub proof fn lemma_value_of(key: Seq<char>, v: Seq<char>)
    ensures
        value_of(key + v, key) == Some(v),
{
    assert((key + v).subrange(0, key.len() as int) =~= key);
    assert((key + v).skip(key.len() as int) =~= v);
}

/// A key and a number make one word, and the number is read back.
pub proof fn lemma_keyed_number(key: Seq<char>, n: nat)
    requires
        is_word(key),
    ensures
        is_word(key + dec(n)),
        value_of(key + dec(n), key) == Some(dec(n)),
        digits_value(dec(n), 10) == Some(n),
        is_word(dec(n)),
{
    lemma_digits_plain(n, 10);
    lemma_digits_value(n, 10);
    lemma_value_of(key, dec(n));
    let w = key + dec(n);
    assert forall|k: int| 0 <= k < w.len() implies !white(#[trigger] w[k]) by {
        if k >= key.len() {
            assert(w[k] == dec(n)[k - key.len()]);
        } else {
            assert(w[k] == key[k]);
        }
    }
}

/// A stream into a file names the file.
pub proof fn lemma_cat_file(path: Seq<char>)
    requires
        is_word(path),
    ensures
        cat_file("cat > "@ + path) == Some(path),
{
    reveal_strlit("cat > ");
    reveal_strlit("cat");
    reveal_strlit(">");
    reveal_strlit(" ");
    lemma_one_word("cat"@);
    lemma_words_push("cat"@, ">"@);
    lemma_words_push("cat"@ + " "@ + ">"@, path);
    assert("cat > "@ + path =~= "cat"@ + " "@ + ">"@ + " "@ + path);
    assert(words("cat > "@ + path) =~= seq!["cat"@, ">"@, path]);
}

// -------------------------------------------------------------------------- lines

/// A text that is one line: no newline in it, and no carriage return at its end.
pub open spec fn one_line(s: Seq<char>) -> bool {
    &&& forall|k: int| 0 <= k < s.len() ==> #[trigger] s[k] != '\n'
    &&& s.len() > 0 ==> s.last() != '\r'
}

proof fn lemma_lines_shift(head: Seq<char>, rest: Seq<char>, i: int)
    requires
        0 <= i <= rest.len(),
    ensures
        lines_from(head + rest, head.len() + i) == lines_from(rest, i),
    decreases rest.len() - i,
{
    let s = head + rest;
    let cl = Class::One('\n');
    lemma_first_from(rest, cl, i);
    lemma_first_from(s, cl, head.len() + i);
    let j = first_from(rest, cl, i);
    let g = first_from(s, cl, head.len() + i);
    assert(g == head.len() + j) by {
        if g < head.len() + j {
            assert(s[g] == rest[g - head.len()]);
        }
        if g > head.len() + j {
            assert(s[head.len() + j] == rest[j]);
        }
    }
    if i < rest.len() {
        if j < rest.len() {
            lemma_lines_shift(head, rest, j + 1);
            assert(s.subrange(head.len() + i, head.len() + j) =~= rest.subrange(i, j));
        } else {
            assert(s.subrange(head.len() + i, s.len() as int) =~= rest.subrange(i, rest.len() as int));
        }
    }
}

/// A line in front, ended by a newline, is one more line in front.
pub proof fn lemma_line_in_front(a: Seq<char>, rest: Seq<char>)
    requires
        one_line(a),
    ensures
        lines(a + "\n"@ + rest) == seq![a] + lines(rest),
{
    reveal_strlit("\n");
    let s = a + "\n"@ + rest;
    let cl = Class::One('\n');
    lemma_first_from(s, cl, 0);
    let j = first_from(s, cl, 0);
    assert(s[a.len() as int] == '\n');
    assert(j == a.len()) by {
        if j < a.len() {
            assert(s[j] == a[j]);
        }
    }
    assert(s.subrange(0, j) =~= a);
    lemma_lines_shift(a + "\n"@, rest, 0);
}

/// What `printf` prints for a format of plain characters, `%s` and `\n`.
pub open spec fn printed(format: Seq<char>, args: Seq<Seq<char>>) -> Seq<char>
    decreases format.len(),
{
    if format.len() == 0 {
        seq![]
    } else if format.len() > 1 && format[0] == '%' && format[1] == 's' && args.len() > 0 {
        args[0] + printed(format.skip(2), args.skip(1))
    } else if format.len() > 1 && format[0] == '\\' && format[1] == 'n' {
        seq!['\n'] + printed(format.skip(2), args)
    } else {
        seq![format[0]] + printed(format.skip(1), args)
    }
}

/// A text with no white space at its ends is trimmed to itself.
pub proof fn lemma_trimmed(s: Seq<char>)
    requires
        s.len() > 0,
        !white(s[0]),
        !white(s.last()),
    ensures
        trim(s) == s,
{
    assert(skip_class(s, Class::White, 0) == 0);
    assert(unskip_class(s, Class::White, 0, s.len() as int) == s.len());
    assert(trim(s) =~= s);
}

} // verus!
