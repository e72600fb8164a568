//! Numbers as text: what the formats print, and what they accept.
use vstd::prelude::*;
use vstd::string::*;
use crate::text::from_chars;

verus! {

// ------------------------------------------------------------------- printing

/// The character for one digit, lower case above nine.
pub open spec fn digit_char(d: int) -> char {
    if d < 10 {
        (48 + d) as char
    } else {
        (87 + d) as char
    }
}

/// The digits of `n` in the base, most significant first, with no padding.
pub open spec fn digits(n: nat, base: nat) -> Seq<char>
    decreases n,
{
    if base < 2 || n < base {
        seq![digit_char(n as int)]
    } else {
        proof {
            assert(n / base < n) by (nonlinear_arith)
                requires
                    base >= 2,
                    n >= base,
            ;
        }
        digits(n / base, base).push(digit_char((n % base) as int))
    }
}

pub open spec fn dec(n: nat) -> Seq<char> {
    digits(n, 10)
}

pub open spec fn hex(n: nat) -> Seq<char> {
    digits(n, 16)
}

/// `0x` and the hexadecimal digits.
pub open spec fn hex0x(n: nat) -> Seq<char> {
    "0x"@ + hex(n)
}

/// A signed number, with a minus sign below zero.
pub open spec fn dec_signed(n: int) -> Seq<char> {
    if n < 0 {
        "-"@ + dec((-n) as nat)
    } else {
        dec(n as nat)
    }
}

/// `width` hexadecimal digits of `n`, the most significant first.
pub open spec fn hex_fixed(n: nat, width: nat) -> Seq<char>
    decreases width,
{
    if width == 0 {
        seq![]
    } else {
        hex_fixed(n / 16, (width - 1) as nat).push(digit_char((n % 16) as int))
    }
}

pub fn digit_of(d: u8) -> (r: char)
    requires
        d < 36,
    ensures
        r == digit_char(d as int),
{
    if d < 10 {
        (48u8 + d) as char
    } else {
        (87u8 + d) as char
    }
}

fn digits_vec(n: u64, base: u64) -> (r: Vec<char>)
    requires
        2 <= base <= 36,
    ensures
        r@ == digits(n as nat, base as nat),
    decreases n,
{
    if n < base {
        let mut v: Vec<char> = Vec::new();
        v.push(digit_of(n as u8));
        assert(v@ =~= seq![digit_char(n as int)]);
        v
    } else {
        assert(n / base < n) by (nonlinear_arith)
            requires
                base >= 2,
                n >= base,
        ;
        let mut v: Vec<char> = digits_vec(n / base, base);
        v.push(digit_of((n % base) as u8));
        v
    }
}

pub fn dec_string(n: u64) -> (r: String)
    ensures
        r@ == dec(n as nat),
{
    let v = digits_vec(n, 10);
    from_chars(v.as_slice())
}

pub fn hex_string(n: u64) -> (r: String)
    ensures
        r@ == hex(n as nat),
{
    let v = digits_vec(n, 16);
    from_chars(v.as_slice())
}

pub fn hex0x_string(n: u64) -> (r: String)
    ensures
        r@ == hex0x(n as nat),
{
    let mut s: String = String::from_str("0x");
    let h: String = hex_string(n);
    s.append(h.as_str());
    s
}

pub fn dec_signed_string(n: i64) -> (r: String)
    ensures
        r@ == dec_signed(n as int),
{
    if n < 0 {
        let m: u64 = if n == i64::MIN { 9223372036854775808u64 } else { (-n) as u64 };
        let mut s: String = String::from_str("-");
        let d: String = dec_string(m);
        s.append(d.as_str());
        s
    } else {
        dec_string(n as u64)
    }
}

/// Two hexadecimal digits for one byte.
pub fn hex2_string(b: u8) -> (r: String)
    ensures
        r@ == hex_fixed(b as nat, 2),
        r@ == seq![digit_char((b / 16) as int), digit_char((b % 16) as int)],
{
    let mut s: String = String::new();
    proof {
        reveal_with_fuel(hex_fixed, 3);
        assert((b as nat / 16) % 16 == b as nat / 16);
    }
    s.push(digit_of(b / 16));
    s.push(digit_of(b % 16));
    assert(s@ =~= seq![digit_char((b / 16) as int), digit_char((b % 16) as int)]);
    assert(s@ =~= hex_fixed(b as nat, 2));
    s
}

// -------------------------------------------------------------------- reading

/// The value of one digit, or 36 for a character that is no digit in any base.
pub open spec fn digit_val(c: char) -> int {
    if '0' <= c <= '9' {
        c as int - 48
    } else if 'a' <= c <= 'z' {
        c as int - 87
    } else if 'A' <= c <= 'Z' {
        c as int - 55
    } else {
        36
    }
}

/// The value of a run of digits; `None` when some character is no digit.
pub open spec fn digits_value(s: Seq<char>, base: nat) -> Option<nat>
    decreases s.len(),
{
    if s.len() == 0 {
        Some(0)
    } else {
        match digits_value(s.drop_last(), base) {
            Some(v) if digit_val(s.last()) < base => Some(v * base + digit_val(s.last()) as nat),
            _ => None,
        }
    }
}

/// An unsigned number no larger than `max`: an optional plus sign, then at
/// least one digit.
pub open spec fn parse_unsigned(s: Seq<char>, base: nat, max: nat) -> Option<nat> {
    let body = if s.len() > 0 && s[0] == '+' { s.skip(1) } else { s };
    if body.len() == 0 {
        None
    } else {
        match digits_value(body, base) {
            Some(v) if v <= max => Some(v),
            _ => None,
        }
    }
}

/// A 64-bit signed decimal number, with an optional sign.
pub open spec fn parse_signed(s: Seq<char>) -> Option<int> {
    if s.len() > 0 && s[0] == '-' {
        match digits_value(s.skip(1), 10) {
            Some(v) if s.len() > 1 && v <= 0x8000_0000_0000_0000 => Some(-(v as int)),
            _ => None,
        }
    } else {
        match parse_unsigned(s, 10, 0x7fff_ffff_ffff_ffff) {
            Some(v) => Some(v as int),
            None => None,
        }
    }
}

pub open spec fn is_hex_digit(c: char) -> bool {
    digit_val(c) < 16
}

pub fn digit_value(c: char) -> (r: u8)
    ensures
        r == digit_val(c),
        r <= 36,
{
    if '0' <= c && c <= '9' {
        c as u8 - 48u8
    } else if 'a' <= c && c <= 'z' {
        c as u8 - 87u8
    } else if 'A' <= c && c <= 'Z' {
        c as u8 - 55u8
    } else {
        36
    }
}

proof fn lemma_digits_grow(s: Seq<char>, base: nat, i: int)
    requires
        0 <= i <= s.len(),
        base >= 1,
    ensures
        digits_value(s.take(i), base) is None ==> digits_value(s, base) is None,
        digits_value(s, base) is Some ==> digits_value(s, base)->0 >= digits_value(s.take(i), base)->0,
    decreases s.len() - i,
{
    if i == s.len() {
        assert(s.take(i) =~= s);
    } else {
        lemma_digits_grow(s, base, i + 1);
        assert(s.take(i + 1).drop_last() =~= s.take(i));
        let v = digits_value(s.take(i), base)->0;
        assert(v * base >= v) by (nonlinear_arith)
            requires
                base >= 1,
        ;
    }
}

fn digits_number(s: &[char], base: u64, max: u64) -> (r: Option<u64>)
    requires
        1 <= base <= 36,
    ensures
        match r {
            Some(v) => digits_value(s@, base as nat) == Some(v as nat) && v <= max,
            None => digits_value(s@, base as nat) is None || digits_value(s@, base as nat)->0 > max,
        },
{
    let mut acc: u64 = 0;
    let mut i: usize = 0;
    assert(s@.take(0) =~= seq![]);
    while i < s.len()
        invariant
            i <= s@.len(),
            1 <= base <= 36,
            acc <= max,
            digits_value(s@.take(i as int), base as nat) == Some(acc as nat),
        decreases s@.len() - i,
    {
        let d: u8 = digit_value(s[i]);
        assert(s@.take(i + 1).drop_last() =~= s@.take(i as int));
        proof {
            lemma_digits_grow(s@, base as nat, i + 1);
        }
        if d as u64 >= base {
            return None;
        }
        assert(acc as u128 * base as u128 <= u64::MAX as u128 * 36) by (nonlinear_arith)
            requires
                acc <= u64::MAX,
                base <= 36,
        ;
        let next: u128 = acc as u128 * base as u128 + d as u128;
        if next > max as u128 {
            return None;
        }
        acc = next as u64;
        i += 1;
    }
    assert(s@.take(s@.len() as int) =~= s@);
    Some(acc)
}

pub fn parse_number(s: &[char], base: u64, max: u64) -> (r: Option<u64>)
    requires
        1 <= base <= 36,
    ensures
        match r {
            Some(v) => parse_unsigned(s@, base as nat, max as nat) == Some(v as nat) && v <= max,
            None => parse_unsigned(s@, base as nat, max as nat) is None,
        },
{
    if s.len() > 0 && s[0] == '+' {
        if s.len() == 1 {
            return None;
        }
        let body: &[char] = vstd::slice::slice_subrange(s, 1, s.len());
        assert(body@ =~= s@.skip(1));
        digits_number(body, base, max)
    } else if s.len() == 0 {
        None
    } else {
        digits_number(s, base, max)
    }
}

pub fn parse_int(s: &[char]) -> (r: Option<i64>)
    ensures
        match r {
            Some(v) => parse_signed(s@) == Some(v as int),
            None => parse_signed(s@) is None,
        },
{
    if s.len() > 0 && s[0] == '-' {
        if s.len() == 1 {
            return None;
        }
        let body: &[char] = vstd::slice::slice_subrange(s, 1, s.len());
        assert(body@ =~= s@.skip(1));
        let r: Option<u64> = digits_number(body, 10, 0x8000_0000_0000_0000);
        match r {
            Some(v) => {
                if v == 0x8000_0000_0000_0000 {
                    Some(i64::MIN)
                } else {
                    Some(-(v as i64))
                }
            },
            None => None,
        }
    } else {
        let r: Option<u64> = parse_number(s, 10, 0x7fff_ffff_ffff_ffff);
        match r {
            Some(v) => Some(v as i64),
            None => None,
        }
    }
}

// ------------------------------------------------------------------ round trips

/// Reading the digits that were printed gives the number back.
pub proof fn lemma_digits_value(n: nat, base: nat)
    requires
        2 <= base <= 36,
    ensures
        digits_value(digits(n, base), base) == Some(n),
        digits(n, base).len() >= 1,
        digits(n, base)[0] != '+',
    decreases n,
{
    reveal_with_fuel(digits_value, 2);
    if n < base {
        assert(digits(n, base).drop_last() =~= seq![]);
        assert(0 * base + n == n);
        assert(digit_val(digits(n, base).last()) == n);
    } else {
        assert(n / base < n) by (nonlinear_arith)
            requires
                base >= 2,
                n >= base,
        ;
        lemma_digits_value(n / base, base);
        let d = digits(n / base, base);
        assert(digits(n, base).drop_last() =~= d);
        assert(n % base < base) by (nonlinear_arith)
            requires
                base >= 2,
        ;
        assert(digit_val(digits(n, base).last()) == n % base);
        assert(n == (n / base) * base + n % base) by (nonlinear_arith)
            requires
                base >= 2,
        ;
    }
}

/// A number printed in a base reads back as itself, as long as it is in range.
pub proof fn lemma_print_parse(n: nat, base: nat, max: nat)
    requires
        2 <= base <= 36,
        n <= max,
    ensures
        parse_unsigned(digits(n, base), base, max) == Some(n),
{
    lemma_digits_value(n, base);
}

/// Printed digits are letters and digits: no space among them.
pub proof fn lemma_digits_plain(n: nat, base: nat)
    requires
        2 <= base <= 36,
    ensures
        digits(n, base).len() >= 1,
        forall|k: int| 0 <= k < digits(n, base).len() ==> digit_val(#[trigger] digits(n, base)[k]) < base,
        forall|k: int| 0 <= k < digits(n, base).len() ==> !crate::text::white(#[trigger] digits(n, base)[k]),
    decreases n,
{
    if n < base {
        assert(digits(n, base) =~= seq![digit_char(n as int)]);
    } else {
        assert(n / base < n) by (nonlinear_arith)
            requires
                base >= 2,
                n >= base,
        ;
        assert(n % base < base) by (nonlinear_arith)
            requires
                base >= 2,
        ;
        lemma_digits_plain(n / base, base);
        let d = digits(n / base, base);
        assert forall|k: int| 0 <= k < digits(n, base).len() implies digit_val(#[trigger] digits(n, base)[k]) < base
            && !crate::text::white(digits(n, base)[k]) by {
            if k < d.len() {
                assert(digits(n, base)[k] == d[k]);
            }
        }
    }
}

/// Two bytes, the higher first.
pub open spec fn two_bytes(n: nat) -> Seq<u8> {
    seq![(n / 256 % 256) as u8, (n % 256) as u8]
}

} // verus!
