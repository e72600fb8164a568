//! IPv4 addresses as four octets, and their dotted form.
use crate::num::{dec, dec_string, digits_value, parse_number};
use crate::text::{slices, split, split_of, Class};
use vstd::prelude::*;
use vstd::string::*;

verus! {

/// The dotted form of an address.
pub open spec fn dotted(a: Seq<u8>) -> Seq<char> {
    dec(a[0] as nat) + "."@ + dec(a[1] as nat) + "."@ + dec(a[2] as nat) + "."@ + dec(a[3] as nat)
}

pub fn dotted_string(a: [u8; 4]) -> (r: String)
    ensures
        r@ == dotted(a@),
{
    let mut s = dec_string(a[0] as u64);
    s.append(".");
    s.append(dec_string(a[1] as u64).as_str());
    s.append(".");
    s.append(dec_string(a[2] as u64).as_str());
    s.append(".");
    s.append(dec_string(a[3] as u64).as_str());
    s
}

/// One octet: one to three digits, no leading zero, at most 255.
pub open spec fn octet(s: Seq<char>) -> Option<u8> {
    if s.len() == 0 || s.len() > 3 || (s[0] == '0' && s.len() > 1) {
        None
    } else {
        match digits_value(s, 10) {
            Some(v) if v <= 255 => Some(v as u8),
            _ => None,
        }
    }
}

/// An address: exactly four octets between dots.
pub open spec fn address(s: Seq<char>) -> Option<Seq<u8>> {
    let p = split(s, Class::One('.'));
    if p.len() == 4 && octet(p[0]) is Some && octet(p[1]) is Some && octet(p[2]) is Some && octet(p[3]) is Some {
        Some(seq![octet(p[0])->0, octet(p[1])->0, octet(p[2])->0, octet(p[3])->0])
    } else {
        None
    }
}

fn parse_octet(s: &[char]) -> (r: Option<u8>)
    ensures
        r == octet(s@),
{
    if s.len() == 0 || s.len() > 3 || (s[0] == '0' && s.len() > 1) {
        return None;
    }
    if s[0] == '+' {
        proof {
            lemma_plus_is_no_digit(s@);
        }
        return None;
    }
    match parse_number(s, 10, 255) {
        Some(v) => Some(v as u8),
        None => None,
    }
}

proof fn lemma_plus_is_no_digit(s: Seq<char>)
    requires
        s.len() > 0,
        s[0] == '+',
    ensures
        digits_value(s, 10) is None,
    decreases s.len(),
{
    if s.len() > 1 {
        lemma_plus_is_no_digit(s.drop_last());
    } else {
        assert(s.drop_last() =~= seq![]);
    }
}

pub fn parse_address(s: &[char]) -> (r: Option<[u8; 4]>)
    ensures
        match r {
            Some(a) => address(s@) == Some(a@),
            None => address(s@) is None,
        },
{
    let p = split_of(s, &Class::One('.'));
    let ghost pm = split(s@, Class::One('.'));
    assert(slices(p@) == pm && p@.len() == pm.len());
    if p.len() != 4 {
        return None;
    }
    assert(p@[0]@ == pm[0] && p@[1]@ == pm[1] && p@[2]@ == pm[2] && p@[3]@ == pm[3]);
    match (parse_octet(p[0]), parse_octet(p[1]), parse_octet(p[2]), parse_octet(p[3])) {
        (Some(a), Some(b), Some(c), Some(d)) => {
            let r: [u8; 4] = [a, b, c, d];
            assert(r@ =~= seq![a, b, c, d]);
            Some(r)
        },
        _ => None,
    }
}

} // verus!
