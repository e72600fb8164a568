//! Find Control4 boxes on the network without being told where they are.
//!
//! A freshly restored unit answers no friendly protocol, so the signal that
//! carries the search is its MAC: Control4 owns an address block, and an ARP
//! table surfaces units by hardware address whatever their host names are.
//!
//! Every table and listing is read in the spelling of three platforms. Getting
//! one of them wrong is not a degraded scan but a silent empty one.
use crate::num::{
    dec, dec_string, digit_char, hex2_string, hex_fixed, is_hex_digit, parse_number, parse_unsigned,
};
use crate::text::{
    contains, contains_str, find_chars, find_from, from_chars, head, head_of, lemma_split_end,
    lemma_split_step, lines, lines_of, lower, lower_char, opt, push_chars,
    same, slices, split, split_of, starts_with, starts_with_str, strings, strip_prefix, strip_prefix_str, tail,
    tail_of, to_chars, to_lower, trim, trimmed, words, words_of, Class,
};
use crate::textmap::{lemma_at, text_lt, TextMap};
use crate::transport::bootp::mac_text;
use crate::transport::ipv4::{address, parse_address};
use crate::transport::netboot::{lemma_mac_text, lemma_octet, mac_chars, octet_at, spelled};
use crate::transport::sddp::{all_hex, colon_pairs, is_all_hex, pair_up, SddpUnit, UnitModel};
use vstd::prelude::*;
use vstd::slice::slice_subrange;
use vstd::string::*;

verus! {

/// Control4's address block, with and without leading zeros.
pub open spec fn control4_oui(mac: Seq<char>) -> bool {
    starts_with(mac, "00:0f:ff"@) || starts_with(mac, "0:f:ff"@)
}

pub fn has_control4_oui(mac: &str) -> (r: bool)
    ensures
        r == control4_oui(mac@),
{
    let chars = to_chars(mac);
    starts_with_str(chars.as_slice(), "00:0f:ff") || starts_with_str(chars.as_slice(), "0:f:ff")
}

/// A box found on the network.
#[derive(Debug)]
pub struct Found {
    pub ip: String,
    pub mac: Option<String>,
    pub via: Vec<String>,
    pub name: Option<String>,
    pub kind: Option<String>,
    pub manufacturer: Option<String>,
    pub model: Option<String>,
    pub config_url: Option<String>,
    /// It answered as a Control4 controller, not merely as a device.
    pub is_director: bool,
}

pub ghost struct FoundModel {
    pub ip: Seq<char>,
    pub mac: Option<Seq<char>>,
    pub via: Seq<Seq<char>>,
    pub name: Option<Seq<char>>,
    pub kind: Option<Seq<char>>,
    pub manufacturer: Option<Seq<char>>,
    pub model: Option<Seq<char>>,
    pub config_url: Option<Seq<char>>,
    pub is_director: bool,
}

impl View for Found {
    type V = FoundModel;

    open spec fn view(&self) -> FoundModel {
        FoundModel {
            ip: self.ip@,
            mac: opt(self.mac),
            via: strings(self.via@),
            name: opt(self.name),
            kind: opt(self.kind),
            manufacturer: opt(self.manufacturer),
            model: opt(self.model),
            config_url: opt(self.config_url),
            is_director: self.is_director,
        }
    }
}

impl FoundModel {
    /// Control4 hardware, as opposed to something Control4 merely drives: the
    /// discovery bus carries the whole system, and a type prefix does not make a
    /// device Control4's. The address block does not lie.
    pub open spec fn is_control4(self) -> bool {
        self.is_director || (self.mac is Some && control4_oui(self.mac->0))
    }
}

impl Found {
    pub fn is_control4(&self) -> (r: bool)
        ensures
            r == self@.is_control4(),
    {
        self.is_director || match &self.mac {
            Some(m) => has_control4_oui(m.as_str()),
            None => false,
        }
    }
}

// ------------------------------------------------------------------------- MACs

/// The hexadecimal pieces of an address, two digits each, between colons; other
/// pieces are dropped.
pub open spec fn joined_octets(ps: Seq<Seq<char>>) -> Seq<char>
    decreases ps.len(),
{
    if ps.len() == 0 {
        seq![]
    } else {
        let before = joined_octets(ps.drop_last());
        match parse_unsigned(ps.last(), 16, 255) {
            None => before,
            Some(b) => if before.len() == 0 {
                hex_fixed(b, 2)
            } else {
                before + ":"@ + hex_fixed(b, 2)
            },
        }
    }
}

/// Four hexadecimal digits.
pub open spec fn quad_piece(p: Seq<char>) -> bool {
    p.len() == 4 && all_hex(p)
}

/// The dotted notation of Cisco's tables: three groups of four digits.
pub open spec fn cisco(m: Seq<char>) -> bool {
    let p = split(m, Class::One('.'));
    p.len() == 3 && quad_piece(p[0]) && quad_piece(p[1]) && quad_piece(p[2])
}

/// A MAC in lower-case colon form, out of colons, dashes or dots.
pub open spec fn normal_mac(m: Seq<char>) -> Seq<char> {
    if cisco(m) {
        let p = split(m, Class::One('.'));
        colon_pairs(lower(p[0] + p[1] + p[2]))
    } else {
        joined_octets(split(m, Class::Three('-', ':', '.')))
    }
}

/// The digits of a MAC in the dotted notation.
fn cisco_digits(m: &[char]) -> (r: Option<String>)
    ensures
        match r {
            Some(d) => cisco(m@) && d@ == split(m@, Class::One('.'))[0] + split(m@, Class::One('.'))[1] + split(
                m@,
                Class::One('.'),
            )[2],
            None => !cisco(m@),
        },
{
    let ps = split_of(m, &Class::One('.'));
    let ghost all = split(m@, Class::One('.'));
    assert(slices(ps@) == all && ps@.len() == all.len());
    if ps.len() != 3 {
        return None;
    }
    assert(all[0] == ps@[0]@ && all[1] == ps@[1]@ && all[2] == ps@[2]@);
    if ps[0].len() != 4 || !is_all_hex(ps[0]) || ps[1].len() != 4 || !is_all_hex(ps[1]) || ps[2].len() != 4
        || !is_all_hex(ps[2]) {
        return None;
    }
    let mut d = String::new();
    push_chars(&mut d, ps[0]);
    push_chars(&mut d, ps[1]);
    push_chars(&mut d, ps[2]);
    assert(d@ =~= all[0] + all[1] + all[2]);
    Some(d)
}

pub fn norm_mac(m: &[char]) -> (r: String)
    ensures
        r@ == normal_mac(m@),
{
    if let Some(d) = cisco_digits(m) {
        let low = to_lower(to_chars(d.as_str()).as_slice());
        return pair_up(low.as_slice());
    }
    let ps = split_of(m, &Class::Three('-', ':', '.'));
    let ghost all = slices(ps@);
    let mut out = String::new();
    let mut i: usize = 0;
    assert(out@ =~= joined_octets(all.take(0)));
    while i < ps.len()
        invariant
            i <= ps@.len(),
            all == slices(ps@),
            out@ == joined_octets(all.take(i as int)),
        decreases ps@.len() - i,
    {
        assert(all.take(i + 1).drop_last() =~= all.take(i as int));
        assert(all.take(i + 1).last() == ps@[i as int]@);
        if let Some(b) = parse_number(ps[i], 16, 255) {
            if out.as_str().is_empty() {
                out = hex2_string(b as u8);
            } else {
                out.append(":");
                out.append(hex2_string(b as u8).as_str());
            }
        }
        i += 1;
    }
    assert(all.take(all.len() as int) =~= all);
    out
}

/// One or two hexadecimal digits.
pub open spec fn mac_piece(p: Seq<char>) -> bool {
    p.len() <= 2 && parse_unsigned(p, 16, 255) is Some
}

/// Six such pieces between colons or dashes.
pub open spec fn six_octets(w: Seq<char>) -> bool {
    let p = split(w, Class::Two('-', ':'));
    p.len() == 6 && forall|i: int| 0 <= i < 6 ==> mac_piece(#[trigger] p[i])
}

/// A MAC in any of the notations.
pub open spec fn mac_like(w: Seq<char>) -> bool {
    six_octets(w) || cisco(w)
}

pub fn looks_like_mac(w: &[char]) -> (r: bool)
    ensures
        r == mac_like(w@),
{
    six_octets_in(w) || cisco_digits(w).is_some()
}

fn six_octets_in(w: &[char]) -> (r: bool)
    ensures
        r == six_octets(w@),
{
    let ps = split_of(w, &Class::Two('-', ':'));
    let ghost all = split(w@, Class::Two('-', ':'));
    assert(slices(ps@) == all && ps@.len() == all.len());
    if ps.len() != 6 {
        return false;
    }
    let mut i: usize = 0;
    while i < 6
        invariant
            i <= 6,
            ps@.len() == 6,
            slices(ps@) == all,
            all == split(w@, Class::Two('-', ':')),
            forall|k: int| 0 <= k < i ==> mac_piece(#[trigger] all[k]),
        decreases 6 - i,
    {
        assert(all[i as int] == ps@[i as int]@);
        if ps[i].len() > 2 || parse_number(ps[i], 16, 255).is_none() {
            assert(!mac_piece(all[i as int]));
            return false;
        }
        i += 1;
    }
    true
}

/// The dotted notation of an address, in either case.
pub open spec fn dotted_out(s: Seq<char>, m: Seq<u8>) -> bool {
    &&& s.len() == 14
    &&& m.len() == 6
    &&& octet_at(s, 0, m[0]) && octet_at(s, 2, m[1]) && s[4] == '.'
    &&& octet_at(s, 5, m[2]) && octet_at(s, 7, m[3]) && s[9] == '.'
    &&& octet_at(s, 10, m[4]) && octet_at(s, 12, m[5])
}

/// However a table writes an address, with colons, with dashes or dotted, and in
/// whichever case, it is taken for one and comes out in one form.
pub proof fn law_notations_do_not_matter(s: Seq<char>, m: Seq<u8>)
    requires
        spelled(s, m) || dotted_out(s, m),
    ensures
        mac_like(s),
        normal_mac(s) == mac_text(m),
{
    if spelled(s, m) {
        lemma_spelled_octets(s, m);
    } else {
        lemma_dotted_out(s, m);
    }
}

proof fn lemma_spelled_octets(s: Seq<char>, m: Seq<u8>)
    requires
        spelled(s, m),
    ensures
        mac_like(s),
        normal_mac(s) == mac_text(m),
{
    let two = Class::Two('-', ':');
    let three = Class::Three('-', ':', '.');
    let one = Class::One('.');
    assert forall|k: int| 0 <= k < 17 implies !one.holds(#[trigger] s[k]) by {}
    lemma_split_end(s, one, 0);
    assert(!cisco(s));
    lemma_split_step(s, two, 0, 2);
    lemma_split_step(s, two, 3, 5);
    lemma_split_step(s, two, 6, 8);
    lemma_split_step(s, two, 9, 11);
    lemma_split_step(s, two, 12, 14);
    lemma_split_end(s, two, 15);
    lemma_split_step(s, three, 0, 2);
    lemma_split_step(s, three, 3, 5);
    lemma_split_step(s, three, 6, 8);
    lemma_split_step(s, three, 9, 11);
    lemma_split_step(s, three, 12, 14);
    lemma_split_end(s, three, 15);
    let p = seq![
        s.subrange(0, 2),
        s.subrange(3, 5),
        s.subrange(6, 8),
        s.subrange(9, 11),
        s.subrange(12, 14),
        s.subrange(15, 17),
    ];
    assert(split(s, two) =~= p);
    assert(split(s, three) =~= p);
    lemma_octet(s, 0, m[0]);
    lemma_octet(s, 3, m[1]);
    lemma_octet(s, 6, m[2]);
    lemma_octet(s, 9, m[3]);
    lemma_octet(s, 12, m[4]);
    lemma_octet(s, 15, m[5]);
    assert(forall|i: int| 0 <= i < 6 ==> mac_piece(#[trigger] p[i]));
    lemma_joined(p, m);
}

proof fn lemma_joined(p: Seq<Seq<char>>, m: Seq<u8>)
    requires
        p.len() == 6,
        m.len() == 6,
        forall|i: int| 0 <= i < 6 ==> parse_unsigned(#[trigger] p[i], 16, 255) == Some(m[i] as nat),
    ensures
        joined_octets(p) == mac_text(m),
{
    reveal_with_fuel(joined_octets, 7);
    reveal_with_fuel(hex_fixed, 3);
    let p5 = p.drop_last();
    let p4 = p5.drop_last();
    let p3 = p4.drop_last();
    let p2 = p3.drop_last();
    let p1 = p2.drop_last();
    assert(p1.drop_last().len() == 0);
    assert(p1.last() == p[0] && p2.last() == p[1] && p3.last() == p[2] && p4.last() == p[3] && p5.last() == p[4]);
    assert(joined_octets(p1) == hex_fixed(m[0] as nat, 2));
    assert(joined_octets(p2) == joined_octets(p1) + ":"@ + hex_fixed(m[1] as nat, 2));
    assert(joined_octets(p3) == joined_octets(p2) + ":"@ + hex_fixed(m[2] as nat, 2));
    assert(joined_octets(p4) == joined_octets(p3) + ":"@ + hex_fixed(m[3] as nat, 2));
    assert(joined_octets(p5) == joined_octets(p4) + ":"@ + hex_fixed(m[4] as nat, 2));
    assert(joined_octets(p) == joined_octets(p5) + ":"@ + hex_fixed(m[5] as nat, 2));
}

/// A digit in lower case is the one its value prints as.
proof fn lemma_low_digits(s: Seq<char>, i: int, b: u8)
    requires
        octet_at(s, i, b),
    ensures
        lower_char(s[i]) == digit_char((b / 16) as int),
        lower_char(s[i + 1]) == digit_char((b % 16) as int),
        is_hex_digit(s[i]) && is_hex_digit(s[i + 1]),
        s[i] != '.' && s[i + 1] != '.',
{
}

proof fn lemma_six_pairs(d: Seq<char>)
    requires
        d.len() == 12,
    ensures
        colon_pairs(d) == seq![
            d[0], d[1], ':', d[2], d[3], ':', d[4], d[5], ':', d[6], d[7], ':', d[8], d[9], ':', d[10], d[11],
        ],
{
    reveal_strlit(":");
    let d5 = d.skip(2);
    let d4 = d5.skip(2);
    let d3 = d4.skip(2);
    let d2 = d3.skip(2);
    let d1 = d2.skip(2);
    assert(colon_pairs(d1) == d1);
    assert(colon_pairs(d2) =~= seq![d[8], d[9], ':', d[10], d[11]]);
    assert(colon_pairs(d3) =~= seq![d[6], d[7], ':'] + colon_pairs(d2));
    assert(colon_pairs(d4) =~= seq![d[4], d[5], ':'] + colon_pairs(d3));
    assert(colon_pairs(d5) =~= seq![d[2], d[3], ':'] + colon_pairs(d4));
    assert(colon_pairs(d) =~= seq![d[0], d[1], ':'] + colon_pairs(d5));
    assert(colon_pairs(d) =~= seq![
        d[0], d[1], ':', d[2], d[3], ':', d[4], d[5], ':', d[6], d[7], ':', d[8], d[9], ':', d[10], d[11],
    ]);
}

/// The groups of the dotted notation.
proof fn lemma_groups(s: Seq<char>, m: Seq<u8>)
    requires
        dotted_out(s, m),
    ensures
        split(s, Class::One('.')) == seq![s.subrange(0, 4), s.subrange(5, 9), s.subrange(10, 14)],
        cisco(s),
{
    let one = Class::One('.');
    lemma_low_digits(s, 0, m[0]);
    lemma_low_digits(s, 2, m[1]);
    lemma_low_digits(s, 5, m[2]);
    lemma_low_digits(s, 7, m[3]);
    lemma_low_digits(s, 10, m[4]);
    lemma_low_digits(s, 12, m[5]);
    lemma_split_step(s, one, 0, 4);
    lemma_split_step(s, one, 5, 9);
    lemma_split_end(s, one, 10);
    assert(split(s, one) =~= seq![s.subrange(0, 4), s.subrange(5, 9), s.subrange(10, 14)]);
}

proof fn lemma_dotted_out(s: Seq<char>, m: Seq<u8>)
    requires
        dotted_out(s, m),
    ensures
        mac_like(s),
        normal_mac(s) == mac_text(m),
{
    lemma_groups(s, m);
    let d = lower(s.subrange(0, 4) + s.subrange(5, 9) + s.subrange(10, 14));
    assert(d =~= seq![
        lower_char(s[0]), lower_char(s[1]), lower_char(s[2]), lower_char(s[3]), lower_char(s[5]), lower_char(s[6]),
        lower_char(s[7]), lower_char(s[8]), lower_char(s[10]), lower_char(s[11]), lower_char(s[12]), lower_char(s[13]),
    ]);
    lemma_low_digits(s, 0, m[0]);
    lemma_low_digits(s, 2, m[1]);
    lemma_low_digits(s, 5, m[2]);
    lemma_low_digits(s, 7, m[3]);
    lemma_low_digits(s, 10, m[4]);
    lemma_low_digits(s, 12, m[5]);
    lemma_six_pairs(d);
    lemma_mac_text(m);
    assert(colon_pairs(d) =~= mac_chars(m));
}

// -------------------------------------------------------------------- the ARP table

/// The first dotted quad among the pieces of a line.
pub open spec fn first_quad(ps: Seq<Seq<char>>) -> Option<Seq<char>>
    decreases ps.len(),
{
    if ps.len() == 0 {
        None
    } else if split(ps[0], Class::One('.')).len() == 4 {
        Some(ps[0])
    } else {
        first_quad(ps.skip(1))
    }
}

/// The first word that looks like a MAC.
pub open spec fn first_mac(ws: Seq<Seq<char>>) -> Option<Seq<char>>
    decreases ws.len(),
{
    if ws.len() == 0 {
        None
    } else if mac_like(ws[0]) {
        Some(ws[0])
    } else {
        first_mac(ws.skip(1))
    }
}

/// Broadcast and multicast rows are not hosts.
pub open spec fn no_host(mac: Seq<char>) -> bool {
    mac == "ff:ff:ff:ff:ff:ff"@ || mac == "00:00:00:00:00:00"@ || starts_with(mac, "01:00:5e"@)
}

/// The neighbour on one line of a table.
pub open spec fn neighbour(line: Seq<char>) -> Option<(Seq<char>, Seq<char>)> {
    match (first_quad(split(line, Class::NotDotted)), first_mac(words(line))) {
        (Some(ip), Some(mac)) => if no_host(normal_mac(mac)) {
            None
        } else {
            Some((ip, normal_mac(mac)))
        },
        _ => None,
    }
}

/// The table of a list of lines: address to MAC, a later row replacing an
/// earlier one.
pub open spec fn neighbours(ls: Seq<Seq<char>>) -> Map<Seq<char>, Seq<char>>
    decreases ls.len(),
{
    if ls.len() == 0 {
        Map::empty()
    } else {
        match neighbour(ls.last()) {
            Some((ip, mac)) => neighbours(ls.drop_last()).insert(ip, mac),
            None => neighbours(ls.drop_last()),
        }
    }
}

pub open spec fn text_map(m: TextMap<String>) -> Map<Seq<char>, Seq<char>> {
    m@.map_values(|v: String| v@)
}

fn find_quad<'a>(line: &'a [char]) -> (r: Option<&'a [char]>)
    ensures
        match r {
            Some(q) => first_quad(split(line@, Class::NotDotted)) == Some(q@),
            None => first_quad(split(line@, Class::NotDotted)) is None,
        },
{
    let ps = split_of(line, &Class::NotDotted);
    let ghost all = slices(ps@);
    let mut i: usize = 0;
    assert(all.skip(0) =~= all);
    while i < ps.len()
        invariant
            i <= ps@.len(),
            all == slices(ps@),
            first_quad(split(line@, Class::NotDotted)) == first_quad(all.skip(i as int)),
        decreases ps@.len() - i,
    {
        assert(all.skip(i as int).skip(1) =~= all.skip(i + 1));
        assert(all.skip(i as int)[0] == ps@[i as int]@);
        let parts = split_of(ps[i], &Class::One('.'));
        assert(slices(parts@).len() == parts@.len());
        if parts.len() == 4 {
            return Some(ps[i]);
        }
        i += 1;
    }
    None
}

fn find_mac<'a>(line: &'a [char]) -> (r: Option<&'a [char]>)
    ensures
        match r {
            Some(q) => first_mac(words(line@)) == Some(q@),
            None => first_mac(words(line@)) is None,
        },
{
    let ws = words_of(line);
    let ghost all = slices(ws@);
    let mut i: usize = 0;
    assert(all.skip(0) =~= all);
    while i < ws.len()
        invariant
            i <= ws@.len(),
            all == slices(ws@),
            first_mac(words(line@)) == first_mac(all.skip(i as int)),
        decreases ws@.len() - i,
    {
        assert(all.skip(i as int).skip(1) =~= all.skip(i + 1));
        assert(all.skip(i as int)[0] == ws@[i as int]@);
        if looks_like_mac(ws[i]) {
            return Some(ws[i]);
        }
        i += 1;
    }
    None
}

/// Address to MAC out of an ARP or neighbour table, in any of the three formats.
pub fn parse_arp(text: &str) -> (r: TextMap<String>)
    ensures
        r.wf(),
        text_map(r) == neighbours(lines(text@)),
{
    let chars = to_chars(text);
    let ls = lines_of(chars.as_slice());
    let ghost all = slices(ls@);
    let mut table: TextMap<String> = TextMap::new();
    let mut i: usize = 0;
    assert(text_map(table) =~= neighbours(all.take(0)));
    while i < ls.len()
        invariant
            i <= ls@.len(),
            all == slices(ls@),
            table.wf(),
            text_map(table) == neighbours(all.take(i as int)),
        decreases ls@.len() - i,
    {
        assert(all.take(i + 1).drop_last() =~= all.take(i as int));
        assert(all.take(i + 1).last() == ls@[i as int]@);
        if let (Some(ip), Some(mac)) = (find_quad(ls[i]), find_mac(ls[i])) {
            let n = norm_mac(mac);
            let nc = to_chars(n.as_str());
            let skip: bool = same(n.as_str(), "ff:ff:ff:ff:ff:ff") || same(n.as_str(), "00:00:00:00:00:00")
                || starts_with_str(nc.as_slice(), "01:00:5e");
            if !skip {
                let ghost was = text_map(table);
                let ghost value = n@;
                let key = from_chars(ip);
                let ghost k = key@;
                table.insert(key, n);
                assert(text_map(table) =~= was.insert(k, value));
            }
        }
        i += 1;
    }
    assert(all.take(all.len() as int) =~= all);
    table
}

// --------------------------------------------------------------- local addresses

pub open spec fn first_word(s: Seq<char>) -> Option<Seq<char>> {
    if words(s).len() > 0 {
        Some(words(s)[0])
    } else {
        None
    }
}

/// What stands between the first occurrence of a text and the next one.
pub open spec fn after_first(t: Seq<char>, pat: Seq<char>) -> Seq<char> {
    let rest = t.skip(find_from(t, pat, 0)->0 + pat.len());
    match find_from(rest, pat, 0) {
        Some(j) => rest.take(j),
        None => rest,
    }
}

/// Where an address would stand on a trimmed line: `inet 10.0.0.5 ...`,
/// `eth0 inet 10.0.0.5/24 ...`, or `IPv4 Address. . . : 10.0.0.5`.
pub open spec fn v4_candidate(t: Seq<char>) -> Option<Seq<char>> {
    match strip_prefix(t, "inet "@) {
        Some(r) => first_word(r),
        None => if contains(t, " inet "@) {
            first_word(after_first(t, " inet "@))
        } else if contains(t, "IPv4"@) || contains(t, "IP Address"@) {
            Some(trim(tail(t, Class::One(':'))))
        } else {
            None
        },
    }
}

/// The address on a line, its prefix length dropped.
pub open spec fn v4_on(line: Seq<char>) -> Option<Seq<u8>> {
    match v4_candidate(trim(line)) {
        Some(c) => address(trim(head(c, Class::One('/')))),
        None => None,
    }
}

pub open spec fn v4_in(ls: Seq<Seq<char>>) -> Seq<Seq<u8>>
    decreases ls.len(),
{
    if ls.len() == 0 {
        seq![]
    } else {
        match v4_on(ls.last()) {
            Some(a) => v4_in(ls.drop_last()).push(a),
            None => v4_in(ls.drop_last()),
        }
    }
}

pub open spec fn octets(v: Seq<[u8; 4]>) -> Seq<Seq<u8>> {
    v.map_values(|a: [u8; 4]| a@)
}

fn first_word_of<'a>(s: &'a [char]) -> (r: Option<&'a [char]>)
    ensures
        match r {
            Some(w) => first_word(s@) == Some(w@),
            None => first_word(s@) is None,
        },
{
    let ws = words_of(s);
    assert(slices(ws@).len() == ws@.len());
    if ws.len() > 0 {
        assert(slices(ws@)[0] == ws@[0]@);
        Some(ws[0])
    } else {
        None
    }
}

fn candidate<'a>(t: &'a [char]) -> (r: Option<&'a [char]>)
    ensures
        match r {
            Some(c) => v4_candidate(t@) == Some(c@),
            None => v4_candidate(t@) is None,
        },
{
    if let Some(rest) = strip_prefix_str(t, "inet ") {
        return first_word_of(rest);
    }
    let pat = to_chars(" inet ");
    match find_chars(t, pat.as_slice()) {
        Some(i) => {
            let rest: &'a [char] = slice_subrange(t, i + pat.len(), t.len());
            assert(rest@ =~= t@.skip(i + pat@.len()));
            match find_chars(rest, pat.as_slice()) {
                Some(j) => {
                    let cut: &'a [char] = slice_subrange(rest, 0, j);
                    assert(cut@ =~= rest@.take(j as int));
                    first_word_of(cut)
                },
                None => first_word_of(rest),
            }
        },
        None => {
            if contains_str(t, "IPv4") || contains_str(t, "IP Address") {
                Some(trimmed(tail_of(t, &Class::One(':'))))
            } else {
                None
            }
        },
    }
}

/// Every IPv4 address in the output of `ifconfig`, `ip -o addr` or `ipconfig`.
pub fn parse_v4(text: &str) -> (r: Vec<[u8; 4]>)
    ensures
        octets(r@) == v4_in(lines(text@)),
{
    let chars = to_chars(text);
    let ls = lines_of(chars.as_slice());
    let ghost all = slices(ls@);
    let mut out: Vec<[u8; 4]> = Vec::new();
    let mut i: usize = 0;
    assert(octets(out@) =~= v4_in(all.take(0)));
    while i < ls.len()
        invariant
            i <= ls@.len(),
            all == slices(ls@),
            octets(out@) == v4_in(all.take(i as int)),
        decreases ls@.len() - i,
    {
        assert(all.take(i + 1).drop_last() =~= all.take(i as int));
        assert(all.take(i + 1).last() == ls@[i as int]@);
        if let Some(c) = candidate(trimmed(ls[i])) {
            if let Some(a) = parse_address(trimmed(head_of(c, &Class::One('/')))) {
                let ghost was = out@;
                out.push(a);
                assert(octets(out@) =~= octets(was).push(a@));
            }
        }
        i += 1;
    }
    assert(all.take(all.len() as int) =~= all);
    out
}

fn same_octets(a: &[u8; 4], b: &[u8; 4]) -> (r: bool)
    ensures
        r == (a@ == b@),
{
    let r: bool = a[0] == b[0] && a[1] == b[1] && a[2] == b[2] && a[3] == b[3];
    if r {
        assert(a@ =~= b@);
    }
    r
}

/// Neither loopback nor unspecified.
pub open spec fn usable(a: Seq<u8>) -> bool {
    a[0] != 127 && a != seq![0u8, 0, 0, 0]
}

/// The usable addresses of a listing, each once, in the order first seen.
pub open spec fn usable_in(v: Seq<Seq<u8>>) -> Seq<Seq<u8>>
    decreases v.len(),
{
    if v.len() == 0 {
        seq![]
    } else {
        let before = usable_in(v.drop_last());
        if usable(v.last()) && !before.contains(v.last()) {
            before.push(v.last())
        } else {
            before
        }
    }
}

fn holds_octets(v: &Vec<[u8; 4]>, a: &[u8; 4]) -> (r: bool)
    ensures
        r == octets(v@).contains(a@),
{
    let mut i: usize = 0;
    while i < v.len()
        invariant
            i <= v@.len(),
            forall|k: int| 0 <= k < i ==> #[trigger] octets(v@)[k] != a@,
        decreases v@.len() - i,
    {
        if same_octets(&v[i], a) {
            assert(octets(v@)[i as int] == a@);
            return true;
        }
        i += 1;
    }
    false
}

/// Every local address worth searching from, out of one listing. A laptop is
/// often on several networks and the controller on exactly one, so all of them
/// are kept.
pub fn local_v4(listing: &str) -> (r: Vec<[u8; 4]>)
    ensures
        octets(r@) == usable_in(v4_in(lines(listing@))),
{
    let found = parse_v4(listing);
    let ghost all = octets(found@);
    let mut out: Vec<[u8; 4]> = Vec::new();
    let mut i: usize = 0;
    assert(octets(out@) =~= usable_in(all.take(0)));
    while i < found.len()
        invariant
            i <= found@.len(),
            all == octets(found@),
            octets(out@) == usable_in(all.take(i as int)),
        decreases found@.len() - i,
    {
        assert(all.take(i + 1).drop_last() =~= all.take(i as int));
        assert(all.take(i + 1).last() == found@[i as int]@);
        let a: [u8; 4] = found[i];
        let zero: [u8; 4] = [0, 0, 0, 0];
        assert(zero@ =~= seq![0u8, 0, 0, 0]);
        if a[0] != 127 && !same_octets(&a, &zero) && !holds_octets(&out, &a) {
            let ghost was = out@;
            out.push(a);
            assert(octets(out@) =~= octets(was).push(a@));
        }
        i += 1;
    }
    assert(all.take(all.len() as int) =~= all);
    out
}

/// The /24 networks of a list of addresses, each once, loopback left out.
pub open spec fn nets_of(v: Seq<Seq<u8>>) -> Seq<Seq<u8>>
    decreases v.len(),
{
    if v.len() == 0 {
        seq![]
    } else {
        let before = nets_of(v.drop_last());
        let net = v.last().take(3);
        if v.last()[0] != 127 && !before.contains(net) {
            before.push(net)
        } else {
            before
        }
    }
}

pub open spec fn triples(v: Seq<[u8; 3]>) -> Seq<Seq<u8>> {
    v.map_values(|a: [u8; 3]| a@)
}

fn holds_net(v: &Vec<[u8; 3]>, a: &[u8; 3]) -> (r: bool)
    ensures
        r == triples(v@).contains(a@),
{
    let mut i: usize = 0;
    while i < v.len()
        invariant
            i <= v@.len(),
            forall|k: int| 0 <= k < i ==> #[trigger] triples(v@)[k] != a@,
        decreases v@.len() - i,
    {
        if v[i][0] == a[0] && v[i][1] == a[1] && v[i][2] == a[2] {
            assert(v@[i as int]@ =~= a@);
            assert(triples(v@)[i as int] == a@);
            return true;
        }
        i += 1;
    }
    false
}

/// The /24s that these addresses are on, so that a sweep stays bounded.
pub fn local_subnets(addrs: &Vec<[u8; 4]>) -> (r: Vec<[u8; 3]>)
    ensures
        triples(r@) == nets_of(octets(addrs@)),
{
    let ghost all = octets(addrs@);
    let mut out: Vec<[u8; 3]> = Vec::new();
    let mut i: usize = 0;
    assert(triples(out@) =~= nets_of(all.take(0)));
    while i < addrs.len()
        invariant
            i <= addrs@.len(),
            all == octets(addrs@),
            triples(out@) == nets_of(all.take(i as int)),
        decreases addrs@.len() - i,
    {
        assert(all.take(i + 1).drop_last() =~= all.take(i as int));
        assert(all.take(i + 1).last() == addrs@[i as int]@);
        let a: [u8; 4] = addrs[i];
        let net: [u8; 3] = [a[0], a[1], a[2]];
        assert(net@ =~= a@.take(3));
        if a[0] != 127 && !holds_net(&out, &net) {
            let ghost was = out@;
            out.push(net);
            assert(triples(out@) =~= triples(was).push(net@));
        }
        i += 1;
    }
    assert(all.take(all.len() as int) =~= all);
    out
}

pub open spec fn host_text(net: Seq<u8>, h: int) -> Seq<char> {
    dec(net[0] as nat) + "."@ + dec(net[1] as nat) + "."@ + dec(net[2] as nat) + "."@ + dec(h as nat)
}

/// Every host of the networks, in order.
pub open spec fn hosts_of(nets: Seq<Seq<u8>>) -> Seq<Seq<char>>
    decreases nets.len(),
{
    if nets.len() == 0 {
        seq![]
    } else {
        hosts_of(nets.drop_last()) + Seq::new(254, |h: int| host_text(nets.last(), h + 1))
    }
}

/// The addresses a sweep pings. Which of them answer does not matter, only which
/// MACs appear afterwards: a unit may drop pings but still resolve.
pub fn sweep_targets(subnets: &Vec<[u8; 3]>) -> (r: Vec<String>)
    ensures
        strings(r@) == hosts_of(triples(subnets@)),
{
    let ghost all = triples(subnets@);
    let mut out: Vec<String> = Vec::new();
    let mut i: usize = 0;
    assert(strings(out@) =~= hosts_of(all.take(0)));
    while i < subnets.len()
        invariant
            i <= subnets@.len(),
            all == triples(subnets@),
            strings(out@) == hosts_of(all.take(i as int)),
        decreases subnets@.len() - i,
    {
        assert(all.take(i + 1).drop_last() =~= all.take(i as int));
        let net: [u8; 3] = subnets[i];
        let ghost m = net@;
        let ghost before = strings(out@);
        let mut h: u64 = 1;
        assert(before + Seq::new(0, |k: int| host_text(m, k + 1)) =~= before);
        while h <= 254
            invariant
                1 <= h <= 255,
                m == net@,
                strings(out@) == before + Seq::new((h - 1) as nat, |k: int| host_text(m, k + 1)),
            decreases 255 - h,
        {
            let mut s = dec_string(net[0] as u64);
            s.append(".");
            s.append(dec_string(net[1] as u64).as_str());
            s.append(".");
            s.append(dec_string(net[2] as u64).as_str());
            s.append(".");
            s.append(dec_string(h).as_str());
            let ghost was = strings(out@);
            out.push(s);
            assert(strings(out@) =~= was.push(s@));
            assert(strings(out@) =~= before + Seq::new(h as nat, |k: int| host_text(m, k + 1)));
            h += 1;
        }
        assert(all.take(i + 1).last() == m);
        i += 1;
    }
    assert(all.take(all.len() as int) =~= all);
    out
}

/// How many addresses one of the sweep's workers takes: at most 64 workers.
pub fn sweep_chunk(jobs: usize) -> (r: usize)
    ensures
        r >= 1,
        r == (if jobs == 0 {
            1
        } else {
            (jobs + 63) / 64
        }),
{
    if jobs == 0 {
        1
    } else {
        (jobs - 1) / 64 + 1
    }
}

/// The arguments of one `ping`: Windows and macOS take the timeout in
/// milliseconds, Linux in seconds, and Windows spells both flags differently.
pub open spec fn ping_words(os: Seq<char>, ip: Seq<char>, millis: nat) -> Seq<Seq<char>> {
    if os == "windows"@ {
        seq!["-n"@, "1"@, "-w"@, dec(millis), ip]
    } else if os == "macos"@ {
        seq!["-c"@, "1"@, "-W"@, dec(millis), ip]
    } else {
        seq!["-c"@, "1"@, "-W"@, dec(
            if millis == 0 {
                1
            } else {
                (millis + 999) / 1000
            },
        ), ip]
    }
}

/// `ping` for one host, spelled the way the platform spells it.
pub fn ping_args(os: &str, ip: &str, millis: u32) -> (r: Vec<String>)
    ensures
        strings(r@) == ping_words(os@, ip@, millis as nat),
{
    let windows: bool = same(os, "windows");
    let count = if windows { "-n" } else { "-c" };
    let wait = if windows { "-w" } else { "-W" };
    let time: u64 = if windows || same(os, "macos") {
        millis as u64
    } else if millis == 0 {
        1
    } else {
        (millis as u64 + 999) / 1000
    };
    let r: Vec<String> = vec![
        String::from_str(count),
        String::from_str("1"),
        String::from_str(wait),
        dec_string(time),
        String::from_str(ip),
    ];
    assert(strings(r@) =~= ping_words(os@, ip@, millis as nat));
    r
}

/// The commands that list the neighbours, the one to try first in front. `arp -a` is
/// the one spelling that every platform takes.
pub open spec fn neighbour_commands() -> Seq<Seq<Seq<char>>> {
    seq![seq!["arp"@, "-a"@], seq!["ip"@, "neigh"@]]
}

/// The commands that list the local addresses: macOS and BSD, Linux, Windows.
pub open spec fn address_commands() -> Seq<Seq<Seq<char>>> {
    seq![seq!["ifconfig"@], seq!["ip"@, "-4"@, "-o"@, "addr"@], seq!["ipconfig"@]]
}

/// The command to run next: those that brought nothing are passed over, and the first
/// that brought something is the last.
pub open spec fn next_listing(commands: Seq<Seq<Seq<char>>>, tried: int, rows: nat) -> Option<Seq<Seq<char>>> {
    if rows > 0 || tried >= commands.len() {
        None
    } else {
        Some(commands[tried])
    }
}

pub open spec fn opt_strings(v: Option<Vec<String>>) -> Option<Seq<Seq<char>>> {
    match v {
        Some(v) => Some(strings(v@)),
        None => None,
    }
}

/// The next command for the neighbour table, after so many that were run and with so
/// many rows found.
pub fn neighbour_command(tried: usize, rows: usize) -> (r: Option<Vec<String>>)
    ensures
        opt_strings(r) == next_listing(neighbour_commands(), tried as int, rows as nat),
{
    if rows > 0 || tried >= 2 {
        return None;
    }
    let v: Vec<String> = if tried == 0 {
        vec![String::from_str("arp"), String::from_str("-a")]
    } else {
        vec![String::from_str("ip"), String::from_str("neigh")]
    };
    assert(strings(v@) =~= neighbour_commands()[tried as int]);
    Some(v)
}

/// The next command for the local addresses, after so many that were run and with so
/// many addresses found.
pub fn address_command(tried: usize, found: usize) -> (r: Option<Vec<String>>)
    ensures
        opt_strings(r) == next_listing(address_commands(), tried as int, found as nat),
{
    if found > 0 || tried >= 3 {
        return None;
    }
    let v: Vec<String> = if tried == 0 {
        vec![String::from_str("ifconfig")]
    } else if tried == 1 {
        vec![String::from_str("ip"), String::from_str("-4"), String::from_str("-o"), String::from_str("addr")]
    } else {
        vec![String::from_str("ipconfig")]
    };
    assert(strings(v@) =~= address_commands()[tried as int]);
    Some(v)
}

// ------------------------------------------------------------- putting it together

/// What an answer on the discovery bus says of a box.
pub open spec fn from_unit(u: UnitModel) -> FoundModel {
    FoundModel {
        ip: u.ip,
        mac: u.mac,
        via: seq!["sddp"@],
        name: u.name,
        kind: u.kind,
        manufacturer: u.manufacturer,
        model: u.model,
        config_url: u.config_url,
        is_director: u.is_director,
    }
}

/// What the neighbour table alone says of a box.
pub open spec fn from_arp(ip: Seq<char>, mac: Seq<char>) -> FoundModel {
    FoundModel {
        ip,
        mac: Some(mac),
        via: seq!["arp"@],
        name: None,
        kind: None,
        manufacturer: None,
        model: None,
        config_url: None,
        is_director: false,
    }
}

/// An answer, with what the neighbour table adds to it: a MAC it did not carry.
pub open spec fn confirmed(f: FoundModel, mac: Seq<char>) -> FoundModel {
    FoundModel {
        mac: if f.mac is Some {
            f.mac
        } else {
            Some(mac)
        },
        via: f.via.push("arp"@),
        ..f
    }
}

/// Everything that answered, by address. An answer on the bus is proof of life;
/// an address that only the neighbour table knows counts when its MAC is
/// Control4's and it still answers, because the table remembers addresses a
/// unit no longer has.
pub open spec fn everything(
    sddp: Map<Seq<char>, UnitModel>,
    arp: Map<Seq<char>, Seq<char>>,
    alive: Seq<Seq<char>>,
) -> Map<Seq<char>, FoundModel> {
    Map::new(
        |k: Seq<char>|
            sddp.dom().contains(k) || (arp.dom().contains(k) && control4_oui(arp[k]) && alive.contains(k)),
        |k: Seq<char>|
            if !sddp.dom().contains(k) {
                from_arp(k, arp[k])
            } else if arp.dom().contains(k) {
                confirmed(from_unit(sddp[k]), arp[k])
            } else {
                from_unit(sddp[k])
            },
    )
}

/// A listing of a map's values in the order of their keys.
pub open spec fn lists(v: Seq<FoundModel>, m: Map<Seq<char>, FoundModel>, keys: Seq<Seq<char>>) -> bool {
    &&& keys.len() == v.len()
    &&& forall|i: int, j: int| 0 <= i < j < keys.len() ==> text_lt(#[trigger] keys[i], #[trigger] keys[j])
    &&& forall|i: int| 0 <= i < keys.len() ==> m.dom().contains(#[trigger] keys[i]) && v[i] == m[keys[i]]
    &&& forall|k: Seq<char>| #[trigger] m.dom().contains(k) ==> keys.contains(k)
}

pub open spec fn found_models(v: Seq<Found>) -> Seq<FoundModel> {
    v.map_values(|f: Found| f@)
}

pub open spec fn found_map(m: TextMap<Found>) -> Map<Seq<char>, FoundModel> {
    m@.map_values(|f: Found| f@)
}

fn copy_text(a: &Option<String>) -> (r: Option<String>)
    ensures
        opt(r) == opt(*a),
{
    match a {
        Some(s) => Some(s.clone()),
        None => None,
    }
}

fn found_from_unit(u: &SddpUnit) -> (r: Found)
    ensures
        r@ == from_unit(u@),
{
    let via: Vec<String> = vec![String::from_str("sddp")];
    assert(strings(via@) =~= seq!["sddp"@]);
    Found {
        ip: u.ip.clone(),
        mac: copy_text(&u.mac),
        via,
        name: copy_text(&u.name),
        kind: copy_text(&u.kind),
        manufacturer: copy_text(&u.manufacturer),
        model: copy_text(&u.model),
        config_url: copy_text(&u.config_url),
        is_director: u.is_director,
    }
}

fn confirm(f: &Found, mac: &String) -> (r: Found)
    ensures
        r@ == confirmed(f@, mac@),
{
    let mut via: Vec<String> = Vec::new();
    let ghost all = strings(f.via@);
    let mut i: usize = 0;
    assert(strings(via@) =~= all.take(0));
    while i < f.via.len()
        invariant
            i <= f.via@.len(),
            all == strings(f.via@),
            strings(via@) == all.take(i as int),
        decreases f.via@.len() - i,
    {
        let ghost was = strings(via@);
        let s = f.via[i].clone();
        via.push(s);
        assert(strings(via@) =~= was.push(s@));
        assert(all.take(i + 1) =~= all.take(i as int).push(all[i as int]));
        i += 1;
    }
    assert(all.take(all.len() as int) =~= all);
    let ghost was = strings(via@);
    let last = String::from_str("arp");
    via.push(last);
    assert(strings(via@) =~= was.push("arp"@));
    Found {
        ip: f.ip.clone(),
        mac: match &f.mac {
            Some(m) => Some(m.clone()),
            None => Some(mac.clone()),
        },
        via,
        name: copy_text(&f.name),
        kind: copy_text(&f.kind),
        manufacturer: copy_text(&f.manufacturer),
        model: copy_text(&f.model),
        config_url: copy_text(&f.config_url),
        is_director: f.is_director,
    }
}

fn found_by_arp(ip: &str, mac: &String) -> (r: Found)
    ensures
        r@ == from_arp(ip@, mac@),
{
    let via: Vec<String> = vec![String::from_str("arp")];
    assert(strings(via@) =~= seq!["arp"@]);
    Found {
        ip: String::from_str(ip),
        mac: Some(mac.clone()),
        via,
        name: None,
        kind: None,
        manufacturer: None,
        model: None,
        config_url: None,
        is_director: false,
    }
}

fn holds_text(v: &Vec<String>, s: &str) -> (r: bool)
    ensures
        r == strings(v@).contains(s@),
{
    let mut i: usize = 0;
    while i < v.len()
        invariant
            i <= v@.len(),
            forall|k: int| 0 <= k < i ==> #[trigger] strings(v@)[k] != s@,
        decreases v@.len() - i,
    {
        if same(v[i].as_str(), s) {
            assert(strings(v@)[i as int] == s@);
            return true;
        }
        i += 1;
    }
    false
}

/// The part of a table under the first keys.
spec fn under<V>(m: Map<Seq<char>, V>, keys: Seq<Seq<char>>) -> Map<Seq<char>, V> {
    Map::new(|k: Seq<char>| keys.contains(k) && m.dom().contains(k), |k: Seq<char>| m[k])
}

proof fn lemma_under_next<V>(m: Map<Seq<char>, V>, keys: Seq<Seq<char>>, i: int)
    requires
        0 <= i < keys.len(),
        m.dom().contains(keys[i]),
    ensures
        under(m, keys.take(i + 1)) == under(m, keys.take(i)).insert(keys[i], m[keys[i]]),
{
    let a = keys.take(i);
    let b = keys.take(i + 1);
    assert(b =~= a.push(keys[i]));
    assert forall|k: Seq<char>| b.contains(k) <==> (a.contains(k) || k == keys[i]) by {
        if a.contains(k) {
            let j = choose|j: int| 0 <= j < a.len() && a[j] == k;
            assert(b[j] == k);
        }
        if k == keys[i] {
            assert(b[i] == k);
        }
        if b.contains(k) && k != keys[i] {
            let j = choose|j: int| 0 <= j < b.len() && b[j] == k;
            assert(a[j] == k);
        }
    }
    assert(under(m, b) =~= under(m, a).insert(keys[i], m[keys[i]]));
}

proof fn lemma_under_all<V>(m: TextMap<V>)
    requires
        m.wf(),
    ensures
        under(m@, m.keys()) == m@,
        under(m@, m.keys().take(m.keys().len() as int)) == m@,
        under(m@, m.keys().take(0)) == Map::<Seq<char>, V>::empty(),
{
    assert(m.keys().take(m.keys().len() as int) =~= m.keys());
    assert(under(m@, m.keys()) =~= m@);
    assert(under(m@, m.keys().take(0)) =~= Map::<Seq<char>, V>::empty());
}

proof fn lemma_key_fresh<V>(m: TextMap<V>, i: int)
    requires
        m.wf(),
        0 <= i < m.keys().len(),
    ensures
        !m.keys().take(i).contains(m.keys()[i]),
{
    if m.keys().take(i).contains(m.keys()[i]) {
        let j = choose|j: int| 0 <= j < i && m.keys().take(i)[j] == m.keys()[i];
        assert(text_lt(m.keys()[j], m.keys()[i]));
        crate::textmap::lemma_lt_irreflexive(m.keys()[i]);
    }
}

/// One more row of the neighbour table changes the entry of its address and no
/// other.
proof fn lemma_everything_next(
    sddp: Map<Seq<char>, UnitModel>,
    arp: Map<Seq<char>, Seq<char>>,
    alive: Seq<Seq<char>>,
    k: Seq<char>,
    mac: Seq<char>,
)
    requires
        !arp.dom().contains(k),
    ensures
        everything(sddp, arp, alive).dom().contains(k) <==> sddp.dom().contains(k),
        sddp.dom().contains(k) ==> everything(sddp, arp, alive)[k] == from_unit(sddp[k]),
        everything(sddp, arp.insert(k, mac), alive) == (if sddp.dom().contains(k) {
            everything(sddp, arp, alive).insert(k, confirmed(from_unit(sddp[k]), mac))
        } else if control4_oui(mac) && alive.contains(k) {
            everything(sddp, arp, alive).insert(k, from_arp(k, mac))
        } else {
            everything(sddp, arp, alive)
        }),
{
    let next = everything(sddp, arp.insert(k, mac), alive);
    let was = everything(sddp, arp, alive);
    if sddp.dom().contains(k) {
        assert(next =~= was.insert(k, confirmed(from_unit(sddp[k]), mac)));
    } else if control4_oui(mac) && alive.contains(k) {
        assert(next =~= was.insert(k, from_arp(k, mac)));
    } else {
        assert(next =~= was);
    }
}

/// The bus's answers as found boxes.
fn from_search(units: &TextMap<SddpUnit>) -> (r: TextMap<Found>)
    requires
        units.wf(),
    ensures
        r.wf(),
        found_map(r) == everything(
            crate::transport::sddp::unit_map(*units),
            Map::<Seq<char>, Seq<char>>::empty(),
            seq![],
        ),
{
    let ghost sddp = crate::transport::sddp::unit_map(*units);
    let ghost keys = units.keys();
    let ghost none = Map::<Seq<char>, Seq<char>>::empty();
    let mut out: TextMap<Found> = TextMap::new();
    let mut i: usize = 0;
    proof {
        lemma_under_all(*units);
        assert(under(sddp, keys.take(0)) =~= Map::<Seq<char>, UnitModel>::empty());
        assert(found_map(out) =~= everything(under(sddp, keys.take(0)), none, seq![]));
    }
    while i < units.len()
        invariant
            units.wf(),
            i <= keys.len(),
            keys == units.keys(),
            sddp == crate::transport::sddp::unit_map(*units),
            none == Map::<Seq<char>, Seq<char>>::empty(),
            out.wf(),
            found_map(out) == everything(under(sddp, keys.take(i as int)), none, seq![]),
        decreases keys.len() - i,
    {
        let ghost was = found_map(out);
        let key = units.key_at(i);
        let u = units.value_at(i);
        let f = found_from_unit(u);
        let ghost fm = f@;
        proof {
            lemma_at(units, i as int);
            lemma_under_next(sddp, keys, i as int);
        }
        out.insert(String::from_str(key), f);
        assert(found_map(out) =~= was.insert(keys[i as int], fm));
        assert(found_map(out) =~= everything(under(sddp, keys.take(i + 1)), none, seq![]));
        i += 1;
    }
    proof {
        assert(keys.take(keys.len() as int) =~= keys);
        assert(under(sddp, keys) =~= sddp);
    }
    out
}

/// The addresses to ask directly, in the order of the table: the rows whose MAC
/// is Control4's and whose address reads as one.
pub open spec fn asked(table: Map<Seq<char>, Seq<char>>, keys: Seq<Seq<char>>) -> Seq<Seq<u8>>
    decreases keys.len(),
{
    if keys.len() == 0 {
        Seq::empty()
    } else {
        let rest = asked(table, keys.drop_last());
        match address(keys.last()) {
            Some(a) if control4_oui(table[keys.last()]) => rest.push(a),
            _ => rest,
        }
    }
}

/// Whom to ask directly as well as on the group: a multicast leaves one
/// interface, and these units are often on a subnet other than the default one.
pub fn to_ask(arp: &TextMap<String>) -> (r: Vec<[u8; 4]>)
    requires
        arp.wf(),
    ensures
        octets(r@) == asked(text_map(*arp), arp.keys()),
{
    let mut out: Vec<[u8; 4]> = Vec::new();
    let mut i: usize = 0;
    let ghost keys = arp.keys();
    let ghost table = text_map(*arp);
    assert(octets(out@) =~= asked(table, keys.take(0)));
    while i < arp.len()
        invariant
            arp.wf(),
            keys == arp.keys(),
            table == text_map(*arp),
            i <= keys.len(),
            octets(out@) == asked(table, keys.take(i as int)),
        decreases keys.len() - i,
    {
        let key = arp.key_at(i);
        let mac = arp.value_at(i);
        let ghost was = octets(out@);
        proof {
            lemma_at(arp, i as int);
            assert(keys.take(i + 1).drop_last() =~= keys.take(i as int));
            assert(keys.take(i + 1).last() == keys[i as int]);
            assert(table[keys[i as int]] == mac@);
        }
        if has_control4_oui(mac.as_str()) {
            if let Some(a) = parse_address(to_chars(key).as_slice()) {
                out.push(a);
                assert(octets(out@) =~= was.push(a@));
            }
        }
        i += 1;
    }
    assert(keys.take(keys.len() as int) =~= keys);
    out
}

/// The addresses of a table that no answer came from and whose MAC is Control4's,
/// in the order of the table.
pub open spec fn unconfirmed(
    table: Map<Seq<char>, Seq<char>>,
    answered: Set<Seq<char>>,
    keys: Seq<Seq<char>>,
) -> Seq<Seq<char>>
    decreases keys.len(),
{
    if keys.len() == 0 {
        Seq::empty()
    } else {
        let rest = unconfirmed(table, answered, keys.drop_last());
        if !answered.contains(keys.last()) && control4_oui(table[keys.last()]) {
            rest.push(keys.last())
        } else {
            rest
        }
    }
}

/// The addresses that only the neighbour table knows and whose MAC is
/// Control4's: whether they still answer is what has to be asked.
pub fn suspects(units: &TextMap<SddpUnit>, arp: &TextMap<String>) -> (r: Vec<String>)
    requires
        units.wf(),
        arp.wf(),
    ensures
        strings(r@) == unconfirmed(text_map(*arp), units@.dom(), arp.keys()),
{
    let mut out: Vec<String> = Vec::new();
    let mut i: usize = 0;
    let ghost keys = arp.keys();
    let ghost table = text_map(*arp);
    assert(strings(out@) =~= unconfirmed(table, units@.dom(), keys.take(0)));
    while i < arp.len()
        invariant
            units.wf(),
            arp.wf(),
            keys == arp.keys(),
            table == text_map(*arp),
            i <= keys.len(),
            strings(out@) == unconfirmed(table, units@.dom(), keys.take(i as int)),
        decreases keys.len() - i,
    {
        let key = arp.key_at(i);
        let mac = arp.value_at(i);
        let ghost was = strings(out@);
        proof {
            lemma_at(arp, i as int);
            assert(keys.take(i + 1).drop_last() =~= keys.take(i as int));
            assert(keys.take(i + 1).last() == keys[i as int]);
            assert(table[keys[i as int]] == mac@);
        }
        if !units.contains_key(key) && has_control4_oui(mac.as_str()) {
            let s = String::from_str(key);
            out.push(s);
            assert(strings(out@) =~= was.push(s@));
        }
        i += 1;
    }
    assert(keys.take(keys.len() as int) =~= keys);
    out
}

/// Everything that answered, in the order of its address text, including the
/// devices on the bus that are not Control4's.
pub fn discover_all(units: &TextMap<SddpUnit>, arp: &TextMap<String>, alive: &Vec<String>) -> (r: Vec<Found>)
    requires
        units.wf(),
        arp.wf(),
    ensures
        exists|keys: Seq<Seq<char>>|
            lists(
                found_models(r@),
                everything(crate::transport::sddp::unit_map(*units), text_map(*arp), strings(alive@)),
                keys,
            ),
{
    let ghost sddp = crate::transport::sddp::unit_map(*units);
    let ghost table = text_map(*arp);
    let ghost living = strings(alive@);
    let ghost keys = arp.keys();
    let mut out = from_search(units);
    let mut i: usize = 0;
    proof {
        assert(under(table, keys.take(0)) =~= Map::<Seq<char>, Seq<char>>::empty());
        assert(found_map(out) =~= everything(sddp, under(table, keys.take(0)), living));
    }
    while i < arp.len()
        invariant
            units.wf(),
            arp.wf(),
            keys == arp.keys(),
            i <= keys.len(),
            table == text_map(*arp),
            sddp == crate::transport::sddp::unit_map(*units),
            living == strings(alive@),
            out.wf(),
            found_map(out) == everything(sddp, under(table, keys.take(i as int)), living),
        decreases keys.len() - i,
    {
        let ghost was = found_map(out);
        let key = arp.key_at(i);
        let mac = arp.value_at(i);
        proof {
            lemma_at(arp, i as int);
            lemma_key_fresh(*arp, i as int);
            lemma_under_next(table, keys, i as int);
        }
        let entry: Option<Found> = match out.get(key) {
            Some(f) => Some(confirm(f, mac)),
            None => if has_control4_oui(mac.as_str()) && holds_text(alive, key) {
                Some(found_by_arp(key, mac))
            } else {
                None
            },
        };
        if let Some(f) = entry {
            let ghost fm = f@;
            out.insert(String::from_str(key), f);
            assert(found_map(out) =~= was.insert(key@, fm));
        }
        proof {
            let seen = under(table, keys.take(i as int));
            assert(!seen.dom().contains(key@));
            lemma_everything_next(sddp, seen, living, key@, mac@);
        }
        i += 1;
    }
    proof {
        assert(keys.take(keys.len() as int) =~= keys);
        assert(under(table, keys) =~= table);
    }
    into_values(out)
}

/// The values of a map in the order of their keys.
fn into_values(m: TextMap<Found>) -> (r: Vec<Found>)
    requires
        m.wf(),
    ensures
        lists(found_models(r@), found_map(m), m.keys()),
{
    let mut out: Vec<Found> = Vec::new();
    let mut i: usize = 0;
    while i < m.len()
        invariant
            m.wf(),
            i <= m.keys().len(),
            out@.len() == i,
            forall|k: int| 0 <= k < i ==> (#[trigger] out@[k])@ == found_map(m)[m.keys()[k]],
        decreases m.keys().len() - i,
    {
        proof {
            lemma_at(&m, i as int);
        }
        out.push(copy_found(m.value_at(i)));
        i += 1;
    }
    proof {
        assert forall|k: int| 0 <= k < m.keys().len() implies found_map(m).dom().contains(
            #[trigger] m.keys()[k],
        ) && found_models(out@)[k] == found_map(m)[m.keys()[k]] by {
            lemma_at(&m, k);
            assert(found_models(out@)[k] == out@[k]@);
        }
    }
    out
}

fn copy_found(f: &Found) -> (r: Found)
    ensures
        r@ == f@,
{
    let mut via: Vec<String> = Vec::new();
    let ghost all = strings(f.via@);
    let mut i: usize = 0;
    assert(strings(via@) =~= all.take(0));
    while i < f.via.len()
        invariant
            i <= f.via@.len(),
            all == strings(f.via@),
            strings(via@) == all.take(i as int),
        decreases f.via@.len() - i,
    {
        let ghost was = strings(via@);
        let s = f.via[i].clone();
        via.push(s);
        assert(strings(via@) =~= was.push(s@));
        assert(all.take(i + 1) =~= all.take(i as int).push(all[i as int]));
        i += 1;
    }
    assert(all.take(all.len() as int) =~= all);
    Found {
        ip: f.ip.clone(),
        mac: copy_text(&f.mac),
        via,
        name: copy_text(&f.name),
        kind: copy_text(&f.kind),
        manufacturer: copy_text(&f.manufacturer),
        model: copy_text(&f.model),
        config_url: copy_text(&f.config_url),
        is_director: f.is_director,
    }
}

/// Control4 hardware only: what a front end shows by default.
pub fn discover(all: Vec<Found>) -> (r: Vec<Found>)
    ensures
        found_models(r@) == found_models(all@).filter(|f: FoundModel| f.is_control4()),
{
    let ghost p = |f: FoundModel| f.is_control4();
    let ghost ms = found_models(all@);
    let mut out: Vec<Found> = Vec::new();
    let mut i: usize = 0;
    proof {
        reveal(Seq::filter);
        assert(found_models(out@) =~= ms.take(0).filter(p));
    }
    while i < all.len()
        invariant
            i <= all@.len(),
            ms == found_models(all@),
            p == (|f: FoundModel| f.is_control4()),
            found_models(out@) == ms.take(i as int).filter(p),
        decreases all@.len() - i,
    {
        proof {
            reveal(Seq::filter);
            assert(ms.take(i + 1).drop_last() =~= ms.take(i as int));
            assert(ms.take(i + 1).last() == all@[i as int]@);
        }
        if all[i].is_control4() {
            let ghost was = found_models(out@);
            let f = copy_found(&all[i]);
            out.push(f);
            assert(found_models(out@) =~= was.push(f@));
        }
        i += 1;
    }
    assert(ms.take(ms.len() as int) =~= ms);
    out
}

/// A box that answered on the bus is always listed, whatever its MAC, and the
/// neighbour table gives it the MAC that its answer did not carry.
pub proof fn law_every_answer_is_listed(
    sddp: Map<Seq<char>, UnitModel>,
    arp: Map<Seq<char>, Seq<char>>,
    alive: Seq<Seq<char>>,
    ip: Seq<char>,
)
    requires
        sddp.dom().contains(ip),
    ensures
        everything(sddp, arp, alive).dom().contains(ip),
        everything(sddp, arp, alive)[ip].mac == (if sddp[ip].mac is None && arp.dom().contains(ip) {
            Some(arp[ip])
        } else {
            sddp[ip].mac
        }),
        everything(sddp, arp, alive)[ip].is_director == sddp[ip].is_director,
{
}

/// A dead address is never listed: a box that did not answer on the bus is
/// there only if it still answers at all.
pub proof fn law_dead_addresses_are_not_listed(
    sddp: Map<Seq<char>, UnitModel>,
    arp: Map<Seq<char>, Seq<char>>,
    alive: Seq<Seq<char>>,
    ip: Seq<char>,
)
    requires
        everything(sddp, arp, alive).dom().contains(ip),
        !sddp.dom().contains(ip),
    ensures
        alive.contains(ip),
        everything(sddp, arp, alive)[ip].is_control4(),
{
}

} // verus!
