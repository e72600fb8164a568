//! Control4 discovery over multicast, in both dialects, because they carry
//! different halves of the answer.
//!
//! On udp/1900 controllers announce themselves in an SSDP-shaped message whose
//! USN is a readable identity (`c4:director:Living-EA1-000FFF9163CB`). On udp/1902
//! devices announce with a full SDDP record. Neither carries a firmware version.
//! Announcements are periodic and rare, so a short scan may see nothing.
use crate::num::{digit_value, is_hex_digit};
use crate::text::{
    bytes_of, contains, contains_str, eq_fold_str, from_chars, last_before, lemma_last_before, lines, lines_of, lossy,
    lossy_text, lower, opt, rfind_class, slices, split_once, split_once_of, starts_with, starts_with_str, tail, tail_of, to_chars,
    to_lower, trim, trim_both, trim_of, trimmed, utf8, Class,
};
use crate::textmap::TextMap;
use crate::transport::ipv4::{dotted, dotted_string};
use vstd::prelude::*;
use vstd::slice::slice_subrange;
use vstd::string::*;

verus! {

pub const SSDP_PORT: u16 = 1900;

pub const SDDP_PORT: u16 = 1902;

/// A device that announced itself. Everything past `ip` is best-effort: which
/// fields arrive depends on which dialect the device speaks.
#[derive(Debug)]
pub struct SddpUnit {
    pub ip: String,
    pub mac: Option<String>,
    /// `Living-EA1` from a director USN, or the SDDP `Host` field.
    pub name: Option<String>,
    /// SDDP `Type`, e.g. `c4:controller_hc800`.
    pub kind: Option<String>,
    pub manufacturer: Option<String>,
    pub model: Option<String>,
    pub driver: Option<String>,
    pub config_url: Option<String>,
    /// It is a controller running Director, not merely a device Control4 can
    /// drive.
    pub is_director: bool,
}

pub ghost struct UnitModel {
    pub ip: Seq<char>,
    pub mac: Option<Seq<char>>,
    pub name: Option<Seq<char>>,
    pub kind: Option<Seq<char>>,
    pub manufacturer: Option<Seq<char>>,
    pub model: Option<Seq<char>>,
    pub driver: Option<Seq<char>>,
    pub config_url: Option<Seq<char>>,
    pub is_director: bool,
}

impl View for SddpUnit {
    type V = UnitModel;

    open spec fn view(&self) -> UnitModel {
        UnitModel {
            ip: self.ip@,
            mac: opt(self.mac),
            name: opt(self.name),
            kind: opt(self.kind),
            manufacturer: opt(self.manufacturer),
            model: opt(self.model),
            driver: opt(self.driver),
            config_url: opt(self.config_url),
            is_director: self.is_director,
        }
    }
}

/// A unit of which only the address is known.
pub open spec fn blank_model(ip: Seq<char>) -> UnitModel {
    UnitModel {
        ip,
        mac: None,
        name: None,
        kind: None,
        manufacturer: None,
        model: None,
        driver: None,
        config_url: None,
        is_director: false,
    }
}

pub fn blank(ip: &str) -> (r: SddpUnit)
    ensures
        r@ == blank_model(ip@),
{
    SddpUnit {
        ip: String::from_str(ip),
        mac: None,
        name: None,
        kind: None,
        manufacturer: None,
        model: None,
        driver: None,
        config_url: None,
        is_director: false,
    }
}

// --------------------------------------------------------------------- searches

pub open spec fn ssdp_text() -> Seq<char> {
    "M-SEARCH * HTTP/1.1\r\nHOST: 239.255.255.250:1900\r\nMAN: \"ssdp:discover\"\r\nMX: 2\r\nST: c4:director\r\n\r\n"@
}

pub open spec fn sddp_text(from: Seq<u8>) -> Seq<char> {
    "SEARCH * SDDP/1.0\r\nHost: \""@ + dotted(from) + ":1902\"\r\n\r\n"@
}

/// The SSDP-shaped search, for `c4:director`.
pub fn ssdp_msearch() -> (r: Vec<u8>)
    ensures
        r@ == utf8(ssdp_text()),
{
    bytes_of(
        "M-SEARCH * HTTP/1.1\r\nHOST: 239.255.255.250:1900\r\nMAN: \"ssdp:discover\"\r\nMX: 2\r\nST: c4:director\r\n\r\n",
    )
}

/// SDDP's own search. `Host` must be the sender's address, not a hostname:
/// devices reply to it directly.
pub fn sddp_search(from: [u8; 4]) -> (r: Vec<u8>)
    ensures
        r@ == utf8(sddp_text(from@)),
{
    let mut s = String::from_str("SEARCH * SDDP/1.0\r\nHost: \"");
    s.append(dotted_string(from).as_str());
    s.append(":1902\"\r\n\r\n");
    bytes_of(s.as_str())
}

// ---------------------------------------------------------------------- parsing

/// The value of a header line with that name, if this line is one: the name in
/// any case, quotes and white space around the value taken off, and an empty
/// value is none.
pub open spec fn field_on(line: Seq<char>, name: Seq<char>) -> Option<Seq<char>> {
    match split_once(line, Class::One(':')) {
        None => None,
        Some((k, v)) => {
            let value = trim(trim_both(trim(v), Class::One('"')));
            if lower(trim(k)) == lower(name) && value.len() > 0 {
                Some(value)
            } else {
                None
            }
        },
    }
}

pub open spec fn field_in(ls: Seq<Seq<char>>, name: Seq<char>) -> Option<Seq<char>>
    decreases ls.len(),
{
    if ls.len() == 0 {
        None
    } else {
        match field_on(ls[0], name) {
            Some(v) => Some(v),
            None => field_in(ls.skip(1), name),
        }
    }
}

/// The first `Name: "value"` or `Name: value` of a message.
pub open spec fn field_of(msg: Seq<char>, name: Seq<char>) -> Option<Seq<char>> {
    field_in(lines(msg), name)
}

/// Pairs of characters with a colon between them.
pub open spec fn colon_pairs(s: Seq<char>) -> Seq<char>
    decreases s.len(),
{
    if s.len() <= 2 {
        s
    } else {
        s.take(2) + ":"@ + colon_pairs(s.skip(2))
    }
}

pub open spec fn all_hex(s: Seq<char>) -> bool {
    forall|i: int| 0 <= i < s.len() ==> is_hex_digit(#[trigger] s[i])
}

/// The MAC at the end of an identity string: twelve hex digits after the last
/// `-`, `_` or `:`.
pub open spec fn tail_mac(s: Seq<char>) -> Option<Seq<char>> {
    let t = tail(s, Class::Three('-', '_', ':'));
    if t.len() == 12 && all_hex(t) {
        Some(colon_pairs(lower(t)))
    } else {
        None
    }
}

/// A name without the MAC glued to its end and the mark before it. Of a name that
/// is a MAC and nothing else, nothing is left.
pub open spec fn without_mac(s: Seq<char>) -> Seq<char> {
    let i = last_before(s, Class::Three('-', '_', ':'), s.len() as int);
    if tail_mac(s) is None {
        s
    } else if i > 0 {
        s.take(i - 1)
    } else {
        seq![]
    }
}

/// A text that is not empty.
pub open spec fn some_text(s: Seq<char>) -> Option<Seq<char>> {
    if s.len() > 0 {
        Some(s)
    } else {
        None
    }
}

/// An SDDP record. The MAC is often the tail of the host name; it is then taken
/// off the name. A device saying goodbye is not present, and a record with
/// neither type nor model identifies nothing.
pub open spec fn sddp_record(text: Seq<char>, ip: Seq<char>) -> Option<UnitModel> {
    let host = field_of(text, "Host"@);
    let kind = field_of(text, "Type"@);
    let model = field_of(text, "Model"@);
    let mac = match host {
        Some(h) => tail_mac(h),
        None => None,
    };
    if starts_with(text, "NOTIFY OFFLINE"@) || (kind is None && model is None) {
        None
    } else {
        Some(
            UnitModel {
                ip,
                mac,
                name: if mac is Some {
                    some_text(without_mac(host->0))
                } else {
                    host
                },
                kind,
                manufacturer: field_of(text, "Manufacturer"@),
                model,
                driver: field_of(text, "Driver"@),
                config_url: field_of(text, "Config-URL"@),
                is_director: kind is Some && contains(kind->0, "controller"@),
            },
        )
    }
}

/// An SSDP announcement of Control4's director; its USN carries name and MAC.
pub open spec fn ssdp_record(text: Seq<char>, ip: Seq<char>) -> Option<UnitModel> {
    match field_of(text, "ST"@) {
        None => None,
        Some(st) => if !contains(st, "c4:director"@) {
            None
        } else {
            let ident = match field_of(text, "USN"@) {
                Some(usn) => Some(tail(usn, Class::One(':'))),
                None => None,
            };
            Some(
                UnitModel {
                    mac: if ident is Some {
                        tail_mac(ident->0)
                    } else {
                        None
                    },
                    name: if ident is Some {
                        some_text(without_mac(ident->0))
                    } else {
                        None
                    },
                    is_director: true,
                    ..blank_model(ip)
                },
            )
        },
    }
}

/// What one datagram says. Our own searches come back on the multicast group;
/// they are not discoveries.
pub open spec fn record(text: Seq<char>, ip: Seq<char>) -> Option<UnitModel> {
    if starts_with(text, "M-SEARCH"@) || starts_with(text, "SEARCH "@) {
        None
    } else if contains(text, "SDDP/1.0"@) {
        sddp_record(text, ip)
    } else {
        ssdp_record(text, ip)
    }
}

/// `Name: "value"` or `Name: value`, case-insensitive, quotes stripped.
pub fn field(msg: &str, name: &str) -> (r: Option<String>)
    ensures
        opt(r) == field_of(msg@, name@),
{
    let chars = to_chars(msg);
    let ls = lines_of(chars.as_slice());
    let mut i: usize = 0;
    let ghost all = slices(ls@);
    assert(all.skip(0) =~= all);
    while i < ls.len()
        invariant
            i <= ls@.len(),
            all == slices(ls@),
            field_of(msg@, name@) == field_in(all.skip(i as int), name@),
        decreases ls@.len() - i,
    {
        assert(all.skip(i as int).skip(1) =~= all.skip(i + 1));
        assert(all.skip(i as int)[0] == ls@[i as int]@);
        if let Some((k, v)) = split_once_of(ls[i], &Class::One(':')) {
            if eq_fold_str(trimmed(k), name) {
                let value: &[char] = trimmed(trim_of(trimmed(v), &Class::One('"')));
                if value.len() > 0 {
                    return Some(from_chars(value));
                }
            }
        }
        i += 1;
    }
    None
}

pub(crate) fn pair_up(s: &[char]) -> (r: String)
    ensures
        r@ == colon_pairs(s@),
{
    let mut out = String::new();
    let mut i: usize = 0;
    assert(s@.skip(0) =~= s@);
    assert(out@ + colon_pairs(s@) =~= colon_pairs(s@));
    while s.len() - i > 2
        invariant
            i <= s@.len(),
            out@ + colon_pairs(s@.skip(i as int)) == colon_pairs(s@),
        decreases s@.len() - i,
    {
        let ghost rest = s@.skip(i as int);
        let ghost start = out@;
        out.push(s[i]);
        out.push(s[i + 1]);
        out.append(":");
        assert(rest.skip(2) =~= s@.skip(i + 2));
        assert(out@ =~= start + (rest.take(2) + ":"@));
        assert(start + (rest.take(2) + ":"@ + colon_pairs(rest.skip(2))) =~= out@ + colon_pairs(rest.skip(2)));
        i += 2;
    }
    crate::text::push_chars(&mut out, slice_subrange(s, i, s.len()));
    assert(s@.subrange(i as int, s@.len() as int) =~= s@.skip(i as int));
    out
}

pub(crate) fn is_all_hex(s: &[char]) -> (r: bool)
    ensures
        r == all_hex(s@),
{
    let mut i: usize = 0;
    while i < s.len()
        invariant
            i <= s@.len(),
            forall|k: int| 0 <= k < i ==> is_hex_digit(#[trigger] s@[k]),
        decreases s@.len() - i,
    {
        if digit_value(s[i]) >= 16 {
            assert(!is_hex_digit(s@[i as int]));
            return false;
        }
        i += 1;
    }
    true
}

/// Pull a 12-hex-digit MAC off the end of an identity string.
pub fn mac_from_tail(s: &str) -> (r: Option<String>)
    ensures
        opt(r) == tail_mac(s@),
{
    let chars = to_chars(s);
    let t: &[char] = tail_of(chars.as_slice(), &Class::Three('-', '_', ':'));
    if t.len() == 12 && is_all_hex(t) {
        let low = to_lower(t);
        Some(pair_up(low.as_slice()))
    } else {
        None
    }
}

/// Drop a trailing MAC from a name, leaving what a person actually called it.
pub fn strip_mac_tail(s: &str) -> (r: String)
    ensures
        r@ == without_mac(s@),
{
    let chars = to_chars(s);
    let i: usize = rfind_class(chars.as_slice(), &Class::Three('-', '_', ':'));
    if mac_from_tail(s).is_none() {
        return String::from_str(s);
    }
    if i > 0 {
        let kept: &[char] = slice_subrange(chars.as_slice(), 0, i - 1);
        assert(kept@ =~= s@.take(i - 1));
        from_chars(kept)
    } else {
        let r = String::new();
        assert(r@ =~= seq![]);
        r
    }
}

/// A name with a MAC glued to it gives both back, whichever of the three marks
/// stands between them and however the digits are written.
pub proof fn law_a_glued_mac_comes_off(name: Seq<char>, mark: char, digits: Seq<char>)
    requires
        mark == '-' || mark == '_' || mark == ':',
        digits.len() == 12,
        all_hex(digits),
    ensures
        tail_mac(name.push(mark) + digits) == Some(colon_pairs(lower(digits))),
        without_mac(name.push(mark) + digits) == name,
        tail_mac(digits) == Some(colon_pairs(lower(digits))),
        without_mac(digits) == Seq::<char>::empty(),
{
    let cl = Class::Three('-', '_', ':');
    let s = name.push(mark) + digits;
    let i = last_before(s, cl, s.len() as int);
    lemma_last_before(s, cl, s.len() as int);
    assert(s[name.len() as int] == mark);
    assert forall|k: int| name.len() < k < s.len() implies !cl.holds(#[trigger] s[k]) by {
        assert(s[k] == digits[k - name.len() - 1]);
        assert(is_hex_digit(s[k]));
    }
    if i < name.len() + 1 {
        assert(!cl.holds(s[name.len() as int]));
    }
    if i > name.len() + 1 {
        assert(cl.holds(s[i - 1]));
    }
    assert(s.skip(i) =~= digits);
    assert(s.take(i - 1) =~= name);
    lemma_last_before(digits, cl, 12);
    let j = last_before(digits, cl, 12);
    if j > 0 {
        assert(is_hex_digit(digits[j - 1]));
    }
    assert(digits.skip(0) =~= digits);
}

fn some_string(s: String) -> (r: Option<String>)
    ensures
        opt(r) == some_text(s@),
{
    if s.as_str().is_empty() {
        None
    } else {
        Some(s)
    }
}

fn parse_sddp(text: &str, chars: &[char], ip: &str) -> (r: Option<SddpUnit>)
    requires
        chars@ == text@,
    ensures
        match r {
            Some(u) => sddp_record(text@, ip@) == Some(u@),
            None => sddp_record(text@, ip@) is None,
        },
{
    let kind = field(text, "Type");
    let model = field(text, "Model");
    if starts_with_str(chars, "NOTIFY OFFLINE") || (kind.is_none() && model.is_none()) {
        return None;
    }
    let host = field(text, "Host");
    let mac: Option<String> = match &host {
        Some(h) => mac_from_tail(h.as_str()),
        None => None,
    };
    let name: Option<String> = match host {
        Some(h) => {
            if mac.is_some() {
                some_string(strip_mac_tail(h.as_str()))
            } else {
                Some(h)
            }
        },
        None => None,
    };
    let is_director: bool = match &kind {
        Some(k) => {
            let kc = to_chars(k.as_str());
            contains_str(kc.as_slice(), "controller")
        },
        None => false,
    };
    Some(
        SddpUnit {
            ip: String::from_str(ip),
            mac,
            name,
            kind,
            manufacturer: field(text, "Manufacturer"),
            model,
            driver: field(text, "Driver"),
            config_url: field(text, "Config-URL"),
            is_director,
        },
    )
}

fn parse_ssdp(text: &str, ip: &str) -> (r: Option<SddpUnit>)
    ensures
        match r {
            Some(u) => ssdp_record(text@, ip@) == Some(u@),
            None => ssdp_record(text@, ip@) is None,
        },
{
    let st = match field(text, "ST") {
        Some(s) => s,
        None => {
            return None;
        },
    };
    let sc = to_chars(st.as_str());
    if !contains_str(sc.as_slice(), "c4:director") {
        return None;
    }
    let mut u = blank(ip);
    u.is_director = true;
    if let Some(usn) = field(text, "USN") {
        let uc = to_chars(usn.as_str());
        let ident = from_chars(tail_of(uc.as_slice(), &Class::One(':')));
        u.mac = mac_from_tail(ident.as_str());
        u.name = some_string(strip_mac_tail(ident.as_str()));
    }
    Some(u)
}

/// Turn one datagram into a unit, or `None` if it is not Control4's.
pub fn parse(text: &str, from_ip: &str) -> (r: Option<SddpUnit>)
    ensures
        match r {
            Some(u) => record(text@, from_ip@) == Some(u@),
            None => record(text@, from_ip@) is None,
        },
{
    let chars = to_chars(text);
    if starts_with_str(chars.as_slice(), "M-SEARCH") || starts_with_str(chars.as_slice(), "SEARCH ") {
        return None;
    }
    if contains_str(chars.as_slice(), "SDDP/1.0") {
        parse_sddp(text, chars.as_slice(), from_ip)
    } else {
        parse_ssdp(text, from_ip)
    }
}

// --------------------------------------------------------------------- searching

/// One search datagram: where to and what.
#[derive(Debug)]
pub struct Question {
    pub ip: [u8; 4],
    pub port: u16,
    pub bytes: Vec<u8>,
}

pub ghost struct QuestionModel {
    pub ip: Seq<u8>,
    pub port: u16,
    pub bytes: Seq<u8>,
}

impl View for Question {
    type V = QuestionModel;

    open spec fn view(&self) -> QuestionModel {
        QuestionModel { ip: self.ip@, port: self.port, bytes: self.bytes@ }
    }
}

pub open spec fn question_models(v: Seq<Question>) -> Seq<QuestionModel> {
    v.map_values(|q: Question| q@)
}

pub open spec fn ssdp_question(ip: Seq<u8>) -> QuestionModel {
    QuestionModel { ip, port: SSDP_PORT, bytes: utf8(ssdp_text()) }
}

pub open spec fn sddp_question(ip: Seq<u8>, from: Seq<u8>) -> QuestionModel {
    QuestionModel { ip, port: SDDP_PORT, bytes: utf8(sddp_text(from)) }
}

/// The multicast group of both dialects.
pub open spec fn group() -> Seq<u8> {
    seq![239u8, 255, 255, 250]
}

/// The group is asked in both dialects, and then each given address directly:
/// multicast leaves by one interface only, a unicast search is routed.
pub open spec fn all_questions(local: Seq<u8>, also: Seq<Seq<u8>>) -> Seq<QuestionModel>
    decreases also.len(),
{
    if also.len() == 0 {
        seq![ssdp_question(group()), sddp_question(group(), local)]
    } else {
        all_questions(local, also.drop_last()).push(ssdp_question(also.last())).push(
            sddp_question(also.last(), also.last()),
        )
    }
}

fn ask(out: &mut Vec<Question>, ip: [u8; 4], from: [u8; 4])
    ensures
        question_models(final(out)@) == question_models(old(out)@).push(ssdp_question(ip@)).push(
            sddp_question(ip@, from@),
        ),
{
    let ghost was = question_models(out@);
    out.push(Question { ip, port: SSDP_PORT, bytes: ssdp_msearch() });
    assert(question_models(out@) =~= was.push(ssdp_question(ip@)));
    let ghost mid = question_models(out@);
    out.push(Question { ip, port: SDDP_PORT, bytes: sddp_search(from) });
    assert(question_models(out@) =~= mid.push(sddp_question(ip@, from@)));
}

/// The datagrams of one search.
pub fn questions(local: [u8; 4], also_ask: &Vec<[u8; 4]>) -> (r: Vec<Question>)
    ensures
        question_models(r@) == all_questions(
            local@,
            also_ask@.map_values(|a: [u8; 4]| a@),
        ),
{
    let ghost also = also_ask@.map_values(|a: [u8; 4]| a@);
    let mut out: Vec<Question> = Vec::new();
    let g: [u8; 4] = [239, 255, 255, 250];
    assert(g@ =~= group());
    ask(&mut out, g, local);
    let mut i: usize = 0;
    assert(question_models(out@) =~= all_questions(local@, also.take(0)));
    while i < also_ask.len()
        invariant
            i <= also_ask@.len(),
            also == also_ask@.map_values(|a: [u8; 4]| a@),
            question_models(out@) == all_questions(local@, also.take(i as int)),
        decreases also_ask@.len() - i,
    {
        assert(also.take(i + 1).drop_last() =~= also.take(i as int));
        assert(also.take(i + 1).last() == also_ask@[i as int]@);
        ask(&mut out, also_ask[i], also_ask[i]);
        i += 1;
    }
    assert(also.take(also.len() as int) =~= also);
    out
}

pub open spec fn first_of(a: Option<Seq<char>>, b: Option<Seq<char>>) -> Option<Seq<char>> {
    if a is Some {
        a
    } else {
        b
    }
}

/// Two answers of one unit: each dialect carries fields the other does not, and
/// what was known first stays.
pub open spec fn merged(a: UnitModel, b: UnitModel) -> UnitModel {
    UnitModel {
        ip: a.ip,
        mac: first_of(a.mac, b.mac),
        name: first_of(a.name, b.name),
        kind: first_of(a.kind, b.kind),
        manufacturer: first_of(a.manufacturer, b.manufacturer),
        model: first_of(a.model, b.model),
        driver: first_of(a.driver, b.driver),
        config_url: first_of(a.config_url, b.config_url),
        is_director: a.is_director || b.is_director,
    }
}

fn first_text(a: &Option<String>, b: Option<String>) -> (r: Option<String>)
    ensures
        opt(r) == first_of(opt(*a), opt(b)),
{
    match a {
        Some(s) => Some(s.clone()),
        None => b,
    }
}

fn merge(a: &SddpUnit, b: SddpUnit) -> (r: SddpUnit)
    ensures
        r@ == merged(a@, b@),
{
    SddpUnit {
        ip: a.ip.clone(),
        mac: first_text(&a.mac, b.mac),
        name: first_text(&a.name, b.name),
        kind: first_text(&a.kind, b.kind),
        manufacturer: first_text(&a.manufacturer, b.manufacturer),
        model: first_text(&a.model, b.model),
        driver: first_text(&a.driver, b.driver),
        config_url: first_text(&a.config_url, b.config_url),
        is_director: a.is_director || b.is_director,
    }
}

pub open spec fn unit_map(m: TextMap<SddpUnit>) -> Map<Seq<char>, UnitModel> {
    m@.map_values(|u: SddpUnit| u@)
}

/// The units known after one more datagram.
pub open spec fn heard(m: Map<Seq<char>, UnitModel>, text: Seq<char>, ip: Seq<char>) -> Map<
    Seq<char>,
    UnitModel,
> {
    match record(text, ip) {
        None => m,
        Some(u) => m.insert(
            ip,
            merged(
                if m.dom().contains(ip) {
                    m[ip]
                } else {
                    blank_model(ip)
                },
                u,
            ),
        ),
    }
}

/// The units collected by a search, by address.
#[derive(Debug)]
pub struct Search {
    pub units: TextMap<SddpUnit>,
}

impl Search {
    pub fn new() -> (r: Search)
        ensures
            r.units.wf(),
            unit_map(r.units) == Map::<Seq<char>, UnitModel>::empty(),
    {
        let r = Search { units: TextMap::new() };
        assert(unit_map(r.units) =~= Map::<Seq<char>, UnitModel>::empty());
        r
    }

    /// Take in one datagram.
    pub fn hear(&mut self, datagram: &[u8], from_ip: &str)
        requires
            old(self).units.wf(),
        ensures
            final(self).units.wf(),
            unit_map(final(self).units) == heard(unit_map(old(self).units), lossy_text(datagram@), from_ip@),
    {
        let text = lossy(datagram);
        let ghost was = unit_map(self.units);
        if let Some(u) = parse(text.as_str(), from_ip) {
            let ghost um = u@;
            let known = match self.units.get(from_ip) {
                Some(k) => merge(k, u),
                None => merge(&blank(from_ip), u),
            };
            let ghost km = known@;
            self.units.insert(String::from_str(from_ip), known);
            assert(unit_map(self.units) =~= was.insert(from_ip@, km));
        }
    }
}

} // verus!
