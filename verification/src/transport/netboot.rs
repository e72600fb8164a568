//! Netbooting a box that has no reachable console: whom to answer, and what.
//!
//! A Control4 U-Boot takes its server from a DHCP offer, which overrides the
//! stale one in its saved environment; answering its DISCOVER is a way in that
//! needs no cable. The wire format is the `dhcproto` crate's. The policy is
//! here, and it runs on somebody's home network: every reply is gated on one
//! client address, checked before a reply is composed.
use crate::num::{
    dec, digit_char, digit_val, digit_value, digits_value, hex_fixed, is_hex_digit, parse_unsigned, two_bytes,
};
use crate::text::{
    bytes_of, cat2, cat4, from_chars, lemma_skip_bounds, lemma_split_end, lemma_split_step, lemma_unskip_bounds,
    lemma_without, replace_char, same, split, to_chars, trim, trim_start, trim_start_of, upper, upper_char, utf8, white,
    without, Class,
};
use crate::transport::bootp::{mac_of, mac_str, mac_text, octet_of};
use crate::transport::ipv4::{dotted, dotted_string};
use dhcproto::v4::DhcpOption::{
    AddressLeaseTime, BootfileName, MessageType, ServerIdentifier, SubnetMask, TFTPServerName,
};
use dhcproto::v4::{DhcpOptions, Message, OptionCode};
use dhcproto::{Decodable, Decoder, Encodable, Encoder};
use vstd::prelude::*;
use vstd::string::*;

verus! {

/// DHCP message types.
pub const DISCOVER: u8 = 1;

pub const OFFER: u8 = 2;

pub const REQUEST: u8 = 3;

pub const ACK: u8 = 5;

pub const BOOT_REPLY: u8 = 2;

/// An hour: long enough that a slow transfer cannot renumber underneath itself,
/// short enough that a forgotten lease expires on its own.
pub const LEASE_SECS: u32 = 3600;

/// How a run is set up.
#[derive(Debug)]
pub struct Config {
    /// The only hardware address that gets an answer.
    pub mac: [u8; 6],
    /// Address to offer it.
    pub client_ip: [u8; 4],
    /// Us: where TFTP is expected.
    pub server_ip: [u8; 4],
    pub netmask: [u8; 4],
    /// The name to advertise, and the name the image is staged under.
    pub bootfile: String,
}

impl Config {
    /// The header's file field holds 128 bytes.
    pub open spec fn wf(&self) -> bool {
        utf8(self.bootfile@).len() <= 128
    }
}

// ------------------------------------------------------------------------- MACs

/// The hexadecimal digits of a text, in order.
pub open spec fn hex_digits(s: Seq<char>) -> Seq<char>
    decreases s.len(),
{
    if s.len() == 0 {
        seq![]
    } else if is_hex_digit(s.last()) {
        hex_digits(s.drop_last()).push(s.last())
    } else {
        hex_digits(s.drop_last())
    }
}

pub open spec fn byte_of(d: Seq<char>, i: int) -> u8 {
    (digit_val(d[2 * i]) * 16 + digit_val(d[2 * i + 1])) as u8
}

/// Twelve digits, whatever stands between them.
pub open spec fn loose_mac(s: Seq<char>) -> Option<Seq<u8>> {
    let d = hex_digits(s);
    if d.len() == 12 {
        Some(Seq::new(6, |i: int| byte_of(d, i)))
    } else {
        None
    }
}

proof fn lemma_hex_digits(s: Seq<char>)
    ensures
        forall|i: int| 0 <= i < hex_digits(s).len() ==> is_hex_digit(#[trigger] hex_digits(s)[i]),
    decreases s.len(),
{
    if s.len() > 0 {
        lemma_hex_digits(s.drop_last());
        let before = hex_digits(s.drop_last());
        assert forall|i: int| 0 <= i < hex_digits(s).len() implies is_hex_digit(
            #[trigger] hex_digits(s)[i],
        ) by {
            if i < before.len() {
                assert(hex_digits(s)[i] == before[i]);
            }
        }
    }
}

/// Parse a MAC written with colons, with dashes or bare.
pub fn parse_mac(s: &str) -> (r: Option<[u8; 6]>)
    ensures
        match r {
            Some(m) => loose_mac(s@) == Some(m@),
            None => loose_mac(s@) is None,
        },
{
    let chars = to_chars(s);
    let mut d: Vec<char> = Vec::new();
    let mut i: usize = 0;
    assert(d@ =~= hex_digits(chars@.take(0)));
    while i < chars.len()
        invariant
            i <= chars@.len(),
            d@ == hex_digits(chars@.take(i as int)),
        decreases chars@.len() - i,
    {
        assert(chars@.take(i + 1).drop_last() =~= chars@.take(i as int));
        if digit_value(chars[i]) < 16 {
            assert(is_hex_digit(chars@[i as int]));
            d.push(chars[i]);
        }
        i += 1;
    }
    assert(chars@.take(chars@.len() as int) =~= chars@);
    if d.len() != 12 {
        return None;
    }
    proof {
        lemma_hex_digits(s@);
    }
    let mut out: [u8; 6] = [0, 0, 0, 0, 0, 0];
    let mut k: usize = 0;
    while k < 6
        invariant
            k <= 6,
            d@.len() == 12,
            forall|j: int| 0 <= j < 12 ==> is_hex_digit(#[trigger] d@[j]),
            forall|j: int| 0 <= j < k ==> #[trigger] out@[j] == byte_of(d@, j),
        decreases 6 - k,
    {
        assert(is_hex_digit(d@[2 * k]) && is_hex_digit(d@[2 * k + 1]));
        let hi: u8 = digit_value(d[2 * k]);
        let lo: u8 = digit_value(d[2 * k + 1]);
        out[k] = hi * 16 + lo;
        k += 1;
    }
    assert(out@ =~= Seq::new(6, |i: int| byte_of(d@, i)));
    Some(out)
}

pub fn format_mac(m: &[u8; 6]) -> (r: String)
    ensures
        r@ == mac_text(m@),
{
    mac_str(m)
}

/// The two hexadecimal digits of a byte, in either case.
pub open spec fn octet_at(s: Seq<char>, i: int, b: u8) -> bool {
    digit_val(s[i]) == b / 16 && digit_val(s[i + 1]) == b % 16
}

pub open spec fn separator() -> Class {
    Class::Two(':', '-')
}

/// An address spelled out: two digits for each byte, in either case, and a colon
/// or a dash between them.
pub open spec fn spelled(s: Seq<char>, m: Seq<u8>) -> bool {
    &&& s.len() == 17
    &&& m.len() == 6
    &&& octet_at(s, 0, m[0]) && separator().holds(s[2])
    &&& octet_at(s, 3, m[1]) && separator().holds(s[5])
    &&& octet_at(s, 6, m[2]) && separator().holds(s[8])
    &&& octet_at(s, 9, m[3]) && separator().holds(s[11])
    &&& octet_at(s, 12, m[4]) && separator().holds(s[14])
    &&& octet_at(s, 15, m[5])
}

/// The digits up to and with one octet and the separator after it.
proof fn lemma_octet_digits(s: Seq<char>, i: int, b: u8)
    requires
        0 <= i,
        i + 2 <= s.len(),
        octet_at(s, i, b),
    ensures
        hex_digits(s.take(i + 2)) == hex_digits(s.take(i)).push(s[i]).push(s[i + 1]),
        i + 2 < s.len() && separator().holds(s[i + 2]) ==> hex_digits(s.take(i + 3)) == hex_digits(s.take(i + 2)),
{
    assert(s.take(i + 1).drop_last() =~= s.take(i));
    assert(s.take(i + 2).drop_last() =~= s.take(i + 1));
    assert(is_hex_digit(s.take(i + 1).last()));
    assert(hex_digits(s.take(i + 1)) == hex_digits(s.take(i)).push(s[i]));
    assert(is_hex_digit(s.take(i + 2).last()));
    if i + 2 < s.len() && separator().holds(s[i + 2]) {
        assert(s.take(i + 3).drop_last() =~= s.take(i + 2));
        assert(!is_hex_digit(s.take(i + 3).last()));
    }
}

/// Two digits are one octet.
pub proof fn lemma_octet(s: Seq<char>, i: int, b: u8)
    requires
        0 <= i,
        i + 2 <= s.len(),
        octet_at(s, i, b),
    ensures
        parse_unsigned(s.subrange(i, i + 2), 16, 255) == Some(b as nat),
        octet_of(s.subrange(i, i + 2)) == Some(b as nat),
{
    let p = s.subrange(i, i + 2);
    lemma_skip_bounds(p, Class::White, 0);
    lemma_unskip_bounds(p, Class::White, 0, 2);
    assert(!white(p[0]) && !white(p[1]));
    assert(trim(p) =~= p);
    reveal_with_fuel(digits_value, 3);
    assert(p.drop_last().drop_last() =~= seq![]);
    assert(p.drop_last().last() == p[0] && p.last() == p[1]);
}

/// Taking out what is no digit takes no digit out.
proof fn lemma_bare(s: Seq<char>)
    ensures
        hex_digits(without(s, separator())) == hex_digits(s),
    decreases s.len(),
{
    if s.len() > 0 {
        let d = s.drop_last();
        lemma_bare(d);
        if !separator().holds(s.last()) {
            assert(without(s, separator()).drop_last() =~= without(d, separator()));
        }
    }
}

/// An address that is spelled out reads as what it spells, and with an octet
/// missing as nothing. Without its separators only the looser reader takes it.
proof fn lemma_spelled(s: Seq<char>, m: Seq<u8>)
    requires
        spelled(s, m),
    ensures
        loose_mac(s) == Some(m),
        mac_of(s) == Some(m),
        loose_mac(without(s, separator())) == Some(m),
        mac_of(without(s, separator())) is None,
        loose_mac(s.take(14)) is None,
        mac_of(s.take(14)) is None,
{
    let t = s.take(14);
    let bare = without(s, separator());
    assert(hex_digits(s.take(0)) =~= seq![]);
    lemma_octet_digits(s, 0, m[0]);
    lemma_octet_digits(s, 3, m[1]);
    lemma_octet_digits(s, 6, m[2]);
    lemma_octet_digits(s, 9, m[3]);
    lemma_octet_digits(s, 12, m[4]);
    lemma_octet_digits(s, 15, m[5]);
    assert(s.take(17) =~= s);
    let d = hex_digits(s);
    assert(d =~= seq![s[0], s[1], s[3], s[4], s[6], s[7], s[9], s[10], s[12], s[13], s[15], s[16]]);
    assert(Seq::new(6, |i: int| byte_of(d, i)) =~= m);
    lemma_bare(s);
    lemma_without(s, separator());
    lemma_split_end(bare, separator(), 0);
    assert(hex_digits(t).len() == 10);
    lemma_pieces(s, m);
    lemma_short(t, m);
}

proof fn lemma_pieces(s: Seq<char>, m: Seq<u8>)
    requires
        spelled(s, m),
    ensures
        mac_of(s) == Some(m),
{
    let cl = separator();
    lemma_split_step(s, cl, 0, 2);
    lemma_split_step(s, cl, 3, 5);
    lemma_split_step(s, cl, 6, 8);
    lemma_split_step(s, cl, 9, 11);
    lemma_split_step(s, cl, 12, 14);
    lemma_split_end(s, cl, 15);
    let p = split(s, cl);
    assert(p =~= seq![
        s.subrange(0, 2),
        s.subrange(3, 5),
        s.subrange(6, 8),
        s.subrange(9, 11),
        s.subrange(12, 14),
        s.subrange(15, 17),
    ]);
    lemma_octet(s, 0, m[0]);
    lemma_octet(s, 3, m[1]);
    lemma_octet(s, 6, m[2]);
    lemma_octet(s, 9, m[3]);
    lemma_octet(s, 12, m[4]);
    lemma_octet(s, 15, m[5]);
    assert(forall|i: int| 0 <= i < 6 ==> octet_of(#[trigger] p[i]) == Some(m[i] as nat));
    assert(Seq::new(6, |i: int| octet_of(p[i])->0 as u8) =~= m);
}

proof fn lemma_short(t: Seq<char>, m: Seq<u8>)
    requires
        t.len() == 14,
        octet_at(t, 0, m[0]) && separator().holds(t[2]),
        octet_at(t, 3, m[1]) && separator().holds(t[5]),
        octet_at(t, 6, m[2]) && separator().holds(t[8]),
        octet_at(t, 9, m[3]) && separator().holds(t[11]),
        octet_at(t, 12, m[4]),
    ensures
        mac_of(t) is None,
{
    let cl = separator();
    lemma_split_step(t, cl, 0, 2);
    lemma_split_step(t, cl, 3, 5);
    lemma_split_step(t, cl, 6, 8);
    lemma_split_step(t, cl, 9, 11);
    lemma_split_end(t, cl, 12);
    assert(split(t, cl).len() == 5);
}

/// Neither case nor the mark between octets changes an octet.
proof fn lemma_octet_kept(s: Seq<char>, i: int, b: u8)
    requires
        0 <= i,
        i + 2 <= s.len(),
        octet_at(s, i, b),
    ensures
        octet_at(upper(s), i, b),
        octet_at(replace_char(s, ':', '-'), i, b),
{
    assert(upper(s)[i] == upper_char(s[i]) && upper(s)[i + 1] == upper_char(s[i + 1]));
    assert(is_hex_digit(s[i]) && is_hex_digit(s[i + 1]));
    assert(replace_char(s, ':', '-')[i] == s[i] && replace_char(s, ':', '-')[i + 1] == s[i + 1]);
}

/// A spelled address stays one in upper case and with dashes.
proof fn lemma_respelled(s: Seq<char>, m: Seq<u8>)
    requires
        spelled(s, m),
    ensures
        spelled(upper(s), m),
        spelled(replace_char(s, ':', '-'), m),
{
    lemma_octet_kept(s, 0, m[0]);
    lemma_octet_kept(s, 3, m[1]);
    lemma_octet_kept(s, 6, m[2]);
    lemma_octet_kept(s, 9, m[3]);
    lemma_octet_kept(s, 12, m[4]);
    lemma_octet_kept(s, 15, m[5]);
    let u = upper(s);
    let d = replace_char(s, ':', '-');
    assert(u[2] == s[2] && u[5] == s[5] && u[8] == s[8] && u[11] == s[11] && u[14] == s[14]);
    assert(separator().holds(d[2]) && separator().holds(d[5]) && separator().holds(d[8]) && separator().holds(d[11])
        && separator().holds(d[14]));
}

/// A printed address is spelled out.
proof fn lemma_printed(m: Seq<u8>)
    requires
        m.len() == 6,
    ensures
        spelled(mac_text(m), m),
{
    lemma_mac_text(m);
    let s = mac_chars(m);
    lemma_digits(m[0]);
    lemma_digits(m[1]);
    lemma_digits(m[2]);
    lemma_digits(m[3]);
    lemma_digits(m[4]);
    lemma_digits(m[5]);
    assert(octet_at(s, 0, m[0]) && octet_at(s, 3, m[1]) && octet_at(s, 6, m[2]));
    assert(octet_at(s, 9, m[3]) && octet_at(s, 12, m[4]) && octet_at(s, 15, m[5]));
}

proof fn lemma_digits(b: u8)
    ensures
        digit_val(digit_char((b / 16) as int)) == b / 16,
        digit_val(digit_char((b % 16) as int)) == b % 16,
{
}

/// The characters of a printed address.
pub proof fn lemma_mac_text(m: Seq<u8>)
    requires
        m.len() == 6,
    ensures
        mac_text(m) == mac_chars(m),
{
    reveal_with_fuel(hex_fixed, 3);
    reveal_strlit(":");
    assert forall|b: u8| #[trigger] hex_fixed(b as nat, 2) == seq![
        digit_char((b / 16) as int),
        digit_char((b % 16) as int),
    ] by {
        assert(b as nat / 16 % 16 == b as nat / 16);
        assert(hex_fixed(b as nat, 2) =~= seq![digit_char((b / 16) as int), digit_char((b % 16) as int)]);
    }
    assert(mac_text(m) =~= mac_chars(m));
}

pub open spec fn mac_chars(m: Seq<u8>) -> Seq<char> {
    seq![
        digit_char((m[0] / 16) as int),
        digit_char((m[0] % 16) as int),
        ':',
        digit_char((m[1] / 16) as int),
        digit_char((m[1] % 16) as int),
        ':',
        digit_char((m[2] / 16) as int),
        digit_char((m[2] % 16) as int),
        ':',
        digit_char((m[3] / 16) as int),
        digit_char((m[3] % 16) as int),
        ':',
        digit_char((m[4] / 16) as int),
        digit_char((m[4] % 16) as int),
        ':',
        digit_char((m[5] / 16) as int),
        digit_char((m[5] % 16) as int),
    ]
}

/// A printed address reads back through both readers, as it stands, in upper
/// case and with dashes. With no separators only the looser reader takes it, and
/// without its last octet neither does.
pub proof fn law_a_printed_address_reads_back(m: Seq<u8>)
    requires
        m.len() == 6,
    ensures
        loose_mac(mac_text(m)) == Some(m),
        mac_of(mac_text(m)) == Some(m),
        loose_mac(upper(mac_text(m))) == Some(m),
        mac_of(upper(mac_text(m))) == Some(m),
        loose_mac(replace_char(mac_text(m), ':', '-')) == Some(m),
        mac_of(replace_char(mac_text(m), ':', '-')) == Some(m),
        loose_mac(upper(replace_char(mac_text(m), ':', '-'))) == Some(m),
        mac_of(upper(replace_char(mac_text(m), ':', '-'))) == Some(m),
        loose_mac(without(mac_text(m), separator())) == Some(m),
        mac_of(without(mac_text(m), separator())) is None,
        loose_mac(mac_text(m).take(14)) is None,
        mac_of(mac_text(m).take(14)) is None,
{
    lemma_printed(m);
    lemma_respelled(mac_text(m), m);
    lemma_respelled(replace_char(mac_text(m), ':', '-'), m);
    lemma_spelled(mac_text(m), m);
    lemma_spelled(upper(mac_text(m)), m);
    lemma_spelled(replace_char(mac_text(m), ':', '-'), m);
    lemma_spelled(upper(replace_char(mac_text(m), ':', '-')), m);
}

pub open spec fn bootfile_for(board: Seq<char>) -> Seq<char> {
    if board == "ioxv1"@ {
        "hammer/uImage"@
    } else {
        board + "/uImage"@
    }
}

/// The name a stock bootloader is most likely to ask for already. Control4's
/// own U-Boot on the IO extender ships with one path.
pub fn default_bootfile(board: &str) -> (r: String)
    ensures
        r@ == bootfile_for(board@),
{
    if same(board, "ioxv1") {
        String::from_str("hammer/uImage")
    } else {
        cat2(board, "/uImage")
    }
}

/// The path of the image inside the directory that is served: the advertised
/// name, taken relative to it.
pub fn staged_name(bootfile: &str) -> (r: String)
    ensures
        r@ == trim_start(bootfile@, Class::One('/')),
{
    let chars = to_chars(bootfile);
    from_chars(trim_start_of(chars.as_slice(), &Class::One('/')))
}

// --------------------------------------------------------------- the wire format

/// The fields of a request that the policy looks at.
#[derive(Debug)]
pub struct DhcpRequest {
    pub xid: u32,
    pub flags: u16,
    /// As many bytes of the hardware address as the packet claims.
    pub chaddr: Vec<u8>,
    /// The message type, when there is one.
    pub kind: Option<u8>,
}

pub ghost struct RequestModel {
    pub xid: u32,
    pub flags: u16,
    pub chaddr: Seq<u8>,
    pub kind: Option<u8>,
}

impl View for DhcpRequest {
    type V = RequestModel;

    open spec fn view(&self) -> RequestModel {
        RequestModel { xid: self.xid, flags: self.flags, chaddr: self.chaddr@, kind: self.kind }
    }
}

/// A reply before it is encoded.
#[derive(Debug)]
pub struct DhcpReply {
    pub opcode: u8,
    pub xid: u32,
    pub flags: u16,
    pub yiaddr: [u8; 4],
    pub siaddr: [u8; 4],
    pub chaddr: [u8; 6],
    /// The file field of the header.
    pub fname: String,
    pub kind: u8,
    pub server_id: [u8; 4],
    pub netmask: [u8; 4],
    pub lease_secs: u32,
    pub tftp_server: Vec<u8>,
    pub bootfile: Vec<u8>,
}

pub ghost struct ReplyModel {
    pub opcode: u8,
    pub xid: u32,
    pub flags: u16,
    pub yiaddr: Seq<u8>,
    pub siaddr: Seq<u8>,
    pub chaddr: Seq<u8>,
    pub fname: Seq<char>,
    pub kind: u8,
    pub server_id: Seq<u8>,
    pub netmask: Seq<u8>,
    pub lease_secs: u32,
    pub tftp_server: Seq<u8>,
    pub bootfile: Seq<u8>,
}

impl View for DhcpReply {
    type V = ReplyModel;

    open spec fn view(&self) -> ReplyModel {
        ReplyModel {
            opcode: self.opcode,
            xid: self.xid,
            flags: self.flags,
            yiaddr: self.yiaddr@,
            siaddr: self.siaddr@,
            chaddr: self.chaddr@,
            fname: self.fname@,
            kind: self.kind,
            server_id: self.server_id@,
            netmask: self.netmask@,
            lease_secs: self.lease_secs,
            tftp_server: self.tftp_server@,
            bootfile: self.bootfile@,
        }
    }
}

/// What `dhcproto` reads out of a datagram, or nothing when it cannot.
pub uninterp spec fn dhcp_decoded(bytes: Seq<u8>) -> Option<RequestModel>;

pub open spec fn zeros(n: nat) -> Seq<u8> {
    Seq::new(n, |i: int| 0u8)
}

/// Filled up with zeros to a length.
pub open spec fn filled_to(b: Seq<u8>, n: nat) -> Seq<u8> {
    b + zeros((n - b.len()) as nat)
}

/// Four bytes, the highest first.
pub open spec fn four_bytes(n: nat) -> Seq<u8> {
    two_bytes(n / 0x1_0000) + two_bytes(n % 0x1_0000)
}

/// An option as it stands in a message: its code, a length and that many bytes. One
/// that is longer than a length can say goes on under the same code, and an empty
/// one is left out.
pub open spec fn option_bytes(code: u8, b: Seq<u8>) -> Seq<u8>
    decreases b.len(),
{
    if b.len() == 0 {
        seq![]
    } else if b.len() <= 255 {
        seq![code, b.len() as u8] + b
    } else {
        seq![code, 255u8] + b.take(255) + option_bytes(code, b.skip(255))
    }
}

/// A reply on the wire: the fixed header, the magic, and the options in the order
/// of their codes.
pub open spec fn reply_bytes(m: ReplyModel) -> Seq<u8> {
    let header = seq![m.opcode, 1u8, m.chaddr.len() as u8, 0u8] + four_bytes(m.xid as nat) + zeros(2) + two_bytes(
        m.flags as nat,
    ) + zeros(4) + m.yiaddr + m.siaddr + zeros(4) + filled_to(m.chaddr, 16) + zeros(64) + filled_to(
        utf8(m.fname),
        128,
    );
    header + seq![99u8, 130u8, 83u8, 99u8] + option_bytes(1, m.netmask) + option_bytes(
        51,
        four_bytes(m.lease_secs as nat),
    ) + option_bytes(53, seq![m.kind]) + option_bytes(54, m.server_id) + option_bytes(66, m.tftp_server)
        + option_bytes(67, m.bootfile) + seq![255u8]
}

/// The lengths that the decoder insists on: rapid commit is empty, a host name has
/// its three leading bytes, a network interface is three bytes, and each time of a
/// lease query is four.
pub open spec fn value_fits(code: u8, n: nat) -> bool {
    &&& code == 80 ==> n == 0
    &&& code == 81 ==> n >= 3
    &&& code == 94 ==> n == 3
    &&& 152 <= code <= 155 ==> n == 4
}

/// Every option from here on has a length that the decoder takes. Parts of one code
/// that follow each other are one value; `last` is the value that is being joined.
/// The walk ends at the end marker and at an option that does not fit, and a value
/// whose next part does not fit is never looked at. The decoder also stops at a value
/// it cannot read; the walk goes on there and asks the same of what follows.
pub open spec fn options_fit(b: Seq<u8>, last: Option<(u8, nat)>) -> bool
    decreases b.len(),
{
    let ended = match last {
        Some((code, n)) => value_fits(code, n),
        None => true,
    };
    if b.len() == 0 || b[0] == 255 {
        ended
    } else if b[0] == 0 {
        ended && options_fit(b.skip(1), None)
    } else {
        let whole = b.len() >= 2 && b.len() >= 2 + b[1];
        match last {
            Some((code, n)) if code == b[0] => whole ==> options_fit(
                b.skip(2 + b[1]),
                Some((code, n + b[1] as nat)),
            ),
            _ => ended && (whole ==> options_fit(b.skip(2 + b[1]), Some((b[0], b[1] as nat)))),
        }
    }
}

fn value_taken(code: u8, n: usize) -> (r: bool)
    ensures
        r == value_fits(code, n as nat),
{
    (code != 80 || n == 0) && (code != 81 || n >= 3) && (code != 94 || n == 3) && (code < 152 || code > 155 || n == 4)
}

pub open spec fn joining(last: Option<(u8, usize)>) -> Option<(u8, nat)> {
    match last {
        Some((code, n)) => Some((code, n as nat)),
        None => None,
    }
}

/// Whether the options from an index on all have lengths that the decoder takes.
fn options_taken(b: &[u8], from: usize) -> (r: bool)
    requires
        from <= b@.len(),
    ensures
        r == options_fit(b@.skip(from as int), None),
{
    let mut i: usize = from;
    let mut last: Option<(u8, usize)> = None;
    while i < b.len()
        invariant
            from <= i <= b@.len(),
            last matches Some((_, n)) ==> n <= i,
            options_fit(b@.skip(from as int), None) == options_fit(b@.skip(i as int), joining(last)),
        decreases b@.len() - i,
    {
        let ghost rest = b@.skip(i as int);
        let code: u8 = b[i];
        assert(rest[0] == code && rest.len() == b@.len() - i);
        let ended: bool = match last {
            Some((c, n)) => value_taken(c, n),
            None => true,
        };
        if code == 255 {
            return ended;
        }
        if code == 0 {
            if !ended {
                return false;
            }
            assert(rest.skip(1) =~= b@.skip(i + 1));
            last = None;
            i += 1;
        } else {
            let same: bool = match last {
                Some((c, _)) => c == code,
                None => false,
            };
            if !same && !ended {
                return false;
            }
            if b.len() - i < 2 {
                return true;
            }
            let n: usize = b[i + 1] as usize;
            assert(rest[1] == b@[i + 1]);
            if b.len() - i - 2 < n {
                return true;
            }
            assert(rest.skip(2 + n) =~= b@.skip(i + 2 + n));
            last = match last {
                Some((c, k)) => if c == code {
                    Some((c, k + n))
                } else {
                    Some((code, n))
                },
                None => Some((code, n)),
            };
            i = i + 2 + n;
        }
    }
    match last {
        Some((c, n)) => value_taken(c, n),
        None => true,
    }
}

/// A packet that the decoder takes in without fail: the header can hold the address
/// length it claims, and every option has a length that the decoder insists on.
pub open spec fn readable(pkt: Seq<u8>) -> bool {
    &&& pkt.len() > 2 ==> pkt[2] <= 16
    &&& pkt.len() >= 240 ==> options_fit(pkt.skip(240), None)
}

/// `dhcproto::v4::Message::decode`, and the fields of the message: they depend
/// on the bytes alone. A message is a whole header at least; its transaction, its
/// flags and its address stand at their places there. How the options spell the
/// message's kind is left to the name. `chaddr` panics on a claimed address length
/// over 16, which is the third byte of the packet, and a build with debug assertions
/// panics on some options of another length than theirs; such packets are left out.
#[verifier::external_body]
pub(crate) fn dhcp_decode(bytes: &[u8]) -> (r: Option<DhcpRequest>)
    requires
        bytes@.len() > 2 ==> bytes@[2] <= 16,
        bytes@.len() >= 240 ==> options_fit(bytes@.skip(240), None),
    ensures
        match r {
            Some(q) => {
                &&& dhcp_decoded(bytes@) == Some(q@)
                &&& bytes@.len() >= 240
                &&& bytes@.subrange(4, 8) == four_bytes(q.xid as nat)
                &&& bytes@.subrange(10, 12) == two_bytes(q.flags as nat)
                &&& q@.chaddr == bytes@.subrange(28, 28 + bytes@[2])
            },
            None => dhcp_decoded(bytes@) is None,
        },
{
    let m = Message::decode(&mut Decoder::new(bytes)).ok()?;
    let kind = match m.opts().get(OptionCode::MessageType) {
        Some(MessageType(t)) => Some(u8::from(*t)),
        _ => None,
    };
    Some(DhcpRequest { xid: m.xid(), flags: m.flags().into(), chaddr: m.chaddr().to_vec(), kind })
}

/// A kind of message by its number, as it is shown.
pub open spec fn kind_shown(kind: u8) -> Seq<char> {
    if kind == 1 {
        "Discover"@
    } else if kind == 2 {
        "Offer"@
    } else if kind == 3 {
        "Request"@
    } else if kind == 4 {
        "Decline"@
    } else if kind == 5 {
        "Ack"@
    } else if kind == 6 {
        "Nak"@
    } else if kind == 7 {
        "Release"@
    } else if kind == 8 {
        "Inform"@
    } else if kind == 9 {
        "ForceRenew"@
    } else if kind == 10 {
        "LeaseQuery"@
    } else if kind == 11 {
        "LeaseUnassigned"@
    } else if kind == 12 {
        "LeaseUnknown"@
    } else if kind == 13 {
        "LeaseActive"@
    } else if kind == 14 {
        "BulkLeaseQuery"@
    } else if kind == 15 {
        "LeaseQueryDone"@
    } else if kind == 16 {
        "ActiveLeaseQuery"@
    } else if kind == 17 {
        "LeaseQueryStatus"@
    } else if kind == 18 {
        "Tls"@
    } else {
        "Unknown("@ + dec(kind as nat) + ")"@
    }
}

/// `dhcproto::v4::MessageType::from` and its derived `Debug`: the name of the kind that
/// has the number, and the number itself where none has it.
#[verifier::external_body]
pub(crate) fn show_kind(kind: u8) -> (r: String)
    ensures
        r@ == kind_shown(kind),
{
    format!("{:?}", dhcproto::v4::MessageType::from(kind))
}

/// `dhcproto::v4::Message::default`, its setters and `encode`: the bytes of the
/// reply, without fail. The one field that starts at random, the transaction, is
/// set; addresses that a reply does not hold are 0.0.0.0. The file field panics
/// over 128 bytes, which is left out.
#[verifier::external_body]
pub(crate) fn dhcp_encode(m: DhcpReply) -> (r: Result<Vec<u8>, String>)
    requires
        utf8(m.fname@).len() <= 128,
    ensures
        r is Ok && r->Ok_0@ == reply_bytes(m@),
{
    let mut d = Message::default();
    d.set_opcode(m.opcode.into()).set_flags(m.flags.into()).set_xid(m.xid);
    d.set_yiaddr(m.yiaddr).set_siaddr(m.siaddr).set_chaddr(&m.chaddr).set_fname_str(&m.fname);
    d.set_opts(DhcpOptions::from_iter([
        MessageType(m.kind.into()),
        ServerIdentifier(m.server_id.into()),
        SubnetMask(m.netmask.into()),
        AddressLeaseTime(m.lease_secs),
        TFTPServerName(m.tftp_server),
        BootfileName(m.bootfile),
    ]));
    let mut out = Vec::new();
    d.encode(&mut Encoder::new(&mut out)).map(|_| out).map_err(|e| e.to_string())
}

// --------------------------------------------------------------------- the policy

/// The reply to a request: our address goes where U-Boot reads its server, the
/// boot file into the header as well as the option, and there is no router:
/// nothing off the subnet is needed.
pub open spec fn reply_model(cfg: &Config, q: RequestModel, kind: u8) -> ReplyModel {
    ReplyModel {
        opcode: BOOT_REPLY,
        xid: q.xid,
        flags: q.flags,
        yiaddr: cfg.client_ip@,
        siaddr: cfg.server_ip@,
        chaddr: cfg.mac@,
        fname: cfg.bootfile@,
        kind,
        server_id: cfg.server_ip@,
        netmask: cfg.netmask@,
        lease_secs: LEASE_SECS,
        tftp_server: utf8(dotted(cfg.server_ip@)),
        bootfile: utf8(cfg.bootfile@),
    }
}

/// Compose the reply to one request.
pub fn build_reply(cfg: &Config, req: &DhcpRequest, kind: u8) -> (r: DhcpReply)
    ensures
        r@ == reply_model(cfg, req@, kind),
{
    DhcpReply {
        opcode: BOOT_REPLY,
        xid: req.xid,
        flags: req.flags,
        yiaddr: cfg.client_ip,
        siaddr: cfg.server_ip,
        chaddr: cfg.mac,
        fname: cfg.bootfile.clone(),
        kind,
        server_id: cfg.server_ip,
        netmask: cfg.netmask,
        lease_secs: LEASE_SECS,
        tftp_server: bytes_of(dotted_string(cfg.server_ip).as_str()),
        bootfile: bytes_of(cfg.bootfile.as_str()),
    }
}

/// What a request is worth.
#[derive(Debug, Clone, Copy, PartialEq, Eq, Structural)]
pub enum Verdict {
    /// From some other machine: counted, never answered.
    NotOurs,
    /// From our box, but no DHCP message.
    Untyped,
    /// From our box, and nothing a bootloader needs from us.
    Silent(u8),
    /// Answer what was seen with that kind.
    Answer { saw: u8, kind: u8 },
}

/// Only the one box is answered: a DISCOVER with an offer, a REQUEST with an
/// acknowledgement.
pub open spec fn verdict_of(mac: Seq<u8>, q: RequestModel) -> Verdict {
    if q.chaddr != mac {
        Verdict::NotOurs
    } else {
        match q.kind {
            None => Verdict::Untyped,
            Some(k) => if k == DISCOVER {
                Verdict::Answer { saw: k, kind: OFFER }
            } else if k == REQUEST {
                Verdict::Answer { saw: k, kind: ACK }
            } else {
                Verdict::Silent(k)
            },
        }
    }
}

fn is_mac(v: &Vec<u8>, mac: &[u8; 6]) -> (r: bool)
    ensures
        r == (v@ == mac@),
{
    if v.len() != 6 {
        return false;
    }
    let r: bool = v[0] == mac[0] && v[1] == mac[1] && v[2] == mac[2] && v[3] == mac[3] && v[4] == mac[4] && v[5]
        == mac[5];
    if r {
        assert(v@ =~= mac@);
    }
    r
}

pub fn judge(mac: &[u8; 6], req: &DhcpRequest) -> (r: Verdict)
    ensures
        r == verdict_of(mac@, req@),
{
    if !is_mac(&req.chaddr, mac) {
        return Verdict::NotOurs;
    }
    match req.kind {
        None => Verdict::Untyped,
        Some(k) => {
            if k == DISCOVER {
                Verdict::Answer { saw: k, kind: OFFER }
            } else if k == REQUEST {
                Verdict::Answer { saw: k, kind: ACK }
            } else {
                Verdict::Silent(k)
            }
        },
    }
}

/// What to do with one datagram.
#[derive(Debug)]
pub enum DhcpTurn {
    /// Not a message of ours to speak of.
    Nothing,
    /// Somebody else's message.
    Ignored,
    /// Our box, nothing to say.
    Silent(u8),
    /// Broadcast these bytes.
    Reply { saw: u8, kind: u8, bytes: Vec<u8> },
    /// The reply could not be encoded.
    Failed(String),
}

/// A reply that could not be sent.
pub fn unsent(kind: u8, why: &str) -> (r: String)
    ensures
        r@ == "sending a "@ + kind_shown(kind) + ": "@ + why@,
{
    cat4("sending a ", show_kind(kind).as_str(), ": ", why)
}

/// Take in one datagram: decode it, filter on the one address, and compose the
/// answer. A packet that the decoder would not survive is nothing.
pub fn answer(cfg: &Config, pkt: &[u8]) -> (r: DhcpTurn)
    requires
        cfg.wf(),
    ensures
        if !readable(pkt@) || dhcp_decoded(pkt@) is None {
            r is Nothing
        } else {
            match verdict_of(cfg.mac@, dhcp_decoded(pkt@)->0) {
                Verdict::NotOurs => r is Ignored,
                Verdict::Untyped => r is Nothing,
                Verdict::Silent(k) => r == DhcpTurn::Silent(k),
                Verdict::Answer { saw, kind } => r matches DhcpTurn::Reply { saw: s, kind: k, bytes } && s == saw
                    && k == kind && bytes@ == reply_bytes(reply_model(cfg, dhcp_decoded(pkt@)->0, kind)),
            }
        },
        !(r is Nothing) ==> pkt@.len() >= 240,
        r is Reply || r is Silent ==> pkt@.subrange(28, 28 + pkt@[2]) == cfg.mac@,
        r is Ignored ==> pkt@.subrange(28, 28 + pkt@[2]) != cfg.mac@,
        r matches DhcpTurn::Reply { bytes, .. } ==> bytes@.subrange(4, 8) == pkt@.subrange(4, 8),
{
    if pkt.len() > 2 && pkt[2] > 16 {
        return DhcpTurn::Nothing;
    }
    if pkt.len() >= 240 && !options_taken(pkt, 240) {
        return DhcpTurn::Nothing;
    }
    let req = match dhcp_decode(pkt) {
        Some(q) => q,
        None => {
            return DhcpTurn::Nothing;
        },
    };
    match judge(&cfg.mac, &req) {
        Verdict::NotOurs => DhcpTurn::Ignored,
        Verdict::Untyped => DhcpTurn::Nothing,
        Verdict::Silent(k) => DhcpTurn::Silent(k),
        Verdict::Answer { saw, kind } => match dhcp_encode(build_reply(cfg, &req, kind)) {
            Ok(bytes) => DhcpTurn::Reply { saw, kind, bytes },
            Err(e) => {
                let name = if kind == OFFER { "Offer" } else { "Ack" };
                DhcpTurn::Failed(cat4("encoding a ", name, ": ", e.as_str()))
            },
        },
    }
}

/// A packet from any other machine is never answered, whatever else it says.
pub proof fn law_only_one_machine_is_answered(cfg: &Config, q: RequestModel)
    ensures
        verdict_of(cfg.mac@, q) is Answer ==> q.chaddr == cfg.mac@,
        q.chaddr != cfg.mac@ ==> verdict_of(cfg.mac@, q) is NotOurs,
{
}

/// Every reply carries our address where U-Boot reads its server, brings the
/// request's id back, and goes to the one box, down to the bytes on the wire.
pub proof fn law_the_offer_names_us_as_the_server(cfg: &Config, q: RequestModel, kind: u8)
    ensures
        reply_model(cfg, q, kind).siaddr == cfg.server_ip@,
        reply_model(cfg, q, kind).server_id == cfg.server_ip@,
        reply_model(cfg, q, kind).xid == q.xid,
        reply_model(cfg, q, kind).yiaddr == cfg.client_ip@,
        reply_model(cfg, q, kind).chaddr == cfg.mac@,
        reply_model(cfg, q, kind).kind == kind,
        reply_bytes(reply_model(cfg, q, kind)).subrange(4, 8) == four_bytes(q.xid as nat),
        reply_bytes(reply_model(cfg, q, kind)).subrange(16, 20) == cfg.client_ip@,
        reply_bytes(reply_model(cfg, q, kind)).subrange(20, 24) == cfg.server_ip@,
        reply_bytes(reply_model(cfg, q, kind)).subrange(28, 34) == cfg.mac@,
{
}

// ------------------------------------------------------------------- the interface

/// Which interface holds an address, by name: the first in the list.
pub fn interface_holding(addrs: &Vec<(String, [u8; 4])>, ip: [u8; 4]) -> (r: Option<String>)
    ensures
        match r {
            Some(name) => exists|i: int|
                0 <= i < addrs@.len() && #[trigger] addrs@[i].1@ == ip@ && name@ == addrs@[i].0@ && forall|k: int|
                    0 <= k < i ==> #[trigger] addrs@[k].1@ != ip@,
            None => forall|k: int| 0 <= k < addrs@.len() ==> #[trigger] addrs@[k].1@ != ip@,
        },
{
    let mut i: usize = 0;
    while i < addrs.len()
        invariant
            i <= addrs@.len(),
            forall|k: int| 0 <= k < i ==> #[trigger] addrs@[k].1@ != ip@,
        decreases addrs@.len() - i,
    {
        let a: [u8; 4] = addrs[i].1;
        if a[0] == ip[0] && a[1] == ip[1] && a[2] == ip[2] && a[3] == ip[3] {
            assert(addrs@[i as int].1@ =~= ip@);
            return Some(addrs[i].0.clone());
        }
        i += 1;
    }
    None
}

/// Why a port could not be bound.
#[derive(Debug, Clone, Copy, PartialEq, Eq, Structural)]
pub enum BindFault {
    Denied,
    InUse,
    Other,
}

/// What to say of a DHCP port that could not be bound: one cause is a sudo away,
/// another means that something else owns the port.
pub fn bind_dhcp_error(fault: BindFault, e: &str) -> (r: String)
    ensures
        r@ == (match fault {
            BindFault::Denied => "port 67 needs root — try sudo"@,
            BindFault::InUse => "port 67 is taken — another dhcpd is already running"@,
            BindFault::Other => e@,
        }),
{
    match fault {
        BindFault::Denied => String::from_str("port 67 needs root — try sudo"),
        BindFault::InUse => String::from_str("port 67 is taken — another dhcpd is already running"),
        BindFault::Other => String::from_str(e),
    }
}

} // verus!
