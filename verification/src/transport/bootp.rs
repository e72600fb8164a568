//! The C4_COOKIE BOOTP responder that drops CEFDK to its shell.
//!
//! In manufacturing mode CEFDK broadcasts a BOOTP request and fetches whatever
//! boot file the reply names. The reply made here carries the vendor-class
//! cookie CEFDK checks and names a boot file that does not exist, so the fetch
//! fails and CEFDK drops to its shell.
//!
//! The cookie CEFDK compares is ten bytes: nine characters and the pad byte that
//! follows the option. Only the target is answered.
use crate::num::{hex2_string, hex_fixed, parse_number, parse_unsigned};
use crate::text::{cat2, slices, split, split_of, to_chars, trim, trimmed, Class};
use crate::transport::ipv4::{dotted, dotted_string};
use vstd::prelude::*;
use vstd::string::*;

verus! {

pub const BOOTREQUEST: u8 = 1;

pub const BOOTREPLY: u8 = 2;

/// Ethernet: hardware type 1, six address bytes.
pub const HTYPE_ETHER: u8 = 1;

pub const HLEN_ETHER: u8 = 6;

/// Option 60: vendor class. Option 255: end. Option 0: pad.
pub const OPT_VENDOR_CLASS: u8 = 60;

pub const OPT_END: u8 = 255;

pub const OPT_PAD: u8 = 0;

/// The magic that precedes the options.
pub open spec fn magic_bytes() -> Seq<u8> {
    seq![99u8, 130, 83, 99]
}

/// `C4_COOKIE`, without the zero byte that the pad supplies.
pub open spec fn cookie_bytes() -> Seq<u8> {
    seq![0x43u8, 0x34, 0x5f, 0x43, 0x4f, 0x4f, 0x4b, 0x49, 0x45]
}

/// `openhc-drop-to-shell`, which resolves to nothing on the TFTP server.
pub open spec fn bogus_bootfile_bytes() -> Seq<u8> {
    seq![
        0x6fu8, 0x70, 0x65, 0x6e, 0x68, 0x63, 0x2d, 0x64, 0x72, 0x6f, 0x70, 0x2d, 0x74, 0x6f, 0x2d, 0x73, 0x68,
        0x65, 0x6c, 0x6c,
    ]
}

pub fn magic() -> (r: [u8; 4])
    ensures
        r@ == magic_bytes(),
{
    let r: [u8; 4] = [99, 130, 83, 99];
    assert(r@ =~= magic_bytes());
    r
}

pub fn cookie() -> (r: [u8; 9])
    ensures
        r@ == cookie_bytes(),
{
    let r: [u8; 9] = [0x43, 0x34, 0x5f, 0x43, 0x4f, 0x4f, 0x4b, 0x49, 0x45];
    assert(r@ =~= cookie_bytes());
    r
}

pub fn bogus_bootfile() -> (r: [u8; 20])
    ensures
        r@ == bogus_bootfile_bytes(),
{
    let r: [u8; 20] = [
        0x6f, 0x70, 0x65, 0x6e, 0x68, 0x63, 0x2d, 0x64, 0x72, 0x6f, 0x70, 0x2d, 0x74, 0x6f, 0x2d, 0x73, 0x68,
        0x65, 0x6c, 0x6c,
    ];
    assert(r@ =~= bogus_bootfile_bytes());
    r
}

/// The fields of a request that the responder needs.
#[derive(Debug, Clone, Copy)]
pub struct BootRequest {
    pub xid: [u8; 4],
    pub mac: [u8; 6],
}

/// An Ethernet BOOTP request, long enough to hold a hardware address.
pub open spec fn is_bootrequest(pkt: Seq<u8>) -> bool {
    pkt.len() >= 44 && pkt[0] == BOOTREQUEST && pkt[1] == HTYPE_ETHER && pkt[2] == HLEN_ETHER
}

/// Parse a request. Nothing for anything that is not an Ethernet BOOTP request.
pub fn parse_bootrequest(pkt: &[u8]) -> (r: Option<BootRequest>)
    ensures
        match r {
            Some(q) => is_bootrequest(pkt@) && q.xid@ == pkt@.subrange(4, 8) && q.mac@ == pkt@.subrange(
                28,
                34,
            ),
            None => !is_bootrequest(pkt@),
        },
{
    if pkt.len() < 44 {
        return None;
    }
    if pkt[0] != BOOTREQUEST || pkt[1] != HTYPE_ETHER || pkt[2] != HLEN_ETHER {
        return None;
    }
    let xid: [u8; 4] = [pkt[4], pkt[5], pkt[6], pkt[7]];
    let mac: [u8; 6] = [pkt[28], pkt[29], pkt[30], pkt[31], pkt[32], pkt[33]];
    assert(xid@ =~= pkt@.subrange(4, 8));
    assert(mac@ =~= pkt@.subrange(28, 34));
    Some(BootRequest { xid, mac })
}

/// The fixed header of the reply.
pub open spec fn reply_header(xid: Seq<u8>, mac: Seq<u8>, offer: Seq<u8>, server: Seq<u8>) -> Seq<u8> {
    Seq::new(
        236,
        |i: int|
            if i == 0 {
                BOOTREPLY
            } else if i == 1 {
                HTYPE_ETHER
            } else if i == 2 {
                HLEN_ETHER
            } else if 4 <= i < 8 {
                xid[i - 4]
            } else if 16 <= i < 20 {
                offer[i - 16]
            } else if 20 <= i < 24 {
                server[i - 20]
            } else if 28 <= i < 34 {
                mac[i - 28]
            } else if 108 <= i < 128 {
                bogus_bootfile_bytes()[i - 108]
            } else {
                0u8
            },
    )
}

/// The reply: header, magic, the vendor class, the pad that ends the cookie,
/// and the end.
pub open spec fn cookie_reply(xid: Seq<u8>, mac: Seq<u8>, offer: Seq<u8>, server: Seq<u8>) -> Seq<u8> {
    reply_header(xid, mac, offer, server) + magic_bytes() + seq![OPT_VENDOR_CLASS, 9u8] + cookie_bytes()
        + seq![OPT_PAD, OPT_END]
}

/// Overwrite bytes in place.
fn put_at(p: &mut Vec<u8>, at: usize, bytes: &[u8])
    requires
        at + bytes@.len() <= old(p).len(),
    ensures
        final(p)@.len() == old(p)@.len(),
        forall|i: int|
            0 <= i < old(p)@.len() ==> #[trigger] final(p)@[i] == (if at <= i < at + bytes@.len() {
                bytes@[i - at]
            } else {
                old(p)@[i]
            }),
{
    let ghost was = p@;
    let mut k: usize = 0;
    while k < bytes.len()
        invariant
            k <= bytes@.len(),
            at + bytes@.len() <= p.len(),
            p@.len() == was.len(),
            forall|i: int|
                0 <= i < was.len() ==> #[trigger] p@[i] == (if at <= i < at + k {
                    bytes@[i - at]
                } else {
                    was[i]
                }),
        decreases bytes@.len() - k,
    {
        p.set(at + k, bytes[k]);
        k += 1;
    }
}

fn extend(p: &mut Vec<u8>, bytes: &[u8])
    ensures
        final(p)@ == old(p)@ + bytes@,
{
    let mut more: Vec<u8> = vstd::slice::slice_to_vec(bytes);
    p.append(&mut more);
}

/// Build the reply that carries the cookie. `offer_ip` is what CEFDK takes as
/// its address, `server_ip` the TFTP host it then talks to.
pub fn build_cookie_reply(xid: &[u8; 4], mac: &[u8; 6], offer_ip: [u8; 4], server_ip: [u8; 4]) -> (r: Vec<u8>)
    ensures
        r@ == cookie_reply(xid@, mac@, offer_ip@, server_ip@),
{
    let mut p: Vec<u8> = Vec::new();
    p.resize(236, 0);
    p.set(0, BOOTREPLY);
    p.set(1, HTYPE_ETHER);
    p.set(2, HLEN_ETHER);
    put_at(&mut p, 4, xid.as_slice());
    put_at(&mut p, 16, offer_ip.as_slice());
    put_at(&mut p, 20, server_ip.as_slice());
    put_at(&mut p, 28, mac.as_slice());
    let file: [u8; 20] = bogus_bootfile();
    put_at(&mut p, 108, file.as_slice());
    assert(p@ =~= reply_header(xid@, mac@, offer_ip@, server_ip@));
    let m: [u8; 4] = magic();
    extend(&mut p, m.as_slice());
    let ghost head = p@;
    p.push(OPT_VENDOR_CLASS);
    p.push(9);
    assert(p@ =~= head + seq![OPT_VENDOR_CLASS, 9u8]);
    let c: [u8; 9] = cookie();
    extend(&mut p, c.as_slice());
    let ghost body = p@;
    p.push(OPT_PAD);
    p.push(OPT_END);
    assert(p@ =~= body + seq![OPT_PAD, OPT_END]);
    p
}

/// Whatever the request and the addresses, CEFDK reads the vendor class option
/// right after the magic, and the ten bytes it compares are the cookie and a
/// zero; the end marker comes only after them.
pub proof fn law_the_cookie_ends_in_a_zero(xid: Seq<u8>, mac: Seq<u8>, offer: Seq<u8>, server: Seq<u8>)
    ensures
        cookie_reply(xid, mac, offer, server).len() == 253,
        cookie_reply(xid, mac, offer, server).subrange(236, 240) == magic_bytes(),
        cookie_reply(xid, mac, offer, server)[240] == OPT_VENDOR_CLASS,
        cookie_reply(xid, mac, offer, server)[241] == 9,
        cookie_reply(xid, mac, offer, server).subrange(242, 252) == cookie_bytes().push(0),
        cookie_reply(xid, mac, offer, server)[252] == OPT_END,
{
    assert(cookie_reply(xid, mac, offer, server).subrange(236, 240) =~= magic_bytes());
    assert(cookie_reply(xid, mac, offer, server).subrange(242, 252) =~= cookie_bytes().push(0));
}

// ------------------------------------------------------------------------ MACs

pub open spec fn octet_of(s: Seq<char>) -> Option<nat> {
    parse_unsigned(trim(s), 16, 255)
}

/// Six hexadecimal octets between colons or dashes.
pub open spec fn mac_of(s: Seq<char>) -> Option<Seq<u8>> {
    let p = split(s, Class::Two(':', '-'));
    if p.len() == 6 && forall|i: int| 0 <= i < 6 ==> octet_of(#[trigger] p[i]) is Some {
        Some(Seq::new(6, |i: int| octet_of(p[i])->0 as u8))
    } else {
        None
    }
}

/// `aa:bb:cc:dd:ee:ff` to six bytes; colons or dashes, any case.
pub fn parse_mac(s: &str) -> (r: Option<[u8; 6]>)
    ensures
        match r {
            Some(m) => mac_of(s@) == Some(m@),
            None => mac_of(s@) is None,
        },
{
    let chars = to_chars(s);
    let p = split_of(chars.as_slice(), &Class::Two(':', '-'));
    let ghost pm = split(s@, Class::Two(':', '-'));
    assert(slices(p@) == pm && p@.len() == pm.len());
    if p.len() != 6 {
        return None;
    }
    let mut mac: [u8; 6] = [0, 0, 0, 0, 0, 0];
    let mut i: usize = 0;
    while i < 6
        invariant
            i <= 6,
            p@.len() == 6,
            slices(p@) == pm,
            pm == split(s@, Class::Two(':', '-')),
            forall|k: int| 0 <= k < i ==> octet_of(#[trigger] pm[k]) is Some,
            forall|k: int| 0 <= k < i ==> #[trigger] mac@[k] == octet_of(pm[k])->0 as u8,
        decreases 6 - i,
    {
        assert(pm[i as int] == p@[i as int]@);
        match parse_number(trimmed(p[i]), 16, 255) {
            Some(v) => {
                mac[i] = v as u8;
            },
            None => {
                return None;
            },
        }
        i += 1;
    }
    assert(mac@ =~= Seq::new(6, |i: int| octet_of(pm[i])->0 as u8));
    Some(mac)
}

/// Two hexadecimal digits for each byte, between colons.
pub open spec fn mac_text(m: Seq<u8>) -> Seq<char> {
    hex_fixed(m[0] as nat, 2) + ":"@ + hex_fixed(m[1] as nat, 2) + ":"@ + hex_fixed(m[2] as nat, 2) + ":"@
        + hex_fixed(m[3] as nat, 2) + ":"@ + hex_fixed(m[4] as nat, 2) + ":"@ + hex_fixed(m[5] as nat, 2)
}

pub fn mac_str(mac: &[u8; 6]) -> (r: String)
    ensures
        r@ == mac_text(mac@),
{
    let mut s = hex2_string(mac[0]);
    s.append(":");
    s.append(hex2_string(mac[1]).as_str());
    s.append(":");
    s.append(hex2_string(mac[2]).as_str());
    s.append(":");
    s.append(hex2_string(mac[3]).as_str());
    s.append(":");
    s.append(hex2_string(mac[4]).as_str());
    s.append(":");
    s.append(hex2_string(mac[5]).as_str());
    s
}

// ------------------------------------------------------------------- the answer

/// What the responder does with one datagram.
#[derive(Debug)]
pub struct Answer {
    /// Said when the request is seen.
    pub seen: String,
    /// The datagram to broadcast.
    pub reply: Vec<u8>,
    /// Said when it was sent.
    pub sent: String,
}

fn same_mac(a: &[u8; 6], b: &[u8; 6]) -> (r: bool)
    ensures
        r == (a@ == b@),
{
    let r: bool = a[0] == b[0] && a[1] == b[1] && a[2] == b[2] && a[3] == b[3] && a[4] == b[4] && a[5] == b[5];
    if r {
        assert(a@ =~= b@);
    }
    r
}

/// The answer to one datagram: the target's request gets the cookie, and nothing
/// else gets anything.
pub fn answer(pkt: &[u8], target: &[u8; 6], offer_ip: [u8; 4], server_ip: [u8; 4]) -> (r: Option<Answer>)
    ensures
        match r {
            Some(a) => {
                &&& is_bootrequest(pkt@)
                &&& pkt@.subrange(28, 34) == target@
                &&& a.reply@ == cookie_reply(pkt@.subrange(4, 8), target@, offer_ip@, server_ip@)
                &&& a.seen@ == "bootp: request from "@ + mac_text(target@)
                &&& a.sent@ == "bootp: answered "@ + mac_text(target@) + " with C4_COOKIE (offer "@ + dotted(
                    offer_ip@,
                ) + ", server "@ + dotted(server_ip@) + ")"@
            },
            None => !is_bootrequest(pkt@) || pkt@.subrange(28, 34) != target@,
        },
{
    let req = match parse_bootrequest(pkt) {
        Some(q) => q,
        None => {
            return None;
        },
    };
    if !same_mac(&req.mac, target) {
        return None;
    }
    let shown = mac_str(&req.mac);
    let mut sent = cat2("bootp: answered ", shown.as_str());
    sent.append(" with C4_COOKIE (offer ");
    sent.append(dotted_string(offer_ip).as_str());
    sent.append(", server ");
    sent.append(dotted_string(server_ip).as_str());
    sent.append(")");
    Some(
        Answer {
            seen: cat2("bootp: request from ", shown.as_str()),
            reply: build_cookie_reply(&req.xid, &req.mac, offer_ip, server_ip),
            sent,
        },
    )
}

} // verus!
