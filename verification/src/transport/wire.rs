//! What the machine at the other end reads out of the datagrams that are sent to it.
use crate::flasher::loader::is_word;
use crate::num::{dec, digit_val, lemma_digits_plain, lemma_digits_value, two_bytes};
use crate::text::{lossy_text, split, utf8, white, Class};
use crate::transport::bootp::{bogus_bootfile_bytes, cookie_bytes, cookie_reply, is_bootrequest};
use crate::transport::ipv4::{address, dotted, octet};
use crate::transport::netboot::{
    four_bytes, kind_shown, option_bytes, reply_bytes, reply_model, verdict_of, Config, ReplyModel, RequestModel,
    Verdict,
};
use crate::transport::tftp::{
    ack_of, data_bytes, error_bytes, is_octet, request_of, word16, zero_at, RequestModel as TftpRequest,
    TransferModel,
};
use vstd::prelude::*;
use vstd::string::*;

verus! {

// -------------------------------------------------------------------------- addresses

proof fn lemma_octet(n: u8)
    ensures
        octet(dec(n as nat)) == Some(n),
        is_word(dec(n as nat)),
        forall|k: int| 0 <= k < dec(n as nat).len() ==> #[trigger] dec(n as nat)[k] != '.',
{
    lemma_digits_value(n as nat, 10);
    lemma_digits_plain(n as nat, 10);
    let d = dec(n as nat);
    reveal_with_fuel(crate::num::digits, 4);
    assert forall|k: int| 0 <= k < d.len() implies #[trigger] d[k] != '.' by {
        assert(digit_val(crate::num::digits(n as nat, 10)[k]) < 10);
    }
    if n < 10 {
        assert(d.len() == 1);
    } else if n < 100 {
        assert(d.len() == 2);
        assert(d[0] == crate::num::digit_char((n / 10) as int));
    } else {
        assert(d.len() == 3);
        assert(d[0] == crate::num::digit_char((n / 100) as int));
    }
}

/// An address in its dotted form reads back as the address, and is one word.
pub proof fn law_a_dotted_address_reads_back(a: Seq<u8>)
    requires
        a.len() == 4,
    ensures
        address(dotted(a)) == Some(a),
        is_word(dotted(a)),
{
    reveal_strlit(".");
    lemma_octet(a[0]);
    lemma_octet(a[1]);
    lemma_octet(a[2]);
    lemma_octet(a[3]);
    let d0 = dec(a[0] as nat);
    let d1 = dec(a[1] as nat);
    let d2 = dec(a[2] as nat);
    let d3 = dec(a[3] as nat);
    let s = dotted(a);
    let cl = Class::One('.');
    let i1 = d0.len() as int;
    let i2 = i1 + 1 + d1.len();
    let i3 = i2 + 1 + d2.len();
    assert forall|k: int| 0 <= k < i1 implies !cl.holds(#[trigger] s[k]) by {
        assert(s[k] == d0[k]);
    }
    assert forall|k: int| i1 + 1 <= k < i2 implies !cl.holds(#[trigger] s[k]) by {
        assert(s[k] == d1[k - i1 - 1]);
    }
    assert forall|k: int| i2 + 1 <= k < i3 implies !cl.holds(#[trigger] s[k]) by {
        assert(s[k] == d2[k - i2 - 1]);
    }
    assert forall|k: int| i3 + 1 <= k < s.len() implies !cl.holds(#[trigger] s[k]) by {
        assert(s[k] == d3[k - i3 - 1]);
    }
    assert(s[i1] == '.' && s[i2] == '.' && s[i3] == '.');
    crate::text::lemma_split_step(s, cl, 0, i1);
    crate::text::lemma_split_step(s, cl, i1 + 1, i2);
    crate::text::lemma_split_step(s, cl, i2 + 1, i3);
    crate::text::lemma_split_end(s, cl, i3 + 1);
    assert(s.subrange(0, i1) =~= d0);
    assert(s.subrange(i1 + 1, i2) =~= d1);
    assert(s.subrange(i2 + 1, i3) =~= d2);
    assert(s.subrange(i3 + 1, s.len() as int) =~= d3);
    assert(split(s, cl) =~= seq![d0, d1, d2, d3]);
    assert(address(s)->0 =~= a);
    assert forall|k: int| 0 <= k < s.len() implies !white(#[trigger] s[k]) by {
        if k < i1 {
            assert(s[k] == d0[k]);
        } else if k > i1 && k < i2 {
            assert(s[k] == d1[k - i1 - 1]);
        } else if k > i2 && k < i3 {
            assert(s[k] == d2[k - i2 - 1]);
        } else if k > i3 {
            assert(s[k] == d3[k - i3 - 1]);
        }
    }
}

// ------------------------------------------------------------------------------ BOOTP

/// A request is an Ethernet machine's BOOTREQUEST that holds at least its address.
pub proof fn law_a_boot_request_is_recognised(pkt: Seq<u8>)
    ensures
        is_bootrequest(pkt) <==> pkt.len() >= 44 && pkt[0] == 1 && pkt[1] == 1 && pkt[2] == 6,
{
}

/// The machine that asked takes the reply for its own: it is a reply, it carries the
/// request's transaction and the machine's hardware address back, offers the address
/// in the field for it, and names the server in the field for it. Its file is one that
/// no server has, and its vendor class is the cookie that opens the shell.
pub proof fn law_the_cookie_reply_is_for_who_asked(xid: Seq<u8>, mac: Seq<u8>, offer: Seq<u8>, server: Seq<u8>)
    requires
        xid.len() == 4,
        mac.len() == 6,
        offer.len() == 4,
        server.len() == 4,
    ensures
        ({
            let p = cookie_reply(xid, mac, offer, server);
            &&& p[0] == 2 && p[1] == 1 && p[2] == 6
            &&& p.subrange(4, 8) == xid
            &&& p.subrange(16, 20) == offer
            &&& p.subrange(20, 24) == server
            &&& p.subrange(28, 34) == mac
            &&& p.subrange(108, 128) == utf8("openhc-drop-to-shell"@)
            &&& p.subrange(236, 240) == seq![99u8, 130, 83, 99]
            &&& p[240] == 60 && p[241] == 9
            &&& p.subrange(242, 251) == utf8("C4_COOKIE"@)
            &&& p[252] == 255
        }),
{
    let p = cookie_reply(xid, mac, offer, server);
    assert(p.subrange(4, 8) =~= xid);
    assert(p.subrange(16, 20) =~= offer);
    assert(p.subrange(20, 24) =~= server);
    assert(p.subrange(28, 34) =~= mac);
    lemma_cookie_text();
    assert(p.subrange(108, 128) =~= bogus_bootfile_bytes());
    assert(p.subrange(236, 240) =~= seq![99u8, 130, 83, 99]);
    assert(p.subrange(242, 251) =~= cookie_bytes());
}

proof fn lemma_ascii_char(c: char)
    requires
        c as int <= 0x7f,
    ensures
        vstd::utf8::encode_scalar(c as u32).len() == 1,
        vstd::utf8::encode_scalar(c as u32)[0] as int == c as int,
{
    vstd::utf8::char_is_scalar(c);
    let v = c as u32;
    assert((v & 0x7F) as u8 == v) by (bit_vector)
        requires
            v <= 0x7f,
    ;
}

proof fn lemma_ascii(s: Seq<char>)
    requires
        forall|k: int| 0 <= k < s.len() ==> (#[trigger] s[k]) as int <= 0x7f,
    ensures
        utf8(s).len() == s.len(),
        forall|k: int| 0 <= k < s.len() ==> #[trigger] utf8(s)[k] as int == s[k] as int,
    decreases s.len(),
{
    if s.len() > 0 {
        let rest = s.drop_first();
        assert forall|k: int| 0 <= k < rest.len() implies (#[trigger] rest[k]) as int <= 0x7f by {
            assert(rest[k] == s[k + 1]);
        }
        lemma_ascii(rest);
        assert(s[0] as int <= 0x7f);
        lemma_ascii_char(s[0]);
        let h = vstd::utf8::encode_scalar(s[0] as u32);
        assert(h.len() == 1);
        assert(utf8(s) =~= h + utf8(rest));
        assert forall|k: int| 0 <= k < s.len() implies #[trigger] utf8(s)[k] as int == s[k] as int by {
            if k > 0 {
                assert(utf8(rest)[k - 1] as int == rest[k - 1] as int);
            } else {
                assert(utf8(s)[0] == h[0]);
            }
        }
    }
}

proof fn lemma_cookie_text()
    ensures
        utf8("C4_COOKIE"@) == cookie_bytes(),
        utf8("openhc-drop-to-shell"@) == bogus_bootfile_bytes(),
{
    reveal_strlit("C4_COOKIE");
    reveal_strlit("openhc-drop-to-shell");
    lemma_ascii("C4_COOKIE"@);
    lemma_ascii("openhc-drop-to-shell"@);
    assert(utf8("C4_COOKIE"@) =~= cookie_bytes());
    assert(utf8("openhc-drop-to-shell"@) =~= bogus_bootfile_bytes());
}

// ------------------------------------------------------------------------------- DHCP

/// The value of an option, as a client walks the options of a reply: code, length,
/// value, until the end mark. A value that goes on under the same code is not joined.
pub open spec fn option_in(b: Seq<u8>, code: u8) -> Option<Seq<u8>>
    decreases b.len(),
{
    if b.len() < 2 || b[0] == 255 || b.len() < 2 + b[1] {
        None
    } else if b[0] == code {
        Some(b.subrange(2, 2 + b[1] as int))
    } else {
        option_in(b.skip(2 + b[1] as int), code)
    }
}

proof fn lemma_option(code: u8, v: Seq<u8>, rest: Seq<u8>, want: u8)
    requires
        code != 255,
        0 < v.len() <= 255,
    ensures
        option_in(option_bytes(code, v) + rest, want) == (if code == want {
            Some(v)
        } else {
            option_in(rest, want)
        }),
{
    let b = option_bytes(code, v) + rest;
    assert(option_bytes(code, v) =~= seq![code, v.len() as u8] + v);
    assert(b.subrange(2, 2 + b[1] as int) =~= v);
    assert(b.skip(2 + b[1] as int) =~= rest);
}

/// The number four bytes spell.
pub open spec fn spelled(b: Seq<u8>) -> nat {
    b[0] as nat * 0x100_0000 + b[1] as nat * 0x1_0000 + b[2] as nat * 0x100 + b[3] as nat
}

/// A client that takes the lease learns from the options what the run was set up
/// with: the kind of message, the server, the mask, an hour's lease, and whom to ask
/// for which file. The same file and the same server stand in the fixed fields.
#[verifier::rlimit(80)]
pub proof fn law_a_client_reads_the_lease(cfg: &Config, q: RequestModel, kind: u8)
    requires
        cfg.wf(),
        0 < utf8(cfg.bootfile@).len(),
        utf8(dotted(cfg.server_ip@)).len() <= 255,
        utf8(dotted(cfg.server_ip@)).len() > 0,
    ensures
        ({
            let p = reply_bytes(reply_model(cfg, q, kind));
            let o = p.skip(240);
            &&& p.len() > 240
            &&& p[0] == 2 && p[1] == 1 && p[2] == 6
            &&& p.subrange(236, 240) == seq![99u8, 130, 83, 99]
            &&& option_in(o, 53) == Some(seq![kind])
            &&& option_in(o, 54) == Some(cfg.server_ip@)
            &&& option_in(o, 1) == Some(cfg.netmask@)
            &&& option_in(o, 51) is Some && option_in(o, 51)->0.len() == 4 && spelled(option_in(o, 51)->0) == 3600
            &&& option_in(o, 66) == Some(utf8(dotted(cfg.server_ip@)))
            &&& option_in(o, 67) == Some(utf8(cfg.bootfile@))
            &&& p.subrange(108, 108 + utf8(cfg.bootfile@).len() as int) == utf8(cfg.bootfile@)
        }),
{
    let m = reply_model(cfg, q, kind);
    lemma_reply_options(m);
    lemma_lease(m, 1);
    lemma_lease(m, 51);
    lemma_lease(m, 53);
    lemma_lease(m, 54);
    lemma_lease(m, 66);
    lemma_lease(m, 67);
    assert(four_bytes(3600) =~= seq![0u8, 0u8, 14u8, 16u8]);
}

/// The options of a reply, the last one first written down.
spec fn lease_options(m: ReplyModel) -> Seq<u8> {
    option_bytes(1, m.netmask) + (option_bytes(51, four_bytes(m.lease_secs as nat)) + (option_bytes(53, seq![m.kind]) + (
    option_bytes(54, m.server_id) + (option_bytes(66, m.tftp_server) + (option_bytes(67, m.bootfile) + seq![255u8])))))
}

proof fn lemma_lease(m: ReplyModel, w: u8)
    requires
        w != 255,
        m.netmask.len() == 4,
        m.server_id.len() == 4,
        0 < m.tftp_server.len() <= 255,
        0 < m.bootfile.len() <= 255,
    ensures
        option_in(lease_options(m), w) == (if w == 1 {
            Some(m.netmask)
        } else if w == 51 {
            Some(four_bytes(m.lease_secs as nat))
        } else if w == 53 {
            Some(seq![m.kind])
        } else if w == 54 {
            Some(m.server_id)
        } else if w == 66 {
            Some(m.tftp_server)
        } else if w == 67 {
            Some(m.bootfile)
        } else {
            None
        }),
{
    let e = seq![255u8];
    let o6 = option_bytes(67, m.bootfile) + e;
    let o5 = option_bytes(66, m.tftp_server) + o6;
    let o4 = option_bytes(54, m.server_id) + o5;
    let o3 = option_bytes(53, seq![m.kind]) + o4;
    let o2 = option_bytes(51, four_bytes(m.lease_secs as nat)) + o3;
    assert(option_in(e, w) is None);
    lemma_option(67, m.bootfile, e, w);
    lemma_option(66, m.tftp_server, o6, w);
    lemma_option(54, m.server_id, o5, w);
    lemma_option(53, seq![m.kind], o4, w);
    lemma_option(51, four_bytes(m.lease_secs as nat), o3, w);
    lemma_option(1, m.netmask, o2, w);
}

proof fn lemma_reply_options(m: ReplyModel)
    requires
        m.yiaddr.len() == 4,
        m.siaddr.len() == 4,
        m.chaddr.len() == 6,
        utf8(m.fname).len() <= 128,
    ensures
        ({
            let p = reply_bytes(m);
            &&& p.len() > 240
            &&& p.skip(240) == lease_options(m)
            &&& p.subrange(236, 240) == seq![99u8, 130, 83, 99]
            &&& p[0] == m.opcode && p[1] == 1 && p[2] == 6
            &&& p.subrange(108, 108 + utf8(m.fname).len() as int) == utf8(m.fname)
        }),
{
    let p = reply_bytes(m);
    assert(p.skip(240) =~= lease_options(m));
    assert(p.subrange(236, 240) =~= seq![99u8, 130, 83, 99]);
    assert(p.subrange(108, 108 + utf8(m.fname).len() as int) =~= utf8(m.fname));
}

/// The box's two questions are answered in turn: a discovery with an offer, a request
/// with an acknowledgement. Nothing else it says is answered.
pub proof fn law_questions_get_their_answers(q: RequestModel)
    ensures
        verdict_of(q.chaddr, q) == (match q.kind {
            None => Verdict::Untyped,
            Some(k) => if k == 1 {
                Verdict::Answer { saw: 1, kind: 2 }
            } else if k == 3 {
                Verdict::Answer { saw: 3, kind: 5 }
            } else {
                Verdict::Silent(k)
            },
        }),
{
}

// ------------------------------------------------------------------------------- TFTP

/// A client reads a data packet as the block it was sent as: kind three, the block's
/// number, and then nothing but the block's bytes; and an error as kind five with its
/// number and its words.
pub proof fn law_a_client_reads_the_packet(block: nat, chunk: Seq<u8>, code: nat, msg: Seq<char>)
    requires
        block < 0x1_0000,
        code < 0x1_0000,
    ensures
        word16(data_bytes(block, chunk), 0) == 3,
        word16(data_bytes(block, chunk), 2) == block,
        data_bytes(block, chunk).skip(4) == chunk,
        word16(error_bytes(code, msg), 0) == 5,
        word16(error_bytes(code, msg), 2) == code,
        error_bytes(code, msg).skip(4) == utf8(msg).push(0),
{
    assert(data_bytes(block, chunk).skip(4) =~= chunk);
    assert(error_bytes(code, msg).skip(4) =~= utf8(msg).push(0));
    assert(two_bytes(3) =~= seq![0u8, 3u8]);
    assert(two_bytes(5) =~= seq![0u8, 5u8]);
}

/// An acknowledgement names the block it is for, and only an acknowledgement does.
pub proof fn law_an_acknowledgement_names_its_block(block: nat, pkt: Seq<u8>)
    requires
        block < 0x1_0000,
    ensures
        ack_of(seq![0u8, 4u8] + two_bytes(block)) == Some(block),
        ack_of(pkt) is Some ==> pkt.len() >= 4 && pkt[0] == 0 && pkt[1] == 4,
{
}

/// A transfer moves on only when the client acknowledges the block that is out, and
/// then by exactly that block; it is over when the block that was acknowledged was
/// short. Anything else sends the same block again, a few times.
pub proof fn law_a_transfer_moves_block_by_block(t: TransferModel, h: crate::transport::tftp::Heard)
    requires
        t.wf(),
    ensures
        ({
            let (n, next) = t.hear(h);
            &&& n.data == t.data
            &&& t.acked_by(h) && t.chunk().len() == 512 ==> n.off == t.off + 512 && n.wf() && next
                == crate::transport::tftp::SendNext::Send
            &&& t.acked_by(h) && t.chunk().len() < 512 ==> next == crate::transport::tftp::SendNext::Done
            &&& !t.acked_by(h) ==> n.off == t.off && n.block == t.block && !(next
                == crate::transport::tftp::SendNext::Done)
            &&& !t.acked_by(h) && t.tries < 4 ==> next == crate::transport::tftp::SendNext::Send && n.tries == t.tries
                + 1
            &&& !t.acked_by(h) && t.tries == 4 ==> next == crate::transport::tftp::SendNext::GaveUp
        }),
{
}

proof fn lemma_zero_at(b: Seq<u8>, i: int, k: int)
    requires
        0 <= i <= k < b.len(),
        b[k] == 0,
        forall|j: int| i <= j < k ==> #[trigger] b[j] != 0,
    ensures
        zero_at(b, i) == k,
    decreases k - i,
{
    if i < k {
        lemma_zero_at(b, i + 1, k);
    }
}

/// A read request is read as one: the name up to its zero, and whether the transfer is
/// of bytes by the word behind it. A request to write is known, and no other packet is
/// a request.
pub proof fn law_a_read_request_is_read(name: Seq<u8>, mode: Seq<u8>, pkt: Seq<u8>)
    requires
        name.len() > 0,
        forall|i: int| 0 <= i < name.len() ==> #[trigger] name[i] != 0,
        forall|i: int| 0 <= i < mode.len() ==> #[trigger] mode[i] != 0,
    ensures
        request_of(seq![0u8, 1u8] + name + seq![0u8] + mode + seq![0u8]) == Some(
            TftpRequest::Read { filename: lossy_text(name), octet: is_octet(mode) },
        ),
        pkt.len() >= 2 && pkt[0] == 0 && pkt[1] == 2 ==> request_of(pkt) == Some(TftpRequest::Write),
        pkt.len() >= 2 && !(pkt[0] == 0 && (pkt[1] == 1 || pkt[1] == 2)) ==> request_of(pkt) is None,
        is_octet(mode) <==> mode.len() == 5 && (mode[0] == 111 || mode[0] == 79) && (mode[1] == 99 || mode[1] == 67) && (
        mode[2] == 116 || mode[2] == 84) && (mode[3] == 101 || mode[3] == 69) && (mode[4] == 116 || mode[4] == 84),
{
    let p = seq![0u8, 1u8] + name + seq![0u8] + mode + seq![0u8];
    let e = 2 + name.len() as int;
    let f = e + 1 + mode.len() as int;
    assert(p[0] == 0 && p[1] == 1 && p[e] == 0 && p[f] == 0);
    assert forall|j: int| 2 <= j < e implies #[trigger] p[j] != 0 by {
        assert(p[j] == name[j - 2]);
    }
    assert forall|j: int| e + 1 <= j < f implies #[trigger] p[j] != 0 by {
        assert(p[j] == mode[j - e - 1]);
    }
    lemma_zero_at(p, 2, e);
    lemma_zero_at(p, e + 1, f);
    assert(p.subrange(2, e) =~= name);
    assert(p.subrange(e + 1, f) =~= mode);
}

/// The kinds of message have the names the protocol gives them.
pub proof fn law_the_kinds_have_their_names(kind: u8)
    ensures
        kind_shown(1) == "Discover"@ && kind_shown(2) == "Offer"@ && kind_shown(3) == "Request"@,
        kind_shown(4) == "Decline"@ && kind_shown(5) == "Ack"@ && kind_shown(6) == "Nak"@,
        kind_shown(7) == "Release"@ && kind_shown(8) == "Inform"@,
        kind == 0 || kind > 18 ==> kind_shown(kind) == "Unknown("@ + dec(kind as nat) + ")"@,
{
}

} // verus!
