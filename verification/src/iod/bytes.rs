//! The bytes on each wire, as whoever is at the other end reads them.
use crate::iod::b64::{encoded, quad, sextet_char, sextet_val};
use crate::iod::link::{asking, Question};
use crate::iod::mcu::{body_of, byte_sum, law_checksum_cancels, stuffed, wire, FrameModel};
use crate::iod::mqtt::server::{
    codes, framed, length_bytes, passing, paths, reply_bytes, At, PacketModel, ReplyModel, SessionModel,
};
use crate::iod::mqtt::settings::{counts, merged, pin, pins, unconfigured, MqttModel, VarsModel};
use crate::iod::mqtt::topics::{filter_matches, RoutedModel};
use crate::iod::poller::{contact_updates_of, due, relay_updates_of, round_after};
use crate::json::JsonModel;
use crate::num::{dec, two_bytes};
use crate::text::utf8;
use vstd::prelude::*;
use vstd::string::*;

verus! {

// ---------------------------------------------------------------------- the controller

/// On the wire a frame starts with its two marks; behind them stand the opcode, the
/// number, the flags, the length with its high byte first, the payload, and a byte that
/// makes the sum nothing. A mark within is written twice.
pub proof fn law_a_frame_on_the_wire(f: FrameModel)
    requires
        f.payload.len() <= 0xffff,
    ensures
        wire(f)[0] == 0x10 && wire(f)[1] == 0x02,
        ({
            let b = body_of(f);
            &&& b.len() == f.payload.len() + 6
            &&& b[0] == f.opcode && b[1] == f.seq && b[2] == f.flags
            &&& b[3] as nat * 256 + b[4] as nat == f.payload.len()
            &&& b.subrange(5, b.len() - 1) == f.payload
            &&& byte_sum(b) % 256 == 0
            &&& (forall|i: int| 0 <= i < b.len() ==> #[trigger] b[i] != 0x10) ==> wire(f) == seq![0x10u8, 0x02u8] + b
        }),
{
    let b = body_of(f);
    let head = b.drop_last();
    let n = f.payload.len();
    assert(head =~= seq![f.opcode, f.seq, f.flags, (n / 256 % 256) as u8, (n % 256) as u8] + f.payload);
    law_checksum_cancels(head);
    assert(b.subrange(5, b.len() - 1) =~= f.payload);
    if forall|i: int| 0 <= i < b.len() ==> #[trigger] b[i] != 0x10 {
        lemma_unmarked(b);
    }
}

proof fn lemma_unmarked(b: Seq<u8>)
    requires
        forall|i: int| 0 <= i < b.len() ==> #[trigger] b[i] != 0x10,
    ensures
        stuffed(b) == b,
    decreases b.len(),
{
    if b.len() > 0 {
        let w = b.drop_last();
        assert forall|i: int| 0 <= i < w.len() implies #[trigger] w[i] != 0x10 by {
            assert(w[i] == b[i]);
        }
        lemma_unmarked(w);
        assert(w.push(b.last()) =~= b);
    }
}

/// Each question has the controller's own opcode for it; one about a relay names that
/// relay, and no other carries anything. Only the toggle changes anything, and it is
/// given the longest.
pub proof fn law_each_question_has_its_opcode(i: u8)
    ensures
        asking(Question::Name).0 == 0x24 && asking(Question::Name).1.len() == 0,
        asking(Question::Version).0 == 0x34 && asking(Question::Version).1.len() == 0,
        asking(Question::Contacts).0 == 0x74 && asking(Question::Contacts).1.len() == 0,
        asking(Question::Relay(i)).0 == 0x54 && asking(Question::Relay(i)).1 == seq![i],
        asking(Question::Toggle(i)).0 == 0x56 && asking(Question::Toggle(i)).1 == seq![i],
        asking(Question::MeasuredBaud).0 == 0xd2 && asking(Question::MeasuredBaud).1.len() == 0,
        asking(Question::Relay(i)).2 < asking(Question::Name).2 < asking(Question::Toggle(i)).2,
        asking(Question::Contacts).2 == asking(Question::Relay(i)).2,
        asking(Question::MeasuredBaud).2 == asking(Question::Relay(i)).2,
        asking(Question::Version).2 == asking(Question::Name).2,
{
}

// ------------------------------------------------------------------------------ base64

/// The letters are the usual ones, in the usual order.
pub proof fn law_the_letters_are_the_usual_ones(v: int)
    requires
        0 <= v < 64,
    ensures
        sextet_char(v) == "ABCDEFGHIJKLMNOPQRSTUVWXYZabcdefghijklmnopqrstuvwxyz0123456789+/"@[v],
        sextet_val(sextet_char(v)) == Some(v),
{
    reveal_strlit("ABCDEFGHIJKLMNOPQRSTUVWXYZabcdefghijklmnopqrstuvwxyz0123456789+/");
    lemma_capitals(v);
    lemma_smalls(v);
    lemma_rest(v);
}

proof fn lemma_capitals(v: int)
    ensures
        0 <= v < 26 ==> sextet_char(v)
            == "ABCDEFGHIJKLMNOPQRSTUVWXYZabcdefghijklmnopqrstuvwxyz0123456789+/"@[v] && sextet_val(sextet_char(v))
            == Some(v),
{
    reveal_strlit("ABCDEFGHIJKLMNOPQRSTUVWXYZabcdefghijklmnopqrstuvwxyz0123456789+/");
    let t = "ABCDEFGHIJKLMNOPQRSTUVWXYZabcdefghijklmnopqrstuvwxyz0123456789+/"@;
    assert(t[0] == 'A' && t[1] == 'B' && t[2] == 'C' && t[3] == 'D' && t[4] == 'E' && t[5] == 'F' && t[6] == 'G');
    assert(t[7] == 'H' && t[8] == 'I' && t[9] == 'J' && t[10] == 'K' && t[11] == 'L' && t[12] == 'M' && t[13] == 'N');
    assert(t[14] == 'O' && t[15] == 'P' && t[16] == 'Q' && t[17] == 'R' && t[18] == 'S' && t[19] == 'T');
    assert(t[20] == 'U' && t[21] == 'V' && t[22] == 'W' && t[23] == 'X' && t[24] == 'Y' && t[25] == 'Z');
}

proof fn lemma_smalls(v: int)
    ensures
        26 <= v < 52 ==> sextet_char(v)
            == "ABCDEFGHIJKLMNOPQRSTUVWXYZabcdefghijklmnopqrstuvwxyz0123456789+/"@[v] && sextet_val(sextet_char(v))
            == Some(v),
{
    reveal_strlit("ABCDEFGHIJKLMNOPQRSTUVWXYZabcdefghijklmnopqrstuvwxyz0123456789+/");
    let t = "ABCDEFGHIJKLMNOPQRSTUVWXYZabcdefghijklmnopqrstuvwxyz0123456789+/"@;
    assert(t[26] == 'a' && t[27] == 'b' && t[28] == 'c' && t[29] == 'd' && t[30] == 'e' && t[31] == 'f');
    assert(t[32] == 'g' && t[33] == 'h' && t[34] == 'i' && t[35] == 'j' && t[36] == 'k' && t[37] == 'l');
    assert(t[38] == 'm' && t[39] == 'n' && t[40] == 'o' && t[41] == 'p' && t[42] == 'q' && t[43] == 'r');
    assert(t[44] == 's' && t[45] == 't' && t[46] == 'u' && t[47] == 'v' && t[48] == 'w' && t[49] == 'x');
    assert(t[50] == 'y' && t[51] == 'z');
}

proof fn lemma_rest(v: int)
    ensures
        52 <= v < 64 ==> sextet_char(v)
            == "ABCDEFGHIJKLMNOPQRSTUVWXYZabcdefghijklmnopqrstuvwxyz0123456789+/"@[v] && sextet_val(sextet_char(v))
            == Some(v),
{
    reveal_strlit("ABCDEFGHIJKLMNOPQRSTUVWXYZabcdefghijklmnopqrstuvwxyz0123456789+/");
    let t = "ABCDEFGHIJKLMNOPQRSTUVWXYZabcdefghijklmnopqrstuvwxyz0123456789+/"@;
    assert(t[52] == '0' && t[53] == '1' && t[54] == '2' && t[55] == '3' && t[56] == '4' && t[57] == '5');
    assert(t[58] == '6' && t[59] == '7' && t[60] == '8' && t[61] == '9' && t[62] == '+' && t[63] == '/');
}

/// Three bytes are four letters, read as one number: the letters' values in sixty-fours
/// are the bytes' in two hundred and fifty-sixes. What lacks at the end is written as
/// equals signs.
pub proof fn law_four_letters_are_three_bytes(d: Seq<u8>)
    requires
        d.len() == 3,
    ensures
        ({
            let q = quad(d);
            let v = |i: int| sextet_val(q[i])->0;
            &&& q.len() == 4
            &&& v(0) * 262144 + v(1) * 4096 + v(2) * 64 + v(3) == d[0] as int * 65536 + d[1] as int * 256 + d[2] as int
        }),
        quad(d.take(2))[3] == '=' && quad(d.take(1))[3] == '=' && quad(d.take(1))[2] == '=',
        quad(d.take(2))[2] != '=' && quad(d)[3] != '=',
        encoded(d) == quad(d),
{
    let a = d[0] as int;
    let b = d[1] as int;
    let c = d[2] as int;
    law_the_letters_are_the_usual_ones(a / 4);
    law_the_letters_are_the_usual_ones((a % 4) * 16 + b / 16);
    law_the_letters_are_the_usual_ones((b % 16) * 4 + c / 64);
    law_the_letters_are_the_usual_ones(c % 64);
    law_the_letters_are_the_usual_ones((b % 16) * 4);
    assert(sextet_val('=') is None);
}

// -------------------------------------------------------------------------------- mqtt

/// The length that the protocol's count of bytes spells, and what comes behind it: seven
/// bits a byte, the lowest first, and the top bit for more.
pub open spec fn remaining(b: Seq<u8>) -> (nat, Seq<u8>)
    decreases b.len(),
{
    if b.len() == 0 {
        (0, b)
    } else if b[0] < 128 {
        (b[0] as nat, b.skip(1))
    } else {
        let (n, rest) = remaining(b.skip(1));
        ((b[0] - 128 + 128 * n) as nat, rest)
    }
}

/// Whoever reads a packet finds its first byte, its length, and all of the rest.
pub proof fn law_a_packet_is_read_by_its_length(first: u8, rest: Seq<u8>, more: Seq<u8>)
    ensures
        (framed(first, rest) + more)[0] == first,
        remaining((framed(first, rest) + more).skip(1)) == (rest.len(), rest + more),
{
    lemma_length(rest.len(), rest + more);
    assert((framed(first, rest) + more).skip(1) =~= length_bytes(rest.len()) + (rest + more));
}

proof fn lemma_length(n: nat, rest: Seq<u8>)
    ensures
        remaining(length_bytes(n) + rest) == (n, rest),
    decreases n,
{
    let b = length_bytes(n) + rest;
    if n < 128 {
        assert(b.skip(1) =~= rest);
    } else {
        lemma_length(n / 128, rest);
        assert(b[0] == (n % 128 + 128) as u8);
        assert(b.skip(1) =~= length_bytes(n / 128) + rest);
    }
}

/// The first byte of a message that is delivered at most once: its lowest bit says
/// whether it is retained.
pub open spec fn publish_mark(retain: bool) -> u8 {
    if retain {
        0x31
    } else {
        0x30
    }
}

/// A client reads each reply for what it is: by the kind in its first byte, by the
/// number it answers, high byte first, and by what it carries.
pub proof fn law_a_client_reads_the_reply(pkid: u16, levels: Seq<u8>, topic: Seq<char>, payload: Seq<char>, retain: bool)
    requires
        utf8(topic).len() < 0x1_0000,
    ensures
        reply_bytes(ReplyModel::Accepted) == framed(0x20, seq![0u8, 0u8]),
        reply_bytes(ReplyModel::Refused) == framed(0x20, seq![0u8, 4u8]),
        reply_bytes(ReplyModel::PingResp) == framed(0xd0, seq![]),
        ({
            let b = seq![(pkid / 256) as u8, (pkid % 256) as u8];
            &&& reply_bytes(ReplyModel::PubAck(pkid)) == framed(0x40, b)
            &&& reply_bytes(ReplyModel::UnsubAck(pkid)) == framed(0xb0, b)
            &&& (forall|i: int| 0 <= i < levels.len() ==> #[trigger] levels[i] <= 2) ==> reply_bytes(
                ReplyModel::SubAck(pkid, levels),
            ) == framed(0x90, b + levels)
        }),
        exists|rest: Seq<u8>| #[trigger]
            framed(publish_mark(retain), rest) == reply_bytes(ReplyModel::Publish(topic, payload, retain)) && {
                let n = utf8(topic).len() as int;
                &&& rest[0] as nat * 256 + rest[1] as nat == n
                &&& rest.subrange(2, 2 + n) == utf8(topic)
                &&& rest.skip(2 + n) == utf8(payload)
            },
{
    let b = seq![(pkid / 256) as u8, (pkid % 256) as u8];
    assert(two_bytes(pkid as nat) =~= b);
    if forall|i: int| 0 <= i < levels.len() ==> #[trigger] levels[i] <= 2 {
        assert(levels.map_values(|l: u8| crate::iod::mqtt::server::level_byte(l)) =~= levels);
    }
    let n = utf8(topic).len() as int;
    let rest = two_bytes(n as nat) + utf8(topic) + utf8(payload);
    assert(rest.subrange(2, 2 + n) =~= utf8(topic));
    assert(rest.skip(2 + n) =~= utf8(payload));
    assert(framed(publish_mark(retain), rest) == reply_bytes(ReplyModel::Publish(topic, payload, retain)));
}

/// A client is let in exactly when no password is asked for or it has the one that is.
pub proof fn law_the_password_lets_in(s: SessionModel, want: Seq<char>, pass: Option<Seq<char>>, doc: JsonModel)
    requires
        s.at == At::Fresh,
    ensures
        s.turn(PacketModel::Connect(pass), None, doc).0.at == At::Open,
        s.turn(PacketModel::Connect(pass), Some(""@), doc).0.at == At::Open,
        s.turn(PacketModel::Connect(Some(want)), Some(want), doc).0.at == At::Open,
        s.turn(PacketModel::Connect(Some(want)), Some(want), doc).1.replies == seq![ReplyModel::Accepted],
        want.len() > 0 && utf8(want) != utf8(""@) ==> s.turn(PacketModel::Connect(None), Some(want), doc).1.replies == seq![
            ReplyModel::Refused,
        ],
{
    reveal_strlit("");
}

/// What is sent to a subscriber is what its filter covers, and all of it retained; a
/// published command is acknowledged when that is asked for, under its own number.
pub proof fn law_a_subscriber_hears_what_it_asked_for(v: Seq<RoutedModel>, filter: Seq<char>, m: RoutedModel)
    ensures
        passing(v.push(m), filter) == (if filter_matches(filter, m.topic) {
            passing(v, filter).push(ReplyModel::Publish(m.topic, m.payload, true))
        } else {
            passing(v, filter)
        }),
{
    assert(v.push(m).drop_last() =~= v);
}

/// A message under the command topic is a command, named by the rest of its topic.
pub proof fn law_a_command_is_named_by_its_topic(
    s: SessionModel,
    tail: Seq<char>,
    payload: Seq<u8>,
    qos: u8,
    pkid: u16,
    want: Option<Seq<char>>,
    doc: JsonModel,
)
    requires
        s.at == At::Open,
    ensures
        ({
            let t = s.turn(PacketModel::Publish(s.base + "/cmd/"@ + tail, payload, qos, pkid), want, doc);
            &&& t.0 == s
            &&& t.1.command matches Some(c) && c.0 == tail && c.1 == crate::text::lossy_text(payload)
            &&& t.1.replies == (if qos == 1 {
                seq![ReplyModel::PubAck(pkid)]
            } else {
                seq![]
            })
        }),
{
    let p = s.base + "/cmd/"@;
    let topic = p + tail;
    assert(topic.subrange(0, p.len() as int) =~= p);
    assert(topic.skip(p.len() as int) =~= tail);
}

/// A session answers each packet with the answer for it, under its own number.
pub proof fn law_each_packet_has_its_answer(
    s: SessionModel,
    pkid: u16,
    f: Seq<(Seq<char>, u8)>,
    t: Seq<Seq<char>>,
    want: Option<Seq<char>>,
    doc: JsonModel,
)
    requires
        s.at == At::Open,
    ensures
        s.turn(PacketModel::PingReq, want, doc) == (s, crate::iod::mqtt::server::answering(seq![ReplyModel::PingResp])),
        s.turn(PacketModel::Disconnect, want, doc).0.at == At::Over,
        s.turn(PacketModel::Subscribe(pkid, f), want, doc).0.filters == s.filters + paths(f),
        s.turn(PacketModel::Subscribe(pkid, f), want, doc).1.replies[0] == ReplyModel::SubAck(pkid, codes(f)),
        s.turn(PacketModel::Unsubscribe(pkid, t), want, doc).1.replies == seq![ReplyModel::UnsubAck(pkid)],
{
}

// --------------------------------------------------------------------------- settings

/// What the environment does not say is as the file has it; without a prefix or a name
/// of its own the bridge goes by the usual prefix and the host's name.
pub proof fn law_the_file_stands_otherwise(file: MqttModel, v: VarsModel, hostname: Seq<char>)
    ensures
        !counts(v.url) ==> merged(file, v, hostname).url == file.url,
        !counts(v.user) ==> merged(file, v, hostname).username == file.username,
        !counts(v.pass) ==> merged(file, v, hostname).password == file.password,
        !counts(v.ca) ==> merged(file, v, hostname).ca_path == file.ca_path,
        !counts(v.client_cert) ==> merged(file, v, hostname).client_cert_path == file.client_cert_path,
        !counts(v.client_key) ==> merged(file, v, hostname).client_key_path == file.client_key_path,
        !counts(v.prefix) && file.prefix.len() > 0 ==> merged(file, v, hostname).prefix == file.prefix,
        !counts(v.prefix) && file.prefix.len() == 0 ==> merged(file, v, hostname).prefix == "openhc"@,
        !counts(v.client_id) && file.client_id.len() > 0 ==> merged(file, v, hostname).client_id == file.client_id,
        !counts(v.client_id) && file.client_id.len() == 0 ==> merged(file, v, hostname).client_id == hostname,
        v.discovery is None ==> merged(file, v, hostname).discovery == file.discovery,
        v.url is None ==> merged(file, v, hostname).bridge == file.bridge,
        merged(file, v, hostname).serve == file.serve,
        merged(file, v, hostname).listen_port == file.listen_port,
{
}

proof fn lemma_pin(p: Seq<Seq<char>>, yes: bool, name: Seq<char>, q: Seq<char>)
    ensures
        pin(p, yes, name).contains(q) <==> p.contains(q) || (yes && q == name),
{
    let w = p.push(name);
    if p.contains(q) {
        let i = choose|i: int| 0 <= i < p.len() && p[i] == q;
        assert(w[i] == q);
    }
    assert(w[p.len() as int] == name);
}

/// A setting is marked as fixed by the environment exactly when the environment says
/// what it is.
pub proof fn law_what_the_environment_says_is_fixed(file: MqttModel, v: VarsModel, q: Seq<char>)
    ensures
        pins(file, v).contains(q) <==> {
            ||| q == "url"@ && counts(v.url)
            ||| q == "username"@ && counts(v.user)
            ||| q == "password"@ && counts(v.pass)
            ||| q == "ca_path"@ && counts(v.ca)
            ||| q == "client_cert_path"@ && counts(v.client_cert)
            ||| q == "client_key_path"@ && counts(v.client_key)
            ||| q == "prefix"@ && counts(v.prefix)
            ||| q == "client_id"@ && counts(v.client_id)
            ||| q == "discovery"@ && v.discovery is Some
            ||| q == "bridge"@ && v.url is Some && (counts(v.url) || file.url.len() > 0)
        },
{
    let p1 = pin(seq![], counts(v.url), "url"@);
    lemma_pin(seq![], counts(v.url), "url"@, q);
    let p2 = pin(p1, counts(v.user), "username"@);
    lemma_pin(p1, counts(v.user), "username"@, q);
    let p3 = pin(p2, counts(v.pass), "password"@);
    lemma_pin(p2, counts(v.pass), "password"@, q);
    let p4 = pin(p3, counts(v.ca), "ca_path"@);
    lemma_pin(p3, counts(v.ca), "ca_path"@, q);
    let p5 = pin(p4, counts(v.client_cert), "client_cert_path"@);
    lemma_pin(p4, counts(v.client_cert), "client_cert_path"@, q);
    let p6 = pin(p5, counts(v.client_key), "client_key_path"@);
    lemma_pin(p5, counts(v.client_key), "client_key_path"@, q);
    let p7 = pin(p6, counts(v.prefix), "prefix"@);
    lemma_pin(p6, counts(v.prefix), "prefix"@, q);
    let p8 = pin(p7, counts(v.client_id), "client_id"@);
    lemma_pin(p7, counts(v.client_id), "client_id"@, q);
    let p9 = pin(p8, v.discovery is Some, "discovery"@);
    lemma_pin(p8, v.discovery is Some, "discovery"@, q);
    let url = crate::iod::mqtt::settings::over(v.url, file.url);
    lemma_pin(p9, url.len() > 0 && v.url is Some, "bridge"@, q);
}

/// Without a file there is a broker of its own on the usual port, no bridge, and
/// announcements where they are looked for.
pub proof fn law_the_usual_settings(hostname: Seq<char>, v: VarsModel)
    requires
        v.url is None,
        !counts(v.prefix),
        !counts(v.client_id),
        v.discovery is None,
    ensures
        merged(unconfigured(), v, hostname).serve,
        merged(unconfigured(), v, hostname).listen_port == 1883,
        !merged(unconfigured(), v, hostname).bridge,
        merged(unconfigured(), v, hostname).prefix == "openhc"@,
        merged(unconfigured(), v, hostname).client_id == hostname,
        merged(unconfigured(), v, hostname).discovery == "homeassistant"@,
{
    reveal_strlit("");
    reveal_strlit("openhc");
}

// ----------------------------------------------------------------------------- polling

/// Contacts are read every round and the slow things every tenth; what a board lacks is
/// never read. The rounds count on, and start over.
pub proof fn law_what_is_read_when(tick: u32, contacts: nat, relays: nat)
    ensures
        due(tick, contacts, relays).contacts <==> contacts > 0,
        due(tick, contacts, relays).leds <==> tick % 10 == 1,
        due(tick, contacts, relays).relays <==> relays > 0 && tick % 10 == 1,
        round_after(tick) == (tick + 1) % 0x1_0000_0000,
{
}

/// Each relay and each contact is told under its own number, counted from one.
pub proof fn law_each_thing_is_told_under_its_number(on: Seq<bool>, mask: u32, count: nat, i: int)
    ensures
        0 <= i < on.len() ==> relay_updates_of(on)[i] == ("relay/"@ + dec((i + 1) as nat), JsonModel::Bool(on[i])),
        relay_updates_of(on).len() == on.len(),
        contact_updates_of(None, count) == seq![("mcu/link"@, JsonModel::Bool(false))],
        contact_updates_of(Some(mask), count).len() == count + 1,
        contact_updates_of(Some(mask), count)[0] == ("mcu/link"@, JsonModel::Bool(true)),
        0 <= i < count ==> contact_updates_of(Some(mask), count)[i + 1] == (
            "contact/"@ + dec((i + 1) as nat),
            JsonModel::Bool((mask >> (i as u32)) & 1 == 1),
        ),
{
}

} // verus!
