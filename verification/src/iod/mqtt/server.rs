//! Serving MQTT: to the configuration page over a WebSocket, and to anything
//! else on the LAN over plain TCP.
//!
//! This is not a general broker. It carries exactly one device's topics, has no
//! persistence and no QoS 2.
use crate::flasher::board::opt_str;
use crate::iod::api::{constant_eq, holds};
use crate::iod::events::Msg;
use crate::iod::fault::{Fault, FaultModel};
use crate::iod::mqtt::topics::{filter_matches, retained, retained_of, route, route_of, routed, Routed, RoutedModel};
use crate::iod::ops::nothing;
use crate::json::{members, object, put, text, with, written, Json, JsonModel, Member};
use crate::num::two_bytes;
use crate::text::{
    bytes_of, cat2, from_chars, lossy, lossy_text, opt, strings, strip_prefix, strip_prefix_str, to_chars, utf8,
};
use bytes::BytesMut;
use rumqttc::mqttbytes::Error as WireError;
use rumqttc::Packet as Wire;
use rumqttc::{ConnAck, ConnectReturnCode, PubAck, Publish, QoS, SubAck, SubscribeReasonCode, UnsubAck};
use vstd::prelude::*;
use vstd::string::*;

verus! {

/// Cap on a single packet: an unbounded read is a way to be killed by one client.
pub const MAX_PACKET: usize = 262144;

// --------------------------------------------------------------------------- packets

/// A packet of a client, as far as this endpoint cares. QoS levels are their
/// numbers.
#[derive(Debug)]
pub enum Packet {
    /// The client's password, if it logs in.
    Connect(Option<String>),
    /// The packet's id, and each filter with the level it asks for.
    Subscribe(u16, Vec<(String, u8)>),
    Unsubscribe(u16, Vec<String>),
    /// Topic, payload, level and id.
    Publish(String, Vec<u8>, u8, u16),
    PingReq,
    Disconnect,
    Other,
    /// Not a whole packet yet.
    Partial,
    /// Not a packet.
    Broken,
}

pub ghost enum PacketModel {
    Connect(Option<Seq<char>>),
    Subscribe(u16, Seq<(Seq<char>, u8)>),
    Unsubscribe(u16, Seq<Seq<char>>),
    Publish(Seq<char>, Seq<u8>, u8, u16),
    PingReq,
    Disconnect,
    Other,
    Partial,
    Broken,
}

/// The models of filters with their levels.
pub open spec fn filters_of(v: Seq<(String, u8)>) -> Seq<(Seq<char>, u8)> {
    v.map_values(|f: (String, u8)| (f.0@, f.1))
}

impl View for Packet {
    type V = PacketModel;

    open spec fn view(&self) -> PacketModel {
        match self {
            Packet::Connect(pass) => PacketModel::Connect(opt(*pass)),
            Packet::Subscribe(pkid, f) => PacketModel::Subscribe(*pkid, filters_of(f@)),
            Packet::Unsubscribe(pkid, t) => PacketModel::Unsubscribe(*pkid, strings(t@)),
            Packet::Publish(topic, payload, qos, pkid) => PacketModel::Publish(topic@, payload@, *qos, *pkid),
            Packet::PingReq => PacketModel::PingReq,
            Packet::Disconnect => PacketModel::Disconnect,
            Packet::Other => PacketModel::Other,
            Packet::Partial => PacketModel::Partial,
            Packet::Broken => PacketModel::Broken,
        }
    }
}

/// The first packet of a byte stream within a size, and the bytes after it, as
/// rumqttc reads them.
pub uninterp spec fn mqtt_read(stream: Seq<u8>, max: nat) -> (PacketModel, Seq<u8>);

/// The stream ends in these bytes.
pub open spec fn ends_with(stream: Seq<u8>, rest: Seq<u8>) -> bool {
    rest.len() <= stream.len() && rest == stream.skip(stream.len() - rest.len())
}

/// A packet that carries no message and takes no subscription back.
pub open spec fn plain_packet(p: PacketModel) -> PacketModel {
    match p {
        PacketModel::Publish(_, _, _, _) => PacketModel::Other,
        PacketModel::Unsubscribe(_, _) => PacketModel::Other,
        _ => p,
    }
}

/// The packets that `plain_packet` leaves out.
pub open spec fn message_packet(p: PacketModel) -> PacketModel {
    match p {
        PacketModel::Publish(_, _, _, _) => p,
        PacketModel::Unsubscribe(_, _) => p,
        _ => PacketModel::Other,
    }
}

/// `rumqttc::Packet::read`, with its packet's fields moved over one by one: the
/// packet and what is left of the stream depend on the stream and the limit
/// alone. A packet kind that this endpoint does not serve is `Other`, and so are
/// the two that `read_message` tells apart; an error for want of bytes is
/// `Partial` and any other error is `Broken`. Fewer than two bytes are never a
/// packet; an unfinished packet stays in the stream, and a whole one, of two bytes
/// at least, is taken off its front. How bytes spell a packet is left to the name.
#[verifier::external_body]
fn read_packet(stream: &[u8], max: usize) -> (r: (Packet, Vec<u8>))
    ensures
        r.0@ == plain_packet(mqtt_read(stream@, max as nat).0),
        r.1@ == mqtt_read(stream@, max as nat).1,
        stream@.len() < 2 ==> r.0 is Partial,
        r.0 is Partial ==> r.1@ == stream@,
        !(r.0 is Partial || r.0 is Broken) ==> ends_with(stream@, r.1@) && r.1@.len() + 2 <= stream@.len(),
{
    let mut b = BytesMut::from(stream);
    let p = match Wire::read(&mut b, max) {
        Ok(Wire::Connect(c)) => Packet::Connect(c.login.map(|l| l.password)),
        Ok(Wire::Subscribe(s)) => {
            Packet::Subscribe(s.pkid, s.filters.into_iter().map(|f| (f.path, f.qos as u8)).collect())
        },
        Ok(Wire::PingReq) => Packet::PingReq,
        Ok(Wire::Disconnect) => Packet::Disconnect,
        Ok(_) => Packet::Other,
        Err(WireError::InsufficientBytes(_)) => Packet::Partial,
        Err(_) => Packet::Broken,
    };
    (p, b.to_vec())
}

/// `rumqttc::Packet::read`, as in `read_packet`, for the two kinds that one
/// leaves out: a message, and a subscription taken back. Any other packet and any
/// error is `Other`.
#[verifier::external_body]
fn read_message(stream: &[u8], max: usize) -> (r: Packet)
    ensures
        r@ == message_packet(mqtt_read(stream@, max as nat).0),
{
    match Wire::read(&mut BytesMut::from(stream), max) {
        Ok(Wire::Publish(p)) => Packet::Publish(p.topic, p.payload.to_vec(), p.qos as u8, p.pkid),
        Ok(Wire::Unsubscribe(u)) => Packet::Unsubscribe(u.pkid, u.topics),
        _ => Packet::Other,
    }
}

/// Decodes a byte stream into packets, whatever carried the bytes.
#[derive(Debug)]
pub struct Framer {
    buf: Vec<u8>,
}

impl View for Framer {
    type V = Seq<u8>;

    closed spec fn view(&self) -> Seq<u8> {
        self.buf@
    }
}

/// What a read comes to: the stream after it, and a packet, none yet, or an end.
pub open spec fn taken(stream: Seq<u8>, read: (PacketModel, Seq<u8>)) -> (
    Seq<u8>,
    Result<Option<PacketModel>, ()>,
) {
    match read.0 {
        PacketModel::Partial => (stream, Ok(None)),
        PacketModel::Broken => (read.1, Err(())),
        p => (read.1, Ok(Some(p))),
    }
}

pub open spec fn next_model(r: Result<Option<Packet>, ()>) -> Result<Option<PacketModel>, ()> {
    match r {
        Ok(Some(p)) => Ok(Some(p@)),
        Ok(None) => Ok(None),
        Err(_) => Err(()),
    }
}

impl Framer {
    pub fn new() -> (r: Framer)
        ensures
            r@ == Seq::<u8>::empty(),
    {
        Framer { buf: Vec::new() }
    }

    pub fn feed(&mut self, bytes: &[u8])
        ensures
            final(self)@ == old(self)@ + bytes@,
    {
        let ghost was = self.buf@;
        let mut i: usize = 0;
        assert(was + bytes@.take(0) =~= was);
        while i < bytes.len()
            invariant
                i <= bytes@.len(),
                self.buf@ == was + bytes@.take(i as int),
            decreases bytes@.len() - i,
        {
            self.buf.push(bytes[i]);
            assert(self.buf@ =~= was + bytes@.take(i + 1));
            i += 1;
        }
        assert(bytes@.take(bytes@.len() as int) =~= bytes@);
    }

    /// Take what a read of the buffer gave.
    pub fn take(&mut self, packet: Packet, rest: Vec<u8>) -> (r: Result<Option<Packet>, ()>)
        ensures
            (final(self)@, next_model(r)) == taken(old(self)@, (packet@, rest@)),
    {
        match packet {
            Packet::Partial => Ok(None),
            Packet::Broken => {
                self.buf = rest;
                Err(())
            },
            p => {
                self.buf = rest;
                Ok(Some(p))
            },
        }
    }

    /// Next complete packet, if one has arrived.
    pub fn next(&mut self) -> (r: Result<Option<Packet>, ()>)
        ensures
            (final(self)@, next_model(r)) == taken(old(self)@, mqtt_read(old(self)@, MAX_PACKET as nat)),
            old(self)@.len() < 2 ==> r == Ok::<Option<Packet>, ()>(None),
            r == Ok::<Option<Packet>, ()>(None) ==> final(self)@ == old(self)@,
            r matches Ok(Some(_)) ==> ends_with(old(self)@, final(self)@) && final(self)@.len() + 2 <= old(
                self,
            )@.len(),
    {
        let (plain, rest) = read_packet(self.buf.as_slice(), MAX_PACKET);
        let packet = match plain {
            Packet::Other => read_message(self.buf.as_slice(), MAX_PACKET),
            p => p,
        };
        self.take(packet, rest)
    }
}

/// What this endpoint sends.
#[derive(Debug)]
pub enum Reply {
    Accepted,
    /// Wrong user name or password.
    Refused,
    /// The packet's id and the level granted for each filter.
    SubAck(u16, Vec<u8>),
    UnsubAck(u16),
    PubAck(u16),
    PingResp,
    /// Topic, payload, and whether it is retained. Always at most once.
    Publish(String, String, bool),
}

pub ghost enum ReplyModel {
    Accepted,
    Refused,
    SubAck(u16, Seq<u8>),
    UnsubAck(u16),
    PubAck(u16),
    PingResp,
    Publish(Seq<char>, Seq<char>, bool),
}

impl View for Reply {
    type V = ReplyModel;

    open spec fn view(&self) -> ReplyModel {
        match self {
            Reply::Accepted => ReplyModel::Accepted,
            Reply::Refused => ReplyModel::Refused,
            Reply::SubAck(pkid, codes) => ReplyModel::SubAck(*pkid, codes@),
            Reply::UnsubAck(pkid) => ReplyModel::UnsubAck(*pkid),
            Reply::PubAck(pkid) => ReplyModel::PubAck(*pkid),
            Reply::PingResp => ReplyModel::PingResp,
            Reply::Publish(topic, payload, retain) => ReplyModel::Publish(topic@, payload@, *retain),
        }
    }
}

/// The models of a list of replies.
pub open spec fn replies(v: Seq<Reply>) -> Seq<ReplyModel> {
    v.map_values(|r: Reply| r@)
}

pub open spec fn opt_vec(o: Option<Vec<u8>>) -> Option<Seq<u8>> {
    match o {
        Some(v) => Some(v@),
        None => None,
    }
}

/// A length in groups of seven bits, the lowest first; every group but the last
/// has its top bit set.
pub open spec fn length_bytes(n: nat) -> Seq<u8>
    decreases n,
{
    if n < 128 {
        seq![n as u8]
    } else {
        seq![(n % 128 + 128) as u8] + length_bytes(n / 128)
    }
}

/// A packet: its first byte, the length of what follows, and what follows.
pub open spec fn framed(first: u8, rest: Seq<u8>) -> Seq<u8> {
    seq![first] + length_bytes(rest.len()) + rest
}

/// A granted level goes out as itself, and what is no level as the failure code.
pub open spec fn level_byte(level: u8) -> u8 {
    if level <= 2 {
        level
    } else {
        128
    }
}

/// A reply on the wire.
pub open spec fn reply_bytes(p: ReplyModel) -> Seq<u8> {
    match p {
        ReplyModel::Accepted => framed(0x20, seq![0u8, 0u8]),
        ReplyModel::Refused => framed(0x20, seq![0u8, 4u8]),
        ReplyModel::SubAck(pkid, levels) => framed(
            0x90,
            two_bytes(pkid as nat) + levels.map_values(|l: u8| level_byte(l)),
        ),
        ReplyModel::UnsubAck(pkid) => framed(0xb0, two_bytes(pkid as nat)),
        ReplyModel::PubAck(pkid) => framed(0x40, two_bytes(pkid as nat)),
        ReplyModel::PingResp => framed(0xd0, seq![]),
        ReplyModel::Publish(topic, payload, retain) => framed(
            if retain {
                0x31
            } else {
                0x30
            },
            two_bytes(utf8(topic).len()) + utf8(topic) + utf8(payload),
        ),
    }
}

/// The bytes of a reply that fits a limit.
pub open spec fn within(p: ReplyModel, max: nat) -> Option<Seq<u8>> {
    if reply_bytes(p).len() <= max {
        Some(reply_bytes(p))
    } else {
        None
    }
}

/// The most bytes that a packet's length can count.
pub const LONGEST: usize = 268435455;

/// `rumqttc::Packet::write`, on a connection acknowledgement that lets the client
/// in: its bytes, or none where they are over the limit.
#[verifier::external_body]
fn write_accepted(max: usize) -> (r: Option<Vec<u8>>)
    requires
        max <= LONGEST,
    ensures
        opt_vec(r) == within(ReplyModel::Accepted, max as nat),
{
    let mut b = BytesMut::new();
    Wire::ConnAck(ConnAck::new(ConnectReturnCode::Success, false)).write(&mut b, max).ok().map(|_| b.to_vec())
}

/// `rumqttc::Packet::write`, on a connection acknowledgement that turns the client
/// away: its bytes, or none where they are over the limit.
#[verifier::external_body]
fn write_refused(max: usize) -> (r: Option<Vec<u8>>)
    requires
        max <= LONGEST,
    ensures
        opt_vec(r) == within(ReplyModel::Refused, max as nat),
{
    let mut b = BytesMut::new();
    Wire::ConnAck(ConnAck::new(ConnectReturnCode::BadUserNamePassword, false)).write(&mut b, max).ok().map(|_| b.to_vec())
}

/// `rumqttc::Packet::write`, on the acknowledgement of a subscription taken back:
/// its bytes, or none where they are over the limit.
#[verifier::external_body]
fn write_unsuback(pkid: u16, max: usize) -> (r: Option<Vec<u8>>)
    requires
        max <= LONGEST,
    ensures
        opt_vec(r) == within(ReplyModel::UnsubAck(pkid), max as nat),
{
    let mut b = BytesMut::new();
    Wire::UnsubAck(UnsubAck::new(pkid)).write(&mut b, max).ok().map(|_| b.to_vec())
}

/// `rumqttc::Packet::write`, on the acknowledgement of a message: its bytes, or
/// none where they are over the limit.
#[verifier::external_body]
fn write_puback(pkid: u16, max: usize) -> (r: Option<Vec<u8>>)
    requires
        max <= LONGEST,
    ensures
        opt_vec(r) == within(ReplyModel::PubAck(pkid), max as nat),
{
    let mut b = BytesMut::new();
    Wire::PubAck(PubAck::new(pkid)).write(&mut b, max).ok().map(|_| b.to_vec())
}

/// `rumqttc::Packet::write`, on the answer to a ping: its bytes, or none where they
/// are over the limit.
#[verifier::external_body]
fn write_pong(max: usize) -> (r: Option<Vec<u8>>)
    requires
        max <= LONGEST,
    ensures
        opt_vec(r) == within(ReplyModel::PingResp, max as nat),
{
    let mut b = BytesMut::new();
    Wire::PingResp.write(&mut b, max).ok().map(|_| b.to_vec())
}

/// `rumqttc::Packet::write`, on the acknowledgement of a subscription: its bytes,
/// or none where they are over the limit. A level that is no reason code of the
/// protocol goes out as its failure code.
#[verifier::external_body]
fn write_suback(pkid: u16, levels: &Vec<u8>, max: usize) -> (r: Option<Vec<u8>>)
    requires
        max <= LONGEST,
    ensures
        opt_vec(r) == within(ReplyModel::SubAck(pkid, levels@), max as nat),
{
    let fail = SubscribeReasonCode::Failure;
    let codes = levels.iter().map(|c| SubscribeReasonCode::try_from(*c).unwrap_or(fail)).collect();
    let mut b = BytesMut::new();
    Wire::SubAck(SubAck::new(pkid, codes)).write(&mut b, max).ok().map(|_| b.to_vec())
}

/// `rumqttc::Packet::write`, on a message that is sent at most once: its bytes, or
/// none where they are over the limit.
#[verifier::external_body]
fn write_publish(topic: &str, payload: &str, retain: bool, max: usize) -> (r: Option<Vec<u8>>)
    requires
        max <= LONGEST,
    ensures
        opt_vec(r) == within(ReplyModel::Publish(topic@, payload@, retain), max as nat),
{
    let mut b = BytesMut::new();
    let p = Publish { retain, ..Publish::new(topic, QoS::AtMostOnce, payload) };
    Wire::Publish(p).write(&mut b, max).ok().map(|_| b.to_vec())
}

/// The bytes of a reply; none for one that is over the limit.
pub fn encode(p: &Reply) -> (r: Option<Vec<u8>>)
    ensures
        opt_vec(r) == within(p@, MAX_PACKET as nat),
{
    match p {
        Reply::Accepted => write_accepted(MAX_PACKET),
        Reply::Refused => write_refused(MAX_PACKET),
        Reply::SubAck(pkid, levels) => write_suback(*pkid, levels, MAX_PACKET),
        Reply::UnsubAck(pkid) => write_unsuback(*pkid, MAX_PACKET),
        Reply::PubAck(pkid) => write_puback(*pkid, MAX_PACKET),
        Reply::PingResp => write_pong(MAX_PACKET),
        Reply::Publish(topic, payload, retain) => write_publish(topic.as_str(), payload.as_str(), *retain, MAX_PACKET),
    }
}

// --------------------------------------------------------------------------- session

#[derive(Debug, PartialEq, Eq, Clone, Copy, Structural)]
pub enum At {
    /// Nothing is answered until CONNECT.
    Fresh,
    Open,
    Over,
}

/// One connected client, whatever carries it.
#[derive(Debug)]
pub struct Session {
    pub base: String,
    pub at: At,
    pub filters: Vec<String>,
}

pub ghost struct SessionModel {
    pub base: Seq<char>,
    pub at: At,
    pub filters: Seq<Seq<char>>,
}

impl View for Session {
    type V = SessionModel;

    open spec fn view(&self) -> SessionModel {
        SessionModel { base: self.base@, at: self.at, filters: strings(self.filters@) }
    }
}

/// What one packet comes to: the replies, and the command it carries, if it does.
#[derive(Debug)]
pub struct Turn {
    pub replies: Vec<Reply>,
    /// The topic's tail and the payload.
    pub command: Option<(String, String)>,
}

pub ghost struct TurnModel {
    pub replies: Seq<ReplyModel>,
    pub command: Option<(Seq<char>, Seq<char>)>,
}

impl View for Turn {
    type V = TurnModel;

    open spec fn view(&self) -> TurnModel {
        TurnModel {
            replies: replies(self.replies@),
            command: match self.command {
                Some((t, b)) => Some((t@, b@)),
                None => None,
            },
        }
    }
}

pub open spec fn answering(v: Seq<ReplyModel>) -> TurnModel {
    TurnModel { replies: v, command: None }
}

/// The topics this endpoint answers for: every retained one, and that it is up.
pub open spec fn served(base: Seq<char>, doc: JsonModel) -> Seq<RoutedModel> {
    retained_of(base, doc).push(
        RoutedModel { topic: base + "/status"@, payload: "online"@, retain: true },
    )
}

/// Those that a filter lets through.
pub open spec fn passing(v: Seq<RoutedModel>, filter: Seq<char>) -> Seq<ReplyModel>
    decreases v.len(),
{
    if v.len() == 0 {
        seq![]
    } else if filter_matches(filter, v.last().topic) {
        passing(v.drop_last(), filter).push(ReplyModel::Publish(v.last().topic, v.last().payload, true))
    } else {
        passing(v.drop_last(), filter)
    }
}

pub open spec fn replayed(base: Seq<char>, doc: JsonModel, filters: Seq<Seq<char>>) -> Seq<ReplyModel>
    decreases filters.len(),
{
    if filters.len() == 0 {
        seq![]
    } else {
        replayed(base, doc, filters.drop_last()) + passing(served(base, doc), filters.last())
    }
}

/// The level granted: this endpoint does not speak QoS 2, and granting a level it
/// cannot honour is worse than granting a lower one.
pub open spec fn granted(qos: u8) -> u8 {
    if qos == 2 {
        1
    } else {
        qos
    }
}

pub open spec fn paths(v: Seq<(Seq<char>, u8)>) -> Seq<Seq<char>> {
    v.map_values(|f: (Seq<char>, u8)| f.0)
}

pub open spec fn codes(v: Seq<(Seq<char>, u8)>) -> Seq<u8> {
    v.map_values(|f: (Seq<char>, u8)| granted(f.1))
}

/// Is a client let in? The API token doubles as the password.
pub open spec fn may_enter(want: Option<Seq<char>>, pass: Option<Seq<char>>) -> bool {
    match want {
        None => true,
        Some(w) => w.len() == 0 || utf8(
            match pass {
                Some(p) => p,
                None => ""@,
            },
        ) == utf8(w),
    }
}

/// The command a publication carries: only `<base>/cmd/…` means anything.
pub open spec fn command_in(base: Seq<char>, topic: Seq<char>, payload: Seq<u8>) -> Option<
    (Seq<char>, Seq<char>),
> {
    match strip_prefix(topic, base + "/cmd/"@) {
        Some(tail) => Some((tail, lossy_text(payload))),
        None => None,
    }
}

impl SessionModel {
    pub open spec fn turn(self, p: PacketModel, want: Option<Seq<char>>, doc: JsonModel) -> (
        SessionModel,
        TurnModel,
    ) {
        match self.at {
            At::Over => (self, answering(seq![])),
            At::Fresh => match p {
                PacketModel::Connect(pass) => if may_enter(want, pass) {
                    (SessionModel { at: At::Open, ..self }, answering(seq![ReplyModel::Accepted]))
                } else {
                    (SessionModel { at: At::Over, ..self }, answering(seq![ReplyModel::Refused]))
                },
                _ => (SessionModel { at: At::Over, ..self }, answering(seq![])),
            },
            At::Open => match p {
                PacketModel::Subscribe(pkid, f) => (
                    SessionModel { filters: self.filters + paths(f), ..self },
                    answering(
                        seq![ReplyModel::SubAck(pkid, codes(f))] + replayed(self.base, doc, paths(f)),
                    ),
                ),
                PacketModel::Unsubscribe(pkid, t) => (
                    SessionModel { filters: crate::iod::api::dropped(self.filters, t), ..self },
                    answering(seq![ReplyModel::UnsubAck(pkid)]),
                ),
                PacketModel::Publish(topic, payload, qos, pkid) => (
                    self,
                    TurnModel {
                        replies: if qos == 1 {
                            seq![ReplyModel::PubAck(pkid)]
                        } else {
                            seq![]
                        },
                        command: command_in(self.base, topic, payload),
                    },
                ),
                PacketModel::PingReq => (self, answering(seq![ReplyModel::PingResp])),
                PacketModel::Disconnect => (SessionModel { at: At::Over, ..self }, answering(seq![])),
                _ => (self, answering(seq![])),
            },
        }
    }
}

fn push_passing(out: &mut Vec<Reply>, v: &Vec<Routed>, filter: &str)
    ensures
        replies(final(out)@) == replies(old(out)@) + passing(routed(v@), filter@),
{
    let ghost start = replies(out@);
    let ghost all = routed(v@);
    let mut i: usize = 0;
    assert(start + passing(all.take(0), filter@) =~= start);
    while i < v.len()
        invariant
            i <= v@.len(),
            all == routed(v@),
            replies(out@) == start + passing(all.take(i as int), filter@),
        decreases v@.len() - i,
    {
        assert(all.take(i + 1).drop_last() =~= all.take(i as int));
        assert(all.take(i + 1).last() == v@[i as int]@);
        if crate::iod::mqtt::topics::matches(filter, v[i].topic.as_str()) {
            let ghost was = replies(out@);
            let p = Reply::Publish(v[i].topic.clone(), v[i].payload.clone(), true);
            let ghost m = p@;
            out.push(p);
            assert(replies(out@) =~= was.push(m));
            assert(was.push(m) =~= start + passing(all.take(i as int), filter@).push(m));
        }
        i += 1;
    }
    assert(all.take(all.len() as int) =~= all);
}

fn serve(base: &str, doc: &Json) -> (r: Vec<Routed>)
    ensures
        routed(r@) == served(base@, doc@),
{
    let mut v = retained(base, doc);
    let ghost was = routed(v@);
    let m = Routed { topic: cat2(base, "/status"), payload: String::from_str("online"), retain: true };
    v.push(m);
    assert(routed(v@) =~= was.push(m@));
    v
}

fn replay(out: &mut Vec<Reply>, base: &str, doc: &Json, filters: &Vec<String>)
    ensures
        replies(final(out)@) == replies(old(out)@) + replayed(base@, doc@, strings(filters@)),
{
    let v = serve(base, doc);
    let ghost start = replies(out@);
    let ghost all = strings(filters@);
    let mut i: usize = 0;
    assert(start + replayed(base@, doc@, all.take(0)) =~= start);
    while i < filters.len()
        invariant
            i <= filters@.len(),
            all == strings(filters@),
            routed(v@) == served(base@, doc@),
            replies(out@) == start + replayed(base@, doc@, all.take(i as int)),
        decreases filters@.len() - i,
    {
        assert(all.take(i + 1).drop_last() =~= all.take(i as int));
        assert(all.take(i + 1).last() == filters@[i as int]@);
        let ghost was = replayed(base@, doc@, all.take(i as int));
        push_passing(out, &v, filters[i].as_str());
        assert(start + was + passing(served(base@, doc@), all[i as int]) =~= start + (was + passing(
            served(base@, doc@),
            all[i as int],
        )));
        i += 1;
    }
    assert(all.take(all.len() as int) =~= all);
}

fn one(r: Reply) -> (v: Vec<Reply>)
    ensures
        replies(v@) == seq![r@],
{
    let ghost m = r@;
    let mut v: Vec<Reply> = Vec::new();
    v.push(r);
    assert(replies(v@) =~= seq![m]);
    v
}

fn none() -> (v: Vec<Reply>)
    ensures
        replies(v@) == Seq::<ReplyModel>::empty(),
{
    let v: Vec<Reply> = Vec::new();
    assert(replies(v@) =~= seq![]);
    v
}

fn plain(replies: Vec<Reply>) -> (r: Turn)
    ensures
        r@ == answering(self::replies(replies@)),
{
    Turn { replies, command: None }
}

fn enters(want: Option<&str>, pass: &Option<String>) -> (r: bool)
    ensures
        r == may_enter(opt_str(want), opt(*pass)),
{
    match want {
        None => true,
        Some(w) => {
            if to_chars(w).len() == 0 {
                return true;
            }
            let got = match pass {
                Some(p) => bytes_of(p.as_str()),
                None => bytes_of(""),
            };
            let b = bytes_of(w);
            constant_eq(got.as_slice(), b.as_slice())
        },
    }
}

impl Session {
    pub fn new(base: &str) -> (r: Session)
        ensures
            r@ == (SessionModel { base: base@, at: At::Fresh, filters: seq![] }),
    {
        let r = Session { base: String::from_str(base), at: At::Fresh, filters: Vec::new() };
        assert(strings(r.filters@) =~= seq![]);
        r
    }

    fn subscribe(&mut self, pkid: u16, asked: &Vec<(String, u8)>, doc: &Json) -> (r: Turn)
        requires
            old(self)@.at == At::Open,
        ensures
            (final(self)@, r@) == old(self)@.turn(
                PacketModel::Subscribe(pkid, filters_of(asked@)),
                None,
                doc@,
            ),
    {
        let ghost start = strings(self.filters@);
        let ghost f = filters_of(asked@);
        let mut wanted: Vec<String> = Vec::new();
        let mut levels: Vec<u8> = Vec::new();
        let mut i: usize = 0;
        assert(start + paths(f).take(0) =~= start);
        while i < asked.len()
            invariant
                i <= asked@.len(),
                f == filters_of(asked@),
                strings(wanted@) == paths(f).take(i as int),
                levels@ == codes(f).take(i as int),
                strings(self.filters@) == start + paths(f).take(i as int),
                self.at == At::Open,
                self.base@ == old(self)@.base,
            decreases asked@.len() - i,
        {
            let ghost was = strings(wanted@);
            let ghost held = strings(self.filters@);
            let p = asked[i].0.clone();
            let q = asked[i].0.clone();
            wanted.push(p);
            assert(strings(wanted@) =~= was.push(f[i as int].0));
            self.filters.push(q);
            assert(strings(self.filters@) =~= held.push(f[i as int].0));
            let level: u8 = asked[i].1;
            levels.push(if level == 2 { 1 } else { level });
            assert(levels@ =~= codes(f).take(i + 1));
            assert(paths(f).take(i + 1) =~= paths(f).take(i as int).push(f[i as int].0));
            assert(held.push(f[i as int].0) =~= start + paths(f).take(i + 1));
            i += 1;
        }
        assert(paths(f).take(asked@.len() as int) =~= paths(f));
        assert(codes(f).take(asked@.len() as int) =~= codes(f));
        let mut out = one(Reply::SubAck(pkid, levels));
        replay(&mut out, self.base.as_str(), doc, &wanted);
        plain(out)
    }

    fn unsubscribe(&mut self, topics: &Vec<String>)
        ensures
            final(self)@ == (SessionModel {
                filters: crate::iod::api::dropped(old(self)@.filters, strings(topics@)),
                ..old(self)@
            }),
    {
        let ghost all = strings(self.filters@);
        let mut out: Vec<String> = Vec::new();
        let mut i: usize = 0;
        assert(strings(out@) =~= crate::iod::api::dropped(all.take(0), strings(topics@)));
        while i < self.filters.len()
            invariant
                i <= self.filters@.len(),
                all == strings(self.filters@),
                strings(out@) == crate::iod::api::dropped(all.take(i as int), strings(topics@)),
            decreases self.filters@.len() - i,
        {
            assert(all.take(i + 1).drop_last() =~= all.take(i as int));
            assert(all.take(i + 1).last() == self.filters@[i as int]@);
            if !holds(topics, self.filters[i].as_str()) {
                let ghost was = strings(out@);
                let c = self.filters[i].clone();
                out.push(c);
                assert(strings(out@) =~= was.push(c@));
            }
            i += 1;
        }
        assert(all.take(all.len() as int) =~= all);
        self.filters = out;
    }

    /// One packet from the client. `want` is the configured token, `doc` the
    /// state document.
    pub fn hear(&mut self, p: Packet, want: Option<&str>, doc: &Json) -> (r: Turn)
        ensures
            (final(self)@, r@) == old(self)@.turn(p@, opt_str(want), doc@),
    {
        match self.at {
            At::Over => plain(none()),
            At::Fresh => match p {
                Packet::Connect(pass) => {
                    if enters(want, &pass) {
                        self.at = At::Open;
                        plain(one(Reply::Accepted))
                    } else {
                        self.at = At::Over;
                        plain(one(Reply::Refused))
                    }
                },
                _ => {
                    self.at = At::Over;
                    plain(none())
                },
            },
            At::Open => match p {
                Packet::Subscribe(pkid, f) => self.subscribe(pkid, &f, doc),
                Packet::Unsubscribe(pkid, t) => {
                    self.unsubscribe(&t);
                    plain(one(Reply::UnsubAck(pkid)))
                },
                Packet::Publish(topic, payload, qos, pkid) => {
                    let out = if qos == 1 {
                        one(Reply::PubAck(pkid))
                    } else {
                        none()
                    };
                    let prefix = cat2(self.base.as_str(), "/cmd/");
                    let chars = to_chars(topic.as_str());
                    let command = match strip_prefix_str(chars.as_slice(), prefix.as_str()) {
                        Some(tail) => Some((from_chars(tail), lossy(payload.as_slice()))),
                        None => None,
                    };
                    Turn { replies: out, command }
                },
                Packet::PingReq => plain(one(Reply::PingResp)),
                Packet::Disconnect => {
                    self.at = At::Over;
                    plain(none())
                },
                _ => plain(none()),
            },
        }
    }

    /// A message of the bus: sent on where a filter lets it through.
    pub fn overhear(&self, msg: &Msg) -> (r: Option<Reply>)
        ensures
            match route_of(self@.base, msg@) {
                Some(m) => if crate::iod::api::any_matches(self@.filters, m.topic) {
                    r is Some && r->0@ == ReplyModel::Publish(m.topic, m.payload, m.retain)
                } else {
                    r is None
                },
                None => r is None,
            },
    {
        match route(self.base.as_str(), msg) {
            Some(m) => {
                if crate::iod::api::any_filter(&self.filters, m.topic.as_str()) {
                    Some(Reply::Publish(m.topic, m.payload, m.retain))
                } else {
                    None
                }
            },
            None => None,
        }
    }

    /// A client that could not keep up: its view of the state is a guess, so
    /// everything retained is replayed.
    pub fn lagged(&self, doc: &Json) -> (r: Vec<Reply>)
        ensures
            replies(r@) == replayed(self@.base, doc@, self@.filters),
    {
        let mut out = none();
        replay(&mut out, self.base.as_str(), doc, &self.filters);
        assert(replies(out@) =~= replayed(self@.base, doc@, self@.filters));
        out
    }

    /// A command that failed is answered on the error topic.
    pub fn failed(&self, topic: &str, f: &Fault) -> (r: Reply)
        ensures
            r@ == ReplyModel::Publish(self@.base + "/error"@, written(failure_doc(topic@, f@)), false),
    {
        let e = failure(topic, f);
        Reply::Publish(cat2(self.base.as_str(), "/error"), e.to_text(), false)
    }
}

pub open spec fn failure_doc(topic: Seq<char>, f: FaultModel) -> JsonModel {
    let o = with(nothing(), "topic"@, JsonModel::Text(topic));
    let o = with(o, "code"@, JsonModel::Text(f.code()));
    JsonModel::Object(with(o, "message"@, JsonModel::Text(f.message())))
}

/// A failed command, as it is reported.
pub fn failure(topic: &str, f: &Fault) -> (r: Json)
    ensures
        r@ == failure_doc(topic@, f@),
{
    let mut o: Vec<Member> = Vec::new();
    assert(members(o@) =~= seq![]);
    put(&mut o, "topic", text(topic));
    put(&mut o, "code", text(f.code()));
    let m = f.message();
    put(&mut o, "message", text(m.as_str()));
    object(o)
}

// ------------------------------------------------------------------------------ laws

/// Nothing is answered and nothing is carried out before CONNECT.
pub proof fn law_connect_comes_first(
    s: SessionModel,
    p: PacketModel,
    want: Option<Seq<char>>,
    doc: JsonModel,
)
    requires
        s.at == At::Fresh,
        !(p is Connect),
    ensures
        s.turn(p, want, doc).0.at == At::Over,
        s.turn(p, want, doc).1 == answering(seq![]),
{
}

/// With a token configured, a client with another password is told so and is out.
pub proof fn law_a_wrong_password_is_refused(
    s: SessionModel,
    pass: Seq<char>,
    want: Seq<char>,
    doc: JsonModel,
)
    requires
        s.at == At::Fresh,
        want.len() > 0,
        utf8(pass) != utf8(want),
    ensures
        s.turn(PacketModel::Connect(Some(pass)), Some(want), doc).0.at == At::Over,
        s.turn(PacketModel::Connect(Some(pass)), Some(want), doc).1 == answering(seq![ReplyModel::Refused]),
{
}

proof fn lemma_passing(v: Seq<RoutedModel>, filter: Seq<char>, i: int)
    requires
        0 <= i < v.len(),
        filter_matches(filter, v[i].topic),
    ensures
        passing(v, filter).contains(ReplyModel::Publish(v[i].topic, v[i].payload, true)),
    decreases v.len(),
{
    let m = ReplyModel::Publish(v[i].topic, v[i].payload, true);
    let p = passing(v, filter);
    if i == v.len() - 1 {
        assert(p[p.len() - 1] == m);
    } else {
        let d = v.drop_last();
        lemma_passing(d, filter, i);
        let q = passing(d, filter);
        let k = choose|k: int| 0 <= k < q.len() && q[k] == m;
        assert(p[k] == m);
    }
}

/// A fresh subscriber is told every retained topic its filter lets through, so
/// that a page shows the truth and not blanks until something happens to change.
pub proof fn law_a_subscriber_is_told_the_state(
    s: SessionModel,
    pkid: u16,
    filter: Seq<char>,
    qos: u8,
    want: Option<Seq<char>>,
    doc: JsonModel,
    i: int,
)
    requires
        s.at == At::Open,
        0 <= i < served(s.base, doc).len(),
        filter_matches(filter, served(s.base, doc)[i].topic),
    ensures
        s.turn(PacketModel::Subscribe(pkid, seq![(filter, qos)]), want, doc).1.replies.contains(
            ReplyModel::Publish(served(s.base, doc)[i].topic, served(s.base, doc)[i].payload, true),
        ),
{
    let f = seq![(filter, qos)];
    let v = served(s.base, doc);
    let m = ReplyModel::Publish(v[i].topic, v[i].payload, true);
    lemma_passing(v, filter, i);
    let q = passing(v, filter);
    assert(paths(f) =~= seq![filter]);
    reveal_with_fuel(replayed, 2);
    assert(paths(f).drop_last() =~= seq![]);
    let r = replayed(s.base, doc, paths(f));
    assert(r =~= q);
    let all = seq![ReplyModel::SubAck(pkid, codes(f))] + r;
    let k = choose|k: int| 0 <= k < q.len() && q[k] == m;
    assert(all[k + 1] == m);
}

/// What a client publishes outside the command topics is ignored: this is a device
/// and not a message bus, so nothing is echoed and nothing is carried out.
pub proof fn law_only_commands_are_carried_out(
    s: SessionModel,
    topic: Seq<char>,
    payload: Seq<u8>,
    qos: u8,
    pkid: u16,
    want: Option<Seq<char>>,
    doc: JsonModel,
)
    requires
        s.at == At::Open,
        strip_prefix(topic, s.base + "/cmd/"@) is None,
    ensures
        s.turn(PacketModel::Publish(topic, payload, qos, pkid), want, doc).0 == s,
        s.turn(PacketModel::Publish(topic, payload, qos, pkid), want, doc).1.command is None,
        forall|i: int|
            0 <= i < s.turn(PacketModel::Publish(topic, payload, qos, pkid), want, doc).1.replies.len()
                ==> !(#[trigger] s.turn(PacketModel::Publish(topic, payload, qos, pkid), want, doc).1.replies[i]
                is Publish),
{
}

/// Whatever level a client asks for, none above one is granted: the handshake of
/// the highest is not spoken here.
pub proof fn law_no_level_above_one_is_granted(asked: Seq<(Seq<char>, u8)>, i: int)
    requires
        0 <= i < asked.len(),
        asked[i].1 <= 2,
    ensures
        codes(asked)[i] <= 1,
        asked[i].1 < 2 ==> codes(asked)[i] == asked[i].1,
{
}

} // verus!
