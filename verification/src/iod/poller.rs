//! Keeping the state mirror true, including when a line was driven by something
//! else: the mirror is read back, not written from what was last commanded.
use crate::iod::board::{Io, PortModel};
use crate::iod::events::{Bus, BusModel, Envelope, EnvelopeModel};
use crate::iod::gpio_io::bit;
use crate::iod::mqtt::settings::Mqtt;
use crate::iod::serial::{baud_path, port_path, viewers_path};
use crate::json::{pairs, Json, JsonModel};
use crate::num::{dec, dec_string};
use crate::text::{cat2, to_chars};
use vstd::prelude::*;
use vstd::string::*;

verus! {

/// The wait between two rounds.
pub const POLL_MS: u64 = 200;

/// Relays and LEDs are read every so many rounds: each relay is a round trip.
pub const RELAY_EVERY: u32 = 10;

/// What one round reads.
#[derive(Debug, PartialEq, Eq, Clone, Copy, Structural)]
pub struct Due {
    pub contacts: bool,
    pub leds: bool,
    pub relays: bool,
}

pub open spec fn round_after(tick: u32) -> u32 {
    if tick == 0xffff_ffff {
        0
    } else {
        (tick + 1) as u32
    }
}

pub open spec fn due(tick: u32, contacts: nat, relays: nat) -> Due {
    let slow = tick % RELAY_EVERY == 1;
    Due { contacts: contacts > 0, leds: slow, relays: relays > 0 && slow }
}

/// The next round: its number, and what it reads.
pub fn round(tick: &mut u32, io: &Io) -> (r: Due)
    ensures
        *final(tick) == round_after(*old(tick)),
        r == due(*final(tick), io@.contacts, io@.relays),
{
    *tick = if *tick == 0xffff_ffff { 0 } else { *tick + 1 };
    let slow: bool = *tick % RELAY_EVERY == 1;
    Due { contacts: io.contacts > 0, leds: slow, relays: io.relays > 0 && slow }
}

/// Updates applied in turn: the bus after them, and what was published.
pub open spec fn applied(b: BusModel, updates: Seq<(Seq<char>, JsonModel)>) -> (BusModel, Seq<EnvelopeModel>)
    decreases updates.len(),
{
    if updates.len() == 0 {
        (b, seq![])
    } else {
        let (m, out) = applied(b, updates.drop_last());
        let (n, e) = m.set(updates.last().0, updates.last().1);
        (
            n,
            match e {
                Some(x) => out.push(x),
                None => out,
            },
        )
    }
}

/// The models of a list of envelopes.
pub open spec fn envelopes(v: Seq<Envelope>) -> Seq<EnvelopeModel> {
    v.map_values(|e: Envelope| e@)
}

/// Record a list of state values; what changed comes back.
pub fn apply(bus: &mut Bus, updates: &Vec<(String, Json)>) -> (r: Vec<Envelope>)
    requires
        old(bus)@.seq + updates@.len() <= u64::MAX,
    ensures
        (final(bus)@, envelopes(r@)) == applied(old(bus)@, pairs(updates@)),
{
    let ghost start = bus@;
    let ghost all = pairs(updates@);
    let mut out: Vec<Envelope> = Vec::new();
    let mut i: usize = 0;
    assert(envelopes(out@) =~= applied(start, all.take(0)).1);
    while i < updates.len()
        invariant
            i <= updates@.len(),
            all == pairs(updates@),
            start.seq + updates@.len() <= u64::MAX,
            bus@.seq <= start.seq + i,
            bus@ == applied(start, all.take(i as int)).0,
            envelopes(out@) == applied(start, all.take(i as int)).1,
        decreases updates@.len() - i,
    {
        assert(all.take(i + 1).drop_last() =~= all.take(i as int));
        let ghost was = envelopes(out@);
        match bus.set(updates[i].0.as_str(), updates[i].1.copy()) {
            Some(e) => {
                out.push(e);
                assert(envelopes(out@) =~= was.push(e@));
            },
            None => {},
        }
        i += 1;
    }
    assert(all.take(all.len() as int) =~= all);
    out
}

pub open spec fn link_update(up: bool) -> (Seq<char>, JsonModel) {
    ("mcu/link"@, JsonModel::Bool(up))
}

/// What a contact read says: the link is up, and every contact by its label. A
/// read that failed says that the chip or the part behind it went away.
pub open spec fn contact_updates_of(mask: Option<u32>, count: nat) -> Seq<(Seq<char>, JsonModel)> {
    match mask {
        Some(m) => seq![link_update(true)] + Seq::new(
            count,
            |i: int| ("contact/"@ + dec((i + 1) as nat), JsonModel::Bool(bit(m, i))),
        ),
        None => seq![link_update(false)],
    }
}

pub fn contact_updates(mask: Option<u32>, count: u8) -> (r: Vec<(String, Json)>)
    requires
        count <= 32,
    ensures
        pairs(r@) == contact_updates_of(mask, count as nat),
{
    let mut out: Vec<(String, Json)> = Vec::new();
    let up: bool = mask.is_some();
    out.push((String::from_str("mcu/link"), Json::Bool(up)));
    assert(pairs(out@) =~= seq![link_update(up)]);
    if let Some(m) = mask {
        let ghost want = contact_updates_of(mask, count as nat);
        let mut i: u8 = 0;
        assert(want.take(1) =~= seq![link_update(true)]);
        while i < count
            invariant
                i <= count <= 32,
                want == contact_updates_of(Some(m), count as nat),
                pairs(out@) == want.take(i + 1),
            decreases count - i,
        {
            let ghost was = pairs(out@);
            let n: u32 = i as u32;
            let p = cat2("contact/", dec_string(i as u64 + 1).as_str());
            out.push((p, Json::Bool((m >> n) & 1 == 1)));
            assert(pairs(out@) =~= was.push(want[i + 1]));
            assert(want.take(i + 2) =~= want.take(i + 1).push(want[i + 1]));
            i += 1;
        }
        assert(want.take(count + 1) =~= want);
    }
    out
}

/// Every relay by its label.
pub open spec fn relay_updates_of(on: Seq<bool>) -> Seq<(Seq<char>, JsonModel)> {
    Seq::new(on.len(), |i: int| ("relay/"@ + dec((i + 1) as nat), JsonModel::Bool(on[i])))
}

pub fn relay_updates(on: &Vec<bool>) -> (r: Vec<(String, Json)>)
    ensures
        pairs(r@) == relay_updates_of(on@),
{
    let ghost want = relay_updates_of(on@);
    let mut out: Vec<(String, Json)> = Vec::new();
    let mut i: usize = 0;
    while i < on.len()
        invariant
            i <= on@.len(),
            want == relay_updates_of(on@),
            pairs(out@) == want.take(i as int),
        decreases on@.len() - i,
    {
        let ghost was = pairs(out@);
        let p = cat2("relay/", dec_string(i as u64 + 1).as_str());
        out.push((p, Json::Bool(on[i])));
        assert(pairs(out@) =~= was.push(want[i as int]));
        assert(want.take(i + 1) =~= want.take(i as int).push(want[i as int]));
        i += 1;
    }
    assert(want.take(on@.len() as int) =~= want);
    out
}

/// One LED's brightness.
pub fn led_update(slug: &str, brightness: u32) -> (r: (String, Json))
    ensures
        r.0@ == "led/"@ + slug@,
        r.1@ == JsonModel::Number(brightness as nat),
{
    (cat2("led/", slug), Json::Number(brightness as u64))
}

/// The configured line rates, so that a port's rate is shown before anybody opens
/// a terminal on it.
pub open spec fn startup_of(v: Seq<PortModel>) -> Seq<(Seq<char>, JsonModel)>
    decreases v.len(),
{
    if v.len() == 0 {
        seq![]
    } else {
        let i = (v.len() - 1) as nat;
        startup_of(v.drop_last()).push((port_path(i, "baud"@), JsonModel::Number(v.last().baud))).push(
            (port_path(i, "viewers"@), JsonModel::Number(0)),
        )
    }
}

pub fn startup(io: &Io) -> (r: Vec<(String, Json)>)
    ensures
        pairs(r@) == startup_of(io@.serials),
{
    let ghost all = io@.serials;
    let mut out: Vec<(String, Json)> = Vec::new();
    let mut i: usize = 0;
    assert(pairs(out@) =~= startup_of(all.take(0)));
    while i < io.serials.len()
        invariant
            i <= io.serials@.len(),
            all == io@.serials,
            pairs(out@) == startup_of(all.take(i as int)),
        decreases io.serials@.len() - i,
    {
        assert(all.take(i + 1).drop_last() =~= all.take(i as int));
        assert(all.take(i + 1).last() == io.serials@[i as int]@);
        let ghost was = pairs(out@);
        out.push((baud_path(i), Json::Number(io.serials[i].baud as u64)));
        let ghost mid = pairs(out@);
        assert(mid =~= was.push((port_path(i as nat, "baud"@), JsonModel::Number(io.serials@[i as int].baud as nat))));
        out.push((viewers_path(i), Json::Number(0)));
        assert(pairs(out@) =~= mid.push((port_path(i as nat, "viewers"@), JsonModel::Number(0))));
        i += 1;
    }
    assert(all.take(all.len() as int) =~= all);
    out
}

/// Which roles the settings ask for: the port to listen on, and whether to
/// bridge.
pub fn roles(m: &Mqtt) -> (r: (Option<u16>, bool))
    ensures
        r.0 == (if m@.serve && m@.listen_port > 0 {
            Some(m.listen_port)
        } else {
            None
        }),
        r.1 == (m@.bridge && m@.url.len() > 0),
{
    let listen = if m.serve && m.listen_port > 0 {
        Some(m.listen_port)
    } else {
        None
    };
    (listen, m.bridge && to_chars(m.url.as_str()).len() > 0)
}

} // verus!
