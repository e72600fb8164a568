//! What the IO daemon's answers and commands mean to whoever reads or sends them.
use crate::iod::api::{answer_doc, field};
use crate::iod::b64::{decoded, law_round_trip};
use crate::iod::board::{IoBoardModel, IoModel, PortModel};
use crate::iod::events::{lemma_level_in_front, lemma_number_level, lemma_only_level, levels, one_level};
use crate::iod::fault::FaultModel;
use crate::iod::gpio_io::{bit, contact_name, relay_name};
use crate::iod::ir::{code_doc, emitter_label, micros, pronto_read, CodeModel, IrTarget, ReceiverModel};
use crate::iod::led::{brightness_of, shown, LedModel};
use crate::iod::lirc::{found, DevModel};
use crate::iod::mqtt::topics::{index_of, law_labels_name_their_index};
use crate::iod::ops::{
    bytes_asked, capability_doc, contacts_doc, count_doc, counted_doc, hex_bytes, led_doc, nothing, parked_doc,
    port_doc, ports_doc, probe_line, reading_doc, relay_doc, relays_doc, reset_turn, revived_doc, sent_doc, task_of,
    text_or_nil, CmdModel, ResetAt, ResetStep, SeenModel, TaskModel,
};
use crate::iod::serial::{port_path, rx_doc};
use crate::json::{lemma_member, member, with, JsonModel};
use crate::num::{dec, lemma_digits_plain, lemma_digits_value, lemma_print_parse};
use crate::sysmond::sensors::ReadingModel;
use crate::text::{lower, utf8, words};
use vstd::prelude::*;
use vstd::string::*;

verus! {

/// A member that was put is there, and the others are what they were.
proof fn lemma_members()
    ensures
        forall|o: Seq<(Seq<char>, JsonModel)>, k: Seq<char>, v: JsonModel, q: Seq<char>|
            #[trigger] member(with(o, k, v), q) == (if q == k {
                Some(v)
            } else {
                member(o, q)
            }),
        forall|q: Seq<char>| (#[trigger] member(nothing(), q)) is None,
{
    assert forall|o: Seq<(Seq<char>, JsonModel)>, k: Seq<char>, v: JsonModel, q: Seq<char>|
        #[trigger] member(with(o, k, v), q) == (if q == k {
            Some(v)
        } else {
            member(o, q)
        }) by {
        lemma_member(o, k, v, q);
    }
}

// --------------------------------------------------------------------------- commands

/// A relay is driven exactly when the board has it and the IO is there, and then to
/// the state that was asked for; a toggle names no state.
pub proof fn law_a_relay_command_drives_that_relay(io: IoModel, linked: bool, index: nat, on: bool)
    ensures
        task_of(io, linked, CmdModel::RelaySet { index, on }) is Ok <==> index < io.relays && linked,
        task_of(io, linked, CmdModel::RelaySet { index, on }) matches Ok(t) ==> t == (TaskModel::DriveRelay {
            index,
            on: Some(on),
        }),
        task_of(io, linked, CmdModel::RelayToggle { index }) is Ok <==> index < io.relays && linked,
        task_of(io, linked, CmdModel::RelayToggle { index }) matches Ok(t) ==> t == (TaskModel::DriveRelay {
            index,
            on: None,
        }),
{
}

/// A read of the relays or the contacts asks for every one of them.
pub proof fn law_a_read_asks_for_all(io: IoModel, linked: bool)
    ensures
        task_of(io, linked, CmdModel::RelayGet) is Ok <==> io.relays > 0 && linked,
        task_of(io, linked, CmdModel::RelayGet) matches Ok(t) ==> t == (TaskModel::ReadRelays { count: io.relays }),
        task_of(io, linked, CmdModel::ContactGet) is Ok <==> io.contacts > 0 && linked,
        task_of(io, linked, CmdModel::ContactGet) matches Ok(t) ==> t == (TaskModel::ReadContacts {
            count: io.contacts,
        }),
{
}

/// An LED that is switched off goes dark, one that is switched on goes to its
/// largest brightness, and one that is given a level goes there as far as it can.
pub proof fn law_an_led_is_lit_as_asked(
    io: IoModel,
    linked: bool,
    l: LedModel,
    name: Seq<char>,
    on: Option<bool>,
    level: Option<u32>,
)
    ensures
        task_of(io, linked, CmdModel::LedSet { name, on, level }) is Ok <==> on is Some || level is Some,
        task_of(io, linked, CmdModel::LedSet { name, on, level }) matches Ok(t) ==> t is DriveLed && t->DriveLed_name
            == name && brightness_of(l, t->DriveLed_level) == (match level {
            Some(n) => if n as nat <= l.max {
                n as nat
            } else {
                l.max
            },
            None => if on == Some(true) {
                l.max
            } else {
                0
            },
        }),
{
}

/// Text goes out on a port byte for byte, to the port's own device; a port without
/// one is refused.
pub proof fn law_a_write_goes_to_its_port(io: IoModel, linked: bool, index: nat, data: Seq<char>)
    ensures
        task_of(io, linked, CmdModel::SerialWrite { index, data, hex: false, b64: false }) is Ok <==> index
            < io.serials.len() && io.serials[index as int].dev is Some,
        task_of(io, linked, CmdModel::SerialWrite { index, data, hex: false, b64: false }) matches Ok(t) ==> t == (
        TaskModel::WriteSerial { index, dev: io.serials[index as int].dev->0, bytes: utf8(data) }),
{
}

/// A rate is set exactly on a port that has a device and offers it.
pub proof fn law_a_rate_goes_to_its_port(io: IoModel, linked: bool, index: nat, baud: nat)
    requires
        baud <= u32::MAX,
    ensures
        task_of(io, linked, CmdModel::SerialBaud { index, baud }) is Ok <==> index < io.serials.len()
            && io.serials[index as int].dev is Some && io.serials[index as int].bauds.contains(baud as u32),
        task_of(io, linked, CmdModel::SerialBaud { index, baud }) matches Ok(t) ==> t == (TaskModel::SetBaud {
            index,
            dev: io.serials[index as int].dev->0,
            baud,
        }),
{
}

/// Bytes that were spelled as base64 are the bytes that are written.
pub proof fn law_spelled_bytes_are_written(d: Seq<u8>)
    ensures
        bytes_asked(crate::iod::b64::encoded(d), false, true) == Ok::<Seq<u8>, FaultModel>(d),
{
    law_round_trip(d);
}

/// Bytes that were spelled in hexadecimal, a word each, are the bytes that are
/// written, in their order.
pub proof fn law_hex_words_are_their_bytes(ws: Seq<Seq<char>>, d: Seq<u8>)
    requires
        ws.len() == d.len(),
        forall|i: int| 0 <= i < ws.len() ==> #[trigger] ws[i] == crate::num::hex(d[i] as nat),
    ensures
        hex_bytes(ws) == Some(d),
    decreases ws.len(),
{
    if ws.len() > 0 {
        let n = ws.len() - 1;
        assert forall|i: int| 0 <= i < n implies #[trigger] ws.drop_last()[i] == crate::num::hex(
            d.drop_last()[i] as nat,
        ) by {
            assert(ws.drop_last()[i] == ws[i]);
        }
        law_hex_words_are_their_bytes(ws.drop_last(), d.drop_last());
        assert(ws[n] == crate::num::hex(d[n] as nat));
        lemma_print_parse(d[n] as nat, 16, 0xff);
        assert(d.drop_last().push(d[n]) =~= d);
    } else {
        assert(d =~= seq![]);
    }
}

// --------------------------------------------------------------------------- infrared

/// A burst word counts periods of the carrier: the microseconds that are sent for it
/// are as many periods as it says, to within one microsecond.
pub proof fn law_a_burst_lasts_its_periods(d: nat, hz: nat)
    requires
        d < 0x8000,
        hz > 0,
    ensures
        micros(d, hz) * hz <= d * 1_000_000 < (micros(d, hz) + 1) * hz,
{
    let x = d * 1_000_000;
    assert(d % 0x8000 == d);
    assert(x / hz * hz <= x < (x / hz + 1) * hz) by (nonlinear_arith)
        requires
            hz > 0,
    ;
}

/// The carrier word counts ticks of the format's clock, 4.145146 MHz, in a period:
/// the carrier that is sent has that period, to within one part.
pub proof fn law_a_code_is_sent_on_its_carrier(code: Seq<char>)
    requires
        pronto_read(code) is Ok,
    ensures
        ({
            let w = crate::iod::ir::hex_words(words(code))->0;
            let (hz, us) = pronto_read(code)->Ok_0;
            &&& w.len() >= 5 && w[0] == 0 && w[1] > 0
            &&& hz * w[1] <= 4145146 < (hz + 1) * w[1]
            &&& us.len() == w.len() - 4
            &&& forall|i: int| 0 <= i < us.len() ==> #[trigger] us[i] == micros(w[i + 4] as nat, hz)
        }),
{
    let w = crate::iod::ir::hex_words(words(code))->0;
    let k = w[1] as nat;
    assert(4145146nat / k * k <= 4145146 < (4145146nat / k + 1) * k) by (nonlinear_arith)
        requires
            k > 0,
    ;
}

/// The jacks are numbered on the panel from one and inside from zero; the front
/// blaster comes after them. Every output that is accepted is one the board has, and
/// no two outputs are the same.
pub proof fn law_outputs_are_told_apart(a: IrTarget, b: IrTarget, ir_out: nat, ir_blaster: nat)
    ensures
        a.index_spec(ir_out, ir_blaster) matches Ok(i) ==> i < ir_out + ir_blaster,
        a.index_spec(ir_out, ir_blaster) is Ok && b.index_spec(ir_out, ir_blaster) is Ok && a.index_spec(
            ir_out,
            ir_blaster,
        ) == b.index_spec(ir_out, ir_blaster) ==> a == b,
        forall|n: u8|
            1 <= n <= ir_out ==> (#[trigger] IrTarget::Jack(n).index_spec(ir_out, ir_blaster)) == Ok::<nat, FaultModel>(
                (n - 1) as nat,
            ),
        ir_blaster > 0 ==> IrTarget::Front.index_spec(ir_out, ir_blaster) is Ok,
{
}

/// An output's label reads back as that output, and its device is the one that has
/// the output's own label in its name.
pub proof fn law_an_output_is_found_by_its_label(t: IrTarget, v: Seq<DevModel>)
    ensures
        IrTarget::read(t.label_spec()) == Some(t),
        emitter_label(t) == (match t {
            IrTarget::Front => "openHC IR "@ + t.label_spec() + " blaster"@,
            IrTarget::Jack(_) => "openHC IR out "@ + t.label_spec(),
        }),
        found(v, emitter_label(t)) matches Some(d) ==> v.contains(d) && d.name == emitter_label(t),
        found(v, emitter_label(t)) is None ==> forall|i: int| 0 <= i < v.len() ==> (#[trigger] v[i]).name
            != emitter_label(t),
{
    reveal_strlit("front");
    reveal_strlit("openHC IR front blaster");
    reveal_strlit("openHC IR ");
    reveal_strlit(" blaster");
    match t {
        IrTarget::Front => {
            assert(emitter_label(t) =~= "openHC IR "@ + t.label_spec() + " blaster"@);
        },
        IrTarget::Jack(n) => {
            lemma_print_parse(n as nat, 10, 255);
            lemma_digits_plain(n as nat, 10);
            let d = dec(n as nat);
            if lower(d) == lower("front"@) {
                assert(lower(d)[0] == crate::text::lower_char(d[0]));
                assert(lower("front"@)[0] == 'f');
                assert(crate::num::digit_val(crate::num::digits(n as nat, 10)[0]) < 10);
            }
        },
    }
    lemma_found_named(v, emitter_label(t));
}

proof fn lemma_found_named(v: Seq<DevModel>, name: Seq<char>)
    ensures
        found(v, name) matches Some(d) ==> v.contains(d) && d.name == name,
        found(v, name) is None ==> forall|i: int| 0 <= i < v.len() ==> (#[trigger] v[i]).name != name,
    decreases v.len(),
{
    if v.len() > 0 {
        lemma_found_named(v.skip(1), name);
        if v[0].name == name {
            assert(v.contains(v[0]));
        } else {
            if let Some(d) = found(v.skip(1), name) {
                let i = choose|i: int| 0 <= i < v.skip(1).len() && v.skip(1)[i] == d;
                assert(v[i + 1] == d);
            }
            assert forall|i: int| 0 <= i < v.len() && found(v, name) is None implies (#[trigger] v[i]).name != name by {
                if i > 0 {
                    assert(v.skip(1)[i - 1] == v[i]);
                }
            }
        }
    }
}

/// A burst is heard from its first mark to the silence after it: a mark or a gap is
/// one more duration, a gap before any mark is none, a report of the carrier changes
/// nothing but the carrier, and a timeout hands out everything heard since the last
/// one and starts over.
pub proof fn law_a_burst_is_heard_whole(r: ReceiverModel, us: u32)
    requires
        us < 0x100_0000,
    ensures
        r.hear((0x0100_0000 + us) as u32) == (ReceiverModel { durs: r.durs.push(us), ..r }, None::<CodeModel>),
        r.durs.len() > 0 ==> r.hear(us) == (ReceiverModel { durs: r.durs.push(us), ..r }, None::<CodeModel>),
        r.durs.len() == 0 ==> r.hear(us) == (r, None::<CodeModel>),
        r.hear((0x0200_0000 + us) as u32) == (ReceiverModel { carrier: us, ..r }, None::<CodeModel>),
        r.hear((0x0300_0000 + us) as u32).0.durs.len() == 0,
        r.hear((0x0300_0000 + us) as u32).0.carrier == r.carrier,
        r.hear((0x0300_0000 + us) as u32).1 is Some <==> r.durs.len() > 0,
        r.hear((0x0300_0000 + us) as u32).1 matches Some(c) ==> c.durations == r.durs.len() && c.carrier_hz == (
        if r.carrier > 0 {
            r.carrier
        } else {
            38_000
        }),
{
}

// ------------------------------------------------------------------------- serial ports

/// A port has one number, the one on the panel, wherever it is spoken of: its state,
/// what arrives on it, and the commands that name it.
pub proof fn law_a_port_has_one_number(index: u8, what: Seq<char>)
    requires
        index < 255,
        one_level(what),
    ensures
        levels(port_path(index as nat, what)) == seq!["serial"@, dec(index as nat + 1), what],
        index_of(dec(index as nat + 1)) == Some(index),
{
    reveal_strlit("serial/");
    reveal_strlit("serial");
    reveal_strlit("/");
    let d = dec(index as nat + 1);
    law_labels_name_their_index(index);
    lemma_number_level(index as nat + 1);
    lemma_only_level(what);
    lemma_level_in_front(d, what);
    lemma_level_in_front("serial"@, d + "/"@ + what);
    assert(port_path(index as nat, what) =~= "serial"@ + "/"@ + (d + "/"@ + what));
    assert(seq!["serial"@] + (seq![d] + seq![what]) =~= seq!["serial"@, d, what]);
}

/// Bytes that arrived on a port are told so that they can be had back.
pub proof fn law_received_bytes_can_be_had_back(chunk: Seq<u8>)
    ensures
        field(rx_doc(chunk), "b64"@) matches Some(JsonModel::Text(t)) && decoded(t) == Some(chunk),
{
    lemma_members();
    law_round_trip(chunk);
}

// --------------------------------------------------------------------------- documents

/// What a document of the contacts says: the mask, and for each contact whether it is
/// closed, which is its bit of the mask.
pub proof fn law_contacts_are_told_by_their_bits(mask: u32, closed: Seq<bool>, i: int)
    requires
        0 <= i < closed.len(),
        closed[i] == bit(mask, i),
    ensures
        field(contacts_doc(mask, closed), "mask"@) == Some(JsonModel::Number(mask as nat)),
        field(contacts_doc(mask, closed), "closed"@) matches Some(JsonModel::List(l)) && l.len() == closed.len() && l[i]
            == JsonModel::Bool(bit(mask, i)),
        field(relays_doc(closed), "count"@) == Some(JsonModel::Number(closed.len())),
        field(relays_doc(closed), "on"@) matches Some(JsonModel::List(l)) && l.len() == closed.len() && l[i]
            == JsonModel::Bool(closed[i]),
{
    lemma_members();
    reveal_strlit("mask");
    reveal_strlit("closed");
    reveal_strlit("via");
    reveal_strlit("count");
    reveal_strlit("on");
    assert("mask"@.len() == 4 && "closed"@.len() == 6 && "via"@.len() == 3 && "count"@.len() == 5 && "on"@.len() == 2);
}

/// What was driven is told: the relay and where it is now, the LED and how bright it
/// is, the port and what was counted there.
pub proof fn law_what_was_driven_is_told(index: nat, on: bool, name: Seq<char>, n: nat, key: Seq<char>)
    requires
        key != "index"@,
    ensures
        field(relay_doc(index, on), "index"@) == Some(JsonModel::Number(index)),
        field(relay_doc(index, on), "on"@) == Some(JsonModel::Bool(on)),
        field(led_doc(name, n), "name"@) == Some(JsonModel::Text(name)),
        field(led_doc(name, n), "brightness"@) == Some(JsonModel::Number(n)),
        field(counted_doc(index, key, n), "index"@) == Some(JsonModel::Number(index)),
        field(counted_doc(index, key, n), key) == Some(JsonModel::Number(n)),
{
    lemma_members();
    reveal_strlit("index");
    reveal_strlit("on");
    reveal_strlit("name");
    reveal_strlit("brightness");
    assert("index"@.len() == 5 && "on"@.len() == 2 && "name"@.len() == 4 && "brightness"@.len() == 10);
}

/// What was sent is told: the output by its label, the device that sent it, and the
/// carrier and the count of what went out. What was received is told likewise.
pub proof fn law_what_was_sent_is_told(t: IrTarget, d: DevModel, hz: nat, n: nat, c: CodeModel)
    ensures
        field(sent_doc(t, d, hz, n), "target"@) == Some(JsonModel::Text(t.label_spec())),
        field(sent_doc(t, d, hz, n), "device"@) == Some(JsonModel::Text(d.path)),
        field(sent_doc(t, d, hz, n), "name"@) == Some(JsonModel::Text(d.name)),
        field(sent_doc(t, d, hz, n), "carrier_hz"@) == Some(JsonModel::Number(hz)),
        field(sent_doc(t, d, hz, n), "durations"@) == Some(JsonModel::Number(n)),
        field(code_doc(c), "pronto"@) == Some(JsonModel::Text(c.pronto)),
        field(code_doc(c), "carrier_hz"@) == Some(JsonModel::Number(c.carrier_hz as nat)),
        field(code_doc(c), "durations"@) == Some(JsonModel::Number(c.durations)),
{
    lemma_members();
    reveal_strlit("target");
    reveal_strlit("device");
    reveal_strlit("name");
    reveal_strlit("carrier_hz");
    reveal_strlit("durations");
    reveal_strlit("pronto");
    assert("target"@.len() == 6 && "device"@.len() == 6 && "name"@.len() == 4 && "carrier_hz"@.len() == 10
        && "durations"@.len() == 9 && "pronto"@.len() == 6);
    assert("target"@[0] == 't' && "device"@[0] == 'd');
}

/// A port is told with its own device, label, rate and rates; an LED with its own
/// names, its largest brightness and its trigger; a reading with its own value.
pub proof fn law_things_are_told_by_their_own_values(p: PortModel, l: LedModel, r: ReadingModel)
    ensures
        field(port_doc(p), "dev"@) == Some(text_or_nil(p.dev)),
        field(port_doc(p), "label"@) == Some(JsonModel::Text(p.label)),
        field(port_doc(p), "baud"@) == Some(JsonModel::Number(p.baud)),
        field(port_doc(p), "transport"@) == Some(JsonModel::Text(p.transport)),
        field(port_doc(p), "bauds"@) matches Some(JsonModel::List(v)) && v.len() == p.bauds.len() && forall|i: int|
            0 <= i < v.len() ==> #[trigger] v[i] == JsonModel::Number(p.bauds[i] as nat),
        field(shown(l), "slug"@) == Some(JsonModel::Text(l.slug)),
        field(shown(l), "name"@) == Some(JsonModel::Text(l.name)),
        field(shown(l), "colour"@) == Some(JsonModel::Text(l.colour)),
        field(shown(l), "function"@) == Some(JsonModel::Text(l.function)),
        field(shown(l), "max"@) == Some(JsonModel::Number(l.max)),
        field(shown(l), "trigger"@) == Some(JsonModel::Text(l.trigger)),
        field(reading_doc(r), "slug"@) == Some(JsonModel::Text(r.slug)),
        field(reading_doc(r), "label"@) == Some(JsonModel::Text(r.label)),
        field(reading_doc(r), "chip"@) == Some(JsonModel::Text(r.chip)),
        field(reading_doc(r), "value"@) == Some(JsonModel::Raw(crate::num::dec_signed(r.value))),
{
    lemma_members();
    reveal_strlit("dev");
    reveal_strlit("label");
    reveal_strlit("baud");
    reveal_strlit("bauds");
    reveal_strlit("transport");
    reveal_strlit("slug");
    reveal_strlit("name");
    reveal_strlit("colour");
    reveal_strlit("function");
    reveal_strlit("max");
    reveal_strlit("trigger");
    reveal_strlit("chip");
    reveal_strlit("value");
    assert("dev"@.len() == 3 && "label"@.len() == 5 && "baud"@.len() == 4 && "bauds"@.len() == 5 && "transport"@.len()
        == 9);
    assert("label"@[0] == 'l' && "bauds"@[0] == 'b');
    assert("slug"@.len() == 4 && "name"@.len() == 4 && "colour"@.len() == 6 && "function"@.len() == 8 && "max"@.len()
        == 3 && "trigger"@.len() == 7);
    assert("slug"@[0] == 's' && "name"@[0] == 'n');
    assert("chip"@.len() == 4 && "value"@.len() == 5);
    assert("chip"@[0] == 'c' && "value"@[0] == 'v');
}

/// A board tells of what it has and of nothing else: relays, contacts, infrared and
/// ports are told exactly where there are any, with their number.
pub proof fn law_a_board_tells_what_it_has(b: IoBoardModel, s: SeenModel)
    ensures
        field(capability_doc(b, s), "board"@) == Some(JsonModel::Text(b.model)),
        field(capability_doc(b, s), "hostname"@) == Some(JsonModel::Text(b.hostname)),
        field(capability_doc(b, s), "mcu_linked"@) == Some(JsonModel::Bool(s.answering)),
        field(capability_doc(b, s), "mcu_present"@) == Some(JsonModel::Bool(s.linked)),
        field(capability_doc(b, s), "relays"@) == (if b.io.relays > 0 {
            Some(count_doc(b.io.relays))
        } else {
            None
        }),
        field(capability_doc(b, s), "contacts"@) == (if b.io.contacts > 0 {
            Some(count_doc(b.io.contacts))
        } else {
            None
        }),
        field(capability_doc(b, s), "serials"@) == (if b.io.serials.len() > 0 {
            Some(ports_doc(b.io.serials))
        } else {
            None
        }),
        field(capability_doc(b, s), "ir"@) is Some <==> b.io.ir_out + b.io.ir_blaster > 0,
        field(capability_doc(b, s), "leds"@) is Some <==> s.leds.len() > 0,
        field(capability_doc(b, s), "health"@) is Some <==> s.sensors.temps.len() + s.sensors.fans.len() > 0,
        field(count_doc(b.io.relays), "count"@) == Some(JsonModel::Number(b.io.relays)),
{
    lemma_members();
    reveal_strlit("board");
    reveal_strlit("hostname");
    reveal_strlit("backend");
    reveal_strlit("io_via");
    reveal_strlit("gpio_chip");
    reveal_strlit("mcu_linked");
    reveal_strlit("mcu_present");
    reveal_strlit("ir");
    reveal_strlit("health");
    reveal_strlit("leds");
    reveal_strlit("relays");
    reveal_strlit("contacts");
    reveal_strlit("serials");
    assert("board"@.len() == 5 && "hostname"@.len() == 8 && "backend"@.len() == 7 && "io_via"@.len() == 6
        && "gpio_chip"@.len() == 9 && "mcu_linked"@.len() == 10 && "mcu_present"@.len() == 11 && "ir"@.len() == 2
        && "health"@.len() == 6 && "leds"@.len() == 4 && "relays"@.len() == 6 && "contacts"@.len() == 8
        && "serials"@.len() == 7);
    assert("hostname"@[0] == 'h' && "contacts"@[0] == 'c' && "backend"@[0] == 'b' && "serials"@[0] == 's');
    assert("io_via"@[0] == 'i' && "health"@[0] == 'h' && "relays"@[0] == 'r');
}

/// A reply says whether the request went well, and under the request's own id: with
/// its result where it did, with the fault's code, status and message where not.
pub proof fn law_a_reply_says_how_it_went(id: JsonModel, r: Result<JsonModel, FaultModel>)
    ensures
        field(answer_doc(id, r), "id"@) == Some(id),
        field(answer_doc(id, r), "ok"@) == Some(JsonModel::Bool(r is Ok)),
        field(answer_doc(id, r), "result"@) == (match r {
            Ok(v) => Some(v),
            Err(_) => None,
        }),
        r matches Err(f) ==> (field(answer_doc(id, r), "error"@) matches Some(e) && field(e, "code"@) == Some(
            JsonModel::Text(f.code()),
        ) && field(e, "status"@) == Some(JsonModel::Number(f.status() as nat)) && field(e, "message"@) == Some(
            JsonModel::Text(f.message()),
        )),
        r is Ok ==> field(answer_doc(id, r), "error"@) is None,
{
    lemma_members();
    reveal_strlit("id");
    reveal_strlit("ok");
    reveal_strlit("result");
    reveal_strlit("error");
    reveal_strlit("code");
    reveal_strlit("status");
    reveal_strlit("message");
    assert("id"@.len() == 2 && "ok"@.len() == 2 && "result"@.len() == 6 && "error"@.len() == 5 && "code"@.len() == 4
        && "status"@.len() == 6 && "message"@.len() == 7);
    assert("id"@[0] == 'i' && "ok"@[0] == 'o');
}

// ------------------------------------------------------------------------ the reset line

/// A part that never answers is tried at both polarities, six times each, and its
/// line is then left released; one that answers is left at the level at which it did.
pub proof fn law_a_reset_tries_both_polarities(released: bool, asked: u8, answered: bool)
    requires
        1 <= asked <= 6,
    ensures
        reset_turn(ResetAt::Start, answered) == (ResetAt::Claimed, ResetStep::Claim { level: true }),
        reset_turn(ResetAt::Claimed, answered).0 == (ResetAt::Pulsed { released: true }),
        reset_turn(ResetAt::Pulsed { released }, answered).0 == (ResetAt::Probing { released, asked: 1 }),
        reset_turn(ResetAt::Probing { released, asked }, true) == (ResetAt::Over, ResetStep::Revived { released }),
        asked < 6 ==> reset_turn(ResetAt::Probing { released, asked }, false).0 == (ResetAt::Probing {
            released,
            asked: (asked + 1) as u8,
        }),
        reset_turn(ResetAt::Probing { released: true, asked: 6 }, false).0 == (ResetAt::Pulsed { released: false }),
        reset_turn(ResetAt::Probing { released: false, asked: 6 }, false) matches (ResetAt::Over, ResetStep::Park {
            level,
            ..
        }) && level,
{
}

/// What became of a reset is told: the level at which the part answers, whether that
/// is the one the board declares, or that it answers at neither.
pub proof fn law_a_reset_is_told(chip: Seq<char>, line: nat, released: bool)
    ensures
        field(revived_doc(chip, line, released), "answering"@) == Some(JsonModel::Bool(true)),
        field(revived_doc(chip, line, released), "released_level"@) == Some(
            JsonModel::Number(
                if released {
                    1
                } else {
                    0
                },
            ),
        ),
        field(revived_doc(chip, line, released), "matched_board_env"@) == Some(JsonModel::Bool(released)),
        field(revived_doc(chip, line, released), "line"@) == Some(JsonModel::Number(line)),
        field(revived_doc(chip, line, released), "chip"@) == Some(JsonModel::Text(chip)),
        field(parked_doc(chip, line), "answering"@) == Some(JsonModel::Bool(false)),
        field(parked_doc(chip, line), "line"@) == Some(JsonModel::Number(line)),
        field(parked_doc(chip, line), "chip"@) == Some(JsonModel::Text(chip)),
{
    lemma_members();
    reveal_strlit("reset");
    reveal_strlit("chip");
    reveal_strlit("line");
    reveal_strlit("released_level");
    reveal_strlit("matched_board_env");
    reveal_strlit("answering");
    reveal_strlit("tried");
    reveal_strlit("note");
    assert("reset"@.len() == 5 && "chip"@.len() == 4 && "line"@.len() == 4 && "released_level"@.len() == 14
        && "matched_board_env"@.len() == 17 && "answering"@.len() == 9 && "tried"@.len() == 5 && "note"@.len() == 4);
    assert("chip"@[0] == 'c' && "line"@[0] == 'l' && "note"@[0] == 'n');
}

/// Lines carry the number on the panel, and a part is probed at its first line.
pub proof fn law_lines_carry_the_panels_numbers(i: nat, j: nat, io: IoModel)
    ensures
        relay_name(i) == relay_name(j) ==> i == j,
        contact_name(i) == contact_name(j) ==> i == j,
        relay_name(i) == "relay"@ + dec(i + 1),
        contact_name(i) == "contact"@ + dec(i + 1),
        probe_line(io, true) == (if io.contacts > 0 {
            Some("contact"@ + dec(1))
        } else if io.relays > 0 {
            Some("relay"@ + dec(1))
        } else {
            None
        }),
{
    lemma_digits_value(i + 1, 10);
    lemma_digits_value(j + 1, 10);
    let n = "relay"@.len() as int;
    let c = "contact"@.len() as int;
    assert(relay_name(i).skip(n) =~= dec(i + 1));
    assert(relay_name(j).skip(n) =~= dec(j + 1));
    assert(contact_name(i).skip(c) =~= dec(i + 1));
    assert(contact_name(j).skip(c) =~= dec(j + 1));
}

} // verus!
