//! What a client of the socket is answered, and what the words of a board file name.
use crate::iod::api::{
    added, dropped, error_doc, field, frame_turn, ok_doc, op_of, refused_doc, spaced, subscribed_doc, terminal_of,
    texts_of, topics_in, FramedModel,
};
use crate::iod::board::{host_port, mcu_port, numbers, Backend, IoModel, PortModel};
use crate::iod::led::{bracketed, colour_function, first_bracketed, with_slug, LedModel};
use crate::iod::ops::{
    dev_doc, front_doc, health_of, ir_doc, mcu_doc, our_devs, port_device, probe_line, readings_doc, relay_checked,
    CmdModel,
};
use crate::iod::serial::port_path;
use crate::iod::link::following;
use crate::iod::lirc::DevModel;
use crate::json::{lemma_member, member, with, JsonModel};
use crate::sysmond::sensors::SensorsModel;
use crate::num::{dec, digit_val, lemma_digits_plain, lemma_print_parse};
use crate::text::{at, find_from, lemma_split_end, lemma_split_step, replace_char, split, starts_with, Class};
use vstd::prelude::*;
use vstd::string::*;

verus! {

// ------------------------------------------------------------------------------ socket

/// After a subscription everything asked for is listened to, with what was before, and
/// nothing twice.
pub proof fn law_a_subscription_adds(filters: Seq<Seq<char>>, topics: Seq<Seq<char>>, q: Seq<char>)
    ensures
        added(filters, topics).contains(q) <==> filters.contains(q) || topics.contains(q),
    decreases topics.len(),
{
    if topics.len() > 0 {
        let t = topics.drop_last();
        law_a_subscription_adds(filters, t, q);
        let f = added(filters, t);
        lemma_pushed(f, topics.last(), q);
        lemma_pushed(t, topics.last(), q);
        assert(t.push(topics.last()) =~= topics);
    } else {
        assert(!topics.contains(q));
    }
}

/// After it is given up nothing of what was named is listened to, and everything else
/// still is.
pub proof fn law_giving_up_drops(filters: Seq<Seq<char>>, topics: Seq<Seq<char>>, q: Seq<char>)
    ensures
        dropped(filters, topics).contains(q) <==> filters.contains(q) && !topics.contains(q),
    decreases filters.len(),
{
    if filters.len() > 0 {
        let f = filters.drop_last();
        law_giving_up_drops(f, topics, q);
        lemma_pushed(dropped(f, topics), filters.last(), q);
        lemma_pushed(f, filters.last(), q);
        assert(f.push(filters.last()) =~= filters);
    }
}

proof fn lemma_pushed(w: Seq<Seq<char>>, x: Seq<char>, a: Seq<char>)
    ensures
        w.push(x).contains(a) <==> w.contains(a) || a == x,
{
    let p = w.push(x);
    if w.contains(a) {
        let i = choose|i: int| 0 <= i < w.len() && w[i] == a;
        assert(p[i] == a);
    }
    assert(p[w.len() as int] == x);
}

/// What is about the connection is answered on the spot and says how it stands then;
/// everything else is the command it names, or is refused with the reason. Only the two
/// that are about filters change them.
pub proof fn law_a_frame_is_answered(
    filters: Seq<Seq<char>>,
    id: JsonModel,
    body: JsonModel,
    c: CmdModel,
    why: Seq<char>,
)
    ensures
        field(body, "op"@) == Some(JsonModel::Text("subscribe"@)) ==> ({
            let f = added(filters, topics_in(body));
            frame_turn(filters, id, body, Ok(c)) == (f, FramedModel::Reply(ok_doc(id, subscribed_doc(f))))
        }),
        field(body, "op"@) == Some(JsonModel::Text("unsubscribe"@)) ==> ({
            let f = dropped(filters, topics_in(body));
            frame_turn(filters, id, body, Ok(c)) == (f, FramedModel::Reply(ok_doc(id, subscribed_doc(f))))
        }),
        field(body, "op"@) == Some(JsonModel::Text("ping"@)) ==> frame_turn(filters, id, body, Ok(c)).0 == filters
            && frame_turn(filters, id, body, Ok(c)).1 is Reply,
        !(op_of(body) == "subscribe"@ || op_of(body) == "unsubscribe"@ || op_of(body) == "ping"@) ==> frame_turn(
            filters,
            id,
            body,
            Ok(c),
        ) == (filters, FramedModel::Run(c)) && frame_turn(filters, id, body, Err(why)) == (
            filters,
            FramedModel::Reply(refused_doc(id, error_doc("bad_request"@, None, why))),
        ),
{
    reveal_strlit("subscribe");
    reveal_strlit("unsubscribe");
    reveal_strlit("ping");
    assert("subscribe"@.len() == 9 && "unsubscribe"@.len() == 11 && "ping"@.len() == 4);
}

/// The topics of a frame are those of its list, or its one topic.
pub proof fn law_the_topics_are_those_named(body: JsonModel, v: Seq<JsonModel>, t: Seq<char>, w: Seq<JsonModel>)
    ensures
        field(body, "topics"@) == Some(JsonModel::List(v)) ==> topics_in(body) == texts_of(v),
        field(body, "topics"@) is None && field(body, "topic"@) == Some(JsonModel::Text(t)) ==> topics_in(body) == seq![t],
        texts_of(w.push(JsonModel::Text(t))) == texts_of(w).push(t),
        texts_of(w.push(JsonModel::Bool(true))) == texts_of(w),
{
    assert(w.push(JsonModel::Text(t)).drop_last() =~= w);
    assert(w.push(JsonModel::Bool(true)).drop_last() =~= w);
}

proof fn lemma_found(s: Seq<char>, pat: Seq<char>, i: int, k: int)
    requires
        0 <= i <= k,
        pat.len() > 0,
        at(s, pat, k),
        forall|j: int| i <= j < k ==> #[trigger] s[j] != pat[0],
    ensures
        find_from(s, pat, i) == Some(k),
    decreases k - i,
{
    if i < k {
        assert(s[i] != pat[0]);
        if at(s, pat, i) {
            assert(s.subrange(i, i + pat.len())[0] == s[i]);
        }
        lemma_found(s, pat, i + 1, k);
    }
}

/// A blank that was spelled out is a blank again.
pub proof fn law_a_spelled_blank_is_a_blank(a: Seq<char>, b: Seq<char>)
    requires
        forall|i: int| 0 <= i < a.len() ==> #[trigger] a[i] != '%',
    ensures
        spaced(a + "%20"@ + b) == a + " "@ + spaced(b),
        spaced(a) == a,
{
    reveal_strlit("%20");
    reveal_strlit(" ");
    let s = a + "%20"@ + b;
    let k = a.len() as int;
    assert(s.subrange(k, k + 3) =~= "%20"@);
    assert forall|j: int| 0 <= j < k implies #[trigger] s[j] != "%20"@[0] by {
        assert(s[j] == a[j]);
    }
    lemma_found(s, "%20"@, 0, k);
    assert(s.take(k) =~= a);
    assert(s.skip(k + 3) =~= b);
    assert(spaced(s) =~= a + " "@ + spaced(b));
    lemma_not_found(a, "%20"@, 0);
}

proof fn lemma_not_found(s: Seq<char>, pat: Seq<char>, i: int)
    requires
        0 <= i,
        pat.len() > 0,
        forall|j: int| 0 <= j < s.len() ==> #[trigger] s[j] != pat[0],
    ensures
        find_from(s, pat, i) is None,
    decreases s.len() + 1 - i,
{
    if i + pat.len() <= s.len() {
        if at(s, pat, i) {
            assert(s.subrange(i, i + pat.len())[0] == s[i]);
        }
        lemma_not_found(s, pat, i + 1);
    }
}

/// A terminal is opened at its port's device, at the rate that was last set there, and
/// else at the port's own.
pub proof fn law_a_terminal_runs_at_the_rate_set(
    io: IoModel,
    state: Seq<(Seq<char>, JsonModel)>,
    index: nat,
    dev: Seq<char>,
    n: nat,
)
    requires
        port_device(io, index) == Ok::<Seq<char>, crate::iod::fault::FaultModel>(dev),
        n <= u32::MAX,
    ensures
        terminal_of(io, state, index) is Ok && terminal_of(io, state, index)->Ok_0.0 == dev,
        member(state, port_path(index, "baud"@)) == Some(JsonModel::Number(n)) ==> terminal_of(io, state, index)->Ok_0.1
            == n,
        member(state, port_path(index, "baud"@)) is None ==> terminal_of(io, state, index)->Ok_0.1
            == io.serials[index as int].baud,
{
}

// ------------------------------------------------------------------------------- ports

/// The three pieces between two colons.
pub proof fn lemma_three(a: Seq<char>, b: Seq<char>, c: Seq<char>)
    requires
        forall|i: int| 0 <= i < a.len() ==> #[trigger] a[i] != ':',
        forall|i: int| 0 <= i < b.len() ==> #[trigger] b[i] != ':',
        forall|i: int| 0 <= i < c.len() ==> #[trigger] c[i] != ':',
    ensures
        split(a + ":"@ + b + ":"@ + c, Class::One(':')) == seq![a, b, c],
{
    reveal_strlit(":");
    let s = a + ":"@ + b + ":"@ + c;
    let cl = Class::One(':');
    let i = a.len() as int;
    let j = i + 1 + b.len();
    assert(s[i] == ':' && s[j] == ':');
    assert forall|k: int| 0 <= k < i implies !cl.holds(#[trigger] s[k]) by {
        assert(s[k] == a[k]);
    }
    assert forall|k: int| i + 1 <= k < j implies !cl.holds(#[trigger] s[k]) by {
        assert(s[k] == b[k - i - 1]);
    }
    assert forall|k: int| j + 1 <= k < s.len() implies !cl.holds(#[trigger] s[k]) by {
        assert(s[k] == c[k - j - 1]);
    }
    lemma_split_step(s, cl, 0, i);
    lemma_split_step(s, cl, i + 1, j);
    lemma_split_end(s, cl, j + 1);
    assert(s.subrange(0, i) =~= a);
    assert(s.subrange(i + 1, j) =~= b);
    assert(s.subrange(j + 1, s.len() as int) =~= c);
    assert(split(s, cl) =~= seq![a, b, c]);
}

/// A word `device:label:rate` of the board file is the port at that device, under that
/// label with its underscores as blanks, at that rate.
pub proof fn law_a_word_is_a_port(dev: Seq<char>, label: Seq<char>, baud: nat, rates: Seq<u32>)
    requires
        forall|i: int| 0 <= i < dev.len() ==> #[trigger] dev[i] != ':',
        forall|i: int| 0 <= i < label.len() ==> #[trigger] label[i] != ':',
        baud <= u32::MAX,
    ensures
        host_port(dev + ":"@ + label + ":"@ + dec(baud), rates) == (PortModel {
            dev: Some("/dev/"@ + dev),
            label: replace_char(label, '_', ' '),
            baud,
            transport: "host"@,
            bauds: rates,
        }),
        crate::ohc_webd::board::port_in(dev + ":"@ + label + ":"@ + dec(baud)) == (crate::ohc_webd::board::PortModel {
            dev: "/dev/"@ + dev,
            label: replace_char(label, '_', ' '),
            baud,
        }),
{
    lemma_digits_plain(baud, 10);
    assert forall|i: int| 0 <= i < dec(baud).len() implies #[trigger] dec(baud)[i] != ':' by {
        assert(digit_val(dec(baud)[i]) < 10);
        assert(digit_val(':') >= 10);
    }
    lemma_print_parse(baud, 10, u32::MAX as nat);
    lemma_three(dev, label, dec(baud));
}

/// The controller's own ports are numbered from one, and have no device of the host's.
pub proof fn law_the_controllers_ports_are_numbered(i: int, rates: Seq<u32>)
    ensures
        mcu_port(i, rates).label == "Serial "@ + dec((i + 1) as nat),
        mcu_port(i, rates).dev is None,
        mcu_port(i, rates).transport == "mcu"@,
        mcu_port(i, rates).bauds == rates,
        mcu_port(i, rates).baud == 115200,
{
}

/// A list of numbers is read number by number.
pub proof fn law_numbers_are_read_one_by_one(ws: Seq<Seq<char>>, n: u32)
    ensures
        numbers(ws.push(dec(n as nat))) == numbers(ws).push(n),
{
    lemma_print_parse(n as nat, 10, u32::MAX as nat);
    assert(ws.push(dec(n as nat)).drop_last() =~= ws);
}

// -------------------------------------------------------------------------------- leds

/// A light named `device:colour:function` has that colour and that function.
pub proof fn law_a_light_has_its_colour(dev: Seq<char>, colour: Seq<char>, function: Seq<char>)
    requires
        forall|i: int| 0 <= i < dev.len() ==> #[trigger] dev[i] != ':',
        forall|i: int| 0 <= i < colour.len() ==> #[trigger] colour[i] != ':',
        forall|i: int| 0 <= i < function.len() ==> #[trigger] function[i] != ':',
    ensures
        colour_function(dev + ":"@ + colour + ":"@ + function) == (colour, function),
{
    lemma_three(dev, colour, function);
}

/// A light is found by its name, the first of two.
pub proof fn law_a_light_is_found_by_its_name(v: Seq<LedModel>, slug: Seq<char>)
    ensures
        match with_slug(v, slug) {
            Some(l) => v.contains(l) && l.slug == slug,
            None => forall|i: int| 0 <= i < v.len() ==> (#[trigger] v[i]).slug != slug,
        },
    decreases v.len(),
{
    if v.len() > 0 {
        let rest = v.skip(1);
        if v[0].slug == slug {
            assert(v[0] == with_slug(v, slug)->0);
        } else {
            law_a_light_is_found_by_its_name(rest, slug);
            match with_slug(rest, slug) {
                Some(l) => {
                    let i = choose|i: int| 0 <= i < rest.len() && rest[i] == l;
                    assert(v[i + 1] == l);
                },
                None => {
                    assert forall|i: int| 0 <= i < v.len() implies (#[trigger] v[i]).slug != slug by {
                        if i > 0 {
                            assert(rest[i - 1] == v[i]);
                        }
                    }
                },
            }
        }
    }
}

/// The trigger in force is the one in brackets.
pub proof fn law_the_trigger_in_force_is_bracketed(before: Seq<Seq<char>>, t: Seq<char>, after: Seq<Seq<char>>)
    requires
        forall|i: int| 0 <= i < before.len() ==> (#[trigger] before[i]).len() > 0 && before[i][0] != '[',
    ensures
        first_bracketed(before + seq!["["@ + t + "]"@] + after) == t,
    decreases before.len(),
{
    reveal_strlit("[");
    reveal_strlit("]");
    let w = "["@ + t + "]"@;
    let all = before + seq![w] + after;
    if before.len() == 0 {
        assert(all[0] == w);
        assert(w[0] == '[' && w.last() == ']');
        assert(w.subrange(1, w.len() - 1) =~= t);
        assert(bracketed(w) == Some(t));
    } else {
        assert(all[0] == before[0]);
        let rest = before.skip(1);
        assert forall|i: int| 0 <= i < rest.len() implies (#[trigger] rest[i]).len() > 0 && rest[i][0] != '[' by {
            assert(rest[i] == before[i + 1]);
        }
        law_the_trigger_in_force_is_bracketed(rest, t, after);
        assert(all.skip(1) =~= rest + seq![w] + after);
    }
}

// --------------------------------------------------------------------------- documents

proof fn lemma_members()
    ensures
        forall|o: Seq<(Seq<char>, JsonModel)>, k: Seq<char>, v: JsonModel, q: Seq<char>|
            #[trigger] member(with(o, k, v), q) == (if q == k {
                Some(v)
            } else {
                member(o, q)
            }),
{
    assert forall|o: Seq<(Seq<char>, JsonModel)>, k: Seq<char>, v: JsonModel, q: Seq<char>|
        #[trigger] member(with(o, k, v), q) == (if q == k {
            Some(v)
        } else {
            member(o, q)
        }) by {
        lemma_member(o, k, v, q);
    }
}

/// The controller is told by its own names and rate, and as present when it is.
pub proof fn law_the_controller_is_told(io: IoModel, linked: bool)
    ensures
        field(mcu_doc(io, linked), "chip"@) == Some(JsonModel::Text("ohc-iomcu"@)),
        field(mcu_doc(io, linked), "via"@) == Some(JsonModel::Text("gpio"@)),
        field(mcu_doc(io, linked), "present"@) == Some(JsonModel::Bool(linked)),
        field(mcu_doc(io, linked), "part"@) == Some(
            match io.mcu_part {
                Some(t) => JsonModel::Text(t),
                None => JsonModel::Nil,
            },
        ),
        field(mcu_doc(io, linked), "tty"@) == Some(
            match io.mcu_tty {
                Some(t) => JsonModel::Text(t),
                None => JsonModel::Nil,
            },
        ),
        field(mcu_doc(io, linked), "baud"@) == Some(JsonModel::Number(io.mcu_baud)),
{
    lemma_members();
    reveal_strlit("via");
    reveal_strlit("chip");
    reveal_strlit("present");
    reveal_strlit("part");
    reveal_strlit("tty");
    reveal_strlit("baud");
    reveal_strlit("note");
    assert("via"@.len() == 3 && "chip"@.len() == 4 && "present"@.len() == 7 && "part"@.len() == 4 && "tty"@.len() == 3
        && "baud"@.len() == 4 && "note"@.len() == 4);
    assert("via"@[0] == 'v' && "tty"@[0] == 't');
    assert("chip"@[0] == 'c' && "part"@[0] == 'p' && "baud"@[0] == 'b' && "note"@[0] == 'n');
}

/// The infrared outputs and receivers are told by their own numbers, and the front ones
/// by whether there are any.
pub proof fn law_the_infrared_is_told(io: IoModel, lirc: bool, devices: Seq<DevModel>)
    ensures
        field(ir_doc(io, lirc, devices), "out"@) == Some(JsonModel::Number(io.ir_out)),
        field(ir_doc(io, lirc, devices), "blaster"@) == Some(JsonModel::Number(io.ir_blaster)),
        field(ir_doc(io, lirc, devices), "total"@) == Some(JsonModel::Number(io.ir_out + io.ir_blaster)),
        field(ir_doc(io, lirc, devices), "combo"@) == Some(JsonModel::Number(io.ir_combo)),
        field(ir_doc(io, lirc, devices), "receiver"@) == Some(JsonModel::Number(io.ir_in)),
        field(ir_doc(io, lirc, devices), "front"@) == Some(front_doc(io)),
        field(ir_doc(io, lirc, devices), "via"@) == Some(
            JsonModel::Text(
                if lirc {
                    "lirc"@
                } else {
                    "none"@
                },
            ),
        ),
        field(front_doc(io), "send"@) == Some(JsonModel::Bool(io.ir_blaster > 0)),
        field(front_doc(io), "receive"@) == Some(JsonModel::Bool(io.ir_in > 0)),
{
    lemma_members();
    reveal_strlit("out");
    reveal_strlit("blaster");
    reveal_strlit("total");
    reveal_strlit("combo");
    reveal_strlit("receiver");
    reveal_strlit("front");
    reveal_strlit("via");
    reveal_strlit("devices");
    reveal_strlit("send");
    reveal_strlit("receive");
    reveal_strlit("topics");
    assert("out"@.len() == 3 && "blaster"@.len() == 7 && "total"@.len() == 5 && "combo"@.len() == 5 && "receiver"@.len()
        == 8 && "front"@.len() == 5 && "via"@.len() == 3 && "devices"@.len() == 7 && "send"@.len() == 4 && "receive"@.len()
        == 7 && "topics"@.len() == 6);
    assert("out"@[0] == 'o' && "via"@[0] == 'v' && "blaster"@[0] == 'b' && "devices"@[0] == 'd');
    assert("total"@[0] == 't' && "combo"@[0] == 'c' && "front"@[0] == 'f');
}

/// Only this board's own devices are told, in their order.
pub proof fn law_only_our_devices_are_told(v: Seq<DevModel>, d: DevModel)
    ensures
        our_devs(v.push(d)) == (if starts_with(d.name, "openHC IR"@) {
            our_devs(v).push(dev_doc(d))
        } else {
            our_devs(v)
        }),
        field(dev_doc(d), "name"@) == Some(JsonModel::Text(d.name)),
        field(dev_doc(d), "device"@) == Some(JsonModel::Text(d.path)),
        field(dev_doc(d), "node"@) == Some(JsonModel::Text(d.path)),
{
    assert(v.push(d).drop_last() =~= v);
    lemma_members();
    reveal_strlit("name");
    reveal_strlit("device");
    reveal_strlit("node");
    assert("name"@.len() == 4 && "device"@.len() == 6 && "node"@.len() == 4);
    assert("name"@[1] == 'a' && "node"@[1] == 'o');
}

/// Each sensor is told among its own kind; a board without heat and fans tells none.
pub proof fn law_each_sensor_is_told_among_its_kind(m: SensorsModel)
    ensures
        health_of(m) is Some <==> m.temps.len() > 0 || m.fans.len() > 0,
        health_of(m) matches Some(d) ==> field(d, "temps"@) == Some(readings_doc(m.temps)) && field(d, "fans"@) == Some(
            readings_doc(m.fans),
        ) && field(d, "pwm"@) == Some(readings_doc(m.pwm)),
{
    lemma_members();
    reveal_strlit("temps");
    reveal_strlit("fans");
    reveal_strlit("pwm");
    assert("temps"@.len() == 5 && "fans"@.len() == 4 && "pwm"@.len() == 3);
}

/// A refusal says of what kind it is: what the board does not have, what was asked
/// wrongly, or what is not there now.
pub proof fn law_a_refusal_says_of_what_kind(io: IoModel, index: nat)
    ensures
        io.relays == 0 ==> (relay_checked(io, true, index) matches Err(f) && f is NoSuch),
        0 < io.relays <= index ==> (relay_checked(io, true, index) matches Err(f) && f is Bad),
        index < io.relays && io.backend == Backend::Mcu ==> (relay_checked(io, false, index) matches Err(f) && f is NoChip),
        index < io.relays && io.backend == Backend::Gpio ==> (relay_checked(io, false, index) matches Err(f) && f is NoChip),
        index < io.relays && io.backend == Backend::Absent ==> (relay_checked(io, false, index) matches Err(f) && f is NoSuch),
        index >= io.serials.len() ==> (port_device(io, index) matches Err(f) && f is NoSuch),
        index < io.serials.len() && io.serials[index as int].dev is None ==> (port_device(io, index) matches Err(f) && f is Todo),
{
}

/// The line that is probed is the first contact's, or the first relay's where there are
/// no contacts.
pub proof fn law_which_line_is_probed(io: IoModel)
    ensures
        probe_line(io, false) is None,
        io.contacts > 0 ==> probe_line(io, true) == Some("contact"@ + dec(1)),
        io.contacts == 0 && io.relays > 0 ==> probe_line(io, true) == Some("relay"@ + dec(1)),
        io.contacts == 0 && io.relays == 0 ==> probe_line(io, true) is None,
{
}

/// Questions are numbered one after the other, and start over behind the last number.
pub proof fn law_questions_are_numbered(seq: u8)
    ensures
        following(seq) == (seq + 1) % 256,
        following(seq) != seq,
{
}

} // verus!
