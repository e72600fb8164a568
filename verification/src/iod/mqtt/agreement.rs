//! What the bridge, its announcements and the commands it takes agree on.
use crate::iod::board::IoBoardModel;
use crate::iod::events::MsgModel;
use crate::iod::gpio_io::bit;
use crate::iod::mqtt::client::{
    announced, device_doc, entity_doc, greeting, republished, scheme_rest, unprefixed, url_of, will_of, LinkModel,
    PublicationModel, UrlModel,
};
use crate::iod::mqtt::cmd::{cmd_of, law_a_relay_obeys_its_own_words, numbered};
use crate::iod::mqtt::topics::{filter_matches, law_a_hash_covers_what_is_below, payload_of, route_of};
use crate::iod::ops::nothing;
use crate::iod::poller::{contact_updates_of, relay_updates_of};
use crate::json::{lemma_member, member, with, written, JsonModel};
use crate::num::dec;
use crate::text::{find_from, lower, starts_with, tail, trim_end, Class};
use vstd::prelude::*;
use vstd::string::*;

verus! {

/// A member of a document that is an object.
pub open spec fn told(doc: JsonModel, key: Seq<char>) -> Option<JsonModel> {
    match doc {
        JsonModel::Object(o) => member(o, key),
        _ => None,
    }
}

proof fn lemma_keys()
    ensures
        "payload_on"@ != "payload_off"@,
        "payload_on"@ != "availability"@,
        "payload_on"@ != "device"@,
        "payload_off"@ != "availability"@,
        "payload_off"@ != "device"@,
        "availability"@ != "device"@,
        "state_topic"@ != "command_topic"@,
        "state_topic"@ != "payload_on"@,
        "state_topic"@ != "payload_off"@,
        "state_topic"@ != "availability"@,
        "state_topic"@ != "device"@,
        "command_topic"@ != "payload_on"@,
        "command_topic"@ != "payload_off"@,
        "command_topic"@ != "availability"@,
        "command_topic"@ != "device"@,
        "command_topic"@ != "name"@,
        "command_topic"@ != "unique_id"@,
        "unique_id"@ != "state_topic"@,
        "unique_id"@ != "payload_on"@,
        "unique_id"@ != "payload_off"@,
        "unique_id"@ != "availability"@,
        "unique_id"@ != "device"@,
        "unique_id"@ != "name"@,
        "name"@ != "state_topic"@,
        "name"@ != "payload_on"@,
        "name"@ != "payload_off"@,
        "name"@ != "availability"@,
        "name"@ != "device"@,
        "identifiers"@ != "name"@,
        "identifiers"@ != "model"@,
        "identifiers"@ != "manufacturer"@,
        "name"@ != "model"@,
        "name"@ != "manufacturer"@,
        "model"@ != "manufacturer"@,
{
    reveal_strlit("payload_on");
    reveal_strlit("payload_off");
    reveal_strlit("availability");
    reveal_strlit("device");
    reveal_strlit("state_topic");
    reveal_strlit("command_topic");
    reveal_strlit("unique_id");
    reveal_strlit("name");
    reveal_strlit("identifiers");
    reveal_strlit("model");
    reveal_strlit("manufacturer");
    assert("payload_on"@.len() == 10 && "payload_off"@.len() == 11 && "availability"@.len() == 12 && "device"@.len()
        == 6);
    assert("state_topic"@.len() == 11 && "command_topic"@.len() == 13 && "unique_id"@.len() == 9 && "name"@.len()
        == 4);
    assert("identifiers"@.len() == 11 && "model"@.len() == 5 && "manufacturer"@.len() == 12);
    assert("state_topic"@[0] == 's' && "payload_off"@[0] == 'p');
}

/// What is announced of a relay or a contact is what the bridge does. The word for
/// on is the word published for a state that is true, the word for off that for one
/// that is false; the state's topic is the one on which that thing's state goes out;
/// and whether the controller is there is told on the topic of its last will.
pub proof fn law_an_announcement_speaks_the_bridges_words(
    b: IoBoardModel,
    id: Seq<char>,
    base: Seq<char>,
    word: Seq<char>,
    kind: Seq<char>,
    i: nat,
    switch: bool,
    v: JsonModel,
)
    ensures
        ({
            let doc = entity_doc(b, id, base, word, kind, i, switch);
            &&& told(doc, "payload_on"@) == Some(JsonModel::Text(payload_of(JsonModel::Bool(true))))
            &&& told(doc, "payload_off"@) == Some(JsonModel::Text(payload_of(JsonModel::Bool(false))))
            &&& told(doc, "state_topic"@) == Some(
                JsonModel::Text(route_of(base, MsgModel::State(kind + "/"@ + dec(i + 1), v))->0.topic),
            )
            &&& told(doc, "command_topic"@) == (if switch {
                Some(JsonModel::Text(base + "/cmd/"@ + numbered(kind, i, "set"@)))
            } else {
                None
            })
            &&& told(doc, "availability"@) matches Some(JsonModel::List(l)) && l.len() == 1 && told(l[0], "topic"@)
                == Some(JsonModel::Text(will_of(base).topic))
            &&& told(doc, "unique_id"@) == Some(JsonModel::Text(id + "_"@ + kind + dec(i)))
            &&& told(doc, "name"@) == Some(JsonModel::Text(word + " "@ + dec(i + 1)))
            &&& told(doc, "device"@) == Some(device_doc(b, id))
        }),
{
    lemma_keys();
    reveal_strlit("/state/");
    reveal_strlit("/cmd/");
    reveal_strlit("/set");
    reveal_strlit("set");
    reveal_strlit("/");
    assert forall|o: Seq<(Seq<char>, JsonModel)>, k: Seq<char>, x: JsonModel, q: Seq<char>|
        #[trigger] member(with(o, k, x), q) == (if q == k {
            Some(x)
        } else {
            member(o, q)
        }) by {
        lemma_member(o, k, x, q);
    }
    assert(member(nothing(), "command_topic"@) is None);
    assert(base + "/state/"@ + kind + "/"@ + dec(i + 1) =~= base + "/state/"@ + (kind + "/"@ + dec(i + 1)));
    assert(base + "/cmd/"@ + kind + "/"@ + dec(i + 1) + "/set"@ =~= base + "/cmd/"@ + numbered(kind, i, "set"@));
    assert(member(with(nothing(), "topic"@, JsonModel::Text(base + "/status"@)), "topic"@) == Some(
        JsonModel::Text(base + "/status"@),
    ));
}

/// A relay announced to a home automation system is switched by it: what it sends on
/// the announced topic passes the bridge's filter and reads as setting that relay to
/// that state, and nothing else; and the relay's own state, once it is read, goes out
/// on the announced state topic as the word for that state.
pub proof fn law_an_announced_relay_is_switched(
    b: IoBoardModel,
    l: LinkModel,
    i: u8,
    on: Seq<bool>,
    want: bool,
    raw: Option<crate::iod::ops::CmdModel>,
)
    requires
        i < b.io.relays,
        i < 255,
        on.len() == b.io.relays,
    ensures
        ({
            let doc = entity_doc(b, l.client_id, l.base, "Relay"@, "relay"@, i as nat, true);
            let sent = told(doc, if want { "payload_on"@ } else { "payload_off"@ });
            let tail = numbered("relay"@, i as nat, "set"@);
            let update = relay_updates_of(on)[i as int];
            let out = route_of(l.base, MsgModel::State(update.0, update.1))->0;
            &&& announced(b, l)[i as int].payload == written(doc)
            &&& told(doc, "command_topic"@) == Some(JsonModel::Text(l.base + "/cmd/"@ + tail))
            &&& filter_matches(l.base + "/cmd/#"@, l.base + "/cmd/"@ + tail)
            &&& sent matches Some(JsonModel::Text(w)) && cmd_of(tail, w, raw) == Some(
                crate::iod::ops::CmdModel::RelaySet { index: i as nat, on: want },
            )
            &&& told(doc, "state_topic"@) == Some(JsonModel::Text(out.topic))
            &&& told(
                doc,
                if on[i as int] {
                    "payload_on"@
                } else {
                    "payload_off"@
                },
            ) == Some(JsonModel::Text(out.payload))
        }),
{
    let update = relay_updates_of(on)[i as int];
    law_an_announcement_speaks_the_bridges_words(
        b,
        l.client_id,
        l.base,
        "Relay"@,
        "relay"@,
        i as nat,
        true,
        update.1,
    );
    law_a_relay_obeys_its_own_words(i, want, raw);
    reveal_strlit("relay/");
    reveal_strlit("relay");
    reveal_strlit("/");
    reveal_strlit("/cmd/#");
    reveal_strlit("/cmd/");
    reveal_strlit("/cmd");
    reveal_strlit("/#");
    assert("relay/"@ + dec(i as nat + 1) =~= "relay"@ + "/"@ + dec(i as nat + 1));
    law_a_hash_covers_what_is_below(l.base + "/cmd"@, numbered("relay"@, i as nat, "set"@));
    assert(l.base + "/cmd"@ + "/#"@ =~= l.base + "/cmd/#"@);
    assert(l.base + "/cmd"@ + "/"@ + numbered("relay"@, i as nat, "set"@) =~= l.base + "/cmd/"@ + numbered(
        "relay"@,
        i as nat,
        "set"@,
    ));
}

/// A contact announced as a sensor shows what the contact is: its bit of the mask,
/// once it is read, goes out on the announced state topic as the word for on when it
/// is closed and the word for off when it is open. It takes no commands.
pub proof fn law_an_announced_contact_is_shown(b: IoBoardModel, l: LinkModel, i: u8, mask: u32)
    requires
        i < b.io.contacts,
    ensures
        ({
            let doc = entity_doc(b, l.client_id, l.base, "Contact"@, "contact"@, i as nat, false);
            let update = contact_updates_of(Some(mask), b.io.contacts)[i + 1];
            let out = route_of(l.base, MsgModel::State(update.0, update.1))->0;
            &&& announced(b, l)[b.io.relays + i].payload == written(doc)
            &&& told(doc, "command_topic"@) is None
            &&& told(doc, "state_topic"@) == Some(JsonModel::Text(out.topic))
            &&& told(
                doc,
                if bit(mask, i as int) {
                    "payload_on"@
                } else {
                    "payload_off"@
                },
            ) == Some(JsonModel::Text(out.payload))
        }),
{
    let update = contact_updates_of(Some(mask), b.io.contacts)[i + 1];
    law_an_announcement_speaks_the_bridges_words(
        b,
        l.client_id,
        l.base,
        "Contact"@,
        "contact"@,
        i as nat,
        false,
        update.1,
    );
    reveal_strlit("contact/");
    reveal_strlit("contact");
    reveal_strlit("/");
    assert("contact/"@ + dec(i as nat + 1) =~= "contact"@ + "/"@ + dec(i as nat + 1));
}

/// Every announcement is retained and is found below the discovery prefix, a relay
/// among the switches and a contact among the binary sensors.
pub proof fn law_announcements_are_found(b: IoBoardModel, l: LinkModel, i: int)
    requires
        0 <= i < b.io.relays + b.io.contacts,
    ensures
        announced(b, l).len() == b.io.relays + b.io.contacts,
        announced(b, l)[i].retain,
        announced(b, l)[i].at_least_once,
        starts_with(
            announced(b, l)[i].topic,
            l.discovery + "/"@ + (if i < b.io.relays {
                "switch"@
            } else {
                "binary_sensor"@
            }) + "/"@,
        ),
        crate::text::ends_with(announced(b, l)[i].topic, "/config"@),
{
    let t = announced(b, l)[i].topic;
    let p = l.discovery + "/"@ + (if i < b.io.relays {
        "switch"@
    } else {
        "binary_sensor"@
    }) + "/"@;
    assert(t.subrange(0, p.len() as int) =~= p);
    reveal_strlit("/config");
    assert(t.subrange(t.len() - "/config"@.len(), t.len() as int) =~= "/config"@);
}

/// A home automation system takes `online` on the availability topic as there, and
/// `offline` as gone.
pub open spec fn available(payload: Seq<char>) -> Option<bool> {
    if payload == seq!['o', 'n', 'l', 'i', 'n', 'e'] {
        Some(true)
    } else if payload == seq!['o', 'f', 'f', 'l', 'i', 'n', 'e'] {
        Some(false)
    } else {
        None
    }
}

/// The first thing a connected controller publishes says that it is there, on the
/// topic on which its last will says that it is gone; both stay on the broker.
pub proof fn law_the_last_will_undoes_the_greeting(b: IoBoardModel, l: LinkModel, doc: JsonModel)
    ensures
        greeting(b, l, doc)[0].topic == will_of(l.base).topic,
        available(greeting(b, l, doc)[0].payload) == Some(true),
        available(will_of(l.base).payload) == Some(false),
        greeting(b, l, doc)[0].retain && will_of(l.base).retain,
        greeting(b, l, doc)[0].at_least_once && will_of(l.base).at_least_once,
{
    reveal_strlit("online");
    reveal_strlit("offline");
    assert("online"@ =~= seq!['o', 'n', 'l', 'i', 'n', 'e']);
    assert("offline"@ =~= seq!['o', 'f', 'f', 'l', 'i', 'n', 'e']);
}

/// Once connected a controller publishes all of its state, and where discovery is
/// on it announces every relay and every contact.
pub proof fn law_a_connection_tells_everything(b: IoBoardModel, l: LinkModel, doc: JsonModel, p: PublicationModel)
    requires
        republished(l.base, doc).contains(p) || (l.discovery.len() > 0 && announced(b, l).contains(p)),
    ensures
        greeting(b, l, doc).contains(p),
{
    let g = greeting(b, l, doc);
    let r = republished(l.base, doc);
    if r.contains(p) {
        let k = choose|k: int| 0 <= k < r.len() && r[k] == p;
        assert(g[k + 1] == p);
    } else {
        let a = announced(b, l);
        let k = choose|k: int| 0 <= k < a.len() && a[k] == p;
        assert(g[r.len() + 1 + k] == p);
    }
}

/// A message that was published on a command topic comes in as that topic's tail:
/// what stands in front is the base, once.
pub proof fn law_a_delivered_topic_loses_its_base(base: Seq<char>, tail: Seq<char>)
    requires
        !starts_with(tail, base + "/cmd/"@),
    ensures
        unprefixed(base + "/cmd/"@ + tail, base + "/cmd/"@) == tail,
{
    reveal_strlit("/cmd/");
    let p = base + "/cmd/"@;
    assert((p + tail).subrange(0, p.len() as int) =~= p);
    assert((p + tail).skip(p.len() as int) =~= tail);
    reveal_with_fuel(unprefixed, 2);
}

/// Without a port a broker's usual one is used: the encrypted one exactly where the
/// scheme asks for encryption.
pub proof fn law_the_usual_port_follows_the_scheme(host: Seq<char>, tls: bool)
    requires
        host.len() > 0,
        forall|k: int| 0 <= k < host.len() ==> #[trigger] host[k] != ':' && host[k] != '/' && host[k] != '@',
    ensures
        url_of((if tls { "mqtts://"@ } else { "mqtt://"@ }) + host) == (UrlModel {
            host,
            port: if tls {
                8883
            } else {
                1883
            },
            tls,
        }),
{
    let scheme = if tls { "mqtts"@ } else { "mqtt"@ };
    let url = (if tls { "mqtts://"@ } else { "mqtt://"@ }) + host;
    reveal_strlit("mqtts://");
    reveal_strlit("mqtt://");
    reveal_strlit("mqtts");
    reveal_strlit("mqtt");
    reveal_strlit("ssl");
    reveal_strlit("://");
    lemma_scheme(scheme, host);
    assert(url =~= scheme + "://"@ + host);
    assert(lower("mqtt"@).len() == 4 && lower("mqtts"@).len() == 5 && lower("ssl"@).len() == 3);
    let rest = host;
    let n = rest.len() as int;
    assert(crate::text::unskip_class(rest, Class::One('/'), 0, n) == n);
    assert(trim_end(rest, Class::One('/')) =~= rest);
    crate::text::lemma_last_before(rest, Class::One('@'), n);
    crate::text::lemma_last_before(rest, Class::One(':'), n);
    assert(tail(rest, Class::One('@')) =~= rest);
}

/// The first mark is the one right behind a scheme that has none.
proof fn lemma_scheme(scheme: Seq<char>, rest: Seq<char>)
    requires
        forall|k: int| 0 <= k < scheme.len() ==> #[trigger] scheme[k] != ':',
    ensures
        scheme_rest(scheme + "://"@ + rest) == (scheme, rest),
{
    reveal_strlit("://");
    let url = scheme + "://"@ + rest;
    lemma_no_mark_before(url, scheme.len() as int, 0);
    assert(url.subrange(scheme.len() as int, scheme.len() as int + 3) =~= "://"@);
    assert(url.take(scheme.len() as int) =~= scheme);
    assert(url.skip(scheme.len() as int + 3) =~= rest);
}

proof fn lemma_no_mark_before(url: Seq<char>, at: int, i: int)
    requires
        0 <= i <= at,
        at + 3 <= url.len(),
        url.subrange(at, at + 3) == "://"@,
        forall|k: int| 0 <= k < at ==> #[trigger] url[k] != ':',
    ensures
        find_from(url, "://"@, i) == Some(at),
    decreases at - i,
{
    reveal_strlit("://");
    if i < at {
        if url.subrange(i, i + 3) == "://"@ {
            assert(url.subrange(i, i + 3)[0] == ':');
        }
        lemma_no_mark_before(url, at, i + 1);
    }
}

} // verus!
