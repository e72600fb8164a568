//! The outbound bridge: the controller as a client of somebody else's broker.
//!
//! Optional, and independent of the served endpoint. The topics are shared with
//! it, so that the two cannot drift: state is retained, events are not.
use crate::iod::board::{Board, IoBoardModel};
use crate::iod::events::Msg;
use crate::iod::fault::Fault;
use crate::iod::mqtt::server::{failure, failure_doc};
use crate::iod::mqtt::settings::{blank, merged, unconfigured, Mqtt, MqttModel, Vars, VarsModel};
use crate::iod::mqtt::topics::{retained, retained_of, route, route_of, routed, Routed, RoutedModel};
use crate::iod::ops::{fresh, nothing};
use crate::json::{list, object, put, text, values, with, written, Json, JsonModel};
use crate::num::{dec, dec_string, parse_number, parse_unsigned};
use crate::text::{
    cat2, cat3, cat4, cat5, eq_fold_str, find_chars, find_from, from_chars, lossy, lossy_text, lower, opt,
    rsplit_once, rsplit_once_of, starts_with, strip_prefix_str, tail, tail_of, to_chars, trim, trim_end, trim_end_of,
    trim_str, Class,
};
use vstd::prelude::*;
use vstd::slice::slice_subrange;
use vstd::string::*;

verus! {

// ------------------------------------------------------------------------------- URL

/// A broker's address.
pub ghost struct UrlModel {
    pub host: Seq<char>,
    pub port: nat,
    pub tls: bool,
}

pub open spec fn usual_port(tls: bool) -> nat {
    if tls {
        8883
    } else {
        1883
    }
}

/// The scheme and the rest; plain MQTT where no scheme is written.
pub open spec fn scheme_rest(url: Seq<char>) -> (Seq<char>, Seq<char>) {
    match find_from(url, "://"@, 0) {
        Some(i) => (url.take(i), url.skip(i + 3)),
        None => ("mqtt"@, url),
    }
}

/// `mqtt://user@host:1883` read: host, port, and whether it is TLS. Who logs in
/// is set elsewhere, so what stands before the host is left out.
pub open spec fn url_of(url: Seq<char>) -> UrlModel {
    let (scheme, rest) = scheme_rest(url);
    let tls = lower(scheme) == lower("mqtts"@) || lower(scheme) == lower("ssl"@);
    let rest = tail(trim_end(rest, Class::One('/')), Class::One('@'));
    match rsplit_once(rest, Class::One(':')) {
        Some((h, p)) => UrlModel {
            host: h,
            port: match parse_unsigned(p, 10, 65535) {
                Some(n) => n,
                None => usual_port(tls),
            },
            tls,
        },
        None => UrlModel { host: rest, port: usual_port(tls), tls },
    }
}

fn usual(tls: bool) -> (r: u16)
    ensures
        r == usual_port(tls),
{
    if tls {
        8883
    } else {
        1883
    }
}

fn split_after_scheme(scheme: &[char], rest: &[char]) -> (r: (String, u16, bool))
    ensures
        ({
            let tls = lower(scheme@) == lower("mqtts"@) || lower(scheme@) == lower("ssl"@);
            let t = tail(trim_end(rest@, Class::One('/')), Class::One('@'));
            (UrlModel { host: r.0@, port: r.1 as nat, tls: r.2 }) == match rsplit_once(t, Class::One(':')) {
                Some((h, p)) => UrlModel {
                    host: h,
                    port: match parse_unsigned(p, 10, 65535) {
                        Some(n) => n,
                        None => usual_port(tls),
                    },
                    tls,
                },
                None => UrlModel { host: t, port: usual_port(tls), tls },
            }
        }),
{
    let tls: bool = eq_fold_str(scheme, "mqtts") || eq_fold_str(scheme, "ssl");
    let rest = tail_of(trim_end_of(rest, &Class::One('/')), &Class::One('@'));
    match rsplit_once_of(rest, &Class::One(':')) {
        Some((h, p)) => {
            let port: u16 = match parse_number(p, 10, 65535) {
                Some(n) => n as u16,
                None => usual(tls),
            };
            (from_chars(h), port, tls)
        },
        None => (from_chars(rest), usual(tls), tls),
    }
}

/// Split a broker URL into host, port and whether it is TLS.
pub fn split_url(url: &str) -> (r: (String, u16, bool))
    ensures
        (UrlModel { host: r.0@, port: r.1 as nat, tls: r.2 }) == url_of(url@),
{
    let chars = to_chars(url);
    let mark = to_chars("://");
    proof {
        reveal_strlit("://");
    }
    match find_chars(chars.as_slice(), mark.as_slice()) {
        Some(i) => {
            let a = slice_subrange(chars.as_slice(), 0, i);
            let b = slice_subrange(chars.as_slice(), i + 3, chars.len());
            assert(a@ =~= url@.take(i as int));
            assert(b@ =~= url@.skip(i + 3));
            split_after_scheme(a, b)
        },
        None => {
            let a = to_chars("mqtt");
            split_after_scheme(a.as_slice(), chars.as_slice())
        },
    }
}

// ------------------------------------------------------------------------ parameters

/// The connection parameters, resolved from the settings.
#[derive(Debug)]
pub struct Link {
    pub host: String,
    pub port: u16,
    pub tls: bool,
    /// Sent only where there are both.
    pub login: Option<(String, String)>,
    pub ca: Option<String>,
    /// Paths of the client certificate and its key, where there are both.
    pub client_auth: Option<(String, String)>,
    pub client_id: String,
    pub discovery: String,
    pub base: String,
}

pub ghost struct LinkModel {
    pub host: Seq<char>,
    pub port: nat,
    pub tls: bool,
    pub login: Option<(Seq<char>, Seq<char>)>,
    pub ca: Option<Seq<char>>,
    pub client_auth: Option<(Seq<char>, Seq<char>)>,
    pub client_id: Seq<char>,
    pub discovery: Seq<char>,
    pub base: Seq<char>,
}

pub open spec fn pair(p: Option<(String, String)>) -> Option<(Seq<char>, Seq<char>)> {
    match p {
        Some((a, b)) => Some((a@, b@)),
        None => None,
    }
}

impl View for Link {
    type V = LinkModel;

    open spec fn view(&self) -> LinkModel {
        LinkModel {
            host: self.host@,
            port: self.port as nat,
            tls: self.tls,
            login: pair(self.login),
            ca: opt(self.ca),
            client_auth: pair(self.client_auth),
            client_id: self.client_id@,
            discovery: self.discovery@,
            base: self.base@,
        }
    }
}

pub open spec fn both(a: Seq<char>, b: Seq<char>) -> Option<(Seq<char>, Seq<char>)> {
    if a.len() > 0 && b.len() > 0 {
        Some((a, b))
    } else {
        None
    }
}

pub open spec fn filled(a: Seq<char>) -> Option<Seq<char>> {
    if a.len() > 0 {
        Some(a)
    } else {
        None
    }
}

/// The bridge's parameters; none where the URL names no host.
pub open spec fn link_of(m: MqttModel) -> Option<LinkModel> {
    let u = url_of(m.url);
    if u.host.len() == 0 {
        None
    } else {
        Some(
            LinkModel {
                host: u.host,
                port: u.port,
                tls: u.tls,
                login: both(m.username, m.password),
                ca: filled(m.ca_path),
                client_auth: both(m.client_cert_path, m.client_key_path),
                client_id: m.client_id,
                discovery: m.discovery,
                base: m.prefix + "/"@ + m.client_id,
            },
        )
    }
}

fn pair_of(a: &String, b: &String) -> (r: Option<(String, String)>)
    ensures
        pair(r) == both(a@, b@),
{
    if blank(a.as_str()) || blank(b.as_str()) {
        None
    } else {
        Some((a.clone(), b.clone()))
    }
}

pub fn link(m: &Mqtt) -> (r: Option<Link>)
    ensures
        match link_of(m@) {
            Some(l) => r is Some && r->0@ == l,
            None => r is None,
        },
{
    let (host, port, tls) = split_url(m.url.as_str());
    if blank(host.as_str()) {
        return None;
    }
    let ca = if blank(m.ca_path.as_str()) {
        None
    } else {
        Some(m.ca_path.clone())
    };
    Some(
        Link {
            host,
            port,
            tls,
            login: pair_of(&m.username, &m.password),
            ca,
            client_auth: pair_of(&m.client_cert_path, &m.client_key_path),
            client_id: m.client_id.clone(),
            discovery: m.discovery.clone(),
            base: cat3(m.prefix.as_str(), "/", m.client_id.as_str()),
        },
    )
}

/// What a variable holds, where it holds anything.
pub open spec fn given(v: Option<Seq<char>>) -> Seq<char> {
    match v {
        Some(t) => t,
        None => seq![],
    }
}

pub open spec fn given_or(v: Option<Seq<char>>, fallback: Seq<char>) -> Seq<char> {
    if given(v).len() > 0 {
        given(v)
    } else {
        fallback
    }
}

/// The bridge's parameters from the environment alone; none where it names no
/// broker.
pub open spec fn env_link(v: VarsModel, hostname: Seq<char>) -> Option<LinkModel> {
    if trim(given(v.url)).len() == 0 {
        None
    } else {
        let u = url_of(given(v.url));
        let id = given_or(v.client_id, hostname);
        Some(
            LinkModel {
                host: u.host,
                port: u.port,
                tls: u.tls,
                login: both(given(v.user), given(v.pass)),
                ca: filled(given(v.ca)),
                client_auth: both(given(v.client_cert), given(v.client_key)),
                client_id: id,
                discovery: match v.discovery {
                    Some(d) => d,
                    None => "homeassistant"@,
                },
                base: given_or(v.prefix, "openhc"@) + "/"@ + id,
            },
        )
    }
}

fn text_or(v: &Option<String>, fallback: &str) -> (r: String)
    ensures
        r@ == given_or(opt(*v), fallback@),
{
    match v {
        Some(t) => if blank(t.as_str()) {
            String::from_str(fallback)
        } else {
            t.clone()
        },
        None => String::from_str(fallback),
    }
}

fn text_in(v: &Option<String>) -> (r: String)
    ensures
        r@ == given(opt(*v)),
{
    match v {
        Some(t) => t.clone(),
        None => String::new(),
    }
}

/// The way a controller was configured before it kept a settings file, and still
/// can be.
pub fn from_env(hostname: &str, v: &Vars) -> (r: Option<Link>)
    ensures
        match env_link(v@, hostname@) {
            Some(l) => r is Some && r->0@ == l,
            None => r is None,
        },
{
    let url = text_in(&v.url);
    if blank(trim_str(url.as_str()).as_str()) {
        return None;
    }
    let (host, port, tls) = split_url(url.as_str());
    let ca = text_in(&v.ca);
    let id = text_or(&v.client_id, hostname);
    let prefix = text_or(&v.prefix, "openhc");
    let discovery = match &v.discovery {
        Some(d) => d.clone(),
        None => String::from_str("homeassistant"),
    };
    let base = cat3(prefix.as_str(), "/", id.as_str());
    let ca_path = if blank(ca.as_str()) {
        None
    } else {
        Some(ca)
    };
    Some(
        Link {
            host,
            port,
            tls,
            login: pair_of(&text_in(&v.user), &text_in(&v.pass)),
            ca: ca_path,
            client_auth: pair_of(&text_in(&v.client_cert), &text_in(&v.client_key)),
            client_id: id,
            discovery,
            base,
        },
    )
}

/// A controller with no settings file bridges to the broker its environment names,
/// whichever way its settings are read.
pub proof fn law_the_environment_names_one_bridge(v: VarsModel, hostname: Seq<char>)
    requires
        trim(given(v.url)).len() > 0,
        url_of(given(v.url)).host.len() > 0,
    ensures
        merged(unconfigured(), v, hostname).bridge,
        link_of(merged(unconfigured(), v, hostname)) == env_link(v, hostname),
{
    reveal_strlit("");
    assert(""@ =~= seq![]);
    if given(v.url).len() == 0 {
        assert(trim(given(v.url)).len() <= given(v.url).len());
    }
    assert(merged(unconfigured(), v, hostname).url == given(v.url));
}

/// What a TLS connection verifies against, and what it shows of itself.
#[derive(Debug)]
pub struct Tls {
    pub ca: Vec<u8>,
    pub client_auth: Option<(Vec<u8>, Vec<u8>)>,
    /// A certificate or key was configured and could not be read.
    pub without_auth: bool,
}

/// The files of a TLS connection as they were read. A configured CA that cannot
/// be read refuses the connection, rather than falling back to no verification;
/// with none configured the system's bundle is used, and an image that ships none
/// is told which knob fixes it. Client authentication is optional.
pub fn tls(
    ca: Option<(&str, Result<Vec<u8>, String>)>,
    roots: Option<Vec<u8>>,
    client_auth: Option<(Option<Vec<u8>>, Option<Vec<u8>>)>,
) -> (r: Result<Tls, String>)
    ensures
        match ca {
            Some((p, Err(e))) => r is Err && r->Err_0@ == "iod/mqtt: cannot read CA "@ + p@ + ": "@ + e@
                + " — not connecting"@,
            Some((_, Ok(b))) => r is Ok && r->Ok_0.ca@ == b@,
            None => match roots {
                Some(b) => if b@.len() > 0 {
                    r is Ok && r->Ok_0.ca@ == b@
                } else {
                    r is Err && r->Err_0@ == no_bundle()
                },
                None => r is Err && r->Err_0@ == no_bundle(),
            },
        },
        r is Ok ==> match client_auth {
            Some((Some(c), Some(k))) => !r->Ok_0.without_auth && match r->Ok_0.client_auth {
                Some((a, b)) => a@ == c@ && b@ == k@,
                None => false,
            },
            Some(_) => r->Ok_0.without_auth && r->Ok_0.client_auth is None,
            None => !r->Ok_0.without_auth && r->Ok_0.client_auth is None,
        },
{
    let bundle = match ca {
        Some((p, Ok(b))) => b,
        Some((p, Err(e))) => {
            return Err(cat5("iod/mqtt: cannot read CA ", p, ": ", e.as_str(), " — not connecting"));
        },
        None => match roots {
            Some(b) => {
                if b.len() == 0 {
                    return Err(no_bundle_text());
                }
                b
            },
            None => {
                return Err(no_bundle_text());
            },
        },
    };
    match client_auth {
        Some((Some(c), Some(k))) => Ok(Tls { ca: bundle, client_auth: Some((c, k)), without_auth: false }),
        Some(_) => Ok(Tls { ca: bundle, client_auth: None, without_auth: true }),
        None => Ok(Tls { ca: bundle, client_auth: None, without_auth: false }),
    }
}

pub open spec fn no_bundle() -> Seq<char> {
    "iod/mqtt: mqtts:// requested but no CA bundle found; set IOD_MQTT_CA to your broker's CA PEM — not connecting"@
}

fn no_bundle_text() -> (r: String)
    ensures
        r@ == no_bundle(),
{
    String::from_str(
        "iod/mqtt: mqtts:// requested but no CA bundle found; set IOD_MQTT_CA to your broker's CA PEM — not connecting",
    )
}

// ---------------------------------------------------------------------- publications

/// A publication to the broker. State goes at least once and is retained; the
/// rest goes at most once.
#[derive(Debug)]
pub struct Publication {
    pub topic: String,
    pub payload: String,
    pub at_least_once: bool,
    pub retain: bool,
}

pub ghost struct PublicationModel {
    pub topic: Seq<char>,
    pub payload: Seq<char>,
    pub at_least_once: bool,
    pub retain: bool,
}

impl View for Publication {
    type V = PublicationModel;

    open spec fn view(&self) -> PublicationModel {
        PublicationModel {
            topic: self.topic@,
            payload: self.payload@,
            at_least_once: self.at_least_once,
            retain: self.retain,
        }
    }
}

/// The models of publications.
pub open spec fn publications(v: Seq<Publication>) -> Seq<PublicationModel> {
    v.map_values(|p: Publication| p@)
}

pub open spec fn published(m: RoutedModel) -> PublicationModel {
    PublicationModel { topic: m.topic, payload: m.payload, at_least_once: m.retain, retain: m.retain }
}

fn publish(m: Routed) -> (r: Publication)
    ensures
        r@ == published(m@),
{
    Publication { topic: m.topic, payload: m.payload, at_least_once: m.retain, retain: m.retain }
}

fn copy_routed(m: &Routed) -> (r: Routed)
    ensures
        r@ == m@,
{
    Routed { topic: m.topic.clone(), payload: m.payload.clone(), retain: m.retain }
}

/// The last will: if this controller drops off, subscribers are told rather than
/// trusting states that stopped being updated.
pub open spec fn will_of(base: Seq<char>) -> PublicationModel {
    PublicationModel { topic: base + "/status"@, payload: "offline"@, at_least_once: true, retain: true }
}

pub fn will(base: &str) -> (r: Publication)
    ensures
        r@ == will_of(base@),
{
    Publication {
        topic: cat2(base, "/status"),
        payload: String::from_str("offline"),
        at_least_once: true,
        retain: true,
    }
}

/// A bus message, republished outward.
pub fn outward(base: &str, msg: &Msg) -> (r: Option<Publication>)
    ensures
        match route_of(base@, msg@) {
            Some(m) => r is Some && r->0@ == published(m),
            None => r is None,
        },
{
    match route(base, msg) {
        Some(m) => Some(publish(m)),
        None => None,
    }
}

pub open spec fn republished(base: Seq<char>, doc: JsonModel) -> Seq<PublicationModel> {
    retained_of(base, doc).map_values(|m: RoutedModel| published(m))
}

/// All retained state: after falling behind, and on every reconnect, because the
/// broker may have been restarted and lost it.
pub fn republish(base: &str, doc: &Json) -> (r: Vec<Publication>)
    ensures
        publications(r@) == republished(base@, doc@),
{
    let v = retained(base, doc);
    let ghost want = republished(base@, doc@);
    let mut out: Vec<Publication> = Vec::new();
    let mut i: usize = 0;
    while i < v.len()
        invariant
            i <= v@.len(),
            want == routed(v@).map_values(|m: RoutedModel| published(m)),
            publications(out@) == want.take(i as int),
        decreases v@.len() - i,
    {
        let ghost was = publications(out@);
        let p = publish(copy_routed(&v[i]));
        out.push(p);
        assert(publications(out@) =~= was.push(p@));
        assert(want.take(i + 1) =~= want.take(i as int).push(want[i as int]));
        i += 1;
    }
    assert(want.take(v@.len() as int) =~= want);
    out
}

// -------------------------------------------------------------------------- discovery

pub open spec fn device_doc(b: IoBoardModel, id: Seq<char>) -> JsonModel {
    let o = with(nothing(), "identifiers"@, JsonModel::List(seq![JsonModel::Text(id)]));
    let o = with(o, "name"@, JsonModel::Text(b.hostname));
    let o = with(o, "model"@, JsonModel::Text(b.model));
    JsonModel::Object(with(o, "manufacturer"@, JsonModel::Text("openHC"@)))
}

pub open spec fn avail_doc(base: Seq<char>) -> JsonModel {
    JsonModel::List(
        seq![JsonModel::Object(with(nothing(), "topic"@, JsonModel::Text(base + "/status"@)))],
    )
}

/// One discovered thing. The topics carry the number on the panel.
pub open spec fn entity_doc(
    b: IoBoardModel,
    id: Seq<char>,
    base: Seq<char>,
    word: Seq<char>,
    kind: Seq<char>,
    i: nat,
    switch: bool,
) -> JsonModel {
    let o = with(nothing(), "name"@, JsonModel::Text(word + " "@ + dec(i + 1)));
    let o = with(o, "unique_id"@, JsonModel::Text(id + "_"@ + kind + dec(i)));
    let o = with(o, "state_topic"@, JsonModel::Text(base + "/state/"@ + kind + "/"@ + dec(i + 1)));
    let o = if switch {
        with(o, "command_topic"@, JsonModel::Text(base + "/cmd/"@ + kind + "/"@ + dec(i + 1) + "/set"@))
    } else {
        o
    };
    let o = with(o, "payload_on"@, JsonModel::Text("ON"@));
    let o = with(o, "payload_off"@, JsonModel::Text("OFF"@));
    let o = with(o, "availability"@, avail_doc(base));
    JsonModel::Object(with(o, "device"@, device_doc(b, id)))
}

pub open spec fn announcement(
    b: IoBoardModel,
    l: LinkModel,
    component: Seq<char>,
    word: Seq<char>,
    kind: Seq<char>,
    i: nat,
    switch: bool,
) -> PublicationModel {
    PublicationModel {
        topic: l.discovery + "/"@ + component + "/"@ + (l.client_id + "_"@ + kind + dec(i)) + "/config"@,
        payload: written(entity_doc(b, l.client_id, l.base, word, kind, i, switch)),
        at_least_once: true,
        retain: true,
    }
}

/// Relays appear as switches, contacts as binary sensors.
pub open spec fn announced(b: IoBoardModel, l: LinkModel) -> Seq<PublicationModel> {
    Seq::new(
        b.io.relays,
        |i: int| announcement(b, l, "switch"@, "Relay"@, "relay"@, i as nat, true),
    ) + Seq::new(
        b.io.contacts,
        |i: int| announcement(b, l, "binary_sensor"@, "Contact"@, "contact"@, i as nat, false),
    )
}

fn singleton(j: Json) -> (r: Json)
    ensures
        r@ == JsonModel::List(seq![j@]),
{
    let ghost m = j@;
    let mut v: Vec<Json> = Vec::new();
    v.push(j);
    assert(values(v@) =~= seq![m]);
    list(v)
}

fn show_entity(b: &Board, id: &str, base: &str, word: &str, kind: &str, i: u8, switch: bool) -> (r: Json)
    ensures
        r@ == entity_doc(b@, id@, base@, word@, kind@, i as nat, switch),
{
    let label = dec_string(i as u64 + 1);
    let index = dec_string(i as u64);
    let mut d = fresh();
    put(&mut d, "identifiers", singleton(text(id)));
    put(&mut d, "name", text(b.hostname.as_str()));
    put(&mut d, "model", text(b.model.as_str()));
    put(&mut d, "manufacturer", text("openHC"));
    let mut a = fresh();
    put(&mut a, "topic", Json::Text(cat2(base, "/status")));
    let mut o = fresh();
    put(&mut o, "name", Json::Text(cat3(word, " ", label.as_str())));
    put(&mut o, "unique_id", Json::Text(cat4(id, "_", kind, index.as_str())));
    put(&mut o, "state_topic", Json::Text(cat5(base, "/state/", kind, "/", label.as_str())));
    if switch {
        let t = cat5(base, "/cmd/", kind, "/", label.as_str());
        put(&mut o, "command_topic", Json::Text(cat2(t.as_str(), "/set")));
    }
    put(&mut o, "payload_on", text("ON"));
    put(&mut o, "payload_off", text("OFF"));
    put(&mut o, "availability", singleton(object(a)));
    put(&mut o, "device", object(d));
    object(o)
}

fn announce_one(b: &Board, l: &Link, component: &str, word: &str, kind: &str, i: u8, switch: bool) -> (r: Publication)
    ensures
        r@ == announcement(b@, l@, component@, word@, kind@, i as nat, switch),
{
    let uid = cat4(l.client_id.as_str(), "_", kind, dec_string(i as u64).as_str());
    let doc = show_entity(b, l.client_id.as_str(), l.base.as_str(), word, kind, i, switch);
    let head = cat4(l.discovery.as_str(), "/", component, "/");
    Publication {
        topic: cat3(head.as_str(), uid.as_str(), "/config"),
        payload: doc.to_text(),
        at_least_once: true,
        retain: true,
    }
}

/// Discovery: the controller appears in a home automation system by itself, with
/// nothing written by hand.
pub fn announce(b: &Board, l: &Link) -> (r: Vec<Publication>)
    ensures
        publications(r@) == announced(b@, l@),
{
    let ghost want = announced(b@, l@);
    let mut out: Vec<Publication> = Vec::new();
    let mut i: u8 = 0;
    while i < b.io.relays
        invariant
            i <= b.io.relays,
            want == announced(b@, l@),
            publications(out@) == want.take(i as int),
        decreases b.io.relays - i,
    {
        let ghost was = publications(out@);
        let p = announce_one(b, l, "switch", "Relay", "relay", i, true);
        out.push(p);
        assert(publications(out@) =~= was.push(p@));
        assert(want.take(i + 1) =~= want.take(i as int).push(want[i as int]));
        i += 1;
    }
    let mut k: u8 = 0;
    while k < b.io.contacts
        invariant
            k <= b.io.contacts,
            want == announced(b@, l@),
            publications(out@) == want.take(b.io.relays + k),
        decreases b.io.contacts - k,
    {
        let ghost was = publications(out@);
        let ghost at = b.io.relays + k;
        let p = announce_one(b, l, "binary_sensor", "Contact", "contact", k, false);
        out.push(p);
        assert(publications(out@) =~= was.push(p@));
        assert(want.take(at + 1) =~= want.take(at).push(want[at]));
        k += 1;
    }
    assert(want.take(want.len() as int) =~= want);
    out
}

// --------------------------------------------------------------------------- the loop

/// Once connected: that the controller is up, all of its state, and its
/// announcements where discovery is on.
pub open spec fn greeting(b: IoBoardModel, l: LinkModel, doc: JsonModel) -> Seq<PublicationModel> {
    seq![
        PublicationModel {
            topic: l.base + "/status"@,
            payload: "online"@,
            at_least_once: true,
            retain: true,
        },
    ] + republished(l.base, doc) + if l.discovery.len() > 0 {
        announced(b, l)
    } else {
        seq![]
    }
}

fn extend(out: &mut Vec<Publication>, more: Vec<Publication>)
    ensures
        publications(final(out)@) == publications(old(out)@) + publications(more@),
{
    let ghost was = publications(out@);
    let ghost m = publications(more@);
    let mut more = more;
    out.append(&mut more);
    assert(publications(out@) =~= was + m);
}

pub fn connected(b: &Board, l: &Link, doc: &Json) -> (r: Vec<Publication>)
    ensures
        publications(r@) == greeting(b@, l@, doc@),
{
    let mut out: Vec<Publication> = Vec::new();
    let p = Publication {
        topic: cat2(l.base.as_str(), "/status"),
        payload: String::from_str("online"),
        at_least_once: true,
        retain: true,
    };
    out.push(p);
    assert(publications(out@) =~= seq![p@]);
    extend(&mut out, republish(l.base.as_str(), doc));
    if !blank(l.discovery.as_str()) {
        extend(&mut out, announce(b, l));
    } else {
        assert(publications(out@) + seq![] =~= publications(out@));
    }
    out
}

/// The filter of the topics that carry commands.
pub fn command_filter(base: &str) -> (r: String)
    ensures
        r@ == base@ + "/cmd/#"@,
{
    cat2(base, "/cmd/#")
}

/// A text without a prefix, however often it stands there.
pub open spec fn unprefixed(s: Seq<char>, prefix: Seq<char>) -> Seq<char>
    decreases s.len(),
{
    if prefix.len() > 0 && starts_with(s, prefix) {
        unprefixed(s.skip(prefix.len() as int), prefix)
    } else {
        s
    }
}

fn unprefix<'a>(s: &'a [char], prefix: &str) -> (r: &'a [char])
    requires
        prefix@.len() > 0,
    ensures
        r@ == unprefixed(s@, prefix@),
    decreases s@.len(),
{
    match strip_prefix_str(s, prefix) {
        Some(t) => unprefix(t, prefix),
        None => s,
    }
}

/// The command topic's tail and its body, of a message the broker delivered.
pub fn delivered(base: &str, topic: &str, payload: &[u8]) -> (r: (String, String))
    ensures
        r.0@ == unprefixed(topic@, base@ + "/cmd/"@),
        r.1@ == lossy_text(payload@),
{
    let prefix = cat2(base, "/cmd/");
    proof {
        reveal_strlit("/cmd/");
    }
    let chars = to_chars(topic);
    (from_chars(unprefix(chars.as_slice(), prefix.as_str())), lossy(payload))
}

/// A command that failed is reported on the error topic.
pub fn failed(base: &str, topic: &str, f: &Fault) -> (r: Publication)
    ensures
        r@ == (PublicationModel {
            topic: base@ + "/error"@,
            payload: written(failure_doc(topic@, f@)),
            at_least_once: false,
            retain: false,
        }),
{
    let e = failure(topic, f);
    Publication {
        topic: cat2(base, "/error"),
        payload: e.to_text(),
        at_least_once: false,
        retain: false,
    }
}

} // verus!
