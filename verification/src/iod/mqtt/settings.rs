//! MQTT settings: the part the configuration page writes.
//!
//! The settings file comes first and the environment on top. An operator staring
//! at a provisioned value they cannot change is better served by seeing it marked
//! as pinned than by having their edit quietly ignored.
use crate::text::{opt, strings, to_chars};
use vstd::prelude::*;
use vstd::string::*;

verus! {

#[derive(Debug)]
pub struct Mqtt {
    /// Serve MQTT from this controller.
    pub serve: bool,
    /// Plain-MQTT listener for other things on the LAN. 0 disables it.
    pub listen_port: u16,
    /// Also connect out to somebody else's broker.
    pub bridge: bool,
    pub url: String,
    pub username: String,
    pub password: String,
    pub ca_path: String,
    pub client_cert_path: String,
    pub client_key_path: String,
    /// Topic root.
    pub prefix: String,
    /// Defaults to the hostname, which is unique.
    pub client_id: String,
    /// Discovery prefix; empty disables it.
    pub discovery: String,
}

pub ghost struct MqttModel {
    pub serve: bool,
    pub listen_port: nat,
    pub bridge: bool,
    pub url: Seq<char>,
    pub username: Seq<char>,
    pub password: Seq<char>,
    pub ca_path: Seq<char>,
    pub client_cert_path: Seq<char>,
    pub client_key_path: Seq<char>,
    pub prefix: Seq<char>,
    pub client_id: Seq<char>,
    pub discovery: Seq<char>,
}

impl View for Mqtt {
    type V = MqttModel;

    open spec fn view(&self) -> MqttModel {
        MqttModel {
            serve: self.serve,
            listen_port: self.listen_port as nat,
            bridge: self.bridge,
            url: self.url@,
            username: self.username@,
            password: self.password@,
            ca_path: self.ca_path@,
            client_cert_path: self.client_cert_path@,
            client_key_path: self.client_key_path@,
            prefix: self.prefix@,
            client_id: self.client_id@,
            discovery: self.discovery@,
        }
    }
}

/// The settings of a controller that was never configured.
pub open spec fn unconfigured() -> MqttModel {
    MqttModel {
        serve: true,
        listen_port: 1883,
        bridge: false,
        url: ""@,
        username: ""@,
        password: ""@,
        ca_path: ""@,
        client_cert_path: ""@,
        client_key_path: ""@,
        prefix: "openhc"@,
        client_id: ""@,
        discovery: "homeassistant"@,
    }
}

impl Default for Mqtt {
    fn default() -> (r: Mqtt)
        ensures
            r@ == unconfigured(),
    {
        Mqtt {
            serve: true,
            listen_port: 1883,
            bridge: false,
            url: String::from_str(""),
            username: String::from_str(""),
            password: String::from_str(""),
            ca_path: String::from_str(""),
            client_cert_path: String::from_str(""),
            client_key_path: String::from_str(""),
            prefix: String::from_str("openhc"),
            client_id: String::from_str(""),
            discovery: String::from_str("homeassistant"),
        }
    }
}

/// What the environment holds.
#[derive(Debug)]
pub struct Vars {
    pub url: Option<String>,
    pub user: Option<String>,
    pub pass: Option<String>,
    pub ca: Option<String>,
    pub client_cert: Option<String>,
    pub client_key: Option<String>,
    pub prefix: Option<String>,
    pub client_id: Option<String>,
    pub discovery: Option<String>,
}

pub ghost struct VarsModel {
    pub url: Option<Seq<char>>,
    pub user: Option<Seq<char>>,
    pub pass: Option<Seq<char>>,
    pub ca: Option<Seq<char>>,
    pub client_cert: Option<Seq<char>>,
    pub client_key: Option<Seq<char>>,
    pub prefix: Option<Seq<char>>,
    pub client_id: Option<Seq<char>>,
    pub discovery: Option<Seq<char>>,
}

impl View for Vars {
    type V = VarsModel;

    open spec fn view(&self) -> VarsModel {
        VarsModel {
            url: opt(self.url),
            user: opt(self.user),
            pass: opt(self.pass),
            ca: opt(self.ca),
            client_cert: opt(self.client_cert),
            client_key: opt(self.client_key),
            prefix: opt(self.prefix),
            client_id: opt(self.client_id),
            discovery: opt(self.discovery),
        }
    }
}

/// A variable counts when it is set to something.
pub open spec fn counts(v: Option<Seq<char>>) -> bool {
    v matches Some(s) && s.len() > 0
}

/// The environment's value where it counts, else the file's.
pub open spec fn over(v: Option<Seq<char>>, field: Seq<char>) -> Seq<char> {
    match v {
        Some(s) => if s.len() > 0 {
            s
        } else {
            field
        },
        None => field,
    }
}

pub open spec fn pin(pinned: Seq<Seq<char>>, yes: bool, name: Seq<char>) -> Seq<Seq<char>> {
    if yes {
        pinned.push(name)
    } else {
        pinned
    }
}

/// The fields the environment has pinned.
pub open spec fn pins(file: MqttModel, v: VarsModel) -> Seq<Seq<char>> {
    let p = pin(seq![], counts(v.url), "url"@);
    let p = pin(p, counts(v.user), "username"@);
    let p = pin(p, counts(v.pass), "password"@);
    let p = pin(p, counts(v.ca), "ca_path"@);
    let p = pin(p, counts(v.client_cert), "client_cert_path"@);
    let p = pin(p, counts(v.client_key), "client_key_path"@);
    let p = pin(p, counts(v.prefix), "prefix"@);
    let p = pin(p, counts(v.client_id), "client_id"@);
    let p = pin(p, v.discovery is Some, "discovery"@);
    pin(p, over(v.url, file.url).len() > 0 && v.url is Some, "bridge"@)
}

/// The settings in force.
pub open spec fn merged(file: MqttModel, v: VarsModel, hostname: Seq<char>) -> MqttModel {
    let url = over(v.url, file.url);
    let prefix = over(v.prefix, file.prefix);
    let client_id = over(v.client_id, file.client_id);
    MqttModel {
        serve: file.serve,
        listen_port: file.listen_port,
        bridge: file.bridge || (url.len() > 0 && v.url is Some),
        url,
        username: over(v.user, file.username),
        password: over(v.pass, file.password),
        ca_path: over(v.ca, file.ca_path),
        client_cert_path: over(v.client_cert, file.client_cert_path),
        client_key_path: over(v.client_key, file.client_key_path),
        prefix: if prefix.len() == 0 {
            "openhc"@
        } else {
            prefix
        },
        client_id: if client_id.len() == 0 {
            hostname
        } else {
            client_id
        },
        discovery: match v.discovery {
            Some(s) => s,
            None => file.discovery,
        },
    }
}

pub(crate) fn blank(s: &str) -> (r: bool)
    ensures
        r == (s@.len() == 0),
{
    to_chars(s).len() == 0
}

fn env_str(var: Option<String>, field: String, name: &str, pinned: &mut Vec<String>) -> (r: String)
    ensures
        r@ == over(opt(var), field@),
        strings(final(pinned)@) == pin(strings(old(pinned)@), counts(opt(var)), name@),
{
    match var {
        Some(v) => {
            if blank(v.as_str()) {
                return field;
            }
            let ghost was = strings(pinned@);
            let n = String::from_str(name);
            pinned.push(n);
            assert(strings(pinned@) =~= was.push(name@));
            v
        },
        None => field,
    }
}

#[derive(Debug)]
pub struct Settings {
    pub mqtt: Mqtt,
}

impl Settings {
    /// File, then environment on top. No file is what an unconfigured controller
    /// looks like. Also the fields the environment has pinned.
    pub fn load(hostname: &str, file: Option<Mqtt>, vars: Vars) -> (r: (Settings, Vec<String>))
        ensures
            ({
                let f = match file {
                    Some(m) => m@,
                    None => unconfigured(),
                };
                r.0.mqtt@ == merged(f, vars@, hostname@) && strings(r.1@) == pins(f, vars@)
            }),
    {
        let m = match file {
            Some(m) => m,
            None => Mqtt::default(),
        };
        let mut pinned: Vec<String> = Vec::new();
        assert(strings(pinned@) =~= seq![]);
        let url_set: bool = vars.url.is_some();
        let url = env_str(vars.url, m.url, "url", &mut pinned);
        let username = env_str(vars.user, m.username, "username", &mut pinned);
        let password = env_str(vars.pass, m.password, "password", &mut pinned);
        let ca_path = env_str(vars.ca, m.ca_path, "ca_path", &mut pinned);
        let client_cert_path = env_str(vars.client_cert, m.client_cert_path, "client_cert_path", &mut pinned);
        let client_key_path = env_str(vars.client_key, m.client_key_path, "client_key_path", &mut pinned);
        let mut prefix = env_str(vars.prefix, m.prefix, "prefix", &mut pinned);
        let mut client_id = env_str(vars.client_id, m.client_id, "client_id", &mut pinned);
        let mut discovery = m.discovery;
        if let Some(d) = vars.discovery {
            discovery = d;
            let ghost was = strings(pinned@);
            pinned.push(String::from_str("discovery"));
            assert(strings(pinned@) =~= was.push("discovery"@));
        }
        let mut bridge: bool = m.bridge;
        if !blank(url.as_str()) && url_set {
            bridge = true;
            let ghost was = strings(pinned@);
            pinned.push(String::from_str("bridge"));
            assert(strings(pinned@) =~= was.push("bridge"@));
        }
        if blank(client_id.as_str()) {
            client_id = String::from_str(hostname);
        }
        if blank(prefix.as_str()) {
            prefix = String::from_str("openhc");
        }
        let mqtt = Mqtt {
            serve: m.serve,
            listen_port: m.listen_port,
            bridge,
            url,
            username,
            password,
            ca_path,
            client_cert_path,
            client_key_path,
            prefix,
            client_id,
            discovery,
        };
        (Settings { mqtt }, pinned)
    }
}

/// What the environment sets is what is in force, whatever the file says.
pub proof fn law_the_environment_wins(file: MqttModel, v: VarsModel, hostname: Seq<char>)
    ensures
        counts(v.url) ==> merged(file, v, hostname).url == v.url->0 && merged(file, v, hostname).bridge,
        counts(v.user) ==> merged(file, v, hostname).username == v.user->0,
        counts(v.pass) ==> merged(file, v, hostname).password == v.pass->0,
        counts(v.ca) ==> merged(file, v, hostname).ca_path == v.ca->0,
        counts(v.client_cert) ==> merged(file, v, hostname).client_cert_path == v.client_cert->0,
        counts(v.client_key) ==> merged(file, v, hostname).client_key_path == v.client_key->0,
        counts(v.prefix) ==> merged(file, v, hostname).prefix == v.prefix->0,
        counts(v.client_id) ==> merged(file, v, hostname).client_id == v.client_id->0,
        v.discovery is Some ==> merged(file, v, hostname).discovery == v.discovery->0,
{
}

} // verus!
