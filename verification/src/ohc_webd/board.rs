//! The board's capabilities, parsed from `/opt/ohc/board.env`: the same shell
//! file the init scripts source. Boards differ only in this file.
use crate::env::{env_get, hostname, hostname_of, or_text, Env};
use crate::flasher::board::opt_str;
use crate::json::{list, members, object, put, text, values, with, Json, JsonModel, Member};
use crate::num::{parse_number, parse_unsigned};
use crate::text::{
    cat2, from_chars, opt, replace_char, replaced, same, slices, split, split_of, split_once, split_once_of, to_chars,
    words, words_of, Class,
};
use vstd::prelude::*;
use vstd::string::*;

verus! {

#[derive(Debug)]
pub struct Radio {
    pub kind: String,
    pub dev: String,
}

pub ghost struct RadioModel {
    pub kind: Seq<char>,
    pub dev: Seq<char>,
}

impl View for Radio {
    type V = RadioModel;

    open spec fn view(&self) -> RadioModel {
        RadioModel { kind: self.kind@, dev: self.dev@ }
    }
}

pub open spec fn radios_view(v: Seq<Radio>) -> Seq<RadioModel> {
    v.map_values(|r: Radio| r@)
}

#[derive(Debug)]
pub struct SerialPort {
    pub dev: String,
    pub label: String,
    pub baud: u32,
}

pub ghost struct PortModel {
    pub dev: Seq<char>,
    pub label: Seq<char>,
    pub baud: nat,
}

impl View for SerialPort {
    type V = PortModel;

    open spec fn view(&self) -> PortModel {
        PortModel { dev: self.dev@, label: self.label@, baud: self.baud as nat }
    }
}

pub open spec fn ports_view(v: Seq<SerialPort>) -> Seq<PortModel> {
    v.map_values(|p: SerialPort| p@)
}

#[derive(Debug)]
pub struct Board {
    pub model: String,
    pub hostname: String,
    pub uplink_iface: String,
    pub wifi_iface: String,
    pub radios: Vec<Radio>,
    pub serials: Vec<SerialPort>,
}

pub ghost struct BoardModel {
    pub model: Seq<char>,
    pub hostname: Seq<char>,
    pub uplink_iface: Seq<char>,
    pub wifi_iface: Seq<char>,
    pub radios: Seq<RadioModel>,
    pub serials: Seq<PortModel>,
}

impl View for Board {
    type V = BoardModel;

    open spec fn view(&self) -> BoardModel {
        BoardModel {
            model: self.model@,
            hostname: self.hostname@,
            uplink_iface: self.uplink_iface@,
            wifi_iface: self.wifi_iface@,
            radios: radios_view(self.radios@),
            serials: ports_view(self.serials@),
        }
    }
}

/// The rate of a port that names none.
pub const DEFAULT_BAUD: u32 = 115200;

/// The radios a list of `kind:device` words declares; a word without a colon
/// declares none.
pub open spec fn radios_in(ws: Seq<Seq<char>>) -> Seq<RadioModel>
    decreases ws.len(),
{
    if ws.len() == 0 {
        seq![]
    } else {
        match split_once(ws.last(), Class::One(':')) {
            Some((kind, dev)) => radios_in(ws.drop_last()).push(RadioModel { kind, dev }),
            None => radios_in(ws.drop_last()),
        }
    }
}

/// The port a `device:label:baud` word declares. Underscores in the label stand
/// for spaces.
pub open spec fn port_in(w: Seq<char>) -> PortModel {
    let p = split(w, Class::One(':'));
    PortModel {
        dev: "/dev/"@ + p[0],
        label: if p.len() > 1 {
            replace_char(p[1], '_', ' ')
        } else {
            seq![]
        },
        baud: if p.len() > 2 {
            match parse_unsigned(p[2], 10, 0xffff_ffff) {
                Some(n) => n,
                None => DEFAULT_BAUD as nat,
            }
        } else {
            DEFAULT_BAUD as nat
        },
    }
}

pub open spec fn ports_in(ws: Seq<Seq<char>>) -> Seq<PortModel> {
    ws.map_values(|w: Seq<char>| port_in(w))
}

/// What a `board.env` text and the kernel's host name say of a board.
pub open spec fn board_of(env: Seq<char>, host: Option<Seq<char>>) -> BoardModel {
    BoardModel {
        model: or_text(env_get(env, "OHC_MODEL"@), "unknown"@),
        hostname: hostname_of(host),
        uplink_iface: or_text(env_get(env, "OHC_UPLINK_IFACE"@), "eth0"@),
        wifi_iface: or_text(env_get(env, "OHC_WIFI_IFACE"@), ""@),
        radios: match env_get(env, "OHC_RADIOS"@) {
            Some(t) => radios_in(words(t)),
            None => seq![],
        },
        serials: match env_get(env, "OHC_SERIALS"@) {
            Some(t) => ports_in(words(t)),
            None => seq![],
        },
    }
}

fn read_radios(t: &str) -> (r: Vec<Radio>)
    ensures
        radios_view(r@) == radios_in(words(t@)),
{
    let chars = to_chars(t);
    let ws = words_of(chars.as_slice());
    let ghost all = slices(ws@);
    let mut out: Vec<Radio> = Vec::new();
    let mut i: usize = 0;
    assert(radios_view(out@) =~= radios_in(all.take(0)));
    while i < ws.len()
        invariant
            i <= ws@.len(),
            all == slices(ws@),
            radios_view(out@) == radios_in(all.take(i as int)),
        decreases ws@.len() - i,
    {
        assert(all.take(i + 1).drop_last() =~= all.take(i as int));
        assert(all.take(i + 1).last() == ws@[i as int]@);
        if let Some((k, d)) = split_once_of(ws[i], &Class::One(':')) {
            let ghost was = out@;
            let r = Radio { kind: from_chars(k), dev: from_chars(d) };
            out.push(r);
            assert(radios_view(out@) =~= radios_view(was).push(r@));
        }
        i += 1;
    }
    assert(all.take(i as int) =~= all);
    out
}

fn read_port(w: &[char]) -> (r: SerialPort)
    ensures
        r@ == port_in(w@),
{
    let p = split_of(w, &Class::One(':'));
    let ghost ps = slices(p@);
    assert(ps.len() == p@.len());
    assert(ps[0] == p@[0]@);
    let d = from_chars(p[0]);
    let label: String = if p.len() > 1 {
        assert(ps[1] == p@[1]@);
        let l = replaced(p[1], '_', ' ');
        from_chars(l.as_slice())
    } else {
        let e = String::new();
        assert(e@ =~= seq![]);
        e
    };
    let baud: u32 = if p.len() > 2 {
        assert(ps[2] == p@[2]@);
        match parse_number(p[2], 10, 0xffff_ffff) {
            Some(n) => n as u32,
            None => DEFAULT_BAUD,
        }
    } else {
        DEFAULT_BAUD
    };
    SerialPort { dev: cat2("/dev/", d.as_str()), label, baud }
}

fn read_ports(t: &str) -> (r: Vec<SerialPort>)
    ensures
        ports_view(r@) == ports_in(words(t@)),
{
    let chars = to_chars(t);
    let ws = words_of(chars.as_slice());
    let ghost want = ports_in(slices(ws@));
    let mut out: Vec<SerialPort> = Vec::new();
    let mut i: usize = 0;
    assert(ports_view(out@) =~= want.take(0));
    while i < ws.len()
        invariant
            i <= ws@.len(),
            want == ports_in(slices(ws@)),
            ports_view(out@) == want.take(i as int),
        decreases ws@.len() - i,
    {
        assert(slices(ws@)[i as int] == ws@[i as int]@);
        let p = read_port(ws[i]);
        let ghost was = out@;
        out.push(p);
        assert(ports_view(out@) =~= ports_view(was).push(p@));
        assert(want.take(i + 1) =~= want.take(i as int).push(want[i as int]));
        i += 1;
    }
    assert(want.take(i as int) =~= want);
    out
}

/// The device of the first radio of a kind.
pub open spec fn device_of(v: Seq<RadioModel>, kind: Seq<char>) -> Option<Seq<char>>
    decreases v.len(),
{
    if v.len() == 0 {
        None
    } else if v[0].kind == kind {
        Some(v[0].dev)
    } else {
        device_of(v.skip(1), kind)
    }
}

/// The first port with a device.
pub open spec fn port_of(v: Seq<PortModel>, dev: Seq<char>) -> Option<PortModel>
    decreases v.len(),
{
    if v.len() == 0 {
        None
    } else if v[0].dev == dev {
        Some(v[0])
    } else {
        port_of(v.skip(1), dev)
    }
}

impl Board {
    /// The board that a `board.env` text describes. A file that could not be
    /// read is an empty text.
    pub fn load(env: &str, host: Option<&str>) -> (r: Board)
        ensures
            r@ == board_of(env@, opt_str(host)),
    {
        let e = Env::parse(env);
        let radios: Vec<Radio> = match e.get("OHC_RADIOS") {
            Some(t) => read_radios(t.as_str()),
            None => Vec::new(),
        };
        let serials: Vec<SerialPort> = match e.get("OHC_SERIALS") {
            Some(t) => read_ports(t.as_str()),
            None => Vec::new(),
        };
        assert(radios_view(Seq::<Radio>::empty()) =~= seq![]);
        assert(ports_view(Seq::<SerialPort>::empty()) =~= seq![]);
        Board {
            model: e.get_or("OHC_MODEL", "unknown"),
            hostname: hostname(host),
            uplink_iface: e.get_or("OHC_UPLINK_IFACE", "eth0"),
            wifi_iface: e.get_or("OHC_WIFI_IFACE", ""),
            radios,
            serials,
        }
    }

    /// The device of a kind of radio.
    pub fn radio_dev(&self, kind: &str) -> (r: Option<String>)
        ensures
            opt(r) == device_of(self@.radios, kind@),
    {
        let ghost all = self@.radios;
        let mut i: usize = 0;
        assert(all.skip(0) =~= all);
        while i < self.radios.len()
            invariant
                i <= self.radios@.len(),
                all == radios_view(self.radios@),
                device_of(all, kind@) == device_of(all.skip(i as int), kind@),
            decreases self.radios@.len() - i,
        {
            assert(all.skip(i as int)[0] == self.radios@[i as int]@);
            if same(self.radios[i].kind.as_str(), kind) {
                return Some(String::from_str(self.radios[i].dev.as_str()));
            }
            assert(all.skip(i as int).skip(1) =~= all.skip(i + 1));
            i += 1;
        }
        None
    }

    fn find_port(&self, dev: &str) -> (r: Option<u32>)
        ensures
            match r {
                Some(b) => port_of(self@.serials, dev@) matches Some(p) && p.baud == b,
                None => port_of(self@.serials, dev@) is None,
            },
    {
        let ghost all = self@.serials;
        let mut i: usize = 0;
        assert(all.skip(0) =~= all);
        while i < self.serials.len()
            invariant
                i <= self.serials@.len(),
                all == ports_view(self.serials@),
                port_of(all, dev@) == port_of(all.skip(i as int), dev@),
            decreases self.serials@.len() - i,
        {
            assert(all.skip(i as int)[0] == self.serials@[i as int]@);
            if same(self.serials[i].dev.as_str(), dev) {
                return Some(self.serials[i].baud);
            }
            assert(all.skip(i as int).skip(1) =~= all.skip(i + 1));
            i += 1;
        }
        None
    }

    /// The rate of a port; the default for a device the board does not declare.
    pub fn serial_baud(&self, dev: &str) -> (r: u32)
        ensures
            r == match port_of(self@.serials, dev@) {
                Some(p) => p.baud,
                None => DEFAULT_BAUD as nat,
            },
    {
        match self.find_port(dev) {
            Some(b) => b,
            None => DEFAULT_BAUD,
        }
    }

    /// The port that a terminal may open: its device and its rate. Only ports
    /// the board declares.
    pub fn terminal(&self, name: &str) -> (r: Option<(String, u32)>)
        ensures
            match r {
                Some((d, b)) => d@ == "/dev/"@ + name@ && (port_of(self@.serials, "/dev/"@ + name@) matches Some(p)
                    && p.baud == b),
                None => port_of(self@.serials, "/dev/"@ + name@) is None,
            },
    {
        let dev = cat2("/dev/", name);
        match self.find_port(dev.as_str()) {
            Some(b) => Some((dev, b)),
            None => None,
        }
    }
}

pub open spec fn radio_doc(r: RadioModel) -> JsonModel {
    JsonModel::Object(
        with(with(seq![], "type"@, JsonModel::Text(r.kind)), "dev"@, JsonModel::Text(r.dev)),
    )
}

pub open spec fn port_doc(p: PortModel) -> JsonModel {
    let o = with(seq![], "dev"@, JsonModel::Text(p.dev));
    let o = with(o, "label"@, JsonModel::Text(p.label));
    JsonModel::Object(with(o, "baud"@, JsonModel::Number(p.baud)))
}

pub open spec fn radios_doc(v: Seq<RadioModel>) -> JsonModel {
    JsonModel::List(v.map_values(|r: RadioModel| radio_doc(r)))
}

pub open spec fn ports_doc(v: Seq<PortModel>) -> JsonModel {
    JsonModel::List(v.map_values(|p: PortModel| port_doc(p)))
}

pub open spec fn board_doc(b: BoardModel) -> JsonModel {
    let o = with(seq![], "model"@, JsonModel::Text(b.model));
    let o = with(o, "hostname"@, JsonModel::Text(b.hostname));
    let o = with(o, "uplink_iface"@, JsonModel::Text(b.uplink_iface));
    let o = with(o, "wifi_iface"@, JsonModel::Text(b.wifi_iface));
    let o = with(o, "radios"@, radios_doc(b.radios));
    JsonModel::Object(with(o, "serials"@, ports_doc(b.serials)))
}

/// The radios' document.
pub fn radios_json(v: &Vec<Radio>) -> (r: Json)
    ensures
        r@ == radios_doc(radios_view(v@)),
{
    let ghost want = radios_view(v@).map_values(|r: RadioModel| radio_doc(r));
    let mut out: Vec<Json> = Vec::new();
    let mut i: usize = 0;
    assert(values(out@) =~= want.take(0));
    while i < v.len()
        invariant
            i <= v@.len(),
            want == radios_view(v@).map_values(|r: RadioModel| radio_doc(r)),
            values(out@) == want.take(i as int),
        decreases v@.len() - i,
    {
        let mut o: Vec<Member> = Vec::new();
        assert(members(o@) =~= seq![]);
        put(&mut o, "type", text(v[i].kind.as_str()));
        put(&mut o, "dev", text(v[i].dev.as_str()));
        let j = object(o);
        assert(radios_view(v@)[i as int] == v@[i as int]@);
        let ghost was = out@;
        out.push(j);
        assert(values(out@) =~= values(was).push(j@));
        assert(want.take(i + 1) =~= want.take(i as int).push(want[i as int]));
        i += 1;
    }
    assert(want.take(i as int) =~= want);
    list(out)
}

/// The ports' document.
pub fn ports_json(v: &Vec<SerialPort>) -> (r: Json)
    ensures
        r@ == ports_doc(ports_view(v@)),
{
    let ghost want = ports_view(v@).map_values(|p: PortModel| port_doc(p));
    let mut out: Vec<Json> = Vec::new();
    let mut i: usize = 0;
    assert(values(out@) =~= want.take(0));
    while i < v.len()
        invariant
            i <= v@.len(),
            want == ports_view(v@).map_values(|p: PortModel| port_doc(p)),
            values(out@) == want.take(i as int),
        decreases v@.len() - i,
    {
        let mut o: Vec<Member> = Vec::new();
        assert(members(o@) =~= seq![]);
        put(&mut o, "dev", text(v[i].dev.as_str()));
        put(&mut o, "label", text(v[i].label.as_str()));
        put(&mut o, "baud", Json::Number(v[i].baud as u64));
        let j = object(o);
        assert(ports_view(v@)[i as int] == v@[i as int]@);
        let ghost was = out@;
        out.push(j);
        assert(values(out@) =~= values(was).push(j@));
        assert(want.take(i + 1) =~= want.take(i as int).push(want[i as int]));
        i += 1;
    }
    assert(want.take(i as int) =~= want);
    list(out)
}

/// The board's document.
pub fn board_json(b: &Board) -> (r: Json)
    ensures
        r@ == board_doc(b@),
{
    let mut o: Vec<Member> = Vec::new();
    assert(members(o@) =~= seq![]);
    put(&mut o, "model", text(b.model.as_str()));
    put(&mut o, "hostname", text(b.hostname.as_str()));
    put(&mut o, "uplink_iface", text(b.uplink_iface.as_str()));
    put(&mut o, "wifi_iface", text(b.wifi_iface.as_str()));
    put(&mut o, "radios", radios_json(&b.radios));
    put(&mut o, "serials", ports_json(&b.serials));
    object(o)
}

} // verus!
