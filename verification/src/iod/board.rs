//! The IO model, parsed from `/opt/ohc/board.env`.
//!
//! This is the whole reason one binary runs the fleet. Every board answers the
//! same questions, how the IO is reached and how many of each thing there is,
//! and nothing above this module knows what a HC-800 or an IO Extender is.
//!
//! The governing rule: a thing with nothing behind it does not appear. A count
//! of zero is not "unknown", it is "absent".
use crate::env::{assignments, hostname, hostname_of, last_value, or_text, Env};
use crate::flasher::board::opt_str;
use crate::num::{dec, dec_string, parse_number, parse_unsigned};
use crate::text::{
    eq_str, from_chars, lines, opt, replace_char, replaced, slices, split, split_of, to_chars, words, words_of, Class,
};
use vstd::prelude::*;
use vstd::string::*;

verus! {

/// How the relays, contacts and IR are physically reached.
#[derive(Debug, Clone, Copy, PartialEq, Eq, Structural)]
pub enum Backend {
    /// Behind a microcontroller on a serial port, spoken to with DLE/STX.
    Mcu,
    /// Native SoC GPIO lines (the DM355 IO Extender).
    Gpio,
    /// The board has no local IO of its own (CA-1).
    Absent,
}

#[derive(Debug)]
pub struct SerialPort {
    /// Device node for a host UART, or `None` when the port is MCU-routed and
    /// only reachable through the IO protocol.
    pub dev: Option<String>,
    pub label: String,
    pub baud: u32,
    /// `host`: a real /dev/tty the kernel owns. `mcu`: bytes travel over the IO
    /// protocol's UART opcodes; there is no device node.
    pub transport: &'static str,
    /// What this port will actually run at. Per port, because the ceiling is a
    /// property of what is behind the connector.
    pub bauds: Vec<u32>,
}

pub ghost struct PortModel {
    pub dev: Option<Seq<char>>,
    pub label: Seq<char>,
    pub baud: nat,
    pub transport: Seq<char>,
    pub bauds: Seq<u32>,
}

impl View for SerialPort {
    type V = PortModel;

    open spec fn view(&self) -> PortModel {
        PortModel {
            dev: opt(self.dev),
            label: self.label@,
            baud: self.baud as nat,
            transport: self.transport@,
            bauds: self.bauds@,
        }
    }
}

/// The models of a list of ports.
pub open spec fn ports(v: Seq<SerialPort>) -> Seq<PortModel> {
    v.map_values(|p: SerialPort| p@)
}

#[derive(Debug)]
pub struct Io {
    pub backend: Backend,
    pub mcu_part: Option<String>,
    pub mcu_tty: Option<String>,
    pub mcu_baud: u32,
    /// Rear IR jacks.
    pub ir_out: u8,
    /// How many of `ir_out` can be switched to serial instead. On the EA family
    /// the combo ports are the same physical connectors as the user UARTs: a
    /// port is IR or serial, never both.
    pub ir_combo: u8,
    /// Internal front blaster, counted separately from the rear jacks.
    pub ir_blaster: u8,
    /// Front receiver, for learning.
    pub ir_in: u8,
    pub relays: u8,
    pub contacts: u8,
    /// Native GPIO line numbers, `gpio` backend only.
    pub relay_gpios: Vec<u32>,
    pub contact_gpios: Vec<u32>,
    pub serials: Vec<SerialPort>,
}

pub ghost struct IoModel {
    pub backend: Backend,
    pub mcu_part: Option<Seq<char>>,
    pub mcu_tty: Option<Seq<char>>,
    pub mcu_baud: nat,
    pub ir_out: nat,
    pub ir_combo: nat,
    pub ir_blaster: nat,
    pub ir_in: nat,
    pub relays: nat,
    pub contacts: nat,
    pub relay_gpios: Seq<u32>,
    pub contact_gpios: Seq<u32>,
    pub serials: Seq<PortModel>,
}

impl View for Io {
    type V = IoModel;

    open spec fn view(&self) -> IoModel {
        IoModel {
            backend: self.backend,
            mcu_part: opt(self.mcu_part),
            mcu_tty: opt(self.mcu_tty),
            mcu_baud: self.mcu_baud as nat,
            ir_out: self.ir_out as nat,
            ir_combo: self.ir_combo as nat,
            ir_blaster: self.ir_blaster as nat,
            ir_in: self.ir_in as nat,
            relays: self.relays as nat,
            contacts: self.contacts as nat,
            relay_gpios: self.relay_gpios@,
            contact_gpios: self.contact_gpios@,
            serials: ports(self.serials@),
        }
    }
}

impl Io {
    /// Total IR emitters the board can drive: rear jacks plus the internal
    /// blaster. Combo ports are not added; they are a subset of `ir_out`.
    pub fn ir_total(&self) -> (r: u8)
        requires
            self@.ir_out + self@.ir_blaster <= 255,
        ensures
            r == self@.ir_out + self@.ir_blaster,
    {
        self.ir_out + self.ir_blaster
    }

    pub fn has_any(&self) -> (r: bool)
        ensures
            r == (self@.backend != Backend::Absent || self@.serials.len() > 0),
    {
        self.backend != Backend::Absent || self.serials.len() > 0
    }
}

#[derive(Debug)]
pub struct Board {
    pub model: String,
    pub hostname: String,
    pub io: Io,
}

pub ghost struct IoBoardModel {
    pub model: Seq<char>,
    pub hostname: Seq<char>,
    pub io: IoModel,
}

impl View for Board {
    type V = IoBoardModel;

    open spec fn view(&self) -> IoBoardModel {
        IoBoardModel { model: self.model@, hostname: self.hostname@, io: self.io@ }
    }
}

// ----------------------------------------------------------------- reading values

/// A number a key holds, or 0: an absent or malformed count is no count.
pub open spec fn count(e: Seq<(Seq<char>, Seq<char>)>, key: Seq<char>, max: nat) -> nat {
    or_number(e, key, max, 0)
}

/// A number a key holds, or a default when it holds none.
pub open spec fn or_number(
    e: Seq<(Seq<char>, Seq<char>)>,
    key: Seq<char>,
    max: nat,
    default: nat,
) -> nat {
    match last_value(e, key) {
        Some(v) => match parse_unsigned(v, 10, max) {
            Some(n) => n,
            None => default,
        },
        None => default,
    }
}

/// The numbers among a list of words; a word that is none is left out.
pub open spec fn numbers(ws: Seq<Seq<char>>) -> Seq<u32>
    decreases ws.len(),
{
    if ws.len() == 0 {
        seq![]
    } else {
        match parse_unsigned(ws.last(), 10, u32::MAX as nat) {
            Some(n) => numbers(ws.drop_last()).push(n as u32),
            None => numbers(ws.drop_last()),
        }
    }
}

/// The numbers a key lists, white-space separated.
pub open spec fn number_list(e: Seq<(Seq<char>, Seq<char>)>, key: Seq<char>) -> Seq<u32> {
    match last_value(e, key) {
        Some(v) => numbers(words(v)),
        None => seq![],
    }
}

/// The rates a key lists, or the usual ones when it lists none.
pub open spec fn rates(e: Seq<(Seq<char>, Seq<char>)>, key: Seq<char>, usual: Seq<u32>) -> Seq<u32> {
    let v = number_list(e, key);
    if v.len() == 0 {
        usual
    } else {
        v
    }
}

/// A value that is present and not empty.
pub open spec fn filled(o: Option<Seq<char>>) -> Option<Seq<char>> {
    match o {
        Some(s) if s.len() > 0 => Some(s),
        _ => None,
    }
}

/// The classic RS-232 ladder.
pub open spec fn host_rates() -> Seq<u32> {
    seq![1200u32, 2400, 4800, 9600, 14400, 19200, 38400, 57600, 115200]
}

/// The conservative common set for ports behind the microcontroller.
pub open spec fn mcu_rates() -> Seq<u32> {
    seq![1200u32, 2400, 4800, 9600, 19200, 38400, 57600, 115200]
}

/// One host UART, written `dev:label:baud`. Labels use underscores so the field
/// itself stays free of white space.
pub open spec fn host_port(word: Seq<char>, bauds: Seq<u32>) -> PortModel {
    let p = split(word, Class::One(':'));
    PortModel {
        dev: Some("/dev/"@ + p[0]),
        label: if p.len() > 1 { replace_char(p[1], '_', ' ') } else { seq![] },
        baud: if p.len() > 2 {
            match parse_unsigned(p[2], 10, u32::MAX as nat) {
                Some(n) => n,
                None => 115200,
            }
        } else {
            115200
        },
        transport: "host"@,
        bauds,
    }
}

/// One user UART behind the microcontroller, counted from zero.
pub open spec fn mcu_port(i: int, bauds: Seq<u32>) -> PortModel {
    PortModel {
        dev: None,
        label: "Serial "@ + dec((i + 1) as nat),
        baud: 115200,
        transport: "mcu"@,
        bauds,
    }
}

/// The host ports a key lists.
pub open spec fn host_ports(e: Seq<(Seq<char>, Seq<char>)>, bauds: Seq<u32>) -> Seq<PortModel> {
    match last_value(e, "OHC_SERIALS"@) {
        Some(v) => words(v).map_values(|w: Seq<char>| host_port(w, bauds)),
        None => seq![],
    }
}

/// Host ports first, then the ones behind the microcontroller, so that indices
/// stay stable as boards gain host ports.
pub open spec fn all_ports(e: Seq<(Seq<char>, Seq<char>)>) -> Seq<PortModel> {
    host_ports(e, rates(e, "OHC_SERIAL_BAUDS_HOST"@, host_rates())) + Seq::new(
        count(e, "OHC_IO_UARTS"@, 255),
        |i: int| mcu_port(i, rates(e, "OHC_SERIAL_BAUDS_MCU"@, mcu_rates())),
    )
}

pub open spec fn backend_of(v: Option<Seq<char>>) -> Backend {
    match v {
        Some(s) => if s == "mcu"@ {
            Backend::Mcu
        } else if s == "gpio"@ {
            Backend::Gpio
        } else {
            Backend::Absent
        },
        None => Backend::Absent,
    }
}

/// What a board's env says of its IO.
pub open spec fn io_of(e: Seq<(Seq<char>, Seq<char>)>) -> IoModel {
    IoModel {
        backend: backend_of(last_value(e, "OHC_IO_BACKEND"@)),
        mcu_part: filled(last_value(e, "OHC_IO_MCU_PART"@)),
        mcu_tty: filled(last_value(e, "OHC_IO_MCU_TTY"@)),
        mcu_baud: or_number(e, "OHC_IO_MCU_BAUD"@, u32::MAX as nat, 115200),
        ir_out: count(e, "OHC_IR_OUT"@, 255),
        ir_combo: count(e, "OHC_IR_COMBO"@, 255),
        ir_blaster: count(e, "OHC_IR_BLASTER"@, 255),
        ir_in: count(e, "OHC_IR_IN"@, 255),
        relays: count(e, "OHC_RELAYS"@, 255),
        contacts: count(e, "OHC_CONTACTS"@, 255),
        relay_gpios: number_list(e, "OHC_RELAY_GPIOS"@),
        contact_gpios: number_list(e, "OHC_CONTACT_GPIOS"@),
        serials: all_ports(e),
    }
}

/// The board a `board.env` text describes.
pub open spec fn board_of(text: Seq<char>, host: Option<Seq<char>>) -> IoBoardModel {
    let e = assignments(lines(text));
    IoBoardModel {
        model: or_text(last_value(e, "OHC_MODEL"@), "unknown"@),
        hostname: hostname_of(host),
        io: io_of(e),
    }
}

fn get_number(e: &Env, key: &str, max: u64, default: u64) -> (r: u64)
    requires
        default <= max,
    ensures
        r == or_number(e@, key@, max as nat, default as nat),
        r <= max,
{
    match e.get(key) {
        Some(v) => {
            let chars = to_chars(v.as_str());
            match parse_number(chars.as_slice(), 10, max) {
                Some(n) => n,
                None => default,
            }
        },
        None => default,
    }
}

fn get_count(e: &Env, key: &str) -> (r: u8)
    ensures
        r == count(e@, key@, 255),
{
    get_number(e, key, 255, 0) as u8
}

fn get_filled(e: &Env, key: &str) -> (r: Option<String>)
    ensures
        opt(r) == filled(last_value(e@, key@)),
{
    match e.get(key) {
        Some(v) => {
            if v.as_str().is_empty() {
                None
            } else {
                Some(v)
            }
        },
        None => None,
    }
}

fn get_numbers(e: &Env, key: &str) -> (r: Vec<u32>)
    ensures
        r@ == number_list(e@, key@),
{
    let mut out: Vec<u32> = Vec::new();
    if let Some(v) = e.get(key) {
        let chars = to_chars(v.as_str());
        let ws = words_of(chars.as_slice());
        let ghost all = slices(ws@);
        let mut i: usize = 0;
        while i < ws.len()
            invariant
                i <= ws@.len(),
                all == slices(ws@),
                out@ == numbers(all.take(i as int)),
            decreases ws@.len() - i,
        {
            assert(all.take(i + 1).drop_last() =~= all.take(i as int));
            if let Some(n) = parse_number(ws[i], 10, u32::MAX as u64) {
                out.push(n as u32);
            }
            i += 1;
        }
        assert(all.take(all.len() as int) =~= all);
    }
    out
}

fn usual_host_rates() -> (r: Vec<u32>)
    ensures
        r@ == host_rates(),
{
    let mut v: Vec<u32> = Vec::new();
    v.push(1200);
    v.push(2400);
    v.push(4800);
    v.push(9600);
    v.push(14400);
    v.push(19200);
    v.push(38400);
    v.push(57600);
    v.push(115200);
    assert(v@ =~= host_rates());
    v
}

fn usual_mcu_rates() -> (r: Vec<u32>)
    ensures
        r@ == mcu_rates(),
{
    let mut v: Vec<u32> = Vec::new();
    v.push(1200);
    v.push(2400);
    v.push(4800);
    v.push(9600);
    v.push(19200);
    v.push(38400);
    v.push(57600);
    v.push(115200);
    assert(v@ =~= mcu_rates());
    v
}

fn get_rates(e: &Env, key: &str, usual: Vec<u32>) -> (r: Vec<u32>)
    ensures
        r@ == rates(e@, key@, usual@),
{
    let v = get_numbers(e, key);
    if v.len() == 0 {
        usual
    } else {
        v
    }
}

pub(crate) fn copy_rates(v: &Vec<u32>) -> (r: Vec<u32>)
    ensures
        r@ == v@,
{
    vstd::slice::slice_to_vec(v.as_slice())
}

fn parse_host_port(word: &[char], bauds: &Vec<u32>) -> (r: SerialPort)
    ensures
        r@ == host_port(word@, bauds@),
{
    let p = split_of(word, &Class::One(':'));
    let ghost pm = split(word@, Class::One(':'));
    assert(slices(p@) == pm);
    assert(p@.len() == pm.len());
    let first = from_chars(p[0]);
    assert(first@ == pm[0]);
    let mut dev = String::from_str("/dev/");
    dev.append(first.as_str());
    let label: String = if p.len() > 1 {
        assert(p@[1]@ == pm[1]);
        let spaced = replaced(p[1], '_', ' ');
        from_chars(spaced.as_slice())
    } else {
        String::new()
    };
    let baud: u32 = if p.len() > 2 {
        assert(p@[2]@ == pm[2]);
        match parse_number(p[2], 10, u32::MAX as u64) {
            Some(n) => n as u32,
            None => 115200,
        }
    } else {
        115200
    };
    let r = SerialPort { dev: Some(dev), label, baud, transport: "host", bauds: copy_rates(bauds) };
    assert(r@.label =~= host_port(word@, bauds@).label);
    r
}

fn parse_host_ports(e: &Env, bauds: &Vec<u32>) -> (r: Vec<SerialPort>)
    ensures
        ports(r@) == host_ports(e@, bauds@),
{
    let mut out: Vec<SerialPort> = Vec::new();
    match e.get("OHC_SERIALS") {
        Some(v) => {
            let chars = to_chars(v.as_str());
            let ws = words_of(chars.as_slice());
            let ghost all = slices(ws@);
            let ghost f = |w: Seq<char>| host_port(w, bauds@);
            let mut i: usize = 0;
            assert(ports(out@) =~= all.take(0).map_values(f));
            while i < ws.len()
                invariant
                    i <= ws@.len(),
                    all == slices(ws@),
                    f == (|w: Seq<char>| host_port(w, bauds@)),
                    ports(out@) == all.take(i as int).map_values(f),
                decreases ws@.len() - i,
            {
                let ghost before = out@;
                let port = parse_host_port(ws[i], bauds);
                let ghost model = port@;
                out.push(port);
                assert(ports(out@) =~= ports(before).push(model));
                assert(all.take(i + 1) =~= all.take(i as int).push(ws@[i as int]@));
                assert(ports(out@) =~= all.take(i + 1).map_values(f));
                i += 1;
            }
            assert(all.take(all.len() as int) =~= all);
        },
        None => {
            assert(ports(out@) =~= seq![]);
        },
    }
    out
}

fn parse_ports(e: &Env) -> (r: Vec<SerialPort>)
    ensures
        ports(r@) == all_ports(e@),
{
    let host_bauds = get_rates(e, "OHC_SERIAL_BAUDS_HOST", usual_host_rates());
    let mcu_bauds = get_rates(e, "OHC_SERIAL_BAUDS_MCU", usual_mcu_rates());
    let mut out = parse_host_ports(e, &host_bauds);
    let ghost hosts = ports(out@);
    let uarts: u8 = get_count(e, "OHC_IO_UARTS");
    let mut i: u8 = 0;
    assert(ports(out@) =~= hosts + Seq::new(0, |k: int| mcu_port(k, mcu_bauds@)));
    while i < uarts
        invariant
            i <= uarts,
            ports(out@) == hosts + Seq::new(i as nat, |k: int| mcu_port(k, mcu_bauds@)),
        decreases uarts - i,
    {
        let ghost before = out@;
        let mut label = String::from_str("Serial ");
        label.append(dec_string(i as u64 + 1).as_str());
        let port = SerialPort {
            dev: None,
            label,
            baud: 115200,
            transport: "mcu",
            bauds: copy_rates(&mcu_bauds),
        };
        assert(port@ == mcu_port(i as int, mcu_bauds@));
        out.push(port);
        assert(ports(out@) =~= ports(before).push(mcu_port(i as int, mcu_bauds@)));
        assert(ports(out@) =~= hosts + Seq::new((i + 1) as nat, |k: int| mcu_port(k, mcu_bauds@)));
        i += 1;
    }
    out
}

impl Board {
    /// The board a `board.env` text describes, with the host's name as
    /// `/proc/sys/kernel/hostname` gave it. A file that could not be read is an
    /// empty text: no IO at all.
    pub fn load(env_text: &str, host: Option<&str>) -> (r: Board)
        ensures
            r@ == board_of(env_text@, opt_str(host)),
    {
        let e = Env::parse(env_text);
        let backend: Backend = match e.get("OHC_IO_BACKEND") {
            Some(v) => {
                let chars = to_chars(v.as_str());
                if eq_str(chars.as_slice(), "mcu") {
                    Backend::Mcu
                } else if eq_str(chars.as_slice(), "gpio") {
                    Backend::Gpio
                } else {
                    Backend::Absent
                }
            },
            None => Backend::Absent,
        };
        let io = Io {
            backend,
            mcu_part: get_filled(&e, "OHC_IO_MCU_PART"),
            mcu_tty: get_filled(&e, "OHC_IO_MCU_TTY"),
            mcu_baud: get_number(&e, "OHC_IO_MCU_BAUD", u32::MAX as u64, 115200) as u32,
            ir_out: get_count(&e, "OHC_IR_OUT"),
            ir_combo: get_count(&e, "OHC_IR_COMBO"),
            ir_blaster: get_count(&e, "OHC_IR_BLASTER"),
            ir_in: get_count(&e, "OHC_IR_IN"),
            relays: get_count(&e, "OHC_RELAYS"),
            contacts: get_count(&e, "OHC_CONTACTS"),
            relay_gpios: get_numbers(&e, "OHC_RELAY_GPIOS"),
            contact_gpios: get_numbers(&e, "OHC_CONTACT_GPIOS"),
            serials: parse_ports(&e),
        };
        Board { model: e.get_or("OHC_MODEL", "unknown"), hostname: hostname(host), io }
    }
}

} // verus!
