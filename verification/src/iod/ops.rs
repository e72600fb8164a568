//! The command core: every IO operation, defined exactly once.
//!
//! REST, the control socket and MQTT are thin adapters: each parses its own wire
//! format into a [`Cmd`], has it planned here, carries the plan out and reports
//! the result. Range checks and capability checks live here and nowhere else.
use crate::iod::b64::{decode, decoded};
use crate::iod::board::{ports, Backend, Board, Io, IoBoardModel, IoModel, PortModel, SerialPort};
use crate::iod::events::State;
use crate::iod::fault::{bad, no_such, Fault, FaultModel};
use crate::iod::gpio_io::{bit, contact_line, contact_name, relay_line, relay_name, CHIP_LABEL};
use crate::iod::ir::{parse_pronto, pronto_read, IrTarget};
use crate::iod::led::{leds, show, shown, Led, LedModel};
use crate::iod::lirc::{devs, is_ours, ours, Dev, DevModel};
use crate::json::{list, member, members, object, put, text, values, with, Json, JsonModel, Member};
use crate::num::{dec, dec_signed, dec_signed_string, dec_string, parse_number, parse_unsigned};
use crate::sysmond::sensors::{readings_view, Reading, ReadingModel, Sensors, SensorsModel};
use crate::text::{bytes_of, cat2, cat3, cat5, join, joined, opt, slices, strings, to_chars, utf8, words, words_of};
use vstd::prelude::*;
use vstd::string::*;

verus! {

/// Everything the server can be asked to do.
#[allow(inconsistent_fields)]
#[derive(Debug)]
pub enum Cmd {
    Capabilities,
    McuInfo,
    /// Drive a front-panel LED. No level means full brightness.
    LedSet { name: String, on: Option<bool>, level: Option<u32> },
    LedList,
    /// Pulse the microcontroller's reset line.
    McuReset,
    ContactGet,
    RelayGet,
    RelaySet { index: u8, on: bool },
    RelayToggle { index: u8 },
    IrSend { port: IrTarget, pronto: String, repeat: u8 },
    SerialList,
    /// The whole state mirror.
    StateGet,
    /// Change a port's line rate.
    SerialBaud { index: usize, baud: u32 },
    /// Write to a port without holding a terminal open: text, or hex bytes, or
    /// base64.
    SerialWrite { index: usize, data: String, hex: bool, b64: bool },
}

#[allow(inconsistent_fields)]
pub ghost enum CmdModel {
    Capabilities,
    McuInfo,
    LedSet { name: Seq<char>, on: Option<bool>, level: Option<u32> },
    LedList,
    McuReset,
    ContactGet,
    RelayGet,
    RelaySet { index: nat, on: bool },
    RelayToggle { index: nat },
    IrSend { port: IrTarget, pronto: Seq<char>, repeat: nat },
    SerialList,
    StateGet,
    SerialBaud { index: nat, baud: nat },
    SerialWrite { index: nat, data: Seq<char>, hex: bool, b64: bool },
}

impl View for Cmd {
    type V = CmdModel;

    open spec fn view(&self) -> CmdModel {
        match self {
            Cmd::Capabilities => CmdModel::Capabilities,
            Cmd::McuInfo => CmdModel::McuInfo,
            Cmd::LedSet { name, on, level } => CmdModel::LedSet { name: name@, on: *on, level: *level },
            Cmd::LedList => CmdModel::LedList,
            Cmd::McuReset => CmdModel::McuReset,
            Cmd::ContactGet => CmdModel::ContactGet,
            Cmd::RelayGet => CmdModel::RelayGet,
            Cmd::RelaySet { index, on } => CmdModel::RelaySet { index: *index as nat, on: *on },
            Cmd::RelayToggle { index } => CmdModel::RelayToggle { index: *index as nat },
            Cmd::IrSend { port, pronto, repeat } => CmdModel::IrSend {
                port: *port,
                pronto: pronto@,
                repeat: *repeat as nat,
            },
            Cmd::SerialList => CmdModel::SerialList,
            Cmd::StateGet => CmdModel::StateGet,
            Cmd::SerialBaud { index, baud } => CmdModel::SerialBaud { index: *index as nat, baud: *baud as nat },
            Cmd::SerialWrite { index, data, hex, b64 } => CmdModel::SerialWrite {
                index: *index as nat,
                data: data@,
                hex: *hex,
                b64: *b64,
            },
        }
    }
}

/// What carrying a command out comes to, once every check has passed.
#[allow(inconsistent_fields)]
#[derive(Debug)]
pub enum Task {
    Capabilities,
    McuInfo,
    /// No level means full.
    DriveLed { name: String, level: Option<u32> },
    ListLeds,
    ResetMcu,
    ReadContacts { count: u8 },
    ReadRelays { count: u8 },
    /// Drive a relay to a state, or toggle it.
    DriveRelay { index: u8, on: Option<bool> },
    Transmit { target: IrTarget, carrier_hz: u32, durations: Vec<u32> },
    ListSerial,
    State,
    SetBaud { index: usize, dev: String, baud: u32 },
    WriteSerial { index: usize, dev: String, bytes: Vec<u8> },
}

pub ghost enum TaskModel {
    Capabilities,
    McuInfo,
    DriveLed { name: Seq<char>, level: Option<u32> },
    ListLeds,
    ResetMcu,
    ReadContacts { count: nat },
    ReadRelays { count: nat },
    DriveRelay { index: nat, on: Option<bool> },
    Transmit { target: IrTarget, carrier_hz: nat, durations: Seq<nat> },
    ListSerial,
    State,
    SetBaud { index: nat, dev: Seq<char>, baud: nat },
    WriteSerial { index: nat, dev: Seq<char>, bytes: Seq<u8> },
}

impl View for Task {
    type V = TaskModel;

    open spec fn view(&self) -> TaskModel {
        match self {
            Task::Capabilities => TaskModel::Capabilities,
            Task::McuInfo => TaskModel::McuInfo,
            Task::DriveLed { name, level } => TaskModel::DriveLed { name: name@, level: *level },
            Task::ListLeds => TaskModel::ListLeds,
            Task::ResetMcu => TaskModel::ResetMcu,
            Task::ReadContacts { count } => TaskModel::ReadContacts { count: *count as nat },
            Task::ReadRelays { count } => TaskModel::ReadRelays { count: *count as nat },
            Task::DriveRelay { index, on } => TaskModel::DriveRelay { index: *index as nat, on: *on },
            Task::Transmit { target, carrier_hz, durations } => TaskModel::Transmit {
                target: *target,
                carrier_hz: *carrier_hz as nat,
                durations: naturals(durations@),
            },
            Task::ListSerial => TaskModel::ListSerial,
            Task::State => TaskModel::State,
            Task::SetBaud { index, dev, baud } => TaskModel::SetBaud {
                index: *index as nat,
                dev: dev@,
                baud: *baud as nat,
            },
            Task::WriteSerial { index, dev, bytes } => TaskModel::WriteSerial {
                index: *index as nat,
                dev: dev@,
                bytes: bytes@,
            },
        }
    }
}

pub open spec fn naturals(v: Seq<u32>) -> Seq<nat> {
    v.map_values(|n: u32| n as nat)
}

// -------------------------------------------------------------------------- checks

pub open spec fn ready(backend: Backend, linked: bool) -> Result<(), FaultModel> {
    if linked {
        Ok(())
    } else {
        Err(
            match backend {
                Backend::Absent => FaultModel::NoSuch("no IO on this board"@),
                Backend::Mcu => FaultModel::NoChip(
                    "the "@ + CHIP_LABEL@
                        + " line discipline is not attached, or the microcontroller did not answer it (S12iomcu)"@,
                ),
                Backend::Gpio => FaultModel::NoChip(
                    "this board names them in its device tree — check gpio-line-names, and that the pin-mux ran"@,
                ),
            },
        )
    }
}

/// Can this board's relays and contacts actually be reached? Where the lines
/// come from differs per board, and only the diagnosis depends on it.
pub fn io_ready(backend: Backend, linked: bool) -> (r: Result<(), Fault>)
    ensures
        match ready(backend, linked) {
            Ok(_) => r is Ok,
            Err(f) => r is Err && r->Err_0@ == f,
        },
{
    if linked {
        return Ok(());
    }
    Err(
        match backend {
            Backend::Absent => no_such("no IO on this board"),
            Backend::Mcu => Fault::NoChip(
                cat3(
                    "the ",
                    CHIP_LABEL,
                    " line discipline is not attached, or the microcontroller did not answer it (S12iomcu)",
                ),
            ),
            Backend::Gpio => Fault::NoChip(
                String::from_str(
                    "this board names them in its device tree — check gpio-line-names, and that the pin-mux ran",
                ),
            ),
        },
    )
}

pub open spec fn led_level(on: Option<bool>, level: Option<u32>) -> Result<Option<u32>, FaultModel> {
    match (on, level) {
        (_, Some(l)) => Ok(Some(l)),
        (Some(true), None) => Ok(None),
        (Some(false), None) => Ok(Some(0)),
        (None, None) => Err(FaultModel::Bad("led.set needs `on` or `level`"@)),
    }
}

fn led_want(on: Option<bool>, level: Option<u32>) -> (r: Result<Option<u32>, Fault>)
    ensures
        match led_level(on, level) {
            Ok(l) => r is Ok && r->Ok_0 == l,
            Err(f) => r is Err && r->Err_0@ == f,
        },
{
    match (on, level) {
        (_, Some(l)) => Ok(Some(l)),
        (Some(true), None) => Ok(None),
        (Some(false), None) => Ok(Some(0)),
        (None, None) => Err(bad("led.set needs `on` or `level`")),
    }
}

pub open spec fn relay_checked(io: IoModel, linked: bool, index: nat) -> Result<(), FaultModel> {
    if io.relays == 0 {
        Err(FaultModel::NoSuch("this board has no relays"@))
    } else if index >= io.relays {
        Err(
            FaultModel::Bad(
                "relay "@ + dec(index) + " does not exist (0.."@ + dec((io.relays - 1) as nat) + ")"@,
            ),
        )
    } else {
        ready(io.backend, linked)
    }
}

fn check_relay(io: &Io, linked: bool, index: u8) -> (r: Result<(), Fault>)
    ensures
        match relay_checked(io@, linked, index as nat) {
            Ok(_) => r is Ok,
            Err(f) => r is Err && r->Err_0@ == f,
        },
{
    if io.relays == 0 {
        return Err(no_such("this board has no relays"));
    }
    if index >= io.relays {
        return Err(
            Fault::Bad(
                cat5(
                    "relay ",
                    dec_string(index as u64).as_str(),
                    " does not exist (0..",
                    dec_string(io.relays as u64 - 1).as_str(),
                    ")",
                ),
            ),
        );
    }
    io_ready(io.backend, linked)
}

/// A code and a target that the board can be asked for. The target is checked
/// before the code, so that a bad jack number is named as such.
pub open spec fn ir_checked(io: IoModel, target: IrTarget, pronto: Seq<char>) -> Result<
    (nat, Seq<nat>),
    FaultModel,
> {
    if io.ir_out + io.ir_blaster == 0 {
        Err(FaultModel::NoSuch("this board has no IR outputs"@))
    } else {
        match target.index_spec(io.ir_out, io.ir_blaster) {
            Err(f) => Err(f),
            Ok(_) => pronto_read(pronto),
        }
    }
}

/// The device behind a serial port, or why there is none.
pub open spec fn port_device(io: IoModel, index: nat) -> Result<Seq<char>, FaultModel> {
    if index >= io.serials.len() {
        Err(FaultModel::NoSuch("no serial port "@ + dec(index)))
    } else {
        let p = io.serials[index as int];
        match p.dev {
            Some(d) => Ok(d),
            None => Err(
                FaultModel::Todo(
                    "port "@ + dec(index) + " is "@ + p.transport
                        + "-routed; that bridge is not implemented yet"@,
                ),
            ),
        }
    }
}

pub fn serial_device(io: &Io, index: usize) -> (r: Result<String, Fault>)
    ensures
        match port_device(io@, index as nat) {
            Ok(d) => r is Ok && r->Ok_0@ == d,
            Err(f) => r is Err && r->Err_0@ == f,
        },
{
    if index >= io.serials.len() {
        return Err(Fault::NoSuch(cat2("no serial port ", dec_string(index as u64).as_str())));
    }
    let p = &io.serials[index];
    assert(io@.serials[index as int] == p@);
    match &p.dev {
        Some(d) => Ok(d.clone()),
        None => Err(
            Fault::Todo(
                cat5(
                    "port ",
                    dec_string(index as u64).as_str(),
                    " is ",
                    p.transport,
                    "-routed; that bridge is not implemented yet",
                ),
            ),
        ),
    }
}

pub open spec fn rate_names(v: Seq<u32>) -> Seq<Seq<char>> {
    v.map_values(|n: u32| dec(n as nat))
}

/// A rate a port can be asked for. Checked against the port's own list: a rate a
/// host UART reaches may be one the microcontroller cannot.
pub open spec fn rate_checked(io: IoModel, index: nat, baud: nat) -> Result<Seq<char>, FaultModel> {
    if index >= io.serials.len() {
        Err(FaultModel::NoSuch("no serial port "@ + dec(index)))
    } else {
        let p = io.serials[index as int];
        if !p.bauds.contains(baud as u32) {
            Err(
                FaultModel::Bad(
                    dec(baud) + " is not available on "@ + p.label + " ("@ + p.transport
                        + " transport); supported: "@ + joined(rate_names(p.bauds), ", "@),
                ),
            )
        } else {
            port_device(io, index)
        }
    }
}

fn names_of(v: &Vec<u32>) -> (r: Vec<String>)
    ensures
        strings(r@) == rate_names(v@),
{
    let mut out: Vec<String> = Vec::new();
    let mut i: usize = 0;
    while i < v.len()
        invariant
            i <= v@.len(),
            strings(out@) == rate_names(v@).take(i as int),
        decreases v@.len() - i,
    {
        let ghost was = strings(out@);
        let s = dec_string(v[i] as u64);
        out.push(s);
        assert(strings(out@) =~= was.push(s@));
        assert(rate_names(v@).take(i + 1) =~= rate_names(v@).take(i as int).push(s@));
        i += 1;
    }
    assert(rate_names(v@).take(v@.len() as int) =~= rate_names(v@));
    out
}

fn holds(v: &Vec<u32>, n: u32) -> (r: bool)
    ensures
        r == v@.contains(n),
{
    let mut i: usize = 0;
    while i < v.len()
        invariant
            i <= v@.len(),
            forall|k: int| 0 <= k < i ==> v@[k] != n,
        decreases v@.len() - i,
    {
        if v[i] == n {
            return true;
        }
        i += 1;
    }
    false
}

fn check_rate(io: &Io, index: usize, baud: u32) -> (r: Result<String, Fault>)
    ensures
        match rate_checked(io@, index as nat, baud as nat) {
            Ok(d) => r is Ok && r->Ok_0@ == d,
            Err(f) => r is Err && r->Err_0@ == f,
        },
{
    if index >= io.serials.len() {
        return Err(Fault::NoSuch(cat2("no serial port ", dec_string(index as u64).as_str())));
    }
    let p = &io.serials[index];
    assert(io@.serials[index as int] == p@);
    if !holds(&p.bauds, baud) {
        let head = cat5(
            dec_string(baud as u64).as_str(),
            " is not available on ",
            p.label.as_str(),
            " (",
            p.transport,
        );
        let names = names_of(&p.bauds);
        return Err(
            Fault::Bad(
                cat3(head.as_str(), " transport); supported: ", join(names.as_slice(), ", ").as_str()),
            ),
        );
    }
    serial_device(io, index)
}

/// Space-separated hexadecimal bytes, all of them or nothing.
pub open spec fn hex_bytes(ws: Seq<Seq<char>>) -> Option<Seq<u8>>
    decreases ws.len(),
{
    if ws.len() == 0 {
        Some(seq![])
    } else {
        match (hex_bytes(ws.drop_last()), parse_unsigned(ws.last(), 16, 0xff)) {
            (Some(v), Some(n)) => Some(v.push(n as u8)),
            _ => None,
        }
    }
}

proof fn lemma_bad_byte(ws: Seq<Seq<char>>, i: int)
    requires
        0 < i <= ws.len(),
        hex_bytes(ws.take(i)) is None,
    ensures
        hex_bytes(ws) is None,
    decreases ws.len() - i,
{
    if i < ws.len() {
        assert(ws.take(i + 1).drop_last() =~= ws.take(i));
        lemma_bad_byte(ws, i + 1);
    } else {
        assert(ws.take(i) =~= ws);
    }
}

fn parse_hex_bytes(data: &str) -> (r: Option<Vec<u8>>)
    ensures
        match r {
            Some(v) => hex_bytes(words(data@)) == Some(v@),
            None => hex_bytes(words(data@)) is None,
        },
{
    let chars = to_chars(data);
    let ws = words_of(chars.as_slice());
    let ghost all = slices(ws@);
    let mut out: Vec<u8> = Vec::new();
    let mut i: usize = 0;
    assert(hex_bytes(all.take(0)) == Some(out@));
    while i < ws.len()
        invariant
            i <= ws@.len(),
            all == slices(ws@),
            all == words(data@),
            hex_bytes(all.take(i as int)) == Some(out@),
        decreases ws@.len() - i,
    {
        assert(all.take(i + 1).drop_last() =~= all.take(i as int));
        assert(all.take(i + 1).last() == ws@[i as int]@);
        match parse_number(ws[i], 16, 0xff) {
            Some(n) => {
                out.push(n as u8);
            },
            None => {
                proof {
                    lemma_bad_byte(all, i + 1);
                }
                return None;
            },
        }
        i += 1;
    }
    assert(all.take(all.len() as int) =~= all);
    Some(out)
}

/// The bytes a write asks for.
pub open spec fn bytes_asked(data: Seq<char>, hex: bool, b64: bool) -> Result<Seq<u8>, FaultModel> {
    if hex {
        match hex_bytes(words(data)) {
            Some(v) => Ok(v),
            None => Err(FaultModel::Bad("hex must be space-separated byte values"@)),
        }
    } else if b64 {
        match decoded(data) {
            Some(v) => Ok(v),
            None => Err(FaultModel::Bad("data is not valid base64"@)),
        }
    } else {
        Ok(utf8(data))
    }
}

pub fn serial_bytes(data: &str, hex: bool, b64: bool) -> (r: Result<Vec<u8>, Fault>)
    ensures
        match bytes_asked(data@, hex, b64) {
            Ok(v) => r is Ok && r->Ok_0@ == v,
            Err(f) => r is Err && r->Err_0@ == f,
        },
{
    if hex {
        match parse_hex_bytes(data) {
            Some(v) => Ok(v),
            None => Err(bad("hex must be space-separated byte values")),
        }
    } else if b64 {
        match decode(data) {
            Some(v) => Ok(v),
            None => Err(bad("data is not valid base64")),
        }
    } else {
        Ok(bytes_of(data))
    }
}

// ------------------------------------------------------------------------ dispatch

/// What a command comes to on a board.
pub open spec fn task_of(io: IoModel, linked: bool, cmd: CmdModel) -> Result<TaskModel, FaultModel> {
    match cmd {
        CmdModel::Capabilities => Ok(TaskModel::Capabilities),
        CmdModel::McuInfo => Ok(TaskModel::McuInfo),
        CmdModel::McuReset => Ok(TaskModel::ResetMcu),
        CmdModel::LedList => Ok(TaskModel::ListLeds),
        CmdModel::LedSet { name, on, level } => match led_level(on, level) {
            Ok(l) => Ok(TaskModel::DriveLed { name, level: l }),
            Err(f) => Err(f),
        },
        CmdModel::ContactGet => if io.contacts == 0 {
            Err(FaultModel::NoSuch("this board has no contacts"@))
        } else {
            match ready(io.backend, linked) {
                Ok(_) => Ok(TaskModel::ReadContacts { count: io.contacts }),
                Err(f) => Err(f),
            }
        },
        CmdModel::RelayGet => if io.relays == 0 {
            Err(FaultModel::NoSuch("this board has no relays"@))
        } else {
            match ready(io.backend, linked) {
                Ok(_) => Ok(TaskModel::ReadRelays { count: io.relays }),
                Err(f) => Err(f),
            }
        },
        CmdModel::RelaySet { index, on } => match relay_checked(io, linked, index) {
            Ok(_) => Ok(TaskModel::DriveRelay { index, on: Some(on) }),
            Err(f) => Err(f),
        },
        CmdModel::RelayToggle { index } => match relay_checked(io, linked, index) {
            Ok(_) => Ok(TaskModel::DriveRelay { index, on: None }),
            Err(f) => Err(f),
        },
        CmdModel::IrSend { port, pronto, repeat } => match ir_checked(io, port, pronto) {
            Ok((hz, us)) => Ok(TaskModel::Transmit { target: port, carrier_hz: hz, durations: us }),
            Err(f) => Err(f),
        },
        CmdModel::SerialList => Ok(TaskModel::ListSerial),
        CmdModel::StateGet => Ok(TaskModel::State),
        CmdModel::SerialBaud { index, baud } => match rate_checked(io, index, baud) {
            Ok(dev) => Ok(TaskModel::SetBaud { index, dev, baud }),
            Err(f) => Err(f),
        },
        CmdModel::SerialWrite { index, data, hex, b64 } => match bytes_asked(data, hex, b64) {
            Err(f) => Err(f),
            Ok(bytes) => match port_device(io, index) {
                Ok(dev) => Ok(TaskModel::WriteSerial { index, dev, bytes }),
                Err(f) => Err(f),
            },
        },
    }
}

/// Check a command against the board and say what carrying it out comes to.
pub fn dispatch(io: &Io, linked: bool, cmd: Cmd) -> (r: Result<Task, Fault>)
    ensures
        match task_of(io@, linked, cmd@) {
            Ok(t) => r is Ok && r->Ok_0@ == t,
            Err(f) => r is Err && r->Err_0@ == f,
        },
{
    match cmd {
        Cmd::Capabilities => Ok(Task::Capabilities),
        Cmd::McuInfo => Ok(Task::McuInfo),
        Cmd::McuReset => Ok(Task::ResetMcu),
        Cmd::LedList => Ok(Task::ListLeds),
        Cmd::LedSet { name, on, level } => match led_want(on, level) {
            Ok(l) => Ok(Task::DriveLed { name, level: l }),
            Err(f) => Err(f),
        },
        Cmd::ContactGet => {
            if io.contacts == 0 {
                return Err(no_such("this board has no contacts"));
            }
            match io_ready(io.backend, linked) {
                Ok(_) => Ok(Task::ReadContacts { count: io.contacts }),
                Err(f) => Err(f),
            }
        },
        Cmd::RelayGet => {
            if io.relays == 0 {
                return Err(no_such("this board has no relays"));
            }
            match io_ready(io.backend, linked) {
                Ok(_) => Ok(Task::ReadRelays { count: io.relays }),
                Err(f) => Err(f),
            }
        },
        Cmd::RelaySet { index, on } => match check_relay(io, linked, index) {
            Ok(_) => Ok(Task::DriveRelay { index, on: Some(on) }),
            Err(f) => Err(f),
        },
        Cmd::RelayToggle { index } => match check_relay(io, linked, index) {
            Ok(_) => Ok(Task::DriveRelay { index, on: None }),
            Err(f) => Err(f),
        },
        Cmd::IrSend { port, pronto, repeat } => {
            if io.ir_out == 0 && io.ir_blaster == 0 {
                return Err(no_such("this board has no IR outputs"));
            }
            match port.index(io) {
                Ok(_) => {},
                Err(f) => {
                    return Err(f);
                },
            }
            match parse_pronto(pronto.as_str()) {
                Ok((hz, us)) => {
                    assert(naturals(us@) =~= pronto_read(pronto@)->Ok_0.1);
                    Ok(Task::Transmit { target: port, carrier_hz: hz, durations: us })
                },
                Err(f) => Err(f),
            }
        },
        Cmd::SerialList => Ok(Task::ListSerial),
        Cmd::StateGet => Ok(Task::State),
        Cmd::SerialBaud { index, baud } => match check_rate(io, index, baud) {
            Ok(dev) => Ok(Task::SetBaud { index, dev, baud }),
            Err(f) => Err(f),
        },
        Cmd::SerialWrite { index, data, hex, b64 } => {
            let bytes = match serial_bytes(data.as_str(), hex, b64) {
                Ok(b) => b,
                Err(f) => {
                    return Err(f);
                },
            };
            match serial_device(io, index) {
                Ok(dev) => Ok(Task::WriteSerial { index, dev, bytes }),
                Err(f) => Err(f),
            }
        },
    }
}

/// A relay is only ever driven where the board has it and its lines answer.
pub proof fn law_only_existing_relays_are_driven(io: IoModel, linked: bool, cmd: CmdModel, index: nat, on: Option<bool>)
    requires
        task_of(io, linked, cmd) == Ok::<TaskModel, FaultModel>(TaskModel::DriveRelay { index, on }),
    ensures
        index < io.relays,
        linked,
{
}

/// A port only ever runs at a rate of its own list.
pub proof fn law_ports_keep_to_their_rates(
    io: IoModel,
    linked: bool,
    cmd: CmdModel,
    index: nat,
    dev: Seq<char>,
    baud: nat,
)
    requires
        task_of(io, linked, cmd) == Ok::<TaskModel, FaultModel>(TaskModel::SetBaud { index, dev, baud }),
    ensures
        index < io.serials.len(),
        io.serials[index as int].bauds.contains(baud as u32),
{
}

// ------------------------------------------------------------------------- results

pub open spec fn nothing() -> Seq<(Seq<char>, JsonModel)> {
    seq![]
}

pub open spec fn number(n: nat) -> JsonModel {
    JsonModel::Number(n)
}

pub open spec fn bools(v: Seq<bool>) -> JsonModel {
    JsonModel::List(v.map_values(|b: bool| JsonModel::Bool(b)))
}

fn bool_list(v: &Vec<bool>) -> (r: Json)
    ensures
        r@ == bools(v@),
{
    let mut out: Vec<Json> = Vec::new();
    let mut i: usize = 0;
    let ghost want = v@.map_values(|b: bool| JsonModel::Bool(b));
    while i < v.len()
        invariant
            i <= v@.len(),
            want == v@.map_values(|b: bool| JsonModel::Bool(b)),
            values(out@) == want.take(i as int),
        decreases v@.len() - i,
    {
        let ghost was = values(out@);
        let j = Json::Bool(v[i]);
        out.push(j);
        assert(values(out@) =~= was.push(j@));
        assert(want.take(i + 1) =~= want.take(i as int).push(want[i as int]));
        i += 1;
    }
    assert(want.take(v@.len() as int) =~= want);
    list(out)
}

pub(crate) fn fresh() -> (r: Vec<Member>)
    ensures
        members(r@) == nothing(),
{
    let o: Vec<Member> = Vec::new();
    assert(members(o@) =~= seq![]);
    o
}

/// The answer to a contact read.
pub open spec fn contacts_doc(mask: u32, closed: Seq<bool>) -> JsonModel {
    let o = with(nothing(), "mask"@, number(mask as nat));
    let o = with(o, "closed"@, bools(closed));
    JsonModel::Object(with(o, "via"@, JsonModel::Text("gpio"@)))
}

pub fn contacts_read(mask: u32, count: u8) -> (r: Json)
    requires
        count <= 32,
    ensures
        r@ == contacts_doc(mask, Seq::new(count as nat, |i: int| bit(mask, i))),
{
    let closed = crate::iod::gpio_io::closed(mask, count);
    assert(closed@ =~= Seq::new(count as nat, |i: int| bit(mask, i)));
    let mut o = fresh();
    put(&mut o, "mask", Json::Number(mask as u64));
    put(&mut o, "closed", bool_list(&closed));
    put(&mut o, "via", text("gpio"));
    object(o)
}

pub open spec fn relays_doc(on: Seq<bool>) -> JsonModel {
    let o = with(nothing(), "count"@, number(on.len()));
    let o = with(o, "on"@, bools(on));
    JsonModel::Object(with(o, "via"@, JsonModel::Text("gpio"@)))
}

/// The answer to a relay read.
pub fn relays_read(on: &Vec<bool>) -> (r: Json)
    ensures
        r@ == relays_doc(on@),
{
    let mut o = fresh();
    put(&mut o, "count", Json::Number(on.len() as u64));
    put(&mut o, "on", bool_list(on));
    put(&mut o, "via", text("gpio"));
    object(o)
}

/// The path of a relay in the state mirror, by the number on the panel.
pub fn relay_path(index: u8) -> (r: String)
    ensures
        r@ == "relay/"@ + dec(index as nat + 1),
{
    cat2("relay/", dec_string(index as u64 + 1).as_str())
}

pub open spec fn relay_doc(index: nat, on: bool) -> JsonModel {
    JsonModel::Object(with(with(nothing(), "index"@, number(index)), "on"@, JsonModel::Bool(on)))
}

/// The answer to a relay write: where the relay is now.
pub fn relay_written(index: u8, on: bool) -> (r: Json)
    ensures
        r@ == relay_doc(index as nat, on),
{
    let mut o = fresh();
    put(&mut o, "index", Json::Number(index as u64));
    put(&mut o, "on", Json::Bool(on));
    object(o)
}

pub open spec fn led_doc(name: Seq<char>, brightness: nat) -> JsonModel {
    JsonModel::Object(with(with(nothing(), "name"@, JsonModel::Text(name)), "brightness"@, number(brightness)))
}

/// The answer to an LED write: how bright it is now.
pub fn led_written(name: &str, brightness: u32) -> (r: Json)
    ensures
        r@ == led_doc(name@, brightness as nat),
{
    let mut o = fresh();
    put(&mut o, "name", text(name));
    put(&mut o, "brightness", Json::Number(brightness as u64));
    object(o)
}

pub open spec fn sent_doc(target: IrTarget, dev: DevModel, carrier_hz: nat, durations: nat) -> JsonModel {
    let o = with(nothing(), "target"@, JsonModel::Text(target.label_spec()));
    let o = with(o, "device"@, JsonModel::Text(dev.path));
    let o = with(o, "name"@, JsonModel::Text(dev.name));
    let o = with(o, "carrier_hz"@, number(carrier_hz));
    JsonModel::Object(with(o, "durations"@, number(durations)))
}

/// The answer to a code that was sent.
pub fn ir_sent(target: IrTarget, dev: &Dev, carrier_hz: u32, durations: usize) -> (r: Json)
    ensures
        r@ == sent_doc(target, dev@, carrier_hz as nat, durations as nat),
{
    let mut o = fresh();
    put(&mut o, "target", Json::Text(target.label()));
    put(&mut o, "device", text(dev.path.as_str()));
    put(&mut o, "name", text(dev.name.as_str()));
    put(&mut o, "carrier_hz", Json::Number(carrier_hz as u64));
    put(&mut o, "durations", Json::Number(durations as u64));
    object(o)
}

pub open spec fn counted_doc(index: nat, key: Seq<char>, n: nat) -> JsonModel {
    JsonModel::Object(with(with(nothing(), "index"@, number(index)), key, number(n)))
}

/// The answer to a rate change.
pub fn baud_set(index: usize, baud: u32) -> (r: Json)
    ensures
        r@ == counted_doc(index as nat, "baud"@, baud as nat),
{
    let mut o = fresh();
    put(&mut o, "index", Json::Number(index as u64));
    put(&mut o, "baud", Json::Number(baud as u64));
    object(o)
}

/// The answer to a serial write.
pub fn bytes_written(index: usize, n: usize) -> (r: Json)
    ensures
        r@ == counted_doc(index as nat, "wrote"@, n as nat),
{
    let mut o = fresh();
    put(&mut o, "index", Json::Number(index as u64));
    put(&mut o, "wrote", Json::Number(n as u64));
    object(o)
}

pub open spec fn text_or_nil(o: Option<Seq<char>>) -> JsonModel {
    match o {
        Some(s) => JsonModel::Text(s),
        None => JsonModel::Nil,
    }
}

fn opt_text(o: &Option<String>) -> (r: Json)
    ensures
        r@ == text_or_nil(opt(*o)),
{
    match o {
        Some(s) => text(s.as_str()),
        None => Json::Nil,
    }
}

pub open spec fn mcu_doc(io: IoModel, linked: bool) -> JsonModel {
    let o = with(nothing(), "via"@, JsonModel::Text("gpio"@));
    let o = with(o, "chip"@, JsonModel::Text(CHIP_LABEL@));
    let o = with(o, "present"@, JsonModel::Bool(linked));
    let o = with(o, "part"@, text_or_nil(io.mcu_part));
    let o = with(o, "tty"@, text_or_nil(io.mcu_tty));
    let o = with(o, "baud"@, number(io.mcu_baud));
    JsonModel::Object(
        with(
            o,
            "note"@,
            JsonModel::Text("the kernel driver owns the link; identify is not reachable from here"@),
        ),
    )
}

/// What is carrying this board's IO: the chip, and what the board declares.
pub fn mcu_info(io: &Io, linked: bool) -> (r: Json)
    ensures
        r@ == mcu_doc(io@, linked),
{
    let mut o = fresh();
    put(&mut o, "via", text("gpio"));
    put(&mut o, "chip", text(CHIP_LABEL));
    put(&mut o, "present", Json::Bool(linked));
    put(&mut o, "part", opt_text(&io.mcu_part));
    put(&mut o, "tty", opt_text(&io.mcu_tty));
    put(&mut o, "baud", Json::Number(io.mcu_baud as u64));
    put(&mut o, "note", text("the kernel driver owns the link; identify is not reachable from here"));
    object(o)
}

// ---------------------------------------------------------------------- capabilities

pub open spec fn backend_text(b: Backend) -> Seq<char> {
    match b {
        Backend::Mcu => "mcu"@,
        Backend::Gpio => "gpio"@,
        Backend::Absent => "none"@,
    }
}

pub open spec fn rates_doc(v: Seq<u32>) -> JsonModel {
    JsonModel::List(v.map_values(|n: u32| JsonModel::Number(n as nat)))
}

fn rate_list(v: &Vec<u32>) -> (r: Json)
    ensures
        r@ == rates_doc(v@),
{
    let mut out: Vec<Json> = Vec::new();
    let mut i: usize = 0;
    let ghost want = v@.map_values(|n: u32| JsonModel::Number(n as nat));
    while i < v.len()
        invariant
            i <= v@.len(),
            want == v@.map_values(|n: u32| JsonModel::Number(n as nat)),
            values(out@) == want.take(i as int),
        decreases v@.len() - i,
    {
        let ghost was = values(out@);
        let j = Json::Number(v[i] as u64);
        out.push(j);
        assert(values(out@) =~= was.push(j@));
        assert(want.take(i + 1) =~= want.take(i as int).push(want[i as int]));
        i += 1;
    }
    assert(want.take(v@.len() as int) =~= want);
    list(out)
}

pub open spec fn port_doc(p: PortModel) -> JsonModel {
    let o = with(nothing(), "dev"@, text_or_nil(p.dev));
    let o = with(o, "label"@, JsonModel::Text(p.label));
    let o = with(o, "baud"@, number(p.baud));
    let o = with(o, "transport"@, JsonModel::Text(p.transport));
    JsonModel::Object(with(o, "bauds"@, rates_doc(p.bauds)))
}

fn show_port(p: &SerialPort) -> (r: Json)
    ensures
        r@ == port_doc(p@),
{
    let mut o = fresh();
    put(&mut o, "dev", opt_text(&p.dev));
    put(&mut o, "label", text(p.label.as_str()));
    put(&mut o, "baud", Json::Number(p.baud as u64));
    put(&mut o, "transport", text(p.transport));
    put(&mut o, "bauds", rate_list(&p.bauds));
    object(o)
}

pub open spec fn ports_doc(v: Seq<PortModel>) -> JsonModel {
    JsonModel::List(v.map_values(|p: PortModel| port_doc(p)))
}

/// The serial ports a board has.
pub fn serial_list(io: &Io) -> (r: Json)
    ensures
        r@ == ports_doc(io@.serials),
{
    let mut out: Vec<Json> = Vec::new();
    let mut i: usize = 0;
    let ghost want = io@.serials.map_values(|p: PortModel| port_doc(p));
    while i < io.serials.len()
        invariant
            i <= io.serials@.len(),
            want == ports(io.serials@).map_values(|p: PortModel| port_doc(p)),
            values(out@) == want.take(i as int),
        decreases io.serials@.len() - i,
    {
        let ghost was = values(out@);
        let j = show_port(&io.serials[i]);
        out.push(j);
        assert(values(out@) =~= was.push(j@));
        assert(want.take(i + 1) =~= want.take(i as int).push(want[i as int]));
        i += 1;
    }
    assert(want.take(io.serials@.len() as int) =~= want);
    list(out)
}

pub open spec fn leds_doc(v: Seq<LedModel>) -> JsonModel {
    JsonModel::List(v.map_values(|l: LedModel| shown(l)))
}

/// The LEDs a board exposes.
pub fn led_list(v: &Vec<Led>) -> (r: Json)
    ensures
        r@ == leds_doc(leds(v@)),
{
    let mut out: Vec<Json> = Vec::new();
    let mut i: usize = 0;
    let ghost want = leds(v@).map_values(|l: LedModel| shown(l));
    while i < v.len()
        invariant
            i <= v@.len(),
            want == leds(v@).map_values(|l: LedModel| shown(l)),
            values(out@) == want.take(i as int),
        decreases v@.len() - i,
    {
        let ghost was = values(out@);
        let j = show(&v[i]);
        out.push(j);
        assert(values(out@) =~= was.push(j@));
        assert(want.take(i + 1) =~= want.take(i as int).push(want[i as int]));
        i += 1;
    }
    assert(want.take(v@.len() as int) =~= want);
    list(out)
}

pub open spec fn dev_doc(d: DevModel) -> JsonModel {
    let o = with(nothing(), "name"@, JsonModel::Text(d.name));
    let o = with(o, "device"@, JsonModel::Text(d.path));
    JsonModel::Object(with(o, "node"@, JsonModel::Text(d.path)))
}

/// The nodes of this board's driver, in their order.
pub open spec fn our_devs(v: Seq<DevModel>) -> Seq<JsonModel>
    decreases v.len(),
{
    if v.len() == 0 {
        seq![]
    } else if ours(v.last()) {
        our_devs(v.drop_last()).push(dev_doc(v.last()))
    } else {
        our_devs(v.drop_last())
    }
}

fn our_dev_list(v: &Vec<Dev>) -> (r: Json)
    ensures
        r@ == JsonModel::List(our_devs(devs(v@))),
{
    let mut out: Vec<Json> = Vec::new();
    let mut i: usize = 0;
    let ghost all = devs(v@);
    assert(values(out@) =~= our_devs(all.take(0)));
    while i < v.len()
        invariant
            i <= v@.len(),
            all == devs(v@),
            values(out@) == our_devs(all.take(i as int)),
        decreases v@.len() - i,
    {
        assert(all.take(i + 1).drop_last() =~= all.take(i as int));
        assert(all.take(i + 1).last() == v@[i as int]@);
        if is_ours(&v[i]) {
            let ghost was = values(out@);
            let mut o = fresh();
            put(&mut o, "name", text(v[i].name.as_str()));
            put(&mut o, "device", text(v[i].path.as_str()));
            put(&mut o, "node", text(v[i].path.as_str()));
            let j = object(o);
            out.push(j);
            assert(values(out@) =~= was.push(j@));
        }
        i += 1;
    }
    assert(all.take(all.len() as int) =~= all);
    list(out)
}

pub open spec fn front_doc(io: IoModel) -> JsonModel {
    let t = with(nothing(), "send"@, JsonModel::Text("ir/front/send"@));
    let t = with(t, "rx"@, JsonModel::Text("ir/front/rx"@));
    let o = with(nothing(), "send"@, JsonModel::Bool(io.ir_blaster > 0));
    let o = with(o, "receive"@, JsonModel::Bool(io.ir_in > 0));
    JsonModel::Object(with(o, "topics"@, JsonModel::Object(t)))
}

pub open spec fn ir_doc(io: IoModel, ir_lirc: bool, devices: Seq<DevModel>) -> JsonModel {
    let o = with(nothing(), "out"@, number(io.ir_out));
    let o = with(o, "blaster"@, number(io.ir_blaster));
    let o = with(o, "total"@, number(io.ir_out + io.ir_blaster));
    let o = with(o, "combo"@, number(io.ir_combo));
    let o = with(o, "receiver"@, number(io.ir_in));
    let o = with(o, "front"@, front_doc(io));
    let o = with(
        o,
        "via"@,
        JsonModel::Text(
            if ir_lirc {
                "lirc"@
            } else {
                "none"@
            },
        ),
    );
    JsonModel::Object(with(o, "devices"@, JsonModel::List(our_devs(devices))))
}

fn show_ir(io: &Io, ir_lirc: bool, devices: &Vec<Dev>) -> (r: Json)
    ensures
        r@ == ir_doc(io@, ir_lirc, devs(devices@)),
{
    let mut t = fresh();
    put(&mut t, "send", text("ir/front/send"));
    put(&mut t, "rx", text("ir/front/rx"));
    let mut f = fresh();
    put(&mut f, "send", Json::Bool(io.ir_blaster > 0));
    put(&mut f, "receive", Json::Bool(io.ir_in > 0));
    put(&mut f, "topics", object(t));
    let mut o = fresh();
    put(&mut o, "out", Json::Number(io.ir_out as u64));
    put(&mut o, "blaster", Json::Number(io.ir_blaster as u64));
    put(&mut o, "total", Json::Number(io.ir_out as u64 + io.ir_blaster as u64));
    put(&mut o, "combo", Json::Number(io.ir_combo as u64));
    put(&mut o, "receiver", Json::Number(io.ir_in as u64));
    put(&mut o, "front", object(f));
    put(
        &mut o,
        "via",
        text(
            if ir_lirc {
                "lirc"
            } else {
                "none"
            },
        ),
    );
    put(&mut o, "devices", our_dev_list(devices));
    object(o)
}

/// A member that is there only when there is something behind it.
pub open spec fn when(
    o: Seq<(Seq<char>, JsonModel)>,
    there: bool,
    k: Seq<char>,
    v: JsonModel,
) -> Seq<(Seq<char>, JsonModel)> {
    if there {
        with(o, k, v)
    } else {
        o
    }
}

pub open spec fn count_doc(n: nat) -> JsonModel {
    JsonModel::Object(with(nothing(), "count"@, number(n)))
}

/// One sensor as a client sees it.
pub open spec fn reading_doc(r: ReadingModel) -> JsonModel {
    let o = with(nothing(), "slug"@, JsonModel::Text(r.slug));
    let o = with(o, "label"@, JsonModel::Text(r.label));
    let o = with(o, "chip"@, JsonModel::Text(r.chip));
    JsonModel::Object(with(o, "value"@, JsonModel::Raw(dec_signed(r.value))))
}

pub open spec fn readings_doc(v: Seq<ReadingModel>) -> JsonModel {
    JsonModel::List(v.map_values(|r: ReadingModel| reading_doc(r)))
}

/// The sensors as a client sees them. They are whatever the kernel found, so a box
/// with neither a temperature nor a fan has nothing to show.
pub open spec fn health_of(s: SensorsModel) -> Option<JsonModel> {
    if s.temps.len() == 0 && s.fans.len() == 0 {
        None
    } else {
        let o = with(nothing(), "temps"@, readings_doc(s.temps));
        let o = with(o, "fans"@, readings_doc(s.fans));
        Some(JsonModel::Object(with(o, "pwm"@, readings_doc(s.pwm))))
    }
}

fn reading_list(v: &Vec<Reading>) -> (r: Json)
    ensures
        r@ == readings_doc(readings_view(v@)),
{
    let ghost want = readings_doc(readings_view(v@))->List_0;
    let mut out: Vec<Json> = Vec::new();
    let mut i: usize = 0;
    assert(values(out@) =~= want.take(0));
    while i < v.len()
        invariant
            i <= v@.len(),
            want == readings_view(v@).map_values(|r: ReadingModel| reading_doc(r)),
            values(out@) == want.take(i as int),
        decreases v@.len() - i,
    {
        let ghost was = values(out@);
        let mut o = fresh();
        put(&mut o, "slug", text(v[i].slug.as_str()));
        put(&mut o, "label", text(v[i].label.as_str()));
        put(&mut o, "chip", text(v[i].chip.as_str()));
        put(&mut o, "value", Json::Raw(dec_signed_string(v[i].value)));
        let j = object(o);
        out.push(j);
        assert(values(out@) =~= was.push(j@));
        assert(readings_view(v@)[i as int] == v@[i as int]@);
        assert(want.take(i + 1) =~= want.take(i as int).push(want[i as int]));
        i += 1;
    }
    assert(want.take(v@.len() as int) =~= want);
    list(out)
}

pub fn health_doc(s: &Sensors) -> (r: Option<Json>)
    ensures
        match health_of(s@) {
            Some(j) => r is Some && r->0@ == j,
            None => r is None,
        },
{
    assert(s@.temps.len() == s.temps@.len() && s@.fans.len() == s.fans@.len());
    if s.temps.len() == 0 && s.fans.len() == 0 {
        return None;
    }
    let mut o = fresh();
    put(&mut o, "temps", reading_list(&s.temps));
    put(&mut o, "fans", reading_list(&s.fans));
    put(&mut o, "pwm", reading_list(&s.pwm));
    Some(object(o))
}

/// Whether the part behind the lines answers, as the mirror has it.
pub fn answering(state: &State) -> (r: bool)
    ensures
        r == (member(state@, "mcu/link"@) == Some(JsonModel::Bool(true))),
{
    match state.get("mcu/link") {
        Some(Json::Bool(b)) => b,
        _ => false,
    }
}

/// What the kernel and the mirror add to what the board declares.
#[derive(Debug)]
pub struct Seen {
    /// The IO lines are there.
    pub linked: bool,
    /// The part behind them answers.
    pub answering: bool,
    /// The driver registered IR nodes.
    pub ir_lirc: bool,
    pub devices: Vec<Dev>,
    pub sensors: Sensors,
    pub leds: Vec<Led>,
}

pub ghost struct SeenModel {
    pub linked: bool,
    pub answering: bool,
    pub ir_lirc: bool,
    pub devices: Seq<DevModel>,
    pub sensors: SensorsModel,
    pub leds: Seq<LedModel>,
}

impl View for Seen {
    type V = SeenModel;

    open spec fn view(&self) -> SeenModel {
        SeenModel {
            linked: self.linked,
            answering: self.answering,
            ir_lirc: self.ir_lirc,
            devices: devs(self.devices@),
            sensors: self.sensors@,
            leds: leds(self.leds@),
        }
    }
}

pub open spec fn capability_doc(b: IoBoardModel, s: SeenModel) -> JsonModel {
    let o = with(nothing(), "board"@, JsonModel::Text(b.model));
    let o = with(o, "hostname"@, JsonModel::Text(b.hostname));
    let o = with(o, "backend"@, JsonModel::Text(backend_text(b.io.backend)));
    let o = with(o, "io_via"@, JsonModel::Text("gpio"@));
    let o = with(o, "gpio_chip"@, JsonModel::Text(CHIP_LABEL@));
    let o = with(o, "mcu_linked"@, JsonModel::Bool(s.answering));
    let o = with(o, "mcu_present"@, JsonModel::Bool(s.linked));
    let o = when(o, b.io.ir_out + b.io.ir_blaster > 0, "ir"@, ir_doc(b.io, s.ir_lirc, s.devices));
    let o = match health_of(s.sensors) {
        Some(j) => with(o, "health"@, j),
        None => o,
    };
    let o = when(o, s.leds.len() > 0, "leds"@, leds_doc(s.leds));
    let o = when(o, b.io.relays > 0, "relays"@, count_doc(b.io.relays));
    let o = when(o, b.io.contacts > 0, "contacts"@, count_doc(b.io.contacts));
    JsonModel::Object(when(o, b.io.serials.len() > 0, "serials"@, ports_doc(b.io.serials)))
}

fn show_count(n: u8) -> (r: Json)
    ensures
        r@ == count_doc(n as nat),
{
    let mut o = fresh();
    put(&mut o, "count", Json::Number(n as u64));
    object(o)
}

/// Everything a client needs to draw the UI, and nothing it does not: a thing
/// with nothing behind it does not appear.
pub fn capabilities(b: &Board, s: &Seen) -> (r: Json)
    ensures
        r@ == capability_doc(b@, s@),
{
    let io = &b.io;
    let mut o = fresh();
    put(&mut o, "board", text(b.model.as_str()));
    put(&mut o, "hostname", text(b.hostname.as_str()));
    put(
        &mut o,
        "backend",
        text(
            match io.backend {
                Backend::Mcu => "mcu",
                Backend::Gpio => "gpio",
                Backend::Absent => "none",
            },
        ),
    );
    put(&mut o, "io_via", text("gpio"));
    put(&mut o, "gpio_chip", text(CHIP_LABEL));
    put(&mut o, "mcu_linked", Json::Bool(s.answering));
    put(&mut o, "mcu_present", Json::Bool(s.linked));
    if io.ir_out > 0 || io.ir_blaster > 0 {
        put(&mut o, "ir", show_ir(io, s.ir_lirc, &s.devices));
    }
    match health_doc(&s.sensors) {
        Some(j) => put(&mut o, "health", j),
        None => {},
    }
    if s.leds.len() > 0 {
        put(&mut o, "leds", led_list(&s.leds));
    }
    if io.relays > 0 {
        put(&mut o, "relays", show_count(io.relays));
    }
    if io.contacts > 0 {
        put(&mut o, "contacts", show_count(io.contacts));
    }
    if io.serials.len() > 0 {
        put(&mut o, "serials", serial_list(io));
    }
    object(o)
}

// ----------------------------------------------------------------------------- reset

/// The line that shows whether the part answers: the first contact, else the
/// first relay. A board with neither cannot be asked.
pub open spec fn probe_line(io: IoModel, linked: bool) -> Option<Seq<char>> {
    if !linked {
        None
    } else if io.contacts > 0 {
        Some(contact_name(0))
    } else if io.relays > 0 {
        Some(relay_name(0))
    } else {
        None
    }
}

pub fn alive_line(io: &Io, linked: bool) -> (r: Option<String>)
    ensures
        opt(r) == probe_line(io@, linked),
{
    if !linked {
        None
    } else if io.contacts > 0 {
        Some(contact_line(0))
    } else if io.relays > 0 {
        Some(relay_line(0))
    } else {
        None
    }
}

/// How long the part is held in reset.
pub const PULSE_MS: u64 = 200;

/// How long the part is given to boot before it is asked.
pub const SETTLE_MS: u64 = 600;

/// The wait between two questions.
pub const PROBE_MS: u64 = 250;

pub const PROBES: u8 = 6;

/// What a reset does next.
#[derive(Debug, PartialEq, Eq, Clone, Copy, Structural)]
pub enum ResetStep {
    /// Claim the reset line, driven to this level, and keep it.
    Claim { level: bool },
    /// Wait, drive the line to one level, hold it, and drive it back.
    Pulse { wait_ms: u64, held: bool, ms: u64 },
    /// Wait, and then ask whether the part answers.
    Probe { wait_ms: u64 },
    /// The part answers at this released level.
    Revived { released: bool },
    /// It does not answer at either. Wait, then leave the line at this level.
    Park { wait_ms: u64, level: bool },
}

#[derive(Debug, PartialEq, Eq, Clone, Copy, Structural)]
pub enum ResetAt {
    Start,
    Claimed,
    Pulsed { released: bool },
    /// Asked this many times.
    Probing { released: bool, asked: u8 },
    Over,
}

/// The chip and line a board declares for resetting its microcontroller.
pub fn reset_line(chip: Option<String>, line: Option<u32>) -> (r: Result<(String, u32), Fault>)
    ensures
        match (opt(chip), line) {
            (None, _) => r is Err && r->Err_0@ == FaultModel::NoSuch("this board declares no GPIO chip"@),
            (Some(_), None) => r is Err && r->Err_0@ == FaultModel::NoSuch(
                "this board declares no IO reset line"@,
            ),
            (Some(c), Some(l)) => r is Ok && r->Ok_0.0@ == c && r->Ok_0.1 == l,
        },
{
    match (chip, line) {
        (None, _) => Err(no_such("this board declares no GPIO chip")),
        (Some(_), None) => Err(no_such("this board declares no IO reset line")),
        (Some(c), Some(l)) => Ok((c, l)),
    }
}

/// The reset line could not be claimed.
pub fn claim_failed(why: &str) -> (r: Fault)
    ensures
        r@ == FaultModel::Io("cannot claim the reset line: "@ + why@),
{
    Fault::Io(cat2("cannot claim the reset line: ", why))
}

/// The reset line could not be driven.
pub fn drive_failed(why: &str) -> (r: Fault)
    ensures
        r@ == FaultModel::Io("cannot drive the reset line: "@ + why@),
{
    Fault::Io(cat2("cannot drive the reset line: ", why))
}

/// One turn of a reset: where it stands, and whether the part answered the last
/// question.
pub open spec fn reset_turn(at: ResetAt, answered: bool) -> (ResetAt, ResetStep) {
    match at {
        ResetAt::Start => (ResetAt::Claimed, ResetStep::Claim { level: true }),
        ResetAt::Claimed => (ResetAt::Pulsed { released: true }, ResetStep::Pulse { wait_ms: 0, held: false, ms: PULSE_MS }),
        ResetAt::Pulsed { released } => (
            ResetAt::Probing { released, asked: 1 },
            ResetStep::Probe { wait_ms: SETTLE_MS },
        ),
        ResetAt::Probing { released, asked } => if answered {
            (ResetAt::Over, ResetStep::Revived { released })
        } else if asked < PROBES {
            (ResetAt::Probing { released, asked: (asked + 1) as u8 }, ResetStep::Probe { wait_ms: PROBE_MS })
        } else if released {
            (ResetAt::Pulsed { released: false }, ResetStep::Pulse { wait_ms: PROBE_MS, held: true, ms: PULSE_MS })
        } else {
            (ResetAt::Over, ResetStep::Park { wait_ms: PROBE_MS, level: true })
        },
        ResetAt::Over => (ResetAt::Over, ResetStep::Park { wait_ms: 0, level: true }),
    }
}

/// Hold the microcontroller in reset briefly, then let it run.
///
/// Both polarities are tried, the documented one first: which one revived the
/// part is how the board's declaration gets corrected.
pub fn mcu_reset(at: &mut ResetAt, answered: bool) -> (r: ResetStep)
    ensures
        (*final(at), r) == reset_turn(*old(at), answered),
{
    let here = *at;
    let (next, step) = match here {
        ResetAt::Start => (ResetAt::Claimed, ResetStep::Claim { level: true }),
        ResetAt::Claimed => (ResetAt::Pulsed { released: true }, ResetStep::Pulse { wait_ms: 0, held: false, ms: PULSE_MS }),
        ResetAt::Pulsed { released } => (
            ResetAt::Probing { released, asked: 1 },
            ResetStep::Probe { wait_ms: SETTLE_MS },
        ),
        ResetAt::Probing { released, asked } => {
            if answered {
                (ResetAt::Over, ResetStep::Revived { released })
            } else if asked < PROBES {
                (ResetAt::Probing { released, asked: asked + 1 }, ResetStep::Probe { wait_ms: PROBE_MS })
            } else if released {
                (ResetAt::Pulsed { released: false }, ResetStep::Pulse { wait_ms: PROBE_MS, held: true, ms: PULSE_MS })
            } else {
                (ResetAt::Over, ResetStep::Park { wait_ms: PROBE_MS, level: true })
            }
        },
        ResetAt::Over => (ResetAt::Over, ResetStep::Park { wait_ms: 0, level: true }),
    };
    *at = next;
    step
}

/// A pulse always ends at the level the part runs at under the polarity being
/// tried, and a part that never answers is not left held in reset.
pub proof fn law_a_dead_part_is_not_held_in_reset(at: ResetAt, answered: bool)
    ensures
        match reset_turn(at, answered) {
            (next, ResetStep::Pulse { held, .. }) => next == ResetAt::Pulsed { released: !held },
            (next, ResetStep::Park { level, .. }) => level && next == ResetAt::Over,
            _ => true,
        },
{
}

pub open spec fn revived_doc(chip: Seq<char>, line: nat, released: bool) -> JsonModel {
    let o = with(nothing(), "reset"@, JsonModel::Bool(true));
    let o = with(o, "chip"@, JsonModel::Text(chip));
    let o = with(o, "line"@, number(line));
    let o = with(
        o,
        "released_level"@,
        number(
            if released {
                1
            } else {
                0
            },
        ),
    );
    let o = with(o, "matched_board_env"@, JsonModel::Bool(released));
    JsonModel::Object(with(o, "answering"@, JsonModel::Bool(true)))
}

/// The answer when the part came back: which sense worked.
pub fn reset_revived(chip: &str, line: u32, released: bool) -> (r: Json)
    ensures
        r@ == revived_doc(chip@, line as nat, released),
{
    let mut o = fresh();
    put(&mut o, "reset", Json::Bool(true));
    put(&mut o, "chip", text(chip));
    put(&mut o, "line", Json::Number(line as u64));
    put(
        &mut o,
        "released_level",
        Json::Number(
            if released {
                1
            } else {
                0
            },
        ),
    );
    put(&mut o, "matched_board_env", Json::Bool(released));
    put(&mut o, "answering", Json::Bool(true));
    object(o)
}

pub open spec fn parked_doc(chip: Seq<char>, line: nat) -> JsonModel {
    let o = with(nothing(), "reset"@, JsonModel::Bool(true));
    let o = with(o, "chip"@, JsonModel::Text(chip));
    let o = with(o, "line"@, number(line));
    let o = with(o, "answering"@, JsonModel::Bool(false));
    let o = with(
        o,
        "tried"@,
        JsonModel::List(seq![JsonModel::Text("released=1"@), JsonModel::Text("released=0"@)]),
    );
    JsonModel::Object(
        with(
            o,
            "note"@,
            JsonModel::Text(
                "the part did not answer at either polarity; it may need a power cycle, or this may not be its reset line"@,
            ),
        ),
    )
}

/// The answer when it did not.
pub fn reset_parked(chip: &str, line: u32) -> (r: Json)
    ensures
        r@ == parked_doc(chip@, line as nat),
{
    let mut tried: Vec<Json> = Vec::new();
    let a = text("released=1");
    let b = text("released=0");
    tried.push(a);
    tried.push(b);
    assert(values(tried@) =~= seq![JsonModel::Text("released=1"@), JsonModel::Text("released=0"@)]);
    let mut o = fresh();
    put(&mut o, "reset", Json::Bool(true));
    put(&mut o, "chip", text(chip));
    put(&mut o, "line", Json::Number(line as u64));
    put(&mut o, "answering", Json::Bool(false));
    put(&mut o, "tried", list(tried));
    put(
        &mut o,
        "note",
        text(
            "the part did not answer at either polarity; it may need a power cycle, or this may not be its reset line",
        ),
    );
    object(o)
}

} // verus!
