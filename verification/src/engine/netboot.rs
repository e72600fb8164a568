//! The EA "netboot openHC into RAM" bring-up flow.
//!
//! It leaves the eMMC untouched and boots a kernel and initramfs straight into
//! RAM from CEFDK's manufacturing shell: a BOOTP responder that makes CEFDK drop
//! to its shell, a TFTP server that feeds it, and the commands typed at the
//! console.
use crate::engine::flow::{quiet, EventModel, Log};
use crate::engine::mfgmode::{fed, silence_told, MfgWatch, Stage, WatchModel};
use crate::flasher::cefdk::{law_netboot_boots_what_it_fetched, ramboot_model, ramboot_tftp_for};
use crate::flasher::loader::ran;
use crate::flasher::image::opt_bytes;
use crate::num::{dec, dec_string};
use crate::text::{
    cat2, cat3, cat4, cat5, cat7, debug_string, debug_text, starts_with, starts_with_str, strings, to_chars,
};
use crate::transport::bootp::{mac_of, parse_mac};
use crate::transport::ipv4::{address, dotted, dotted_string, parse_address};
use crate::transport::netboot::BindFault;
use crate::transport::serial::CEFDK_BAUD;
use vstd::prelude::*;
use vstd::string::*;

verus! {

pub const KERNEL_NAME: &'static str = "bzImage";

pub const INITRD_NAME: &'static str = "rootfs.cpio.gz";

/// How long to wait for the CEFDK shell: the user may need a retry or two.
pub const SHELL_DEADLINE_SECS: u64 = 300;

/// How long to wait for the box to answer after it was booted.
pub const LOGIN_WAIT_SECS: u64 = 240;

/// How long one read of the console lasts.
pub const READ_WINDOW_MS: u64 = 500;

pub open spec fn gap_ms(cmd: Seq<char>) -> nat {
    if starts_with(cmd, "tftp get"@) {
        3000
    } else {
        300
    }
}

/// How long to pause after a command before sending the next, in milliseconds.
/// A transfer must finish before the following line is typed; everything else
/// returns immediately.
pub fn inter_command_gap(cmd: &str) -> (r: u64)
    ensures
        r == gap_ms(cmd@),
{
    let chars = to_chars(cmd);
    if starts_with_str(chars.as_slice(), "tftp get") {
        3000
    } else {
        300
    }
}

pub open spec fn bind_error_text(what: Seq<char>, port: nat, fault: BindFault, e: Seq<char>) -> Seq<char> {
    "cannot bind the "@ + what + " server on :"@ + dec(port) + ": "@ + e + (match fault {
        BindFault::Denied => ". Binding a port below 1024 needs root — run this under sudo."@,
        BindFault::InUse => ". Another DHCP/TFTP service (or a previous run) already holds it — stop it and retry."@,
        BindFault::Other => ""@,
    })
}

/// A bind failure, with its likely cause.
pub fn bind_error(what: &str, port: u16, fault: BindFault, e: &str) -> (r: String)
    ensures
        r@ == bind_error_text(what@, port as nat, fault, e@),
{
    let tail = match fault {
        BindFault::Denied => ". Binding a port below 1024 needs root — run this under sudo.",
        BindFault::InUse => ". Another DHCP/TFTP service (or a previous run) already holds it — stop it and retry.",
        BindFault::Other => "",
    };
    cat7(
        "cannot bind the ",
        what,
        " server on :",
        dec_string(port as u64).as_str(),
        ": ",
        e,
        tail,
    )
}

// ------------------------------------------------------------- reaching the shell

/// The watcher after a run of lines, up to and including the one that brought
/// the shell.
pub open spec fn fed_all(m: WatchModel, v: Seq<Seq<char>>, log: Seq<EventModel>) -> (
    WatchModel,
    Seq<EventModel>,
    bool,
)
    decreases v.len(),
{
    if v.len() == 0 {
        (m, log, false)
    } else {
        let (n, said) = fed(m, v[0]);
        if n.stage is AtShell && !(m.stage is AtShell) {
            (n, log + said, true)
        } else {
            fed_all(n, v.skip(1), log + said)
        }
    }
}

/// One window of the console: the complete lines if there are any, else the
/// unterminated tail, which is how a prompt without a newline is seen, and then
/// a word about the silence.
pub open spec fn window(
    m: WatchModel,
    v: Seq<Seq<char>>,
    tail: Option<Seq<char>>,
    elapsed_s: u64,
    log: Seq<EventModel>,
) -> (WatchModel, Seq<EventModel>, bool) {
    if v.len() > 0 {
        fed_all(m, v, log)
    } else {
        let (n, said, up) = match tail {
            Some(t) => fed_all(m, seq![t], log),
            None => (m, log, false),
        };
        if up {
            (n, said, true)
        } else {
            (n, said + silence_told(n, elapsed_s), false)
        }
    }
}

fn feed_one(watch: &mut MfgWatch, line: &str, log: &mut Log) -> (up: bool)
    ensures
        final(watch)@ == fed(old(watch)@, line@).0,
        final(log)@ == old(log)@ + fed(old(watch)@, line@).1,
        up == (final(watch)@.stage is AtShell && !(old(watch)@.stage is AtShell)),
{
    match watch.feed(line, log) {
        Some(s) => s == Stage::AtShell,
        None => false,
    }
}

/// Feed one window of the console to the watcher. Says whether the shell was
/// reached.
pub fn drive_to_shell(
    watch: &mut MfgWatch,
    lines: &Vec<String>,
    tail: Option<&str>,
    elapsed_s: u64,
    log: &mut Log,
) -> (up: bool)
    ensures
        (final(watch)@, final(log)@, up) == window(
            old(watch)@,
            strings(lines@),
            crate::flasher::board::opt_str(tail),
            elapsed_s,
            old(log)@,
        ),
{
    let ghost m0 = watch@;
    let ghost l0 = log@;
    let ghost all = strings(lines@);
    if lines.len() == 0 {
        if let Some(t) = tail {
            let up: bool = feed_one(watch, t, log);
            assert(seq![t@].skip(1) =~= seq![]);
            assert(fed_all(m0, seq![t@], l0) == (watch@, log@, up)) by {
                reveal_with_fuel(fed_all, 2);
            }
            if up {
                return true;
            }
        }
        watch.tick(elapsed_s, log);
        return false;
    }
    let mut i: usize = 0;
    assert(all.skip(0) =~= all);
    while i < lines.len()
        invariant
            i <= lines@.len(),
            all == strings(lines@),
            all.len() > 0,
            m0 == old(watch)@,
            l0 == old(log)@,
            fed_all(m0, all, l0) == fed_all(watch@, all.skip(i as int), log@),
        decreases lines@.len() - i,
    {
        assert(all.skip(i as int)[0] == lines@[i as int]@);
        assert(all.skip(i as int).skip(1) =~= all.skip(i + 1));
        if feed_one(watch, lines[i].as_str(), log) {
            return true;
        }
        i += 1;
    }
    false
}

// ------------------------------------------------------------------------ the flow

/// What the flow asks of its front end.
#[derive(Debug)]
pub enum NetAction {
    /// Stage the two images under their names.
    Stage,
    /// Answer BOOTP for that hardware address.
    StartBootp { mac: [u8; 6], offer: [u8; 4], server: [u8; 4] },
    /// Serve the staged images.
    StartTftp,
    /// Open the console.
    OpenSerial,
    /// Watch the console until the shell is up or the time is over.
    DriveToShell,
    /// Type a line and pause.
    Type { line: String, gap_ms: u64 },
    /// Both servers have done their job.
    StopServers,
    /// Wait for the box to answer.
    WaitForLogin { ip: [u8; 4], secs: u64 },
    Done,
    Failed(String),
}

/// What came of the last action.
#[derive(Debug)]
pub enum NetReply {
    Fine,
    /// It failed, and this is why.
    Failed(String),
    /// A port could not be bound.
    Unbound(BindFault, String),
    /// The shell, or the box, was there in time or not.
    Reached(bool),
}

/// Where the flow stands.
#[derive(Debug, Clone, Copy, PartialEq, Eq, Structural)]
pub enum NetAt {
    Start,
    Staged,
    Bootp,
    Tftp,
    Serial,
    Shell,
    /// That many lines have been typed.
    Typing(usize),
    /// The servers are stopped because the shell never came.
    GaveUp,
    Stopped,
    Waiting,
    Ended,
}

/// A bring-up in progress.
#[derive(Debug)]
pub struct Netboot {
    at: NetAt,
    serial_dev: String,
    mac_text: String,
    mac: [u8; 6],
    server_ip: [u8; 4],
    box_ip: [u8; 4],
    kernel_len: u64,
    initrd_len: u64,
    cmds: Vec<String>,
    wait: bool,
}

pub ghost struct NetModel {
    pub at: NetAt,
    pub serial_dev: Seq<char>,
    pub mac_text: Seq<char>,
    pub mac: Seq<u8>,
    pub server_ip: Seq<u8>,
    pub box_ip: Seq<u8>,
    pub kernel_len: nat,
    pub initrd_len: nat,
    pub cmds: Seq<Seq<char>>,
    pub wait: bool,
}

impl View for Netboot {
    type V = NetModel;

    closed spec fn view(&self) -> NetModel {
        NetModel {
            at: self.at,
            serial_dev: self.serial_dev@,
            mac_text: self.mac_text@,
            mac: self.mac@,
            server_ip: self.server_ip@,
            box_ip: self.box_ip@,
            kernel_len: self.kernel_len as nat,
            initrd_len: self.initrd_len as nat,
            cmds: strings(self.cmds@),
            wait: self.wait,
        }
    }
}

pub ghost enum ActionModel {
    Stage,
    StartBootp { mac: Seq<u8>, offer: Seq<u8>, server: Seq<u8> },
    StartTftp,
    OpenSerial,
    DriveToShell,
    Type { line: Seq<char>, gap_ms: nat },
    StopServers,
    WaitForLogin { ip: Seq<u8>, secs: nat },
    Done,
    Failed(Seq<char>),
}

impl View for NetAction {
    type V = ActionModel;

    open spec fn view(&self) -> ActionModel {
        match self {
            NetAction::Stage => ActionModel::Stage,
            NetAction::StartBootp { mac, offer, server } => ActionModel::StartBootp {
                mac: mac@,
                offer: offer@,
                server: server@,
            },
            NetAction::StartTftp => ActionModel::StartTftp,
            NetAction::OpenSerial => ActionModel::OpenSerial,
            NetAction::DriveToShell => ActionModel::DriveToShell,
            NetAction::Type { line, gap_ms } => ActionModel::Type { line: line@, gap_ms: *gap_ms as nat },
            NetAction::StopServers => ActionModel::StopServers,
            NetAction::WaitForLogin { ip, secs } => ActionModel::WaitForLogin { ip: ip@, secs: *secs as nat },
            NetAction::Done => ActionModel::Done,
            NetAction::Failed(s) => ActionModel::Failed(s@),
        }
    }
}

/// What is wrong with the arguments, the first thing first.
pub open spec fn netboot_refusal(
    server_ip: Seq<char>,
    box_ip: Seq<char>,
    mac: Seq<char>,
    kernel: Option<Seq<u8>>,
    initrd: Option<Seq<u8>>,
) -> Option<Seq<char>> {
    if address(server_ip) is None {
        Some("bad --server-ip "@ + server_ip + ": invalid IPv4 address syntax"@)
    } else if address(box_ip) is None {
        Some("bad --box-ip "@ + box_ip + ": invalid IPv4 address syntax"@)
    } else if mac_of(mac) is None {
        Some("bad --mac "@ + debug_text(mac) + " (want aa:bb:cc:dd:ee:ff)"@)
    } else if kernel is None {
        Some("release has no bzImage"@)
    } else if initrd is None {
        Some("release has no rootfs.cpio.gz"@)
    } else {
        None
    }
}

pub open spec fn shell_text() -> Seq<char> {
    "did not reach the CEFDK shell within "@ + dec(SHELL_DEADLINE_SECS as nat)
        + "s — check the serial cable and that the ID button was held through the power cycle"@
}

pub open spec fn typed(m: NetModel, n: int, log: Seq<EventModel>) -> (NetAt, Seq<EventModel>, ActionModel) {
    if n < m.cmds.len() {
        (
            NetAt::Typing((n + 1) as usize),
            log.push(EventModel::Detail("shell> "@ + m.cmds[n])),
            ActionModel::Type { line: m.cmds[n], gap_ms: gap_ms(m.cmds[n]) },
        )
    } else {
        (
            NetAt::Stopped,
            log.push(
                EventModel::Resolved("ramboot sequence sent — the box is booting openHC into RAM"@),
            ),
            ActionModel::StopServers,
        )
    }
}

pub open spec fn net_failed(why: Seq<char>) -> (NetAt, Seq<EventModel>, ActionModel) {
    (NetAt::Ended, quiet(), ActionModel::Failed(why))
}

/// The words of a failure that carries no kind.
pub open spec fn reply_text(r: NetReply) -> Seq<char> {
    match r {
        NetReply::Failed(e) => e@,
        NetReply::Unbound(_, e) => e@,
        _ => seq![],
    }
}

pub open spec fn is_fine(r: NetReply) -> bool {
    r is Fine || r == NetReply::Reached(true)
}

pub open spec fn bind_verdict(what: Seq<char>, port: nat, r: NetReply) -> Seq<char> {
    bind_error_text(
        what,
        port,
        match r {
            NetReply::Unbound(f, _) => f,
            _ => BindFault::Other,
        },
        reply_text(r),
    )
}

pub open spec fn net_turn(m: NetModel, r: NetReply) -> (NetAt, Seq<EventModel>, ActionModel) {
    match m.at {
        NetAt::Start => (NetAt::Staged, quiet(), ActionModel::Stage),
        NetAt::Staged => if !is_fine(r) {
            net_failed(reply_text(r))
        } else {
            (
                NetAt::Bootp,
                quiet().push(
                    EventModel::Detail(
                        "staged bzImage ("@ + dec(m.kernel_len) + " B) and rootfs.cpio.gz ("@ + dec(
                            m.initrd_len,
                        ) + " B) for TFTP"@,
                    ),
                ),
                ActionModel::StartBootp { mac: m.mac, offer: m.box_ip, server: m.server_ip },
            )
        },
        NetAt::Bootp => if !is_fine(r) {
            net_failed(bind_verdict("BOOTP"@, 67, r))
        } else {
            (NetAt::Tftp, quiet(), ActionModel::StartTftp)
        },
        NetAt::Tftp => if !is_fine(r) {
            net_failed(bind_verdict("TFTP"@, 69, r))
        } else {
            (
                NetAt::Serial,
                quiet().push(
                    EventModel::Step(
                        "serving bzImage/rootfs.cpio.gz over TFTP and answering BOOTP for "@ + m.mac_text,
                    ),
                ),
                ActionModel::OpenSerial,
            )
        },
        NetAt::Serial => if !is_fine(r) {
            net_failed(reply_text(r))
        } else {
            (
                NetAt::Shell,
                quiet().push(
                    EventModel::Detail(
                        "opened "@ + m.serial_dev + " at "@ + dec(CEFDK_BAUD as nat) + " 8N1"@,
                    ),
                ),
                ActionModel::DriveToShell,
            )
        },
        NetAt::Shell => match r {
            NetReply::Reached(true) => typed(m, 0, quiet()),
            NetReply::Reached(false) => (NetAt::GaveUp, quiet(), ActionModel::StopServers),
            _ => net_failed(reply_text(r)),
        },
        NetAt::Typing(n) => if !is_fine(r) {
            net_failed(reply_text(r))
        } else {
            typed(m, n as int, quiet())
        },
        NetAt::GaveUp => net_failed(shell_text()),
        NetAt::Stopped => if m.wait {
            (
                NetAt::Waiting,
                quiet().push(
                    EventModel::Step(
                        "waiting up to "@ + dec(LOGIN_WAIT_SECS as nat) + "s for openHC to answer SSH at "@
                            + dotted(m.box_ip),
                    ),
                ),
                ActionModel::WaitForLogin { ip: m.box_ip, secs: LOGIN_WAIT_SECS as nat },
            )
        } else {
            (NetAt::Ended, quiet(), ActionModel::Done)
        },
        NetAt::Waiting => (
            NetAt::Ended,
            quiet().push(
                if is_fine(r) {
                    EventModel::Resolved("openHC is up at "@ + dotted(m.box_ip))
                } else {
                    EventModel::Warn(
                        "no SSH from "@ + dotted(m.box_ip) + " within "@ + dec(LOGIN_WAIT_SECS as nat)
                            + "s. It may still be booting, or came up on a different address — watch the serial console for its login."@,
                    )
                },
            ),
            ActionModel::Done,
        ),
        NetAt::Ended => (NetAt::Ended, quiet(), ActionModel::Done),
    }
}

impl NetModel {
    pub open spec fn wf(self) -> bool {
        self.at matches NetAt::Typing(n) ==> n <= self.cmds.len()
    }
}

fn fine(r: &NetReply) -> (b: bool)
    ensures
        b == is_fine(*r),
{
    match r {
        NetReply::Fine => true,
        NetReply::Reached(b) => *b,
        _ => false,
    }
}

fn words(r: &NetReply) -> (s: String)
    ensures
        s@ == reply_text(*r),
{
    match r {
        NetReply::Failed(e) => e.clone(),
        NetReply::Unbound(_, e) => e.clone(),
        _ => {
            let s = String::new();
            assert(s@ =~= seq![]);
            s
        },
    }
}

fn unbound(what: &str, port: u16, r: &NetReply) -> (s: String)
    ensures
        s@ == bind_verdict(what@, port as nat, *r),
{
    let fault = match r {
        NetReply::Unbound(f, _) => *f,
        _ => BindFault::Other,
    };
    bind_error(what, port, fault, words(r).as_str())
}

impl Netboot {
    /// Check the arguments and the release. The initrd's length must be its
    /// exact byte count: a cpio archive does not say where it ends.
    pub fn new(
        serial_dev: &str,
        server_ip: &str,
        box_ip: &str,
        mac: &str,
        cmdline: &str,
        kernel: Option<&[u8]>,
        initrd: Option<&[u8]>,
        wait: bool,
    ) -> (r: Result<Netboot, String>)
        ensures
            match netboot_refusal(server_ip@, box_ip@, mac@, opt_bytes(kernel), opt_bytes(initrd)) {
                Some(why) => r is Err && r->Err_0@ == why,
                None => r is Ok && r->Ok_0@.wf() && r->Ok_0@ == (NetModel {
                    at: NetAt::Start,
                    serial_dev: serial_dev@,
                    mac_text: mac@,
                    mac: mac_of(mac@)->0,
                    server_ip: address(server_ip@)->0,
                    box_ip: address(box_ip@)->0,
                    kernel_len: opt_bytes(kernel)->0.len(),
                    initrd_len: opt_bytes(initrd)->0.len(),
                    cmds: ramboot_model(
                        dotted(address(server_ip@)->0),
                        dotted(address(box_ip@)->0),
                        KERNEL_NAME@,
                        INITRD_NAME@,
                        opt_bytes(initrd)->0.len(),
                        cmdline@,
                    ),
                    wait,
                }) && boots_what_is_served(r->Ok_0@, cmdline@),
            },
    {
        let sc = to_chars(server_ip);
        let server: [u8; 4] = match parse_address(sc.as_slice()) {
            Some(a) => a,
            None => {
                return Err(cat3("bad --server-ip ", server_ip, ": invalid IPv4 address syntax"));
            },
        };
        let bc = to_chars(box_ip);
        let target: [u8; 4] = match parse_address(bc.as_slice()) {
            Some(a) => a,
            None => {
                return Err(cat3("bad --box-ip ", box_ip, ": invalid IPv4 address syntax"));
            },
        };
        let m: [u8; 6] = match parse_mac(mac) {
            Some(a) => a,
            None => {
                return Err(cat3("bad --mac ", debug_string(mac).as_str(), " (want aa:bb:cc:dd:ee:ff)"));
            },
        };
        let kernel_len: u64 = match kernel {
            Some(k) => k.len() as u64,
            None => {
                return Err(String::from_str("release has no bzImage"));
            },
        };
        let initrd_len: u64 = match initrd {
            Some(k) => k.len() as u64,
            None => {
                return Err(String::from_str("release has no rootfs.cpio.gz"));
            },
        };
        let cmds = ramboot_tftp_for(
            dotted_string(server).as_str(),
            dotted_string(target).as_str(),
            KERNEL_NAME,
            INITRD_NAME,
            initrd_len,
            cmdline,
        );
        proof {
            lemma_boots(server@, target@, initrd_len as nat, cmdline@);
        }
        Ok(
            Netboot {
                at: NetAt::Start,
                serial_dev: String::from_str(serial_dev),
                mac_text: String::from_str(mac),
                mac: m,
                server_ip: server,
                box_ip: target,
                kernel_len,
                initrd_len,
                cmds,
                wait,
            },
        )
    }

    fn type_line(&self, n: usize) -> (r: (NetAt, Log, NetAction))
        requires
            n <= self@.cmds.len(),
        ensures
            (r.0, r.1@, r.2@) == typed(self@, n as int, quiet()),
    {
        let mut log = Log::new();
        assert(self.cmds@.len() == self@.cmds.len());
        if n < self.cmds.len() {
            assert(self@.cmds[n as int] == self.cmds@[n as int]@);
            log.detail(cat2("shell> ", self.cmds[n].as_str()));
            let gap: u64 = inter_command_gap(self.cmds[n].as_str());
            (NetAt::Typing(n + 1), log, NetAction::Type { line: self.cmds[n].clone(), gap_ms: gap })
        } else {
            log.resolved(String::from_str("ramboot sequence sent — the box is booting openHC into RAM"));
            (NetAt::Stopped, log, NetAction::StopServers)
        }
    }

    fn waited(&self, reply: &NetReply) -> (r: (NetAt, Log, NetAction))
        requires
            self@.at is Waiting,
        ensures
            (r.0, r.1@, r.2@) == net_turn(self@, *reply),
    {
        let mut log = Log::new();
        let ip = dotted_string(self.box_ip);
        if fine(reply) {
            log.resolved(cat2("openHC is up at ", ip.as_str()));
        } else {
            log.warn(
                cat5(
                    "no SSH from ",
                    ip.as_str(),
                    " within ",
                    dec_string(LOGIN_WAIT_SECS).as_str(),
                    "s. It may still be booting, or came up on a different address — watch the serial console for its login.",
                ),
            );
        }
        (NetAt::Ended, log, NetAction::Done)
    }

    fn starting(&self, reply: &NetReply) -> (r: (NetAt, Log, NetAction))
        requires
            self@.at is Start || self@.at is Staged || self@.at is Bootp || self@.at is Tftp || self@.at
                is Serial,
        ensures
            (r.0, r.1@, r.2@) == net_turn(self@, *reply),
    {
        let mut log = Log::new();
        match self.at {
            NetAt::Start => {
                return (NetAt::Staged, log, NetAction::Stage);
            },
            NetAt::Staged => {
                if fine(reply) {
                    log.detail(
                        cat5(
                            "staged bzImage (",
                            dec_string(self.kernel_len).as_str(),
                            " B) and rootfs.cpio.gz (",
                            dec_string(self.initrd_len).as_str(),
                            " B) for TFTP",
                        ),
                    );
                    return (
                        NetAt::Bootp,
                        log,
                        NetAction::StartBootp {
                            mac: self.mac,
                            offer: self.box_ip,
                            server: self.server_ip,
                        },
                    );
                }
            },
            NetAt::Bootp => {
                if fine(reply) {
                    return (NetAt::Tftp, log, NetAction::StartTftp);
                }
                return (NetAt::Ended, log, NetAction::Failed(unbound("BOOTP", 67, reply)));
            },
            NetAt::Tftp => {
                if fine(reply) {
                    log.step(
                        cat2(
                            "serving bzImage/rootfs.cpio.gz over TFTP and answering BOOTP for ",
                            self.mac_text.as_str(),
                        ),
                    );
                    return (NetAt::Serial, log, NetAction::OpenSerial);
                }
                return (NetAt::Ended, log, NetAction::Failed(unbound("TFTP", 69, reply)));
            },
            _ => {
                if fine(reply) {
                    log.detail(
                        cat5(
                            "opened ",
                            self.serial_dev.as_str(),
                            " at ",
                            dec_string(CEFDK_BAUD as u64).as_str(),
                            " 8N1",
                        ),
                    );
                    return (NetAt::Shell, log, NetAction::DriveToShell);
                }
            },
        }
        (NetAt::Ended, log, NetAction::Failed(words(reply)))
    }

    /// Take what came of the last action and say what follows.
    pub fn next(&mut self, reply: NetReply) -> (r: (Log, NetAction))
        requires
            old(self)@.wf(),
        ensures
            final(self)@.wf(),
            (final(self)@.at, r.0@, r.1@) == net_turn(old(self)@, reply),
            final(self)@ == (NetModel { at: final(self)@.at, ..old(self)@ }),
    {
        let (at, log, action) = match self.at {
            NetAt::Shell => match &reply {
                NetReply::Reached(true) => self.type_line(0),
                NetReply::Reached(false) => (NetAt::GaveUp, Log::new(), NetAction::StopServers),
                _ => (NetAt::Ended, Log::new(), NetAction::Failed(words(&reply))),
            },
            NetAt::Typing(n) => {
                if fine(&reply) {
                    self.type_line(n)
                } else {
                    (NetAt::Ended, Log::new(), NetAction::Failed(words(&reply)))
                }
            },
            NetAt::GaveUp => (
                NetAt::Ended,
                Log::new(),
                NetAction::Failed(
                    cat3(
                        "did not reach the CEFDK shell within ",
                        dec_string(SHELL_DEADLINE_SECS).as_str(),
                        "s — check the serial cable and that the ID button was held through the power cycle",
                    ),
                ),
            ),
            NetAt::Stopped => {
                if self.wait {
                    let mut log = Log::new();
                    log.step(
                        cat4(
                            "waiting up to ",
                            dec_string(LOGIN_WAIT_SECS).as_str(),
                            "s for openHC to answer SSH at ",
                            dotted_string(self.box_ip).as_str(),
                        ),
                    );
                    (
                        NetAt::Waiting,
                        log,
                        NetAction::WaitForLogin { ip: self.box_ip, secs: LOGIN_WAIT_SECS },
                    )
                } else {
                    (NetAt::Ended, Log::new(), NetAction::Done)
                }
            },
            NetAt::Waiting => self.waited(&reply),
            NetAt::Ended => (NetAt::Ended, Log::new(), NetAction::Done),
            _ => self.starting(&reply),
        };
        self.at = at;
        (log, action)
    }
}

/// Nothing is typed at the console unless the shell was reached, and then the
/// lines are typed in order, each after the one before it went out.
pub proof fn law_lines_are_typed_only_at_the_shell(m: NetModel, r: NetReply)
    requires
        m.wf(),
    ensures
        net_turn(m, r).2 matches ActionModel::Type { line, gap_ms: g } ==> {
            ||| m.at is Shell && r == NetReply::Reached(true) && line == m.cmds[0]
            ||| m.at matches NetAt::Typing(n) && is_fine(r) && line == m.cmds[n as int]
        },
{
}

/// The lines to type make the loader take the box's address, fetch the two images
/// under the names they are served by from the server that serves them, and boot
/// the one as the kernel with the other, whole, as its ramdisk.
pub open spec fn boots_what_is_served(m: NetModel, cmdline: Seq<char>) -> bool {
    let b = ran(m.cmds);
    &&& b.address == Some(dotted(m.box_ip))
    &&& b.booted == Some(cmdline)
    &&& b.fresh
    &&& b.kernel_base() matches Some(base) && b.fetched.dom().contains(base) && b.fetched[base] == (
        dotted(m.server_ip),
        "bzImage"@,
    )
    &&& b.ramdisk() matches Some((at, len)) && b.fetched.dom().contains(at) && b.fetched[at] == (
        dotted(m.server_ip),
        "rootfs.cpio.gz"@,
    ) && len == m.initrd_len
}

proof fn lemma_boots(server: Seq<u8>, target: Seq<u8>, initrd_len: nat, cmdline: Seq<char>)
    requires
        server.len() == 4,
        target.len() == 4,
    ensures
        forall|m: NetModel|
            m.server_ip == server && m.box_ip == target && m.initrd_len == initrd_len && m.cmds == ramboot_model(
                dotted(server),
                dotted(target),
                KERNEL_NAME@,
                INITRD_NAME@,
                initrd_len,
                cmdline,
            ) ==> #[trigger] boots_what_is_served(m, cmdline),
{
    reveal_strlit("bzImage");
    reveal_strlit("rootfs.cpio.gz");
    crate::transport::wire::law_a_dotted_address_reads_back(server);
    crate::transport::wire::law_a_dotted_address_reads_back(target);
    law_netboot_boots_what_it_fetched(
        dotted(server),
        dotted(target),
        KERNEL_NAME@,
        INITRD_NAME@,
        initrd_len,
        cmdline,
    );
}

/// Every part of the flow speaks of the same box: the address that is offered to its
/// hardware address is the one it is told to take, the server that is named is the one
/// it fetches from, and the login is awaited at that address.
pub proof fn law_every_part_speaks_of_the_same_box(m: NetModel, cmdline: Seq<char>, r: NetReply)
    requires
        boots_what_is_served(m, cmdline),
    ensures
        net_turn(m, r).2 matches ActionModel::StartBootp { mac, offer, server } ==> mac == m.mac && ran(m.cmds).address
            == Some(dotted(offer)) && ran(m.cmds).fetched[ran(m.cmds).kernel_base()->0].0 == dotted(server),
        net_turn(m, r).2 matches ActionModel::WaitForLogin { ip, secs } ==> ran(m.cmds).address == Some(dotted(ip)) && m.wait,
{
}

/// The lines are typed one after the other, none left out and none twice, and the
/// servers stop only after the last. A transfer is given more time than a setting.
pub proof fn law_the_lines_are_typed_in_order(m: NetModel, n: nat, server: Seq<char>, to: nat, name: Seq<char>)
    requires
        n <= m.cmds.len(),
        n <= usize::MAX - 1,
    ensures
        ({
            let (at, _, act) = net_turn(NetModel { at: NetAt::Typing(n as usize), ..m }, NetReply::Fine);
            &&& n < m.cmds.len() ==> at == NetAt::Typing((n + 1) as usize) && act is Type && act->line == m.cmds[n as int]
            &&& n == m.cmds.len() ==> at is Stopped && act is StopServers
        }),
        gap_ms(crate::flasher::cefdk::cmd_tftp_get(server, to, name)) == 3000,
        gap_ms(crate::flasher::cefdk::cmd_ord4(to, to)) == 300,
{
    let g = crate::flasher::cefdk::cmd_tftp_get(server, to, name);
    let o = crate::flasher::cefdk::cmd_ord4(to, to);
    reveal_strlit("tftp get");
    reveal_strlit("tftp get ");
    reveal_strlit("ord4 ");
    assert(g.subrange(0, 8) =~= "tftp get"@);
    if starts_with(o, "tftp get"@) {
        assert(o.subrange(0, 8)[0] == 'o');
    }
}

} // verus!
