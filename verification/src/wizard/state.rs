//! Everything the window renders and the background jobs produce.
use crate::engine::flow::{Event, EventModel};
use crate::engine::updates::{GhRelease, ReleaseModel};
use crate::flasher::board::{opt_model, Board, BoardModel, Identity, IdentityModel, Running};
use crate::flasher::method::{choose_method, chosen, order, Method};
use crate::num::{dec, dec_string};
use crate::text::{cat2, cat3, cat4, from_chars, opt, strings, to_chars, trim, trimmed};
use vstd::prelude::*;
use vstd::string::*;

verus! {

/// How long to wait for the controller to come back after the stage-1 reboot.
pub const REBOOT_WAIT: u64 = 300;

#[derive(Debug, Clone, Copy, PartialEq, Eq, Structural)]
pub enum Lvl {
    Step,
    Detail,
    Warn,
}

/// Where an install has got to. `Restarting` is the only working phase with a
/// real deadline behind it.
#[derive(Debug, Clone, Copy, PartialEq, Eq, Structural)]
pub enum Phase {
    Writing,
    Restarting,
    Finishing,
    Done,
    Failed,
}

#[derive(Debug, Clone, Copy, PartialEq, Eq, Structural)]
pub enum Step {
    Find,
    Check,
    Images,
    Install,
}

impl Step {
    pub open spec fn title_spec(self) -> Seq<char> {
        match self {
            Step::Find => "Find"@,
            Step::Check => "Check"@,
            Step::Images => "Release"@,
            Step::Install => "Install"@,
        }
    }

    pub fn title(self) -> (r: &'static str)
        ensures
            r@ == self.title_spec(),
    {
        match self {
            Step::Find => "Find",
            Step::Check => "Check",
            Step::Images => "Release",
            Step::Install => "Install",
        }
    }
}

// ----------------------------------------------------------------------------- units

/// A unit found on the network, plus whatever a login could tell about it.
#[derive(Debug)]
pub struct Unit {
    pub ip: String,
    pub mac: Option<String>,
    /// Answered the director search: a positive controller id that holds even
    /// before there is a login.
    pub sddp: bool,
    pub hostname: Option<String>,
    pub running: Option<Running>,
    pub board: Option<&'static Board>,
    /// The probe has finished, whether or not it learned anything.
    pub probed: bool,
    /// Why it learned nothing.
    pub note: Option<String>,
}

pub ghost struct UnitModel {
    pub ip: Seq<char>,
    pub mac: Option<Seq<char>>,
    pub sddp: bool,
    pub hostname: Option<Seq<char>>,
    pub running: Option<Running>,
    pub board: Option<BoardModel>,
    pub probed: bool,
    pub note: Option<Seq<char>>,
}

impl View for Unit {
    type V = UnitModel;

    open spec fn view(&self) -> UnitModel {
        UnitModel {
            ip: self.ip@,
            mac: opt(self.mac),
            sddp: self.sddp,
            hostname: opt(self.hostname),
            running: self.running,
            board: opt_model(self.board),
            probed: self.probed,
            note: opt(self.note),
        }
    }
}

/// The models of a list of units.
pub open spec fn units(v: Seq<Unit>) -> Seq<UnitModel> {
    v.map_values(|u: Unit| u@)
}

pub open spec fn running_words(r: Running) -> Seq<char> {
    match r {
        Running::Stock => "the original Control4 software"@,
        Running::Openhc => "openHC (already installed)"@,
        Running::Cefdk => "no operating system (bootloader only)"@,
        Running::Unknown => "unknown"@,
    }
}

pub fn running_text(r: Running) -> (s: &'static str)
    ensures
        s@ == running_words(r),
{
    match r {
        Running::Stock => "the original Control4 software",
        Running::Openhc => "openHC (already installed)",
        Running::Cefdk => "no operating system (bootloader only)",
        Running::Unknown => "unknown",
    }
}

impl UnitModel {
    pub open spec fn firmware(self) -> Seq<char> {
        if !self.probed {
            "checking…"@
        } else {
            match self.running {
                Some(r) => running_words(r),
                None => if self.sddp {
                    "Control4 (needs a password to read more)"@
                } else {
                    match self.note {
                        Some(n) => n,
                        None => "unknown"@,
                    }
                },
            }
        }
    }
}

impl Unit {
    /// What this unit is running, in plain language.
    pub fn firmware(&self) -> (r: String)
        ensures
            r@ == self@.firmware(),
    {
        if !self.probed {
            return String::from_str("checking…");
        }
        match self.running {
            Some(r) => String::from_str(running_text(r)),
            None => {
                if self.sddp {
                    String::from_str("Control4 (needs a password to read more)")
                } else {
                    match &self.note {
                        Some(n) => n.clone(),
                        None => String::from_str("unknown"),
                    }
                }
            },
        }
    }
}

/// A connected, identified controller.
#[derive(Debug)]
pub struct Conn {
    pub host: String,
    pub id: Identity,
    /// The openHC version the box reports, if it runs openHC at all.
    pub installed_version: Option<String>,
}

pub ghost struct ConnModel {
    pub host: Seq<char>,
    pub id: IdentityModel,
    pub installed_version: Option<Seq<char>>,
}

impl View for Conn {
    type V = ConnModel;

    open spec fn view(&self) -> ConnModel {
        ConnModel { host: self.host@, id: self.id@, installed_version: opt(self.installed_version) }
    }
}

/// A release that has been read and checked. No problems means flashable.
#[derive(Debug)]
pub struct RelInfo {
    pub source: String,
    pub kernel_len: u64,
    pub problems: Vec<String>,
    pub names: Vec<String>,
}

pub ghost struct RelInfoModel {
    pub source: Seq<char>,
    pub kernel_len: u64,
    pub problems: Seq<Seq<char>>,
    pub names: Seq<Seq<char>>,
}

impl View for RelInfo {
    type V = RelInfoModel;

    open spec fn view(&self) -> RelInfoModel {
        RelInfoModel {
            source: self.source@,
            kernel_len: self.kernel_len,
            problems: strings(self.problems@),
            names: strings(self.names@),
        }
    }
}

// ---------------------------------------------------------------------------- wizard

/// The wizard: what the user typed and picked, and what the jobs produced.
#[derive(Debug)]
pub struct Wizard {
    pub step: Step,
    /// The address to install to. A discovered row fills this in, so there is one
    /// source of truth whether the user clicked or typed.
    pub host: String,
    /// Root password to try first.
    pub password: String,
    pub images: String,
    /// Set when the user overrides an ambiguous or wrong identification.
    pub forced: Option<&'static Board>,
    pub details: bool,
    pub self_install: bool,
    /// What is running right now; also gates every button.
    pub busy: Option<String>,
    pub log: Vec<(Lvl, String)>,
    pub found: Vec<Unit>,
    pub scanned: bool,
    pub conn: Option<Conn>,
    pub connect_error: Option<String>,
    pub rel_info: Option<RelInfo>,
    pub rel_error: Option<String>,
    pub phase: Option<Phase>,
    pub error: Option<String>,
    /// So much of the reboot wait has passed, of so much.
    pub wait: Option<(u64, u64)>,
    /// Stage 1 finished, so a failure afterwards is resumable with stage 2 alone.
    pub stage1_done: bool,
    /// The latest published release, fetched once in the background.
    pub latest: Option<GhRelease>,
    pub latest_error: Option<String>,
    pub checked_latest: bool,
    /// A one-line banner.
    pub notice: Option<String>,
}

pub ghost struct WizardModel {
    pub step: Step,
    pub host: Seq<char>,
    pub password: Seq<char>,
    pub images: Seq<char>,
    pub forced: Option<BoardModel>,
    pub details: bool,
    pub self_install: bool,
    pub busy: Option<Seq<char>>,
    pub log: Seq<(Lvl, Seq<char>)>,
    pub found: Seq<UnitModel>,
    pub scanned: bool,
    pub conn: Option<ConnModel>,
    pub connect_error: Option<Seq<char>>,
    pub rel_info: Option<RelInfoModel>,
    pub rel_error: Option<Seq<char>>,
    pub phase: Option<Phase>,
    pub error: Option<Seq<char>>,
    pub wait: Option<(u64, u64)>,
    pub stage1_done: bool,
    pub latest: Option<ReleaseModel>,
    pub latest_error: Option<Seq<char>>,
    pub checked_latest: bool,
    pub notice: Option<Seq<char>>,
}

pub open spec fn log_model(v: Seq<(Lvl, String)>) -> Seq<(Lvl, Seq<char>)> {
    v.map_values(|l: (Lvl, String)| (l.0, l.1@))
}

pub open spec fn opt_conn(o: Option<Conn>) -> Option<ConnModel> {
    match o {
        Some(c) => Some(c@),
        None => None,
    }
}

pub open spec fn opt_rel(o: Option<RelInfo>) -> Option<RelInfoModel> {
    match o {
        Some(c) => Some(c@),
        None => None,
    }
}

pub open spec fn opt_release(o: Option<GhRelease>) -> Option<ReleaseModel> {
    match o {
        Some(c) => Some(c@),
        None => None,
    }
}

impl View for Wizard {
    type V = WizardModel;

    open spec fn view(&self) -> WizardModel {
        WizardModel {
            step: self.step,
            host: self.host@,
            password: self.password@,
            images: self.images@,
            forced: opt_model(self.forced),
            details: self.details,
            self_install: self.self_install,
            busy: opt(self.busy),
            log: log_model(self.log@),
            found: units(self.found@),
            scanned: self.scanned,
            conn: opt_conn(self.conn),
            connect_error: opt(self.connect_error),
            rel_info: opt_rel(self.rel_info),
            rel_error: opt(self.rel_error),
            phase: self.phase,
            error: opt(self.error),
            wait: self.wait,
            stage1_done: self.stage1_done,
            latest: opt_release(self.latest),
            latest_error: opt(self.latest_error),
            checked_latest: self.checked_latest,
            notice: opt(self.notice),
        }
    }
}

impl WizardModel {
    /// The board to install for: an override if the user set one, else whatever
    /// identification found.
    pub open spec fn board(self) -> Option<BoardModel> {
        match self.forced {
            Some(b) => Some(b),
            None => match self.conn {
                Some(c) => c.id.board,
                None => None,
            },
        }
    }

    pub open spec fn idle(self) -> bool {
        self.busy is None
    }

    pub open spec fn logged(self, lvl: Lvl, text: Seq<char>) -> WizardModel {
        WizardModel { log: self.log.push((lvl, text)), ..self }
    }
}

impl Wizard {
    /// A fresh window, with a path to a release where one is known.
    pub fn new(images: &str) -> (r: Wizard)
        ensures
            r@ == fresh(images@),
    {
        let r = Wizard {
            step: Step::Find,
            host: String::from_str(""),
            password: String::from_str(""),
            images: String::from_str(images),
            forced: None,
            details: false,
            self_install: false,
            busy: None,
            log: Vec::new(),
            found: Vec::new(),
            scanned: false,
            conn: None,
            connect_error: None,
            rel_info: None,
            rel_error: None,
            phase: None,
            error: None,
            wait: None,
            stage1_done: false,
            latest: None,
            latest_error: None,
            checked_latest: false,
            notice: None,
        };
        assert(log_model(r.log@) =~= seq![]);
        assert(units(r.found@) =~= seq![]);
        r
    }

    pub fn board(&self) -> (r: Option<&'static Board>)
        ensures
            opt_model(r) == self@.board(),
    {
        match self.forced {
            Some(b) => Some(b),
            None => match &self.conn {
                Some(c) => c.id.board,
                None => None,
            },
        }
    }

    pub fn push(&mut self, lvl: Lvl, text: &str)
        ensures
            final(self)@ == old(self)@.logged(lvl, text@),
    {
        let ghost was = log_model(self.log@);
        self.log.push((lvl, String::from_str(text)));
        assert(log_model(self.log@) =~= was.push((lvl, text@)));
    }

    /// Note down what a flow tells.
    pub fn note(&mut self, e: &Event)
        ensures
            final(self)@ == old(self)@.logged(log_line(e@).0, log_line(e@).1),
    {
        match e {
            Event::Step(t) => self.push(Lvl::Step, t.as_str()),
            Event::Resolved(t) => self.push(Lvl::Step, t.as_str()),
            Event::Detail(t) => self.push(Lvl::Detail, t.as_str()),
            Event::Observed(t) => self.push(Lvl::Detail, t.as_str()),
            Event::Warn(t) => self.push(Lvl::Warn, t.as_str()),
            Event::Await { title, instruction } => {
                let t = cat3(title.as_str(), "\n", instruction.as_str());
                self.push(Lvl::Warn, t.as_str());
            },
        }
    }
}

/// An event of a flow in the log. What waits for the user stands out as a warning.
pub open spec fn log_line(e: EventModel) -> (Lvl, Seq<char>) {
    match e {
        EventModel::Step(t) => (Lvl::Step, t),
        EventModel::Resolved(t) => (Lvl::Step, t),
        EventModel::Detail(t) => (Lvl::Detail, t),
        EventModel::Observed(t) => (Lvl::Detail, t),
        EventModel::Warn(t) => (Lvl::Warn, t),
        EventModel::Await { title, instruction } => (Lvl::Warn, title + "\n"@ + instruction),
    }
}

pub open spec fn fresh(images: Seq<char>) -> WizardModel {
    WizardModel {
        step: Step::Find,
        host: ""@,
        password: ""@,
        images,
        forced: None,
        details: false,
        self_install: false,
        busy: None,
        log: seq![],
        found: seq![],
        scanned: false,
        conn: None,
        connect_error: None,
        rel_info: None,
        rel_error: None,
        phase: None,
        error: None,
        wait: None,
        stage1_done: false,
        latest: None,
        latest_error: None,
        checked_latest: false,
        notice: None,
    }
}

// ------------------------------------------------------------------------------ gate

/// One board beyond doubt, with the running state the box reported.
pub open spec fn as_board(b: BoardModel, running: Running, raw: Seq<(Seq<char>, Seq<char>)>) -> IdentityModel {
    IdentityModel { board: Some(b), candidates: seq![b], running, version: None, raw }
}

/// The method that installs on a board.
pub open spec fn method_for(b: BoardModel, running: Running) -> Option<Method> {
    chosen(order(), as_board(b, running, seq![]), None)
}

/// Why the wizard cannot move on from a step.
pub open spec fn obstacle(
    step: Step,
    host: Seq<char>,
    id: Option<IdentityModel>,
    board: Option<BoardModel>,
    rel: Option<RelInfoModel>,
) -> Option<Seq<char>> {
    match step {
        Step::Find => if trim(host).len() == 0 {
            Some("Scan, or type the controller's address"@)
        } else {
            None
        },
        Step::Check => match id {
            None => Some("Connect to the controller"@),
            Some(i) => match if board is Some {
                board
            } else {
                i.board
            } {
                None => Some("Choose the controller's model"@),
                Some(b) => match method_for(b, i.running) {
                    Some(m) => if m == Method::Network {
                        None
                    } else {
                        Some("the "@ + m.name_spec() + " method is command-line only"@)
                    },
                    None => Some("no install method applies to this controller"@),
                },
            },
        },
        Step::Images => match rel {
            None => Some("Choose a release"@),
            Some(r) => if r.problems.len() > 0 {
                Some("This release cannot be installed"@)
            } else {
                None
            },
        },
        Step::Install => None,
    }
}

/// The identity a method is chosen for: an override replaces what was detected,
/// but the running state still comes from the box.
pub fn identity_for(b: &'static Board, running: Running) -> (r: Identity)
    ensures
        r@ == as_board(b@, running, seq![]),
{
    let mut v: Vec<&'static Board> = Vec::new();
    v.push(b);
    assert(crate::flasher::board::models(v@) =~= seq![b@]);
    let r = Identity { board: Some(b), candidates: v, running, version: None, raw: Vec::new() };
    assert(crate::flasher::board::pairs(r.raw@) =~= seq![]);
    r
}

pub open spec fn opt_identity(o: Option<&Identity>) -> Option<IdentityModel> {
    match o {
        Some(i) => Some(i@),
        None => None,
    }
}

pub open spec fn opt_rel_ref(o: Option<&RelInfo>) -> Option<RelInfoModel> {
    match o {
        Some(i) => Some(i@),
        None => None,
    }
}

/// Why the wizard cannot move on. The rules that stop an install, no board, wrong
/// family, a bad release, are all here.
pub fn gate(
    step: Step,
    host: &str,
    id: Option<&Identity>,
    board: Option<&'static Board>,
    rel: Option<&RelInfo>,
) -> (r: Option<String>)
    ensures
        opt(r) == obstacle(step, host@, opt_identity(id), opt_model(board), opt_rel_ref(rel)),
{
    match step {
        Step::Find => {
            let c = to_chars(host);
            if trimmed(c.as_slice()).len() == 0 {
                Some(String::from_str("Scan, or type the controller's address"))
            } else {
                None
            }
        },
        Step::Check => {
            let i = match id {
                Some(i) => i,
                None => {
                    return Some(String::from_str("Connect to the controller"));
                },
            };
            let b = match board {
                Some(b) => b,
                None => match i.board {
                    Some(b) => b,
                    None => {
                        return Some(String::from_str("Choose the controller's model"));
                    },
                },
            };
            let probe = identity_for(b, i.running);
            let (m, _) = choose_method(&probe, None);
            match m {
                Some(m) => {
                    if m == Method::Network {
                        None
                    } else {
                        Some(cat3("the ", m.name(), " method is command-line only"))
                    }
                },
                None => Some(String::from_str("no install method applies to this controller")),
            }
        },
        Step::Images => match rel {
            None => Some(String::from_str("Choose a release")),
            Some(r) => {
                assert(r@.problems.len() == r.problems@.len());
                if r.problems.len() > 0 {
                    Some(String::from_str("This release cannot be installed"))
                } else {
                    None
                }
            },
        },
        Step::Install => None,
    }
}

impl WizardModel {
    /// Why `Next` is unavailable; nothing when the step is satisfied.
    pub open spec fn blocker(self) -> Option<Seq<char>> {
        obstacle(
            self.step,
            self.host,
            match self.conn {
                Some(c) => Some(c.id),
                None => None,
            },
            self.board(),
            self.rel_info,
        )
    }
}

impl Wizard {
    pub fn blocker(&self) -> (r: Option<String>)
        ensures
            opt(r) == self@.blocker(),
    {
        let id = match &self.conn {
            Some(c) => Some(&c.id),
            None => None,
        };
        let rel = match &self.rel_info {
            Some(r) => Some(r),
            None => None,
        };
        gate(self.step, self.host.as_str(), id, self.board(), rel)
    }
}

/// Nothing is let past the check before the box has been identified and its
/// board is known, be it detected or chosen.
pub proof fn law_no_board_stops_the_check(
    host: Seq<char>,
    id: Option<IdentityModel>,
    board: Option<BoardModel>,
    rel: Option<RelInfoModel>,
)
    ensures
        obstacle(Step::Check, host, id, board, rel) is None ==> id is Some && (board is Some || id->0.board is Some),
{
}

/// A board that the wizard does not drive is never let past the check.
pub proof fn law_only_network_boards_pass_the_check(
    host: Seq<char>,
    id: IdentityModel,
    b: BoardModel,
    rel: Option<RelInfoModel>,
)
    requires
        obstacle(Step::Check, host, Some(id), Some(b), rel) is None,
    ensures
        method_for(b, id.running) == Some(Method::Network),
        b.family == crate::flasher::board::Family::Ea,
{
    crate::flasher::method::law_chosen_method_fits_the_family(as_board(b, id.running, seq![]), None);
}

/// A release with a problem is never let through.
pub proof fn law_a_bad_release_is_stopped(
    host: Seq<char>,
    id: Option<IdentityModel>,
    b: Option<BoardModel>,
    rel: RelInfoModel,
)
    ensures
        obstacle(Step::Images, host, id, b, Some(rel)) is None <==> rel.problems.len() == 0,
{
}

// --------------------------------------------------------------------------- helpers

/// The password the user typed, if any: blank means none.
pub open spec fn typed_passwords(typed: Seq<char>) -> Seq<Seq<char>> {
    let t = trim(typed);
    if t.len() == 0 {
        seq![]
    } else {
        seq![t]
    }
}

/// The passwords to try ahead of the built-in logins.
pub fn extra_passwords(typed: &str) -> (r: Vec<String>)
    ensures
        strings(r@) == typed_passwords(typed@),
{
    let c = to_chars(typed);
    let t = trimmed(c.as_slice());
    let mut v: Vec<String> = Vec::new();
    if t.len() > 0 {
        let s = from_chars(t);
        v.push(s);
        assert(strings(v@) =~= seq![s@]);
    } else {
        assert(strings(v@) =~= seq![]);
    }
    v
}

/// A count as a double holds it: 53 bits, the nearest, ties to even.
pub open spec fn in_double(n: nat, unit: nat) -> nat
    decreases n / unit,
    when unit > 0
    via in_double_shrinks
{
    if n / unit < 0x20_0000_0000_0000 {
        nearest(n, unit) * unit
    } else {
        in_double(n, unit * 2)
    }
}

#[via_fn]
proof fn in_double_shrinks(n: nat, unit: nat) {
    if unit > 0 && n / unit >= 0x20_0000_0000_0000 {
        assert(n / (unit * 2) < n / unit) by (nonlinear_arith)
            requires
                unit > 0,
                n / unit >= 1,
        ;
    }
}

/// A quotient to the nearest, ties to even.
pub open spec fn nearest(n: nat, d: nat) -> nat {
    let q = n / d;
    let r = n % d;
    if r * 2 > d || (r * 2 == d && q % 2 == 1) {
        q + 1
    } else {
        q
    }
}

pub open spec fn tenths_text(t: nat) -> Seq<char> {
    dec(t / 10) + "."@ + dec(t % 10)
}

/// A size as a person would write it.
pub open spec fn size_text(n: nat) -> Seq<char> {
    if n >= 0x10_0000 {
        tenths_text(nearest(in_double(n, 1) * 10, 0x10_0000)) + " MB"@
    } else if n >= 1024 {
        dec(nearest(n, 1024)) + " KB"@
    } else {
        dec(n) + " B"@
    }
}

fn nearest_of(n: u128, d: u128) -> (r: u128)
    requires
        0 < d < 0x1000_0000_0000_0000_0000_0000,
        n < 0x1000_0000_0000_0000_0000_0000,
    ensures
        r == nearest(n as nat, d as nat),
        r <= n / d + 1,
{
    let q: u128 = n / d;
    let rest: u128 = n % d;
    assert(q <= n) by (nonlinear_arith)
        requires
            q == n / d,
            d > 0,
    ;
    if rest * 2 > d || (rest * 2 == d && q % 2 == 1) {
        q + 1
    } else {
        q
    }
}

fn double_of(n: u64) -> (r: u128)
    ensures
        r == in_double(n as nat, 1),
        r <= 0x2_0000_0000_0000_0000,
{
    let mut unit: u128 = 1;
    let big: u128 = n as u128;
    assert(big / 1 == big);
    while big / unit >= 0x20_0000_0000_0000
        invariant
            big == n,
            1 <= unit <= 0x8000,
            in_double(n as nat, 1) == in_double(n as nat, unit as nat),
        decreases 0x1_0000 - unit,
    {
        assert(unit <= 0x7ff) by (nonlinear_arith)
            requires
                big / unit >= 0x20_0000_0000_0000,
                big <= 0xffff_ffff_ffff_ffff,
                unit >= 1,
        ;
        unit = unit * 2;
    }
    let m = nearest_of(big, unit);
    assert(m * unit <= 0x2_0000_0000_0000_0000) by (nonlinear_arith)
        requires
            m <= big / unit + 1,
            big <= 0xffff_ffff_ffff_ffff,
            1 <= unit <= 0x8000,
    ;
    m * unit
}

/// A size as a person would write it.
pub fn fmt_bytes(n: u64) -> (r: String)
    ensures
        r@ == size_text(n as nat),
{
    if n >= 0x10_0000 {
        let t: u128 = nearest_of(double_of(n) * 10, 0x10_0000);
        assert(t <= 0x2_0000_0000_0000_0000 * 10 / 0x10_0000 + 1);
        let whole = dec_string((t / 10) as u64);
        let tenth = dec_string((t % 10) as u64);
        cat4(whole.as_str(), ".", tenth.as_str(), " MB")
    } else if n >= 1024 {
        let k: u128 = nearest_of(n as u128, 1024);
        cat2(dec_string(k as u64).as_str(), " KB")
    } else {
        cat2(dec_string(n).as_str(), " B")
    }
}

} // verus!
