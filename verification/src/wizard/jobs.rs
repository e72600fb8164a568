//! What pressing a button does, and what comes of the jobs it starts.
//!
//! A job runs in the background; the wizard is busy from its start until its
//! result is taken in here.
use crate::engine::release::Release;
use crate::engine::updates::first_flasher;
use crate::flasher::board::{by_name, lookup, opt_str, pairs, Identity, IdentityModel};
use crate::flasher::image::{ea_complaints, ea_problems};
use crate::num::{dec, dec_string};
use crate::text::{
    cat2, cat3, from_chars, join, joined, lines, lines_of, opt, same, slices, strings, strip_prefix, strip_prefix_str,
    to_chars, trim, trim_both, trim_of, trim_str, trimmed, Class,
};
use crate::transport::discovery::Found;
use crate::wizard::page::{Action, ActionModel};
use crate::wizard::state::{
    extra_passwords, log_model, typed_passwords, units, Conn, ConnModel, Lvl, Phase, REBOOT_WAIT, RelInfo,
    RelInfoModel, Step, Unit, UnitModel, Wizard, WizardModel,
};
use vstd::prelude::*;
use vstd::slice::slice_subrange;
use vstd::string::*;

verus! {

/// Background work, and what the window itself has to do.
#[derive(Debug)]
pub enum Job {
    Nothing,
    Scan,
    Connect { host: String, passwords: Vec<String> },
    Load { path: String },
    Install { host: String, secure_boot: bool, self_install: bool, finish_only: bool },
    /// Fetch an asset: its address and its name.
    Download { url: String, name: String },
    Update { url: String, name: String },
    /// Let the user pick a file, or else a folder.
    Browse,
    Folder,
    Copy { text: String },
}

pub ghost enum JobModel {
    Nothing,
    Scan,
    Connect { host: Seq<char>, passwords: Seq<Seq<char>> },
    Load { path: Seq<char> },
    Install { host: Seq<char>, secure_boot: bool, self_install: bool, finish_only: bool },
    Download { url: Seq<char>, name: Seq<char> },
    Update { url: Seq<char>, name: Seq<char> },
    Browse,
    Folder,
    Copy { text: Seq<char> },
}

impl View for Job {
    type V = JobModel;

    open spec fn view(&self) -> JobModel {
        match self {
            Job::Nothing => JobModel::Nothing,
            Job::Scan => JobModel::Scan,
            Job::Connect { host, passwords } => JobModel::Connect { host: host@, passwords: strings(passwords@) },
            Job::Load { path } => JobModel::Load { path: path@ },
            Job::Install { host, secure_boot, self_install, finish_only } => JobModel::Install {
                host: host@,
                secure_boot: *secure_boot,
                self_install: *self_install,
                finish_only: *finish_only,
            },
            Job::Download { url, name } => JobModel::Download { url: url@, name: name@ },
            Job::Update { url, name } => JobModel::Update { url: url@, name: name@ },
            Job::Browse => JobModel::Browse,
            Job::Folder => JobModel::Folder,
            Job::Copy { text } => JobModel::Copy { text: text@ },
        }
    }
}

impl WizardModel {
    pub open spec fn busy_with(self, what: Seq<char>) -> WizardModel {
        WizardModel { busy: Some(what), ..self }
    }

    pub open spec fn idled(self) -> WizardModel {
        WizardModel { busy: None, ..self }
    }

    // ------------------------------------------------------------------ starting

    pub open spec fn scanning(self) -> (WizardModel, JobModel) {
        (
            WizardModel { found: seq![], scanned: false, ..self }.logged(
                Lvl::Step,
                "scanning the local network for Control4 hardware"@,
            ).busy_with("Scanning… this takes about half a minute"@),
            JobModel::Scan,
        )
    }

    pub open spec fn connecting(self) -> (WizardModel, JobModel) {
        let host = trim(self.host);
        (
            WizardModel { forced: None, conn: None, connect_error: None, ..self }.logged(
                Lvl::Step,
                "connecting to "@ + host,
            ).busy_with("Connecting…"@),
            JobModel::Connect { host, passwords: typed_passwords(self.password) },
        )
    }

    pub open spec fn loading(self) -> (WizardModel, JobModel) {
        let path = trim(self.images);
        (
            WizardModel { rel_info: None, rel_error: None, ..self }.logged(
                Lvl::Step,
                "reading release "@ + path,
            ).busy_with("Reading the release…"@),
            JobModel::Load { path },
        )
    }

    /// An install needs a board, a release and a connection; without one of them
    /// nothing happens.
    pub open spec fn installing(self, finish_only: bool) -> (WizardModel, JobModel) {
        match (self.board(), self.rel_info, self.conn) {
            (Some(b), Some(_), Some(c)) => (
                WizardModel {
                    error: None,
                    phase: Some(
                        if finish_only {
                            Phase::Restarting
                        } else {
                            Phase::Writing
                        },
                    ),
                    stage1_done: finish_only && self.stage1_done,
                    ..self
                }.busy_with("Installing…"@),
                JobModel::Install {
                    host: c.host,
                    secure_boot: b.secure_boot,
                    self_install: self.self_install,
                    finish_only,
                },
            ),
            _ => (self, JobModel::Nothing),
        }
    }

    pub open spec fn downloading(self) -> (WizardModel, JobModel) {
        match crate::wizard::steps::image_on_offer(self) {
            Some(a) => (
                self.logged(Lvl::Step, "downloading "@ + a.name).busy_with("Downloading the latest image…"@),
                JobModel::Download { url: a.url, name: a.name },
            ),
            None => (self, JobModel::Nothing),
        }
    }

    pub open spec fn updating(self, os: Seq<char>) -> (WizardModel, JobModel) {
        match self.latest {
            Some(r) => match first_flasher(r.assets, os) {
                Some(a) => (
                    WizardModel { notice: None, ..self }.logged(Lvl::Step, "downloading "@ + a.name).busy_with(
                        "Updating the flasher…"@,
                    ),
                    JobModel::Update { url: a.url, name: a.name },
                ),
                None => (self, JobModel::Nothing),
            },
            None => (self, JobModel::Nothing),
        }
    }

    /// Start over. The address, the release and the latest version stay.
    pub open spec fn reset(self) -> WizardModel {
        WizardModel {
            phase: None,
            error: None,
            stage1_done: false,
            conn: None,
            found: seq![],
            scanned: false,
            log: seq![],
            forced: None,
            step: Step::Find,
            ..self
        }
    }

    pub open spec fn back(self) -> WizardModel {
        WizardModel {
            step: match self.step {
                Step::Find | Step::Check => Step::Find,
                Step::Images => Step::Check,
                Step::Install => Step::Images,
            },
            ..self
        }
    }

    pub open spec fn next(self) -> (WizardModel, JobModel) {
        match self.step {
            Step::Find => WizardModel { step: Step::Check, ..self }.connecting(),
            Step::Check => (WizardModel { step: Step::Images, ..self }, JobModel::Nothing),
            Step::Images => (WizardModel { step: Step::Install, ..self }, JobModel::Nothing),
            Step::Install => (self, JobModel::Nothing),
        }
    }

    /// What an action does.
    pub open spec fn pressed(self, a: ActionModel, os: Seq<char>) -> (WizardModel, JobModel) {
        match a {
            ActionModel::Scan => self.scanning(),
            ActionModel::Pick(ip) => (WizardModel { host: ip, ..self }, JobModel::Nothing),
            ActionModel::Connect => self.connecting(),
            ActionModel::Force(name) => (WizardModel { forced: lookup(name), ..self }, JobModel::Nothing),
            ActionModel::Unforce => (WizardModel { forced: None, ..self }, JobModel::Nothing),
            ActionModel::ToggleDetails => (WizardModel { details: !self.details, ..self }, JobModel::Nothing),
            ActionModel::ToggleSelfInstall => (
                WizardModel { self_install: !self.self_install, ..self },
                JobModel::Nothing,
            ),
            ActionModel::Download => self.downloading(),
            ActionModel::Edited => if trim(self.images).len() > 0 {
                self.loading()
            } else {
                (self, JobModel::Nothing)
            },
            ActionModel::Browse => (self, JobModel::Browse),
            ActionModel::Folder => (self, JobModel::Folder),
            ActionModel::Load => self.loading(),
            ActionModel::Install => self.installing(false),
            ActionModel::Finish => self.installing(true),
            ActionModel::Reset => (self.reset(), JobModel::Nothing),
            ActionModel::Back => (self.back(), JobModel::Nothing),
            ActionModel::Next => self.next(),
            ActionModel::CopyLog => (self, JobModel::Copy { text: log_text(self.log) }),
            ActionModel::ClearLog => (WizardModel { log: seq![], ..self }, JobModel::Nothing),
            ActionModel::UpdateFlasher => self.updating(os),
        }
    }

    /// A release that arrived from outside: dropped on the window, picked, or
    /// downloaded.
    pub open spec fn given(self, path: Seq<char>) -> (WizardModel, JobModel) {
        WizardModel { images: path, step: Step::Images, ..self }.loading()
    }

    // ------------------------------------------------------------------ results

    pub open spec fn connect_failed(self, host: Seq<char>, reachable: bool) -> WizardModel {
        WizardModel {
            connect_error: Some(
                if reachable {
                    "Reached "@ + host
                        + ", but none of the passwords worked. A dealer-updated controller can have a calculated root password or SSH password login switched off. Enter the root password below and try again, or use the ohc-flash command line with an SSH key."@
                } else {
                    "Could not reach "@ + host
                        + " over SSH. Check the address, and that the controller is powered on and on this network."@
                },
            ),
            ..self.logged(Lvl::Warn, "no working login for "@ + host)
        }.idled()
    }

    pub open spec fn connected(self, c: ConnModel) -> WizardModel {
        let w = self.logged(Lvl::Step, c.host + ": "@ + c.id.describe());
        let w = match c.installed_version {
            Some(v) => w.logged(Lvl::Detail, "openHC version = "@ + v),
            None => w,
        };
        WizardModel { conn: Some(c), log: w.log + evidence(c.id.raw), ..w }.idled()
    }

    pub open spec fn load_failed(self, why: Seq<char>) -> WizardModel {
        WizardModel { rel_error: Some(why), ..self.logged(Lvl::Warn, why) }.idled()
    }

    pub open spec fn loaded(self, r: RelInfoModel) -> WizardModel {
        WizardModel {
            rel_info: Some(r),
            log: (self.log + r.problems.map_values(|p: Seq<char>| (Lvl::Warn, p))).push(
                (Lvl::Detail, "release holds: "@ + joined(r.names, ", "@)),
            ),
            ..self
        }.idled()
    }

    pub open spec fn installed(self, r: Result<(), Seq<char>>) -> WizardModel {
        match r {
            Ok(_) => WizardModel { wait: None, phase: Some(Phase::Done), ..self }.idled(),
            Err(e) => WizardModel {
                wait: None,
                error: Some(e),
                phase: Some(Phase::Failed),
                ..self.logged(Lvl::Warn, e)
            }.idled(),
        }
    }

    pub open spec fn downloaded(self, name: Seq<char>) -> WizardModel {
        self.logged(Lvl::Step, "downloaded "@ + name).idled()
    }

    pub open spec fn updated(self, msg: Seq<char>) -> WizardModel {
        WizardModel { notice: Some(msg), ..self.logged(Lvl::Step, msg) }.idled()
    }

    pub open spec fn scanned_units(self, v: Seq<UnitModel>) -> WizardModel {
        WizardModel {
            found: v,
            scanned: true,
            ..self.logged(Lvl::Step, "found "@ + dec(v.len()) + " unit(s); asking each what it is"@)
        }
    }

    pub open spec fn probed(self, ip: Seq<char>, hostname: Option<Seq<char>>, id: Option<IdentityModel>) -> WizardModel {
        WizardModel { found: probed_in(self.found, ip, hostname, id), ..self }.logged(
            Lvl::Detail,
            match id {
                Some(i) => ip + ": "@ + i.describe(),
                None => ip + ": no working login"@,
            },
        )
    }
}

/// The log as text, line by line.
pub open spec fn log_text(log: Seq<(Lvl, Seq<char>)>) -> Seq<char>
    decreases log.len(),
{
    if log.len() == 0 {
        ""@
    } else {
        log_text(log.drop_last()) + log.last().1 + "\n"@
    }
}

pub open spec fn evidence(raw: Seq<(Seq<char>, Seq<char>)>) -> Seq<(Lvl, Seq<char>)> {
    raw.map_values(|e: (Seq<char>, Seq<char>)| (Lvl::Detail, e.0 + " = "@ + trim(e.1)))
}

/// What a login told about a unit.
pub open spec fn probed_unit(u: UnitModel, hostname: Option<Seq<char>>, id: Option<IdentityModel>) -> UnitModel {
    let u = UnitModel { probed: true, hostname, ..u };
    match id {
        Some(i) => UnitModel { running: Some(i.running), board: i.board, ..u },
        None => UnitModel {
            note: Some(
                if u.sddp {
                    "needs a password"@
                } else {
                    "could not log in"@
                },
            ),
            ..u
        },
    }
}

/// The first unit with an address, and only it, learns what the login told.
pub open spec fn probed_in(
    v: Seq<UnitModel>,
    ip: Seq<char>,
    hostname: Option<Seq<char>>,
    id: Option<IdentityModel>,
) -> Seq<UnitModel>
    decreases v.len(),
{
    if v.len() == 0 {
        v
    } else if v[0].ip == ip {
        v.update(0, probed_unit(v[0], hostname, id))
    } else {
        seq![v[0]] + probed_in(v.skip(1), ip, hostname, id)
    }
}

fn log_as_text(log: &Vec<(Lvl, String)>) -> (r: String)
    ensures
        r@ == log_text(log_model(log@)),
{
    let ghost all = log_model(log@);
    let mut out = String::from_str("");
    let mut i: usize = 0;
    while i < log.len()
        invariant
            i <= log@.len(),
            all == log_model(log@),
            out@ == log_text(all.take(i as int)),
        decreases log@.len() - i,
    {
        assert(all.take(i + 1).drop_last() =~= all.take(i as int));
        assert(all.take(i + 1).last() == (log@[i as int].0, log@[i as int].1@));
        out.append(log[i].1.as_str());
        out.append("\n");
        i += 1;
    }
    assert(all.take(all.len() as int) =~= all);
    out
}

impl Wizard {
    fn work(&mut self, what: &str)
        ensures
            final(self)@ == old(self)@.busy_with(what@),
    {
        self.busy = Some(String::from_str(what));
    }

    fn scan(&mut self) -> (r: Job)
        ensures
            (final(self)@, r@) == old(self)@.scanning(),
    {
        self.found = Vec::new();
        assert(units(self.found@) =~= seq![]);
        self.scanned = false;
        self.push(Lvl::Step, "scanning the local network for Control4 hardware");
        self.work("Scanning… this takes about half a minute");
        Job::Scan
    }

    pub fn connect(&mut self) -> (r: Job)
        ensures
            (final(self)@, r@) == old(self)@.connecting(),
    {
        let host = trim_str(self.host.as_str());
        let passwords = extra_passwords(self.password.as_str());
        self.forced = None;
        self.conn = None;
        self.connect_error = None;
        let line = cat2("connecting to ", host.as_str());
        self.push(Lvl::Step, line.as_str());
        self.work("Connecting…");
        Job::Connect { host, passwords }
    }

    pub fn load_release(&mut self) -> (r: Job)
        ensures
            (final(self)@, r@) == old(self)@.loading(),
    {
        let path = trim_str(self.images.as_str());
        self.rel_info = None;
        self.rel_error = None;
        let line = cat2("reading release ", path.as_str());
        self.push(Lvl::Step, line.as_str());
        self.work("Reading the release…");
        Job::Load { path }
    }

    /// Run the install. `finish_only` resumes a run whose stage 1 already landed:
    /// the controller is in RAM and only needs its root filesystem.
    pub fn start_install(&mut self, finish_only: bool) -> (r: Job)
        ensures
            (final(self)@, r@) == old(self)@.installing(finish_only),
    {
        let b = match self.board() {
            Some(b) => b,
            None => {
                return Job::Nothing;
            },
        };
        if self.rel_info.is_none() {
            return Job::Nothing;
        }
        let host = match &self.conn {
            Some(c) => c.host.clone(),
            None => {
                return Job::Nothing;
            },
        };
        self.error = None;
        self.phase = if finish_only {
            Some(Phase::Restarting)
        } else {
            Some(Phase::Writing)
        };
        if !finish_only {
            self.stage1_done = false;
        }
        self.work("Installing…");
        Job::Install { host, secure_boot: b.secure_boot, self_install: self.self_install, finish_only }
    }

    /// Download the newest image for the board in hand, for a user who has not
    /// built anything.
    pub fn download_image(&mut self) -> (r: Job)
        ensures
            (final(self)@, r@) == old(self)@.downloading(),
    {
        let b = match self.board() {
            Some(b) => b,
            None => {
                return Job::Nothing;
            },
        };
        let (url, name) = match &self.latest {
            Some(rel) => match rel.image_asset(b.name) {
                Some(a) => (a.url.clone(), a.name.clone()),
                None => {
                    return Job::Nothing;
                },
            },
            None => {
                return Job::Nothing;
            },
        };
        let line = cat2("downloading ", name.as_str());
        self.push(Lvl::Step, line.as_str());
        self.work("Downloading the latest image…");
        Job::Download { url, name }
    }

    /// Download the newest flasher build, to swap this one for it.
    pub fn update_flasher(&mut self, os: &str) -> (r: Job)
        ensures
            (final(self)@, r@) == old(self)@.updating(os@),
    {
        let (url, name) = match &self.latest {
            Some(rel) => match rel.flasher_asset(os) {
                Some(a) => (a.url.clone(), a.name.clone()),
                None => {
                    return Job::Nothing;
                },
            },
            None => {
                return Job::Nothing;
            },
        };
        self.notice = None;
        let line = cat2("downloading ", name.as_str());
        self.push(Lvl::Step, line.as_str());
        self.work("Updating the flasher…");
        Job::Update { url, name }
    }

    pub fn reset(&mut self)
        ensures
            final(self)@ == old(self)@.reset(),
    {
        self.phase = None;
        self.error = None;
        self.stage1_done = false;
        self.conn = None;
        self.found = Vec::new();
        assert(units(self.found@) =~= seq![]);
        self.scanned = false;
        self.log = Vec::new();
        assert(log_model(self.log@) =~= seq![]);
        self.forced = None;
        self.step = Step::Find;
    }

    /// Carry an action out.
    pub fn press(&mut self, a: Action, os: &str) -> (r: Job)
        ensures
            (final(self)@, r@) == old(self)@.pressed(a@, os@),
    {
        match a {
            Action::Scan => self.scan(),
            Action::Pick(ip) => {
                self.host = ip;
                Job::Nothing
            },
            Action::Connect => self.connect(),
            Action::Force(name) => {
                self.forced = by_name(name.as_str());
                Job::Nothing
            },
            Action::Unforce => {
                self.forced = None;
                Job::Nothing
            },
            Action::ToggleDetails => {
                self.details = !self.details;
                Job::Nothing
            },
            Action::ToggleSelfInstall => {
                self.self_install = !self.self_install;
                Job::Nothing
            },
            Action::Download => self.download_image(),
            Action::Edited => {
                let t = trim_str(self.images.as_str());
                if to_chars(t.as_str()).len() > 0 {
                    self.load_release()
                } else {
                    Job::Nothing
                }
            },
            Action::Browse => Job::Browse,
            Action::Folder => Job::Folder,
            Action::Load => self.load_release(),
            Action::Install => self.start_install(false),
            Action::Finish => self.start_install(true),
            Action::Reset => {
                self.reset();
                Job::Nothing
            },
            Action::Back => {
                self.step = match self.step {
                    Step::Find | Step::Check => Step::Find,
                    Step::Images => Step::Check,
                    Step::Install => Step::Images,
                };
                Job::Nothing
            },
            Action::Next => match self.step {
                Step::Find => {
                    self.step = Step::Check;
                    self.connect()
                },
                Step::Check => {
                    self.step = Step::Images;
                    Job::Nothing
                },
                Step::Images => {
                    self.step = Step::Install;
                    Job::Nothing
                },
                Step::Install => Job::Nothing,
            },
            Action::CopyLog => Job::Copy { text: log_as_text(&self.log) },
            Action::ClearLog => {
                self.log = Vec::new();
                assert(log_model(self.log@) =~= seq![]);
                Job::Nothing
            },
            Action::UpdateFlasher => self.update_flasher(os),
        }
    }

    /// A release dropped on the window, picked, or downloaded.
    pub fn give(&mut self, path: &str) -> (r: Job)
        ensures
            (final(self)@, r@) == old(self)@.given(path@),
    {
        self.images = String::from_str(path);
        self.step = Step::Images;
        self.load_release()
    }

    /// Is the latest release still to be asked for? It is asked for once.
    pub fn ensure_latest(&mut self) -> (r: bool)
        ensures
            r == !old(self)@.checked_latest,
            final(self)@ == (WizardModel { checked_latest: true, ..old(self)@ }),
    {
        let ask: bool = !self.checked_latest;
        self.checked_latest = true;
        ask
    }

    // -------------------------------------------------------------------- results

    /// No login worked. Reachable but rejected is a different problem, and a
    /// different fix, from a box that is not answering at all.
    pub fn connect_failed(&mut self, host: &str, reachable: bool)
        ensures
            final(self)@ == old(self)@.connect_failed(host@, reachable),
    {
        let line = cat2("no working login for ", host);
        self.push(Lvl::Warn, line.as_str());
        let msg = if reachable {
            cat3(
                "Reached ",
                host,
                ", but none of the passwords worked. A dealer-updated controller can have a calculated root password or SSH password login switched off. Enter the root password below and try again, or use the ohc-flash command line with an SSH key.",
            )
        } else {
            cat3(
                "Could not reach ",
                host,
                " over SSH. Check the address, and that the controller is powered on and on this network.",
            )
        };
        self.connect_error = Some(msg);
        self.busy = None;
    }

    /// A login worked and the controller was asked what it is.
    pub fn connected(&mut self, c: Conn)
        ensures
            final(self)@ == old(self)@.connected(c@),
    {
        let line = cat3(c.host.as_str(), ": ", c.id.describe().as_str());
        self.push(Lvl::Step, line.as_str());
        if let Some(v) = &c.installed_version {
            let line = cat2("openHC version = ", v.as_str());
            self.push(Lvl::Detail, line.as_str());
        }
        let ghost w = self@;
        let ghost want = evidence(c@.id.raw);
        let mut i: usize = 0;
        assert(w.log + want.take(0) =~= w.log);
        while i < c.id.raw.len()
            invariant
                i <= c.id.raw@.len(),
                want == evidence(pairs(c.id.raw@)),
                self@ == (WizardModel { log: w.log + want.take(i as int), ..w }),
            decreases c.id.raw@.len() - i,
        {
            let line = cat3(c.id.raw[i].0.as_str(), " = ", trim_str(c.id.raw[i].1.as_str()).as_str());
            assert(want[i as int] == (Lvl::Detail, line@));
            self.push(Lvl::Detail, line.as_str());
            assert(want.take(i + 1) =~= want.take(i as int).push(want[i as int]));
            assert((w.log + want.take(i as int)).push(want[i as int]) =~= w.log + want.take(i + 1));
            i += 1;
        }
        assert(want.take(want.len() as int) =~= want);
        self.conn = Some(c);
        self.busy = None;
    }

    /// The release could not be read, or its image not downloaded.
    pub fn load_failed(&mut self, why: &str)
        ensures
            final(self)@ == old(self)@.load_failed(why@),
    {
        self.push(Lvl::Warn, why);
        self.rel_error = Some(String::from_str(why));
        self.busy = None;
    }

    /// The release was read and checked.
    pub fn loaded(&mut self, info: RelInfo)
        ensures
            final(self)@ == old(self)@.loaded(info@),
    {
        let ghost w = self@;
        let ghost want = info@.problems.map_values(|p: Seq<char>| (Lvl::Warn, p));
        let mut i: usize = 0;
        assert(w.log + want.take(0) =~= w.log);
        while i < info.problems.len()
            invariant
                i <= info.problems@.len(),
                want == strings(info.problems@).map_values(|p: Seq<char>| (Lvl::Warn, p)),
                self@ == (WizardModel { log: w.log + want.take(i as int), ..w }),
            decreases info.problems@.len() - i,
        {
            assert(want[i as int] == (Lvl::Warn, info.problems@[i as int]@));
            self.push(Lvl::Warn, info.problems[i].as_str());
            assert(want.take(i + 1) =~= want.take(i as int).push(want[i as int]));
            assert((w.log + want.take(i as int)).push(want[i as int]) =~= w.log + want.take(i + 1));
            i += 1;
        }
        assert(want.take(want.len() as int) =~= want);
        let line = cat2("release holds: ", join(info.names.as_slice(), ", ").as_str());
        self.push(Lvl::Detail, line.as_str());
        self.rel_info = Some(info);
        self.busy = None;
    }

    /// The install ended, one way or the other.
    pub fn installed(&mut self, r: Result<(), String>)
        ensures
            final(self)@ == old(self)@.installed(
                match r {
                    Ok(_) => Ok(()),
                    Err(e) => Err(e@),
                },
            ),
    {
        self.wait = None;
        match r {
            Ok(_) => {
                self.phase = Some(Phase::Done);
            },
            Err(e) => {
                self.push(Lvl::Warn, e.as_str());
                self.error = Some(e);
                self.phase = Some(Phase::Failed);
            },
        }
        self.busy = None;
    }

    /// An image arrived; it still has to be opened.
    pub fn downloaded(&mut self, name: &str)
        ensures
            final(self)@ == old(self)@.downloaded(name@),
    {
        let line = cat2("downloaded ", name);
        self.push(Lvl::Step, line.as_str());
        self.busy = None;
    }

    /// The flasher was swapped for a newer build, or not.
    pub fn updated(&mut self, msg: &str)
        ensures
            final(self)@ == old(self)@.updated(msg@),
    {
        self.push(Lvl::Step, msg);
        self.notice = Some(String::from_str(msg));
        self.busy = None;
    }

    /// The scan is over; each unit is still to be asked what it is.
    pub fn scan_found(&mut self, found: &Vec<Found>)
        ensures
            final(self)@ == old(self)@.scanned_units(fresh_units(founds(found@))),
    {
        let line = cat3("found ", dec_string(found.len() as u64).as_str(), " unit(s); asking each what it is");
        self.push(Lvl::Step, line.as_str());
        let ghost want = fresh_units(founds(found@));
        let mut out: Vec<Unit> = Vec::new();
        let mut i: usize = 0;
        while i < found.len()
            invariant
                i <= found@.len(),
                want == fresh_units(founds(found@)),
                units(out@) == want.take(i as int),
            decreases found@.len() - i,
        {
            let ghost was = units(out@);
            let u = unit_of(&found[i]);
            assert(want[i as int] == u@);
            out.push(u);
            assert(units(out@) =~= was.push(u@));
            assert(want.take(i + 1) =~= want.take(i as int).push(want[i as int]));
            i += 1;
        }
        assert(want.take(want.len() as int) =~= want);
        self.found = out;
        self.scanned = true;
    }

    /// What a login told about one found unit: its own name and what it runs. A
    /// unit that refuses every login is no failure worth alarming anyone about.
    pub fn probe_unit(&mut self, ip: &str, hostname: Option<String>, id: Option<&Identity>)
        ensures
            final(self)@ == old(self)@.probed(
                ip@,
                opt(hostname),
                crate::wizard::state::opt_identity(id),
            ),
    {
        let ghost all = units(self.found@);
        let ghost ident = crate::wizard::state::opt_identity(id);
        let ghost host = opt(hostname);
        let ghost before = self@;
        let line = match id {
            Some(i) => cat3(ip, ": ", i.describe().as_str()),
            None => cat2(ip, ": no working login"),
        };
        let mut i: usize = 0;
        let n: usize = self.found.len();
        assert(all.skip(0) =~= all);
        assert(all.take(0) + probed_in(all, ip@, host, ident) =~= probed_in(all, ip@, host, ident));
        while i < n && !same(self.found[i].ip.as_str(), ip)
            invariant
                i <= n,
                n == self.found@.len(),
                all == units(self.found@),
                self@ == before,
                probed_in(all, ip@, host, ident) == all.take(i as int) + probed_in(
                    all.skip(i as int),
                    ip@,
                    host,
                    ident,
                ),
            decreases n - i,
        {
            assert(all.skip(i as int)[0] == self.found@[i as int]@);
            assert(all.skip(i as int).skip(1) =~= all.skip(i + 1));
            assert(all.take(i as int) + (seq![all[i as int]] + probed_in(all.skip(i + 1), ip@, host, ident))
                =~= all.take(i + 1) + probed_in(all.skip(i + 1), ip@, host, ident));
            i += 1;
        }
        if i < n {
            assert(all.skip(i as int)[0] == self.found@[i as int]@);
            let u = &self.found[i];
            let now = probed_copy(u, hostname, id);
            let ghost m = now@;
            self.found.set(i, now);
            assert(units(self.found@) =~= all.update(i as int, m));
            assert(all.take(i as int) + all.skip(i as int).update(0, m) =~= all.update(i as int, m));
        } else {
            assert(all.take(i as int) + all.skip(i as int) =~= all);
        }
        self.push(Lvl::Detail, line.as_str());
    }
}

fn probed_copy(u: &Unit, hostname: Option<String>, id: Option<&Identity>) -> (r: Unit)
    ensures
        r@ == probed_unit(u@, opt(hostname), crate::wizard::state::opt_identity(id)),
{
    let mac = match &u.mac {
        Some(m) => Some(m.clone()),
        None => None,
    };
    let note = match &u.note {
        Some(m) => Some(m.clone()),
        None => None,
    };
    match id {
        Some(i) => Unit {
            ip: u.ip.clone(),
            mac,
            sddp: u.sddp,
            hostname,
            running: Some(i.running),
            board: i.board,
            probed: true,
            note,
        },
        None => Unit {
            ip: u.ip.clone(),
            mac,
            sddp: u.sddp,
            hostname,
            running: u.running,
            board: u.board,
            probed: true,
            note: Some(
                String::from_str(
                    if u.sddp {
                        "needs a password"
                    } else {
                        "could not log in"
                    },
                ),
            ),
        },
    }
}

/// What of a scan's results the list starts from.
pub ghost struct FoundModel {
    pub ip: Seq<char>,
    pub mac: Option<Seq<char>>,
    pub via: Seq<Seq<char>>,
}

pub open spec fn founds(v: Seq<Found>) -> Seq<FoundModel> {
    v.map_values(|f: Found| FoundModel { ip: f.ip@, mac: opt(f.mac), via: strings(f.via@) })
}

pub open spec fn fresh_unit(f: FoundModel) -> UnitModel {
    UnitModel {
        ip: f.ip,
        mac: f.mac,
        sddp: f.via.contains("sddp"@),
        hostname: None,
        running: None,
        board: None,
        probed: false,
        note: None,
    }
}

pub open spec fn fresh_units(v: Seq<FoundModel>) -> Seq<UnitModel> {
    v.map_values(|f: FoundModel| fresh_unit(f))
}

fn unit_of(f: &Found) -> (r: Unit)
    ensures
        r@ == fresh_unit(FoundModel { ip: f.ip@, mac: opt(f.mac), via: strings(f.via@) }),
{
    Unit {
        ip: f.ip.clone(),
        mac: match &f.mac {
            Some(m) => Some(m.clone()),
            None => None,
        },
        sddp: crate::iod::api::holds(&f.via, "sddp"),
        hostname: None,
        running: None,
        board: None,
        probed: false,
        note: None,
    }
}

// -------------------------------------------------------------------------- reading

/// What a release comes to, for a board of the EA family.
pub open spec fn info_of(source: Seq<char>, files: Map<Seq<char>, Seq<u8>>, names: Seq<Seq<char>>) -> RelInfoModel {
    let k = crate::engine::release::artefact(files, "bzImage"@);
    let len = match k {
        Some(b) => b.len() as u64,
        None => 0u64,
    };
    RelInfoModel {
        source,
        kernel_len: len,
        problems: ea_complaints(
            match k {
                Some(b) => Some(
                    b.take(
                        if b.len() < 0x400 {
                            b.len() as int
                        } else {
                            0x400
                        },
                    ),
                ),
                None => None,
            },
            len as nat,
            crate::engine::release::artefact(files, "rootfs.ext2"@) is Some,
            true,
        ),
        names,
    }
}

/// Read a release's particulars.
pub fn release_info(rel: &Release) -> (r: RelInfo)
    requires
        rel.wf(),
    ensures
        r@ == info_of(rel.source@, rel@, rel.files.keys()),
{
    let k = rel.get("bzImage");
    let head: Option<&[u8]> = match k {
        Some(b) => {
            let n: usize = if b.len() < 0x400 { b.len() } else { 0x400 };
            let h = slice_subrange(b, 0, n);
            assert(h@ =~= b@.take(n as int));
            Some(h)
        },
        None => None,
    };
    let klen: u64 = match k {
        Some(b) => b.len() as u64,
        None => 0,
    };
    let problems = ea_problems(head, klen, rel.has("rootfs.ext2"), true);
    RelInfo { source: rel.source.clone(), kernel_len: klen, problems, names: rel.names() }
}

/// The value on the first line that starts with a key, without its quotes.
pub open spec fn after_key(ls: Seq<Seq<char>>, key: Seq<char>) -> Option<Seq<char>>
    decreases ls.len(),
{
    if ls.len() == 0 {
        None
    } else {
        match strip_prefix(trim(ls[0]), key) {
            Some(v) => Some(trim_both(trim(v), Class::One('"'))),
            None => after_key(ls.skip(1), key),
        }
    }
}

fn value_after(text: &str, key: &str) -> (r: Option<String>)
    ensures
        opt(r) == after_key(lines(text@), key@),
{
    let chars = to_chars(text);
    let ls = lines_of(chars.as_slice());
    let ghost all = slices(ls@);
    let mut i: usize = 0;
    assert(all.skip(0) =~= all);
    while i < ls.len()
        invariant
            i <= ls@.len(),
            all == slices(ls@),
            all == lines(text@),
            after_key(all, key@) == after_key(all.skip(i as int), key@),
        decreases ls@.len() - i,
    {
        assert(all.skip(i as int)[0] == ls@[i as int]@);
        match strip_prefix_str(trimmed(ls[i]), key) {
            Some(v) => {
                return Some(from_chars(trim_of(trimmed(v), &Class::One('"'))));
            },
            None => {},
        }
        assert(all.skip(i as int).skip(1) =~= all.skip(i + 1));
        i += 1;
    }
    None
}

/// The openHC version two files tell: the release file's `version=` line, else
/// the board file's `OHC_VERSION=`. An empty version is none.
pub open spec fn version_in(release: Option<Seq<char>>, board_env: Option<Seq<char>>) -> Option<Seq<char>> {
    let a = match release {
        Some(t) => after_key(lines(t), "version="@),
        None => None,
    };
    let v = match a {
        Some(x) => Some(x),
        None => match board_env {
            Some(t) => after_key(lines(t), "OHC_VERSION="@),
            None => None,
        },
    };
    match v {
        Some(x) => if x.len() == 0 {
            None
        } else {
            Some(x)
        },
        None => None,
    }
}

pub fn read_installed_version(release: Option<&str>, board_env: Option<&str>) -> (r: Option<String>)
    ensures
        opt(r) == version_in(opt_str(release), opt_str(board_env)),
{
    let mut v: Option<String> = None;
    if let Some(t) = release {
        v = value_after(t, "version=");
    }
    if v.is_none() {
        if let Some(t) = board_env {
            v = value_after(t, "OHC_VERSION=");
        }
    }
    match v {
        Some(x) => {
            if to_chars(x.as_str()).len() == 0 {
                None
            } else {
                Some(x)
            }
        },
        None => None,
    }
}

/// The name a unit gives itself; blank means none.
pub open spec fn own_name(text: Option<Seq<char>>) -> Option<Seq<char>> {
    match text {
        Some(t) => if trim(t).len() == 0 {
            None
        } else {
            Some(trim(t))
        },
        None => None,
    }
}

pub fn read_hostname(text: Option<&str>) -> (r: Option<String>)
    ensures
        opt(r) == own_name(opt_str(text)),
{
    match text {
        Some(t) => {
            let s = trim_str(t);
            if to_chars(s.as_str()).len() == 0 {
                None
            } else {
                Some(s)
            }
        },
        None => None,
    }
}

// ------------------------------------------------------------------- the install run

/// Where an install run stands.
#[derive(Debug, PartialEq, Eq, Clone, Copy, Structural)]
pub enum RunAt {
    Start,
    SelfInstalling,
    Writing,
    Waiting,
    Finishing,
    Over,
}

/// What an install run does next.
#[derive(Debug)]
pub enum RunStep {
    /// Hand everything to the on-device installer.
    SelfInstall,
    /// Write the kernel, and reboot into RAM.
    Stage1,
    /// Wait for the controller to come back, this many seconds at most.
    Wait { secs: u64 },
    /// Write the root filesystem.
    Stage2,
    Ended(Result<(), String>),
}

pub ghost enum RunStepModel {
    SelfInstall,
    Stage1,
    Wait { secs: u64 },
    Stage2,
    Ended(Result<(), Seq<char>>),
}

pub open spec fn outcome(r: Result<(), String>) -> Result<(), Seq<char>> {
    match r {
        Ok(_) => Ok(()),
        Err(e) => Err(e@),
    }
}

impl View for RunStep {
    type V = RunStepModel;

    open spec fn view(&self) -> RunStepModel {
        match self {
            RunStep::SelfInstall => RunStepModel::SelfInstall,
            RunStep::Stage1 => RunStepModel::Stage1,
            RunStep::Wait { secs } => RunStepModel::Wait { secs: *secs },
            RunStep::Stage2 => RunStepModel::Stage2,
            RunStep::Ended(r) => RunStepModel::Ended(outcome(*r)),
        }
    }
}

/// The controller did not come back in time.
pub open spec fn lost() -> Seq<char> {
    "The controller did not come back within "@ + dec(REBOOT_WAIT as nat)
        + " seconds. It is part-way through — leave it powered, wait for it to appear on the network, then press Finish install."@
}

pub open spec fn waiting(w: WizardModel) -> WizardModel {
    WizardModel { phase: Some(Phase::Restarting), wait: Some((0, REBOOT_WAIT)), ..w }.logged(
        Lvl::Step,
        "waiting for the controller to restart"@,
    )
}

/// One turn of an install run: what the last step came to, and what is next. A
/// step that failed ends the run.
pub open spec fn run_turn(
    at: RunAt,
    self_install: bool,
    finish_only: bool,
    w: WizardModel,
    last: Result<(), Seq<char>>,
) -> (RunAt, WizardModel, RunStepModel) {
    match at {
        RunAt::Start => if finish_only {
            (RunAt::Waiting, waiting(w), RunStepModel::Wait { secs: REBOOT_WAIT })
        } else if self_install {
            (RunAt::SelfInstalling, w, RunStepModel::SelfInstall)
        } else {
            (RunAt::Writing, w, RunStepModel::Stage1)
        },
        RunAt::SelfInstalling => (RunAt::Over, w, RunStepModel::Ended(last)),
        RunAt::Writing => match last {
            Ok(_) => (
                RunAt::Waiting,
                waiting(WizardModel { stage1_done: true, ..w }),
                RunStepModel::Wait { secs: REBOOT_WAIT },
            ),
            Err(e) => (RunAt::Over, w, RunStepModel::Ended(Err(e))),
        },
        RunAt::Waiting => match last {
            Ok(_) => (
                RunAt::Finishing,
                WizardModel { phase: Some(Phase::Finishing), wait: None, ..w },
                RunStepModel::Stage2,
            ),
            Err(_) => (RunAt::Over, w, RunStepModel::Ended(Err(lost()))),
        },
        RunAt::Finishing => (RunAt::Over, w, RunStepModel::Ended(last)),
        RunAt::Over => (RunAt::Over, w, RunStepModel::Ended(last)),
    }
}

impl Wizard {
    fn await_restart(&mut self)
        ensures
            final(self)@ == waiting(old(self)@),
    {
        self.phase = Some(Phase::Restarting);
        self.wait = Some((0, REBOOT_WAIT));
        self.push(Lvl::Step, "waiting for the controller to restart");
    }

    /// The install sequence itself, one step at a time.
    pub fn run_install(
        &mut self,
        at: &mut RunAt,
        self_install: bool,
        finish_only: bool,
        last: Result<(), String>,
    ) -> (r: RunStep)
        ensures
            (*final(at), final(self)@, r@) == run_turn(
                *old(at),
                self_install,
                finish_only,
                old(self)@,
                outcome(last),
            ),
    {
        match *at {
            RunAt::Start => {
                if finish_only {
                    *at = RunAt::Waiting;
                    self.await_restart();
                    RunStep::Wait { secs: REBOOT_WAIT }
                } else if self_install {
                    *at = RunAt::SelfInstalling;
                    RunStep::SelfInstall
                } else {
                    *at = RunAt::Writing;
                    RunStep::Stage1
                }
            },
            RunAt::Writing => match last {
                Ok(_) => {
                    *at = RunAt::Waiting;
                    self.stage1_done = true;
                    self.await_restart();
                    RunStep::Wait { secs: REBOOT_WAIT }
                },
                Err(e) => {
                    *at = RunAt::Over;
                    RunStep::Ended(Err(e))
                },
            },
            RunAt::Waiting => match last {
                Ok(_) => {
                    *at = RunAt::Finishing;
                    self.phase = Some(Phase::Finishing);
                    self.wait = None;
                    RunStep::Stage2
                },
                Err(_) => {
                    *at = RunAt::Over;
                    let s = cat3(
                        "The controller did not come back within ",
                        dec_string(REBOOT_WAIT).as_str(),
                        " seconds. It is part-way through — leave it powered, wait for it to appear on the network, then press Finish install.",
                    );
                    RunStep::Ended(Err(s))
                },
            },
            RunAt::SelfInstalling | RunAt::Finishing | RunAt::Over => {
                *at = RunAt::Over;
                RunStep::Ended(last)
            },
        }
    }
}

// ------------------------------------------------------------------------------ laws

/// The root filesystem is only ever written after the controller came back.
pub proof fn law_stage_two_follows_the_restart(
    at: RunAt,
    self_install: bool,
    finish_only: bool,
    w: WizardModel,
    last: Result<(), Seq<char>>,
)
    requires
        run_turn(at, self_install, finish_only, w, last).2 == RunStepModel::Stage2,
    ensures
        at == RunAt::Waiting,
        last is Ok,
{
}

/// A run that failed after stage 1 can be finished, not only started over: the
/// failure leaves stage 1 marked as done and offers exactly that.
pub proof fn law_a_half_finished_install_can_be_finished(
    self_install: bool,
    w: WizardModel,
    late: Seq<char>,
)
    requires
        w.board() is Some,
        w.rel_info is Some,
        w.conn is Some,
    ensures
        ({
            let (_, w1, _) = run_turn(RunAt::Writing, self_install, false, w, Ok(()));
            let (_, w2, end) = run_turn(RunAt::Waiting, self_install, false, w1, Err(late));
            let w3 = w2.installed(end->Ended_0);
            &&& w3.stage1_done
            &&& w3.phase == Some(Phase::Failed)
            &&& w3.idle()
            &&& w3.installing(true).0.stage1_done
            &&& w3.installing(true).1 matches JobModel::Install { finish_only, .. } && finish_only
        }),
{
}

/// Whatever a job comes to, the wizard is idle afterwards.
pub proof fn law_every_result_frees_the_wizard(
    w: WizardModel,
    host: Seq<char>,
    reachable: bool,
    c: ConnModel,
    r: RelInfoModel,
    text: Seq<char>,
    end: Result<(), Seq<char>>,
)
    ensures
        w.connect_failed(host, reachable).idle(),
        w.connected(c).idle(),
        w.load_failed(text).idle(),
        w.loaded(r).idle(),
        w.downloaded(text).idle(),
        w.installed(end).idle(),
        w.updated(text).idle(),
{
}

/// Nothing is installed without a board, a release and a connection.
pub proof fn law_no_install_without_its_parts(w: WizardModel, finish_only: bool)
    requires
        w.board() is None || w.rel_info is None || w.conn is None,
    ensures
        w.installing(finish_only) == (w, JobModel::Nothing),
{
}

} // verus!
