//! SSH through the system's client: what to run, and what its answer means.
//!
//! These controllers run an ancient sshd, which the system's OpenSSH reaches
//! with the right options.
use crate::num::{dec_signed, dec_signed_string};
use crate::text::{cat3, from_chars, lossy, lossy_text, opt, strings, to_chars, trim, trimmed};
use vstd::prelude::*;
use vstd::slice::slice_subrange;
use vstd::string::*;

verus! {

/// Options every connection needs.
pub open spec fn legacy_words() -> Seq<Seq<char>> {
    seq![
        "-o"@,
        "StrictHostKeyChecking=no"@,
        "-o"@,
        "UserKnownHostsFile=/dev/null"@,
        "-o"@,
        "LogLevel=ERROR"@,
        "-o"@,
        "ConnectTimeout=8"@,
        "-o"@,
        "KexAlgorithms=+diffie-hellman-group1-sha1,diffie-hellman-group14-sha1"@,
        "-o"@,
        "HostKeyAlgorithms=+ssh-rsa"@,
        "-o"@,
        "PubkeyAcceptedAlgorithms=+ssh-rsa"@,
    ]
}

fn add(v: &mut Vec<String>, s: &str)
    ensures
        strings(final(v)@) == strings(old(v)@).push(s@),
{
    let ghost was = strings(v@);
    let t = String::from_str(s);
    v.push(t);
    assert(strings(v@) =~= was.push(s@));
}

/// Append the options every connection needs.
fn add_legacy_opts(v: &mut Vec<String>)
    ensures
        strings(final(v)@) == strings(old(v)@) + legacy_words(),
{
    let ghost was = strings(v@);
    self::add(v, "-o");
    self::add(v, "StrictHostKeyChecking=no");
    self::add(v, "-o");
    self::add(v, "UserKnownHostsFile=/dev/null");
    self::add(v, "-o");
    self::add(v, "LogLevel=ERROR");
    self::add(v, "-o");
    self::add(v, "ConnectTimeout=8");
    self::add(v, "-o");
    self::add(v, "KexAlgorithms=+diffie-hellman-group1-sha1,diffie-hellman-group14-sha1");
    self::add(v, "-o");
    self::add(v, "HostKeyAlgorithms=+ssh-rsa");
    self::add(v, "-o");
    self::add(v, "PubkeyAcceptedAlgorithms=+ssh-rsa");
    assert(strings(v@) =~= was + legacy_words());
}

/// Options every connection needs.
pub fn legacy_opts() -> (r: Vec<String>)
    ensures
        strings(r@) == legacy_words(),
{
    let mut v: Vec<String> = Vec::new();
    assert(strings(v@) =~= seq![]);
    add_legacy_opts(&mut v);
    assert(strings(v@) =~= legacy_words());
    v
}

#[derive(Debug)]
pub enum SshError {
    Command { host: String, cmd: String, code: i32, msg: String },
    NoSshpass,
    Spawn(String),
}

impl SshError {
    pub open spec fn text_spec(self) -> Seq<char> {
        match self {
            SshError::Command { host, cmd, code, msg } => host@ + ": `"@ + cmd@ + "` failed ("@ + dec_signed(
                code as int,
            ) + "): "@ + msg@,
            SshError::NoSshpass => "password auth needs `sshpass` on PATH (brew/apt install sshpass), or use a key"@,
            SshError::Spawn(m) => m@,
        }
    }

    pub fn text(&self) -> (r: String)
        ensures
            r@ == self.text_spec(),
    {
        match self {
            SshError::Command { host, cmd, code, msg } => {
                let mut s = cat3(host.as_str(), ": `", cmd.as_str());
                s.append("` failed (");
                s.append(dec_signed_string(*code as i64).as_str());
                s.append("): ");
                s.append(msg.as_str());
                s
            },
            SshError::NoSshpass => String::from_str(
                "password auth needs `sshpass` on PATH (brew/apt install sshpass), or use a key",
            ),
            SshError::Spawn(m) => m.clone(),
        }
    }
}

/// A login on a box.
#[derive(Debug)]
pub struct Ssh {
    pub host: String,
    pub user: String,
    pub password: Option<String>,
}

pub ghost struct LoginModel {
    pub host: Seq<char>,
    pub user: Seq<char>,
    pub password: Option<Seq<char>>,
}

impl View for Ssh {
    type V = LoginModel;

    open spec fn view(&self) -> LoginModel {
        LoginModel { host: self.host@, user: self.user@, password: opt(self.password) }
    }
}

/// The program and its arguments, up to the remote command: with a password the
/// client runs under `sshpass`.
pub open spec fn client_words(m: LoginModel) -> Seq<Seq<char>> {
    (match m.password {
        Some(pw) => seq!["sshpass"@, "-p"@, pw, "ssh"@],
        None => seq!["ssh"@],
    }) + legacy_words() + seq![m.user + "@"@ + m.host]
}

/// An exit status, or -1 for a process that had none.
pub open spec fn code_or(code: Option<i32>) -> i32 {
    match code {
        Some(c) => c,
        None => -1i32,
    }
}

/// The first 300 characters of what a failed command said.
pub open spec fn complaint(bytes: Seq<u8>) -> Seq<char> {
    let t = trim(lossy_text(bytes));
    if t.len() > 300 {
        t.take(300)
    } else {
        t
    }
}

fn complaint_of(bytes: &[u8]) -> (r: String)
    ensures
        r@ == complaint(bytes@),
{
    let text = lossy(bytes);
    let chars = to_chars(text.as_str());
    let t: &[char] = trimmed(chars.as_slice());
    if t.len() > 300 {
        let cut: &[char] = slice_subrange(t, 0, 300);
        assert(cut@ =~= t@.take(300));
        from_chars(cut)
    } else {
        from_chars(t)
    }
}

impl Ssh {
    pub fn new(host: &str, user: &str, password: Option<String>) -> (r: Ssh)
        ensures
            r@ == (LoginModel { host: host@, user: user@, password: opt(password) }),
    {
        Ssh { host: String::from_str(host), user: String::from_str(user), password }
    }

    /// The program to run and its arguments up to the remote command. A password
    /// needs `sshpass` to be there.
    pub fn base(&self, has_sshpass: bool) -> (r: Result<Vec<String>, SshError>)
        ensures
            if self.password is Some && !has_sshpass {
                r matches Err(SshError::NoSshpass)
            } else {
                r is Ok && strings(r->Ok_0@) == client_words(self@)
            },
    {
        let mut v: Vec<String> = Vec::new();
        assert(strings(v@) =~= seq![]);
        match &self.password {
            Some(pw) => {
                if !has_sshpass {
                    return Err(SshError::NoSshpass);
                }
                self::add(&mut v, "sshpass");
                self::add(&mut v, "-p");
                self::add(&mut v, pw.as_str());
                self::add(&mut v, "ssh");
                assert(strings(v@) =~= seq!["sshpass"@, "-p"@, pw@, "ssh"@]);
            },
            None => {
                self::add(&mut v, "ssh");
                assert(strings(v@) =~= seq!["ssh"@]);
            },
        }
        add_legacy_opts(&mut v);
        let ghost mid = strings(v@);
        let who = cat3(self.user.as_str(), "@", self.host.as_str());
        self::add(&mut v, who.as_str());
        assert(strings(v@) =~= mid + seq![who@]);
        Ok(v)
    }

    /// What a finished command amounts to. Unchecked, whatever it printed; with
    /// `check`, a failure is an error that carries what it said, on its error
    /// stream if there was anything there.
    pub fn run_outcome(
        &self,
        cmd: &str,
        check: bool,
        success: bool,
        code: Option<i32>,
        stdout: &[u8],
        stderr: &[u8],
    ) -> (r: Result<String, SshError>)
        ensures
            if check && !success {
                r matches Err(SshError::Command { host, cmd: c, code: n, msg }) && host@ == self.host@ && c@
                    == cmd@ && n == code_or(code) && msg@ == complaint(
                    if stderr@.len() == 0 {
                        stdout@
                    } else {
                        stderr@
                    },
                )
            } else {
                r is Ok && r->Ok_0@ == lossy_text(stdout@)
            },
    {
        if check && !success {
            let msg = if stderr.len() == 0 { complaint_of(stdout) } else { complaint_of(stderr) };
            return Err(
                SshError::Command {
                    host: self.host.clone(),
                    cmd: String::from_str(cmd),
                    code: match code {
                        Some(c) => c,
                        None => -1,
                    },
                    msg,
                },
            );
        }
        Ok(lossy(stdout))
    }

    /// What a finished stream amounts to: a failure is always an error.
    pub fn put_outcome(
        &self,
        cmd: &str,
        success: bool,
        code: Option<i32>,
        stdout: &[u8],
        stderr: &[u8],
    ) -> (r: Result<String, SshError>)
        ensures
            if !success {
                r matches Err(SshError::Command { host, cmd: c, code: n, msg }) && host@ == self.host@ && c@
                    == cmd@ && n == code_or(code) && msg@ == complaint(stderr@)
            } else {
                r is Ok && r->Ok_0@ == lossy_text(stdout@)
            },
    {
        if !success {
            return Err(
                SshError::Command {
                    host: self.host.clone(),
                    cmd: String::from_str(cmd),
                    code: match code {
                        Some(c) => c,
                        None => -1,
                    },
                    msg: complaint_of(stderr),
                },
            );
        }
        Ok(lossy(stdout))
    }
}

pub const OK_COMMAND: &'static str = "echo ohc-ok";

/// The reachability probe's answer.
pub fn ok(out: &str) -> (r: bool)
    ensures
        r == (trim(out@) == "ohc-ok"@),
{
    let chars = to_chars(out);
    crate::text::eq_str(trimmed(chars.as_slice()), "ohc-ok")
}

/// The command that reads a file.
pub fn read_command(path: &str) -> (r: String)
    ensures
        r@ == "cat "@ + path@ + " 2>/dev/null"@,
{
    cat3("cat ", path, " 2>/dev/null")
}

/// A file's text, or nothing when there is nothing but white space.
pub fn read_file(out: String) -> (r: Option<String>)
    ensures
        opt(r) == (if trim(out@).len() == 0 {
            None
        } else {
            Some(out@)
        }),
{
    let chars = to_chars(out.as_str());
    if trimmed(chars.as_slice()).len() == 0 {
        None
    } else {
        Some(out)
    }
}

// ----------------------------------------------------------------------- logins

/// Credentials to try: openHC's first, then stock Control4's, then a key.
pub open spec fn candidate_logins(host: Seq<char>) -> Seq<LoginModel> {
    seq![
        LoginModel { host, user: "root"@, password: Some("openhc"@) },
        LoginModel { host, user: "openhc"@, password: Some("openhc"@) },
        LoginModel { host, user: "root"@, password: Some("t0talc0ntr0l4!"@) },
        LoginModel { host, user: "root"@, password: None },
    ]
}

/// The given passwords as root, blank ones left out.
pub open spec fn given_logins(host: Seq<char>, pws: Seq<Seq<char>>) -> Seq<LoginModel>
    decreases pws.len(),
{
    if pws.len() == 0 {
        seq![]
    } else if trim(pws.last()).len() == 0 {
        given_logins(host, pws.drop_last())
    } else {
        given_logins(host, pws.drop_last()).push(
            LoginModel { host, user: "root"@, password: Some(pws.last()) },
        )
    }
}

pub open spec fn login_models(v: Seq<Ssh>) -> Seq<LoginModel> {
    v.map_values(|s: Ssh| s@)
}

fn add_login(v: &mut Vec<Ssh>, s: Ssh)
    ensures
        login_models(final(v)@) == login_models(old(v)@).push(s@),
{
    let ghost was = login_models(v@);
    v.push(s);
    assert(login_models(v@) =~= was.push(s@));
}

/// The logins to try, in order: the passwords the operator gave, as root, ahead
/// of the known ones. Newer firmware derives root's password from the unit, and
/// a dealer may have set any other; no guess is made at it.
pub fn logins(host: &str, passwords: &Vec<String>) -> (r: Vec<Ssh>)
    ensures
        login_models(r@) == given_logins(host@, strings(passwords@)) + candidate_logins(host@),
{
    let mut v: Vec<Ssh> = Vec::new();
    let ghost all = strings(passwords@);
    let mut i: usize = 0;
    assert(login_models(v@) =~= given_logins(host@, all.take(0)));
    while i < passwords.len()
        invariant
            i <= passwords@.len(),
            all == strings(passwords@),
            login_models(v@) == given_logins(host@, all.take(i as int)),
        decreases passwords@.len() - i,
    {
        assert(all.take(i + 1).drop_last() =~= all.take(i as int));
        assert(all.take(i + 1).last() == passwords@[i as int]@);
        let chars = to_chars(passwords[i].as_str());
        if trimmed(chars.as_slice()).len() > 0 {
            add_login(&mut v, Ssh::new(host, "root", Some(passwords[i].clone())));
        }
        i += 1;
    }
    assert(all.take(all.len() as int) =~= all);
    let ghost given = login_models(v@);
    add_login(&mut v, Ssh::new(host, "root", Some(String::from_str("openhc"))));
    add_login(&mut v, Ssh::new(host, "openhc", Some(String::from_str("openhc"))));
    add_login(&mut v, Ssh::new(host, "root", Some(String::from_str("t0talc0ntr0l4!"))));
    add_login(&mut v, Ssh::new(host, "root", None));
    assert(login_models(v@) =~= given + candidate_logins(host@));
    v
}

/// What trying the logins one by one does next, each named by its place.
#[derive(Debug, Clone, Copy, PartialEq, Eq, Structural)]
pub enum LoginStep {
    Try(usize),
    /// This one answered; it is the one.
    Taken(usize),
    /// None is left.
    Refused,
}

/// The next step of trying a number of logins, after the last one that was tried and
/// whether it answered: the first that answers is taken, and after it none is tried.
pub open spec fn login_step(count: nat, last: Option<(usize, bool)>) -> LoginStep {
    match last {
        Some((i, true)) => LoginStep::Taken(i),
        Some((i, false)) => if i + 1 < count {
            LoginStep::Try((i + 1) as usize)
        } else {
            LoginStep::Refused
        },
        None => if count > 0 {
            LoginStep::Try(0)
        } else {
            LoginStep::Refused
        },
    }
}

pub fn first_working_login(count: usize, last: Option<(usize, bool)>) -> (r: LoginStep)
    ensures
        r == login_step(count as nat, last),
{
    match last {
        Some((i, true)) => LoginStep::Taken(i),
        Some((i, false)) => {
            if count > 0 && i < count - 1 {
                LoginStep::Try(i + 1)
            } else {
                LoginStep::Refused
            }
        },
        None => {
            if count > 0 {
                LoginStep::Try(0)
            } else {
                LoginStep::Refused
            }
        },
    }
}

/// Where the steps end from one of them on, when each login answers as given.
pub open spec fn login_end(answers: Seq<bool>, step: LoginStep) -> LoginStep
    decreases (match step {
        LoginStep::Try(i) => 1 + answers.len() - i,
        _ => 0,
    }),
{
    match step {
        LoginStep::Try(i) => if i < answers.len() <= usize::MAX {
            login_end(answers, login_step(answers.len(), Some((i, answers[i as int]))))
        } else {
            step
        },
        _ => step,
    }
}

/// Trying the logins step by step takes the first that answers, and none where none
/// does.
pub proof fn law_the_first_login_that_answers_is_taken(answers: Seq<bool>)
    requires
        answers.len() <= usize::MAX,
    ensures
        match login_end(answers, login_step(answers.len(), None)) {
            LoginStep::Taken(n) => n < answers.len() && answers[n as int] && forall|k: int|
                0 <= k < n ==> !#[trigger] answers[k],
            LoginStep::Refused => forall|k: int| 0 <= k < answers.len() ==> !#[trigger] answers[k],
            LoginStep::Try(_) => false,
        },
{
    if answers.len() > 0 {
        lemma_from_login(answers, 0);
    }
}

proof fn lemma_from_login(answers: Seq<bool>, i: usize)
    requires
        i < answers.len() <= usize::MAX,
        forall|k: int| 0 <= k < i ==> !#[trigger] answers[k],
    ensures
        match login_end(answers, LoginStep::Try(i)) {
            LoginStep::Taken(n) => n < answers.len() && answers[n as int] && forall|k: int|
                0 <= k < n ==> !#[trigger] answers[k],
            LoginStep::Refused => forall|k: int| 0 <= k < answers.len() ==> !#[trigger] answers[k],
            LoginStep::Try(_) => false,
        },
    decreases answers.len() - i,
{
    reveal_with_fuel(login_end, 2);
    if !answers[i as int] && i + 1 < answers.len() {
        lemma_from_login(answers, (i + 1) as usize);
    }
}

// ------------------------------------------------------------- waiting for a reboot

/// How long to wait before the first try of a box that was told to reboot: it
/// keeps answering for a few seconds while it shuts down.
pub const REBOOT_GRACE_SECS: u64 = 30;

/// How long to wait between tries.
pub const RETRY_SECS: u64 = 10;

/// How far the wait for a box has come.
#[derive(Debug, Clone, Copy, PartialEq, Eq, Structural)]
pub enum WaitAt {
    /// It was just told to reboot.
    Start,
    /// A pause is over.
    Rested,
    /// A login was tried, and it answered or not.
    Tried(bool),
}

#[derive(Debug, Clone, Copy, PartialEq, Eq, Structural)]
pub enum WaitStep {
    /// Let this many seconds pass.
    Pause(u64),
    /// Try to log in.
    Try,
    /// The box is back.
    Back,
    GiveUp,
}

/// What waiting for a box to let somebody in again does next. The first pause is not
/// optional: a box that was just told to reboot still answers, and a login then
/// reaches the system that is going down.
pub open spec fn wait_step(at: WaitAt, elapsed_s: nat, secs: nat) -> WaitStep {
    match at {
        WaitAt::Start => WaitStep::Pause(REBOOT_GRACE_SECS),
        WaitAt::Rested => if elapsed_s < secs {
            WaitStep::Try
        } else {
            WaitStep::GiveUp
        },
        WaitAt::Tried(true) => WaitStep::Back,
        WaitAt::Tried(false) => WaitStep::Pause(RETRY_SECS),
    }
}

/// One step of the wait, with the seconds since it began and those it may take.
pub fn wait_for_login(at: WaitAt, elapsed_s: u64, secs: u64) -> (r: WaitStep)
    ensures
        r == wait_step(at, elapsed_s as nat, secs as nat),
{
    match at {
        WaitAt::Start => WaitStep::Pause(REBOOT_GRACE_SECS),
        WaitAt::Rested => {
            if elapsed_s < secs {
                WaitStep::Try
            } else {
                WaitStep::GiveUp
            }
        },
        WaitAt::Tried(true) => WaitStep::Back,
        WaitAt::Tried(false) => WaitStep::Pause(RETRY_SECS),
    }
}

/// A step carried out: where the wait stands after it, and how many seconds have
/// passed at least since it began.
pub open spec fn waited(at: WaitAt, elapsed_s: nat, secs: nat, answered: bool) -> (WaitAt, nat) {
    match wait_step(at, elapsed_s, secs) {
        WaitStep::Pause(n) => (WaitAt::Rested, elapsed_s + n as nat),
        WaitStep::Try => (WaitAt::Tried(answered), elapsed_s),
        _ => (at, elapsed_s),
    }
}

/// The wait after a run of steps, each of which took as long as it says and a while
/// more, and its tries answered as given.
pub open spec fn wait_after(secs: nat, run: Seq<(bool, nat)>) -> (WaitAt, nat)
    decreases run.len(),
{
    if run.len() == 0 {
        (WaitAt::Start, 0)
    } else {
        let (at, s) = wait_after(secs, run.drop_last());
        let (next, least) = waited(at, s, secs, run.last().0);
        (next, least + run.last().1)
    }
}

/// Nobody logs in before the box went down: whatever the tries answer and however
/// long they take, no try comes before the grace is over, and none once the time is
/// up.
pub proof fn law_no_login_before_the_grace(secs: nat, run: Seq<(bool, nat)>)
    ensures
        ({
            let (at, s) = wait_after(secs, run);
            &&& at == WaitAt::Start || s >= REBOOT_GRACE_SECS
            &&& wait_step(at, s, secs) is Try ==> REBOOT_GRACE_SECS <= s < secs
            &&& wait_step(at, s, secs) is Back ==> s >= REBOOT_GRACE_SECS
        }),
    decreases run.len(),
{
    if run.len() > 0 {
        law_no_login_before_the_grace(secs, run.drop_last());
    }
}

} // verus!
