//! HC-800 install flows: `kexec`, which writes nothing, and `grub`, which stays.
//!
//! This board hands out a working, unlocked PC boot chain, so the care is spent
//! on not breaking the way back.
use crate::engine::flow::{
    done, fail, failed, finish, put_slice, put_text, putting, quiet, read, reading, reply_model, run, running,
    EventModel, Log, Reply, Turn, TurnModel,
};
use crate::engine::network::{blank, is_blank, number_or, parse_or};
use crate::engine::release::{artefact, Release};
use crate::flasher::board::opt_str;
use crate::flasher::hc800::{
    default_file, default_text, entry_text, menu_entry, CMDLINE, ENTRY_OPENHC, ENTRY_VENDOR, GRUB_LABEL, GRUB_PART,
    GUARD_BUTTON, GUARD_SUPPORT, INITRD_FILE, KERNEL_FILE, KERNEL_LABEL, KERNEL_PART,
};
use crate::num::{dec, dec_string};
use crate::text::{
    cat2, cat3, cat4, cat5, cat6, cat7, contains, contains_str, lines, lines_of, push_chars, same, slices,
    starts_with, starts_with_str, to_chars, trim_start, trim_start_of, utf8, Class,
};
use vstd::prelude::*;
use vstd::string::*;

verus! {

// --------------------------------------------------------------------- the images

pub open spec fn either(a: Option<Seq<u8>>, b: Option<Seq<u8>>) -> Option<Seq<u8>> {
    if a is Some {
        a
    } else {
        b
    }
}

pub open spec fn kernel_of(files: Map<Seq<char>, Seq<u8>>) -> Option<Seq<u8>> {
    either(artefact(files, "openhc-hc800-kernel.img"@), artefact(files, "bzImage"@))
}

pub open spec fn initrd_of(files: Map<Seq<char>, Seq<u8>>) -> Option<Seq<u8>> {
    either(artefact(files, "openhc-initrd.gz"@), artefact(files, "rootfs.cpio.gz"@))
}

/// The kernel and initramfs of a release, under the bundle's prefixed names or
/// the build's own.
pub fn images(rel: &Release) -> (r: Result<(&[u8], &[u8]), String>)
    requires
        rel.wf(),
    ensures
        match (kernel_of(rel@), initrd_of(rel@)) {
            (None, _) => r is Err && r->Err_0@ == "release has no bzImage"@,
            (Some(_), None) => r is Err && r->Err_0@ == "release has no rootfs.cpio.gz"@,
            (Some(k), Some(i)) => r is Ok && r->Ok_0.0@ == k && r->Ok_0.1@ == i,
        },
{
    let kernel = match rel.get("openhc-hc800-kernel.img") {
        Some(k) => k,
        None => match rel.get("bzImage") {
            Some(k) => k,
            None => {
                return Err(String::from_str("release has no bzImage"));
            },
        },
    };
    let initrd = match rel.get("openhc-initrd.gz") {
        Some(k) => k,
        None => match rel.get("rootfs.cpio.gz") {
            Some(k) => k,
            None => {
                return Err(String::from_str("release has no rootfs.cpio.gz"));
            },
        },
    };
    Ok((kernel, initrd))
}

/// A sum of two lengths, in units.
fn units(a: usize, b: usize, unit: u64) -> (r: u64)
    requires
        unit >= 1024,
    ensures
        r == (a as nat + b as nat) / unit as nat,
        r <= 0x80_0000_0000_0000,
{
    let sum: u128 = a as u128 + b as u128;
    let q: u128 = sum / unit as u128;
    assert(q <= 0x80_0000_0000_0000) by (nonlinear_arith)
        requires
            q == sum / unit as u128,
            unit >= 1024,
            sum <= 0x1_ffff_ffff_ffff_fffe,
    ;
    q as u64
}

// -------------------------------------------------------------------------- kexec

pub const STAGED_KERNEL: &'static str = "/tmp/openhc-bzImage";

pub const STAGED_INITRD: &'static str = "/tmp/openhc-initrd.gz";

pub const STATIC_KEXEC: &'static str = "/tmp/kexec-i686-static";

/// Stop the watchdog before the handover: a kicker killed without the magic
/// close arms the timer rather than disarming it.
pub const STOP_WATCHDOG: &'static str = "/etc/init.d/S02watchdog stop 2>/dev/null; true";

#[derive(Debug, Clone, Copy, PartialEq, Eq, Structural)]
pub enum KexecAt {
    Start,
    KernelPut,
    InitrdPut,
    KernelLen,
    InitrdLen,
    Which,
    Static,
    /// Whether the box has its own `kexec`.
    Watchdog(bool),
    Loaded(bool),
    Jumped,
    Ended,
}

/// Start openHC out of the running system, writing to no partition.
#[derive(Debug)]
pub struct Kexec<'a> {
    at: KexecAt,
    kernel: &'a [u8],
    initrd: &'a [u8],
    netconsole: Option<&'a str>,
}

pub ghost struct KexecModel {
    pub at: KexecAt,
    pub kernel: Seq<u8>,
    pub initrd: Seq<u8>,
    pub netconsole: Option<Seq<char>>,
}

impl<'a> View for Kexec<'a> {
    type V = KexecModel;

    closed spec fn view(&self) -> KexecModel {
        KexecModel {
            at: self.at,
            kernel: self.kernel@,
            initrd: self.initrd@,
            netconsole: opt_str(self.netconsole),
        }
    }
}

pub open spec fn kexec_tool(own: bool) -> Seq<char> {
    if own {
        "kexec"@
    } else {
        STATIC_KEXEC@
    }
}

fn kexec_bin(own: bool) -> (r: &'static str)
    ensures
        r@ == kexec_tool(own),
{
    if own {
        "kexec"
    } else {
        STATIC_KEXEC
    }
}

/// The length that landed, against the one that was sent.
pub open spec fn length_verdict(reply: Result<Seq<char>, Seq<char>>, path: Seq<char>, verb: Seq<char>, want: nat) -> Result<
    Seq<char>,
    Seq<char>,
> {
    match reply {
        Err(e) => Err(e),
        Ok(out) => {
            let got = number_or(out, 0);
            if got != want {
                Err(path + ": "@ + verb + " "@ + dec(got) + " bytes, expected "@ + dec(want))
            } else {
                Ok(path + ": "@ + dec(got) + " bytes"@)
            }
        },
    }
}

fn check_length(reply: &Reply, path: &str, verb: &str, want: usize) -> (r: Result<String, String>)
    ensures
        reply_model(r) == length_verdict(reply_model(*reply), path@, verb@, want as nat),
{
    match reply {
        Err(e) => Err(e.clone()),
        Ok(out) => {
            let got: u64 = parse_or(out.as_str(), 0);
            if got != want as u64 {
                Err(
                    cat7(
                        path,
                        ": ",
                        verb,
                        " ",
                        dec_string(got).as_str(),
                        " bytes, expected ",
                        dec_string(want as u64).as_str(),
                    ),
                )
            } else {
                Ok(cat4(path, ": ", dec_string(got).as_str(), " bytes"))
            }
        },
    }
}

/// The command line of the new kernel.
pub open spec fn append_text(netconsole: Option<Seq<char>>) -> Seq<char> {
    match netconsole {
        None => CMDLINE@,
        Some(nc) => CMDLINE@ + " "@ + nc,
    }
}

pub open spec fn load_command(own: bool, netconsole: Option<Seq<char>>) -> Seq<char> {
    kexec_tool(own) + " -l "@ + STAGED_KERNEL@ + " --initrd="@ + STAGED_INITRD@ + " --append='"@ + append_text(
        netconsole,
    ) + "'"@
}

pub open spec fn no_kexec_text() -> Seq<char> {
    "no kexec on this system. The stock Control4 image has none; build the static i686 one (.github/workflows/tools.yml) and put it at "@
        + STATIC_KEXEC@
}

/// The handover. The kernel holds both images by now, and the place they were
/// staged in is real disk on a stock box, so they are removed first.
pub open spec fn jump_command(own: bool) -> Seq<char> {
    "rm -f "@ + STAGED_KERNEL@ + " "@ + STAGED_INITRD@ + "; sync; "@ + kexec_tool(own) + " -e"@
}

pub open spec fn kexec_turn(m: KexecModel, reply: Result<Seq<char>, Seq<char>>) -> (KexecAt, TurnModel) {
    match m.at {
        KexecAt::Start => (
            KexecAt::KernelPut,
            putting(
                quiet().push(
                    EventModel::Step(
                        "staging "@ + dec((m.kernel.len() + m.initrd.len()) / 1048576) + " MB to /tmp"@,
                    ),
                ),
                m.kernel,
                "cat > "@ + STAGED_KERNEL@,
            ),
        ),
        KexecAt::KernelPut => match reply {
            Err(e) => (KexecAt::Ended, failed(e)),
            Ok(_) => (KexecAt::InitrdPut, putting(quiet(), m.initrd, "cat > "@ + STAGED_INITRD@)),
        },
        KexecAt::InitrdPut => match reply {
            Err(e) => (KexecAt::Ended, failed(e)),
            Ok(_) => (KexecAt::KernelLen, running(quiet(), "wc -c < "@ + STAGED_KERNEL@, true)),
        },
        KexecAt::KernelLen => match length_verdict(reply, STAGED_KERNEL@, "staged"@, m.kernel.len()) {
            Err(why) => (KexecAt::Ended, failed(why)),
            Ok(told) => (
                KexecAt::InitrdLen,
                running(quiet().push(EventModel::Detail(told)), "wc -c < "@ + STAGED_INITRD@, true),
            ),
        },
        KexecAt::InitrdLen => match length_verdict(reply, STAGED_INITRD@, "staged"@, m.initrd.len()) {
            Err(why) => (KexecAt::Ended, failed(why)),
            Ok(told) => (
                KexecAt::Which,
                running(quiet().push(EventModel::Detail(told)), "command -v kexec"@, false),
            ),
        },
        KexecAt::Which => if reply is Ok && !is_blank(reply->Ok_0) {
            (KexecAt::Watchdog(true), running(quiet(), STOP_WATCHDOG@, false))
        } else {
            (KexecAt::Static, running(quiet(), "test -x "@ + STATIC_KEXEC@, false))
        },
        KexecAt::Static => match reply {
            Err(_) => (KexecAt::Ended, failed(no_kexec_text())),
            Ok(_) => (KexecAt::Watchdog(false), running(quiet(), STOP_WATCHDOG@, false)),
        },
        KexecAt::Watchdog(own) => {
            let log = match m.netconsole {
                Some(nc) => quiet().push(EventModel::Detail("netconsole: "@ + nc)),
                None => quiet(),
            };
            (
                KexecAt::Loaded(own),
                running(
                    log.push(EventModel::Step("kexec -l (staging into the running kernel)"@)),
                    load_command(own, m.netconsole),
                    true,
                ),
            )
        },
        KexecAt::Loaded(own) => match reply {
            Err(e) => (KexecAt::Ended, failed("kexec -l refused the image: "@ + e)),
            Ok(_) => (
                KexecAt::Jumped,
                running(
                    quiet().push(EventModel::Step("kexec -e — this connection will drop"@)),
                    jump_command(own),
                    false,
                ),
            ),
        },
        KexecAt::Jumped => (
            KexecAt::Ended,
            done(
                quiet().push(
                    EventModel::Resolved(
                        "openHC is starting. It takes a fresh DHCP lease, so find it by MAC, not by its old address"@,
                    ),
                ),
            ),
        ),
        KexecAt::Ended => (KexecAt::Ended, done(quiet())),
    }
}

fn detail_log(told: String) -> (r: Log)
    ensures
        r@ == quiet().push(EventModel::Detail(told@)),
{
    let mut log = Log::new();
    log.detail(told);
    log
}

fn step_log(told: String) -> (r: Log)
    ensures
        r@ == quiet().push(EventModel::Step(told@)),
{
    let mut log = Log::new();
    log.step(told);
    log
}

impl<'a> Kexec<'a> {
    pub fn new(kernel: &'a [u8], initrd: &'a [u8], netconsole: Option<&'a str>) -> (r: Kexec<'a>)
        ensures
            r@ == (KexecModel {
                at: KexecAt::Start,
                kernel: kernel@,
                initrd: initrd@,
                netconsole: opt_str(netconsole),
            }),
    {
        Kexec { at: KexecAt::Start, kernel, initrd, netconsole }
    }

    fn load(&self, own: bool) -> (r: Turn<'a>)
        requires
            self@.at == KexecAt::Watchdog(own),
        ensures
            forall|reply: Result<Seq<char>, Seq<char>>| r@ == #[trigger] kexec_turn(self@, reply).1,
    {
        let mut log = Log::new();
        let append = match self.netconsole {
            Some(nc) => {
                log.detail(cat2("netconsole: ", nc));
                cat3(CMDLINE, " ", nc)
            },
            None => String::from_str(CMDLINE),
        };
        log.step(String::from_str("kexec -l (staging into the running kernel)"));
        let mut command = cat6(
            kexec_bin(own),
            " -l ",
            STAGED_KERNEL,
            " --initrd=",
            STAGED_INITRD,
            " --append='",
        );
        command.append(append.as_str());
        command.append("'");
        run(log, command, true)
    }

    /// Take the reply to the last operation and say what follows.
    pub fn next(&mut self, reply: Reply) -> (r: Turn<'a>)
        ensures
            (final(self)@.at, r@) == kexec_turn(old(self)@, reply_model(reply)),
            final(self)@ == (KexecModel { at: final(self)@.at, ..old(self)@ }),
    {
        let (at, turn): (KexecAt, Turn<'a>) = match self.at {
            KexecAt::Start => {
                let mb: u64 = units(self.kernel.len(), self.initrd.len(), 1048576);
                let log = step_log(cat3("staging ", dec_string(mb).as_str(), " MB to /tmp"));
                (KexecAt::KernelPut, put_slice(log, self.kernel, cat2("cat > ", STAGED_KERNEL)))
            },
            KexecAt::KernelPut => match &reply {
                Err(e) => (KexecAt::Ended, fail(e.clone())),
                Ok(_) => (
                    KexecAt::InitrdPut,
                    put_slice(Log::new(), self.initrd, cat2("cat > ", STAGED_INITRD)),
                ),
            },
            KexecAt::InitrdPut => match &reply {
                Err(e) => (KexecAt::Ended, fail(e.clone())),
                Ok(_) => (KexecAt::KernelLen, run(Log::new(), cat2("wc -c < ", STAGED_KERNEL), true)),
            },
            KexecAt::KernelLen => match check_length(&reply, STAGED_KERNEL, "staged", self.kernel.len()) {
                Err(why) => (KexecAt::Ended, fail(why)),
                Ok(told) => (
                    KexecAt::InitrdLen,
                    run(detail_log(told), cat2("wc -c < ", STAGED_INITRD), true),
                ),
            },
            KexecAt::InitrdLen => match check_length(&reply, STAGED_INITRD, "staged", self.initrd.len()) {
                Err(why) => (KexecAt::Ended, fail(why)),
                Ok(told) => (
                    KexecAt::Which,
                    run(detail_log(told), String::from_str("command -v kexec"), false),
                ),
            },
            KexecAt::Which => {
                let own: bool = match &reply {
                    Ok(out) => !blank(out.as_str()),
                    Err(_) => false,
                };
                if own {
                    (KexecAt::Watchdog(true), run(Log::new(), String::from_str(STOP_WATCHDOG), false))
                } else {
                    (KexecAt::Static, run(Log::new(), cat2("test -x ", STATIC_KEXEC), false))
                }
            },
            KexecAt::Static => match &reply {
                Err(_) => (
                    KexecAt::Ended,
                    fail(
                        cat2(
                            "no kexec on this system. The stock Control4 image has none; build the static i686 one (.github/workflows/tools.yml) and put it at ",
                            STATIC_KEXEC,
                        ),
                    ),
                ),
                Ok(_) => (KexecAt::Watchdog(false), run(Log::new(), String::from_str(STOP_WATCHDOG), false)),
            },
            KexecAt::Watchdog(own) => (KexecAt::Loaded(own), self.load(own)),
            KexecAt::Loaded(own) => match &reply {
                Err(e) => (KexecAt::Ended, fail(cat2("kexec -l refused the image: ", e.as_str()))),
                Ok(_) => (
                    KexecAt::Jumped,
                    run(
                        step_log(String::from_str("kexec -e — this connection will drop")),
                        cat7(
                            "rm -f ",
                            STAGED_KERNEL,
                            " ",
                            STAGED_INITRD,
                            "; sync; ",
                            kexec_bin(own),
                            " -e",
                        ),
                        false,
                    ),
                ),
            },
            KexecAt::Jumped => {
                let mut log = Log::new();
                log.resolved(
                    String::from_str(
                        "openHC is starting. It takes a fresh DHCP lease, so find it by MAC, not by its old address",
                    ),
                );
                (KexecAt::Ended, finish(log))
            },
            KexecAt::Ended => (KexecAt::Ended, finish(Log::new())),
        };
        self.at = at;
        turn
    }
}

/// Everything the kexec flow streams goes to a staging file; no partition is
/// written.
pub proof fn law_kexec_writes_no_partition(m: KexecModel, reply: Result<Seq<char>, Seq<char>>)
    ensures
        kexec_turn(m, reply).1.next matches crate::engine::flow::NextModel::Do(
            crate::engine::flow::OpModel::Put { data, command },
        ) ==> (data == m.kernel && command == "cat > "@ + STAGED_KERNEL@) || (data == m.initrd && command
            == "cat > "@ + STAGED_INITRD@),
{
}

/// The flow cleans up after itself: it jumps only once both images are loaded, and
/// with the jump the files they were staged in are gone.
pub proof fn law_kexec_cleans_up(m: KexecModel, reply: Result<Seq<char>, Seq<char>>)
    requires
        kexec_turn(m, reply).0 is Jumped,
    ensures
        reply is Ok,
        m.at matches KexecAt::Loaded(own) && kexec_turn(m, reply).1.next == (crate::engine::flow::NextModel::Do(
            crate::engine::flow::OpModel::Run { command: jump_command(own), must: false },
        )),
        forall|own: bool|
            starts_with(
                #[trigger] jump_command(own),
                "rm -f "@ + STAGED_KERNEL@ + " "@ + STAGED_INITRD@ + "; "@,
            ),
{
    reveal_strlit("; ");
    reveal_strlit("; sync; ");
    assert forall|own: bool|
        starts_with(
            #[trigger] jump_command(own),
            "rm -f "@ + STAGED_KERNEL@ + " "@ + STAGED_INITRD@ + "; "@,
        ) by {
        let p = "rm -f "@ + STAGED_KERNEL@ + " "@ + STAGED_INITRD@ + "; "@;
        assert(jump_command(own).subrange(0, p.len() as int) =~= p);
    }
}

// --------------------------------------------------------------------------- grub

pub const GRUB_MOUNT: &'static str = "/mnt/ohc-grub";

pub const KERNEL_MOUNT: &'static str = "/mnt/ohc-kernel";

pub const MENU: &'static str = "/mnt/ohc-grub/boot/grub/menu.lst";

pub const GRUB_DEFAULT: &'static str = "/mnt/ohc-grub/boot/grub/default";

/// A menu line that belongs to the factory-default button.
pub open spec fn guarded(line: Seq<char>, guard: Seq<char>) -> bool {
    starts_with(trim_start(line, Class::White), guard)
}

pub open spec fn guarded_in(ls: Seq<Seq<char>>, guard: Seq<char>) -> bool {
    exists|i: int| 0 <= i < ls.len() && guarded(#[trigger] ls[i], guard)
}

/// The first guarded line that a menu lacks.
pub open spec fn missing_guard(menu: Seq<char>) -> Option<Seq<char>> {
    if !guarded_in(lines(menu), GUARD_SUPPORT@) {
        Some(GUARD_SUPPORT@)
    } else if !guarded_in(lines(menu), GUARD_BUTTON@) {
        Some(GUARD_BUTTON@)
    } else {
        None
    }
}

fn has_guard(menu: &str, guard: &str) -> (r: bool)
    ensures
        r == guarded_in(lines(menu@), guard@),
{
    let chars = to_chars(menu);
    let ls = lines_of(chars.as_slice());
    let ghost all = slices(ls@);
    let mut i: usize = 0;
    while i < ls.len()
        invariant
            i <= ls@.len(),
            all == slices(ls@),
            all == lines(menu@),
            forall|k: int| 0 <= k < i ==> !guarded(#[trigger] all[k], guard@),
        decreases ls@.len() - i,
    {
        assert(all[i as int] == ls@[i as int]@);
        if starts_with_str(trim_start_of(ls[i], &Class::White), guard) {
            return true;
        }
        i += 1;
    }
    false
}

fn find_missing_guard(menu: &str) -> (r: Option<&'static str>)
    ensures
        opt_str(r) == missing_guard(menu@),
{
    if !has_guard(menu, GUARD_SUPPORT) {
        Some(GUARD_SUPPORT)
    } else if !has_guard(menu, GUARD_BUTTON) {
        Some(GUARD_BUTTON)
    } else {
        None
    }
}

/// A `default` line that does not already follow the saved entry.
pub open spec fn is_default_line(line: Seq<char>) -> bool {
    starts_with(trim_start(line, Class::White), "default"@) && !contains(line, "saved"@)
}

/// What becomes of one line: only the default changes.
pub open spec fn menu_line(line: Seq<char>) -> Seq<char> {
    if is_default_line(line) {
        "default\t\tsaved"@
    } else {
        line
    }
}

/// The vendor's lines, each ended by a newline, with the default following the
/// saved entry.
pub open spec fn menu_lines(ls: Seq<Seq<char>>) -> Seq<char>
    decreases ls.len(),
{
    if ls.len() == 0 {
        seq![]
    } else {
        menu_lines(ls.drop_last()) + menu_line(ls.last()) + "\n"@
    }
}

pub open spec fn has_default(ls: Seq<Seq<char>>) -> bool {
    exists|i: int| 0 <= i < ls.len() && is_default_line(#[trigger] ls[i])
}

/// The new menu: the vendor's entries untouched, openHC's appended past them.
pub open spec fn new_menu(before: Seq<char>) -> Seq<char> {
    menu_lines(lines(before)) + entry_text(true)
}

/// `default N` becomes `default saved`, which turns the entry's `savedefault`
/// into a boot-once. Nothing when there is no such line to convert.
pub fn rewrite_menu(before: &str) -> (r: Option<String>)
    ensures
        match r {
            Some(out) => has_default(lines(before@)) && out@ == new_menu(before@),
            None => !has_default(lines(before@)),
        },
{
    let chars = to_chars(before);
    let ls = lines_of(chars.as_slice());
    let ghost all = slices(ls@);
    let mut out = String::new();
    let mut swapped: bool = false;
    let mut i: usize = 0;
    assert(out@ =~= menu_lines(all.take(0)));
    while i < ls.len()
        invariant
            i <= ls@.len(),
            all == slices(ls@),
            out@ == menu_lines(all.take(i as int)),
            swapped ==> has_default(all),
            !swapped ==> forall|k: int| 0 <= k < i ==> !is_default_line(#[trigger] all[k]),
        decreases ls@.len() - i,
    {
        assert(all.take(i + 1).drop_last() =~= all.take(i as int));
        assert(all[i as int] == ls@[i as int]@);
        if starts_with_str(trim_start_of(ls[i], &Class::White), "default") && !contains_str(ls[i], "saved") {
            out.append("default\t\tsaved");
            out.append("\n");
            swapped = true;
        } else {
            push_chars(&mut out, ls[i]);
            out.append("\n");
        }
        i += 1;
    }
    assert(all.take(all.len() as int) =~= all);
    if !swapped {
        return None;
    }
    out.append(menu_entry(true).as_str());
    Some(out)
}

/// A line of the factory-default button is never rewritten.
pub proof fn law_guarded_lines_are_kept(line: Seq<char>)
    requires
        guarded(line, GUARD_SUPPORT@) || guarded(line, GUARD_BUTTON@),
    ensures
        menu_line(line) == line,
{
    reveal_strlit("support_factorydefault");
    reveal_strlit("factorydefault");
    reveal_strlit("default");
    let t = trim_start(line, Class::White);
    if starts_with(t, "default"@) {
        assert(t.subrange(0, "default"@.len() as int)[0] == 'd');
        if starts_with(t, GUARD_SUPPORT@) {
            assert(t.subrange(0, GUARD_SUPPORT@.len() as int)[0] == 's');
        } else {
            assert(t.subrange(0, GUARD_BUTTON@.len() as int)[0] == 'f');
        }
    }
}

/// Where the persistent install stands.
#[derive(Debug, Clone, Copy, PartialEq, Eq, Structural)]
pub enum GrubAt {
    Start,
    MountKernel,
    Free,
    KernelPut,
    InitrdPut,
    KernelLen,
    InitrdLen,
    UnmountKernel,
    MountGrub,
    Before,
    /// The menu already has an openHC entry.
    Already,
    Backup,
    MenuPut,
    DefaultPut,
    After,
    UnmountGrub,
    /// Cleaning up before the failure is reported.
    Cleanup,
    Ended,
}

/// The persistent install: the only flow that writes the bootloader partition,
/// so it checks before it does and reads back after.
#[derive(Debug)]
pub struct InstallGrub<'a> {
    at: GrubAt,
    kernel: &'a [u8],
    initrd: &'a [u8],
    /// The vendor's menu.
    before: String,
    /// The menu that was written.
    menu: String,
    /// The failure to report after cleaning up.
    why: String,
}

pub ghost struct GrubModel {
    pub at: GrubAt,
    pub kernel: Seq<u8>,
    pub initrd: Seq<u8>,
    pub before: Seq<char>,
    pub menu: Seq<char>,
    pub why: Seq<char>,
}

impl<'a> View for InstallGrub<'a> {
    type V = GrubModel;

    closed spec fn view(&self) -> GrubModel {
        GrubModel {
            at: self.at,
            kernel: self.kernel@,
            initrd: self.initrd@,
            before: self.before@,
            menu: self.menu@,
            why: self.why@,
        }
    }
}

pub open spec fn mount_command(mnt: Seq<char>, part: Seq<char>) -> Seq<char> {
    "mkdir -p "@ + mnt + " && mount "@ + part + " "@ + mnt
}

pub open spec fn mount_told(part: Seq<char>, label: Seq<char>) -> EventModel {
    EventModel::Step("mounting "@ + part + " ("@ + label + ")"@)
}

pub open spec fn mount_failed(part: Seq<char>, e: Seq<char>) -> Seq<char> {
    "cannot mount "@ + part + ": "@ + e
}

pub open spec fn need_kb(m: GrubModel) -> nat {
    (m.kernel.len() + m.initrd.len()) / 1024
}

impl GrubModel {
    pub open spec fn go(self, at: GrubAt) -> GrubModel {
        GrubModel { at, ..self }
    }

    /// Clean up, then fail for this reason.
    pub open spec fn bail(self, why: Seq<char>, command: Seq<char>) -> (GrubModel, TurnModel) {
        (GrubModel { at: GrubAt::Cleanup, why, ..self }, running(quiet(), command, false))
    }

    pub open spec fn stop(self, why: Seq<char>) -> (GrubModel, TurnModel) {
        (self.go(GrubAt::Ended), failed(why))
    }
}

pub open spec fn unmount_command(mnt: Seq<char>) -> Seq<char> {
    "umount "@ + mnt
}

pub open spec fn sync_unmount_command(mnt: Seq<char>) -> Seq<char> {
    "sync; umount "@ + mnt
}

/// Put the vendor's menu back.
pub open spec fn restore_command() -> Seq<char> {
    "cp "@ + MENU@ + ".pre-openhc "@ + MENU@ + "; sync; umount "@ + GRUB_MOUNT@
}

pub open spec fn free_turn(m: GrubModel, out: Seq<char>) -> (GrubModel, TurnModel) {
    let free = number_or(out, 0);
    if free < need_kb(m) + 4096 {
        m.bail(
            KERNEL_PART@ + " has "@ + dec(free) + " KB free, need "@ + dec(need_kb(m)) + " KB plus headroom"@,
            unmount_command(KERNEL_MOUNT@),
        )
    } else {
        (
            m.go(GrubAt::KernelPut),
            putting(
                quiet().push(EventModel::Detail(dec(free) + " KB free, writing "@ + dec(need_kb(m)) + " KB"@)),
                m.kernel,
                "cat > "@ + KERNEL_MOUNT@ + KERNEL_FILE@,
            ),
        )
    }
}

/// The vendor's menu is looked at before anything on that partition is touched.
pub open spec fn before_turn(m: GrubModel, before: Seq<char>) -> (GrubModel, TurnModel) {
    match missing_guard(before) {
        Some(line) => m.bail(
            "menu.lst has no `"@ + line + "` line — the factory-default button depends on it"@,
            unmount_command(GRUB_MOUNT@),
        ),
        None => if contains(before, "title\t\topenHC"@) || contains(before, "title openHC"@) {
            (
                m.go(GrubAt::Already),
                running(
                    quiet().push(
                        EventModel::Warn("menu.lst already has an openHC entry; replacing the images only"@),
                    ),
                    sync_unmount_command(GRUB_MOUNT@),
                    true,
                ),
            )
        } else {
            (
                GrubModel { at: GrubAt::Backup, before, ..m },
                running(quiet(), "cp "@ + MENU@ + " "@ + MENU@ + ".pre-openhc"@, true),
            )
        },
    }
}

pub open spec fn backup_turn(m: GrubModel) -> (GrubModel, TurnModel) {
    let log = quiet().push(EventModel::Detail("kept "@ + MENU@ + ".pre-openhc"@));
    if !has_default(lines(m.before)) {
        (
            GrubModel {
                at: GrubAt::Cleanup,
                why: "menu.lst has no `default` line to convert"@,
                ..m
            },
            running(log, unmount_command(GRUB_MOUNT@), false),
        )
    } else {
        (
            GrubModel { at: GrubAt::MenuPut, menu: new_menu(m.before), ..m },
            putting(log, utf8(new_menu(m.before)), "cat > "@ + MENU@),
        )
    }
}

/// What was written is read back; anything else than exactly that restores the
/// backup.
pub open spec fn after_turn(m: GrubModel, after: Seq<char>) -> (GrubModel, TurnModel) {
    if after != m.menu {
        m.bail(
            "menu.lst read back differently than written — restored the backup, nothing changed"@,
            restore_command(),
        )
    } else {
        match missing_guard(after) {
            Some(line) => m.bail(
                "`"@ + line + "` did not survive the write — restored the backup"@,
                restore_command(),
            ),
            None => (
                m.go(GrubAt::UnmountGrub),
                running(
                    quiet().push(
                        EventModel::Detail("menu.lst verified, "@ + dec(utf8(after).len()) + " bytes"@),
                    ),
                    sync_unmount_command(GRUB_MOUNT@),
                    true,
                ),
            ),
        }
    }
}

pub open spec fn installed_told() -> EventModel {
    EventModel::Resolved(
        "installed. The next boot runs openHC; every openHC boot then re-points the default at entry "@ + dec(
            ENTRY_VENDOR as nat,
        ) + " (Control4), so a reset of any kind returns to stock"@,
    )
}

pub open spec fn grub_turn(m: GrubModel, reply: Result<Seq<char>, Seq<char>>) -> (GrubModel, TurnModel) {
    match (m.at, reply) {
        (GrubAt::Start, _) => (
            m.go(GrubAt::MountKernel),
            running(
                quiet().push(mount_told(KERNEL_PART@, KERNEL_LABEL@)),
                mount_command(KERNEL_MOUNT@, KERNEL_PART@),
                true,
            ),
        ),
        (GrubAt::MountKernel, Err(e)) => m.stop(mount_failed(KERNEL_PART@, e)),
        (GrubAt::MountKernel, Ok(_)) => (
            m.go(GrubAt::Free),
            running(quiet(), "df -k "@ + KERNEL_MOUNT@ + " | awk 'NR==2 {print $4}'"@, true),
        ),
        (GrubAt::Free, Err(e)) => m.stop(e),
        (GrubAt::Free, Ok(out)) => free_turn(m, out),
        (GrubAt::KernelPut, Err(e)) => m.stop(e),
        (GrubAt::KernelPut, Ok(_)) => (
            m.go(GrubAt::InitrdPut),
            putting(quiet(), m.initrd, "cat > "@ + KERNEL_MOUNT@ + INITRD_FILE@),
        ),
        (GrubAt::InitrdPut, Err(e)) => m.stop(e),
        (GrubAt::InitrdPut, Ok(_)) => (
            m.go(GrubAt::KernelLen),
            running(quiet(), "wc -c < "@ + KERNEL_MOUNT@ + KERNEL_FILE@, true),
        ),
        (GrubAt::KernelLen, Err(e)) => m.stop(e),
        (GrubAt::KernelLen, Ok(out)) => match length_verdict(reply, KERNEL_FILE@, "wrote"@, m.kernel.len()) {
            Err(why) => m.bail(why, unmount_command(KERNEL_MOUNT@)),
            Ok(told) => (
                m.go(GrubAt::InitrdLen),
                running(
                    quiet().push(EventModel::Detail(told)),
                    "wc -c < "@ + KERNEL_MOUNT@ + INITRD_FILE@,
                    true,
                ),
            ),
        },
        (GrubAt::InitrdLen, Err(e)) => m.stop(e),
        (GrubAt::InitrdLen, Ok(out)) => match length_verdict(reply, INITRD_FILE@, "wrote"@, m.initrd.len()) {
            Err(why) => m.bail(why, unmount_command(KERNEL_MOUNT@)),
            Ok(told) => (
                m.go(GrubAt::UnmountKernel),
                running(
                    quiet().push(EventModel::Detail(told)),
                    sync_unmount_command(KERNEL_MOUNT@),
                    true,
                ),
            ),
        },
        (GrubAt::UnmountKernel, Err(e)) => m.stop(e),
        (GrubAt::UnmountKernel, Ok(_)) => (
            m.go(GrubAt::MountGrub),
            running(
                quiet().push(mount_told(GRUB_PART@, GRUB_LABEL@)),
                mount_command(GRUB_MOUNT@, GRUB_PART@),
                true,
            ),
        ),
        (GrubAt::MountGrub, Err(e)) => m.stop(mount_failed(GRUB_PART@, e)),
        (GrubAt::MountGrub, Ok(_)) => (m.go(GrubAt::Before), reading(quiet(), MENU@)),
        (GrubAt::Before, Err(_)) => m.stop(
            MENU@ + " is unreadable — refusing to write a bootloader blind"@,
        ),
        (GrubAt::Before, Ok(before)) => before_turn(m, before),
        (GrubAt::Already, Err(e)) => m.stop(e),
        (GrubAt::Already, Ok(_)) => (m.go(GrubAt::Ended), done(quiet())),
        (GrubAt::Backup, Err(e)) => m.stop(e),
        (GrubAt::Backup, Ok(_)) => backup_turn(m),
        (GrubAt::MenuPut, Err(e)) => m.stop(e),
        (GrubAt::MenuPut, Ok(_)) => (
            m.go(GrubAt::DefaultPut),
            putting(quiet(), utf8(default_text(ENTRY_OPENHC as nat)), "cat > "@ + GRUB_DEFAULT@),
        ),
        (GrubAt::DefaultPut, Err(e)) => m.stop(e),
        (GrubAt::DefaultPut, Ok(_)) => (m.go(GrubAt::After), reading(quiet(), MENU@)),
        (GrubAt::After, Err(_)) => m.stop("menu.lst unreadable after writing it"@),
        (GrubAt::After, Ok(after)) => after_turn(m, after),
        (GrubAt::UnmountGrub, Err(e)) => m.stop(e),
        (GrubAt::UnmountGrub, Ok(_)) => (m.go(GrubAt::Ended), done(quiet().push(installed_told()))),
        (GrubAt::Cleanup, _) => m.stop(m.why),
        (GrubAt::Ended, _) => (m, done(quiet())),
    }
}

impl<'a> InstallGrub<'a> {
    pub fn new(kernel: &'a [u8], initrd: &'a [u8]) -> (r: InstallGrub<'a>)
        ensures
            r@ == (GrubModel {
                at: GrubAt::Start,
                kernel: kernel@,
                initrd: initrd@,
                before: seq![],
                menu: seq![],
                why: seq![],
            }),
    {
        let r = InstallGrub {
            at: GrubAt::Start,
            kernel,
            initrd,
            before: String::new(),
            menu: String::new(),
            why: String::new(),
        };
        assert(r.before@ =~= seq![] && r.menu@ =~= seq![] && r.why@ =~= seq![]);
        r
    }

    fn bail(&mut self, why: String, command: String) -> (r: Turn<'a>)
        ensures
            (final(self)@, r@) == old(self)@.bail(why@, command@),
    {
        self.at = GrubAt::Cleanup;
        self.why = why;
        run(Log::new(), command, false)
    }

    fn stop(&mut self, why: String) -> (r: Turn<'a>)
        ensures
            (final(self)@, r@) == old(self)@.stop(why@),
    {
        self.at = GrubAt::Ended;
        fail(why)
    }

    fn mount(&mut self, to: GrubAt, mnt: &str, part: &str, label: &str) -> (r: Turn<'a>)
        ensures
            final(self)@ == old(self)@.go(to),
            r@ == running(quiet().push(mount_told(part@, label@)), mount_command(mnt@, part@), true),
    {
        self.at = to;
        let log = step_log(cat5("mounting ", part, " (", label, ")"));
        run(log, cat6("mkdir -p ", mnt, " && mount ", part, " ", mnt), true)
    }

    fn on_free(&mut self, out: &str) -> (r: Turn<'a>)
        ensures
            (final(self)@, r@) == free_turn(old(self)@, out@),
    {
        let free: u64 = parse_or(out, 0);
        let need: u64 = units(self.kernel.len(), self.initrd.len(), 1024);
        let f = dec_string(free);
        let n = dec_string(need);
        if free < need + 4096 {
            return self.bail(
                cat6(KERNEL_PART, " has ", f.as_str(), " KB free, need ", n.as_str(), " KB plus headroom"),
                cat2("umount ", KERNEL_MOUNT),
            );
        }
        self.at = GrubAt::KernelPut;
        let log = detail_log(cat4(f.as_str(), " KB free, writing ", n.as_str(), " KB"));
        put_slice(log, self.kernel, cat3("cat > ", KERNEL_MOUNT, KERNEL_FILE))
    }

    fn on_before(&mut self, before: &str) -> (r: Turn<'a>)
        ensures
            (final(self)@, r@) == before_turn(old(self)@, before@),
    {
        if let Some(line) = find_missing_guard(before) {
            return self.bail(
                cat3(
                    "menu.lst has no `",
                    line,
                    "` line — the factory-default button depends on it",
                ),
                cat2("umount ", GRUB_MOUNT),
            );
        }
        let chars = to_chars(before);
        if contains_str(chars.as_slice(), "title\t\topenHC") || contains_str(chars.as_slice(), "title openHC") {
            self.at = GrubAt::Already;
            let mut log = Log::new();
            log.warn(String::from_str("menu.lst already has an openHC entry; replacing the images only"));
            return run(log, cat2("sync; umount ", GRUB_MOUNT), true);
        }
        self.at = GrubAt::Backup;
        self.before = String::from_str(before);
        run(Log::new(), cat5("cp ", MENU, " ", MENU, ".pre-openhc"), true)
    }

    fn on_backup(&mut self) -> (r: Turn<'a>)
        ensures
            (final(self)@, r@) == backup_turn(old(self)@),
    {
        let log = detail_log(cat3("kept ", MENU, ".pre-openhc"));
        match rewrite_menu(self.before.as_str()) {
            None => {
                self.at = GrubAt::Cleanup;
                self.why = String::from_str("menu.lst has no `default` line to convert");
                run(log, cat2("umount ", GRUB_MOUNT), false)
            },
            Some(out) => {
                self.at = GrubAt::MenuPut;
                let turn = put_text(log, out.as_str(), cat2("cat > ", MENU));
                self.menu = out;
                turn
            },
        }
    }

    fn on_after(&mut self, after: &str) -> (r: Turn<'a>)
        ensures
            (final(self)@, r@) == after_turn(old(self)@, after@),
    {
        if !same(after, self.menu.as_str()) {
            return self.bail(
                String::from_str(
                    "menu.lst read back differently than written — restored the backup, nothing changed",
                ),
                cat6("cp ", MENU, ".pre-openhc ", MENU, "; sync; umount ", GRUB_MOUNT),
            );
        }
        if let Some(line) = find_missing_guard(after) {
            return self.bail(
                cat3("`", line, "` did not survive the write — restored the backup"),
                cat6("cp ", MENU, ".pre-openhc ", MENU, "; sync; umount ", GRUB_MOUNT),
            );
        }
        self.at = GrubAt::UnmountGrub;
        let len: usize = crate::text::bytes_of(after).len();
        let log = detail_log(cat3("menu.lst verified, ", dec_string(len as u64).as_str(), " bytes"));
        run(log, cat2("sync; umount ", GRUB_MOUNT), true)
    }

    fn on_length(&mut self, out: String, path: &str, want: usize, to: GrubAt, command: String) -> (r: Turn<
        'a,
    >)
        ensures
            match length_verdict(Ok(out@), path@, "wrote"@, want as nat) {
                Err(why) => (final(self)@, r@) == old(self)@.bail(why, unmount_command(KERNEL_MOUNT@)),
                Ok(told) => final(self)@ == old(self)@.go(to) && r@ == running(
                    quiet().push(EventModel::Detail(told)),
                    command@,
                    true,
                ),
            },
    {
        match check_length(&Ok(out), path, "wrote", want) {
            Err(why) => self.bail(why, cat2("umount ", KERNEL_MOUNT)),
            Ok(told) => {
                self.at = to;
                run(detail_log(told), command, true)
            },
        }
    }

    /// Take the reply to the last operation and say what follows.
    pub fn next(&mut self, reply: Reply) -> (r: Turn<'a>)
        ensures
            (final(self)@, r@) == grub_turn(old(self)@, reply_model(reply)),
    {
        match self.at {
            GrubAt::Start => {
                return self.mount(GrubAt::MountKernel, KERNEL_MOUNT, KERNEL_PART, KERNEL_LABEL);
            },
            GrubAt::Cleanup => {
                let why = self.why.clone();
                return self.stop(why);
            },
            GrubAt::Ended => {
                return finish(Log::new());
            },
            _ => {},
        }
        let out = match reply {
            Ok(out) => out,
            Err(e) => {
                return match self.at {
                    GrubAt::MountKernel => self.stop(cat4("cannot mount ", KERNEL_PART, ": ", e.as_str())),
                    GrubAt::MountGrub => self.stop(cat4("cannot mount ", GRUB_PART, ": ", e.as_str())),
                    GrubAt::Before => self.stop(
                        cat2(MENU, " is unreadable — refusing to write a bootloader blind"),
                    ),
                    GrubAt::After => self.stop(String::from_str("menu.lst unreadable after writing it")),
                    _ => self.stop(e),
                };
            },
        };
        match self.at {
            GrubAt::MountKernel => {
                self.at = GrubAt::Free;
                run(Log::new(), cat3("df -k ", KERNEL_MOUNT, " | awk 'NR==2 {print $4}'"), true)
            },
            GrubAt::Free => self.on_free(out.as_str()),
            GrubAt::KernelPut => {
                self.at = GrubAt::InitrdPut;
                put_slice(Log::new(), self.initrd, cat3("cat > ", KERNEL_MOUNT, INITRD_FILE))
            },
            GrubAt::InitrdPut => {
                self.at = GrubAt::KernelLen;
                run(Log::new(), cat3("wc -c < ", KERNEL_MOUNT, KERNEL_FILE), true)
            },
            GrubAt::KernelLen => {
                let want: usize = self.kernel.len();
                self.on_length(
                    out,
                    KERNEL_FILE,
                    want,
                    GrubAt::InitrdLen,
                    cat3("wc -c < ", KERNEL_MOUNT, INITRD_FILE),
                )
            },
            GrubAt::InitrdLen => {
                let want: usize = self.initrd.len();
                self.on_length(
                    out,
                    INITRD_FILE,
                    want,
                    GrubAt::UnmountKernel,
                    cat2("sync; umount ", KERNEL_MOUNT),
                )
            },
            GrubAt::UnmountKernel => self.mount(GrubAt::MountGrub, GRUB_MOUNT, GRUB_PART, GRUB_LABEL),
            GrubAt::MountGrub => {
                self.at = GrubAt::Before;
                read(Log::new(), String::from_str(MENU))
            },
            GrubAt::Before => self.on_before(out.as_str()),
            GrubAt::Already => {
                self.at = GrubAt::Ended;
                finish(Log::new())
            },
            GrubAt::Backup => self.on_backup(),
            GrubAt::MenuPut => {
                self.at = GrubAt::DefaultPut;
                put_text(Log::new(), default_file(ENTRY_OPENHC).as_str(), cat2("cat > ", GRUB_DEFAULT))
            },
            GrubAt::DefaultPut => {
                self.at = GrubAt::After;
                read(Log::new(), String::from_str(MENU))
            },
            GrubAt::After => self.on_after(out.as_str()),
            GrubAt::UnmountGrub => {
                self.at = GrubAt::Ended;
                let mut log = Log::new();
                log.resolved(
                    cat3(
                        "installed. The next boot runs openHC; every openHC boot then re-points the default at entry ",
                        dec_string(ENTRY_VENDOR as u64).as_str(),
                        " (Control4), so a reset of any kind returns to stock",
                    ),
                );
                finish(log)
            },
            _ => finish(Log::new()),
        }
    }
}

/// The bootloader's menu is written only from the backup point, which is
/// reached only after the vendor's menu was read and both lines of the
/// factory-default button were found in it.
pub proof fn law_the_menu_is_never_written_blind(m: GrubModel, reply: Result<Seq<char>, Seq<char>>)
    ensures
        grub_turn(m, reply).0.at is MenuPut && !(m.at is MenuPut) ==> m.at is Backup && reply is Ok && grub_turn(
            m,
            reply,
        ).1.next == crate::engine::flow::NextModel::Do(
            crate::engine::flow::OpModel::Put { data: utf8(new_menu(m.before)), command: "cat > "@ + MENU@ },
        ),
        grub_turn(m, reply).0.at is Backup && !(m.at is Backup) ==> m.at is Before && reply is Ok && grub_turn(
            m,
            reply,
        ).0.before == reply->Ok_0 && missing_guard(reply->Ok_0) is None,
{
}

/// The persistent install streams its bytes into four files and into nothing else:
/// two images on the kernel partition, and the two files that make the bootloader
/// offer them. The factory-restore system and the vendor's root are not among them.
pub proof fn law_the_install_streams_four_files(m: GrubModel, reply: Result<Seq<char>, Seq<char>>)
    ensures
        grub_turn(m, reply).1.next matches crate::engine::flow::NextModel::Do(
            crate::engine::flow::OpModel::Put { data, command },
        ) ==> {
            ||| data == m.kernel && command == "cat > "@ + KERNEL_MOUNT@ + KERNEL_FILE@
            ||| data == m.initrd && command == "cat > "@ + KERNEL_MOUNT@ + INITRD_FILE@
            ||| data == utf8(new_menu(m.before)) && command == "cat > "@ + MENU@
            ||| data == utf8(default_text(ENTRY_OPENHC as nat)) && command == "cat > "@ + GRUB_DEFAULT@
        },
{
}

/// An install counts as done only when the menu read back is exactly the menu
/// written and still carries both guarded lines; a menu that reads back
/// otherwise is replaced by the backup.
pub proof fn law_a_bad_write_is_rolled_back(m: GrubModel, after: Seq<char>)
    requires
        m.at is After,
    ensures
        grub_turn(m, Ok(after)).0.at is UnmountGrub <==> after == m.menu && missing_guard(after) is None,
        !(grub_turn(m, Ok(after)).0.at is UnmountGrub) ==> {
            &&& grub_turn(m, Ok(after)).0.at is Cleanup
            &&& grub_turn(m, Ok(after)).1 == running(quiet(), restore_command(), false)
        },
{
}

/// The flow that starts a release's images with `kexec`.
pub fn kexec<'a>(rel: &'a Release, netconsole: Option<&'a str>) -> (r: Result<Kexec<'a>, String>)
    requires
        rel.wf(),
    ensures
        match (kernel_of(rel@), initrd_of(rel@)) {
            (None, _) => r is Err && r->Err_0@ == "release has no bzImage"@,
            (Some(_), None) => r is Err && r->Err_0@ == "release has no rootfs.cpio.gz"@,
            (Some(k), Some(i)) => r is Ok && r->Ok_0@ == (KexecModel {
                at: KexecAt::Start,
                kernel: k,
                initrd: i,
                netconsole: opt_str(netconsole),
            }),
        },
{
    match images(rel) {
        Ok((kernel, initrd)) => Ok(Kexec::new(kernel, initrd, netconsole)),
        Err(why) => Err(why),
    }
}

/// The flow that installs a release's images under GRUB.
pub fn install_grub<'a>(rel: &'a Release) -> (r: Result<InstallGrub<'a>, String>)
    requires
        rel.wf(),
    ensures
        match (kernel_of(rel@), initrd_of(rel@)) {
            (None, _) => r is Err && r->Err_0@ == "release has no bzImage"@,
            (Some(_), None) => r is Err && r->Err_0@ == "release has no rootfs.cpio.gz"@,
            (Some(k), Some(i)) => r is Ok && r->Ok_0@ == (GrubModel {
                at: GrubAt::Start,
                kernel: k,
                initrd: i,
                before: seq![],
                menu: seq![],
                why: seq![],
            }),
        },
{
    match images(rel) {
        Ok((kernel, initrd)) => Ok(InstallGrub::new(kernel, initrd)),
        Err(why) => Err(why),
    }
}

} // verus!
