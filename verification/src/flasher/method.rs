//! Install methods as data: which one applies to a board, and what it will do.
//!
//! Executing a method needs I/O. Deciding which method suits a board, and the
//! plan a person reads before anything is written, do not, so both are here.
use crate::flasher::board::{Board, BoardModel, Family, Identity, IdentityModel, Running};
use crate::flasher::cefdk::{
    EMMC_CONTAINER_OFF, EMMC_SIZE_OFF, GAP_OFF_DEFAULT, KERNEL_ADDR, MFH_SCRIPT_LEN, MFH_SCRIPT_OFF,
};
use crate::flasher::hc800::{GRUB_PART, INITRD_FILE, KERNEL_FILE, KERNEL_PART};
use crate::num::{dec, dec_string, hex0x, hex0x_string};
use crate::text::strings;
use vstd::prelude::*;
use vstd::string::*;

verus! {

/// A method's identity.
#[derive(Debug, Clone, Copy, PartialEq, Eq, Structural)]
pub enum Method {
    /// Over SSH into a running system: write the eMMC container and, on a
    /// secure-boot part, the MFH autoscript. No serial, no button.
    Network,
    /// Copy zImage, DTB and boot.scr onto the CA-1's vfat partition.
    Uboot,
    /// Start openHC out of the HC-800's running system. Writes to no partition.
    Kexec,
    /// Install openHC on the HC-800 as one more GRUB entry.
    Grub,
    /// Drive the CEFDK shell over serial. Needs a console and the ID button; the
    /// fallback when nothing is running to ssh into.
    Serial,
}

impl Method {
    pub open spec fn name_spec(self) -> Seq<char> {
        match self {
            Method::Network => "network"@,
            Method::Uboot => "uboot"@,
            Method::Kexec => "kexec"@,
            Method::Grub => "grub"@,
            Method::Serial => "serial"@,
        }
    }

    pub open spec fn summary_spec(self) -> Seq<char> {
        match self {
            Method::Network => "over SSH — no serial, no button (default)"@,
            Method::Uboot => "copy files to the vfat partition — no serial (CA-1)"@,
            Method::Kexec => "start openHC from the running system — writes nothing (HC-800 default)"@,
            Method::Grub => "add a GRUB entry and copy two files — persistent (HC-800)"@,
            Method::Serial => "via the CEFDK shell — needs a serial console and the ID button"@,
        }
    }

    /// The one family a method understands.
    pub open spec fn family_spec(self) -> Family {
        match self {
            Method::Network | Method::Serial => Family::Ea,
            Method::Uboot => Family::Ca,
            Method::Kexec | Method::Grub => Family::Hc,
        }
    }

    /// Does the method log into a running system?
    pub open spec fn needs_login(self) -> bool {
        self != Method::Serial
    }

    pub fn name(self) -> (r: &'static str)
        ensures
            r@ == self.name_spec(),
    {
        match self {
            Method::Network => "network",
            Method::Uboot => "uboot",
            Method::Kexec => "kexec",
            Method::Grub => "grub",
            Method::Serial => "serial",
        }
    }

    pub fn summary(self) -> (r: &'static str)
        ensures
            r@ == self.summary_spec(),
    {
        match self {
            Method::Network => "over SSH — no serial, no button (default)",
            Method::Uboot => "copy files to the vfat partition — no serial (CA-1)",
            Method::Kexec => "start openHC from the running system — writes nothing (HC-800 default)",
            Method::Grub => "add a GRUB entry and copy two files — persistent (HC-800)",
            Method::Serial => "via the CEFDK shell — needs a serial console and the ID button",
        }
    }

    fn family(self) -> (r: Family)
        ensures
            r == self.family_spec(),
    {
        match self {
            Method::Network | Method::Serial => Family::Ea,
            Method::Uboot => Family::Ca,
            Method::Kexec | Method::Grub => Family::Hc,
        }
    }

    /// Does this method leave every partition as it found it?
    pub fn writes_nothing(self) -> (r: bool)
        ensures
            r == (self == Method::Kexec),
    {
        match self {
            Method::Kexec => true,
            _ => false,
        }
    }

    /// Why this method cannot install onto an identity; `None` when it can.
    pub open spec fn obstacle(self, id: IdentityModel) -> Option<Seq<char>> {
        match id.board {
            // The serial method can still work from the CEFDK shell, where there
            // is no OS to identify a board from yet.
            None => if self == Method::Serial && id.running == Running::Cefdk {
                None
            } else {
                Some("board not identified; refusing to guess an image"@)
            },
            Some(b) => if self.family_spec() != b.family {
                Some(b.name + " is "@ + b.family.label_spec() + "-family; this method does not apply"@)
            } else if self.needs_login() && id.running != Running::Stock && id.running
                != Running::Openhc {
                Some("needs a running system to log into"@)
            } else {
                None
            },
        }
    }

    /// Can this method install onto this identity? Returns the reason when not,
    /// so a front end can explain why an option is greyed out.
    pub fn suitable(self, id: &Identity) -> (r: Result<(), String>)
        ensures
            match r {
                Ok(()) => self.obstacle(id@) is None,
                Err(why) => self.obstacle(id@) == Some(why@),
            },
    {
        let board: &'static Board = match id.board {
            Some(b) => b,
            None => {
                if self == Method::Serial && id.running == Running::Cefdk {
                    return Ok(());
                }
                return Err(String::from_str("board not identified; refusing to guess an image"));
            },
        };
        if self.family() != board.family {
            let mut why = String::from_str(board.name);
            why.append(" is ");
            why.append(board.family.label());
            why.append("-family; this method does not apply");
            return Err(why);
        }
        if self != Method::Serial && id.running != Running::Stock && id.running != Running::Openhc {
            return Err(String::from_str("needs a running system to log into"));
        }
        Ok(())
    }
}

/// Methods in preference order, cheapest for the user first, so "the default
/// needs no cable and no button" falls out of the ordering. `Kexec` stands ahead
/// of `Grub`, so a user who never picks a method lands on the one that writes
/// nothing.
pub open spec fn order() -> Seq<Method> {
    seq![Method::Network, Method::Uboot, Method::Kexec, Method::Grub, Method::Serial]
}

pub fn methods() -> (r: Vec<Method>)
    ensures
        r@ == order(),
{
    let mut v: Vec<Method> = Vec::new();
    v.push(Method::Network);
    v.push(Method::Uboot);
    v.push(Method::Kexec);
    v.push(Method::Grub);
    v.push(Method::Serial);
    assert(v@ =~= order());
    v
}

/// Is a method looked at, given a preference?
pub open spec fn considered(m: Method, prefer: Option<Method>) -> bool {
    prefer is None || prefer->0 == m
}

/// The first method of a list that is looked at and has no obstacle.
pub open spec fn chosen(v: Seq<Method>, id: IdentityModel, prefer: Option<Method>) -> Option<Method>
    decreases v.len(),
{
    if v.len() == 0 {
        None
    } else if considered(v[0], prefer) && v[0].obstacle(id) is None {
        Some(v[0])
    } else {
        chosen(v.skip(1), id, prefer)
    }
}

/// The methods that were looked at before one was chosen, each with what stood
/// in its way.
pub open spec fn passed_over(v: Seq<Method>, id: IdentityModel, prefer: Option<Method>) -> Seq<
    (Method, Seq<char>),
>
    decreases v.len(),
{
    if v.len() == 0 {
        seq![]
    } else if !considered(v[0], prefer) {
        passed_over(v.skip(1), id, prefer)
    } else {
        match v[0].obstacle(id) {
            None => seq![],
            Some(why) => seq![(v[0], why)] + passed_over(v.skip(1), id, prefer),
        }
    }
}

/// The texts of a list of rejections.
pub open spec fn rejections(v: Seq<(Method, String)>) -> Seq<(Method, Seq<char>)> {
    v.map_values(|p: (Method, String)| (p.0, p.1@))
}

/// Choose a method for an identity, optionally forced. Returns the chosen method
/// and the reasons the others were rejected (for display).
pub fn choose_method(id: &Identity, prefer: Option<Method>) -> (r: (Option<Method>, Vec<(Method, String)>))
    ensures
        r.0 == chosen(order(), id@, prefer),
        rejections(r.1@) == passed_over(order(), id@, prefer),
{
    let all = methods();
    let mut rejected: Vec<(Method, String)> = Vec::new();
    let mut i: usize = 0;
    let ghost t = order();
    assert(t.skip(0) =~= t);
    assert(rejections(rejected@) + passed_over(t, id@, prefer) =~= passed_over(t, id@, prefer));
    while i < all.len()
        invariant
            i <= all@.len(),
            all@ == t,
            chosen(order(), id@, prefer) == chosen(t.skip(i as int), id@, prefer),
            rejections(rejected@) + passed_over(t.skip(i as int), id@, prefer) == passed_over(
                order(),
                id@,
                prefer,
            ),
        decreases all@.len() - i,
    {
        let m: Method = all[i];
        assert(t.skip(i as int).skip(1) =~= t.skip(i + 1));
        assert(t.skip(i as int)[0] == m);
        let look: bool = match prefer {
            Some(p) => m == p,
            None => true,
        };
        if look {
            match m.suitable(id) {
                Ok(()) => {
                    assert(rejections(rejected@) + Seq::<(Method, Seq<char>)>::empty() =~= rejections(
                        rejected@,
                    ));
                    return (Some(m), rejected);
                },
                Err(why) => {
                    let ghost before = rejected@;
                    let ghost text = why@;
                    rejected.push((m, why));
                    assert(rejections(rejected@) =~= rejections(before) + seq![(m, text)]);
                    assert(rejections(before) + (seq![(m, text)] + passed_over(t.skip(i + 1), id@, prefer))
                        =~= rejections(rejected@) + passed_over(t.skip(i + 1), id@, prefer));
                },
            }
        }
        i += 1;
    }
    assert(t.skip(t.len() as int) =~= seq![]);
    assert(rejections(rejected@) + Seq::<(Method, Seq<char>)>::empty() =~= rejections(rejected@));
    (None, rejected)
}

// ------------------------------------------------------------------------ plans

/// What an install would do, shown to the user before anything is written.
#[derive(Debug)]
pub struct Plan {
    pub method: Method,
    pub steps: Vec<String>,
    /// What gets written, phrased as a warning.
    pub writes: Vec<String>,
    pub needs_serial: bool,
    pub needs_button: bool,
    pub reversible: String,
}

pub ghost struct PlanModel {
    pub method: Method,
    pub steps: Seq<Seq<char>>,
    pub writes: Seq<Seq<char>>,
    pub needs_serial: bool,
    pub needs_button: bool,
    pub reversible: Seq<char>,
}

impl View for Plan {
    type V = PlanModel;

    open spec fn view(&self) -> PlanModel {
        PlanModel {
            method: self.method,
            steps: strings(self.steps@),
            writes: strings(self.writes@),
            needs_serial: self.needs_serial,
            needs_button: self.needs_button,
            reversible: self.reversible@,
        }
    }
}

pub open spec fn container_step() -> Seq<char> {
    "write kernel container -> eMMC "@ + hex0x(EMMC_CONTAINER_OFF as nat) + " (+ length at "@ + hex0x(
        EMMC_SIZE_OFF as nat,
    ) + ")"@
}

pub open spec fn container_write() -> Seq<char> {
    "eMMC "@ + hex0x(EMMC_SIZE_OFF as nat) + " and "@ + hex0x(EMMC_CONTAINER_OFF as nat)
        + " (raw, ahead of p1)"@
}

pub open spec fn script_step() -> Seq<char> {
    "write CEFDK autoscript -> /dev/mtd0 "@ + hex0x(MFH_SCRIPT_OFF as nat)
        + " (bootlinux, bypasses the blown secure-boot fuse)"@
}

pub open spec fn script_write() -> Seq<char> {
    "/dev/mtd0 "@ + hex0x(MFH_SCRIPT_OFF as nat) + " ("@ + dec(MFH_SCRIPT_LEN as nat) + " bytes)"@
}

/// What installing by a method does to a board. On a secure-boot part the
/// network method also writes the autoscript.
pub open spec fn plan_model(b: BoardModel, method: Method) -> PlanModel {
    match method {
        Method::Network => PlanModel {
            method,
            steps: seq![
                container_step(),
                if b.secure_boot {
                    script_step()
                } else {
                    "no autoscript needed — fuse is clear, bootkernel takes the container"@
                },
                "reboot to the RAM installer, then write rootfs to p1"@,
            ],
            writes: if b.secure_boot {
                seq![container_write(), script_write()]
            } else {
                seq![container_write()]
            },
            needs_serial: false,
            needs_button: false,
            reversible: "the recessed factory-restore button reimages kernel + rootfs from p2; p2 is never written by this tool"@,
        },
        Method::Uboot => PlanModel {
            method,
            steps: seq![
                "mount the vfat 'kernel' partition (mmcblk1p1)"@,
                "copy zImage, DTB and boot.scr onto it"@,
                "reboot — U-Boot's stock bootcmd picks up boot.scr"@,
            ],
            writes: seq!["mmcblk1p1: zImage, *.dtb, boot.scr (files, not raw offsets)"@],
            needs_serial: false,
            needs_button: false,
            reversible: "delete boot.scr from the vfat partition; the stock boot path returns"@,
        },
        Method::Kexec => PlanModel {
            method,
            steps: seq![
                "stage the kernel and the initramfs in /tmp"@,
                "kexec -l, then kexec -e: openHC replaces the running kernel in RAM"@,
            ],
            writes: seq!["nothing — no partition is written"@],
            needs_serial: false,
            needs_button: false,
            reversible: "any reset or power cycle boots the stock system, which was not touched"@,
        },
        Method::Grub => PlanModel {
            method,
            steps: seq![
                "copy the kernel and the initramfs onto "@ + KERNEL_PART@,
                "append an openHC entry to menu.lst on "@ + GRUB_PART@ + ", keeping a backup"@,
                "reboot into openHC"@,
            ],
            writes: seq![
                KERNEL_PART@ + ": "@ + KERNEL_FILE@ + ", "@ + INITRD_FILE@ + " (files)"@,
                GRUB_PART@ + ": menu.lst and the saved default (backed up, read back)"@,
            ],
            needs_serial: false,
            needs_button: false,
            reversible: "restore menu.lst.pre-openhc, or use the hardware factory-default button; the factory-restore partition is never written by this tool"@,
        },
        Method::Serial => PlanModel {
            method,
            steps: seq![
                "wait for the manufacturing-mode shell (hold ID button, power-cycle)"@,
                "tftp bzImage -> RAM "@ + hex0x(KERNEL_ADDR as nat),
                "emmc wr -> raw gap "@ + hex0x(GAP_OFF_DEFAULT as nat),
                "store CEFDK autoscript"@,
                "reset"@,
            ],
            writes: seq!["eMMC raw gap "@ + hex0x(GAP_OFF_DEFAULT as nat), "SPI-NOR MFH script entry"@],
            needs_serial: true,
            needs_button: true,
            reversible: "`script off` at the CEFDK shell, or the factory-restore button"@,
        },
    }
}

/// A text and a hexadecimal number after it.
fn with_hex(text: &str, n: u64) -> (r: String)
    ensures
        r@ == text@ + hex0x(n as nat),
{
    let mut s = String::from_str(text);
    s.append(hex0x_string(n).as_str());
    s
}

fn network_plan(board: &Board) -> (r: Plan)
    ensures
        r@ == plan_model(board@, Method::Network),
{
    let mut steps: Vec<String> = Vec::new();
    let mut writes: Vec<String> = Vec::new();
    let mut first = with_hex("write kernel container -> eMMC ", EMMC_CONTAINER_OFF);
    first.append(" (+ length at ");
    first.append(hex0x_string(EMMC_SIZE_OFF).as_str());
    first.append(")");
    steps.push(first);
    let mut raw = with_hex("eMMC ", EMMC_SIZE_OFF);
    raw.append(" and ");
    raw.append(hex0x_string(EMMC_CONTAINER_OFF).as_str());
    raw.append(" (raw, ahead of p1)");
    writes.push(raw);
    if board.needs_autoscript() {
        let mut script = with_hex("write CEFDK autoscript -> /dev/mtd0 ", MFH_SCRIPT_OFF);
        script.append(" (bootlinux, bypasses the blown secure-boot fuse)");
        steps.push(script);
        let mut nor = with_hex("/dev/mtd0 ", MFH_SCRIPT_OFF);
        nor.append(" (");
        nor.append(dec_string(MFH_SCRIPT_LEN as u64).as_str());
        nor.append(" bytes)");
        writes.push(nor);
    } else {
        steps.push(
            String::from_str("no autoscript needed — fuse is clear, bootkernel takes the container"),
        );
    }
    steps.push(String::from_str("reboot to the RAM installer, then write rootfs to p1"));
    let r = Plan {
        method: Method::Network,
        steps,
        writes,
        needs_serial: false,
        needs_button: false,
        reversible: String::from_str(
            "the recessed factory-restore button reimages kernel + rootfs from p2; p2 is never written by this tool",
        ),
    };
    assert(strings(r.steps@) =~= plan_model(board@, Method::Network).steps);
    assert(strings(r.writes@) =~= plan_model(board@, Method::Network).writes);
    r
}

fn grub_plan(board: &Board) -> (r: Plan)
    ensures
        r@ == plan_model(board@, Method::Grub),
{
    let mut copy = String::from_str("copy the kernel and the initramfs onto ");
    copy.append(KERNEL_PART);
    let mut entry = String::from_str("append an openHC entry to menu.lst on ");
    entry.append(GRUB_PART);
    entry.append(", keeping a backup");
    let mut files = String::from_str(KERNEL_PART);
    files.append(": ");
    files.append(KERNEL_FILE);
    files.append(", ");
    files.append(INITRD_FILE);
    files.append(" (files)");
    let mut menu = String::from_str(GRUB_PART);
    menu.append(": menu.lst and the saved default (backed up, read back)");
    let mut steps: Vec<String> = Vec::new();
    steps.push(copy);
    steps.push(entry);
    steps.push(String::from_str("reboot into openHC"));
    let mut writes: Vec<String> = Vec::new();
    writes.push(files);
    writes.push(menu);
    let r = Plan {
        method: Method::Grub,
        steps,
        writes,
        needs_serial: false,
        needs_button: false,
        reversible: String::from_str(
            "restore menu.lst.pre-openhc, or use the hardware factory-default button; the factory-restore partition is never written by this tool",
        ),
    };
    assert(strings(r.steps@) =~= plan_model(board@, Method::Grub).steps);
    assert(strings(r.writes@) =~= plan_model(board@, Method::Grub).writes);
    r
}

fn serial_plan(board: &Board) -> (r: Plan)
    ensures
        r@ == plan_model(board@, Method::Serial),
{
    let mut steps: Vec<String> = Vec::new();
    steps.push(
        String::from_str("wait for the manufacturing-mode shell (hold ID button, power-cycle)"),
    );
    steps.push(with_hex("tftp bzImage -> RAM ", KERNEL_ADDR));
    steps.push(with_hex("emmc wr -> raw gap ", GAP_OFF_DEFAULT));
    steps.push(String::from_str("store CEFDK autoscript"));
    steps.push(String::from_str("reset"));
    let mut writes: Vec<String> = Vec::new();
    writes.push(with_hex("eMMC raw gap ", GAP_OFF_DEFAULT));
    writes.push(String::from_str("SPI-NOR MFH script entry"));
    let r = Plan {
        method: Method::Serial,
        steps,
        writes,
        needs_serial: true,
        needs_button: true,
        reversible: String::from_str("`script off` at the CEFDK shell, or the factory-restore button"),
    };
    assert(strings(r.steps@) =~= plan_model(board@, Method::Serial).steps);
    assert(strings(r.writes@) =~= plan_model(board@, Method::Serial).writes);
    r
}

/// The plan text for a board and a method: the same summary every front end
/// renders.
pub fn plan(board: &Board, method: Method) -> (r: Plan)
    ensures
        r@ == plan_model(board@, method),
{
    match method {
        Method::Network => network_plan(board),
        Method::Uboot => {
            let mut steps: Vec<String> = Vec::new();
            steps.push(String::from_str("mount the vfat 'kernel' partition (mmcblk1p1)"));
            steps.push(String::from_str("copy zImage, DTB and boot.scr onto it"));
            steps.push(String::from_str("reboot — U-Boot's stock bootcmd picks up boot.scr"));
            let mut writes: Vec<String> = Vec::new();
            writes.push(String::from_str("mmcblk1p1: zImage, *.dtb, boot.scr (files, not raw offsets)"));
            let r = Plan {
                method,
                steps,
                writes,
                needs_serial: false,
                needs_button: false,
                reversible: String::from_str(
                    "delete boot.scr from the vfat partition; the stock boot path returns",
                ),
            };
            assert(strings(r.steps@) =~= plan_model(board@, method).steps);
            assert(strings(r.writes@) =~= plan_model(board@, method).writes);
            r
        },
        Method::Kexec => {
            let mut steps: Vec<String> = Vec::new();
            steps.push(String::from_str("stage the kernel and the initramfs in /tmp"));
            steps.push(
                String::from_str("kexec -l, then kexec -e: openHC replaces the running kernel in RAM"),
            );
            let mut writes: Vec<String> = Vec::new();
            writes.push(String::from_str("nothing — no partition is written"));
            let r = Plan {
                method,
                steps,
                writes,
                needs_serial: false,
                needs_button: false,
                reversible: String::from_str(
                    "any reset or power cycle boots the stock system, which was not touched",
                ),
            };
            assert(strings(r.steps@) =~= plan_model(board@, method).steps);
            assert(strings(r.writes@) =~= plan_model(board@, method).writes);
            r
        },
        Method::Grub => grub_plan(board),
        Method::Serial => serial_plan(board),
    }
}

// ------------------------------------------------------------------------- laws

/// A method that is chosen was looked at, has no obstacle, and stands in the
/// list; every one before it that was looked at had an obstacle.
proof fn lemma_chosen(v: Seq<Method>, id: IdentityModel, prefer: Option<Method>)
    ensures
        match chosen(v, id, prefer) {
            Some(m) => exists|i: int|
                0 <= i < v.len() && v[i] == m && considered(m, prefer) && m.obstacle(id) is None
                    && forall|k: int|
                    0 <= k < i && considered(#[trigger] v[k], prefer) ==> v[k].obstacle(id) is Some,
            None => forall|k: int|
                0 <= k < v.len() && considered(#[trigger] v[k], prefer) ==> v[k].obstacle(id) is Some,
        },
    decreases v.len(),
{
    if v.len() > 0 && !(considered(v[0], prefer) && v[0].obstacle(id) is None) {
        let rest = v.skip(1);
        lemma_chosen(rest, id, prefer);
        match chosen(rest, id, prefer) {
            Some(m) => {
                let i = choose|i: int|
                    0 <= i < rest.len() && rest[i] == m && considered(m, prefer) && m.obstacle(id) is None
                        && forall|k: int|
                        0 <= k < i && considered(#[trigger] rest[k], prefer) ==> rest[k].obstacle(id) is Some;
                assert(v[i + 1] == m);
                assert forall|k: int| 0 <= k < i + 1 && considered(#[trigger] v[k], prefer) implies v[k].obstacle(
                    id,
                ) is Some by {
                    if k > 0 {
                        assert(rest[k - 1] == v[k]);
                    }
                }
            },
            None => {
                assert forall|k: int| 0 <= k < v.len() && considered(#[trigger] v[k], prefer) implies v[k].obstacle(
                    id,
                ) is Some by {
                    if k > 0 {
                        assert(rest[k - 1] == v[k]);
                    }
                }
            },
        }
    }
}

/// A method is never chosen for a board of another family, whatever was asked
/// for: no eMMC write to an i.MX6, no GRUB write to anything but the HC-800.
pub proof fn law_chosen_method_fits_the_family(id: IdentityModel, prefer: Option<Method>)
    ensures
        match (chosen(order(), id, prefer), id.board) {
            (Some(m), Some(b)) => m.family_spec() == b.family,
            _ => true,
        },
{
    lemma_chosen(order(), id, prefer);
}

/// Without a board nothing is installed, but for the one case in which there is
/// no OS to identify it from: at the CEFDK shell the serial method applies.
pub proof fn law_no_board_no_install(id: IdentityModel, prefer: Option<Method>)
    requires
        id.board is None,
    ensures
        chosen(order(), id, prefer) == (if id.running == Running::Cefdk && considered(
            Method::Serial,
            prefer,
        ) {
            Some(Method::Serial)
        } else {
            None
        }),
{
    lemma_chosen(order(), id, prefer);
    assert(order()[4] == Method::Serial);
}

/// The default for an HC-800 with something to log into is the method that
/// writes nothing.
pub proof fn law_hc800_default_writes_nothing(id: IdentityModel)
    requires
        id.board is Some,
        id.board->0.family == Family::Hc,
        id.running == Running::Stock || id.running == Running::Openhc,
    ensures
        chosen(order(), id, None) == Some(Method::Kexec),
{
    reveal_with_fuel(chosen, 4);
    assert(order().skip(1).skip(1)[0] == Method::Kexec);
}

/// A method that can be asked for by name is given if it has no obstacle, and
/// nothing else is given in its place.
pub proof fn law_preference_is_kept(id: IdentityModel, want: Method)
    ensures
        chosen(order(), id, Some(want)) == (if want.obstacle(id) is None {
            Some(want)
        } else {
            None
        }),
{
    lemma_chosen(order(), id, Some(want));
    assert(order()[0] == Method::Network && order()[1] == Method::Uboot && order()[2] == Method::Kexec
        && order()[3] == Method::Grub && order()[4] == Method::Serial);
    assert(exists|i: int| 0 <= i < order().len() && order()[i] == want);
}

} // verus!
