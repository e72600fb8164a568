//! HC-800 install constants: the partitions, the GRUB entries, and the one
//! region that must never be written.
//!
//! This board is a PC: AMI BIOS, GRUB 0.97, a plain-text `menu.lst`, and nothing
//! in its boot chain verifies anything. An install is two file copies and one
//! edited text file. That makes the interesting question safety, not access.
use crate::num::{dec, dec_string};
use vstd::prelude::*;
use vstd::string::*;

verus! {

/// GRUB's own stage1/stage2/menu.lst partition. The single unrecoverable failure
/// on this board is corrupting it.
pub const GRUB_PART: &'static str = "/dev/sda1";

pub const GRUB_LABEL: &'static str = "bootload_fs_hc80";

/// The factory-restore system. Never written, under any method: it is what makes
/// everything else on this board reversible.
pub const RESTORE_PART: &'static str = "/dev/sda2";

/// The kernel-only ext3 partition, which GRUB 0.97 can read.
pub const KERNEL_PART: &'static str = "/dev/sda3";

pub const KERNEL_LABEL: &'static str = "kernel_fs_hc800";

/// The stock Control4 root. Untouched: openHC runs from an initramfs.
pub const VENDOR_ROOT_PART: &'static str = "/dev/sda4";

/// GRUB's name for [`KERNEL_PART`]; GRUB counts partitions from zero.
pub const GRUB_KERNEL_ROOT: &'static str = "(hd0,2)";

/// Where our files land on [`KERNEL_PART`], as GRUB will name them.
pub const KERNEL_FILE: &'static str = "/boot/openhc-bzImage";

pub const INITRD_FILE: &'static str = "/boot/openhc-initrd.gz";

/// Menu entry indices in the stock `menu.lst`, which is appended to and never
/// reordered: entry 0 is what the hardware factory-default button selects.
pub const ENTRY_FACTORY: u8 = 0;

pub const ENTRY_VENDOR: u8 = 1;

pub const ENTRY_OPENHC: u8 = 2;

/// The two lines Control4 patched into their GRUB and the button depends on.
/// Touching either breaks factory recovery, so the installer refuses to write a
/// `menu.lst` that has lost one.
pub const GUARD_SUPPORT: &'static str = "support_factorydefault";

pub const GUARD_BUTTON: &'static str = "factorydefault";

/// Kernel command line for an installed openHC. `panic=10` is compiled into the
/// image instead, so it holds however the kernel was started.
pub const CMDLINE: &'static str = "console=ttyS0,115200";

/// The entry up to the point where the two modes differ.
pub open spec fn entry_head() -> Seq<char> {
    "\ntitle\t\topenHC\nroot\t\t"@ + GRUB_KERNEL_ROOT@ + "\nkernel\t\t"@ + KERNEL_FILE@ + " "@
        + CMDLINE@ + "\ninitrd\t\t"@ + INITRD_FILE@
}

/// The `menu.lst` entry for openHC. A boot-once entry hands the saved default
/// back to the vendor entry before it boots.
pub open spec fn entry_text(boot_once: bool) -> Seq<char> {
    if boot_once {
        entry_head() + "\nsavedefault\t"@ + dec(ENTRY_VENDOR as nat) + "\nboot\n"@
    } else {
        entry_head() + "\nboot\n"@
    }
}

/// The `menu.lst` entry for openHC.
///
/// With `boot_once`, `savedefault` stands before the explicit `boot`, which is
/// the only order that works, since `boot` does not return. GRUB Legacy executes
/// it before handing control to the kernel, so every openHC boot immediately
/// re-points the saved default at the stock entry: a panic, a watchdog reset or
/// a power cut comes back on Control4, which answers SSH. Without it the entry
/// saves nothing and openHC stays the default.
pub fn menu_entry(boot_once: bool) -> (r: String)
    ensures
        r@ == entry_text(boot_once),
{
    let mut s = String::from_str("\ntitle\t\topenHC\nroot\t\t");
    s.append(GRUB_KERNEL_ROOT);
    s.append("\nkernel\t\t");
    s.append(KERNEL_FILE);
    s.append(" ");
    s.append(CMDLINE);
    s.append("\ninitrd\t\t");
    s.append(INITRD_FILE);
    if boot_once {
        s.append("\nsavedefault\t");
        s.append(dec_string(ENTRY_VENDOR as u64).as_str());
    }
    s.append("\nboot\n");
    s
}

/// What `default saved` reads: the entry number on the first line, then padding
/// that must not move.
pub open spec fn default_text(entry: nat) -> Seq<char> {
    dec(entry)
        + "\n#\n# This file is used by the grub-set-default command.\n# openHC writes it so `default saved` has something to read.\n# Do not move or edit it: savedefault rewrites these bytes directly,\n# by sector, without going through the filesystem.\n"@
}

/// GRUB Legacy's `default saved` reads this file, and `savedefault` rewrites its
/// first line in place: GRUB records the file's block list when `menu.lst` is
/// parsed and writes those sectors directly. So the file has to already exist at
/// full size, which is what the padding comment is for.
pub fn default_file(entry: u8) -> (r: String)
    ensures
        r@ == default_text(entry as nat),
{
    let mut s = dec_string(entry as u64);
    s.append(
        "\n#\n# This file is used by the grub-set-default command.\n# openHC writes it so `default saved` has something to read.\n# Do not move or edit it: savedefault rewrites these bytes directly,\n# by sector, without going through the filesystem.\n",
    );
    s
}

} // verus!
