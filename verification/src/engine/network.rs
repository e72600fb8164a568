//! The default install flow: over SSH, no serial, no button.
//!
//! Two stages, because p1 is the running root on the system we log into and a
//! mounted root cannot be overwritten.
//!
//! Stage 1, from the current system: the kernel container goes to the eMMC
//! kernel slot, the initrd to a raw region just past it, and a RAM-boot
//! autoscript is stored; then the box reboots into RAM. Stage 2, from the
//! RAM-booted system: p1 is now just a block device and takes the root
//! filesystem, and the next boot runs from it.
use crate::engine::flow::{
    done, fail, fail_after, failed, failed_after, finish, put_owned, put_slice, putting, quiet, read, reading,
    reply_model, run, running, EventModel, Log, Next, NextModel, OpModel, Reply, Turn, TurnModel,
};
use crate::engine::release::{artefact, Release};
use crate::engine::shell::{dd_device, dd_offset, lemma_keyed_number, lemma_value_of};
use crate::flasher::cefdk::{
    build_autoscript, cmd_emmc_rd, cmd_ord4, emmc_rd, law_a_tidy_script_is_stored_as_it_stands, ord4, overflow_text,
    padded, round_to_sector, script_payload, stored_lines, tidy,
    sector_ceil, DEFAULT_CMDLINE, EMMC_CONTAINER_OFF, EMMC_HEADER_LEN, EMMC_SIZE_OFF, G_KBASE, G_RD_ADDR, G_RD_FLAG, G_RD_SIZE,
    KERNEL_ADDR, MFH_SCRIPT_LEN, MFH_SCRIPT_OFF, P1_START, RAMDISK_ADDR, SECTOR,
};
use crate::flasher::image::{
    be32, big, law_the_size_word_spells_the_length, container, ea_complaints, ea_problems, header_bytes, opt_bytes, size_word, word, BOOTLINUX_WINDOW,
};
use crate::flasher::loader::{
    at_rest, is_word, lemma_boot, lemma_flush, lemma_ran, lemma_read, lemma_set, loader_offset, ran, Machine,
};
use crate::num::{dec, dec_string, hex0x, hex0x_string, parse_number, parse_unsigned};
use crate::text::{
    cat2, cat3, cat5, cat7, cat9, contains, contains_str, debug_string, debug_text, lines, lines_of, slices,
    starts_with, starts_with_str, strings, strip_prefix, strip_prefix_str, to_chars, trim, trimmed, words,
};
use vstd::prelude::*;
use vstd::slice::slice_to_vec;
use vstd::string::*;

verus! {

/// Raw eMMC offset for the initrd: just past the kernel container and below p1.
pub const INITRD_EMMC_OFF: u64 = 0x800000;

/// Where the tiny boot-initramfs expects the gzipped root filesystem.
pub const ROOTFS_STAGE_OFF: u64 = 0x1000000;

/// Offset of the tiny boot-initramfs: the slot the full initrd uses otherwise.
pub const BOOTINIT_EMMC_OFF: u64 = 0x800000;

/// How much the autoscript reads for the kernel: the whole slot, not the image.
/// The script cannot be rewritten from a running openHC, so sizing the read to
/// the image would freeze the largest image at install time. Trailing bytes are
/// ignored by the loader.
pub const KERNEL_SLOT: u64 = 0x7ffc00;

/// How much the autoscript reads for the initrd.
pub const INITRD_SLOT: u64 = 0x800000;

/// CEFDK's eMMC addresses are Linux's plus the boot-partition region, which
/// CEFDK counts and the Linux block device does not.
pub const CEFDK_EMMC_DELTA: u64 = 0x800000;

pub const MTD: &'static str = "/dev/mtd0";

/// Where the read sizes baked into the installed autoscript are recorded, so
/// that a later in-place update can be checked against them.
pub const AUTOSCRIPT_ENV: &'static str = "/opt/ohc/autoscript.env";

pub const RAM_BOOT: &'static str = "bootlinux \"console=ttyS0,115200 pci=realloc,nocrs rw\"";

pub const READ_P1_START: &'static str = "cat /sys/block/mmcblk0/mmcblk0p1/start 2>/dev/null";

pub const READ_ERASE_SIZE: &'static str = "cat /sys/class/mtd/mtd0/erasesize 2>/dev/null";

pub const LIST_MTD: &'static str = "ls /dev/mtd0 2>/dev/null";

pub const REBOOT: &'static str = "sync; (sleep 1; reboot) >/dev/null 2>&1 &";

pub const WHICH_ROOT: &'static str = "mount | grep ' / ' 2>/dev/null";

pub const WRITE_P1: &'static str = "dd of=/dev/mmcblk0p1 bs=1M 2>/dev/null; sync";

/// Look for the marker on p1 and write one when there is none.
pub const MARK_P1: &'static str = "mkdir -p /mnt/ohcp1 && mount /dev/mmcblk0p1 /mnt/ohcp1 2>/dev/null && { test -f /mnt/ohcp1/etc/openhc-release && echo HAVE || { mkdir -p /mnt/ohcp1/etc && { cat /etc/openhc-release 2>/dev/null || printf 'openHC\\n'; } > /mnt/ohcp1/etc/openhc-release && echo STAMPED; }; } ; sync; umount /mnt/ohcp1 2>/dev/null";

// ---------------------------------------------------------------- the autoscript

/// The RAM-boot autoscript: read kernel and initrd out of the eMMC, set the
/// ramdisk globals, boot. The kernel is stored with its container header, so
/// the kernel base points past it.
pub open spec fn ram_script() -> Seq<Seq<char>> {
    seq![
        cmd_emmc_rd(
            (EMMC_CONTAINER_OFF + CEFDK_EMMC_DELTA) as nat,
            KERNEL_ADDR as nat,
            KERNEL_SLOT as nat,
        ),
        cmd_emmc_rd(
            (INITRD_EMMC_OFF + CEFDK_EMMC_DELTA) as nat,
            RAMDISK_ADDR as nat,
            INITRD_SLOT as nat,
        ),
        "cache flush"@,
        cmd_ord4(G_KBASE as nat, (KERNEL_ADDR + EMMC_HEADER_LEN) as nat),
        cmd_ord4(G_RD_FLAG as nat, 1),
        cmd_ord4(G_RD_ADDR as nat, RAMDISK_ADDR as nat),
        cmd_ord4(G_RD_SIZE as nat, INITRD_SLOT as nat),
        RAM_BOOT@,
    ]
}

/// The images must fit their slots; the script reads the slots whatever they
/// hold.
pub fn ram_autoscript(kernel_container_len: u64, initrd_len: u64) -> (r: Vec<String>)
    requires
        kernel_container_len <= KERNEL_SLOT,
        initrd_len <= INITRD_SLOT,
    ensures
        strings(r@) == ram_script(),
{
    let r: Vec<String> = vec![
        emmc_rd(EMMC_CONTAINER_OFF + CEFDK_EMMC_DELTA, KERNEL_ADDR, KERNEL_SLOT),
        emmc_rd(INITRD_EMMC_OFF + CEFDK_EMMC_DELTA, RAMDISK_ADDR, INITRD_SLOT),
        String::from_str("cache flush"),
        ord4(G_KBASE, KERNEL_ADDR + EMMC_HEADER_LEN as u64),
        ord4(G_RD_FLAG, 1),
        ord4(G_RD_ADDR, RAMDISK_ADDR),
        ord4(G_RD_SIZE, INITRD_SLOT),
        String::from_str(RAM_BOOT),
    ];
    assert(strings(r@) =~= ram_script());
    r
}

/// The script's lines, each told as a detail.
pub open spec fn script_told(log: Seq<EventModel>, script: Seq<Seq<char>>) -> Seq<EventModel>
    decreases script.len(),
{
    if script.len() == 0 {
        log
    } else {
        script_told(log, script.drop_last()).push(EventModel::Detail("script: "@ + script.last()))
    }
}

fn tell_script(log: &mut Log, script: &Vec<String>)
    ensures
        final(log)@ == script_told(old(log)@, strings(script@)),
{
    let ghost start = log@;
    let ghost all = strings(script@);
    let mut i: usize = 0;
    assert(script_told(start, all.take(0)) =~= start);
    while i < script.len()
        invariant
            i <= script@.len(),
            all == strings(script@),
            log@ == script_told(start, all.take(i as int)),
        decreases script@.len() - i,
    {
        assert(all.take(i + 1).drop_last() =~= all.take(i as int));
        log.detail(cat2("script: ", script[i].as_str()));
        i += 1;
    }
    assert(all.take(all.len() as int) =~= all);
}

/// The first line that starts with the key and whose rest is a number.
pub open spec fn first_size(ls: Seq<Seq<char>>, key: Seq<char>) -> Option<nat>
    decreases ls.len(),
{
    if ls.len() == 0 {
        None
    } else {
        let here = match strip_prefix(trim(ls[0]), key) {
            Some(v) => parse_unsigned(trim(v), 10, u64::MAX as nat),
            None => None,
        };
        if here is Some {
            here
        } else {
            first_size(ls.skip(1), key)
        }
    }
}

/// The recorded sizes: both, or nothing.
pub open spec fn recorded_sizes(env: Seq<char>) -> Option<(nat, nat)> {
    match (first_size(lines(env), "KSZ="@), first_size(lines(env), "RSZ="@)) {
        (Some(k), Some(r)) => Some((k, r)),
        _ => None,
    }
}

fn find_size(env: &str, key: &str) -> (r: Option<u64>)
    ensures
        match r {
            Some(n) => first_size(lines(env@), key@) == Some(n as nat),
            None => first_size(lines(env@), key@) is None,
        },
{
    let chars = to_chars(env);
    let ls = lines_of(chars.as_slice());
    let ghost all = slices(ls@);
    let mut i: usize = 0;
    assert(all.skip(0) =~= all);
    while i < ls.len()
        invariant
            i <= ls@.len(),
            all == slices(ls@),
            first_size(lines(env@), key@) == first_size(all.skip(i as int), key@),
        decreases ls@.len() - i,
    {
        assert(all.skip(i as int).skip(1) =~= all.skip(i + 1));
        assert(all.skip(i as int)[0] == ls@[i as int]@);
        if let Some(v) = strip_prefix_str(trimmed(ls[i]), key) {
            if let Some(n) = parse_number(trimmed(v), 10, u64::MAX) {
                return Some(n);
            }
        }
        i += 1;
    }
    None
}

/// Read the recorded sizes. A manifest that does not give both is no manifest:
/// it must not read as one that lets an image through.
pub fn parse_autoscript_sizes(env: &str) -> (r: Option<(u64, u64)>)
    ensures
        match r {
            Some((k, n)) => recorded_sizes(env@) == Some((k as nat, n as nat)),
            None => recorded_sizes(env@) is None,
        },
{
    match (find_size(env, "KSZ="), find_size(env, "RSZ=")) {
        (Some(k), Some(n)) => Some((k, n)),
        _ => None,
    }
}

pub open spec fn record_command(k: nat, r: nat) -> Seq<char> {
    "mkdir -p /opt/ohc && printf 'KSZ=%s\\nRSZ=%s\\n' "@ + dec(k) + " "@ + dec(r) + " > "@ + AUTOSCRIPT_ENV@
        + "; sync"@
}

fn record_sizes(k: u64, r: u64) -> (s: String)
    ensures
        s@ == record_command(k as nat, r as nat),
{
    cat7(
        "mkdir -p /opt/ohc && printf 'KSZ=%s\\nRSZ=%s\\n' ",
        dec_string(k).as_str(),
        " ",
        dec_string(r).as_str(),
        " > ",
        AUTOSCRIPT_ENV,
        "; sync",
    )
}

// ------------------------------------------------------------- shared questions

/// The output of a command read as a number, or a fallback when it is none.
pub open spec fn number_or(out: Seq<char>, fallback: nat) -> nat {
    match parse_unsigned(trim(out), 10, u64::MAX as nat) {
        Some(n) => n,
        None => fallback,
    }
}

pub fn parse_or(out: &str, fallback: u64) -> (r: u64)
    ensures
        r == number_or(out@, fallback as nat),
{
    let chars = to_chars(out);
    match parse_number(trimmed(chars.as_slice()), 10, u64::MAX) {
        Some(n) => n,
        None => fallback,
    }
}

/// Output with nothing but white space in it.
pub open spec fn is_blank(out: Seq<char>) -> bool {
    trim(out).len() == 0
}

pub fn blank(out: &str) -> (r: bool)
    ensures
        r == is_blank(out@),
{
    let chars = to_chars(out);
    trimmed(chars.as_slice()).len() == 0
}

/// `dd` to a raw offset: in sectors when the offset is aligned, in bytes when
/// it is not.
pub open spec fn dd_command(off: nat) -> Seq<char> {
    let aligned = off % SECTOR as nat == 0;
    "dd of=/dev/mmcblk0 bs="@ + dec(
        if aligned {
            SECTOR as nat
        } else {
            1
        },
    ) + " seek="@ + dec(
        if aligned {
            off / SECTOR as nat
        } else {
            off
        },
    ) + " conv=notrunc 2>/dev/null; sync"@
}

fn dd_to_emmc(off: u64) -> (r: String)
    ensures
        r@ == dd_command(off as nat),
{
    let aligned: bool = off % SECTOR == 0;
    let bs: u64 = if aligned { SECTOR } else { 1 };
    let seek: u64 = if aligned { off / SECTOR } else { off };
    cat5(
        "dd of=/dev/mmcblk0 bs=",
        dec_string(bs).as_str(),
        " seek=",
        dec_string(seek).as_str(),
        " conv=notrunc 2>/dev/null; sync",
    )
}

pub open spec fn dd_failed(off: nat, e: Seq<char>) -> Seq<char> {
    "dd to eMMC "@ + hex0x(off) + ": "@ + e
}

fn dd_error(off: u64, e: &str) -> (r: String)
    ensures
        r@ == dd_failed(off as nat, e@),
{
    let mut s = cat2("dd to eMMC ", hex0x_string(off).as_str());
    s.append(": ");
    s.append(e);
    s
}

/// p1 must not start inside the region that is written. A start that cannot be
/// read is no objection.
pub open spec fn guard_verdict(reply: Result<Seq<char>, Seq<char>>) -> Result<nat, Seq<char>> {
    match reply {
        Err(e) => Err(e),
        Ok(out) => {
            let start = number_or(out, 0);
            if start != 0 && start * SECTOR < P1_START {
                Err("p1 starts at sector "@ + dec(start) + ", inside the region we write — refusing"@)
            } else {
                Ok(start)
            }
        },
    }
}

pub open spec fn guard_told(start: nat) -> EventModel {
    EventModel::Detail(
        "p1 starts at sector "@ + (if start == 0 {
            "?"@
        } else {
            dec(start)
        }) + "; container region clear"@,
    )
}

/// Whether p1 starts where it should, and what to tell the user if so.
pub fn guard_partitions(reply: &Reply, log: &mut Log) -> (r: Result<u64, String>)
    ensures
        match guard_verdict(reply_model(*reply)) {
            Ok(start) => r is Ok && r->Ok_0 == start && final(log)@ == old(log)@.push(guard_told(start)),
            Err(why) => r is Err && r->Err_0@ == why && final(log)@ == old(log)@,
        },
{
    match reply {
        Err(e) => Err(e.clone()),
        Ok(out) => {
            let start: u64 = parse_or(out.as_str(), 0);
            if start != 0 && start < P1_START / SECTOR {
                return Err(
                    cat3("p1 starts at sector ", dec_string(start).as_str(), ", inside the region we write — refusing"),
                );
            }
            let shown = if start == 0 { String::from_str("?") } else { dec_string(start) };
            log.detail(cat3("p1 starts at sector ", shown.as_str(), "; container region clear"));
            Ok(start)
        },
    }
}

pub open spec fn container_bytes(kernel: Seq<u8>) -> Seq<u8> {
    header_bytes(word(kernel.len())) + kernel
}

pub open spec fn container_len(kernel: Seq<u8>) -> nat {
    EMMC_HEADER_LEN as nat + kernel.len()
}

/// The first thing wrong with the kernel, if anything is.
pub open spec fn kernel_problem(kernel: Seq<u8>) -> Option<Seq<char>> {
    let v = ea_complaints(Some(kernel), kernel.len(), true, false);
    if v.len() > 0 {
        Some(v[0])
    } else {
        None
    }
}

fn check_kernel(kernel: &[u8]) -> (r: Option<String>)
    ensures
        crate::text::opt(r) == kernel_problem(kernel@),
        r is None ==> kernel@.len() <= BOOTLINUX_WINDOW,
{
    let v = ea_problems(Some(kernel), kernel.len() as u64, true, false);
    assert(strings(v@).len() == v@.len());
    if v.len() > 0 {
        assert(strings(v@)[0] == v@[0]@);
        Some(v[0].clone())
    } else {
        None
    }
}

// ----------------------------------------------------- writing the script to NOR

pub open spec fn no_mtd_text() -> Seq<char> {
    MTD@ + " not present — this kernel has no MTD support; use the serial method"@
}

/// Splice the script into the head of its erase block: read the block, overlay
/// it, erase, write back, as one shell pipeline, so a dropped connection cannot
/// leave it half-erased.
pub open spec fn mtd_command(esz: nat) -> Seq<char> {
    let blk = MFH_SCRIPT_OFF as nat / esz;
    "set -e;          dd if=/dev/mtd0 bs="@ + dec(esz) + " skip="@ + dec(blk)
        + " count=1 of=/tmp/ohc.blk 2>/dev/null;          cat > /tmp/ohc.scr;          dd if=/tmp/ohc.scr of=/tmp/ohc.blk bs=1 conv=notrunc 2>/dev/null;          flash_erase /dev/mtd0 "@
        + dec(MFH_SCRIPT_OFF as nat)
        + " 1 >/dev/null 2>&1;          dd if=/tmp/ohc.blk of=/dev/mtd0 bs="@ + dec(esz) + " seek="@ + dec(blk)
        + " count=1 2>/dev/null;          sync; rm -f /tmp/ohc.blk /tmp/ohc.scr"@
}

fn mtd_write_command(esz: u64) -> (r: String)
    requires
        esz > 0,
    ensures
        r@ == mtd_command(esz as nat),
{
    let blk: u64 = MFH_SCRIPT_OFF / esz;
    let e = dec_string(esz);
    let b = dec_string(blk);
    let mut s = cat5(
        "set -e;          dd if=/dev/mtd0 bs=",
        e.as_str(),
        " skip=",
        b.as_str(),
        " count=1 of=/tmp/ohc.blk 2>/dev/null;          cat > /tmp/ohc.scr;          dd if=/tmp/ohc.scr of=/tmp/ohc.blk bs=1 conv=notrunc 2>/dev/null;          flash_erase /dev/mtd0 ",
    );
    s.append(dec_string(MFH_SCRIPT_OFF).as_str());
    s.append(" 1 >/dev/null 2>&1;          dd if=/tmp/ohc.blk of=/dev/mtd0 bs=");
    s.append(e.as_str());
    s.append(" seek=");
    s.append(b.as_str());
    s.append(" count=1 2>/dev/null;          sync; rm -f /tmp/ohc.blk /tmp/ohc.scr");
    s
}

/// The erase size decides whether the script can be written at all: its offset
/// must lie on an erase boundary and it must fit one block. An unreadable size
/// is taken to be 4096; a size of zero has no boundary.
pub open spec fn erase_verdict(out: Seq<char>) -> Result<nat, Seq<char>> {
    let esz = number_or(out, 4096);
    if esz == 0 || MFH_SCRIPT_OFF as nat % esz != 0 {
        Err(
            "MFH script offset "@ + hex0x(MFH_SCRIPT_OFF as nat) + " is not on a "@ + dec(esz)
                + "-byte erase boundary"@,
        )
    } else if MFH_SCRIPT_LEN > esz {
        Err("script ("@ + dec(MFH_SCRIPT_LEN as nat) + ") larger than one erase block ("@ + dec(esz) + ")"@)
    } else {
        Ok(esz)
    }
}

fn check_erase_size(out: &str) -> (r: Result<u64, String>)
    ensures
        match erase_verdict(out@) {
            Ok(esz) => r is Ok && r->Ok_0 == esz && esz > 0,
            Err(why) => r is Err && r->Err_0@ == why,
        },
{
    let esz: u64 = parse_or(out, 4096);
    if esz == 0 || MFH_SCRIPT_OFF % esz != 0 {
        return Err(
            cat5(
                "MFH script offset ",
                hex0x_string(MFH_SCRIPT_OFF).as_str(),
                " is not on a ",
                dec_string(esz).as_str(),
                "-byte erase boundary",
            ),
        );
    }
    if MFH_SCRIPT_LEN as u64 > esz {
        return Err(
            cat5(
                "script (",
                dec_string(MFH_SCRIPT_LEN as u64).as_str(),
                ") larger than one erase block (",
                dec_string(esz).as_str(),
                ")",
            ),
        );
    }
    Ok(esz)
}

pub open spec fn back_command() -> Seq<char> {
    "dd if=/dev/mtd0 bs=1 skip="@ + dec(MFH_SCRIPT_OFF as nat) + " count=4 2>/dev/null"@
}

pub open spec fn back_failed(back: Seq<char>) -> Seq<char> {
    "MFH script read-back is "@ + debug_text(back) + ", expected to start with \"emmc\" — write did not take"@
}

/// Writing the script, from the question whether the device is there to the
/// read-back.
#[derive(Debug, Clone, Copy, PartialEq, Eq, Structural)]
pub enum MtdAt {
    Listed,
    EraseSize,
    Written,
    Back,
}

pub ghost enum MtdNext {
    /// Ask or write this, then come back at the given point.
    Go(MtdAt, OpModel),
    Verified,
    Refused(Seq<char>),
}

pub open spec fn mtd_step(at: MtdAt, reply: Result<Seq<char>, Seq<char>>) -> MtdNext {
    match (at, reply) {
        (MtdAt::Written, Err(e)) => MtdNext::Refused("writing MFH script to SPI-NOR: "@ + e),
        (_, Err(e)) => MtdNext::Refused(e),
        (MtdAt::Listed, Ok(out)) => if is_blank(out) {
            MtdNext::Refused(no_mtd_text())
        } else {
            MtdNext::Go(MtdAt::EraseSize, OpModel::Run { command: READ_ERASE_SIZE@, must: false })
        },
        (MtdAt::EraseSize, Ok(out)) => match erase_verdict(out) {
            Err(why) => MtdNext::Refused(why),
            Ok(esz) => MtdNext::Go(
                MtdAt::Written,
                OpModel::Put { data: padded(script_payload(ram_script())), command: mtd_command(esz) },
            ),
        },
        (MtdAt::Written, Ok(_)) => MtdNext::Go(
            MtdAt::Back,
            OpModel::Run { command: back_command(), must: false },
        ),
        (MtdAt::Back, Ok(out)) => if starts_with(out, "emmc"@) {
            MtdNext::Verified
        } else {
            MtdNext::Refused(back_failed(out))
        },
    }
}

/// What follows a step of the script write.
enum MtdTurn<'a> {
    Go(MtdAt, Next<'a>),
    Verified,
    Refused(String),
}

fn write_mtd<'a>(at: MtdAt, reply: &Reply, script: &Vec<u8>) -> (r: MtdTurn<'a>)
    requires
        script@ == padded(script_payload(ram_script())),
    ensures
        match mtd_step(at, reply_model(*reply)) {
            MtdNext::Go(to, op) => r matches MtdTurn::Go(a, n) && a == to && n@ == NextModel::Do(op),
            MtdNext::Verified => r is Verified,
            MtdNext::Refused(why) => r matches MtdTurn::Refused(w) && w@ == why,
        },
{
    let out = match reply {
        Ok(out) => out,
        Err(e) => {
            if at == MtdAt::Written {
                return MtdTurn::Refused(cat2("writing MFH script to SPI-NOR: ", e.as_str()));
            }
            return MtdTurn::Refused(e.clone());
        },
    };
    match at {
        MtdAt::Listed => {
            if blank(out.as_str()) {
                MtdTurn::Refused(
                    cat2(MTD, " not present — this kernel has no MTD support; use the serial method"),
                )
            } else {
                MtdTurn::Go(
                    MtdAt::EraseSize,
                    run(Log::new(), String::from_str(READ_ERASE_SIZE), false).next,
                )
            }
        },
        MtdAt::EraseSize => match check_erase_size(out.as_str()) {
            Err(why) => MtdTurn::Refused(why),
            Ok(esz) => MtdTurn::Go(
                MtdAt::Written,
                put_owned(Log::new(), slice_to_vec(script.as_slice()), mtd_write_command(esz)).next,
            ),
        },
        MtdAt::Written => MtdTurn::Go(
            MtdAt::Back,
            run(
                Log::new(),
                cat3("dd if=/dev/mtd0 bs=1 skip=", dec_string(MFH_SCRIPT_OFF).as_str(), " count=4 2>/dev/null"),
                false,
            ).next,
        ),
        MtdAt::Back => {
            let chars = to_chars(out.as_str());
            if starts_with_str(chars.as_slice(), "emmc") {
                MtdTurn::Verified
            } else {
                MtdTurn::Refused(
                    cat3(
                        "MFH script read-back is ",
                        debug_string(out.as_str()).as_str(),
                        ", expected to start with \"emmc\" — write did not take",
                    ),
                )
            }
        },
    }
}

// ----------------------------------------------------------------------- stage 1

/// Where stage 1 stands: which reply it waits for.
#[derive(Debug, Clone, Copy, PartialEq, Eq, Structural)]
pub enum Stage1At {
    Start,
    Guard,
    Container,
    SizeWord,
    Initrd,
    HasMtd,
    Mtd(MtdAt),
    Recorded,
    Sizes,
    Reboot,
    Ended,
}

/// Stage 1: install kernel, initrd and a RAM-boot autoscript, then reboot into
/// RAM.
#[derive(Debug)]
pub struct Stage1<'a> {
    at: Stage1At,
    kernel: &'a [u8],
    initrd: &'a [u8],
    secure_boot: bool,
}

pub ghost struct Stage1Model {
    pub at: Stage1At,
    pub kernel: Seq<u8>,
    pub initrd: Seq<u8>,
    pub secure_boot: bool,
}

impl<'a> View for Stage1<'a> {
    type V = Stage1Model;

    closed spec fn view(&self) -> Stage1Model {
        Stage1Model {
            at: self.at,
            kernel: self.kernel@,
            initrd: self.initrd@,
            secure_boot: self.secure_boot,
        }
    }
}

impl Stage1Model {
    /// The kernel passed its checks, so its container fits the slot; a script is
    /// only written once it was found to fit its entry.
    pub open spec fn wf(self) -> bool {
        &&& self.kernel.len() <= BOOTLINUX_WINDOW
        &&& self.at is Mtd ==> script_payload(ram_script()).len() <= MFH_SCRIPT_LEN
        &&& (self.at is HasMtd || self.at is Mtd || self.at is Recorded || self.at is Sizes || self.at is Reboot)
            ==> slot_refusal(self.kernel, self.initrd) is None
    }
}

/// What a missing or unfit image says.
pub open spec fn stage1_refusal(kernel: Option<Seq<u8>>, initrd: Option<Seq<u8>>) -> Option<Seq<char>> {
    if kernel is None {
        Some("release has no bzImage"@)
    } else if initrd is None {
        Some("release has no rootfs.cpio.gz"@)
    } else {
        kernel_problem(kernel->0)
    }
}

pub open spec fn container_told(kernel: Seq<u8>, tail: Seq<char>) -> EventModel {
    EventModel::Step(
        "kernel container "@ + dec(container_len(kernel)) + " B -> eMMC "@ + hex0x(EMMC_CONTAINER_OFF as nat)
            + tail,
    )
}

pub open spec fn initrd_told(n: nat) -> EventModel {
    EventModel::Step("initrd "@ + dec(n) + " B -> eMMC "@ + hex0x(INITRD_EMMC_OFF as nat))
}

pub open spec fn fuse_clear_told() -> EventModel {
    EventModel::Detail("fuse clear: writing the autoscript anyway (harmless, keeps one path)"@)
}

/// A word on the fuse, when it is clear.
pub open spec fn fuse_told(secure_boot: bool, log: Seq<EventModel>, told: EventModel) -> Seq<EventModel> {
    if secure_boot {
        log
    } else {
        log.push(told)
    }
}

pub open spec fn unknown_sizes_text() -> Seq<char> {
    MTD@ + " is absent (openHC has no MTD) and "@ + AUTOSCRIPT_ENV@
        + " is missing, so the installed autoscript's read sizes are unknown. Re-flash from stock Control4, or use the serial method."@
}

pub open spec fn too_large_text(need_k: nat, have_k: nat, need_r: nat, have_r: nat) -> Seq<char> {
    "images do not fit the installed autoscript: kernel "@ + dec(need_k) + " > "@ + dec(have_k)
        + " or initrd "@ + dec(need_r) + " > "@ + dec(have_r)
        + ". That autoscript reads fixed sizes and cannot be rewritten without MTD, so flashing these would truncate them and the box would not boot. Re-flash from stock Control4 (which has MTD) to get the slot-sized autoscript, or shrink the build."@
}

pub open spec fn reusing_told(need_k: nat, have_k: nat, need_r: nat, have_r: nat) -> EventModel {
    EventModel::Detail(
        "reusing the installed autoscript (reads "@ + dec(have_k) + "/"@ + dec(have_r) + " B; images "@ + dec(
            need_k,
        ) + "/"@ + dec(need_r) + " B fit)"@,
    )
}

/// The reboot that ends a stage, after these words.
pub open spec fn rebooting(log: Seq<EventModel>, told: Seq<char>) -> TurnModel {
    running(log.push(EventModel::Step(told)), REBOOT@, false)
}

pub open spec fn ram_reboot(log: Seq<EventModel>) -> TurnModel {
    rebooting(log, "rebooting into the RAM installer"@)
}

/// After the initrd is on the eMMC: the images must fit the slots the script
/// reads.
pub open spec fn slot_refusal(kernel: Seq<u8>, initrd: Seq<u8>) -> Option<Seq<char>> {
    if container_len(kernel) > KERNEL_SLOT {
        Some(
            "kernel container "@ + dec(container_len(kernel)) + " B exceeds its eMMC slot ("@ + dec(
                KERNEL_SLOT as nat,
            ) + " B)"@,
        )
    } else if initrd.len() > INITRD_SLOT {
        Some(
            "initrd "@ + dec(initrd.len()) + " B exceeds its eMMC slot ("@ + dec(INITRD_SLOT as nat) + " B)"@,
        )
    } else {
        None
    }
}

/// Without MTD the installed autoscript stays; the images must fit what it
/// reads.
pub open spec fn sizes_turn(m: Stage1Model, reply: Result<Seq<char>, Seq<char>>) -> (Stage1At, TurnModel) {
    let have = match reply {
        Ok(env) => recorded_sizes(env),
        Err(_) => None,
    };
    match have {
        None => (Stage1At::Ended, failed(unknown_sizes_text())),
        Some((k, r)) => if container_len(m.kernel) > k || m.initrd.len() > r {
            (
                Stage1At::Ended,
                failed(too_large_text(container_len(m.kernel), k, m.initrd.len(), r)),
            )
        } else {
            (
                Stage1At::Reboot,
                ram_reboot(quiet().push(reusing_told(container_len(m.kernel), k, m.initrd.len(), r))),
            )
        },
    }
}

/// One turn of stage 1: where it stands afterwards, what it says and what
/// follows.
pub open spec fn stage1_turn(m: Stage1Model, reply: Result<Seq<char>, Seq<char>>) -> (Stage1At, TurnModel) {
    match m.at {
        Stage1At::Start => (Stage1At::Guard, running(quiet(), READ_P1_START@, false)),
        Stage1At::Guard => match guard_verdict(reply) {
            Err(why) => (Stage1At::Ended, failed(why)),
            Ok(start) => (
                Stage1At::Container,
                putting(
                    quiet().push(guard_told(start)).push(
                        container_told(m.kernel, " (factory-restore-revertible slot)"@),
                    ),
                    container_bytes(m.kernel),
                    dd_command(EMMC_CONTAINER_OFF as nat),
                ),
            ),
        },
        Stage1At::Container => match reply {
            Err(e) => (Stage1At::Ended, failed(dd_failed(EMMC_CONTAINER_OFF as nat, e))),
            Ok(_) => (
                Stage1At::SizeWord,
                putting(quiet(), be32(word(container_len(m.kernel))), dd_command(EMMC_SIZE_OFF as nat)),
            ),
        },
        Stage1At::SizeWord => match reply {
            Err(e) => (Stage1At::Ended, failed(dd_failed(EMMC_SIZE_OFF as nat, e))),
            Ok(_) => (
                Stage1At::Initrd,
                putting(
                    quiet().push(initrd_told(m.initrd.len())),
                    m.initrd,
                    dd_command(INITRD_EMMC_OFF as nat),
                ),
            ),
        },
        Stage1At::Initrd => match reply {
            Err(e) => (Stage1At::Ended, failed(dd_failed(INITRD_EMMC_OFF as nat, e))),
            Ok(_) => match slot_refusal(m.kernel, m.initrd) {
                Some(why) => (Stage1At::Ended, failed(why)),
                None => (Stage1At::HasMtd, running(script_told(quiet(), ram_script()), LIST_MTD@, false)),
            },
        },
        Stage1At::HasMtd => if reply is Ok && !is_blank(reply->Ok_0) {
            if script_payload(ram_script()).len() > MFH_SCRIPT_LEN {
                (
                    Stage1At::Ended,
                    failed_after(
                        fuse_told(m.secure_boot, quiet(), fuse_clear_told()),
                        overflow_text(script_payload(ram_script()).len()),
                    ),
                )
            } else {
                (
                    Stage1At::Mtd(MtdAt::Listed),
                    running(fuse_told(m.secure_boot, quiet(), fuse_clear_told()), LIST_MTD@, false),
                )
            }
        } else {
            (Stage1At::Sizes, reading(quiet(), AUTOSCRIPT_ENV@))
        },
        Stage1At::Mtd(at) => match mtd_step(at, reply) {
            MtdNext::Go(to, op) => (
                Stage1At::Mtd(to),
                TurnModel { log: quiet(), next: NextModel::Do(op) },
            ),
            MtdNext::Verified => (
                Stage1At::Recorded,
                running(quiet(), record_command(KERNEL_SLOT as nat, INITRD_SLOT as nat), false),
            ),
            MtdNext::Refused(why) => (Stage1At::Ended, failed(why)),
        },
        Stage1At::Recorded => (Stage1At::Reboot, ram_reboot(quiet())),
        Stage1At::Sizes => sizes_turn(m, reply),
        Stage1At::Reboot => (Stage1At::Ended, done(quiet())),
        Stage1At::Ended => (Stage1At::Ended, done(quiet())),
    }
}

fn reboot_turn<'a>(log: Log, told: &str) -> (r: Turn<'a>)
    ensures
        r@ == rebooting(log@, told@),
{
    let mut log = log;
    log.step(String::from_str(told));
    run(log, String::from_str(REBOOT), false)
}

fn tell_container(log: &mut Log, kernel: &[u8], tail: &str)
    requires
        kernel@.len() <= BOOTLINUX_WINDOW,
    ensures
        final(log)@ == old(log)@.push(container_told(kernel@, tail@)),
{
    let total: u64 = EMMC_HEADER_LEN as u64 + kernel.len() as u64;
    log.step(
        cat5(
            "kernel container ",
            dec_string(total).as_str(),
            " B -> eMMC ",
            hex0x_string(EMMC_CONTAINER_OFF).as_str(),
            tail,
        ),
    );
}

fn put_container<'a>(log: Log, kernel: &[u8]) -> (r: Turn<'a>)
    ensures
        r@ == putting(log@, container_bytes(kernel@), dd_command(EMMC_CONTAINER_OFF as nat)),
{
    match container(kernel, None) {
        Ok(blob) => put_owned(log, blob, dd_to_emmc(EMMC_CONTAINER_OFF)),
        Err(_) => put_owned(log, Vec::new(), dd_to_emmc(EMMC_CONTAINER_OFF)),
    }
}

fn put_size_word<'a>(kernel: &[u8]) -> (r: Turn<'a>)
    requires
        kernel@.len() <= BOOTLINUX_WINDOW,
    ensures
        r@ == putting(quiet(), be32(word(container_len(kernel@))), dd_command(EMMC_SIZE_OFF as nat)),
{
    let w: [u8; 4] = size_word(EMMC_HEADER_LEN + kernel.len());
    let data: Vec<u8> = slice_to_vec(w.as_slice());
    put_owned(Log::new(), data, dd_to_emmc(EMMC_SIZE_OFF))
}

/// The payload of the RAM-boot script.
fn ram_blob() -> (r: Result<Vec<u8>, String>)
    ensures
        match r {
            Ok(b) => script_payload(ram_script()).len() <= MFH_SCRIPT_LEN && b@ == padded(
                script_payload(ram_script()),
            ),
            Err(why) => script_payload(ram_script()).len() > MFH_SCRIPT_LEN && why@ == overflow_text(
                script_payload(ram_script()).len(),
            ),
        },
{
    let script = ram_autoscript(0, 0);
    build_autoscript(script.as_slice())
}

impl<'a> Stage1<'a> {
    /// Refuse a release that lacks an image or whose kernel is unfit, here
    /// rather than on the box.
    pub fn new(kernel: Option<&'a [u8]>, initrd: Option<&'a [u8]>, secure_boot: bool) -> (r: Result<
        Stage1<'a>,
        String,
    >)
        ensures
            match stage1_refusal(opt_bytes(kernel), opt_bytes(initrd)) {
                Some(why) => r is Err && r->Err_0@ == why,
                None => r is Ok && r->Ok_0@ == (Stage1Model {
                    at: Stage1At::Start,
                    kernel: opt_bytes(kernel)->0,
                    initrd: opt_bytes(initrd)->0,
                    secure_boot,
                }) && r->Ok_0@.wf(),
            },
    {
        let kernel = match kernel {
            Some(k) => k,
            None => {
                return Err(String::from_str("release has no bzImage"));
            },
        };
        let initrd = match initrd {
            Some(k) => k,
            None => {
                return Err(String::from_str("release has no rootfs.cpio.gz"));
            },
        };
        match check_kernel(kernel) {
            Some(why) => Err(why),
            None => Ok(Stage1 { at: Stage1At::Start, kernel, initrd, secure_boot }),
        }
    }

    fn after_guard(&self, reply: &Reply) -> (r: (Stage1At, Turn<'a>))
        requires
            self@.wf(),
            self@.at is Guard,
        ensures
            (r.0, r.1@) == stage1_turn(self@, reply_model(*reply)),
    {
        let mut log = Log::new();
        match guard_partitions(reply, &mut log) {
            Err(why) => (Stage1At::Ended, fail(why)),
            Ok(_) => {
                tell_container(&mut log, self.kernel, " (factory-restore-revertible slot)");
                (Stage1At::Container, put_container(log, self.kernel))
            },
        }
    }

    fn after_initrd(&self, reply: &Reply) -> (r: (Stage1At, Turn<'a>))
        requires
            self@.wf(),
            self@.at is Initrd,
        ensures
            (r.0, r.1@) == stage1_turn(self@, reply_model(*reply)),
    {
        if let Err(e) = reply {
            return (Stage1At::Ended, fail(dd_error(INITRD_EMMC_OFF, e.as_str())));
        }
        let total: u64 = EMMC_HEADER_LEN as u64 + self.kernel.len() as u64;
        let rest: u64 = self.initrd.len() as u64;
        if total > KERNEL_SLOT {
            return (
                Stage1At::Ended,
                fail(
                    cat5(
                        "kernel container ",
                        dec_string(total).as_str(),
                        " B exceeds its eMMC slot (",
                        dec_string(KERNEL_SLOT).as_str(),
                        " B)",
                    ),
                ),
            );
        }
        if rest > INITRD_SLOT {
            return (
                Stage1At::Ended,
                fail(
                    cat5(
                        "initrd ",
                        dec_string(rest).as_str(),
                        " B exceeds its eMMC slot (",
                        dec_string(INITRD_SLOT).as_str(),
                        " B)",
                    ),
                ),
            );
        }
        let script = ram_autoscript(total, rest);
        let mut log = Log::new();
        tell_script(&mut log, &script);
        (Stage1At::HasMtd, run(log, String::from_str(LIST_MTD), false))
    }

    fn after_has_mtd(&self, reply: &Reply) -> (r: (Stage1At, Turn<'a>))
        requires
            self@.at is HasMtd,
        ensures
            (r.0, r.1@) == stage1_turn(self@, reply_model(*reply)),
    {
        let present: bool = match reply {
            Ok(out) => !blank(out.as_str()),
            Err(_) => false,
        };
        if !present {
            return (Stage1At::Sizes, read(Log::new(), String::from_str(AUTOSCRIPT_ENV)));
        }
        let mut log = Log::new();
        if !self.secure_boot {
            log.detail(
                String::from_str("fuse clear: writing the autoscript anyway (harmless, keeps one path)"),
            );
        }
        match ram_blob() {
            Err(why) => (Stage1At::Ended, fail_after(log, why)),
            Ok(_) => (Stage1At::Mtd(MtdAt::Listed), run(log, String::from_str(LIST_MTD), false)),
        }
    }

    fn after_sizes(&self, reply: &Reply) -> (r: (Stage1At, Turn<'a>))
        requires
            self@.wf(),
            self@.at is Sizes,
        ensures
            (r.0, r.1@) == stage1_turn(self@, reply_model(*reply)),
    {
        let have: Option<(u64, u64)> = match reply {
            Ok(env) => parse_autoscript_sizes(env.as_str()),
            Err(_) => None,
        };
        let need_k: u64 = EMMC_HEADER_LEN as u64 + self.kernel.len() as u64;
        let need_r: u64 = self.initrd.len() as u64;
        let (have_k, have_r): (u64, u64) = match have {
            Some((k, r)) => (k, r),
            None => {
                let mut why = cat3(MTD, " is absent (openHC has no MTD) and ", AUTOSCRIPT_ENV);
                why.append(
                    " is missing, so the installed autoscript's read sizes are unknown. Re-flash from stock Control4, or use the serial method.",
                );
                return (Stage1At::Ended, fail(why));
            },
        };
        let nk = dec_string(need_k);
        let nr = dec_string(need_r);
        let hk = dec_string(have_k);
        let hr = dec_string(have_r);
        if need_k > have_k || need_r > have_r {
            return (
                Stage1At::Ended,
                fail(
                    cat9(
                        "images do not fit the installed autoscript: kernel ",
                        nk.as_str(),
                        " > ",
                        hk.as_str(),
                        " or initrd ",
                        nr.as_str(),
                        " > ",
                        hr.as_str(),
                        ". That autoscript reads fixed sizes and cannot be rewritten without MTD, so flashing these would truncate them and the box would not boot. Re-flash from stock Control4 (which has MTD) to get the slot-sized autoscript, or shrink the build.",
                    ),
                ),
            );
        }
        let mut log = Log::new();
        log.detail(
            cat9(
                "reusing the installed autoscript (reads ",
                hk.as_str(),
                "/",
                hr.as_str(),
                " B; images ",
                nk.as_str(),
                "/",
                nr.as_str(),
                " B fit)",
            ),
        );
        (Stage1At::Reboot, reboot_turn(log, "rebooting into the RAM installer"))
    }

    fn after_mtd(&self, at: MtdAt, reply: &Reply) -> (r: (Stage1At, Turn<'a>))
        requires
            self@.at == Stage1At::Mtd(at),
            script_payload(ram_script()).len() <= MFH_SCRIPT_LEN,
        ensures
            (r.0, r.1@) == stage1_turn(self@, reply_model(*reply)),
    {
        let script = match ram_blob() {
            Ok(b) => b,
            Err(why) => {
                return (Stage1At::Ended, fail(why));
            },
        };
        match write_mtd(at, reply, &script) {
            MtdTurn::Go(to, next) => (Stage1At::Mtd(to), Turn { log: Log::new(), next }),
            MtdTurn::Verified => (
                Stage1At::Recorded,
                run(Log::new(), record_sizes(KERNEL_SLOT, INITRD_SLOT), false),
            ),
            MtdTurn::Refused(why) => (Stage1At::Ended, fail(why)),
        }
    }

    /// Take the reply to the last operation and say what follows. The reply to
    /// nothing, at the start, is not looked at.
    pub fn next(&mut self, reply: Reply) -> (r: Turn<'a>)
        requires
            old(self)@.wf(),
        ensures
            final(self)@.wf(),
            (final(self)@.at, r@) == stage1_turn(old(self)@, reply_model(reply)),
            final(self)@ == (Stage1Model { at: final(self)@.at, ..old(self)@ }),
    {
        let (at, turn) = match self.at {
            Stage1At::Start => (
                Stage1At::Guard,
                run(Log::new(), String::from_str(READ_P1_START), false),
            ),
            Stage1At::Guard => self.after_guard(&reply),
            Stage1At::Container => match &reply {
                Err(e) => (Stage1At::Ended, fail(dd_error(EMMC_CONTAINER_OFF, e.as_str()))),
                Ok(_) => (Stage1At::SizeWord, put_size_word(self.kernel)),
            },
            Stage1At::SizeWord => match &reply {
                Err(e) => (Stage1At::Ended, fail(dd_error(EMMC_SIZE_OFF, e.as_str()))),
                Ok(_) => {
                    let mut log = Log::new();
                    let mut told = cat3("initrd ", dec_string(self.initrd.len() as u64).as_str(), " B -> eMMC ");
                    told.append(hex0x_string(INITRD_EMMC_OFF).as_str());
                    log.step(told);
                    (Stage1At::Initrd, put_slice(log, self.initrd, dd_to_emmc(INITRD_EMMC_OFF)))
                },
            },
            Stage1At::Initrd => self.after_initrd(&reply),
            Stage1At::HasMtd => self.after_has_mtd(&reply),
            Stage1At::Mtd(at) => self.after_mtd(at, &reply),
            Stage1At::Recorded => (
                Stage1At::Reboot,
                reboot_turn(Log::new(), "rebooting into the RAM installer"),
            ),
            Stage1At::Sizes => self.after_sizes(&reply),
            Stage1At::Reboot => (Stage1At::Ended, finish(Log::new())),
            Stage1At::Ended => (Stage1At::Ended, finish(Log::new())),
        };
        self.at = at;
        turn
    }
}

/// Stage 1 writes nothing before p1 was found to start past the region that is
/// written, every write but the first follows a write that succeeded, and what
/// is written where is fixed: the container, its length word, the initrd, and
/// the script in its own flash entry.
pub proof fn law_stage1_writes(m: Stage1Model, reply: Result<Seq<char>, Seq<char>>)
    ensures
        stage1_turn(m, reply).1.next matches NextModel::Do(OpModel::Put { data, command }) ==> {
            ||| m.at is Guard && guard_verdict(reply) is Ok && data == container_bytes(m.kernel) && command
                == dd_command(EMMC_CONTAINER_OFF as nat)
            ||| m.at is Container && reply is Ok && data == be32(word(container_len(m.kernel))) && command
                == dd_command(EMMC_SIZE_OFF as nat)
            ||| m.at is SizeWord && reply is Ok && data == m.initrd && command == dd_command(
                INITRD_EMMC_OFF as nat,
            )
            ||| m.at == Stage1At::Mtd(MtdAt::EraseSize) && reply is Ok && data == padded(
                script_payload(ram_script()),
            ) && erase_verdict(reply->Ok_0) is Ok && command == mtd_command(erase_verdict(reply->Ok_0)->Ok_0)
        },
{
}

/// A failed write, and a failed question that a write depends on, ends stage 1:
/// nothing more is written and the box is not rebooted.
pub proof fn law_stage1_stops_at_a_failure(m: Stage1Model, e: Seq<char>)
    requires
        m.at is Guard || m.at is Container || m.at is SizeWord || m.at is Initrd || m.at is Mtd || m.at
            is Sizes,
    ensures
        stage1_turn(m, Err(e)).0 is Ended,
        stage1_turn(m, Err(e)).1.next is Failed,
{
}

/// Stage 1 reboots the box only when the images fit what the autoscript on it
/// reads: the slots when the script was just written, the recorded sizes when
/// it could not be.
pub proof fn law_stage1_reboots_into_images_that_fit(m: Stage1Model, reply: Result<Seq<char>, Seq<char>>)
    requires
        m.wf(),
        stage1_turn(m, reply).0 is Reboot,
    ensures
        container_len(m.kernel) <= KERNEL_SLOT,
        m.initrd.len() <= INITRD_SLOT,
        m.at is Recorded || {
            &&& m.at is Sizes
            &&& reply is Ok
            &&& recorded_sizes(reply->Ok_0) matches Some((k, r)) && container_len(m.kernel) <= k
                && m.initrd.len() <= r
        },
{
}

// ------------------------------------------------------------- one-shot install

/// Where the one-shot install stands.
#[derive(Debug, Clone, Copy, PartialEq, Eq, Structural)]
pub enum SelfAt {
    Start,
    Guard,
    Container,
    SizeWord,
    BootInit,
    Staged,
    Mtd(MtdAt),
    Recorded,
    Reboot,
    Ended,
}

/// One-shot install with the tiny self-installer: everything the box needs is
/// written and it reboots once; its first boot lays the staged root filesystem
/// onto p1 and pivots.
#[derive(Debug)]
pub struct InstallSelf<'a> {
    at: SelfAt,
    kernel: &'a [u8],
    bootinit: &'a [u8],
    staged: &'a [u8],
    secure_boot: bool,
}

pub ghost struct SelfModel {
    pub at: SelfAt,
    pub kernel: Seq<u8>,
    pub bootinit: Seq<u8>,
    pub staged: Seq<u8>,
    pub secure_boot: bool,
}

impl<'a> View for InstallSelf<'a> {
    type V = SelfModel;

    closed spec fn view(&self) -> SelfModel {
        SelfModel {
            at: self.at,
            kernel: self.kernel@,
            bootinit: self.bootinit@,
            staged: self.staged@,
            secure_boot: self.secure_boot,
        }
    }
}

impl SelfModel {
    pub open spec fn wf(self) -> bool {
        &&& self.kernel.len() <= BOOTLINUX_WINDOW
        &&& self.bootinit.len() <= INITRD_SLOT
        &&& self.at is Mtd ==> script_payload(ram_script()).len() <= MFH_SCRIPT_LEN
    }
}

pub open spec fn self_refusal(
    kernel: Option<Seq<u8>>,
    bootinit: Option<Seq<u8>>,
    staged: Option<Seq<u8>>,
) -> Option<Seq<char>> {
    if kernel is None {
        Some("release has no bzImage"@)
    } else if bootinit is None {
        Some("release has no boot-init.cpio.gz (build it: see post-image)"@)
    } else if staged is None {
        Some("release has no rootfs.ext2.gz (build it: see post-image)"@)
    } else {
        kernel_problem(kernel->0)
    }
}

pub open spec fn bootinit_told(n: nat) -> EventModel {
    EventModel::Step("tiny boot-init "@ + dec(n) + " B -> eMMC "@ + hex0x(BOOTINIT_EMMC_OFF as nat))
}

pub open spec fn staged_told(n: nat) -> EventModel {
    EventModel::Step(
        "staged rootfs "@ + dec(n) + " B (gz) -> eMMC "@ + hex0x(ROOTFS_STAGE_OFF as nat)
            + " (the tiny /init lays it onto p1)"@,
    )
}

pub open spec fn self_fuse_told() -> EventModel {
    EventModel::Detail("fuse clear: autoscript still written (harmless, one path)"@)
}

pub open spec fn self_turn(m: SelfModel, reply: Result<Seq<char>, Seq<char>>) -> (SelfAt, TurnModel) {
    match m.at {
        SelfAt::Start => (SelfAt::Guard, running(quiet(), READ_P1_START@, false)),
        SelfAt::Guard => match guard_verdict(reply) {
            Err(why) => (SelfAt::Ended, failed(why)),
            Ok(start) => (
                SelfAt::Container,
                putting(
                    quiet().push(guard_told(start)).push(container_told(m.kernel, ""@)),
                    container_bytes(m.kernel),
                    dd_command(EMMC_CONTAINER_OFF as nat),
                ),
            ),
        },
        SelfAt::Container => match reply {
            Err(e) => (SelfAt::Ended, failed(dd_failed(EMMC_CONTAINER_OFF as nat, e))),
            Ok(_) => (
                SelfAt::SizeWord,
                putting(quiet(), be32(word(container_len(m.kernel))), dd_command(EMMC_SIZE_OFF as nat)),
            ),
        },
        SelfAt::SizeWord => match reply {
            Err(e) => (SelfAt::Ended, failed(dd_failed(EMMC_SIZE_OFF as nat, e))),
            Ok(_) => (
                SelfAt::BootInit,
                putting(
                    quiet().push(bootinit_told(m.bootinit.len())),
                    m.bootinit,
                    dd_command(BOOTINIT_EMMC_OFF as nat),
                ),
            ),
        },
        SelfAt::BootInit => match reply {
            Err(e) => (SelfAt::Ended, failed(dd_failed(BOOTINIT_EMMC_OFF as nat, e))),
            Ok(_) => (
                SelfAt::Staged,
                putting(
                    quiet().push(staged_told(m.staged.len())),
                    m.staged,
                    dd_command(ROOTFS_STAGE_OFF as nat),
                ),
            ),
        },
        SelfAt::Staged => match reply {
            Err(e) => (SelfAt::Ended, failed(dd_failed(ROOTFS_STAGE_OFF as nat, e))),
            Ok(_) => {
                let log = fuse_told(m.secure_boot, script_told(quiet(), ram_script()), self_fuse_told());
                if script_payload(ram_script()).len() > MFH_SCRIPT_LEN {
                    (
                        SelfAt::Ended,
                        failed_after(log, overflow_text(script_payload(ram_script()).len())),
                    )
                } else {
                    (SelfAt::Mtd(MtdAt::Listed), running(log, LIST_MTD@, false))
                }
            },
        },
        SelfAt::Mtd(at) => match mtd_step(at, reply) {
            MtdNext::Go(to, op) => (
                SelfAt::Mtd(to),
                TurnModel { log: quiet(), next: NextModel::Do(op) },
            ),
            MtdNext::Verified => (
                SelfAt::Recorded,
                running(
                    quiet(),
                    record_command(
                        sector_ceil(container_len(m.kernel)),
                        sector_ceil(m.bootinit.len()),
                    ),
                    false,
                ),
            ),
            MtdNext::Refused(why) => (SelfAt::Ended, failed(why)),
        },
        SelfAt::Recorded => (
            SelfAt::Reboot,
            rebooting(quiet(), "rebooting — first boot self-installs p1 from the staged image, then pivots"@),
        ),
        SelfAt::Reboot => (SelfAt::Ended, done(quiet())),
        SelfAt::Ended => (SelfAt::Ended, done(quiet())),
    }
}

impl<'a> InstallSelf<'a> {
    /// Refuse a release that lacks an image or whose kernel is unfit. The boot
    /// initramfs must fit the slot the script reads.
    pub fn new(
        kernel: Option<&'a [u8]>,
        bootinit: Option<&'a [u8]>,
        staged: Option<&'a [u8]>,
        secure_boot: bool,
    ) -> (r: Result<InstallSelf<'a>, String>)
        requires
            bootinit matches Some(b) ==> b@.len() <= INITRD_SLOT,
        ensures
            match self_refusal(opt_bytes(kernel), opt_bytes(bootinit), opt_bytes(staged)) {
                Some(why) => r is Err && r->Err_0@ == why,
                None => r is Ok && r->Ok_0@ == (SelfModel {
                    at: SelfAt::Start,
                    kernel: opt_bytes(kernel)->0,
                    bootinit: opt_bytes(bootinit)->0,
                    staged: opt_bytes(staged)->0,
                    secure_boot,
                }) && r->Ok_0@.wf(),
            },
    {
        let kernel = match kernel {
            Some(k) => k,
            None => {
                return Err(String::from_str("release has no bzImage"));
            },
        };
        let bootinit = match bootinit {
            Some(k) => k,
            None => {
                return Err(
                    String::from_str("release has no boot-init.cpio.gz (build it: see post-image)"),
                );
            },
        };
        let staged = match staged {
            Some(k) => k,
            None => {
                return Err(String::from_str("release has no rootfs.ext2.gz (build it: see post-image)"));
            },
        };
        match check_kernel(kernel) {
            Some(why) => Err(why),
            None => Ok(InstallSelf { at: SelfAt::Start, kernel, bootinit, staged, secure_boot }),
        }
    }

    fn after_guard(&self, reply: &Reply) -> (r: (SelfAt, Turn<'a>))
        requires
            self@.wf(),
            self@.at is Guard,
        ensures
            (r.0, r.1@) == self_turn(self@, reply_model(*reply)),
    {
        let mut log = Log::new();
        match guard_partitions(reply, &mut log) {
            Err(why) => (SelfAt::Ended, fail(why)),
            Ok(_) => {
                tell_container(&mut log, self.kernel, "");
                (SelfAt::Container, put_container(log, self.kernel))
            },
        }
    }

    fn after_staged(&self, reply: &Reply) -> (r: (SelfAt, Turn<'a>))
        requires
            self@.wf(),
            self@.at is Staged,
        ensures
            (r.0, r.1@) == self_turn(self@, reply_model(*reply)),
    {
        if let Err(e) = reply {
            return (SelfAt::Ended, fail(dd_error(ROOTFS_STAGE_OFF, e.as_str())));
        }
        let total: u64 = EMMC_HEADER_LEN as u64 + self.kernel.len() as u64;
        let script = ram_autoscript(total, self.bootinit.len() as u64);
        let mut log = Log::new();
        tell_script(&mut log, &script);
        if !self.secure_boot {
            log.detail(String::from_str("fuse clear: autoscript still written (harmless, one path)"));
        }
        match build_autoscript(script.as_slice()) {
            Err(why) => (SelfAt::Ended, fail_after(log, why)),
            Ok(_) => (SelfAt::Mtd(MtdAt::Listed), run(log, String::from_str(LIST_MTD), false)),
        }
    }

    fn after_mtd(&self, at: MtdAt, reply: &Reply) -> (r: (SelfAt, Turn<'a>))
        requires
            self@.wf(),
            self@.at == SelfAt::Mtd(at),
        ensures
            (r.0, r.1@) == self_turn(self@, reply_model(*reply)),
    {
        let script = match ram_blob() {
            Ok(b) => b,
            Err(why) => {
                return (SelfAt::Ended, fail(why));
            },
        };
        match write_mtd(at, reply, &script) {
            MtdTurn::Go(to, next) => (SelfAt::Mtd(to), Turn { log: Log::new(), next }),
            MtdTurn::Verified => {
                let total: u64 = EMMC_HEADER_LEN as u64 + self.kernel.len() as u64;
                let command = record_sizes(
                    round_to_sector(total),
                    round_to_sector(self.bootinit.len() as u64),
                );
                (SelfAt::Recorded, run(Log::new(), command, false))
            },
            MtdTurn::Refused(why) => (SelfAt::Ended, fail(why)),
        }
    }

    /// Take the reply to the last operation and say what follows.
    pub fn next(&mut self, reply: Reply) -> (r: Turn<'a>)
        requires
            old(self)@.wf(),
        ensures
            final(self)@.wf(),
            (final(self)@.at, r@) == self_turn(old(self)@, reply_model(reply)),
            final(self)@ == (SelfModel { at: final(self)@.at, ..old(self)@ }),
    {
        let (at, turn) = match self.at {
            SelfAt::Start => (SelfAt::Guard, run(Log::new(), String::from_str(READ_P1_START), false)),
            SelfAt::Guard => self.after_guard(&reply),
            SelfAt::Container => match &reply {
                Err(e) => (SelfAt::Ended, fail(dd_error(EMMC_CONTAINER_OFF, e.as_str()))),
                Ok(_) => (SelfAt::SizeWord, put_size_word(self.kernel)),
            },
            SelfAt::SizeWord => match &reply {
                Err(e) => (SelfAt::Ended, fail(dd_error(EMMC_SIZE_OFF, e.as_str()))),
                Ok(_) => {
                    let mut log = Log::new();
                    let mut told = cat3(
                        "tiny boot-init ",
                        dec_string(self.bootinit.len() as u64).as_str(),
                        " B -> eMMC ",
                    );
                    told.append(hex0x_string(BOOTINIT_EMMC_OFF).as_str());
                    log.step(told);
                    (SelfAt::BootInit, put_slice(log, self.bootinit, dd_to_emmc(BOOTINIT_EMMC_OFF)))
                },
            },
            SelfAt::BootInit => match &reply {
                Err(e) => (SelfAt::Ended, fail(dd_error(BOOTINIT_EMMC_OFF, e.as_str()))),
                Ok(_) => {
                    let mut log = Log::new();
                    log.step(
                        cat5(
                            "staged rootfs ",
                            dec_string(self.staged.len() as u64).as_str(),
                            " B (gz) -> eMMC ",
                            hex0x_string(ROOTFS_STAGE_OFF).as_str(),
                            " (the tiny /init lays it onto p1)",
                        ),
                    );
                    (SelfAt::Staged, put_slice(log, self.staged, dd_to_emmc(ROOTFS_STAGE_OFF)))
                },
            },
            SelfAt::Staged => self.after_staged(&reply),
            SelfAt::Mtd(at) => self.after_mtd(at, &reply),
            SelfAt::Recorded => (
                SelfAt::Reboot,
                reboot_turn(
                    Log::new(),
                    "rebooting — first boot self-installs p1 from the staged image, then pivots",
                ),
            ),
            SelfAt::Reboot => (SelfAt::Ended, finish(Log::new())),
            SelfAt::Ended => (SelfAt::Ended, finish(Log::new())),
        };
        self.at = at;
        turn
    }
}

/// The one-shot install reboots the box only after the script was read back.
pub proof fn law_self_install_reboots_after_the_script(m: SelfModel, reply: Result<Seq<char>, Seq<char>>)
    ensures
        self_turn(m, reply).0 is Reboot ==> m.at is Recorded,
        self_turn(m, reply).0 is Recorded ==> m.at == SelfAt::Mtd(MtdAt::Back) && reply is Ok && starts_with(
            reply->Ok_0,
            "emmc"@,
        ),
{
}

// ----------------------------------------------------------------------- stage 2

/// Where stage 2 stands.
#[derive(Debug, Clone, Copy, PartialEq, Eq, Structural)]
pub enum Stage2At {
    Start,
    Root,
    Written,
    Marked,
    Reboot,
    Ended,
}

/// Stage 2: with the box RAM-booted and p1 free, write the real root filesystem.
///
/// The autoscript stays: the initramfs pivots to p1 whenever p1 carries the
/// release marker, so the same script boots straight through from then on.
#[derive(Debug)]
pub struct Stage2<'a> {
    at: Stage2At,
    rootfs: Option<&'a [u8]>,
}

pub ghost struct Stage2Model {
    pub at: Stage2At,
    pub rootfs: Option<Seq<u8>>,
}

impl<'a> View for Stage2<'a> {
    type V = Stage2Model;

    closed spec fn view(&self) -> Stage2Model {
        Stage2Model { at: self.at, rootfs: opt_bytes(self.rootfs) }
    }
}

/// p1 is the running root, or nobody can tell that it is not.
pub open spec fn root_on_p1(reply: Result<Seq<char>, Seq<char>>) -> bool {
    match reply {
        Ok(out) => contains(out, "mmcblk0p1"@),
        Err(_) => true,
    }
}

fn is_root_on_p1(reply: &Reply) -> (r: bool)
    ensures
        r == root_on_p1(reply_model(*reply)),
{
    match reply {
        Ok(out) => {
            let chars = to_chars(out.as_str());
            contains_str(chars.as_slice(), "mmcblk0p1")
        },
        Err(_) => true,
    }
}

pub open spec fn mounted_text() -> Seq<char> {
    "p1 is still the running root — the box did not come up in RAM; not overwriting a mounted root"@
}

/// The release marker is what makes the initramfs pivot; without it the box
/// would stay in RAM and look as if nothing had been installed.
pub open spec fn marker_verdict(reply: Result<Seq<char>, Seq<char>>) -> Result<Seq<char>, Seq<char>> {
    match reply {
        Err(e) => Err(e),
        Ok(out) => if contains(out, "HAVE"@) {
            Ok("p1 carries /etc/openhc-release — /init will pivot to it"@)
        } else if contains(out, "STAMPED"@) {
            Ok(
                "p1 had no /etc/openhc-release — stamped it so /init pivots instead of silently staying in RAM"@,
            )
        } else {
            Err("could not mount p1 to verify /etc/openhc-release — the box would boot to RAM"@)
        },
    }
}

pub fn ensure_p1_marker(reply: &Reply) -> (r: Result<String, String>)
    ensures
        reply_model(r) == marker_verdict(reply_model(*reply)),
{
    match reply {
        Err(e) => Err(e.clone()),
        Ok(out) => {
            let chars = to_chars(out.as_str());
            if contains_str(chars.as_slice(), "HAVE") {
                Ok(String::from_str("p1 carries /etc/openhc-release — /init will pivot to it"))
            } else if contains_str(chars.as_slice(), "STAMPED") {
                Ok(
                    String::from_str(
                        "p1 had no /etc/openhc-release — stamped it so /init pivots instead of silently staying in RAM",
                    ),
                )
            } else {
                Err(
                    String::from_str(
                        "could not mount p1 to verify /etc/openhc-release — the box would boot to RAM",
                    ),
                )
            }
        },
    }
}

pub open spec fn stage2_turn(m: Stage2Model, reply: Result<Seq<char>, Seq<char>>) -> (Stage2At, TurnModel) {
    match m.at {
        Stage2At::Start => (Stage2At::Root, running(quiet(), WHICH_ROOT@, false)),
        Stage2At::Root => if root_on_p1(reply) {
            (Stage2At::Ended, failed(mounted_text()))
        } else {
            match m.rootfs {
                None => (Stage2At::Ended, failed("release has no rootfs.ext2"@)),
                Some(data) => (
                    Stage2At::Written,
                    putting(
                        quiet().push(
                            EventModel::Step("writing rootfs.ext2 ("@ + dec(data.len()) + " B) -> p1"@),
                        ),
                        data,
                        WRITE_P1@,
                    ),
                ),
            }
        },
        Stage2At::Written => match reply {
            Err(e) => (Stage2At::Ended, failed("writing p1: "@ + e)),
            Ok(_) => (Stage2At::Marked, running(quiet(), MARK_P1@, false)),
        },
        Stage2At::Marked => match marker_verdict(reply) {
            Err(why) => (Stage2At::Ended, failed(why)),
            Ok(told) => (
                Stage2At::Reboot,
                rebooting(
                    quiet().push(EventModel::Detail(told)),
                    "rebooting — the box will boot openHC from p1"@,
                ),
            ),
        },
        Stage2At::Reboot => (Stage2At::Ended, done(quiet())),
        Stage2At::Ended => (Stage2At::Ended, done(quiet())),
    }
}

impl<'a> Stage2<'a> {
    pub fn new(rootfs: Option<&'a [u8]>) -> (r: Stage2<'a>)
        ensures
            r@ == (Stage2Model { at: Stage2At::Start, rootfs: opt_bytes(rootfs) }),
    {
        Stage2 { at: Stage2At::Start, rootfs }
    }

    /// Take the reply to the last operation and say what follows.
    pub fn next(&mut self, reply: Reply) -> (r: Turn<'a>)
        ensures
            (final(self)@.at, r@) == stage2_turn(old(self)@, reply_model(reply)),
            final(self)@.rootfs == old(self)@.rootfs,
    {
        let (at, turn) = match self.at {
            Stage2At::Start => (Stage2At::Root, run(Log::new(), String::from_str(WHICH_ROOT), false)),
            Stage2At::Root => {
                if is_root_on_p1(&reply) {
                    (
                        Stage2At::Ended,
                        fail(
                            String::from_str(
                                "p1 is still the running root — the box did not come up in RAM; not overwriting a mounted root",
                            ),
                        ),
                    )
                } else {
                    match self.rootfs {
                        None => (Stage2At::Ended, fail(String::from_str("release has no rootfs.ext2"))),
                        Some(data) => {
                            let mut log = Log::new();
                            log.step(
                                cat3(
                                    "writing rootfs.ext2 (",
                                    dec_string(data.len() as u64).as_str(),
                                    " B) -> p1",
                                ),
                            );
                            (Stage2At::Written, put_slice(log, data, String::from_str(WRITE_P1)))
                        },
                    }
                }
            },
            Stage2At::Written => match &reply {
                Err(e) => (Stage2At::Ended, fail(cat2("writing p1: ", e.as_str()))),
                Ok(_) => (Stage2At::Marked, run(Log::new(), String::from_str(MARK_P1), false)),
            },
            Stage2At::Marked => match ensure_p1_marker(&reply) {
                Err(why) => (Stage2At::Ended, fail(why)),
                Ok(told) => {
                    let mut log = Log::new();
                    log.detail(told);
                    (Stage2At::Reboot, reboot_turn(log, "rebooting — the box will boot openHC from p1"))
                },
            },
            Stage2At::Reboot => (Stage2At::Ended, finish(Log::new())),
            Stage2At::Ended => (Stage2At::Ended, finish(Log::new())),
        };
        self.at = at;
        turn
    }
}

/// Stage 2 writes p1 once, with the root filesystem, and only when the box said
/// that its root is somewhere else.
pub proof fn law_a_mounted_root_is_never_overwritten(m: Stage2Model, reply: Result<Seq<char>, Seq<char>>)
    ensures
        stage2_turn(m, reply).1.next matches NextModel::Do(OpModel::Put { data, command }) ==> {
            &&& m.at is Root
            &&& reply is Ok
            &&& !contains(reply->Ok_0, "mmcblk0p1"@)
            &&& m.rootfs == Some(data)
            &&& command == WRITE_P1@
        },
        stage2_turn(m, reply).0 is Reboot ==> m.at is Marked && marker_verdict(reply) is Ok,
{
}

// ------------------------------------------------------------- from a release

/// Stage 1 of a release.
pub fn stage1_ram_installer<'a>(rel: &'a Release, secure_boot: bool) -> (r: Result<Stage1<'a>, String>)
    requires
        rel.wf(),
    ensures
        match stage1_refusal(artefact(rel@, "bzImage"@), artefact(rel@, "rootfs.cpio.gz"@)) {
            Some(why) => r is Err && r->Err_0@ == why,
            None => r is Ok && r->Ok_0@.wf() && r->Ok_0@ == (Stage1Model {
                at: Stage1At::Start,
                kernel: artefact(rel@, "bzImage"@)->0,
                initrd: artefact(rel@, "rootfs.cpio.gz"@)->0,
                secure_boot,
            }),
        },
{
    Stage1::new(rel.get("bzImage"), rel.get("rootfs.cpio.gz"), secure_boot)
}

/// The one-shot install of a release.
pub fn install_self<'a>(rel: &'a Release, secure_boot: bool) -> (r: Result<InstallSelf<'a>, String>)
    requires
        rel.wf(),
        artefact(rel@, "boot-init.cpio.gz"@) matches Some(b) ==> b.len() <= INITRD_SLOT,
    ensures
        match self_refusal(
            artefact(rel@, "bzImage"@),
            artefact(rel@, "boot-init.cpio.gz"@),
            artefact(rel@, "rootfs.ext2.gz"@),
        ) {
            Some(why) => r is Err && r->Err_0@ == why,
            None => r is Ok && r->Ok_0@.wf() && r->Ok_0@ == (SelfModel {
                at: SelfAt::Start,
                kernel: artefact(rel@, "bzImage"@)->0,
                bootinit: artefact(rel@, "boot-init.cpio.gz"@)->0,
                staged: artefact(rel@, "rootfs.ext2.gz"@)->0,
                secure_boot,
            }),
        },
{
    let kernel = rel.get("bzImage");
    let bootinit = rel.get("boot-init.cpio.gz");
    let staged = rel.get("rootfs.ext2.gz");
    InstallSelf::new(kernel, bootinit, staged, secure_boot)
}

/// Stage 2 of a release.
pub fn stage2_write_rootfs<'a>(rel: &'a Release) -> (r: Stage2<'a>)
    requires
        rel.wf(),
    ensures
        r@ == (Stage2Model { at: Stage2At::Start, rootfs: artefact(rel@, "rootfs.ext2"@) }),
{
    Stage2::new(rel.get("rootfs.ext2"))
}

// ------------------------------------------------- what is written and what boots

/// Bytes that a flow streams onto the eMMC, and the byte of the device that the
/// first of them lands on.
pub ghost struct EmmcWrite {
    pub data: Seq<u8>,
    pub at: nat,
}

pub open spec fn emmc_write(n: NextModel) -> Option<EmmcWrite> {
    match n {
        NextModel::Do(OpModel::Put { data, command }) => if dd_device(command) == Some("/dev/mmcblk0"@) {
            match dd_offset(command) {
                Some(at) => Some(EmmcWrite { data, at }),
                None => None,
            }
        } else {
            None
        },
        _ => None,
    }
}

/// Where the loader looks for the kernel, it finds this one: it read the written
/// bytes, all of them, and its base is the kernel's first byte among them.
pub open spec fn finds_kernel(b: Machine, data: Seq<u8>, off: nat, kernel: Seq<u8>) -> bool {
    exists|to: nat| #[trigger]
        b.read.dom().contains(to) && b.read[to].0 == loader_offset(off) && data.len() <= b.read[to].1
            && b.kernel_base() is Some && to <= b.kernel_base()->0 <= to + data.len() && data.skip(
            b.kernel_base()->0 - to,
        ) == kernel
}

/// The ramdisk the kernel is told of is a read of the written bytes, all of them,
/// and neither its address nor its size is another read's.
pub open spec fn finds_ramdisk(b: Machine, data: Seq<u8>, off: nat) -> bool {
    b.ramdisk() matches Some((at, len)) && b.read.dom().contains(at) && b.read[at] == (loader_offset(off), len)
        && data.len() <= len
}

/// No read lands on another.
pub open spec fn reads_apart(b: Machine) -> bool {
    forall|x: nat, y: nat|
        #![trigger b.read.dom().contains(x), b.read.dom().contains(y)]
        b.read.dom().contains(x) && b.read.dom().contains(y) && x < y ==> x + b.read[x].1 <= y
}

/// `dd` to a raw offset lands on that offset of the whole device.
pub proof fn law_dd_lands_on_the_offset(off: nat)
    ensures
        dd_device(dd_command(off)) == Some("/dev/mmcblk0"@),
        dd_offset(dd_command(off)) == Some(off),
{
    let aligned = off % SECTOR as nat == 0;
    let bs = if aligned { SECTOR as nat } else { 1 };
    let seek = if aligned { off / SECTOR as nat } else { off };
    reveal_strlit("dd of=/dev/mmcblk0 bs=");
    reveal_strlit("dd");
    reveal_strlit("of=");
    reveal_strlit("/dev/mmcblk0");
    reveal_strlit("bs=");
    reveal_strlit("seek=");
    reveal_strlit(" seek=");
    reveal_strlit(" conv=notrunc 2>/dev/null; sync");
    reveal_strlit("conv=notrunc");
    reveal_strlit("2>/dev/null;");
    reveal_strlit("sync");
    reveal_strlit(" ");
    let a = "dd"@;
    let o = "of="@ + "/dev/mmcblk0"@;
    let b = "bs="@ + dec(bs);
    let k = "seek="@ + dec(seek);
    lemma_keyed_number("bs="@, bs);
    lemma_keyed_number("seek="@, seek);
    lemma_value_of("of="@, "/dev/mmcblk0"@);
    assert(is_word(o));
    crate::text::lemma_one_word(a);
    crate::text::lemma_words_push(a, o);
    let s1 = a + " "@ + o;
    crate::text::lemma_words_push(s1, b);
    let s2 = s1 + " "@ + b;
    crate::text::lemma_words_push(s2, k);
    let s3 = s2 + " "@ + k;
    crate::text::lemma_words_push(s3, "conv=notrunc"@);
    let s4 = s3 + " "@ + "conv=notrunc"@;
    crate::text::lemma_words_push(s4, "2>/dev/null;"@);
    let s5 = s4 + " "@ + "2>/dev/null;"@;
    crate::text::lemma_words_push(s5, "sync"@);
    assert(dd_command(off) =~= s5 + " "@ + "sync"@);
    let w = words(dd_command(off));
    assert(w =~= seq![a, o, b, k, "conv=notrunc"@, "2>/dev/null;"@, "sync"@]);
    assert(bs * seek == off) by {
        if aligned {
            assert(off == 512 * (off / 512)) by (nonlinear_arith)
                requires
                    off % 512 == 0,
            ;
        }
    }
}

/// What the loader has done when it ran the RAM-boot script.
pub proof fn lemma_ram_script_runs()
    ensures
        ({
            let b = ran(ram_script());
            &&& b.fresh
            &&& b.booted is Some
            &&& b.kernel_base() == Some((KERNEL_ADDR + EMMC_HEADER_LEN) as nat)
            &&& b.ramdisk() == Some((RAMDISK_ADDR as nat, INITRD_SLOT as nat))
            &&& b.read =~= Map::<nat, (nat, nat)>::empty().insert(
                KERNEL_ADDR as nat,
                ((EMMC_CONTAINER_OFF + CEFDK_EMMC_DELTA) as nat, KERNEL_SLOT as nat),
            ).insert(RAMDISK_ADDR as nat, ((INITRD_EMMC_OFF + CEFDK_EMMC_DELTA) as nat, INITRD_SLOT as nat))
        }),
{
    let k = cmd_emmc_rd((EMMC_CONTAINER_OFF + CEFDK_EMMC_DELTA) as nat, KERNEL_ADDR as nat, KERNEL_SLOT as nat);
    let i = cmd_emmc_rd((INITRD_EMMC_OFF + CEFDK_EMMC_DELTA) as nat, RAMDISK_ADDR as nat, INITRD_SLOT as nat);
    let base = cmd_ord4(G_KBASE as nat, (KERNEL_ADDR + EMMC_HEADER_LEN) as nat);
    let flag = cmd_ord4(G_RD_FLAG as nat, 1);
    let addr = cmd_ord4(G_RD_ADDR as nat, RAMDISK_ADDR as nat);
    let size = cmd_ord4(G_RD_SIZE as nat, INITRD_SLOT as nat);
    lemma_read((EMMC_CONTAINER_OFF + CEFDK_EMMC_DELTA) as nat, KERNEL_ADDR as nat, KERNEL_SLOT as nat);
    lemma_read((INITRD_EMMC_OFF + CEFDK_EMMC_DELTA) as nat, RAMDISK_ADDR as nat, INITRD_SLOT as nat);
    lemma_flush();
    lemma_set(G_KBASE as nat, (KERNEL_ADDR + EMMC_HEADER_LEN) as nat);
    lemma_set(G_RD_FLAG as nat, 1);
    lemma_set(G_RD_ADDR as nat, RAMDISK_ADDR as nat);
    lemma_set(G_RD_SIZE as nat, INITRD_SLOT as nat);
    lemma_ram_cmdline();
    let s0 = Seq::<Seq<char>>::empty();
    assert(ran(s0) == at_rest());
    lemma_ran(s0, k);
    let s1 = s0.push(k);
    lemma_ran(s1, i);
    let s2 = s1.push(i);
    lemma_ran(s2, "cache flush"@);
    let s3 = s2.push("cache flush"@);
    lemma_ran(s3, base);
    let s4 = s3.push(base);
    lemma_ran(s4, flag);
    let s5 = s4.push(flag);
    lemma_ran(s5, addr);
    let s6 = s5.push(addr);
    lemma_ran(s6, size);
    let s7 = s6.push(size);
    lemma_ran(s7, RAM_BOOT@);
    assert(ram_script() =~= s7.push(RAM_BOOT@));
}

/// The part of a command line before what names a root filesystem, and after it.
pub open spec fn rootless(cmdline: Seq<char>, head: Seq<char>, tail: Seq<char>) -> bool {
    cmdline == head + " root=/dev/mmcblk0p1 rootwait"@ + tail
}

proof fn lemma_ram_cmdline()
    ensures
        crate::flasher::loader::understood(RAM_BOOT@) == (crate::flasher::loader::Line::Boot {
            cmdline: "console=ttyS0,115200 pci=realloc,nocrs rw"@,
        }),
        rootless(DEFAULT_CMDLINE@, "console=ttyS0,115200 pci=realloc,nocrs"@, " rw"@),
        "console=ttyS0,115200 pci=realloc,nocrs rw"@ == "console=ttyS0,115200 pci=realloc,nocrs"@ + " rw"@,
{
    reveal_strlit("bootlinux \"console=ttyS0,115200 pci=realloc,nocrs rw\"");
    reveal_strlit("bootlinux \"");
    reveal_strlit("\"");
    reveal_strlit("console=ttyS0,115200 pci=realloc,nocrs rw");
    reveal_strlit("console=ttyS0,115200 pci=realloc,nocrs");
    reveal_strlit("console=ttyS0,115200 pci=realloc,nocrs root=/dev/mmcblk0p1 rootwait rw");
    reveal_strlit(" root=/dev/mmcblk0p1 rootwait");
    reveal_strlit(" rw");
    lemma_boot("console=ttyS0,115200 pci=realloc,nocrs rw"@);
    assert(RAM_BOOT@ =~= "bootlinux \""@ + "console=ttyS0,115200 pci=realloc,nocrs rw"@ + "\""@);
    assert(DEFAULT_CMDLINE@ =~= "console=ttyS0,115200 pci=realloc,nocrs"@ + " root=/dev/mmcblk0p1 rootwait"@
        + " rw"@);
    assert("console=ttyS0,115200 pci=realloc,nocrs rw"@ =~= "console=ttyS0,115200 pci=realloc,nocrs"@ + " rw"@);
}

/// The RAM boot starts the kernel with the command line of an ordinary boot, less
/// the words that name a root filesystem: its root is the ramdisk.
pub proof fn law_the_ram_boot_names_no_root()
    ensures
        exists|head: Seq<char>, tail: Seq<char>|
            #[trigger] rootless(DEFAULT_CMDLINE@, head, tail) && ran(ram_script()).booted == Some(head + tail),
{
    lemma_ram_cmdline();
    lemma_boot_of_ram_script();
    assert(rootless(DEFAULT_CMDLINE@, "console=ttyS0,115200 pci=realloc,nocrs"@, " rw"@));
}

proof fn lemma_boot_of_ram_script()
    ensures
        ran(ram_script()).booted == Some("console=ttyS0,115200 pci=realloc,nocrs rw"@),
{
    lemma_ram_cmdline();
    let before = ram_script().drop_last();
    lemma_ran(before, RAM_BOOT@);
    assert(ram_script() =~= before.push(RAM_BOOT@));
    lemma_unbooted();
}

proof fn lemma_unbooted()
    ensures
        ran(ram_script().drop_last()).booted is None,
{
    let k = cmd_emmc_rd((EMMC_CONTAINER_OFF + CEFDK_EMMC_DELTA) as nat, KERNEL_ADDR as nat, KERNEL_SLOT as nat);
    let i = cmd_emmc_rd((INITRD_EMMC_OFF + CEFDK_EMMC_DELTA) as nat, RAMDISK_ADDR as nat, INITRD_SLOT as nat);
    let base = cmd_ord4(G_KBASE as nat, (KERNEL_ADDR + EMMC_HEADER_LEN) as nat);
    let flag = cmd_ord4(G_RD_FLAG as nat, 1);
    let addr = cmd_ord4(G_RD_ADDR as nat, RAMDISK_ADDR as nat);
    let size = cmd_ord4(G_RD_SIZE as nat, INITRD_SLOT as nat);
    lemma_read((EMMC_CONTAINER_OFF + CEFDK_EMMC_DELTA) as nat, KERNEL_ADDR as nat, KERNEL_SLOT as nat);
    lemma_read((INITRD_EMMC_OFF + CEFDK_EMMC_DELTA) as nat, RAMDISK_ADDR as nat, INITRD_SLOT as nat);
    lemma_flush();
    lemma_set(G_KBASE as nat, (KERNEL_ADDR + EMMC_HEADER_LEN) as nat);
    lemma_set(G_RD_FLAG as nat, 1);
    lemma_set(G_RD_ADDR as nat, RAMDISK_ADDR as nat);
    lemma_set(G_RD_SIZE as nat, INITRD_SLOT as nat);
    let s0 = Seq::<Seq<char>>::empty();
    assert(ran(s0) == at_rest());
    lemma_ran(s0, k);
    lemma_ran(s0.push(k), i);
    lemma_ran(s0.push(k).push(i), "cache flush"@);
    let s3 = s0.push(k).push(i).push("cache flush"@);
    lemma_ran(s3, base);
    lemma_ran(s3.push(base), flag);
    lemma_ran(s3.push(base).push(flag), addr);
    lemma_ran(s3.push(base).push(flag).push(addr), size);
    assert(ram_script().drop_last() =~= s3.push(base).push(flag).push(addr).push(size));
}

proof fn lemma_hex_tail(head: Seq<char>, n: nat)
    requires
        head.len() > 0,
        !crate::text::white(head[0]),
        forall|k: int| 0 <= k < head.len() ==> #[trigger] head[k] != '\0',
    ensures
        tidy(head + hex0x(n)),
{
    reveal_strlit("0x");
    crate::num::lemma_digits_plain(n, 16);
    let h = crate::num::hex(n);
    let s = head + hex0x(n);
    assert(s.last() == h.last());
    assert forall|k: int| 0 <= k < s.len() implies #[trigger] s[k] != '\0' by {
        if k < head.len() {
            assert(s[k] == head[k]);
        } else if k >= head.len() + 2 {
            assert(s[k] == h[k - head.len() - 2]);
        } else {
            assert(s[k] == "0x"@[k - head.len()]);
        }
    }
}

proof fn lemma_ram_script_tidy()
    ensures
        forall|i: int| 0 <= i < ram_script().len() ==> tidy(#[trigger] ram_script()[i]),
{
    reveal_strlit("emmc rd ");
    reveal_strlit("ord4 ");
    reveal_strlit(" = ");
    reveal_strlit(" ");
    reveal_strlit("cache flush");
    reveal_strlit("bootlinux \"console=ttyS0,115200 pci=realloc,nocrs rw\"");
    let k = (EMMC_CONTAINER_OFF + CEFDK_EMMC_DELTA) as nat;
    let i = (INITRD_EMMC_OFF + CEFDK_EMMC_DELTA) as nat;
    lemma_hex_tail("emmc rd "@, k);
    lemma_hex_tail("emmc rd "@ + hex0x(k) + " "@, KERNEL_ADDR as nat);
    lemma_hex_tail("emmc rd "@ + hex0x(k) + " "@ + hex0x(KERNEL_ADDR as nat) + " "@, KERNEL_SLOT as nat);
    lemma_hex_tail("emmc rd "@, i);
    lemma_hex_tail("emmc rd "@ + hex0x(i) + " "@, RAMDISK_ADDR as nat);
    lemma_hex_tail("emmc rd "@ + hex0x(i) + " "@ + hex0x(RAMDISK_ADDR as nat) + " "@, INITRD_SLOT as nat);
    lemma_hex_tail("ord4 "@, G_KBASE as nat);
    lemma_hex_tail("ord4 "@ + hex0x(G_KBASE as nat) + " = "@, (KERNEL_ADDR + EMMC_HEADER_LEN) as nat);
    lemma_hex_tail("ord4 "@, G_RD_FLAG as nat);
    lemma_hex_tail("ord4 "@ + hex0x(G_RD_FLAG as nat) + " = "@, 1);
    lemma_hex_tail("ord4 "@, G_RD_ADDR as nat);
    lemma_hex_tail("ord4 "@ + hex0x(G_RD_ADDR as nat) + " = "@, RAMDISK_ADDR as nat);
    lemma_hex_tail("ord4 "@, G_RD_SIZE as nat);
    lemma_hex_tail("ord4 "@ + hex0x(G_RD_SIZE as nat) + " = "@, INITRD_SLOT as nat);
}

/// What stage 1 and the one-shot install write into the flash entry is, to the
/// loader that reads it, the RAM-boot script, line for line.
pub proof fn law_the_stored_script_is_the_ram_boot(reply: Result<Seq<char>, Seq<char>>)
    requires
        script_payload(ram_script()).len() <= MFH_SCRIPT_LEN,
        mtd_step(MtdAt::EraseSize, reply) is Go,
    ensures
        mtd_step(MtdAt::EraseSize, reply) matches MtdNext::Go(at, OpModel::Put { data, .. }) && at is Written
            && data.len() == 0x800 && ran(stored_lines(data)) == ran(ram_script()),
{
    lemma_ram_script_tidy();
    law_a_tidy_script_is_stored_as_it_stands(ram_script());
}

/// A box that stage 1 lets reboot boots what stage 1 wrote: the loader reads the
/// container back whole from where it was put, and its kernel base is the kernel's
/// first byte, past the header; a ramdisk is told of, and it is the read of the
/// initrd, whole, from where the initrd was put. The copies do not run into each
/// other and are flushed before the kernel starts.
pub proof fn law_stage1_boots_what_it_wrote(
    m: Stage1Model,
    guard: Result<Seq<char>, Seq<char>>,
    out: Seq<char>,
)
    requires
        m.wf(),
        guard_verdict(guard) is Ok,
        slot_refusal(m.kernel, m.initrd) is None,
    ensures
        ({
            let b = ran(ram_script());
            let k = emmc_write(stage1_turn(Stage1Model { at: Stage1At::Guard, ..m }, guard).1.next);
            let i = emmc_write(stage1_turn(Stage1Model { at: Stage1At::SizeWord, ..m }, Ok(out)).1.next);
            &&& k is Some && finds_kernel(b, k->0.data, k->0.at, m.kernel)
            &&& i is Some && i->0.data == m.initrd && finds_ramdisk(b, i->0.data, i->0.at)
            &&& reads_apart(b)
            &&& b.fresh
            &&& b.booted is Some
        }),
{
    lemma_ram_script_runs();
    law_dd_lands_on_the_offset(EMMC_CONTAINER_OFF as nat);
    law_dd_lands_on_the_offset(INITRD_EMMC_OFF as nat);
    let b = ran(ram_script());
    let data = container_bytes(m.kernel);
    assert(b.read.dom().contains(KERNEL_ADDR as nat));
    assert(data.skip(b.kernel_base()->0 - KERNEL_ADDR) =~= m.kernel);
}

/// The one-shot install likewise: what boots is the kernel it wrote, with the boot
/// initramfs it wrote as the ramdisk.
pub proof fn law_self_install_boots_what_it_wrote(
    m: SelfModel,
    guard: Result<Seq<char>, Seq<char>>,
    out: Seq<char>,
)
    requires
        m.wf(),
        guard_verdict(guard) is Ok,
    ensures
        ({
            let b = ran(ram_script());
            let k = emmc_write(self_turn(SelfModel { at: SelfAt::Guard, ..m }, guard).1.next);
            let i = emmc_write(self_turn(SelfModel { at: SelfAt::SizeWord, ..m }, Ok(out)).1.next);
            &&& k is Some && finds_kernel(b, k->0.data, k->0.at, m.kernel)
            &&& i is Some && i->0.data == m.bootinit && finds_ramdisk(b, i->0.data, i->0.at)
        }),
{
    lemma_ram_script_runs();
    law_dd_lands_on_the_offset(EMMC_CONTAINER_OFF as nat);
    law_dd_lands_on_the_offset(BOOTINIT_EMMC_OFF as nat);
    let b = ran(ram_script());
    let data = container_bytes(m.kernel);
    assert(b.read.dom().contains(KERNEL_ADDR as nat));
    assert(data.skip(b.kernel_base()->0 - KERNEL_ADDR) =~= m.kernel);
}

/// The images lie on the eMMC one behind the other, below p1: the size word, which
/// spells the container's length, in the sector before the container; then the
/// container; then the initrd. No write reaches into another.
pub proof fn law_stage1_writes_are_apart(m: Stage1Model, guard: Result<Seq<char>, Seq<char>>, out: Seq<char>)
    requires
        m.wf(),
        guard_verdict(guard) is Ok,
        slot_refusal(m.kernel, m.initrd) is None,
    ensures
        ({
            let k = emmc_write(stage1_turn(Stage1Model { at: Stage1At::Guard, ..m }, guard).1.next);
            let s = emmc_write(stage1_turn(Stage1Model { at: Stage1At::Container, ..m }, Ok(out)).1.next);
            let i = emmc_write(stage1_turn(Stage1Model { at: Stage1At::SizeWord, ..m }, Ok(out)).1.next);
            &&& k is Some && s is Some && i is Some
            &&& s->0.data.len() == 4 && big(s->0.data) == k->0.data.len()
            &&& s->0.at == 0x200 && k->0.at == 0x400
            &&& k->0.at + k->0.data.len() <= i->0.at
            &&& i->0.at + i->0.data.len() <= 0x2000000
        }),
{
    law_dd_lands_on_the_offset(EMMC_CONTAINER_OFF as nat);
    law_dd_lands_on_the_offset(EMMC_SIZE_OFF as nat);
    law_dd_lands_on_the_offset(INITRD_EMMC_OFF as nat);
    law_the_size_word_spells_the_length(container_len(m.kernel));
}

/// In the one-shot install the staged root filesystem lies past the boot initramfs,
/// which lies past the container.
pub proof fn law_self_install_writes_are_apart(m: SelfModel, guard: Result<Seq<char>, Seq<char>>, out: Seq<char>)
    requires
        m.wf(),
        guard_verdict(guard) is Ok,
    ensures
        ({
            let k = emmc_write(self_turn(SelfModel { at: SelfAt::Guard, ..m }, guard).1.next);
            let s = emmc_write(self_turn(SelfModel { at: SelfAt::Container, ..m }, Ok(out)).1.next);
            let i = emmc_write(self_turn(SelfModel { at: SelfAt::SizeWord, ..m }, Ok(out)).1.next);
            let r = emmc_write(self_turn(SelfModel { at: SelfAt::BootInit, ..m }, Ok(out)).1.next);
            &&& k is Some && s is Some && i is Some && r is Some
            &&& s->0.data.len() == 4 && big(s->0.data) == k->0.data.len()
            &&& s->0.at == 0x200 && k->0.at == 0x400
            &&& k->0.at + k->0.data.len() <= i->0.at
            &&& i->0.at + i->0.data.len() <= r->0.at
            &&& r->0.data == m.staged
            &&& r->0.at < 0x2000000
        }),
{
    law_dd_lands_on_the_offset(EMMC_CONTAINER_OFF as nat);
    law_dd_lands_on_the_offset(EMMC_SIZE_OFF as nat);
    law_dd_lands_on_the_offset(BOOTINIT_EMMC_OFF as nat);
    law_dd_lands_on_the_offset(ROOTFS_STAGE_OFF as nat);
    law_the_size_word_spells_the_length(container_len(m.kernel));
}

} // verus!
