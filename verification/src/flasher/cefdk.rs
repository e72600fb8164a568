//! CEFDK facts: eMMC layout, the kernel container, and the MFH autoscript.
//!
//! Constants and byte builders, no I/O. Every number here was measured on
//! hardware; a wrong value writes to the wrong place on someone's flash.
use crate::flasher::loader::{
    at_rest, is_word, lemma_address, lemma_boot, lemma_fetch, lemma_flush, lemma_ran, lemma_read, lemma_set, ran,
};
use crate::num::{dec, dec_string, hex0x, hex0x_string};
use crate::text::{
    bytes_of, from_chars, lemma_utf8_bytes, lemma_utf8_round_trip, lossy, lossy_text, skip_class, strings, to_chars,
    trim, trimmed, unskip_class, utf8, white, Class,
};
use vstd::prelude::*;
use vstd::slice::slice_subrange;
use vstd::string::*;

verus! {

// ------------------------------------------------------------- eMMC layout
//
//   0x000       MBR                          (0x55aa at 0x1fe)
//   0x200       container size, BE u32
//   0x400       CEFDK container header, 0x580 bytes
//   0x980       bzImage                      ("HdrS" at +0x202)
//   0x2000000   p1 begins (sector 65536, 32 MiB)

/// BE u32 total container length lives here.
pub const EMMC_SIZE_OFF: u64 = 0x200;

/// Container header starts here.
pub const EMMC_CONTAINER_OFF: u64 = 0x400;

/// Header length; the bzImage follows it.
pub const EMMC_HEADER_LEN: usize = 0x580;

/// Where the bzImage lands inside the container region.
pub const EMMC_KERNEL_OFF: u64 = 0x980;

/// First partition. Never write below this blindly.
pub const P1_START: u64 = 0x2000000;

/// Linux `/dev/mmcblk0` and CEFDK `emmc` agree on the offsets above. They do not
/// agree deep in the raw gap, where an image written by Linux reads back as
/// garbage through CEFDK's `emmc rd`.
pub const GAP_OFF_DEFAULT: u64 = 0xc00000;

pub const SECTOR: u64 = 512;

/// The smallest multiple of the sector size that is not below `n`.
pub open spec fn sector_ceil(n: nat) -> nat {
    ((n + 511) / 512) * 512
}

pub fn round_to_sector(n: u64) -> (r: u64)
    requires
        sector_ceil(n as nat) <= u64::MAX,
    ensures
        r == sector_ceil(n as nat),
{
    if n % SECTOR == 0 {
        n
    } else {
        n - n % SECTOR + SECTOR
    }
}

// ------------------------------------------------------ MFH / autoscript

/// SPI-NOR offset of the MFH `script` entry.
pub const MFH_SCRIPT_OFF: u64 = 0x91000;

/// Size of that entry.
pub const MFH_SCRIPT_LEN: usize = 0x800;

/// RAM address the kernel is staged at before `bootlinux`.
pub const KERNEL_ADDR: u64 = 0x6000000;

/// RAM address the initramfs is staged at, well clear of the kernel.
pub const RAMDISK_ADDR: u64 = 0x4000000;

/// CEFDK's kernel base global.
pub const G_KBASE: u64 = 0xc90a4;

/// 0: no ramdisk, 1: ramdisk present.
pub const G_RD_FLAG: u64 = 0x837560;

/// Where the ramdisk is, when there is one.
pub const G_RD_ADDR: u64 = 0x837564;

/// The ramdisk's length in bytes.
pub const G_RD_SIZE: u64 = 0x837568;

pub const DEFAULT_CMDLINE: &'static str =
    "console=ttyS0,115200 pci=realloc,nocrs root=/dev/mmcblk0p1 rootwait rw";

/// Command line for a pure-RAM boot off an initramfs: no `root=`, the rootfs is
/// the ramdisk. The EA's SoC UARTs need `routeirq`, and CEFDK's E820 does not
/// describe the PCI host-bridge windows, hence `nocrs`.
pub const RAMBOOT_CMDLINE: &'static str = "console=ttyS0,115200 pci=realloc,nocrs,routeirq rw";

// --------------------------------------------------------- the command lines

/// `emmc rd <from> <to> <len>`.
pub open spec fn cmd_emmc_rd(from: nat, to: nat, len: nat) -> Seq<char> {
    "emmc rd "@ + hex0x(from) + " "@ + hex0x(to) + " "@ + hex0x(len)
}

/// `ord4 <addr> = <value>`.
pub open spec fn cmd_ord4(addr: nat, value: nat) -> Seq<char> {
    "ord4 "@ + hex0x(addr) + " = "@ + hex0x(value)
}

/// `tftp get <server> <to> <name>`.
pub open spec fn cmd_tftp_get(server: Seq<char>, to: nat, name: Seq<char>) -> Seq<char> {
    "tftp get "@ + server + " "@ + hex0x(to) + " "@ + name
}

/// `bootlinux "<cmdline>"`.
pub open spec fn cmd_bootlinux(cmdline: Seq<char>) -> Seq<char> {
    "bootlinux \""@ + cmdline + "\""@
}

pub fn emmc_rd(from: u64, to: u64, len: u64) -> (r: String)
    ensures
        r@ == cmd_emmc_rd(from as nat, to as nat, len as nat),
{
    let mut s = String::from_str("emmc rd ");
    s.append(hex0x_string(from).as_str());
    s.append(" ");
    s.append(hex0x_string(to).as_str());
    s.append(" ");
    s.append(hex0x_string(len).as_str());
    s
}

pub fn ord4(addr: u64, value: u64) -> (r: String)
    ensures
        r@ == cmd_ord4(addr as nat, value as nat),
{
    let mut s = String::from_str("ord4 ");
    s.append(hex0x_string(addr).as_str());
    s.append(" = ");
    s.append(hex0x_string(value).as_str());
    s
}

pub fn tftp_get(server: &str, to: u64, name: &str) -> (r: String)
    ensures
        r@ == cmd_tftp_get(server@, to as nat, name@),
{
    let mut s = String::from_str("tftp get ");
    s.append(server);
    s.append(" ");
    s.append(hex0x_string(to).as_str());
    s.append(" ");
    s.append(name);
    s
}

pub fn bootlinux(cmdline: &str) -> (r: String)
    ensures
        r@ == cmd_bootlinux(cmdline@),
{
    let mut s = String::from_str("bootlinux \"");
    s.append(cmdline);
    s.append("\"");
    s
}

/// The five commands that boot our kernel from raw eMMC.
pub open spec fn autoscript_model(kernel_off: nat, kernel_len: nat, cmdline: Seq<char>) -> Seq<
    Seq<char>,
> {
    seq![
        cmd_emmc_rd(kernel_off, KERNEL_ADDR as nat, sector_ceil(kernel_len)),
        "cache flush"@,
        cmd_ord4(G_KBASE as nat, KERNEL_ADDR as nat),
        cmd_ord4(G_RD_FLAG as nat, 0),
        cmd_bootlinux(cmdline),
    ]
}

/// The five commands that boot our kernel from raw eMMC.
///
/// `cache flush` is not optional: CEFDK's `emmc rd` DMAs into RAM without
/// invalidating the CPU cache, so without it bootlinux parses stale memory.
pub fn autoscript_for(kernel_off: u64, kernel_len: u64, cmdline: &str) -> (r: Vec<String>)
    requires
        sector_ceil(kernel_len as nat) <= u64::MAX,
    ensures
        strings(r@) == autoscript_model(kernel_off as nat, kernel_len as nat, cmdline@),
{
    let size: u64 = round_to_sector(kernel_len);
    let mut v: Vec<String> = Vec::new();
    v.push(emmc_rd(kernel_off, KERNEL_ADDR, size));
    v.push(String::from_str("cache flush"));
    v.push(ord4(G_KBASE, KERNEL_ADDR));
    v.push(ord4(G_RD_FLAG, 0));
    v.push(bootlinux(cmdline));
    assert(strings(v@) =~= autoscript_model(kernel_off as nat, kernel_len as nat, cmdline@));
    v
}

/// The commands that netboot openHC into RAM from the CEFDK shell.
pub open spec fn ramboot_model(
    server_ip: Seq<char>,
    box_ip: Seq<char>,
    kernel_name: Seq<char>,
    initrd_name: Seq<char>,
    initrd_len: nat,
    cmdline: Seq<char>,
) -> Seq<Seq<char>> {
    seq![
        "ip set "@ + box_ip + " 255.255.255.0 0.0.0.0"@,
        cmd_tftp_get(server_ip, KERNEL_ADDR as nat, kernel_name),
        cmd_tftp_get(server_ip, RAMDISK_ADDR as nat, initrd_name),
        "cache flush"@,
        cmd_ord4(G_KBASE as nat, KERNEL_ADDR as nat),
        cmd_ord4(G_RD_FLAG as nat, 1),
        cmd_ord4(G_RD_ADDR as nat, RAMDISK_ADDR as nat),
        cmd_ord4(G_RD_SIZE as nat, initrd_len),
        cmd_bootlinux(cmdline),
    ]
}

/// The CEFDK shell commands that netboot openHC into RAM: pull the kernel and
/// initramfs over TFTP, then boot the initramfs directly (no `root=`).
///
/// The size is the exact initramfs byte count: bootlinux hands it to the kernel
/// as the ramdisk length, and the kernel's gzip/cpio reader needs the whole
/// image. `box_ip` is the address CEFDK takes for the transfer.
pub fn ramboot_tftp_for(
    server_ip: &str,
    box_ip: &str,
    kernel_name: &str,
    initrd_name: &str,
    initrd_len: u64,
    cmdline: &str,
) -> (r: Vec<String>)
    ensures
        strings(r@) == ramboot_model(
            server_ip@,
            box_ip@,
            kernel_name@,
            initrd_name@,
            initrd_len as nat,
            cmdline@,
        ),
{
    let mut ip = String::from_str("ip set ");
    ip.append(box_ip);
    ip.append(" 255.255.255.0 0.0.0.0");
    let mut v: Vec<String> = Vec::new();
    v.push(ip);
    v.push(tftp_get(server_ip, KERNEL_ADDR, kernel_name));
    v.push(tftp_get(server_ip, RAMDISK_ADDR, initrd_name));
    v.push(String::from_str("cache flush"));
    v.push(ord4(G_KBASE, KERNEL_ADDR));
    v.push(ord4(G_RD_FLAG, 1));
    v.push(ord4(G_RD_ADDR, RAMDISK_ADDR));
    v.push(ord4(G_RD_SIZE, initrd_len));
    v.push(bootlinux(cmdline));
    assert(strings(v@) =~= ramboot_model(
        server_ip@,
        box_ip@,
        kernel_name@,
        initrd_name@,
        initrd_len as nat,
        cmdline@,
    ));
    v
}

// ------------------------------------------------------------ the stored script

/// The lines a script stores: each trimmed, blank ones dropped.
pub open spec fn script_lines(lines: Seq<Seq<char>>) -> Seq<Seq<char>>
    decreases lines.len(),
{
    if lines.len() == 0 {
        seq![]
    } else if trim(lines.last()).len() == 0 {
        script_lines(lines.drop_last())
    } else {
        script_lines(lines.drop_last()).push(trim(lines.last()))
    }
}

/// The lines back to back, each ended by a zero byte.
pub open spec fn framed(lines: Seq<Seq<char>>) -> Seq<u8>
    decreases lines.len(),
{
    if lines.len() == 0 {
        seq![]
    } else {
        framed(lines.drop_last()) + utf8(lines.last()).push(0)
    }
}

/// The payload before padding: the framed lines and one more zero byte, which
/// ends the list.
pub open spec fn script_payload(lines: Seq<Seq<char>>) -> Seq<u8> {
    framed(script_lines(lines)).push(0)
}

/// The payload filled up to the entry's size with the erased-flash value.
pub open spec fn padded(payload: Seq<u8>) -> Seq<u8> {
    payload + Seq::new((MFH_SCRIPT_LEN - payload.len()) as nat, |i: int| 0xffu8)
}

/// The refusal of a script that does not fit.
pub open spec fn overflow_text(len: nat) -> Seq<char> {
    "autoscript is "@ + dec(len) + " bytes, MFH script entry holds "@ + dec(MFH_SCRIPT_LEN as nat)
}

/// Pack shell commands into the MFH `script` payload: zero-terminated strings
/// back to back, a final zero to end the list, then 0xff padding (erased-flash
/// value, so a shorter re-write does not disturb what follows).
pub fn build_autoscript(lines: &[String]) -> (r: Result<Vec<u8>, String>)
    ensures
        match r {
            Ok(blob) => {
                &&& script_payload(strings(lines@)).len() <= MFH_SCRIPT_LEN
                &&& blob@ == padded(script_payload(strings(lines@)))
            },
            Err(why) => {
                &&& script_payload(strings(lines@)).len() > MFH_SCRIPT_LEN
                &&& why@ == overflow_text(script_payload(strings(lines@)).len())
            },
        },
{
    let mut blob: Vec<u8> = Vec::new();
    let mut i: usize = 0;
    let ghost all = strings(lines@);
    while i < lines.len()
        invariant
            i <= lines@.len(),
            all == strings(lines@),
            blob@ == framed(script_lines(all.take(i as int))),
        decreases lines@.len() - i,
    {
        assert(all.take(i + 1).drop_last() =~= all.take(i as int));
        let chars = to_chars(lines[i].as_str());
        let line: &[char] = trimmed(chars.as_slice());
        assert(line@ == trim(all.take(i + 1).last()));
        if line.len() > 0 {
            let text = from_chars(line);
            let ghost before = blob@;
            let ghost kept = script_lines(all.take(i as int));
            let mut bytes = bytes_of(text.as_str());
            bytes.push(0);
            blob.append(&mut bytes);
            assert(kept.push(line@).drop_last() =~= kept);
            assert(blob@ =~= framed(kept) + utf8(line@).push(0));
        }
        i += 1;
    }
    assert(all.take(all.len() as int) =~= all);
    blob.push(0);
    if blob.len() > MFH_SCRIPT_LEN {
        let mut why = String::from_str("autoscript is ");
        why.append(dec_string(blob.len() as u64).as_str());
        why.append(" bytes, MFH script entry holds ");
        why.append(dec_string(MFH_SCRIPT_LEN as u64).as_str());
        return Err(why);
    }
    blob.resize(MFH_SCRIPT_LEN, 0xff);
    assert(blob@ =~= padded(script_payload(all)));
    Ok(blob)
}

/// The first index at or after `i` that holds a zero byte, or the length.
pub open spec fn zero_from(b: Seq<u8>, i: int) -> int
    decreases b.len() - i,
{
    if i >= b.len() {
        b.len() as int
    } else if b[i] == 0 {
        i
    } else {
        zero_from(b, i + 1)
    }
}

/// The bytes that are not erased flash.
pub open spec fn unpadded(b: Seq<u8>) -> Seq<u8>
    decreases b.len(),
{
    if b.len() == 0 {
        seq![]
    } else if b.last() == 0xff {
        unpadded(b.drop_last())
    } else {
        unpadded(b.drop_last()).push(b.last())
    }
}

/// The stored lines from byte `i` on: up to the first empty one.
pub open spec fn stored_from(b: Seq<u8>, i: int) -> Seq<Seq<char>>
    decreases b.len() - i,
{
    let j = zero_from(b, i);
    let chunk = unpadded(b.subrange(i, j));
    if chunk.len() == 0 {
        seq![]
    } else if i <= j < b.len() {
        seq![lossy_text(chunk)] + stored_from(b, j + 1)
    } else {
        seq![lossy_text(chunk)]
    }
}

/// The lines a unit's `script` entry holds.
pub open spec fn stored_lines(blob: Seq<u8>) -> Seq<Seq<char>> {
    stored_from(blob, 0)
}

fn next_zero(b: &[u8], from: usize) -> (r: usize)
    requires
        from <= b@.len(),
    ensures
        r == zero_from(b@, from as int),
        from <= r <= b@.len(),
{
    let mut i: usize = from;
    while i < b.len()
        invariant
            from <= i <= b@.len(),
            zero_from(b@, from as int) == zero_from(b@, i as int),
        decreases b@.len() - i,
    {
        if b[i] == 0 {
            return i;
        }
        i += 1;
    }
    i
}

fn drop_padding(b: &[u8]) -> (r: Vec<u8>)
    ensures
        r@ == unpadded(b@),
{
    let mut out: Vec<u8> = Vec::new();
    let mut i: usize = 0;
    while i < b.len()
        invariant
            i <= b@.len(),
            out@ == unpadded(b@.take(i as int)),
        decreases b@.len() - i,
    {
        assert(b@.take(i + 1).drop_last() =~= b@.take(i as int));
        if b[i] != 0xff {
            out.push(b[i]);
        }
        i += 1;
    }
    assert(b@.take(b@.len() as int) =~= b@);
    out
}

/// Inverse of [`build_autoscript`], for showing what a unit currently has.
pub fn parse_autoscript(blob: &[u8]) -> (r: Vec<String>)
    ensures
        strings(r@) == stored_lines(blob@),
{
    let mut out: Vec<String> = Vec::new();
    let mut i: usize = 0;
    loop
        invariant
            i <= blob@.len(),
            strings(out@) + stored_from(blob@, i as int) == stored_lines(blob@),
        decreases blob@.len() - i,
    {
        let j: usize = next_zero(blob, i);
        let chunk = drop_padding(slice_subrange(blob, i, j));
        let ghost before = out@;
        if chunk.len() == 0 {
            assert(strings(out@) + Seq::<Seq<char>>::empty() =~= strings(out@));
            return out;
        }
        let line: String = lossy(chunk.as_slice());
        out.push(line);
        assert(strings(out@) =~= strings(before) + seq![lossy_text(chunk@)]);
        if j >= blob.len() {
            return out;
        }
        assert(strings(before) + (seq![lossy_text(chunk@)] + stored_from(blob@, j + 1)) =~= strings(out@)
            + stored_from(blob@, j + 1));
        i = j + 1;
    }
}

// ------------------------------------------------------------------ round trip

/// No line holds a NUL character, which the framing uses as its terminator.
pub open spec fn nul_free(lines: Seq<Seq<char>>) -> bool {
    forall|i: int, k: int|
        0 <= i < lines.len() && 0 <= k < lines[i].len() ==> #[trigger] lines[i][k] != '\0'
}

proof fn lemma_unpadded_same(b: Seq<u8>)
    requires
        forall|k: int| 0 <= k < b.len() ==> #[trigger] b[k] != 0xff,
    ensures
        unpadded(b) == b,
    decreases b.len(),
{
    if b.len() > 0 {
        lemma_unpadded_same(b.drop_last());
        assert(b.drop_last().push(b.last()) =~= b);
    }
}

proof fn lemma_zero_from(b: Seq<u8>, i: int, j: int)
    requires
        0 <= i <= j < b.len(),
        b[j] == 0,
        forall|k: int| i <= k < j ==> #[trigger] b[k] != 0,
    ensures
        zero_from(b, i) == j,
    decreases j - i,
{
    if i < j {
        lemma_zero_from(b, i + 1, j);
    }
}

/// Reading from the start of the framed lines gives them back, whatever came
/// before and after, as long as a zero byte follows.
proof fn lemma_stored_framed(before: Seq<u8>, lines: Seq<Seq<char>>, after: Seq<u8>)
    requires
        nul_free(lines),
        forall|i: int| 0 <= i < lines.len() ==> (#[trigger] lines[i]).len() > 0,
        after.len() > 0,
        after[0] == 0,
    ensures
        stored_from(before + framed(lines) + after, before.len() as int) == lines,
    decreases lines.len(),
{
    let b = before + framed(lines) + after;
    let start = before.len() as int;
    if lines.len() == 0 {
        assert(framed(lines) =~= seq![]);
        assert(b[start] == 0);
        assert(b.subrange(start, start) =~= seq![]);
    } else {
        lemma_framed_head(lines);
        let first = lines[0];
        let rest = lines.skip(1);
        assert forall|i: int, k: int| 0 <= i < rest.len() && 0 <= k < rest[i].len() implies #[trigger] rest[i][k]
            != '\0' by {
            assert(rest[i] == lines[i + 1]);
        }
        assert forall|i: int| 0 <= i < rest.len() implies (#[trigger] rest[i]).len() > 0 by {
            assert(rest[i] == lines[i + 1]);
        }
        assert forall|k: int| 0 <= k < first.len() implies #[trigger] first[k] != '\0' by {
            assert(lines[0][k] != '\0');
        }
        lemma_utf8_bytes(first);
        lemma_utf8_round_trip(first);
        let enc = utf8(first);
        let j = start + enc.len();
        assert(b =~= (before + enc.push(0)) + framed(rest) + after);
        assert forall|k: int| start <= k < j implies #[trigger] b[k] != 0 by {
            assert(b[k] == enc[k - start]);
        }
        assert(b[j] == 0);
        lemma_zero_from(b, start, j);
        assert(b.subrange(start, j) =~= enc);
        assert forall|k: int| 0 <= k < enc.len() implies #[trigger] enc[k] != 0xff by {}
        lemma_unpadded_same(enc);
        lemma_stored_framed(before + enc.push(0), rest, after);
        assert((before + enc.push(0)).len() == j + 1);
        assert(seq![first] + rest =~= lines);
    }
}

proof fn lemma_framed_head(lines: Seq<Seq<char>>)
    requires
        lines.len() > 0,
    ensures
        framed(lines) == utf8(lines[0]).push(0) + framed(lines.skip(1)),
    decreases lines.len(),
{
    if lines.len() == 1 {
        assert(lines.drop_last() =~= seq![]);
        assert(lines.skip(1) =~= seq![]);
        assert(framed(lines.drop_last()) =~= seq![]);
        assert(framed(lines) =~= utf8(lines[0]).push(0) + framed(lines.skip(1)));
    } else {
        lemma_framed_head(lines.drop_last());
        assert(lines.drop_last().skip(1) =~= lines.skip(1).drop_last());
        assert(framed(lines) =~= utf8(lines[0]).push(0) + framed(lines.skip(1)));
    }
}

proof fn lemma_script_lines(lines: Seq<Seq<char>>)
    requires
        nul_free(lines),
    ensures
        nul_free(script_lines(lines)),
        forall|i: int| 0 <= i < script_lines(lines).len() ==> (#[trigger] script_lines(lines)[i]).len() > 0,
    decreases lines.len(),
{
    if lines.len() > 0 {
        let init = lines.drop_last();
        assert forall|i: int, k: int| 0 <= i < init.len() && 0 <= k < init[i].len() implies #[trigger] init[i][k]
            != '\0' by {
            assert(init[i] == lines[i]);
        }
        lemma_script_lines(init);
        let last = lines.last();
        let t = trim(last);
        crate::text::lemma_trim_within(last);
        assert forall|k: int| 0 <= k < t.len() implies #[trigger] t[k] != '\0' by {
            let m = choose|m: int| 0 <= m < last.len() && last[m] == t[k];
            assert(lines[lines.len() - 1][m] != '\0');
        }
    }
}

/// A stored script reads back as the commands that were packed into it: each one
/// trimmed, blank ones left out, in order. It holds of every list of commands
/// that fits the entry and in which no command holds a NUL character.
pub proof fn law_autoscript_round_trip(lines: Seq<Seq<char>>)
    requires
        nul_free(lines),
        script_payload(lines).len() <= MFH_SCRIPT_LEN,
    ensures
        stored_lines(padded(script_payload(lines))) == script_lines(lines),
        padded(script_payload(lines)).len() == MFH_SCRIPT_LEN,
{
    lemma_script_lines(lines);
    let kept = script_lines(lines);
    let fill = Seq::new((MFH_SCRIPT_LEN - script_payload(lines).len()) as nat, |i: int| 0xffu8);
    let after = seq![0u8] + fill;
    lemma_stored_framed(seq![], kept, after);
    assert(padded(script_payload(lines)) =~= Seq::<u8>::empty() + framed(kept) + after);
}

/// A line that is stored as it stands: something in it, no white space around it,
/// and no NUL character.
pub open spec fn tidy(line: Seq<char>) -> bool {
    line.len() > 0 && !white(line[0]) && !white(line.last()) && forall|k: int|
        0 <= k < line.len() ==> #[trigger] line[k] != '\0'
}

proof fn lemma_tidy_lines(lines: Seq<Seq<char>>)
    requires
        forall|i: int| 0 <= i < lines.len() ==> tidy(#[trigger] lines[i]),
    ensures
        script_lines(lines) == lines,
        nul_free(lines),
    decreases lines.len(),
{
    if lines.len() > 0 {
        let last = lines.last();
        assert(tidy(lines[lines.len() - 1]));
        lemma_tidy_lines(lines.drop_last());
        assert(skip_class(last, Class::White, 0) == 0);
        assert(unskip_class(last, Class::White, 0, last.len() as int) == last.len());
        assert(trim(last) =~= last);
        assert(lines.drop_last().push(last) =~= lines);
    }
    assert forall|i: int, k: int| 0 <= i < lines.len() && 0 <= k < lines[i].len() implies #[trigger] lines[i][k]
        != '\0' by {
        assert(tidy(lines[i]));
    }
}

/// A stored script that fits is, to the loader, the very lines that were packed.
pub proof fn law_a_tidy_script_is_stored_as_it_stands(lines: Seq<Seq<char>>)
    requires
        forall|i: int| 0 <= i < lines.len() ==> tidy(#[trigger] lines[i]),
        script_payload(lines).len() <= MFH_SCRIPT_LEN,
    ensures
        stored_lines(padded(script_payload(lines))) == lines,
{
    lemma_tidy_lines(lines);
    law_autoscript_round_trip(lines);
}

// ------------------------------------------------------------ what the lines do

/// The loader, given the five lines, starts the kernel with the command line from
/// where it just read it: whole sectors that begin at the kernel's place and cover
/// it, flushed before they are used, and no ramdisk is told of.
pub proof fn law_the_script_boots_the_kernel_it_reads(kernel_off: nat, kernel_len: nat, cmdline: Seq<char>)
    ensures
        ({
            let b = ran(autoscript_model(kernel_off, kernel_len, cmdline));
            &&& b.booted == Some(cmdline)
            &&& b.fresh
            &&& b.diskless()
            &&& b.kernel_base() matches Some(base) && b.read.dom().contains(base) && {
                let (from, len) = b.read[base];
                &&& from == kernel_off
                &&& kernel_len <= len < kernel_len + 512
                &&& len % 512 == 0
            }
        }),
{
    let rd = cmd_emmc_rd(kernel_off, KERNEL_ADDR as nat, sector_ceil(kernel_len));
    let base = cmd_ord4(G_KBASE as nat, KERNEL_ADDR as nat);
    let flag = cmd_ord4(G_RD_FLAG as nat, 0);
    let boot = cmd_bootlinux(cmdline);
    lemma_read(kernel_off, KERNEL_ADDR as nat, sector_ceil(kernel_len));
    lemma_flush();
    lemma_set(G_KBASE as nat, KERNEL_ADDR as nat);
    lemma_set(G_RD_FLAG as nat, 0);
    lemma_boot(cmdline);
    let s0 = Seq::<Seq<char>>::empty();
    assert(ran(s0) == at_rest());
    lemma_ran(s0, rd);
    lemma_ran(s0.push(rd), "cache flush"@);
    lemma_ran(s0.push(rd).push("cache flush"@), base);
    lemma_ran(s0.push(rd).push("cache flush"@).push(base), flag);
    lemma_ran(s0.push(rd).push("cache flush"@).push(base).push(flag), boot);
    assert(autoscript_model(kernel_off, kernel_len, cmdline) =~= s0.push(rd).push("cache flush"@).push(base).push(
        flag,
    ).push(boot));
}

/// The loader, given the netboot lines, takes the box's address, fetches the two
/// files from the server, and then starts the kernel with the command line: the
/// kernel's base is where the kernel's file was fetched to, a ramdisk is told of,
/// it begins where the initramfs was fetched to and is exactly as long as it, and
/// neither address lies inside what stands at the other.
pub proof fn law_netboot_boots_what_it_fetched(
    server_ip: Seq<char>,
    box_ip: Seq<char>,
    kernel_name: Seq<char>,
    initrd_name: Seq<char>,
    initrd_len: nat,
    cmdline: Seq<char>,
)
    requires
        is_word(server_ip),
        is_word(box_ip),
        is_word(kernel_name),
        is_word(initrd_name),
    ensures
        ({
            let b = ran(ramboot_model(server_ip, box_ip, kernel_name, initrd_name, initrd_len, cmdline));
            &&& b.address == Some(box_ip)
            &&& b.booted == Some(cmdline)
            &&& b.fresh
            &&& b.kernel_base() matches Some(base) && b.fetched.dom().contains(base) && b.fetched[base] == (
                server_ip,
                kernel_name,
            )
            &&& b.ramdisk() matches Some((at, len)) && b.fetched.dom().contains(at) && b.fetched[at] == (
                server_ip,
                initrd_name,
            ) && len == initrd_len && at != b.kernel_base()->0 && (initrd_len <= 0x2000000 ==> at + len
                <= b.kernel_base()->0 || b.kernel_base()->0 < at)
        }),
{
    let ip = "ip set "@ + box_ip + " 255.255.255.0 0.0.0.0"@;
    let k = cmd_tftp_get(server_ip, KERNEL_ADDR as nat, kernel_name);
    let i = cmd_tftp_get(server_ip, RAMDISK_ADDR as nat, initrd_name);
    let base = cmd_ord4(G_KBASE as nat, KERNEL_ADDR as nat);
    let flag = cmd_ord4(G_RD_FLAG as nat, 1);
    let addr = cmd_ord4(G_RD_ADDR as nat, RAMDISK_ADDR as nat);
    let size = cmd_ord4(G_RD_SIZE as nat, initrd_len);
    let boot = cmd_bootlinux(cmdline);
    lemma_address(box_ip);
    lemma_fetch(server_ip, KERNEL_ADDR as nat, kernel_name);
    lemma_fetch(server_ip, RAMDISK_ADDR as nat, initrd_name);
    lemma_flush();
    lemma_set(G_KBASE as nat, KERNEL_ADDR as nat);
    lemma_set(G_RD_FLAG as nat, 1);
    lemma_set(G_RD_ADDR as nat, RAMDISK_ADDR as nat);
    lemma_set(G_RD_SIZE as nat, initrd_len);
    lemma_boot(cmdline);
    let s0 = Seq::<Seq<char>>::empty();
    assert(ran(s0) == at_rest());
    lemma_ran(s0, ip);
    let s1 = s0.push(ip);
    lemma_ran(s1, k);
    let s2 = s1.push(k);
    lemma_ran(s2, i);
    let s3 = s2.push(i);
    lemma_ran(s3, "cache flush"@);
    let s4 = s3.push("cache flush"@);
    lemma_ran(s4, base);
    let s5 = s4.push(base);
    lemma_ran(s5, flag);
    let s6 = s5.push(flag);
    lemma_ran(s6, addr);
    let s7 = s6.push(addr);
    lemma_ran(s7, size);
    let s8 = s7.push(size);
    lemma_ran(s8, boot);
    assert(ramboot_model(server_ip, box_ip, kernel_name, initrd_name, initrd_len, cmdline) =~= s8.push(boot));
}

} // verus!
