//! Release-artifact validation and the CEFDK container builder.
//!
//! An openHC release is a set of files: a `bzImage`, an initramfs
//! `rootfs.cpio.gz` and an ext2 `rootfs.ext2` for the EA boards; a `zImage`, DTB
//! and `boot.scr` for the CA-1. This module only recognises and checks them.
use crate::flasher::cefdk::EMMC_HEADER_LEN;
use crate::num::{dec, dec_string};
use crate::text::strings;
use vstd::prelude::*;
use vstd::string::*;

verus! {

/// `bootlinux` copies the protected-mode kernel to 0x100000 while CEFDK's own
/// loader sits at about 0x813000. A bzImage past this window clobbers the loader
/// mid-copy and the board does not boot, so it is checked here rather than
/// discovered on hardware.
pub const BOOTLINUX_WINDOW: u64 = 0x713000;

/// The boot-sector magic and the "HdrS" tag stand where a bzImage has them.
pub open spec fn bzimage(head: Seq<u8>) -> bool {
    &&& head.len() > 0x206
    &&& head[0x1fe] == 0x55
    &&& head[0x1ff] == 0xaa
    &&& head[0x202] == 0x48
    &&& head[0x203] == 0x64
    &&& head[0x204] == 0x72
    &&& head[0x205] == 0x53
}

/// Is this a Linux bzImage? Checks the boot-sector magic and the "HdrS" tag.
pub fn is_bzimage(head: &[u8]) -> (r: bool)
    ensures
        r == bzimage(head@),
{
    head.len() > 0x206 && head[0x1fe] == 0x55 && head[0x1ff] == 0xaa && head[0x202] == 0x48
        && head[0x203] == 0x64 && head[0x204] == 0x72 && head[0x205] == 0x53
}

pub open spec fn oversize_text(kernel_len: nat) -> Seq<char> {
    "bzImage is "@ + dec(kernel_len) + " B, over CEFDK's "@ + dec(BOOTLINUX_WINDOW as nat)
        + " B bootlinux window — it would overwrite the loader mid-copy and not boot"@
}

pub open spec fn no_kernel_text() -> Seq<char> {
    "no bzImage in the release"@
}

pub open spec fn not_bzimage_text() -> Seq<char> {
    "kernel does not look like a bzImage (no 0x55aa/HdrS magic)"@
}

/// One complaint if `bad`, none if not.
pub open spec fn complaint(bad: bool, text: Seq<char>) -> Seq<Seq<char>> {
    if bad {
        seq![text]
    } else {
        seq![]
    }
}

/// Everything wrong with a would-be EA release, in the order a user should see
/// it.
pub open spec fn ea_complaints(
    head: Option<Seq<u8>>,
    kernel_len: nat,
    has_rootfs: bool,
    need_rootfs: bool,
) -> Seq<Seq<char>> {
    (match head {
        None => seq![no_kernel_text()],
        Some(h) => complaint(kernel_len > BOOTLINUX_WINDOW, oversize_text(kernel_len)) + complaint(
            !bzimage(h),
            not_bzimage_text(),
        ),
    }) + complaint(need_rootfs && !has_rootfs, "no rootfs.ext2 in the release"@)
}

/// Everything wrong with a would-be HC-800 release. There is no size window: the
/// board boots from GRUB, which has no such limit. An initramfs is required:
/// openHC on this board runs entirely from RAM.
pub open spec fn hc_complaints(head: Option<Seq<u8>>, kernel_len: nat, has_initrd: bool) -> Seq<
    Seq<char>,
> {
    (match head {
        None => seq![no_kernel_text()],
        Some(h) => complaint(!bzimage(h), not_bzimage_text()) + complaint(
            kernel_len == 0,
            "bzImage is empty"@,
        ),
    }) + complaint(
        !has_initrd,
        "no initramfs (rootfs.cpio.gz) — openHC runs from RAM on this board"@,
    )
}

/// The bytes of an optional slice.
pub open spec fn opt_bytes(o: Option<&[u8]>) -> Option<Seq<u8>> {
    match o {
        Some(b) => Some(b@),
        None => None,
    }
}

fn oversize(kernel_len: u64) -> (r: String)
    ensures
        r@ == oversize_text(kernel_len as nat),
{
    let mut s = String::from_str("bzImage is ");
    s.append(dec_string(kernel_len).as_str());
    s.append(" B, over CEFDK's ");
    s.append(dec_string(BOOTLINUX_WINDOW).as_str());
    s.append(" B bootlinux window — it would overwrite the loader mid-copy and not boot");
    s
}

/// Everything wrong with a would-be EA release. Empty means good to flash.
pub fn ea_problems(
    kernel_head: Option<&[u8]>,
    kernel_len: u64,
    has_rootfs: bool,
    need_rootfs: bool,
) -> (r: Vec<String>)
    ensures
        strings(r@) == ea_complaints(opt_bytes(kernel_head), kernel_len as nat, has_rootfs, need_rootfs),
{
    let mut out: Vec<String> = Vec::new();
    match kernel_head {
        None => {
            out.push(String::from_str("no bzImage in the release"));
        },
        Some(head) => {
            if kernel_len > BOOTLINUX_WINDOW {
                out.push(oversize(kernel_len));
            }
            if !is_bzimage(head) {
                out.push(String::from_str("kernel does not look like a bzImage (no 0x55aa/HdrS magic)"));
            }
        },
    }
    if need_rootfs && !has_rootfs {
        out.push(String::from_str("no rootfs.ext2 in the release"));
    }
    assert(strings(out@) =~= ea_complaints(
        opt_bytes(kernel_head),
        kernel_len as nat,
        has_rootfs,
        need_rootfs,
    ));
    out
}

/// Everything wrong with a would-be HC-800 release. Empty means good to flash.
pub fn hc_problems(kernel_head: Option<&[u8]>, kernel_len: u64, has_initrd: bool) -> (r: Vec<String>)
    ensures
        strings(r@) == hc_complaints(opt_bytes(kernel_head), kernel_len as nat, has_initrd),
{
    let mut out: Vec<String> = Vec::new();
    match kernel_head {
        None => {
            out.push(String::from_str("no bzImage in the release"));
        },
        Some(head) => {
            if !is_bzimage(head) {
                out.push(String::from_str("kernel does not look like a bzImage (no 0x55aa/HdrS magic)"));
            }
            if kernel_len == 0 {
                out.push(String::from_str("bzImage is empty"));
            }
        },
    }
    if !has_initrd {
        out.push(
            String::from_str("no initramfs (rootfs.cpio.gz) — openHC runs from RAM on this board"),
        );
    }
    assert(strings(out@) =~= hc_complaints(opt_bytes(kernel_head), kernel_len as nat, has_initrd));
    out
}

/// A `u64` read as two's complement.
pub open spec fn signed(n: u64) -> int {
    if n < 0x8000_0000_0000_0000 {
        n as int
    } else {
        n - 0x1_0000_0000_0000_0000
    }
}

/// How many bytes the kernel may still grow; negative when it is over.
pub fn headroom(kernel_len: u64) -> (r: i64)
    requires
        BOOTLINUX_WINDOW - signed(kernel_len) <= i64::MAX,
    ensures
        r == BOOTLINUX_WINDOW - signed(kernel_len),
{
    let k: i64 = if kernel_len < 0x8000_0000_0000_0000 {
        kernel_len as i64
    } else {
        -((u64::MAX - kernel_len) as i64) - 1
    };
    BOOTLINUX_WINDOW as i64 - k
}

/// A release nothing is wrong with can be installed: its kernel is a bzImage that
/// fits the loader's window, and its root filesystem is there when one is needed.
/// One that lacks any of that has a complaint.
pub proof fn law_a_clean_release_can_boot(
    head: Option<Seq<u8>>,
    kernel_len: nat,
    has_rootfs: bool,
    need_rootfs: bool,
)
    ensures
        ea_complaints(head, kernel_len, has_rootfs, need_rootfs).len() == 0 <==> head is Some && bzimage(head->0)
            && kernel_len <= BOOTLINUX_WINDOW && (need_rootfs ==> has_rootfs),
{
}

// ------------------------------------------------------------------- container

/// The four bytes of a 32-bit word, least significant first.
pub open spec fn le32(n: nat) -> Seq<u8> {
    seq![
        (n % 256) as u8,
        (n / 256 % 256) as u8,
        (n / 65536 % 256) as u8,
        (n / 16777216 % 256) as u8,
    ]
}

/// The four bytes of a 32-bit word, most significant first.
pub open spec fn be32(n: nat) -> Seq<u8> {
    seq![
        (n / 16777216 % 256) as u8,
        (n / 65536 % 256) as u8,
        (n / 256 % 256) as u8,
        (n % 256) as u8,
    ]
}

/// A generated header: the Intel vendor id, the payload offset and the payload
/// length, each a little-endian word, and zero everywhere else.
pub open spec fn header_bytes(kernel_len: nat) -> Seq<u8> {
    Seq::new(
        EMMC_HEADER_LEN as nat,
        |i: int|
            if 0x10 <= i < 0x14 {
                le32(0x8086)[i - 0x10]
            } else if 0x28 <= i < 0x2c {
                le32(EMMC_HEADER_LEN as nat)[i - 0x28]
            } else if 0x2c <= i < 0x30 {
                le32(kernel_len)[i - 0x2c]
            } else {
                0u8
            },
    )
}

fn put_le32(h: &mut Vec<u8>, at: usize, n: u32)
    requires
        at + 4 <= old(h).len(),
    ensures
        final(h)@.len() == old(h)@.len(),
        forall|i: int| 0 <= i < old(h)@.len() ==> #[trigger] final(h)@[i] == (if at <= i < at + 4 {
            le32(n as nat)[i - at]
        } else {
            old(h)@[i]
        }),
{
    h[at] = (n % 256) as u8;
    h[at + 1] = (n / 256 % 256) as u8;
    h[at + 2] = (n / 65536 % 256) as u8;
    h[at + 3] = (n / 16777216 % 256) as u8;
}

/// The low 32 bits of a length.
fn low32(n: usize) -> (r: u32)
    ensures
        r == n as nat % 0x1_0000_0000,
{
    (n as u64 % 0x1_0000_0000u64) as u32
}

/// The word that holds a length is 32 bits wide.
pub open spec fn word(n: nat) -> nat {
    n % 0x1_0000_0000
}

/// Wrap a bzImage in a CEFDK container.
///
/// The header is generated, not copied from a vendor image, which carries
/// signature material. Only a few fields are read on the bootlinux path, and
/// they are set here. A caller that has legitimately extracted a header from its
/// own unit may pass one.
pub fn container(kernel: &[u8], header: Option<&[u8]>) -> (r: Result<Vec<u8>, String>)
    ensures
        match header {
            Some(h) => if h@.len() == EMMC_HEADER_LEN {
                r is Ok && r->Ok_0@ == h@ + kernel@
            } else {
                r is Err && r->Err_0@ == "header must be "@ + dec(EMMC_HEADER_LEN as nat) + " bytes"@
            },
            None => r is Ok && r->Ok_0@ == header_bytes(word(kernel@.len())) + kernel@,
        },
{
    let mut out: Vec<u8> = match header {
        Some(h) => {
            if h.len() != EMMC_HEADER_LEN {
                let mut why = String::from_str("header must be ");
                why.append(dec_string(EMMC_HEADER_LEN as u64).as_str());
                why.append(" bytes");
                return Err(why);
            }
            vstd::slice::slice_to_vec(h)
        },
        None => {
            let mut h: Vec<u8> = Vec::new();
            h.resize(EMMC_HEADER_LEN, 0);
            put_le32(&mut h, 0x10, 0x8086);
            put_le32(&mut h, 0x28, EMMC_HEADER_LEN as u32);
            put_le32(&mut h, 0x2c, low32(kernel.len()));
            assert(h@ =~= header_bytes(word(kernel@.len())));
            h
        },
    };
    let mut body: Vec<u8> = vstd::slice::slice_to_vec(kernel);
    out.append(&mut body);
    Ok(out)
}

/// The device wants the total container length as a big-endian word at
/// `EMMC_SIZE_OFF`.
pub fn size_word(total_len: usize) -> (r: [u8; 4])
    ensures
        r@ == be32(word(total_len as nat)),
{
    let n: u32 = low32(total_len);
    let r: [u8; 4] = [
        (n / 16777216 % 256) as u8,
        (n / 65536 % 256) as u8,
        (n / 256 % 256) as u8,
        (n % 256) as u8,
    ];
    assert(r@ =~= be32(word(total_len as nat)));
    r
}

/// A generated container names where its kernel begins and how long it is, and
/// holds it there unchanged.
pub proof fn law_the_container_holds_the_kernel(kernel: Seq<u8>)
    ensures
        (header_bytes(word(kernel.len())) + kernel).skip(EMMC_HEADER_LEN as int) == kernel,
        (header_bytes(word(kernel.len())) + kernel).subrange(0x28, 0x2c) == le32(EMMC_HEADER_LEN as nat),
        (header_bytes(word(kernel.len())) + kernel).subrange(0x2c, 0x30) == le32(word(kernel.len())),
{
    let c = header_bytes(word(kernel.len())) + kernel;
    assert(c.skip(EMMC_HEADER_LEN as int) =~= kernel);
    assert(c.subrange(0x28, 0x2c) =~= le32(EMMC_HEADER_LEN as nat));
    assert(c.subrange(0x2c, 0x30) =~= le32(word(kernel.len())));
}

/// The number four bytes spell, the least significant first.
pub open spec fn little(b: Seq<u8>) -> nat {
    b[0] as nat + 256 * b[1] as nat + 65536 * b[2] as nat + 16777216 * b[3] as nat
}

/// The number four bytes spell, the most significant first.
pub open spec fn big(b: Seq<u8>) -> nat {
    16777216 * b[0] as nat + 65536 * b[1] as nat + 256 * b[2] as nat + b[3] as nat
}

proof fn lemma_little(n: nat)
    requires
        n < 0x1_0000_0000,
    ensures
        little(le32(n)) == n,
        big(be32(n)) == n,
{
}

/// A reader that knows only where the header keeps its words finds the kernel: the
/// word at 0x28 says where it begins and the word at 0x2c how many bytes it has, and
/// those bytes are the kernel. The word at 0x10 is the vendor the loader looks for.
pub proof fn law_a_container_is_read_by_its_header(kernel: Seq<u8>)
    requires
        kernel.len() < 0x1_0000_0000,
    ensures
        ({
            let c = header_bytes(word(kernel.len())) + kernel;
            let at = little(c.subrange(0x28, 0x2c)) as int;
            let n = little(c.subrange(0x2c, 0x30)) as int;
            &&& little(c.subrange(0x10, 0x14)) == 0x8086
            &&& c.subrange(at, at + n) == kernel
            &&& at + n == c.len()
            &&& at == 0x580
        }),
{
    let c = header_bytes(word(kernel.len())) + kernel;
    law_the_container_holds_the_kernel(kernel);
    lemma_little(EMMC_HEADER_LEN as nat);
    lemma_little(kernel.len());
    lemma_little(0x8086);
    assert(c.subrange(0x10, 0x14) =~= le32(0x8086));
    assert(c.subrange(EMMC_HEADER_LEN as int, EMMC_HEADER_LEN + kernel.len()) =~= kernel);
}

/// The size word spells the whole length, the most significant byte first.
pub proof fn law_the_size_word_spells_the_length(n: nat)
    requires
        n < 0x1_0000_0000,
    ensures
        be32(word(n)).len() == 4,
        big(be32(word(n))) == n,
{
    lemma_little(n);
}

} // verus!
