//! When an install is refused, and when a release is complained of.
use crate::engine::flow::EventModel;
use crate::engine::mfgmode::{fed, silence_told, Stage, WatchModel};
use crate::engine::netboot::{fed_all, netboot_refusal, window};
use crate::engine::network::{kernel_problem, self_refusal, stage1_refusal};
use crate::engine::release::{source_of, Source};
use crate::flasher::image::{bzimage, ea_complaints, hc_complaints};
use crate::text::lower;
use crate::transport::bootp::mac_of;
use crate::transport::ipv4::address;
use vstd::prelude::*;
use vstd::string::*;

verus! {

/// A kernel is one by the loader's marks: the boot sector's two bytes at its end, and
/// the four letters behind the jump.
pub proof fn law_a_kernel_is_known_by_its_marks(h: Seq<u8>)
    ensures
        bzimage(h) <==> h.len() > 0x206 && h.subrange(510, 512) == seq![0x55u8, 0xaau8] && h.subrange(514, 518) == seq![
            0x48u8,
            0x64u8,
            0x72u8,
            0x53u8,
        ],
{
    if h.len() > 0x206 {
        let a = h.subrange(510, 512);
        let b = h.subrange(514, 518);
        assert(a[0] == h[510] && a[1] == h[511]);
        assert(b[0] == h[514] && b[1] == h[515] && b[2] == h[516] && b[3] == h[517]);
        if bzimage(h) {
            assert(a =~= seq![0x55u8, 0xaau8]);
            assert(b =~= seq![0x48u8, 0x64u8, 0x72u8, 0x53u8]);
        }
        if a == seq![0x55u8, 0xaau8] && b == seq![0x48u8, 0x64u8, 0x72u8, 0x53u8] {
            assert(a[0] == 0x55 && a[1] == 0xaa);
            assert(b[0] == 0x48 && b[1] == 0x64 && b[2] == 0x72 && b[3] == 0x53);
        }
    }
}

/// A release for the EA boards is complained of exactly when its kernel is missing, is
/// no kernel or does not fit, or a root filesystem is needed and missing; each fault
/// once.
pub proof fn law_what_is_wrong_with_a_release(h: Seq<u8>, len: nat, rootfs: bool, need: bool)
    ensures
        ea_complaints(Some(h), len, rootfs, need).len() == (if len > 0x713000 {
            1nat
        } else {
            0nat
        }) + (if !bzimage(h) {
            1nat
        } else {
            0nat
        }) + (if need && !rootfs {
            1nat
        } else {
            0nat
        }),
        ea_complaints(None, len, rootfs, need).len() == 1 + (if need && !rootfs {
            1nat
        } else {
            0nat
        }),
        hc_complaints(Some(h), len, rootfs).len() == 0 <==> bzimage(h) && len > 0 && rootfs,
        hc_complaints(None, len, rootfs).len() > 0,
{
}

/// The first stage is refused exactly when one of its two images is missing, or the
/// kernel is none or does not fit.
pub proof fn law_when_the_first_stage_is_refused(kernel: Option<Seq<u8>>, initrd: Option<Seq<u8>>)
    ensures
        stage1_refusal(kernel, initrd) is None <==> kernel is Some && initrd is Some && bzimage(kernel->0)
            && kernel->0.len() <= 0x713000,
{
}

/// The one-shot install is refused exactly when one of its three images is missing, or
/// the kernel is none or does not fit.
pub proof fn law_when_the_one_shot_install_is_refused(
    kernel: Option<Seq<u8>>,
    bootinit: Option<Seq<u8>>,
    staged: Option<Seq<u8>>,
)
    ensures
        self_refusal(kernel, bootinit, staged) is None <==> kernel is Some && bootinit is Some && staged is Some && bzimage(
            kernel->0,
        ) && kernel->0.len() <= 0x713000,
        kernel is Some ==> (kernel_problem(kernel->0) is None <==> bzimage(kernel->0) && kernel->0.len() <= 0x713000),
{
}

/// A boot from the network is refused exactly when an address cannot be read or an
/// image is missing.
pub proof fn law_when_a_network_boot_is_refused(
    server_ip: Seq<char>,
    box_ip: Seq<char>,
    mac: Seq<char>,
    kernel: Option<Seq<u8>>,
    initrd: Option<Seq<u8>>,
)
    ensures
        netboot_refusal(server_ip, box_ip, mac, kernel, initrd) is None <==> address(server_ip) is Some && address(box_ip)
            is Some && mac_of(mac) is Some && kernel is Some && initrd is Some,
{
}

/// A folder is read as a folder and an archive as an archive, by its ending in any case;
/// nothing else is a release.
pub proof fn law_what_is_a_release(extension: Seq<char>, shown: Seq<char>)
    ensures
        source_of(true, Some(extension), shown) == Ok::<Source, Seq<char>>(Source::Folder),
        source_of(true, None, shown) == Ok::<Source, Seq<char>>(Source::Folder),
        lower(extension) == lower("zip"@) ==> source_of(false, Some(extension), shown) == Ok::<Source, Seq<char>>(Source::Zip),
        lower(extension) != lower("zip"@) ==> source_of(false, Some(extension), shown) is Err,
        source_of(false, None, shown) is Err,
{
}

/// Lines are taken one by one until the shell is there, and nothing said on the way is
/// lost.
pub proof fn law_lines_are_taken_until_the_shell(m: WatchModel, v: Seq<Seq<char>>, log: Seq<EventModel>)
    requires
        m.stage != Stage::AtShell,
    ensures
        fed_all(m, v, log).2 <==> fed_all(m, v, log).0.stage == Stage::AtShell,
        fed_all(m, v, log).1.len() >= log.len(),
        fed_all(m, v, log).1.take(log.len() as int) == log,
        v.len() > 0 && fed(m, v[0]).0.stage == Stage::AtShell ==> fed_all(m, v, log).1 == log + fed(m, v[0]).1,
    decreases v.len(),
{
    if v.len() == 0 {
        assert(log.take(log.len() as int) =~= log);
    } else {
        let (n, said) = fed(m, v[0]);
        if n.stage == Stage::AtShell {
            assert((log + said).take(log.len() as int) =~= log);
        } else {
            law_lines_are_taken_until_the_shell(n, v.skip(1), log + said);
            let out = fed_all(n, v.skip(1), log + said).1;
            assert(out.take(log.len() as int) =~= out.take((log + said).len() as int).take(log.len() as int));
            assert((log + said).take(log.len() as int) =~= log);
        }
    }
}

/// Whole lines come before what is left of one, and what is left of one is only looked
/// at when there are none; the time is complained of only while the shell is not there.
pub proof fn law_whole_lines_come_first(
    m: WatchModel,
    v: Seq<Seq<char>>,
    tail: Option<Seq<char>>,
    elapsed_s: u64,
    log: Seq<EventModel>,
)
    ensures
        v.len() > 0 ==> window(m, v, tail, elapsed_s, log) == fed_all(m, v, log),
        v.len() == 0 && tail is None ==> window(m, v, tail, elapsed_s, log) == (
            m,
            log + silence_told(m, elapsed_s),
            false,
        ),
        v.len() == 0 && tail is Some && fed_all(m, seq![tail->0], log).2 ==> window(m, v, tail, elapsed_s, log)
            == fed_all(m, seq![tail->0], log),
{
}

} // verus!
