use openhc::engine::flow::{Data, Event, Log, Next, Op, Reply, Turn};
use openhc::engine::hc800::{install_grub, kexec, rewrite_menu, InstallGrub, Kexec, MENU, STAGED_INITRD, STAGED_KERNEL};
use openhc::engine::mfgmode::{next_action, MfgWatch, Stage};
use openhc::engine::netboot::{bind_error, drive_to_shell, NetAction, NetReply, Netboot};
use openhc::engine::network::{
    blank, ensure_p1_marker, guard_partitions, install_self, parse_or, stage1_ram_installer, stage2_write_rootfs,
    AUTOSCRIPT_ENV, LIST_MTD, READ_ERASE_SIZE, READ_P1_START, REBOOT, WHICH_ROOT,
};
use openhc::engine::release::{is_known, known, source_kind, Release, Source, ZipFault};
use openhc::engine::updates::{
    differs_from_release, download_args, download_failure, latest_release_args, latest_release_failure, this_os,
    Asset, BundleFault, GhRelease,
};
use openhc::flasher::hc800::{default_file, ENTRY_OPENHC, ENTRY_VENDOR};
use openhc::transport::netboot::BindFault;
use std::io::Write;

fn bzimage(len: usize) -> Vec<u8> {
    let mut h = vec![0u8; len.max(0x400)];
    h[0x1fe] = 0x55;
    h[0x1ff] = 0xaa;
    h[0x202..0x206].copy_from_slice(b"HdrS");
    h
}

fn release(files: Vec<(&str, Vec<u8>)>) -> Release {
    Release::from_dir("rel", files.into_iter().map(|(n, b)| (n.to_string(), b)).collect()).unwrap()
}

/// Runs a flow against a box that answers by the command, and keeps what was put.
fn drive<'a>(
    mut next: impl FnMut(Reply) -> Turn<'a>,
    mut answer: impl FnMut(&str) -> Reply,
) -> (Vec<String>, Vec<(String, Vec<u8>)>, Result<(), String>) {
    let (mut ran, mut put) = (Vec::new(), Vec::new());
    let mut reply: Reply = Ok(String::new());
    for _ in 0..200 {
        match next(reply).next {
            Next::Done => return (ran, put, Ok(())),
            Next::Failed(why) => return (ran, put, Err(why)),
            Next::Do(Op::Run { command, .. }) => {
                reply = answer(&command);
                ran.push(command);
            }
            Next::Do(Op::Read { path }) => {
                reply = answer(&path);
                ran.push(format!("read {path}"));
            }
            Next::Do(Op::Put { data, command }) => {
                let bytes = match data {
                    Data::Slice(b) => b.to_vec(),
                    Data::Owned(b) => b,
                };
                put.push((command, bytes));
                reply = Ok(String::new());
            }
        }
    }
    panic!("the flow does not end");
}

fn ea_box(c: &str) -> Reply {
    Ok(if c == READ_P1_START {
        "65536\n"
    } else if c == LIST_MTD {
        "/dev/mtd0\n"
    } else if c == READ_ERASE_SIZE {
        "4096\n"
    } else if c.contains("count=4") {
        "emmc"
    } else {
        ""
    }
    .to_string())
}

#[test]
fn stage_one_writes_the_images_and_the_script() {
    let rel = release(vec![("bzImage", bzimage(0x1000)), ("rootfs.cpio.gz", vec![7; 99])]);
    let mut s = stage1_ram_installer(&rel, true).unwrap();
    let (ran, put, end) = drive(|r| s.next(r), ea_box);
    assert_eq!(end, Ok(()));
    assert_eq!(put.len(), 4);
    // The container, its size word, the ramdisk, the script.
    assert_eq!(put[0].1.len(), 0x580 + 0x1000);
    assert_eq!(put[1].1, ((0x580 + 0x1000) as u32).to_be_bytes());
    assert_eq!(put[2].1, vec![7; 99]);
    assert!(put[3].1.starts_with(b"emmc rd "));
    assert_eq!(ran.last().unwrap(), REBOOT);
}

#[test]
fn stage_one_does_not_touch_a_foreign_partition_table() {
    let rel = release(vec![("bzImage", bzimage(0x1000)), ("rootfs.cpio.gz", vec![7; 99])]);
    let mut s = stage1_ram_installer(&rel, true).unwrap();
    let (_, put, end) = drive(|r| s.next(r), |c| if c == READ_P1_START { Ok("2048".into()) } else { ea_box(c) });
    assert!(put.is_empty());
    assert!(end.is_err());
    let mut log = Log::new();
    assert!(guard_partitions(&Ok("65536".into()), &mut log).is_ok());
    assert!(guard_partitions(&Err("gone".into()), &mut log).is_err());
}

#[test]
fn stage_one_reuses_a_script_that_reads_enough() {
    let rel = release(vec![("bzImage", bzimage(0x1000)), ("rootfs.cpio.gz", vec![7; 99])]);
    let no_mtd = |sizes: &'static str| {
        move |c: &str| {
            if c == LIST_MTD {
                Ok(String::new())
            } else if c == AUTOSCRIPT_ENV {
                Ok(sizes.to_string())
            } else {
                ea_box(c)
            }
        }
    };
    let mut s = stage1_ram_installer(&rel, false).unwrap();
    let (_, _, end) = drive(|r| s.next(r), no_mtd("KSZ=5625856\nRSZ=4100608\n"));
    assert_eq!(end, Ok(()));
    let mut s = stage1_ram_installer(&rel, false).unwrap();
    let (ran, _, end) = drive(|r| s.next(r), no_mtd("KSZ=10\nRSZ=20\n"));
    assert!(end.is_err());
    assert!(!ran.contains(&REBOOT.to_string()));
    let mut s = stage1_ram_installer(&rel, false).unwrap();
    assert!(drive(|r| s.next(r), no_mtd("")).2.is_err());
}

#[test]
fn a_script_that_did_not_take_is_an_error() {
    let rel = release(vec![("bzImage", bzimage(0x1000)), ("rootfs.cpio.gz", vec![7; 99])]);
    let mut s = stage1_ram_installer(&rel, true).unwrap();
    let (ran, _, end) = drive(|r| s.next(r), |c| if c.contains("count=4") { Ok("junk\"".into()) } else { ea_box(c) });
    assert_eq!(
        end.unwrap_err(),
        "MFH script read-back is \"junk\\\"\", expected to start with \"emmc\" — write did not take"
    );
    assert!(!ran.contains(&REBOOT.to_string()));
}

#[test]
fn stage_one_needs_its_parts() {
    let rel = release(vec![("rootfs.cpio.gz", vec![7; 99])]);
    assert!(stage1_ram_installer(&rel, true).is_err());
    let rel = release(vec![("bzImage", bzimage(0x1000))]);
    assert!(stage1_ram_installer(&rel, true).is_err());
    let rel = release(vec![("bzImage", vec![1, 2, 3]), ("rootfs.cpio.gz", vec![7; 99])]);
    assert!(stage1_ram_installer(&rel, true).is_err());
}

#[test]
fn a_self_install_stages_the_root_filesystem() {
    let rel = release(vec![
        ("bzImage", bzimage(0x1000)),
        ("boot-init.cpio.gz", vec![1; 10]),
        ("rootfs.ext2.gz", vec![3; 30]),
    ]);
    match install_self(&rel, true) {
        Ok(mut s) => {
            let (ran, put, end) = drive(|r| s.next(r), ea_box);
            assert_eq!(end, Ok(()));
            assert_eq!(put.len(), 5);
            assert_eq!((put[2].1.len(), put[3].1.len()), (10, 30));
            assert_eq!(ran.last().unwrap(), REBOOT);
        }
        Err(why) => panic!("{why}"),
    }
    let bare = release(vec![("bzImage", bzimage(0x1000))]);
    assert!(install_self(&bare, true).is_err());
}

#[test]
fn stage_two_never_overwrites_a_mounted_root() {
    let rel = release(vec![("rootfs.ext2", vec![9; 10])]);
    let mut s = stage2_write_rootfs(&rel);
    let (_, put, end) = drive(
        |r| s.next(r),
        |c| if c == WHICH_ROOT { Ok("/dev/mmcblk0p1 on / type ext4 (rw)".into()) } else { Ok(String::new()) },
    );
    assert!(put.is_empty());
    assert!(end.is_err());
    let mut s = stage2_write_rootfs(&rel);
    let (ran, put, end) = drive(
        |r| s.next(r),
        |c| Ok(if c == WHICH_ROOT { "rootfs on / type rootfs (rw)" } else { "STAMPED" }.to_string()),
    );
    assert_eq!((end, put[0].1.clone()), (Ok(()), vec![9; 10]));
    assert_eq!(ran.last().unwrap(), REBOOT);
    assert!(ensure_p1_marker(&Ok("HAVE\n".into())).is_ok());
    assert!(ensure_p1_marker(&Err("no".into())).is_err());
}

#[test]
fn numbers_and_blanks_in_answers() {
    assert_eq!((parse_or(" 12\n", 3), parse_or("x", 3)), (12, 3));
    assert!(blank(" \n") && !blank("a"));
}

fn hc_box(menu: &'static str) -> impl FnMut(&str) -> Reply {
    let mut reads = 0;
    move |c: &str| {
        Ok(if c == MENU {
            reads += 1;
            if reads == 1 {
                menu.to_string()
            } else {
                rewrite_menu(menu).unwrap_or_default()
            }
        } else if c.starts_with("df -k") {
            "999999\n".to_string()
        } else if c.starts_with("wc -c") && (c.contains("bzImage")) {
            "1024\n".to_string()
        } else if c.starts_with("wc -c") {
            "99\n".to_string()
        } else if c == "command -v kexec" {
            "/sbin/kexec\n".to_string()
        } else {
            String::new()
        })
    }
}

const VENDOR_MENU: &str =
    "support_factorydefault yes\nfactorydefault 0\ndefault 1\ntimeout 3\ntitle Control4\nkernel /boot/vmlinuz\n";

#[test]
fn the_grub_install_reads_back_what_it_wrote() {
    let (kernel, initrd) = (bzimage(1024), vec![7u8; 99]);
    let mut g = InstallGrub::new(&kernel, &initrd);
    let (ran, put, end) = drive(|r| g.next(r), hc_box(VENDOR_MENU));
    assert_eq!(end, Ok(()));
    assert_eq!(put.len(), 4);
    let menu = String::from_utf8(put[2].1.clone()).unwrap();
    assert_eq!(menu, rewrite_menu(VENDOR_MENU).unwrap());
    assert!(menu.contains("support_factorydefault yes") && menu.contains("openHC"));
    assert_eq!(String::from_utf8(put[3].1.clone()).unwrap(), default_file(ENTRY_OPENHC));
    assert!(ran.iter().any(|c| c.ends_with(".pre-openhc")));
    assert_ne!(ENTRY_OPENHC, ENTRY_VENDOR);
}

#[test]
fn a_menu_without_its_guard_lines_is_left_alone() {
    let (kernel, initrd) = (bzimage(1024), vec![7u8; 99]);
    for menu in ["default 1\n", "support_factorydefault yes\ndefault 1\n", ""] {
        let mut g = InstallGrub::new(&kernel, &initrd);
        let (_, put, end) = drive(|r| g.next(r), hc_box(menu));
        assert_eq!(put.len(), 2, "only the images");
        assert!(end.is_err());
    }
    assert_eq!(rewrite_menu("title x\n"), None);
}

#[test]
fn a_bad_write_of_the_menu_is_rolled_back() {
    let (kernel, initrd) = (bzimage(1024), vec![7u8; 99]);
    let mut g = InstallGrub::new(&kernel, &initrd);
    let mut inner = hc_box(VENDOR_MENU);
    let mut reads = 0;
    let (ran, _, end) = drive(
        |r| g.next(r),
        |c| {
            if c == MENU {
                reads += 1;
                if reads == 2 {
                    return Ok("half a menu".into());
                }
            }
            inner(c)
        },
    );
    assert!(end.unwrap_err().contains("restored the backup"));
    assert!(ran.iter().any(|c| c.starts_with("cp ") && c.contains(".pre-openhc ")));
}

#[test]
fn a_short_write_stops_the_grub_install() {
    let (kernel, initrd) = (bzimage(2000), vec![7u8; 99]);
    let mut g = InstallGrub::new(&kernel, &initrd);
    let (_, put, end) = drive(|r| g.next(r), hc_box(VENDOR_MENU));
    assert_eq!(put.len(), 2);
    assert!(end.unwrap_err().contains("wrote 1024 bytes, expected 2000"));
}

#[test]
fn kexec_stages_into_memory_and_jumps() {
    let (kernel, initrd) = (bzimage(1024), vec![7u8; 99]);
    let mut k = Kexec::new(&kernel, &initrd, Some("netconsole=@/eth0"));
    let (ran, put, end) = drive(|r| k.next(r), hc_box(""));
    assert_eq!(end, Ok(()));
    assert_eq!(put[0].0, format!("cat > {STAGED_KERNEL}"));
    assert_eq!(put[1].0, format!("cat > {STAGED_INITRD}"));
    assert!(ran.iter().any(|c| c.starts_with("kexec -l") && c.contains("netconsole=@/eth0'")));
    assert_eq!(ran.last().unwrap(), "rm -f /tmp/openhc-bzImage /tmp/openhc-initrd.gz; sync; kexec -e");
    let rel = release(vec![("bzImage", bzimage(1024))]);
    assert!(kexec(&rel, None).is_err());
    assert!(install_grub(&rel).is_err());
}

#[test]
fn a_box_without_kexec_is_told_where_to_put_one() {
    let (kernel, initrd) = (bzimage(1024), vec![7u8; 99]);
    let mut k = Kexec::new(&kernel, &initrd, None);
    let mut inner = hc_box("");
    let (_, _, end) = drive(
        |r| k.next(r),
        |c| {
            if c == "command -v kexec" {
                Ok(String::new())
            } else if c.starts_with("test -x") {
                Err("1".into())
            } else {
                inner(c)
            }
        },
    );
    assert!(end.unwrap_err().contains("no kexec on this system"));
}

// --------------------------------------------------------------------- releases

fn zipped(files: &[(&str, &[u8])]) -> Vec<u8> {
    let mut w = zip::ZipWriter::new(std::io::Cursor::new(Vec::new()));
    for (name, data) in files {
        let opts: zip::write::FileOptions<()> =
            zip::write::FileOptions::default().compression_method(zip::CompressionMethod::Deflated);
        w.start_file(*name, opts).unwrap();
        w.write_all(data).unwrap();
    }
    w.finish().unwrap().into_inner()
}

#[test]
fn a_release_comes_from_a_folder_or_an_archive() {
    let z = zipped(&[("openhc/bzImage", b"kernel kernel kernel"), ("openhc/notes.txt", b"x"), ("rootfs.cpio.gz", b"r")]);
    let r = Release::from_zip("a.zip", z).unwrap();
    assert_eq!(r.get("bzImage"), Some(&b"kernel kernel kernel"[..]));
    assert!(r.has("rootfs.cpio.gz") && !r.has("notes.txt"));
    assert_eq!(r.names(), vec!["bzImage", "rootfs.cpio.gz"]);
    assert!(matches!(Release::from_zip("a.zip", b"junk".to_vec()), Err(ZipFault::Open(_))));
    assert!(matches!(Release::from_zip("a.zip", zipped(&[("x", b"y")])), Err(ZipFault::Nothing(_))));
    assert!(Release::from_dir("d", vec![("notes.txt".into(), vec![1])]).is_err());
    assert!(is_known("bzImage") && !is_known("notes.txt"));
    assert!(known().contains(&"rootfs.cpio.gz"));
    assert_eq!(source_kind(true, None, "d"), Ok(Source::Folder));
    assert_eq!(source_kind(false, Some("zip"), "a.zip"), Ok(Source::Zip));
    assert!(source_kind(false, Some("tar"), "a.tar").is_err());
    assert!(ZipFault::Nothing("a.zip".into()).text().contains("a.zip"));
}

#[test]
fn downloads_name_their_failures() {
    assert!(latest_release_args().iter().any(|a| a.contains("The1TrueJoe/openHC")));
    assert!(latest_release_failure(Some(22)).contains("22"));
    assert!(download_args("http://x", "/tmp/y").contains(&"http://x".to_string()));
    assert!(download_failure(Some(6), b"could not resolve\xff").contains("could not resolve"));
    assert_eq!(this_os("macos"), "macos");
    assert!(!BundleFault::Nothing.text().is_empty());
}

// ----------------------------------------------------------------------- netboot

#[test]
fn a_shell_is_reached_through_the_watch() {
    let mut w = MfgWatch::new();
    let mut log = Log::new();
    w.prompt(&mut log);
    assert!(log.events.iter().any(|e| matches!(e, Event::Await { .. })));
    let lines = vec!["Manufacturing Mode: Enabled".to_string(), "Entering Control4 Manufacturing Mode".to_string()];
    assert!(!drive_to_shell(&mut w, &lines, None, 5, &mut log));
    assert!(drive_to_shell(&mut w, &vec![], Some("shell>"), 6, &mut log));
    assert_eq!(w.stage(), Stage::AtShell);
    assert_eq!(next_action(Stage::AtShell), Some("at the CEFDK shell — starting the transfer"));
}

#[test]
fn a_netboot_runs_its_steps_in_order() {
    let (kernel, initrd) = (bzimage(0x1000), vec![7u8; 99]);
    let mut n = Netboot::new(
        "/dev/ttyUSB0", "10.0.0.106", "10.0.0.200", "00:1b:22:33:44:55", "console=ttyS0", Some(&kernel), Some(&initrd), true,
    )
    .unwrap();
    let mut seen = Vec::new();
    let mut reply = NetReply::Fine;
    loop {
        let (_, action) = n.next(reply);
        reply = NetReply::Fine;
        match action {
            NetAction::Done => break,
            NetAction::Failed(why) => panic!("{why}"),
            NetAction::DriveToShell => {
                seen.push("drive".to_string());
                reply = NetReply::Reached(true);
            }
            NetAction::Type { line, .. } => seen.push(line),
            NetAction::StartBootp { mac, offer, server } => {
                assert_eq!(mac, [0x00, 0x1b, 0x22, 0x33, 0x44, 0x55]);
                assert_eq!((offer, server), ([10, 0, 0, 200], [10, 0, 0, 106]));
                seen.push("bootp".to_string());
            }
            other => seen.push(format!("{other:?}")),
        }
        assert!(seen.len() < 60);
    }
    let at = |s: &str| seen.iter().position(|x| x.contains(s)).unwrap();
    assert!(at("Stage") < at("bootp") && at("bootp") < at("StartTftp") && at("StartTftp") < at("OpenSerial"));
    assert!(at("drive") < at("tftp get 10.0.0.106 0x6000000 bzImage"));
    assert!(at("bootlinux") < at("StopServers"));
    assert!(Netboot::new("/dev/x", "10.0.0.106", "10.0.0.200", "bad", "", Some(&kernel), Some(&initrd), true).is_err());
    assert!(Netboot::new("/dev/x", "10.0.0", "10.0.0.200", "00:1b:22:33:44:55", "", Some(&kernel), Some(&initrd), true).is_err());
    assert!(Netboot::new("/dev/x", "10.0.0.1", "10.0.0.2", "00:1b:22:33:44:55", "", None, Some(&initrd), true).is_err());
}

#[test]
fn a_port_that_cannot_be_bound_says_why() {
    let denied = bind_error("BOOTP", 67, BindFault::Denied, "EACCES");
    let busy = bind_error("BOOTP", 67, BindFault::InUse, "EADDRINUSE");
    assert!(denied.contains("67") && busy.contains("67"));
    assert_ne!(denied, busy);
}

#[test]
fn progress_ends_a_prompt() {
    assert!(Event::step("next".into()).clears_await());
    assert!(Event::resolved("done".into()).clears_await());
    assert!(!Event::detail("still".into()).clears_await());
    assert!(!Event::await_user("hold", "the button").clears_await());
}

#[test]
fn white_space_around_a_version_does_not_matter() {
    assert!(!differs_from_release(" v1.2.0\n", "v1.2.0 "));
    assert!(differs_from_release(" v1.1.0\n", "v1.2.0"));
    assert!(!differs_from_release(" unknown ", "v1.2.0"));
}

#[test]
fn a_board_is_not_offered_another_ones_bundle() {
    let asset = |name: &str| Asset { name: name.into(), url: String::new(), size: 1 };
    let rel = GhRelease {
        tag_name: "v1.2.0".into(),
        assets: vec![asset("openhc-ea1-v2-poe-v1.2.0.zip"), asset("openhc-ea1-v2-v1.2.0.zip")],
    };
    assert_eq!(rel.image_asset("ea1-v2").unwrap().name, "openhc-ea1-v2-v1.2.0.zip");
    assert_eq!(rel.image_asset("ea1-v2-poe").unwrap().name, "openhc-ea1-v2-poe-v1.2.0.zip");
    let poe = GhRelease { tag_name: "v1.2.0".into(), assets: vec![asset("openhc-ea1-v2-poe-v1.2.0.zip")] };
    assert!(poe.image_asset("ea1-v2").is_none());
}
